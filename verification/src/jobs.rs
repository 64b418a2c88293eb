//! The job-distribution model.
//!
//! Rendering is split into one job per image row. Jobs travel to a pool of
//! worker threads as messages on a shared queue, and each finished row comes
//! back on a results channel in whatever order the workers complete it. The
//! channels and threads themselves run outside the library; what is verified
//! here is the protocol around them: the submitted jobs are exactly the rows
//! `0 .. height`, each message drives a worker to exactly one action, and
//! aggregating a complete, duplicate-free batch of results fills every row
//! of both output buffers, independently of arrival order.

use vstd::prelude::*;

use crate::grid::GeometryBuffer;
use crate::grid::PixelContainer;
use crate::grid::RowColGBuffer;
use crate::grid::RowColPixels;
use vstd::set_lib::lemma_int_range;
use vstd::set_lib::lemma_subset_equality;
use vstd::set_lib::set_int_range;

verus! {

/// A message on the job queue: render one image row, or shut down. One
/// `Terminate` is sent per worker after all rows have been submitted.
#[derive(Clone, Copy, Debug, PartialEq, Eq, Structural)]
pub enum Message {
    NewWork(u32),
    Terminate,
}

/// What a worker does with one received message.
#[derive(Clone, Copy, Debug, PartialEq, Eq, Structural)]
pub enum WorkerAction {
    Render(u32),
    Exit,
}

/// A worker's decision for one message: a work message is rendered, a
/// termination message ends the worker's loop.
pub fn interpret_message(msg: &Message) -> (action: WorkerAction)
    ensures
        msg matches Message::NewWork(row) ==> action == WorkerAction::Render(*row),
        msg is Terminate ==> action is Exit,
{
    match msg {
        Message::NewWork(row) => WorkerAction::Render(*row),
        Message::Terminate => WorkerAction::Exit,
    }
}

/// The job batch for one render pass: exactly one work message per image
/// row, row `i` at position `i`. Every row is submitted once, none twice.
pub fn make_jobs(height: u32) -> (jobs: Vec<Message>)
    ensures
        jobs@.len() == height,
        forall|i: int| 0 <= i < height ==> jobs@[i] == Message::NewWork(i as u32),
{
    let mut jobs: Vec<Message> = Vec::new();
    let mut i: u32 = 0;
    while i < height
        invariant
            i <= height,
            jobs@.len() == i,
            forall|j: int| 0 <= j < i ==> jobs@[j] == Message::NewWork(j as u32),
        decreases height - i,
    {
        jobs.push(Message::NewWork(i));
        i = i + 1;
    }
    jobs
}

/// The shutdown batch: one termination message per worker, so every worker's
/// receive loop ends exactly once.
pub fn shutdown_messages(worker_count: usize) -> (msgs: Vec<Message>)
    ensures
        msgs@.len() == worker_count,
        forall|j: int| 0 <= j < worker_count ==> msgs@[j] is Terminate,
{
    let mut msgs: Vec<Message> = Vec::new();
    let mut i: usize = 0;
    while i < worker_count
        invariant
            i <= worker_count,
            msgs@.len() == i,
            forall|j: int| 0 <= j < i ==> msgs@[j] is Terminate,
        decreases worker_count - i,
    {
        msgs.push(Message::Terminate);
        i = i + 1;
    }
    msgs
}

/// One finished render job: the index of the row it rendered, the row's
/// pixels, and the row's geometry-buffer cells.
pub struct RowResult<T, G> {
    pub row_num: u32,
    pub pixels: RowColPixels<T>,
    pub gbuffer: RowColGBuffer<G>,
}

/// No two results claim the same row.
pub open spec fn rows_distinct<T, G>(results: Seq<RowResult<T, G>>) -> bool {
    forall|j: int, k: int|
        0 <= j < k < results.len() ==> (#[trigger] results[j]).row_num != (
        #[trigger] results[k]).row_num
}

/// Every result's row index fits the image.
pub open spec fn rows_in_range<T, G>(results: Seq<RowResult<T, G>>, height: int) -> bool {
    forall|j: int| 0 <= j < results.len() ==> (#[trigger] results[j]).row_num < height
}

/// Every result carries one full row of pixels and of geometry cells.
pub open spec fn rows_wf<T, G>(results: Seq<RowResult<T, G>>, width: int) -> bool {
    forall|j: int|
        0 <= j < results.len() ==> (#[trigger] results[j]).pixels@.len() == 3 * width
            && results[j].gbuffer@.len() == width
}

/// The buffers `pix` and `gb` hold every drained result at its row index.
pub open spec fn aggregated<T, G>(
    results: Seq<RowResult<T, G>>,
    pix: Seq<Seq<T>>,
    gb: Seq<Seq<G>>,
    height: int,
) -> bool {
    &&& pix.len() == height
    &&& gb.len() == height
    &&& forall|j: int|
        0 <= j < results.len() ==> pix[(#[trigger] results[j]).row_num as int]
            == results[j].pixels@ && gb[results[j].row_num as int] == results[j].gbuffer@
}

/// Place a complete batch of drained results: each row lands at the index it
/// carries, so the final buffers do not depend on the order the workers
/// finished in.
pub fn collect_rows<T: Copy, G: Copy>(
    results: Vec<RowResult<T, G>>,
    width: usize,
    height: usize,
    fill: T,
) -> (out: (PixelContainer<T>, GeometryBuffer<G>))
    requires
        3 * width <= usize::MAX,
        results@.len() == height,
        rows_in_range(results@, height as int),
        rows_distinct(results@),
        rows_wf(results@, width as int),
    ensures
        out.0.wf(),
        out.0.spec_width() == width,
        out.0.spec_height() == height,
        out.1.wf(),
        out.1.spec_height() == height,
        aggregated(results@, out.0@, out.1@, height as int),
{
    let ghost orig = results@;
    let mut remaining = results;
    let mut pix = PixelContainer::new(width, height, fill);
    let mut gbuf = GeometryBuffer::new(height);
    while remaining.len() > 0
        invariant
            3 * width <= usize::MAX,
            pix.wf(),
            pix.spec_width() == width,
            pix.spec_height() == height,
            gbuf.wf(),
            gbuf.spec_height() == height,
            orig.len() == height,
            rows_in_range(orig, height as int),
            rows_distinct(orig),
            rows_wf(orig, width as int),
            remaining@ == orig.subrange(0, remaining@.len() as int),
            remaining@.len() <= orig.len(),
            forall|j: int|
                remaining@.len() <= j < orig.len() ==> pix@[(#[trigger] orig[j]).row_num as int]
                    == orig[j].pixels@ && gbuf@[orig[j].row_num as int] == orig[j].gbuffer@,
        decreases remaining@.len(),
    {
        let ghost pos = remaining@.len() - 1;
        let item = remaining.pop().unwrap();
        proof {
            assert(item == orig[pos]);
        }
        let row = item.row_num as usize;
        pix.set_row(row, item.pixels);
        gbuf.set_row(row, item.gbuffer);
        proof {
            assert(remaining@ =~= orig.subrange(0, remaining@.len() as int));
            assert forall|j: int|
                remaining@.len() <= j < orig.len() implies pix@[(
            #[trigger] orig[j]).row_num as int] == orig[j].pixels@ && gbuf@[orig[j].row_num as int]
                == orig[j].gbuffer@ by {
                if j == pos {
                } else {
                    assert(orig[j].row_num != orig[pos].row_num);
                }
            }
        }
    }
    (pix, gbuf)
}

/// Some drained result rendered row `r`.
pub open spec fn row_covered<T, G>(results: Seq<RowResult<T, G>>, r: int) -> bool {
    exists|j: int| 0 <= j < results.len() && (#[trigger] results[j]).row_num == r
}

/// The drained batch is complete: when `height` results arrive, none out of
/// range and no two for the same row, then every image row `0 <= r < height`
/// was rendered by exactly one of them — no omissions, no duplicates,
/// whatever the number of workers and whatever order they finished in.
pub proof fn lemma_rows_complete<T, G>(results: Seq<RowResult<T, G>>, height: int)
    requires
        results.len() == height,
        rows_in_range(results, height),
        rows_distinct(results),
    ensures
        forall|r: int| 0 <= r < height ==> #[trigger] row_covered(results, r),
{
    let idx = results.map_values(|res: RowResult<T, G>| res.row_num as int);
    assert(idx.no_duplicates());
    idx.unique_seq_to_set();
    let range = set_int_range(0, height);
    lemma_int_range(0, height);
    assert(idx.to_set().subset_of(range)) by {
        assert forall|v: int| idx.to_set().contains(v) implies range.contains(v) by {
            let j = choose|j: int| 0 <= j < idx.len() && idx[j] == v;
            assert(results[j].row_num < height);
        }
    }
    lemma_subset_equality(idx.to_set(), range);
    assert forall|r: int| 0 <= r < height implies #[trigger] row_covered(results, r) by {
        assert(range.contains(r));
        assert(idx.to_set().contains(r));
        assert(idx.contains(r));
        let j = choose|j: int| 0 <= j < idx.len() && idx[j] == r;
        assert(results[j].row_num == r);
    }
}

/// The row indices one render pass submits, in submission order: `make_jobs`
/// sends `NewWork(i)` at position `i`, so these are `0, 1, .., height - 1`.
pub open spec fn job_rows(height: int) -> Seq<u32> {
    Seq::new(height as nat, |i: int| i as u32)
}

/// Processing each submitted job exactly once yields a complete batch: if
/// the drained row indices are, as a multiset, exactly the rows `0 .. height`
/// that were submitted — one result per job, whichever worker ran it and in
/// whatever order the results arrived — then there are `height` results, no
/// two for the same row, none out of range, and every image row is covered.
pub proof fn lemma_drained_jobs_form_complete_batch<T, G>(
    results: Seq<RowResult<T, G>>,
    height: int,
)
    requires
        0 <= height <= u32::MAX,
        results.map_values(|res: RowResult<T, G>| res.row_num).to_multiset() == job_rows(
            height,
        ).to_multiset(),
    ensures
        results.len() == height,
        rows_in_range(results, height),
        rows_distinct(results),
        forall|r: int| 0 <= r < height ==> #[trigger] row_covered(results, r),
{
    let rows = results.map_values(|res: RowResult<T, G>| res.row_num);
    let jobs = job_rows(height);
    rows.to_multiset_ensures();
    jobs.to_multiset_ensures();
    assert(results.len() == height) by {
        assert(rows.len() == rows.to_multiset().len());
        assert(jobs.len() == jobs.to_multiset().len());
    }
    assert(jobs.no_duplicates());
    jobs.lemma_multiset_has_no_duplicates();
    rows.lemma_multiset_has_no_duplicates_conv();
    assert(rows_distinct(results)) by {
        assert forall|j: int, k: int| 0 <= j < k < results.len() implies (
        #[trigger] results[j]).row_num != (#[trigger] results[k]).row_num by {
            assert(rows[j] == results[j].row_num && rows[k] == results[k].row_num);
        }
    }
    assert(rows_in_range(results, height)) by {
        assert forall|j: int| 0 <= j < results.len() implies (#[trigger] results[j]).row_num
            < height by {
            assert(rows[j] == results[j].row_num);
            assert(rows.contains(rows[j]));
            assert(rows.to_multiset().count(rows[j]) > 0);
            assert(jobs.contains(rows[j]));
            let i = choose|i: int| 0 <= i < jobs.len() && jobs[i] == rows[j];
            assert(jobs[i] == i as u32);
        }
    }
    assert forall|r: int| 0 <= r < height implies #[trigger] row_covered(results, r) by {
        assert(jobs[r] == r as u32);
        assert(jobs.contains(r as u32));
        assert(jobs.to_multiset().count(r as u32) > 0);
        assert(rows.contains(r as u32));
        let j = choose|j: int| 0 <= j < rows.len() && rows[j] == r as u32;
        assert(results[j].row_num == r);
    }
}

/// Aggregation is order-independent: two complete, duplicate-free batches
/// made of the same results — one the arrival order of one render run, the
/// other any reordering of it — fill the pixel and geometry buffers with
/// exactly the same contents.
pub proof fn lemma_aggregation_order_independent<T, G>(
    a: Seq<RowResult<T, G>>,
    b: Seq<RowResult<T, G>>,
    pix_a: Seq<Seq<T>>,
    gb_a: Seq<Seq<G>>,
    pix_b: Seq<Seq<T>>,
    gb_b: Seq<Seq<G>>,
    height: int,
)
    requires
        a.len() == height,
        b.len() == height,
        rows_in_range(a, height),
        rows_distinct(a),
        rows_distinct(b),
        forall|j: int| 0 <= j < b.len() ==> a.contains(#[trigger] b[j]),
        aggregated(a, pix_a, gb_a, height),
        aggregated(b, pix_b, gb_b, height),
    ensures
        pix_a =~= pix_b,
        gb_a =~= gb_b,
{
    assert(rows_in_range(b, height)) by {
        assert forall|j: int| 0 <= j < b.len() implies (#[trigger] b[j]).row_num < height by {
            let k = choose|k: int| 0 <= k < a.len() && a[k] == b[j];
            assert(a[k].row_num < height);
        }
    }
    lemma_rows_complete(a, height);
    lemma_rows_complete(b, height);
    assert forall|r: int| 0 <= r < height implies pix_a[r] == pix_b[r] && gb_a[r] == gb_b[r] by {
        assert(row_covered(b, r));
        let jb = choose|j: int| 0 <= j < b.len() && (#[trigger] b[j]).row_num == r;
        assert(a.contains(b[jb]));
        let ka = choose|k: int| 0 <= k < a.len() && a[k] == b[jb];
        assert(pix_a[r] == a[ka].pixels@ && gb_a[r] == a[ka].gbuffer@);
        assert(pix_b[r] == b[jb].pixels@ && gb_b[r] == b[jb].gbuffer@);
    }
}

} // verus!
