use pathtracer::grid::FilterType;
use pathtracer::grid::GeometryBuffer;
use pathtracer::grid::PixelContainer;
use pathtracer::grid::RowColGBuffer;
use pathtracer::grid::RowColPixels;
use pathtracer::jobs::collect_rows;
use pathtracer::jobs::interpret_message;
use pathtracer::jobs::make_jobs;
use pathtracer::jobs::shutdown_messages;
use pathtracer::jobs::Message;
use pathtracer::jobs::RowResult;
use pathtracer::jobs::WorkerAction;

#[test]
fn make_jobs_submits_every_row_once() {
    let jobs = make_jobs(5);
    assert_eq!(jobs.len(), 5);
    for (i, job) in jobs.iter().enumerate() {
        assert!(matches!(job, Message::NewWork(row) if *row == i as u32));
    }
}

#[test]
fn shutdown_messages_one_per_worker() {
    let msgs = shutdown_messages(3);
    assert_eq!(msgs.len(), 3);
    for msg in msgs.iter() {
        assert!(matches!(msg, Message::Terminate));
    }
}

#[test]
fn interpret_message_drives_the_worker() {
    assert_eq!(interpret_message(&Message::NewWork(7)), WorkerAction::Render(7));
    assert_eq!(interpret_message(&Message::Terminate), WorkerAction::Exit);
}

fn result_for_row(row_num: u32, width: usize, height: usize) -> RowResult<u64, u32> {
    let mut pixels: RowColPixels<u64> = RowColPixels::new(FilterType::Row, width, height, 0);
    let mut gbuffer: RowColGBuffer<u32> = RowColGBuffer::new_empty(FilterType::Row);
    for x in 0..width {
        let v = (row_num as u64) * 100 + x as u64;
        pixels.set_color(x, [v, v + 1, v + 2]);
        gbuffer.push_data(row_num * 10 + x as u32);
    }
    RowResult { row_num, pixels, gbuffer }
}

fn check_buffers(pix: &PixelContainer<u64>, gbuf: &GeometryBuffer<u32>, width: usize, height: usize) {
    for y in 0..height {
        let grow = gbuf.get_x_or_y(y, FilterType::Row);
        for x in 0..width {
            let v = (y as u64) * 100 + x as u64;
            assert_eq!(pix.get_colors(x, y), [v, v + 1, v + 2]);
            assert_eq!(*grow.get_data(x), (y as u32) * 10 + x as u32);
        }
    }
}

#[test]
fn collect_rows_places_rows_at_their_index() {
    let width = 2;
    let height = 3;
    // Completion order 2, 0, 1: out-of-order arrival.
    let results = vec![
        result_for_row(2, width, height),
        result_for_row(0, width, height),
        result_for_row(1, width, height),
    ];
    let (pix, gbuf) = collect_rows(results, width, height, 0);
    check_buffers(&pix, &gbuf, width, height);
}

#[test]
fn collect_rows_is_order_independent() {
    let width = 2;
    let height = 4;
    let order_a = [3u32, 1, 0, 2];
    let order_b = [0u32, 2, 3, 1];
    let results_a: Vec<_> = order_a.iter().map(|&r| result_for_row(r, width, height)).collect();
    let results_b: Vec<_> = order_b.iter().map(|&r| result_for_row(r, width, height)).collect();
    let (pix_a, gbuf_a) = collect_rows(results_a, width, height, 0);
    let (pix_b, gbuf_b) = collect_rows(results_b, width, height, 0);
    for y in 0..height {
        let ga = gbuf_a.get_x_or_y(y, FilterType::Row);
        let gb = gbuf_b.get_x_or_y(y, FilterType::Row);
        for x in 0..width {
            assert_eq!(pix_a.get_colors(x, y), pix_b.get_colors(x, y));
            assert_eq!(*ga.get_data(x), *gb.get_data(x));
        }
    }
    check_buffers(&pix_a, &gbuf_a, width, height);
}

#[test]
fn draining_submitted_jobs_covers_every_row() {
    // Submit jobs for rows 0..height, process them on a simulated pool of
    // n workers (round-robin), drain in completion order, and check every
    // row index arrives exactly once, for every worker count.
    let height: u32 = 6;
    for workers in 1..=4usize {
        let jobs = make_jobs(height);
        let mut queues: Vec<Vec<u32>> = vec![Vec::new(); workers];
        for (i, job) in jobs.iter().enumerate() {
            match interpret_message(job) {
                WorkerAction::Render(row) => queues[i % workers].push(row),
                WorkerAction::Exit => unreachable!(),
            }
        }
        let mut drained: Vec<u32> = Vec::new();
        for q in queues {
            drained.extend(q);
        }
        assert_eq!(drained.len(), height as usize);
        let mut seen = vec![false; height as usize];
        for row in drained {
            assert!(!seen[row as usize]);
            seen[row as usize] = true;
        }
        assert!(seen.iter().all(|&s| s));
    }
}
