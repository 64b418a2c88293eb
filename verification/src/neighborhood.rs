//! Index generation for the denoising passes.
//!
//! The outlier-removal stage reads a bounded window of up to 48 neighbours
//! around each pixel; the edge-aware filter passes sample a handful of
//! pixels at an increasing stride along the current axis. Both neighbourhood
//! shapes are computed here, clipped at the image borders, and verified to
//! contain exactly the in-window coordinates, each once.

use vstd::prelude::*;

verus! {

/// Whether `(c, r)` lies in the 7 x 7 outlier-removal window around
/// `(col, row)`, inside a `width` x `height` image, centre excluded.
pub open spec fn in_neighbor_window(
    c: int,
    r: int,
    col: int,
    row: int,
    width: int,
    height: int,
) -> bool {
    &&& 0 <= c < width
    &&& 0 <= r < height
    &&& col - 3 <= c <= col + 3
    &&& row - 3 <= r <= row + 3
    &&& !(c == col && r == row)
}

/// Strict column-major order on pixel coordinates.
pub open spec fn coord_lt(a: (usize, usize), b: (usize, usize)) -> bool {
    a.0 < b.0 || (a.0 == b.0 && a.1 < b.1)
}

/// The up-to-48 neighbours of pixel `(col_num, row_num)` in a 7 x 7 window,
/// clipped at the image borders, centre excluded, in column-major order.
pub fn generate_neighbor_pixel_coordinate(
    col_num: usize,
    row_num: usize,
    width: usize,
    height: usize,
) -> (res: Vec<(usize, usize)>)
    requires
        col_num < width,
        row_num < height,
        width + 3 <= usize::MAX,
        height + 3 <= usize::MAX,
    ensures
        forall|j: int|
            0 <= j < res@.len() ==> in_neighbor_window(
                #[trigger] res@[j].0 as int,
                res@[j].1 as int,
                col_num as int,
                row_num as int,
                width as int,
                height as int,
            ),
        forall|c: usize, r: usize|
            in_neighbor_window(
                c as int,
                r as int,
                col_num as int,
                row_num as int,
                width as int,
                height as int,
            ) ==> #[trigger] res@.contains((c, r)),
        forall|j: int, k: int| 0 <= j < k < res@.len() ==> coord_lt(#[trigger] res@[j], #[trigger] res@[k]),
{
    let c_lo: usize = if col_num >= 3 {
        col_num - 3
    } else {
        0
    };
    let c_hi: usize = if col_num + 3 < width {
        col_num + 3
    } else {
        width - 1
    };
    let r_lo: usize = if row_num >= 3 {
        row_num - 3
    } else {
        0
    };
    let r_hi: usize = if row_num + 3 < height {
        row_num + 3
    } else {
        height - 1
    };
    let mut res: Vec<(usize, usize)> = Vec::new();
    let mut c: usize = c_lo;
    while c <= c_hi
        invariant
            col_num < width,
            row_num < height,
            width + 3 <= usize::MAX,
            height + 3 <= usize::MAX,
            c_lo == if col_num >= 3 { col_num - 3 } else { 0 },
            c_hi == if col_num + 3 < width { col_num + 3 } else { width - 1 },
            r_lo == if row_num >= 3 { row_num - 3 } else { 0 },
            r_hi == if row_num + 3 < height { row_num + 3 } else { height - 1 },
            c_lo <= c <= c_hi + 1,
            forall|j: int|
                0 <= j < res@.len() ==> in_neighbor_window(
                    #[trigger] res@[j].0 as int,
                    res@[j].1 as int,
                    col_num as int,
                    row_num as int,
                    width as int,
                    height as int,
                ),
            forall|c0: usize, r0: usize|
                in_neighbor_window(
                    c0 as int,
                    r0 as int,
                    col_num as int,
                    row_num as int,
                    width as int,
                    height as int,
                ) && c0 < c ==> #[trigger] res@.contains((c0, r0)),
            forall|j: int| 0 <= j < res@.len() ==> (#[trigger] res@[j]).0 < c,
            forall|j: int, k: int|
                0 <= j < k < res@.len() ==> coord_lt(#[trigger] res@[j], #[trigger] res@[k]),
        decreases c_hi + 1 - c,
    {
        let mut r: usize = r_lo;
        while r <= r_hi
            invariant
                col_num < width,
                row_num < height,
                width + 3 <= usize::MAX,
                height + 3 <= usize::MAX,
                c_lo == if col_num >= 3 { col_num - 3 } else { 0 },
                c_hi == if col_num + 3 < width { col_num + 3 } else { width - 1 },
                r_lo == if row_num >= 3 { row_num - 3 } else { 0 },
                r_hi == if row_num + 3 < height { row_num + 3 } else { height - 1 },
                c_lo <= c <= c_hi,
                r_lo <= r <= r_hi + 1,
                forall|j: int|
                    0 <= j < res@.len() ==> in_neighbor_window(
                        #[trigger] res@[j].0 as int,
                        res@[j].1 as int,
                        col_num as int,
                        row_num as int,
                        width as int,
                        height as int,
                    ),
                forall|c0: usize, r0: usize|
                    in_neighbor_window(
                        c0 as int,
                        r0 as int,
                        col_num as int,
                        row_num as int,
                        width as int,
                        height as int,
                    ) && (c0 < c || (c0 == c && r0 < r)) ==> #[trigger] res@.contains((c0, r0)),
                forall|j: int|
                    0 <= j < res@.len() ==> ((#[trigger] res@[j]).0 < c || (res@[j].0 == c
                        && res@[j].1 < r)),
                forall|j: int, k: int|
                    0 <= j < k < res@.len() ==> coord_lt(#[trigger] res@[j], #[trigger] res@[k]),
            decreases r_hi + 1 - r,
        {
            if !(c == col_num && r == row_num) {
                let ghost pre = res@;
                res.push((c, r));
                proof {
                    assert(res@ == pre.push((c, r)));
                    assert forall|c0: usize, r0: usize|
                        in_neighbor_window(
                            c0 as int,
                            r0 as int,
                            col_num as int,
                            row_num as int,
                            width as int,
                            height as int,
                        ) && (c0 < c || (c0 == c && r0 < r + 1)) implies #[trigger] res@.contains(
                        (c0, r0),
                    ) by {
                        if c0 == c && r0 == r {
                            assert(res@[res@.len() - 1] == (c0, r0));
                        } else {
                            assert(pre.contains((c0, r0)));
                            let j = choose|j: int| 0 <= j < pre.len() && pre[j] == (c0, r0);
                            assert(res@[j] == (c0, r0));
                        }
                    }
                }
            }
            r = r + 1;
        }
        c = c + 1;
    }
    proof {
        assert forall|c0: usize, r0: usize|
            in_neighbor_window(
                c0 as int,
                r0 as int,
                col_num as int,
                row_num as int,
                width as int,
                height as int,
            ) implies #[trigger] res@.contains((c0, r0)) by {
            assert(c0 < c);
        }
    }
    res
}

/// Whether `v` is one of the up-to-six sample positions the edge-aware
/// filter reads around `center` at stride `s`, inside a line of `limit`
/// pixels.
pub open spec fn is_filter_sample(v: int, center: int, s: int, limit: int) -> bool {
    &&& 0 <= v < limit
    &&& (v == center - 3 * s || v == center - 2 * s || v == center - s || v == center + s || v
        == center + 2 * s || v == center + 3 * s)
}

/// The sample positions of filter pass `step` around `center` in a line of
/// `limit` pixels: three pixels on each side at stride `step + 1`, clipped
/// at the line's ends, in ascending order. Later passes use a wider stride,
/// so the filter's support grows pass by pass.
pub fn generate_num_sequence(center: usize, step: usize, limit: usize) -> (res: Vec<usize>)
    requires
        center < limit,
        3 * (step + 1) <= usize::MAX,
    ensures
        forall|j: int|
            0 <= j < res@.len() ==> is_filter_sample(
                #[trigger] res@[j] as int,
                center as int,
                step + 1,
                limit as int,
            ),
        forall|v: usize|
            is_filter_sample(v as int, center as int, step + 1, limit as int)
                ==> #[trigger] res@.contains(v),
        forall|j: int, k: int| 0 <= j < k < res@.len() ==> res@[j] < res@[k],
{
    let s: usize = step + 1;
    let mut res: Vec<usize> = Vec::new();
    if center >= 3 * s {
        res.push(center - 3 * s);
    }
    if center >= 2 * s {
        res.push(center - 2 * s);
    }
    if center >= s {
        res.push(center - s);
    }
    if s < limit - center {
        res.push(center + s);
    }
    if 2 * s < limit - center {
        res.push(center + 2 * s);
    }
    if 3 * s < limit - center {
        res.push(center + 3 * s);
    }
    proof {
        let s0: int = step + 1;
        let n3: int = if 3 * s0 <= center { 1 } else { 0 };
        let n2: int = if 2 * s0 <= center { 1 } else { 0 };
        let n1: int = if s0 <= center { 1 } else { 0 };
        let p1: int = if s0 < limit - center { 1 } else { 0 };
        let p2: int = if 2 * s0 < limit - center { 1 } else { 0 };
        assert forall|v: usize|
            is_filter_sample(v as int, center as int, step + 1, limit as int) implies #[trigger] res@.contains(
            v,
        ) by {
            if v == center - 3 * s0 {
                assert(res@[0] == v);
            } else if v == center - 2 * s0 {
                assert(res@[n3] == v);
            } else if v == center - s0 {
                assert(res@[n3 + n2] == v);
            } else if v == center + s0 {
                assert(res@[n3 + n2 + n1] == v);
            } else if v == center + 2 * s0 {
                assert(res@[n3 + n2 + n1 + p1] == v);
            } else {
                assert(res@[n3 + n2 + n1 + p1 + p2] == v);
            }
        }
    }
    res
}

} // verus!
