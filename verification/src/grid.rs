//! Pixel and geometry buffers.
//!
//! Both buffers are a single row-major store re-sliceable by row or by
//! column, so the two directional filter passes read equivalent data
//! whatever the physical layout. The element type is generic: the renderer
//! stores its floating-point colour channels and geometry cells through
//! these containers, while the placement logic is verified here.

use vstd::prelude::*;

verus! {

/// Axis selector for the two directional filter passes: a `Row` pass walks
/// one image row, a `Col` pass walks one image column.
#[derive(Clone, Copy, Debug, PartialEq, Eq, Structural)]
pub enum FilterType {
    Row,
    Col,
}

/// One line of pixels: three channel values per pixel, stored flat.
///
/// A line is either an image row (when produced by a `Row` slice) or an
/// image column (when produced by a `Col` slice); the container does not
/// care which.
pub struct RowColPixels<T> {
    data: Vec<T>,
}

impl<T> View for RowColPixels<T> {
    type V = Seq<T>;

    closed spec fn view(&self) -> Seq<T> {
        self.data@
    }
}

/// Number of channel values in one line: three per pixel, along a row for
/// the `Row` layout and along a column for the `Col` layout.
pub open spec fn line_len(indicator: FilterType, width: int, height: int) -> int {
    match indicator {
        FilterType::Row => 3 * width,
        FilterType::Col => 3 * height,
    }
}

impl<T: Copy> RowColPixels<T> {
    /// A line of `width` x `height` image pixels along the given axis, every
    /// channel set to `fill`.
    pub fn new(indicator: FilterType, width: usize, height: usize, fill: T) -> (line: Self)
        requires
            line_len(indicator, width as int, height as int) <= usize::MAX,
        ensures
            line@.len() == line_len(indicator, width as int, height as int),
            forall|j: int| 0 <= j < line@.len() ==> line@[j] == fill,
    {
        let n: usize = match indicator {
            FilterType::Row => 3 * width,
            FilterType::Col => 3 * height,
        };
        let mut data: Vec<T> = Vec::new();
        let mut j: usize = 0;
        while j < n
            invariant
                j <= n,
                data@.len() == j,
                forall|k: int| 0 <= k < j ==> data@[k] == fill,
            decreases n - j,
        {
            data.push(fill);
            j = j + 1;
        }
        RowColPixels { data }
    }

    /// The three channel values of the pixel at `index` within this line.
    pub fn get_color(&self, index: usize) -> (c: [T; 3])
        requires
            3 * index + 2 < self@.len(),
        ensures
            c@ =~= self@.subrange(3 * index as int, 3 * index + 3),
    {
        let n = self.data.len();
        assert(3 * index + 2 < n);
        [self.data[3 * index], self.data[3 * index + 1], self.data[3 * index + 2]]
    }

    /// Overwrite the three channel values of the pixel at `index`.
    pub fn set_color(&mut self, index: usize, color: [T; 3])
        requires
            3 * index + 2 < old(self)@.len(),
        ensures
            final(self)@.len() == old(self)@.len(),
            forall|k: int| 0 <= k < 3 ==> final(self)@[3 * index + k] == color@[k],
            forall|j: int|
                0 <= j < final(self)@.len() && !(3 * index <= j < 3 * index + 3)
                    ==> final(self)@[j] == old(self)@[j],
    {
        let n = self.data.len();
        assert(3 * index + 2 < n);
        self.data.set(3 * index, color[0]);
        self.data.set(3 * index + 1, color[1]);
        self.data.set(3 * index + 2, color[2]);
    }

    /// Number of channel values held: three per pixel.
    pub fn len(&self) -> (n: usize)
        ensures
            n == self@.len(),
    {
        self.data.len()
    }

    /// One channel value of this line.
    pub fn get_value(&self, index: usize) -> (v: T)
        requires
            index < self@.len(),
        ensures
            v == self@[index as int],
    {
        self.data[index]
    }

    /// Overwrite one channel value of this line.
    pub fn set_value(&mut self, index: usize, value: T)
        requires
            index < old(self)@.len(),
        ensures
            final(self)@ == old(self)@.update(index as int, value),
    {
        self.data.set(index, value);
    }
}

/// The image's pixel store: `height` rows of `width` pixels, three channel
/// accumulators per pixel, row-major.
pub struct PixelContainer<T> {
    width: usize,
    height: usize,
    data: Vec<RowColPixels<T>>,
}

impl<T> View for PixelContainer<T> {
    type V = Seq<Seq<T>>;

    closed spec fn view(&self) -> Seq<Seq<T>> {
        self.data@.map_values(|line: RowColPixels<T>| line@)
    }
}

impl<T: Copy> PixelContainer<T> {
    /// Image width in pixels.
    pub closed spec fn spec_width(&self) -> int {
        self.width as int
    }

    /// Image height in pixels (number of rows).
    pub closed spec fn spec_height(&self) -> int {
        self.height as int
    }

    /// Every row holds exactly `3 * width` channel values and there are
    /// exactly `height` rows.
    pub open spec fn wf(&self) -> bool {
        &&& self@.len() == self.spec_height()
        &&& forall|y: int| 0 <= y < self@.len() ==> (#[trigger] self@[y]).len() == 3
            * self.spec_width()
    }

    pub fn width(&self) -> (w: usize)
        ensures
            w == self.spec_width(),
    {
        self.width
    }

    pub fn height(&self) -> (h: usize)
        ensures
            h == self.spec_height(),
    {
        self.height
    }

    /// A `width` x `height` image with every channel set to `fill`.
    pub fn new(width: usize, height: usize, fill: T) -> (img: Self)
        requires
            3 * width <= usize::MAX,
        ensures
            img.wf(),
            img.spec_width() == width,
            img.spec_height() == height,
            forall|y: int, j: int|
                0 <= y < height && 0 <= j < 3 * width ==> #[trigger] img@[y][j] == fill,
    {
        let mut data: Vec<RowColPixels<T>> = Vec::new();
        let mut y: usize = 0;
        while y < height
            invariant
                y <= height,
                3 * width <= usize::MAX,
                data@.len() == y,
                forall|i: int| 0 <= i < y ==> (#[trigger] data@[i]@).len() == 3 * width,
                forall|i: int, j: int|
                    0 <= i < y && 0 <= j < 3 * width ==> #[trigger] data@[i]@[j] == fill,
            decreases height - y,
        {
            data.push(RowColPixels::new(FilterType::Row, width, height, fill));
            y = y + 1;
        }
        let img = PixelContainer { width, height, data };
        assert forall|y0: int| 0 <= y0 < img@.len() implies (#[trigger] img@[y0]).len() == 3
            * width by {
            assert(img@[y0] == data@[y0]@);
        }
        assert forall|y0: int, j: int|
            0 <= y0 < height && 0 <= j < 3 * width implies #[trigger] img@[y0][j] == fill by {
            assert(img@[y0] == data@[y0]@);
        }
        img
    }

    /// The three channel values of the pixel in column `col_num` of row
    /// `row_num`.
    pub fn get_colors(&self, col_num: usize, row_num: usize) -> (c: [T; 3])
        requires
            self.wf(),
            col_num < self.spec_width(),
            row_num < self.spec_height(),
        ensures
            c@ =~= self@[row_num as int].subrange(3 * col_num as int, 3 * col_num + 3),
    {
        proof {
            assert(self@[row_num as int] == self.data@[row_num as int]@);
        }
        self.data[row_num].get_color(col_num)
    }

    /// Overwrite one pixel. Under a `Row` pass `(x, y)` is (column, row);
    /// under a `Col` pass the roles are swapped, so the column passes can
    /// write through the same coordinate convention they read with.
    pub fn set_colors(&mut self, x: usize, y: usize, colors: [T; 3], filter_type: FilterType)
        requires
            old(self).wf(),
            filter_type is Row ==> x < old(self).spec_width() && y < old(self).spec_height(),
            filter_type is Col ==> y < old(self).spec_width() && x < old(self).spec_height(),
        ensures
            final(self).wf(),
            final(self).spec_width() == old(self).spec_width(),
            final(self).spec_height() == old(self).spec_height(),
            final(self)@.len() == old(self)@.len(),
            ({
                let row = if filter_type is Row { y as int } else { x as int };
                let col = if filter_type is Row { x as int } else { y as int };
                &&& forall|k: int|
                    0 <= k < 3 ==> #[trigger] final(self)@[row][3 * col + k] == colors@[k]
                &&& forall|r: int, j: int|
                    0 <= r < final(self)@.len() && 0 <= j < final(self)@[r].len() && !(r == row && 3
                        * col <= j < 3 * col + 3)
                        ==> #[trigger] final(self)@[r][j] == old(self)@[r][j]
            }),
    {
        let (col, row) = match filter_type {
            FilterType::Row => (x, y),
            FilterType::Col => (y, x),
        };
        proof {
            assert(self@[row as int] == self.data@[row as int]@);
        }
        let mut line = self.data[row].clone_line();
        line.set_color(col, colors);
        self.data.set(row, line);
        proof {
            assert forall|r: int| 0 <= r < self@.len() implies (#[trigger] self@[r]).len() == 3
                * self.spec_width() by {
                assert(self@[r] == self.data@[r]@);
                assert(old(self)@[r] == old(self).data@[r]@);
            }
            assert forall|r: int, j: int|
                0 <= r < self@.len() && 0 <= j < self@[r].len() && !(r == row as int && 3 * col <= j
                    < 3 * col + 3) implies #[trigger] self@[r][j] == old(self)@[r][j] by {
                assert(self@[r] == self.data@[r]@);
                assert(old(self)@[r] == old(self).data@[r]@);
            }
            assert(self@[row as int] == self.data@[row as int]@);
            assert(old(self)@[row as int] == old(self).data@[row as int]@);
        }
    }

    /// Replace one whole row.
    pub fn set_row(&mut self, row_num: usize, row_content: RowColPixels<T>)
        requires
            old(self).wf(),
            row_num < old(self).spec_height(),
            row_content@.len() == 3 * old(self).spec_width(),
        ensures
            final(self).wf(),
            final(self).spec_width() == old(self).spec_width(),
            final(self).spec_height() == old(self).spec_height(),
            final(self)@ =~= old(self)@.update(row_num as int, row_content@),
    {
        self.data.set(row_num, row_content);
        proof {
            assert forall|r: int| 0 <= r < self@.len() implies (#[trigger] self@[r]).len() == 3
                * self.spec_width() by {
                assert(self@[r] == self.data@[r]@);
                assert(old(self)@[r] == old(self).data@[r]@);
            }
            assert forall|r: int| 0 <= r < self@.len() implies self@[r] == old(self)@.update(
                row_num as int,
                row_content@,
            )[r] by {
                assert(self@[r] == self.data@[r]@);
                assert(old(self)@[r] == old(self).data@[r]@);
            }
        }
    }

    /// One whole line of the image: row `row_col_num` under `Row`, column
    /// `row_col_num` under `Col`. Both slices read the same row-major store,
    /// so the two access patterns return equivalent data.
    pub fn get_x_or_y(&self, row_col_num: usize, indicator: FilterType) -> (line: RowColPixels<T>)
        requires
            self.wf(),
            indicator is Row ==> row_col_num < self.spec_height(),
            indicator is Col ==> row_col_num < self.spec_width(),
        ensures
            indicator is Row ==> line@ == self@[row_col_num as int],
            indicator is Col ==> {
                &&& line@.len() == 3 * self.spec_height()
                &&& forall|i: int, k: int|
                    0 <= i < self.spec_height() && 0 <= k < 3 ==> #[trigger] line@[3 * i + k]
                        == self@[i][3 * row_col_num + k]
            },
    {
        match indicator {
            FilterType::Row => {
                proof {
                    assert(self@[row_col_num as int] == self.data@[row_col_num as int]@);
                }
                self.data[row_col_num].clone_line()
            },
            FilterType::Col => {
                let mut data: Vec<T> = Vec::new();
                let mut i: usize = 0;
                while i < self.height
                    invariant
                        self.wf(),
                        row_col_num < self.spec_width(),
                        i <= self.spec_height(),
                        data@.len() == 3 * i,
                        forall|i0: int, k: int|
                            0 <= i0 < i && 0 <= k < 3 ==> #[trigger] data@[3 * i0 + k]
                                == self@[i0][3 * row_col_num + k],
                    decreases self.height - i,
                {
                    proof {
                        assert(self@[i as int] == self.data@[i as int]@);
                    }
                    let c = self.data[i].get_color(row_col_num);
                    data.push(c[0]);
                    data.push(c[1]);
                    data.push(c[2]);
                    i = i + 1;
                }
                RowColPixels { data }
            },
        }
    }
}

impl<T: Copy> RowColPixels<T> {
    /// An element-by-element copy of this line.
    pub fn clone_line(&self) -> (line: Self)
        ensures
            line@ == self@,
    {
        let mut data: Vec<T> = Vec::new();
        let mut j: usize = 0;
        while j < self.data.len()
            invariant
                j <= self.data@.len(),
                data@ =~= self.data@.subrange(0, j as int),
            decreases self.data@.len() - j,
        {
            data.push(self.data[j]);
            j = j + 1;
        }
        proof {
            assert(data@ =~= self.data@);
        }
        RowColPixels { data }
    }
}

/// All rows of a row-major store, concatenated in row order.
pub open spec fn flatten_rows<T>(rows: Seq<Seq<T>>) -> Seq<T>
    decreases rows.len(),
{
    if rows.len() == 0 {
        Seq::empty()
    } else {
        flatten_rows(rows.drop_last()) + rows.last()
    }
}

impl<T: Copy> PixelContainer<T> {
    /// The image flattened in row-major order: row 0 first, each row's
    /// channel values in place. This is the traversal a pixel encoder
    /// walks when writing the image out.
    pub fn to_flat(&self) -> (flat: Vec<T>)
        requires
            self.wf(),
        ensures
            flat@ == flatten_rows(self@),
    {
        let mut flat: Vec<T> = Vec::new();
        let mut y: usize = 0;
        while y < self.height
            invariant
                self.wf(),
                y <= self.spec_height(),
                flat@ == flatten_rows(self@.subrange(0, y as int)),
            decreases self.height - y,
        {
            proof {
                assert(self@[y as int] == self.data@[y as int]@);
            }
            let mut j: usize = 0;
            let row_len = self.data[y].len();
            while j < row_len
                invariant
                    self.wf(),
                    y < self.spec_height(),
                    row_len == self@[y as int].len(),
                    j <= row_len,
                    self@[y as int] == self.data@[y as int]@,
                    flat@ == flatten_rows(self@.subrange(0, y as int)) + self@[y as int].subrange(
                        0,
                        j as int,
                    ),
                decreases row_len - j,
            {
                let v = self.data[y].get_value(j);
                flat.push(v);
                proof {
                    assert(self@[y as int].subrange(0, j + 1) =~= self@[y as int].subrange(
                        0,
                        j as int,
                    ).push(v));
                    assert(flat@ =~= flatten_rows(self@.subrange(0, y as int))
                        + self@[y as int].subrange(0, j + 1));
                }
                j = j + 1;
            }
            y = y + 1;
            proof {
                let sub = self@.subrange(0, y as int);
                assert(sub.drop_last() =~= self@.subrange(0, y - 1));
                assert(sub.last() =~= self@[y - 1]);
                assert(self@[y - 1].subrange(0, row_len as int) =~= self@[y - 1]);
                assert(flat@ == flatten_rows(sub));
            }
        }
        proof {
            assert(self@.subrange(0, self.spec_height()) =~= self@);
        }
        flat
    }
}

/// One line of geometry-buffer cells, filled cell by cell while a row is
/// rendered, or assembled as a column slice for the column filter pass.
pub struct RowColGBuffer<G> {
    data: Vec<G>,
}

impl<G> View for RowColGBuffer<G> {
    type V = Seq<G>;

    closed spec fn view(&self) -> Seq<G> {
        self.data@
    }
}

impl<G: Copy> RowColGBuffer<G> {
    /// An empty line; the axis only sizes the allocation.
    pub fn new_empty(filter_type: FilterType) -> (line: Self)
        ensures
            line@.len() == 0,
    {
        let _ = filter_type;
        RowColGBuffer { data: Vec::new() }
    }

    /// Number of cells held.
    pub fn len(&self) -> (n: usize)
        ensures
            n == self@.len(),
    {
        self.data.len()
    }

    /// The cell at `index` within this line.
    pub fn get_data(&self, index: usize) -> (cell: &G)
        requires
            index < self@.len(),
        ensures
            *cell == self@[index as int],
    {
        &self.data[index]
    }

    /// Append one cell to this line.
    pub fn push_data(&mut self, data: G)
        ensures
            final(self)@ == old(self)@.push(data),
    {
        self.data.push(data);
    }

    /// An element-by-element copy of this line.
    pub fn clone_line(&self) -> (line: Self)
        ensures
            line@ == self@,
    {
        let mut data: Vec<G> = Vec::new();
        let mut j: usize = 0;
        while j < self.data.len()
            invariant
                j <= self.data@.len(),
                data@ =~= self.data@.subrange(0, j as int),
            decreases self.data@.len() - j,
        {
            data.push(self.data[j]);
            j = j + 1;
        }
        proof {
            assert(data@ =~= self.data@);
        }
        RowColGBuffer { data }
    }
}

/// The image's geometry buffer: one cell per pixel, row-major, filled one
/// whole row at a time as render jobs complete.
pub struct GeometryBuffer<G> {
    height: usize,
    data: Vec<RowColGBuffer<G>>,
}

impl<G> View for GeometryBuffer<G> {
    type V = Seq<Seq<G>>;

    closed spec fn view(&self) -> Seq<Seq<G>> {
        self.data@.map_values(|line: RowColGBuffer<G>| line@)
    }
}

impl<G: Copy> GeometryBuffer<G> {
    /// Number of rows.
    pub closed spec fn spec_height(&self) -> int {
        self.height as int
    }

    pub open spec fn wf(&self) -> bool {
        self@.len() == self.spec_height()
    }

    pub fn height(&self) -> (h: usize)
        ensures
            h == self.spec_height(),
    {
        self.height
    }

    /// A buffer of `height` still-empty rows.
    pub fn new(height: usize) -> (buf: Self)
        ensures
            buf.wf(),
            buf.spec_height() == height,
            forall|y: int| 0 <= y < height ==> (#[trigger] buf@[y]).len() == 0,
    {
        let mut data: Vec<RowColGBuffer<G>> = Vec::new();
        let mut y: usize = 0;
        while y < height
            invariant
                y <= height,
                data@.len() == y,
                forall|i: int| 0 <= i < y ==> (#[trigger] data@[i]@).len() == 0,
            decreases height - y,
        {
            data.push(RowColGBuffer::new_empty(FilterType::Row));
            y = y + 1;
        }
        let buf = GeometryBuffer { height, data };
        assert forall|y0: int| 0 <= y0 < height implies (#[trigger] buf@[y0]).len() == 0 by {
            assert(buf@[y0] == data@[y0]@);
        }
        buf
    }

    /// Replace one whole row.
    pub fn set_row(&mut self, row_num: usize, row_data: RowColGBuffer<G>)
        requires
            old(self).wf(),
            row_num < old(self).spec_height(),
        ensures
            final(self).wf(),
            final(self).spec_height() == old(self).spec_height(),
            final(self)@ =~= old(self)@.update(row_num as int, row_data@),
    {
        self.data.set(row_num, row_data);
        proof {
            assert forall|r: int| 0 <= r < self@.len() implies self@[r] == old(self)@.update(
                row_num as int,
                row_data@,
            )[r] by {
                assert(self@[r] == self.data@[r]@);
                assert(old(self)@[r] == old(self).data@[r]@);
            }
        }
    }

    /// One whole line of the buffer: row `row_col_num` under `Row`, column
    /// `row_col_num` under `Col`.
    pub fn get_x_or_y(&self, row_col_num: usize, indicator: FilterType) -> (line: RowColGBuffer<G>)
        requires
            self.wf(),
            indicator is Row ==> row_col_num < self.spec_height(),
            indicator is Col ==> forall|y: int|
                0 <= y < self@.len() ==> row_col_num < (#[trigger] self@[y]).len(),
        ensures
            indicator is Row ==> line@ == self@[row_col_num as int],
            indicator is Col ==> {
                &&& line@.len() == self.spec_height()
                &&& forall|y: int|
                    0 <= y < self.spec_height() ==> #[trigger] line@[y] == self@[y][row_col_num as int]
            },
    {
        match indicator {
            FilterType::Row => {
                proof {
                    assert(self@[row_col_num as int] == self.data@[row_col_num as int]@);
                }
                self.data[row_col_num].clone_line()
            },
            FilterType::Col => {
                let mut data: Vec<G> = Vec::new();
                let mut y: usize = 0;
                while y < self.height
                    invariant
                        self.wf(),
                        forall|i: int|
                            0 <= i < self@.len() ==> row_col_num < (#[trigger] self@[i]).len(),
                        y <= self.spec_height(),
                        data@.len() == y,
                        forall|i: int|
                            0 <= i < y ==> #[trigger] data@[i] == self@[i][row_col_num as int],
                    decreases self.height - y,
                {
                    proof {
                        assert(self@[y as int] == self.data@[y as int]@);
                    }
                    let cell = *self.data[y].get_data(row_col_num);
                    data.push(cell);
                    y = y + 1;
                }
                RowColGBuffer { data }
            },
        }
    }
}

/// Both access patterns of the geometry buffer agree: reading a cell through
/// its row slice and through its column slice gives the same cell, the one
/// held by the row-major store.
pub proof fn lemma_gbuffer_dual_view_agree<G: Copy>(
    buf: GeometryBuffer<G>,
    row_line: Seq<G>,
    col_line: Seq<G>,
    x: int,
    y: int,
)
    requires
        buf.wf(),
        0 <= y < buf.spec_height(),
        0 <= x < buf@[y].len(),
        row_line == buf@[y],
        col_line.len() == buf.spec_height(),
        forall|i: int| 0 <= i < buf.spec_height() ==> #[trigger] col_line[i] == buf@[i][x],
    ensures
        row_line[x] == col_line[y],
{
    assert(col_line[y] == buf@[y][x]);
}

/// Both access patterns of the pixel store agree: reading a pixel through
/// its row slice and through its column slice gives the same three channel
/// values, and both equal the row-major store itself.
pub proof fn lemma_pixel_dual_view_agree<T: Copy>(
    img: PixelContainer<T>,
    row_line: Seq<T>,
    col_line: Seq<T>,
    x: int,
    y: int,
)
    requires
        img.wf(),
        0 <= x < img.spec_width(),
        0 <= y < img.spec_height(),
        row_line == img@[y],
        col_line.len() == 3 * img.spec_height(),
        forall|i: int, k: int|
            0 <= i < img.spec_height() && 0 <= k < 3 ==> #[trigger] col_line[3 * i + k]
                == img@[i][3 * x + k],
    ensures
        forall|k: int| 0 <= k < 3 ==> #[trigger] row_line[3 * x + k] == col_line[3 * y + k],
{
    assert forall|k: int| 0 <= k < 3 implies #[trigger] row_line[3 * x + k] == col_line[3 * y
        + k] by {
        assert(col_line[3 * y + k] == img@[y][3 * x + k]);
    }
}

} // verus!
