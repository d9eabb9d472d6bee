use vstd::prelude::*;

verus! {

/// Position of the cell `(row, col)` in a row-major buffer whose rows hold `width` cells.
pub open spec fn cell_index(width: int, row: int, col: int) -> int {
    row * width + col
}

/// Two different cells of a row-major grid never share a position, and every cell lies
/// inside the buffer.
pub proof fn lemma_cell_index(width: int, height: int, row: int, col: int, row2: int, col2: int)
    requires
        0 <= row < height,
        0 <= col < width,
        0 <= row2 < height,
        0 <= col2 < width,
    ensures
        0 <= cell_index(width, row, col) < width * height,
        width * height == height * width,
        cell_index(width, row, col) == cell_index(width, row2, col2) <==> (row == row2 && col
            == col2),
{
    assert(0 <= row * width + col < width * height && width * height == height * width)
        by (nonlinear_arith)
        requires
            0 <= row < height,
            0 <= col < width,
    ;
    if row < row2 {
        assert(row * width + col < row2 * width + col2) by (nonlinear_arith)
            requires
                row < row2,
                0 <= col < width,
                0 <= col2,
        ;
    } else if row2 < row {
        assert(row2 * width + col2 < row * width + col) by (nonlinear_arith)
            requires
                row2 < row,
                0 <= col2 < width,
                0 <= col,
        ;
    }
}

/// The rows of a row-major buffer of `height` rows of `width` cells.
pub open spec fn grid_of<C>(width: nat, height: nat, cells: Seq<C>) -> Seq<Seq<C>> {
    Seq::new(
        height,
        |row: int| Seq::new(width, |col: int| cells[cell_index(width as int, row, col)]),
    )
}

/// Writing one position of the buffer writes the one cell of the grid that lies there.
proof fn lemma_grid_update<C>(width: nat, height: nat, cells: Seq<C>, row: int, col: int)
    requires
        cells.len() == width * height,
        0 <= row < height,
        0 <= col < width,
    ensures
        forall|v: C|
            #[trigger] grid_of(width, height, cells.update(cell_index(width as int, row, col), v))
                == grid_of(width, height, cells).update(
                row,
                grid_of(width, height, cells)[row].update(col, v),
            ),
{
    let k = cell_index(width as int, row, col);
    lemma_cell_index(width as int, height as int, row, col, row, col);
    assert forall|v: C|
        #[trigger] grid_of(width, height, cells.update(k, v)) == grid_of(
            width,
            height,
            cells,
        ).update(row, grid_of(width, height, cells)[row].update(col, v)) by {
        let g1 = grid_of(width, height, cells.update(k, v));
        let g0 = grid_of(width, height, cells);
        let g2 = g0.update(row, g0[row].update(col, v));
        assert forall|r: int| 0 <= r < height implies g1[r] =~= g2[r] by {
            assert forall|c: int| 0 <= c < width implies g1[r][c] == g2[r][c] by {
                lemma_cell_index(width as int, height as int, r, c, row, col);
            }
        }
        assert(g1 =~= g2);
    }
}

/// A `width` x `height` grid of colors, one cell per pixel, stored row by row.
///
/// Its model is the sequence of its rows, each a sequence of `width` cells.
pub struct ColorMatrix<C> {
    width: usize,
    height: usize,
    cells: Vec<C>,
}

impl<C> View for ColorMatrix<C> {
    type V = Seq<Seq<C>>;

    closed spec fn view(&self) -> Seq<Seq<C>> {
        grid_of(self.width as nat, self.height as nat, self.cells@)
    }
}

impl<C> ColorMatrix<C> {
    /// The number of cells in each row.
    pub closed spec fn spec_width(&self) -> nat {
        self.width as nat
    }

    /// The buffer holds exactly one cell per pixel.
    pub closed spec fn wf(&self) -> bool {
        &&& self.cells@.len() == self.width * self.height
        &&& self.width * self.height <= usize::MAX
    }

    /// Every row of the model is `width` cells long, and there are `height` rows.
    pub open spec fn has_shape(&self, width: nat, height: nat) -> bool {
        &&& self@.len() == height
        &&& self.spec_width() == width
        &&& forall|row: int| 0 <= row < height ==> (#[trigger] self@[row]).len() == width
    }

    /// Builds a grid from its cells listed row by row.
    pub(crate) fn from_row_major(width: usize, height: usize, cells: Vec<C>) -> (m: Self)
        requires
            cells@.len() == width * height,
            width * height <= usize::MAX,
        ensures
            m.wf(),
            m.has_shape(width as nat, height as nat),
            forall|row: int, col: int|
                0 <= row < height && 0 <= col < width ==> #[trigger] m@[row][col]
                    == cells@[cell_index(width as int, row, col)],
    {
        ColorMatrix { width, height, cells }
    }

    /// A grid of the given size with every cell set to `fill`.
    pub fn new(width: usize, height: usize, fill: C) -> (m: Self) where C: Copy
        requires
            width * height <= usize::MAX,
        ensures
            m.wf(),
            m.has_shape(width as nat, height as nat),
            forall|row: int, col: int|
                0 <= row < height && 0 <= col < width ==> #[trigger] m@[row][col] == fill,
    {
        let total: usize = width * height;
        let mut cells: Vec<C> = Vec::new();
        let mut i: usize = 0;
        while i < total
            invariant
                i <= total,
                cells@.len() == i,
                forall|k: int| 0 <= k < i ==> cells@[k] == fill,
            decreases total - i,
        {
            cells.push(fill);
            i = i + 1;
        }
        let m = ColorMatrix { width, height, cells };
        assert forall|row: int, col: int| 0 <= row < height && 0 <= col < width implies #[trigger] m@[row][col]
            == fill by {
            lemma_cell_index(width as int, height as int, row, col, row, col);
        }
        m
    }

    /// The number of cells in each row.
    pub fn width(&self) -> (w: usize)
        requires
            self.wf(),
        ensures
            w == self.spec_width(),
    {
        self.width
    }

    /// The number of rows.
    pub fn height(&self) -> (h: usize)
        requires
            self.wf(),
        ensures
            h == self@.len(),
    {
        self.height
    }

    /// The cell in the given row and column.
    pub fn at(&self, row: usize, column: usize) -> (c: &C)
        requires
            self.wf(),
            row < self@.len(),
            column < self.spec_width(),
        ensures
            *c == self@[row as int][column as int],
    {
        proof {
            lemma_cell_index(self.width as int, self.height as int, row as int, column as int, row as int, column as int);
        }
        &self.cells[row * self.width + column]
    }

    /// Write access to the cell in the given row and column; every other cell is kept.
    pub fn at_mut(&mut self, row: usize, column: usize) -> (c: &mut C)
        requires
            old(self).wf(),
            row < old(self)@.len(),
            column < old(self).spec_width(),
        ensures
            *c == old(self)@[row as int][column as int],
            final(self).wf(),
            final(self).spec_width() == old(self).spec_width(),
            final(self)@ == old(self)@.update(
                row as int,
                old(self)@[row as int].update(column as int, *final(c)),
            ),
    {
        proof {
            lemma_cell_index(self.width as int, self.height as int, row as int, column as int, row as int, column as int);
        }
        let i: usize = row * self.width + column;
        proof {
            lemma_grid_update(self.width as nat, self.height as nat, self.cells@, row as int, column as int);
        }
        &mut self.cells[i]
    }
}

impl<C: Copy> ColorMatrix<C> {
    /// The grid of the same shape whose cells are `f` of the cells of this one.
    pub fn map<D, F>(&self, f: F) -> (m: ColorMatrix<D>) where F: Fn(C) -> D
        requires
            self.wf(),
            forall|row: int, col: int|
                0 <= row < self@.len() && 0 <= col < self.spec_width() ==> f.requires(
                    (#[trigger] self@[row][col],),
                ),
        ensures
            m.wf(),
            m.has_shape(self.spec_width(), self@.len()),
            forall|row: int, col: int|
                0 <= row < self@.len() && 0 <= col < self.spec_width() ==> f.ensures(
                    (self@[row][col],),
                    #[trigger] m@[row][col],
                ),
    {
        let total = self.cells.len();
        let mut cells: Vec<D> = Vec::new();
        let mut i: usize = 0;
        while i < total
            invariant
                self.wf(),
                total == self.cells@.len(),
                forall|row: int, col: int|
                    0 <= row < self@.len() && 0 <= col < self.spec_width() ==> f.requires(
                        (#[trigger] self@[row][col],),
                    ),
                i <= total,
                cells@.len() == i,
                forall|k: int| 0 <= k < i ==> f.ensures((self.cells@[k],), #[trigger] cells@[k]),
            decreases total - i,
        {
            proof {
                let row = i as int / self.width as int;
                let col = i as int % self.width as int;
                lemma_row_major_position(self.width as int, self.height as int, i as int);
                assert(self@[row][col] == self.cells@[i as int]);
            }
            cells.push(f(self.cells[i]));
            i = i + 1;
        }
        let m = ColorMatrix { width: self.width, height: self.height, cells };
        assert forall|row: int, col: int|
            0 <= row < self@.len() && 0 <= col < self.spec_width() implies f.ensures(
            (self@[row][col],),
            #[trigger] m@[row][col],
        ) by {
            lemma_cell_index(self.width as int, self.height as int, row, col, row, col);
        }
        m
    }
}

/// Every position of a row-major buffer holds one cell: the one in row `i / width` and
/// column `i % width`.
pub proof fn lemma_row_major_position(width: int, height: int, i: int)
    requires
        0 <= width,
        0 <= i < width * height,
    ensures
        width > 0,
        0 <= i / width < height,
        0 <= i % width < width,
        cell_index(width, i / width, i % width) == i,
{
    if width == 0 {
        assert(width * height == 0);
    }
    vstd::arithmetic::div_mod::lemma_fundamental_div_mod(i, width);
    vstd::arithmetic::div_mod::lemma_div_pos_is_pos(i, width);
    vstd::arithmetic::div_mod::lemma_mod_pos_bound(i, width);
    assert(i / width < height) by (nonlinear_arith)
        requires
            i == width * (i / width) + i % width,
            0 <= i % width,
            i < width * height,
            width > 0,
    ;
    assert((i / width) * width == width * (i / width)) by (nonlinear_arith);
}

/// A pixel of the output image: one byte per channel.
#[derive(Debug, Clone, Copy, PartialEq, Eq, Structural)]
pub struct Rgb8 {
    pub r: u8,
    pub g: u8,
    pub b: u8,
}

/// The bytes of one pixel: red, green, blue, then `alpha` where one is given.
pub open spec fn pixel_bytes(p: Rgb8, alpha: Option<u8>) -> Seq<u8> {
    match alpha {
        Some(a) => seq![p.r, p.g, p.b, a],
        None => seq![p.r, p.g, p.b],
    }
}

/// Three bytes for a pixel without alpha, four with it.
pub open spec fn bytes_per_pixel(alpha: Option<u8>) -> nat {
    if alpha is Some {
        4
    } else {
        3
    }
}

impl ColorMatrix<Rgb8> {
    /// The image as one byte buffer, pixel after pixel and row after row: three bytes per
    /// pixel (the layout of an RGB image), or four with a constant `alpha` (the layout of
    /// an RGBA frame).
    pub fn to_bytes(&self, alpha: Option<u8>) -> (bytes: Vec<u8>)
        requires
            self.wf(),
            self@.len() * self.spec_width() * bytes_per_pixel(alpha)
                <= usize::MAX,
        ensures
            ({
                let n = bytes_per_pixel(alpha) as int;
                &&& bytes@.len() == self@.len() * self.spec_width() * n
                &&& forall|row: int, col: int, k: int|
                    0 <= row < self@.len() && 0 <= col < self.spec_width() && 0 <= k < n
                        ==> #[trigger] bytes@[n * cell_index(self.spec_width() as int, row, col)
                        + k] == pixel_bytes(self@[row][col], alpha)[k]
            }),
    {
        let ghost n = bytes_per_pixel(alpha) as int;
        let total = self.cells.len();
        let mut bytes: Vec<u8> = Vec::new();
        let mut i: usize = 0;
        while i < total
            invariant
                self.wf(),
                total == self.cells@.len(),
                n == bytes_per_pixel(alpha),
                n == 3 || n == 4,
                self@.len() * self.spec_width() * n <= usize::MAX,
                i <= total,
                bytes@.len() == n * i,
                forall|j: int, k: int|
                    0 <= j < i && 0 <= k < n ==> #[trigger] bytes@[n * j + k] == pixel_bytes(
                        self.cells@[j],
                        alpha,
                    )[k],
            decreases total - i,
        {
            let p = self.cells[i];
            let ghost before = bytes@;
            bytes.push(p.r);
            bytes.push(p.g);
            bytes.push(p.b);
            match alpha {
                Some(a) => bytes.push(a),
                None => {},
            }
            proof {
                assert(n * (i + 1) == n * i + n) by (nonlinear_arith);
                assert forall|j: int, k: int|
                    0 <= j < i + 1 && 0 <= k < n implies #[trigger] bytes@[n * j + k]
                    == pixel_bytes(self.cells@[j], alpha)[k] by {
                    if j < i {
                        assert(n * j + k < n * i) by (nonlinear_arith)
                            requires
                                j < i,
                                0 <= k < n,
                        ;
                        assert(bytes@[n * j + k] == before[n * j + k]);
                    } else {
                        assert(n * j + k == n * i + k);
                    }
                }
            }
            i = i + 1;
        }
        proof {
            assert(n * i == self@.len() * self.spec_width() * n) by (nonlinear_arith)
                requires
                    i == self.width * self.height,
                    self@.len() == self.height,
                    self.spec_width() == self.width,
            ;
            assert forall|row: int, col: int, k: int|
                0 <= row < self@.len() && 0 <= col < self.spec_width() && 0 <= k < n
                    implies #[trigger] bytes@[n * cell_index(self.spec_width() as int, row, col) + k]
                    == pixel_bytes(self@[row][col], alpha)[k] by {
                lemma_cell_index(self.width as int, self.height as int, row, col, row, col);
            }
        }
        bytes
    }
}

} // verus!
