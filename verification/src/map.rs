use vstd::prelude::*;

verus! {

/// Occupancy of one arena cell: passable air or an impassable wall.
#[derive(Copy, Clone, Debug, Hash, PartialEq, Eq, Structural)]
pub enum Tile {
    Air,
    Wall,
}

/// The two-dimensional array that backs a `MapTiles`.
#[verifier::external_type_specification]
#[verifier::external_body]
#[verifier::reject_recursive_types(T)]
pub struct ExArray2D<T>(array2d::Array2D<T>);

/// What the backing array holds, row by row; `true` marks a Wall. Cell
/// `(x, y)` of the arena is element `x` of row `y`.
pub uninterp spec fn grid_cells(a: array2d::Array2D<Tile>) -> Seq<Seq<bool>>;

/// Relies on array2d::Array2D::filled_with: builds an array of the given
/// dimensions holding the given element, here all Air.
#[verifier::external_body]
fn array_filled_air(rows: usize, cols: usize) -> (r: array2d::Array2D<Tile>)
    requires
        rows * cols <= usize::MAX,
    ensures
        grid_cells(r) == Seq::new(rows as nat, |y: int| Seq::new(cols as nat, |x: int| false)),
{
    array2d::Array2D::filled_with(Tile::Air, rows, cols)
}

/// Relies on array2d::Array2D::get: Some of the element exactly when row
/// and column are within the array's dimensions, None otherwise.
#[verifier::external_body]
fn array_get(a: &array2d::Array2D<Tile>, row: usize, col: usize) -> (r: Option<Tile>)
    ensures
        match r {
            Some(t) => row < grid_cells(*a).len() && col < grid_cells(*a)[row as int].len() && (
            t is Wall <==> grid_cells(*a)[row as int][col as int]),
            None => row >= grid_cells(*a).len() || col >= grid_cells(*a)[row as int].len(),
        },
{
    a.get(row, col).copied()
}

/// Relies on array2d::Array2D::set: overwrites the element and returns
/// Ok exactly when row and column are in range, and otherwise leaves the
/// array unchanged and returns an error.
#[verifier::external_body]
fn array_set(a: &mut array2d::Array2D<Tile>, row: usize, col: usize, t: Tile) -> (r: bool)
    ensures
        r <==> (row < grid_cells(*old(a)).len() && col < grid_cells(*old(a))[row as int].len()),
        r ==> grid_cells(*final(a)) == grid_cells(*old(a)).update(
            row as int,
            grid_cells(*old(a))[row as int].update(col as int, t is Wall),
        ),
        !r ==> grid_cells(*final(a)) == grid_cells(*old(a)),
{
    a.set(row, col, t).is_ok()
}

/// Whether `(x, y)` lies on the outermost ring of a `w` by `h` grid.
pub open spec fn is_border(x: int, y: int, w: int, h: int) -> bool {
    y == 0 || y == h - 1 || x == 0 || x == w - 1
}

/// A `w` by `h` grid whose border ring is Wall and whose interior is Air.
pub open spec fn empty_grid(w: int, h: int) -> Seq<Seq<bool>> {
    Seq::new(h as nat, |y: int| Seq::new(w as nat, |x: int| is_border(x, y, w, h)))
}

/// The arena: a fixed-size grid of tiles, stored row-major.
pub struct MapTiles {
    cells: array2d::Array2D<Tile>,
    width: usize,
    height: usize,
}

impl View for MapTiles {
    type V = Seq<Seq<bool>>;

    /// Row `y` of the view is row `y` of the arena; `true` marks a Wall.
    closed spec fn view(&self) -> Seq<Seq<bool>> {
        grid_cells(self.cells)
    }
}

impl MapTiles {
    pub closed spec fn spec_width(&self) -> int {
        self.width as int
    }

    pub closed spec fn spec_height(&self) -> int {
        self.height as int
    }

    /// The stored dimensions agree with the backing array, every row is
    /// full width, and coordinates fit comfortably in signed arithmetic.
    pub open spec fn wf(&self) -> bool {
        &&& self@.len() == self.spec_height()
        &&& forall|y: int|
            0 <= y < self.spec_height() ==> (#[trigger] self@[y]).len() == self.spec_width()
        &&& self.spec_width() <= 0x7fff_ffff
        &&& self.spec_height() <= 0x7fff_ffff
    }

    pub fn width(&self) -> (r: usize)
        ensures
            r == self.spec_width(),
    {
        self.width
    }

    pub fn height(&self) -> (r: usize)
        ensures
            r == self.spec_height(),
    {
        self.height
    }

    /// An arena of the given size with Wall on the whole border ring and
    /// Air everywhere inside.
    pub fn new_empty(width: usize, height: usize) -> (r: MapTiles)
        requires
            width <= 0x7fff_ffff,
            height <= 0x7fff_ffff,
            width * height <= usize::MAX,
        ensures
            r.wf(),
            r.spec_width() == width,
            r.spec_height() == height,
            r@ == empty_grid(width as int, height as int),
    {
        proof {
            assert(height * width == width * height) by (nonlinear_arith);
        }
        let mut cells = array_filled_air(height, width);
        let ghost w = width as int;
        let ghost h = height as int;
        let mut y: usize = 0;
        while y < height
            invariant
                width <= 0x7fff_ffff,
                height <= 0x7fff_ffff,
                w == width as int,
                h == height as int,
                y <= height,
                grid_cells(cells).len() == height,
                forall|yy: int|
                    0 <= yy < height ==> (#[trigger] grid_cells(cells)[yy]).len() == width,
                forall|yy: int, xx: int|
                    0 <= yy < y && 0 <= xx < width ==> #[trigger] grid_cells(cells)[yy][xx]
                        == is_border(xx, yy, w, h),
                forall|yy: int, xx: int|
                    y <= yy < height && 0 <= xx < width ==> !(#[trigger] grid_cells(
                        cells,
                    )[yy][xx]),
            decreases height - y,
        {
            let mut x: usize = 0;
            while x < width
                invariant
                    width <= 0x7fff_ffff,
                    height <= 0x7fff_ffff,
                    w == width as int,
                    h == height as int,
                    y < height,
                    x <= width,
                    grid_cells(cells).len() == height,
                    forall|yy: int|
                        0 <= yy < height ==> (#[trigger] grid_cells(cells)[yy]).len() == width,
                    forall|yy: int, xx: int|
                        0 <= yy < y && 0 <= xx < width ==> #[trigger] grid_cells(cells)[yy][xx]
                            == is_border(xx, yy, w, h),
                    forall|xx: int|
                        0 <= xx < x ==> #[trigger] grid_cells(cells)[y as int][xx] == is_border(
                            xx,
                            y as int,
                            w,
                            h,
                        ),
                    forall|xx: int|
                        x <= xx < width ==> !(#[trigger] grid_cells(cells)[y as int][xx]),
                    forall|yy: int, xx: int|
                        y < yy < height && 0 <= xx < width ==> !(#[trigger] grid_cells(
                            cells,
                        )[yy][xx]),
                decreases width - x,
            {
                if y == 0 || y + 1 == height || x == 0 || x + 1 == width {
                    let ok = array_set(&mut cells, y, x, Tile::Wall);
                    proof {
                        assert(ok);
                    }
                }
                x = x + 1;
            }
            y = y + 1;
        }
        let r = MapTiles { cells, width, height };
        proof {
            assert(r@ =~~= empty_grid(w, h));
        }
        r
    }

    /// The tile at `(x, y)`, or None when the coordinates fall outside
    /// the arena.
    pub fn try_get(&self, x: i64, y: i64) -> (r: Option<Tile>)
        requires
            self.wf(),
        ensures
            match r {
                Some(t) => 0 <= x < self.spec_width() && 0 <= y < self.spec_height() && (
                t is Wall <==> self@[y as int][x as int]),
                None => !(0 <= x < self.spec_width() && 0 <= y < self.spec_height()),
            },
    {
        if x < 0 || y < 0 {
            return None;
        }
        if x >= self.width as i64 || y >= self.height as i64 {
            return None;
        }
        array_get(&self.cells, y as usize, x as usize)
    }

    /// Overwrite the tile at `(x, y)`; reports whether the coordinates
    /// were inside the arena (nothing changes when they are not).
    pub fn try_set(&mut self, x: i64, y: i64, t: Tile) -> (r: bool)
        requires
            old(self).wf(),
        ensures
            final(self).wf(),
            final(self).spec_width() == old(self).spec_width(),
            final(self).spec_height() == old(self).spec_height(),
            r <==> (0 <= x < old(self).spec_width() && 0 <= y < old(self).spec_height()),
            r ==> final(self)@ == old(self)@.update(
                y as int,
                old(self)@[y as int].update(x as int, t is Wall),
            ),
            !r ==> final(self)@ == old(self)@,
    {
        if x < 0 || y < 0 {
            return false;
        }
        if x >= self.width as i64 || y >= self.height as i64 {
            return false;
        }
        let ok = array_set(&mut self.cells, y as usize, x as usize, t);
        proof {
            assert(ok);
        }
        ok
    }
}

} // verus!
