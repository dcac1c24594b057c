use vstd::prelude::*;
use crate::map::MapTiles;
use crate::map::Tile;
use crate::map::is_border;
use crate::map::empty_grid;
use crate::rng::gen_step;
use crate::rng::seeded_state;
use crate::rng::rng_state;
use crate::rng::rng_from_seed;
use crate::rng::gen_below;

verus! {

/// Longest wall segment the generator places, in cells.
pub const MAX_WALL_LENGTH: u64 = 6;
/// How many random draws are attempted for one segment before the
/// generator gives up on it.
pub const SPAWN_TRIES: u64 = 1000;

/// The x coordinate of cell `v` of a segment starting at `x` and
/// stepping by `dx`.
pub open spec fn seg_cell_x(x: int, dx: int, v: int) -> int {
    x + dx * v
}

/// The y coordinate of cell `v` of a segment starting at `y` and
/// stepping by `dy`.
pub open spec fn seg_cell_y(y: int, dy: int, v: int) -> int {
    y + dy * v
}

/// The x step of direction code `d`: +X, -X, +Y, -Y in that order.
pub open spec fn dir_dx(d: u64) -> int {
    if d == 0 {
        1
    } else if d == 1 {
        -1
    } else {
        0
    }
}

/// The y step of direction code `d`.
pub open spec fn dir_dy(d: u64) -> int {
    if d == 2 {
        1
    } else if d == 3 {
        -1
    } else {
        0
    }
}

/// Cell `v` of the segment is inside a `w` by `h` grid and currently Air.
pub open spec fn seg_ok_at(
    g: Seq<Seq<bool>>,
    w: int,
    h: int,
    x: int,
    y: int,
    dx: int,
    dy: int,
    v: int,
) -> bool {
    let cx = seg_cell_x(x, dx, v);
    let cy = seg_cell_y(y, dy, v);
    0 <= cx < w && 0 <= cy < h && !g[cy][cx]
}

/// The whole segment is inside the grid and entirely Air.
pub open spec fn seg_ok(
    g: Seq<Seq<bool>>,
    w: int,
    h: int,
    x: int,
    y: int,
    dx: int,
    dy: int,
    len: int,
) -> bool {
    forall|v: int| 0 <= v < len ==> #[trigger] seg_ok_at(g, w, h, x, y, dx, dy, v)
}

/// Whether `(cx, cy)` is one of the `len` cells of the segment.
pub open spec fn seg_contains(
    x: int,
    y: int,
    dx: int,
    dy: int,
    len: int,
    cx: int,
    cy: int,
) -> bool {
    exists|v: int|
        0 <= v < len && cx == #[trigger] seg_cell_x(x, dx, v) && cy == seg_cell_y(y, dy, v)
}

/// The grid after marking the `len` segment cells Wall, one by one.
pub open spec fn place_seg(
    g: Seq<Seq<bool>>,
    x: int,
    y: int,
    dx: int,
    dy: int,
    len: nat,
) -> Seq<Seq<bool>>
    decreases len,
{
    if len == 0 {
        g
    } else {
        let g2 = place_seg(g, x, y, dx, dy, (len - 1) as nat);
        let cx = seg_cell_x(x, dx, len - 1);
        let cy = seg_cell_y(y, dy, len - 1);
        g2.update(cy, g2[cy].update(cx, true))
    }
}

/// Marking a valid segment keeps the grid's shape, turns exactly the
/// segment cells to Wall, and leaves every other cell as it was.
pub proof fn lemma_place_seg_cells(
    g: Seq<Seq<bool>>,
    w: int,
    h: int,
    x: int,
    y: int,
    dx: int,
    dy: int,
    len: nat,
)
    requires
        g.len() == h,
        forall|cy: int| 0 <= cy < h ==> (#[trigger] g[cy]).len() == w,
        seg_ok(g, w, h, x, y, dx, dy, len as int),
    ensures
        place_seg(g, x, y, dx, dy, len).len() == h,
        forall|cy: int|
            0 <= cy < h ==> (#[trigger] place_seg(g, x, y, dx, dy, len)[cy]).len() == w,
        forall|cx: int, cy: int|
            0 <= cx < w && 0 <= cy < h ==> #[trigger] place_seg(g, x, y, dx, dy, len)[cy][cx] == (
            g[cy][cx] || seg_contains(x, y, dx, dy, len as int, cx, cy)),
    decreases len,
{
    if len == 0 {
    } else {
        lemma_place_seg_cells(g, w, h, x, y, dx, dy, (len - 1) as nat);
        let prev = place_seg(g, x, y, dx, dy, (len - 1) as nat);
        let cur = place_seg(g, x, y, dx, dy, len);
        let lx = seg_cell_x(x, dx, len - 1);
        let ly = seg_cell_y(y, dy, len - 1);
        assert(seg_ok_at(g, w, h, x, y, dx, dy, len - 1));
        assert forall|cx: int, cy: int| 0 <= cx < w && 0 <= cy < h implies #[trigger] cur[cy][cx]
            == (g[cy][cx] || seg_contains(x, y, dx, dy, len as int, cx, cy)) by {
            if cx == lx && cy == ly {
                assert(cur[cy][cx]);
                assert(cx == seg_cell_x(x, dx, len - 1) && cy == seg_cell_y(y, dy, len - 1));
                assert(seg_contains(x, y, dx, dy, len as int, cx, cy));
            } else {
                assert(cur[cy][cx] == prev[cy][cx]);
                if seg_contains(x, y, dx, dy, len as int, cx, cy) {
                    let v = choose|v: int|
                        0 <= v < len && cx == #[trigger] seg_cell_x(x, dx, v) && cy == seg_cell_y(
                            y,
                            dy,
                            v,
                        );
                    assert(v < len - 1);
                    assert(seg_contains(x, y, dx, dy, len - 1, cx, cy));
                } else {
                    assert(!seg_contains(x, y, dx, dy, len - 1, cx, cy));
                }
            }
        }
    }
}

/// How many of the first `m` cells of a row are Wall.
pub open spec fn row_walls_upto(row: Seq<bool>, m: int) -> int
    decreases m,
{
    if m <= 0 {
        0
    } else {
        row_walls_upto(row, m - 1) + (if row[m - 1] {
            1int
        } else {
            0int
        })
    }
}

/// How many cells of a row are Wall.
pub open spec fn row_walls(row: Seq<bool>) -> int {
    row_walls_upto(row, row.len() as int)
}

/// How many cells of the first `m` rows are Wall.
pub open spec fn grid_walls_upto(g: Seq<Seq<bool>>, m: int) -> int
    decreases m,
{
    if m <= 0 {
        0
    } else {
        grid_walls_upto(g, m - 1) + row_walls(g[m - 1])
    }
}

/// How many cells of the whole grid are Wall.
pub open spec fn grid_walls(g: Seq<Seq<bool>>) -> int {
    grid_walls_upto(g, g.len() as int)
}

/// Marking one cell Wall raises a row's count by at most one.
proof fn lemma_row_upto_update(row: Seq<bool>, i: int, m: int)
    requires
        0 <= i < row.len(),
        0 <= m <= row.len(),
    ensures
        m <= i ==> row_walls_upto(row.update(i, true), m) == row_walls_upto(row, m),
        row_walls_upto(row.update(i, true), m) <= row_walls_upto(row, m) + 1,
    decreases m,
{
    if m > 0 {
        lemma_row_upto_update(row, i, m - 1);
    }
}

/// Replacing one row shifts the grid's count by that row's difference.
proof fn lemma_grid_upto_update(g: Seq<Seq<bool>>, y: int, row: Seq<bool>, m: int)
    requires
        0 <= y < g.len(),
        0 <= m <= g.len(),
    ensures
        grid_walls_upto(g.update(y, row), m) == grid_walls_upto(g, m) + (if y < m {
            row_walls(row) - row_walls(g[y])
        } else {
            0int
        }),
    decreases m,
{
    if m > 0 {
        lemma_grid_upto_update(g, y, row, m - 1);
    }
}

/// Marking one cell Wall raises the grid's count by at most one.
proof fn lemma_grid_set_true(g: Seq<Seq<bool>>, x: int, y: int)
    requires
        0 <= y < g.len(),
        0 <= x < g[y].len(),
    ensures
        grid_walls(g.update(y, g[y].update(x, true))) <= grid_walls(g) + 1,
{
    lemma_row_upto_update(g[y], x, g[y].len() as int);
    lemma_grid_upto_update(g, y, g[y].update(x, true), g.len() as int);
}

/// A row of the bordered empty arena holds `m` walls over its first `m`
/// cells when it is the top or bottom row, and otherwise only its two
/// edge cells.
proof fn lemma_empty_row_upto(w: int, h: int, y: int, m: int)
    requires
        2 <= w,
        2 <= h,
        0 <= y < h,
        0 <= m <= w,
    ensures
        y == 0 || y == h - 1 ==> row_walls_upto(
            Seq::new(w as nat, |x: int| is_border(x, y, w, h)),
            m,
        ) == m,
        0 < y < h - 1 ==> row_walls_upto(Seq::new(w as nat, |x: int| is_border(x, y, w, h)), m)
            == (if m >= 1 {
            1int
        } else {
            0int
        }) + (if m >= w {
            1int
        } else {
            0int
        }),
    decreases m,
{
    if m > 0 {
        lemma_empty_row_upto(w, h, y, m - 1);
    }
}

/// The bordered empty arena holds exactly its border ring of walls.
proof fn lemma_empty_grid_walls_upto(w: int, h: int, m: int)
    requires
        2 <= w,
        2 <= h,
        0 <= m <= h,
    ensures
        grid_walls_upto(empty_grid(w, h), m) == (if m == 0 {
            0int
        } else if m < h {
            w + 2 * (m - 1)
        } else {
            2 * w + 2 * h - 4
        }),
    decreases m,
{
    if m > 0 {
        lemma_empty_grid_walls_upto(w, h, m - 1);
        let row = empty_grid(w, h)[m - 1];
        assert(row =~= Seq::new(w as nat, |x: int| is_border(x, m - 1, w, h)));
        lemma_empty_row_upto(w, h, m - 1, w);
    }
}

/// The bordered empty arena holds exactly `2w + 2h - 4` walls.
pub proof fn lemma_empty_grid_walls(w: int, h: int)
    requires
        2 <= w,
        2 <= h,
    ensures
        grid_walls(empty_grid(w, h)) == 2 * w + 2 * h - 4,
{
    lemma_empty_grid_walls_upto(w, h, h);
}

/// A row of walls alone counts its full length.
proof fn lemma_full_row_upto(row: Seq<bool>, m: int)
    requires
        0 <= m <= row.len(),
        forall|x: int| 0 <= x < row.len() ==> row[x],
    ensures
        row_walls_upto(row, m) == m,
    decreases m,
{
    if m > 0 {
        lemma_full_row_upto(row, m - 1);
    }
}

/// A grid with every cell Wall counts its full area.
proof fn lemma_full_grid_upto(g: Seq<Seq<bool>>, w: int, m: int)
    requires
        0 <= m <= g.len(),
        forall|y: int| 0 <= y < g.len() ==> (#[trigger] g[y]).len() == w,
        forall|x: int, y: int| 0 <= y < g.len() && 0 <= x < w ==> #[trigger] g[y][x],
    ensures
        grid_walls_upto(g, m) == m * w,
    decreases m,
{
    if m > 0 {
        lemma_full_grid_upto(g, w, m - 1);
        assert(g[m - 1].len() == w);
        lemma_full_row_upto(g[m - 1], w);
        assert(row_walls(g[m - 1]) == w);
        assert(grid_walls_upto(g, m) == grid_walls_upto(g, m - 1) + row_walls(g[m - 1]));
        assert((m - 1) * w + w == m * w) by (nonlinear_arith);
    } else {
        assert(m * w == 0) by (nonlinear_arith)
            requires
                m == 0,
        ;
    }
}

/// A grid holding fewer walls than cells has an Air cell somewhere.
pub proof fn lemma_walls_below_area_leave_air(g: Seq<Seq<bool>>, w: int, h: int)
    requires
        g.len() == h,
        0 <= w,
        0 <= h,
        forall|y: int| 0 <= y < h ==> (#[trigger] g[y]).len() == w,
        grid_walls(g) < w * h,
    ensures
        exists|cx: int, cy: int| 0 <= cx < w && 0 <= cy < h && !(#[trigger] g[cy][cx]),
{
    if forall|cx: int, cy: int| 0 <= cx < w && 0 <= cy < h ==> #[trigger] g[cy][cx] {
        lemma_full_grid_upto(g, w, h);
        assert(h * w == w * h) by (nonlinear_arith);
        assert(false);
    }
}

/// Law: generation is deterministic. Two arenas generated from the same
/// size, fullness and seed (that is, two values meeting the contract of
/// `MapTiles::gen_v1` on identical arguments) hold identical tiles.
pub proof fn lemma_generation_deterministic(a: MapTiles, b: MapTiles, w: int, h: int, f: int, seed: u64)
    requires
        a@ == gen_grid(w, h, f, seed),
        b@ == gen_grid(w, h, f, seed),
    ensures
        a@ == b@,
{
}

/// Law: an arena of at least 10 by 10 keeps interior Air at any
/// fullness: its border ring plus the largest possible yield of the
/// requested segments never covers the whole area. Together with the
/// wall-count bound of `MapTiles::gen_v1`, some interior cell of every
/// such generated arena stays Air.
pub proof fn lemma_roomy_arena_keeps_air(w: int, h: int, f: int)
    requires
        10 <= w,
        10 <= h,
        0 <= f <= 1000,
    ensures
        2 * w + 2 * h - 4 + (MAX_WALL_LENGTH as int) * spawnable_walls(w, h, f) < w * h,
{
    let a = w * h * f + 6000;
    let q = a / 12000;
    assert(w * h * f <= w * h * 1000 && w * h >= 5 * w + 5 * h && w * h >= 100)
        by (nonlinear_arith)
        requires
            10 <= w,
            10 <= h,
            0 <= f <= 1000,
    ;
    assert(12000 * q <= a);
    assert(6 * q <= (w * h * 1000 + 6000) / 2000);
    assert((w * h * 1000 + 6000) / 2000 == (w * h) / 2 + 3) by {
        assert(w * h * 1000 + 6000 == 2000 * ((w * h) / 2 + 3) + 1000 * ((w * h) % 2));
    }
    assert(2 * w + 2 * h - 4 + 6 * q <= 2 * w + 2 * h - 1 + (w * h) / 2);
    assert(4 * w + 4 * h - 2 < w * h);
    assert(2 * w + 2 * h - 1 + (w * h) / 2 < w * h);
}

/// One coordinate of a segment cell: the base plus `v` steps of `step`.
fn seg_cell_coord(base: i64, step: i64, v: u64) -> (r: i64)
    requires
        -1 <= step <= 1,
        -0x7fff_ffff <= base <= 0x7fff_ffff,
        v <= MAX_WALL_LENGTH,
    ensures
        r as int == base + step * v,
        -0x8000_0007 <= r <= 0x8000_0007,
{
    if step == 1 {
        proof {
            assert(step * v == v) by (nonlinear_arith)
                requires
                    step == 1,
            ;
        }
        base + (v as i64)
    } else if step == -1 {
        proof {
            assert(step * v == -(v as int)) by (nonlinear_arith)
                requires
                    step == -1,
            ;
        }
        base - (v as i64)
    } else {
        proof {
            assert(step * v == 0) by (nonlinear_arith)
                requires
                    step == 0,
            ;
        }
        base
    }
}

impl MapTiles {
    /// Try to place one wall segment of `len` cells from `(x, y)` along
    /// direction code `dir`. The segment is placed only when every one
    /// of its cells is inside the arena and currently Air; then exactly
    /// those cells become Wall and no other cell changes. Otherwise the
    /// arena is left untouched.
    pub fn place_wall_segment(&mut self, x: i64, y: i64, dir: u64, len: u64) -> (placed: bool)
        requires
            old(self).wf(),
            dir < 4,
            1 <= len <= MAX_WALL_LENGTH,
            -0x7fff_ffff <= x <= 0x7fff_ffff,
            -0x7fff_ffff <= y <= 0x7fff_ffff,
        ensures
            final(self).wf(),
            final(self).spec_width() == old(self).spec_width(),
            final(self).spec_height() == old(self).spec_height(),
            placed <==> seg_ok(
                old(self)@,
                old(self).spec_width(),
                old(self).spec_height(),
                x as int,
                y as int,
                dir_dx(dir),
                dir_dy(dir),
                len as int,
            ),
            placed ==> final(self)@ == place_seg(
                old(self)@,
                x as int,
                y as int,
                dir_dx(dir),
                dir_dy(dir),
                len as nat,
            ),
            placed ==> forall|cx: int, cy: int|
                0 <= cx < old(self).spec_width() && 0 <= cy < old(self).spec_height()
                    ==> #[trigger] final(self)@[cy][cx] == (old(self)@[cy][cx] || seg_contains(
                    x as int,
                    y as int,
                    dir_dx(dir),
                    dir_dy(dir),
                    len as int,
                    cx,
                    cy,
                )),
            !placed ==> final(self)@ == old(self)@,
            placed ==> grid_walls(final(self)@) <= grid_walls(old(self)@) + len,
    {
        let (dx, dy): (i64, i64) = if dir == 0 {
            (1, 0)
        } else if dir == 1 {
            (-1, 0)
        } else if dir == 2 {
            (0, 1)
        } else {
            (0, -1)
        };
        let ghost w = self.spec_width();
        let ghost h = self.spec_height();

        let mut v: u64 = 0;
        while v < len
            invariant
                self == old(self),
                self.wf(),
                w == self.spec_width(),
                h == self.spec_height(),
                dir < 4,
                dx as int == dir_dx(dir),
                dy as int == dir_dy(dir),
                1 <= len <= MAX_WALL_LENGTH,
                -0x7fff_ffff <= x <= 0x7fff_ffff,
                -0x7fff_ffff <= y <= 0x7fff_ffff,
                v <= len,
                forall|vv: int|
                    0 <= vv < v ==> #[trigger] seg_ok_at(
                        self@,
                        w,
                        h,
                        x as int,
                        y as int,
                        dx as int,
                        dy as int,
                        vv,
                    ),
            decreases len - v,
        {
            let cx = seg_cell_coord(x, dx, v);
            let cy = seg_cell_coord(y, dy, v);
            match self.try_get(cx, cy) {
                Some(t) => {
                    if !(t == Tile::Air) {
                        proof {
                            assert(!seg_ok_at(
                                self@,
                                w,
                                h,
                                x as int,
                                y as int,
                                dx as int,
                                dy as int,
                                v as int,
                            ));
                        }
                        return false;
                    }
                },
                None => {
                    proof {
                        assert(!seg_ok_at(
                            self@,
                            w,
                            h,
                            x as int,
                            y as int,
                            dx as int,
                            dy as int,
                            v as int,
                        ));
                    }
                    return false;
                },
            }
            v = v + 1;
        }

        proof {
            lemma_place_seg_cells(
                self@,
                w,
                h,
                x as int,
                y as int,
                dx as int,
                dy as int,
                len as nat,
            );
        }

        let mut u: u64 = 0;
        while u < len
            invariant
                self.wf(),
                w == self.spec_width(),
                h == self.spec_height(),
                dir < 4,
                dx as int == dir_dx(dir),
                dy as int == dir_dy(dir),
                1 <= len <= MAX_WALL_LENGTH,
                -0x7fff_ffff <= x <= 0x7fff_ffff,
                -0x7fff_ffff <= y <= 0x7fff_ffff,
                u <= len,
                old(self).wf(),
                w == old(self).spec_width(),
                h == old(self).spec_height(),
                seg_ok(old(self)@, w, h, x as int, y as int, dx as int, dy as int, len as int),
                self@ == place_seg(
                    old(self)@,
                    x as int,
                    y as int,
                    dx as int,
                    dy as int,
                    u as nat,
                ),
                grid_walls(self@) <= grid_walls(old(self)@) + u,
            decreases len - u,
        {
            let cx = seg_cell_coord(x, dx, u);
            let cy = seg_cell_coord(y, dy, u);
            proof {
                assert(seg_ok_at(
                    old(self)@,
                    w,
                    h,
                    x as int,
                    y as int,
                    dx as int,
                    dy as int,
                    u as int,
                ));
                lemma_place_seg_cells(
                    old(self)@,
                    w,
                    h,
                    x as int,
                    y as int,
                    dx as int,
                    dy as int,
                    u as nat,
                );
            }
            proof {
                lemma_grid_set_true(self@, cx as int, cy as int);
            }
            let ok = self.try_set(cx, cy, Tile::Wall);
            proof {
                assert(ok);
            }
            u = u + 1;
        }
        true
    }
}

/// One randomized attempt at a segment: draw a length in
/// `1..=MAX_WALL_LENGTH`, a direction code, and a start cell, all from
/// the given stream state, and place the segment when it is valid.
/// Yields the grid, the stream state after the four draws, and whether
/// the segment was placed.
pub open spec fn wall_attempt(g: Seq<Seq<bool>>, w: int, h: int, s: Seq<u32>) -> (
    Seq<Seq<bool>>,
    Seq<u32>,
    bool,
) {
    let r1 = gen_step(s, MAX_WALL_LENGTH);
    let r2 = gen_step(r1.0, 4);
    let r3 = gen_step(r2.0, w as u64);
    let r4 = gen_step(r3.0, h as u64);
    let len = r1.1 + 1;
    let d = r2.1;
    let x = r3.1 as int;
    let y = r4.1 as int;
    if seg_ok(g, w, h, x, y, dir_dx(d), dir_dy(d), len as int) {
        (place_seg(g, x, y, dir_dx(d), dir_dy(d), len as nat), r4.0, true)
    } else {
        (g, r4.0, false)
    }
}

/// Up to `tries` attempts at one segment; the grid changes only when an
/// attempt succeeds, and every attempt consumes four draws.
pub open spec fn place_one_wall(g: Seq<Seq<bool>>, w: int, h: int, s: Seq<u32>, tries: nat) -> (
    Seq<Seq<bool>>,
    Seq<u32>,
    bool,
)
    decreases tries,
{
    if tries == 0 {
        (g, s, false)
    } else {
        let a = wall_attempt(g, w, h, s);
        if a.2 {
            a
        } else {
            place_one_wall(g, w, h, a.1, (tries - 1) as nat)
        }
    }
}

/// Up to `segs` segments placed in order; generation halts early, with
/// the grid as built so far, on the first segment whose tries are
/// exhausted.
pub open spec fn place_walls(g: Seq<Seq<bool>>, w: int, h: int, s: Seq<u32>, segs: nat) -> Seq<
    Seq<bool>,
>
    decreases segs,
{
    if segs == 0 {
        g
    } else {
        let p = place_one_wall(g, w, h, s, SPAWN_TRIES as nat);
        if p.2 {
            place_walls(p.0, w, h, p.1, (segs - 1) as nat)
        } else {
            g
        }
    }
}

/// How many wall segments generation aims for: the wanted wall tiles
/// (half the grid area, scaled by the per-mille fullness) divided by
/// the longest segment length, rounded to the nearest whole segment.
pub open spec fn spawnable_walls(w: int, h: int, fullness_pm: int) -> int {
    (w * h * fullness_pm + 6000) / 12000
}

/// The grid that generation produces: a bordered empty arena plus the
/// randomized wall segments drawn from the seeded stream. A pure
/// function of the arguments, which is what makes generation
/// reproducible.
pub open spec fn gen_grid(w: int, h: int, fullness_pm: int, seed: u64) -> Seq<Seq<bool>> {
    place_walls(
        empty_grid(w, h),
        w,
        h,
        seeded_state(seed),
        spawnable_walls(w, h, fullness_pm) as nat,
    )
}

impl MapTiles {
    /// Try to add one wall segment, redrawing until a valid spot is
    /// found or `SPAWN_TRIES` draws are exhausted.
    fn spawn_wall(&mut self, rng: &mut rand_chacha::ChaCha20Rng) -> (ok: bool)
        requires
            old(self).wf(),
            3 <= old(self).spec_width(),
            3 <= old(self).spec_height(),
        ensures
            final(self).wf(),
            final(self).spec_width() == old(self).spec_width(),
            final(self).spec_height() == old(self).spec_height(),
            ({
                let p = place_one_wall(
                    old(self)@,
                    old(self).spec_width(),
                    old(self).spec_height(),
                    rng_state(*old(rng)),
                    SPAWN_TRIES as nat,
                );
                &&& ok == p.2
                &&& rng_state(*final(rng)) == p.1
                &&& ok ==> final(self)@ == p.0
                &&& !ok ==> final(self)@ == old(self)@
            }),
            forall|cx: int, cy: int|
                0 <= cx < old(self).spec_width() && 0 <= cy < old(self).spec_height() && old(
                    self,
                )@[cy][cx] ==> #[trigger] final(self)@[cy][cx],
            grid_walls(final(self)@) <= grid_walls(old(self)@) + MAX_WALL_LENGTH,
    {
        let ghost w = self.spec_width();
        let ghost h = self.spec_height();
        let ghost p = place_one_wall(self@, w, h, rng_state(*rng), SPAWN_TRIES as nat);
        let mut t: u64 = 0;
        while t < SPAWN_TRIES
            invariant
                self.wf(),
                w == self.spec_width(),
                h == self.spec_height(),
                3 <= w,
                3 <= h,
                old(self).wf(),
                w == old(self).spec_width(),
                h == old(self).spec_height(),
                self@ == old(self)@,
                t <= SPAWN_TRIES,
                place_one_wall(self@, w, h, rng_state(*rng), (SPAWN_TRIES - t) as nat) == p,
                p == place_one_wall(
                    old(self)@,
                    old(self).spec_width(),
                    old(self).spec_height(),
                    rng_state(*old(rng)),
                    SPAWN_TRIES as nat,
                ),
            decreases SPAWN_TRIES - t,
        {
            let ghost s0 = rng_state(*rng);
            let lraw = gen_below(rng, MAX_WALL_LENGTH);
            let len = lraw + 1;
            let d = gen_below(rng, 4);
            let wx = gen_below(rng, self.width() as u64);
            let wy = gen_below(rng, self.height() as u64);
            let ghost a = wall_attempt(self@, w, h, s0);
            let placed = self.place_wall_segment(wx as i64, wy as i64, d, len);
            if placed {
                proof {
                    assert(a == (self@, rng_state(*rng), true));
                    assert(p == a);
                }
                return true;
            }
            proof {
                assert(a.2 == false && a.1 == rng_state(*rng));
            }
            t = t + 1;
        }
        proof {
            assert(place_one_wall(self@, w, h, rng_state(*rng), 0) == p);
        }
        false
    }

    /// Randomly generate an arena from `seed`: a bordered empty grid
    /// plus randomized wall segments. `fullness_permille` (0..=1000)
    /// sets, as an upper bound, how full of walls the arena should be.
    /// Generation is best-effort: when no spot is found for a segment
    /// after `SPAWN_TRIES` draws, the arena built so far is returned.
    /// The same arguments always produce the same arena.
    pub fn gen_v1(width: usize, height: usize, fullness_permille: u64, seed: u64) -> (r: MapTiles)
        requires
            3 <= width,
            3 <= height,
            width <= 0x7fff_ffff,
            height <= 0x7fff_ffff,
            width * height <= 0x4000_0000,
            fullness_permille <= 1000,
        ensures
            r.wf(),
            r.spec_width() == width,
            r.spec_height() == height,
            r@ == gen_grid(width as int, height as int, fullness_permille as int, seed),
            forall|cx: int, cy: int|
                0 <= cx < width && 0 <= cy < height && is_border(
                    cx,
                    cy,
                    width as int,
                    height as int,
                ) ==> #[trigger] r@[cy][cx],
            grid_walls(r@) <= 2 * width + 2 * height - 4 + MAX_WALL_LENGTH * spawnable_walls(
                width as int,
                height as int,
                fullness_permille as int,
            ),
            2 * width + 2 * height - 4 + MAX_WALL_LENGTH * spawnable_walls(
                width as int,
                height as int,
                fullness_permille as int,
            ) < width * height ==> exists|cx: int, cy: int|
                0 < cx < width - 1 && 0 < cy < height - 1 && !(#[trigger] r@[cy][cx]),
    {
        let ghost w = width as int;
        let ghost h = height as int;
        proof {
            assert(width * height <= usize::MAX) by (nonlinear_arith)
                requires
                    width * height <= 0x4000_0000,
            ;
        }
        let mut map = Self::new_empty(width, height);
        let mut rng = rng_from_seed(seed);
        proof {
            assert((width as u64) * (height as u64) == width * height);
            assert(width * height * fullness_permille <= 0x4000_0000 * 1000) by (nonlinear_arith)
                requires
                    width * height <= 0x4000_0000,
                    fullness_permille <= 1000,
            ;
        }
        let area: u64 = (width as u64) * (height as u64);
        let wanted: u64 = area * fullness_permille;
        let spawnable: u64 = (wanted + 6000) / 12000;
        let ghost target = gen_grid(w, h, fullness_permille as int, seed);
        let ghost fpm = fullness_permille as int;
        proof {
            assert(spawnable as int == spawnable_walls(w, h, fpm));
            lemma_empty_grid_walls(w, h);
        }
        let mut i: u64 = 0;
        while i < spawnable
            invariant_except_break
                map.wf(),
                w == map.spec_width(),
                h == map.spec_height(),
                3 <= w,
                3 <= h,
                i <= spawnable,
                place_walls(map@, w, h, rng_state(rng), (spawnable - i) as nat) == target,
                forall|cx: int, cy: int|
                    0 <= cx < w && 0 <= cy < h && is_border(cx, cy, w, h) ==> #[trigger] map@[cy][cx],
                grid_walls(map@) <= 2 * w + 2 * h - 4 + MAX_WALL_LENGTH * i,
            ensures
                map.wf(),
                w == map.spec_width(),
                h == map.spec_height(),
                map@ == target,
                forall|cx: int, cy: int|
                    0 <= cx < w && 0 <= cy < h && is_border(cx, cy, w, h) ==> #[trigger] map@[cy][cx],
                i <= spawnable,
                grid_walls(map@) <= 2 * w + 2 * h - 4 + MAX_WALL_LENGTH * i,
            decreases spawnable - i,
        {
            let ok = map.spawn_wall(&mut rng);
            if !ok {
                break ;
            }
            i = i + 1;
        }
        proof {
            assert(MAX_WALL_LENGTH * i <= MAX_WALL_LENGTH * spawnable);
            if 2 * w + 2 * h - 4 + MAX_WALL_LENGTH * spawnable_walls(w, h, fpm) < w * h {
                lemma_walls_below_area_leave_air(map@, w, h);
                let (cx, cy) = choose|cx: int, cy: int|
                    0 <= cx < w && 0 <= cy < h && !(#[trigger] map@[cy][cx]);
                assert(!is_border(cx, cy, w, h));
                assert(0 < cx < w - 1 && 0 < cy < h - 1 && !(map@[cy][cx]));
            }
        }
        map
    }
}

} // verus!
