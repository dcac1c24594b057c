use vstd::prelude::*;
use crate::map::MapTiles;
use crate::map::Tile;

verus! {

/// `(x, y)` lies inside a `w` by `h` grid and is Air there.
pub open spec fn cell_open(g: Seq<Seq<bool>>, w: int, h: int, c: (usize, usize)) -> bool {
    c.0 < w && c.1 < h && !g[c.1 as int][c.0 as int]
}

/// Two cells are 4-adjacent: they differ by one step along one axis.
pub open spec fn adjacent(a: (usize, usize), b: (usize, usize)) -> bool {
    ||| (a.0 == b.0 && a.1 + 1 == b.1)
    ||| (a.0 == b.0 && b.1 + 1 == a.1)
    ||| (a.1 == b.1 && a.0 + 1 == b.0)
    ||| (a.1 == b.1 && b.0 + 1 == a.0)
}

/// A walkable route: a nonempty cell sequence from `start` to `goal`
/// whose cells are all open and whose consecutive cells are 4-adjacent.
pub open spec fn path_ok(
    g: Seq<Seq<bool>>,
    w: int,
    h: int,
    p: Seq<(usize, usize)>,
    start: (usize, usize),
    goal: (usize, usize),
) -> bool {
    &&& p.len() >= 1
    &&& p[0] == start
    &&& p[p.len() - 1] == goal
    &&& forall|i: int| 0 <= i < p.len() ==> cell_open(g, w, h, #[trigger] p[i])
    &&& forall|i: int| 0 <= i < p.len() - 1 ==> adjacent(#[trigger] p[i], p[i + 1])
}

/// `r` is the integer nearest to the square root of `n`. No tie is
/// possible: the square root of an integer is never exactly halfway
/// between two integers.
pub open spec fn rounds_to_sqrt(n: int, r: int) -> bool {
    &&& r >= 0
    &&& n <= r * r + r
    &&& (r == 0 || r * r - r < n)
}

/// The squared Euclidean distance between two cells.
pub open spec fn dist_sq(a: (usize, usize), b: (usize, usize)) -> int {
    (a.0 - b.0) * (a.0 - b.0) + (a.1 - b.1) * (a.1 - b.1)
}

/// The square root of `n` rounded to the nearest integer, by binary
/// search for the floor square root.
fn rounded_sqrt(n: u64) -> (r: u64)
    requires
        n < 0x8000_0000_0000_0000,
    ensures
        rounds_to_sqrt(n as int, r as int),
{
    let mut lo: u64 = 0;
    let mut hi: u64 = 3_037_000_500;
    proof {
        assert((3_037_000_500u64 as int) * (3_037_000_500u64 as int) == 9223372037000250000int)
            by (nonlinear_arith);
    }
    while lo + 1 < hi
        invariant
            lo < hi <= 3_037_000_500,
            (lo as int) * (lo as int) <= n as int,
            (hi as int) * (hi as int) > n as int,
            n < 0x8000_0000_0000_0000,
        decreases hi - lo,
    {
        let mid = lo + (hi - lo) / 2;
        proof {
            assert((mid as int) * (mid as int) <= (3_037_000_500u64 as int) * (3_037_000_500u64 as int))
                by (nonlinear_arith)
                requires
                    0 <= mid <= 3_037_000_500,
            ;
            assert((3_037_000_500u64 as int) * (3_037_000_500u64 as int) == 9223372037000250000int)
                by (nonlinear_arith);
        }
        if mid * mid <= n {
            lo = mid;
        } else {
            hi = mid;
        }
    }
    proof {
        assert((lo as int) * (lo as int) <= 9223372037000250000int) by (nonlinear_arith)
            requires
                0 <= lo <= 3_037_000_500,
        ;
        assert((lo + 1) as int * ((lo + 1) as int) == (lo as int) * (lo as int) + 2 * (lo as int)
            + 1) by (nonlinear_arith);
    }
    if n <= lo * lo + lo {
        lo
    } else {
        lo + 1
    }
}

/// The A* heuristic: the Euclidean distance from `c` to `goal`, rounded
/// to the nearest integer. It never overestimates the length of a
/// 4-connected route, which is at least the Manhattan distance.
pub fn astar_heuristic(c: (usize, usize), goal: (usize, usize)) -> (r: u64)
    requires
        c.0 <= 0x7fff_ffff,
        c.1 <= 0x7fff_ffff,
        goal.0 <= 0x7fff_ffff,
        goal.1 <= 0x7fff_ffff,
    ensures
        rounds_to_sqrt(dist_sq(c, goal), r as int),
{
    let dx: u64 = if c.0 >= goal.0 {
        (c.0 - goal.0) as u64
    } else {
        (goal.0 - c.0) as u64
    };
    let dy: u64 = if c.1 >= goal.1 {
        (c.1 - goal.1) as u64
    } else {
        (goal.1 - c.1) as u64
    };
    proof {
        assert((dx as int) * (dx as int) == (c.0 - goal.0) * (c.0 - goal.0) && (dx as int) * (
        dx as int) <= 0x7fff_ffff * 0x7fff_ffff) by (nonlinear_arith)
            requires
                dx == if c.0 >= goal.0 {
                    c.0 - goal.0
                } else {
                    goal.0 - c.0
                },
                c.0 <= 0x7fff_ffff,
                goal.0 <= 0x7fff_ffff,
        ;
        assert((dy as int) * (dy as int) == (c.1 - goal.1) * (c.1 - goal.1) && (dy as int) * (
        dy as int) <= 0x7fff_ffff * 0x7fff_ffff) by (nonlinear_arith)
            requires
                dy == if c.1 >= goal.1 {
                    c.1 - goal.1
                } else {
                    goal.1 - c.1
                },
                c.1 <= 0x7fff_ffff,
                goal.1 <= 0x7fff_ffff,
        ;
    }
    let n = dx * dx + dy * dy;
    rounded_sqrt(n)
}

/// The Manhattan distance between two cells: the fewest 4-connected
/// steps between them on an unobstructed grid.
pub open spec fn manhattan(a: (usize, usize), b: (usize, usize)) -> int {
    (if a.0 >= b.0 {
        a.0 - b.0
    } else {
        b.0 - a.0
    }) + (if a.1 >= b.1 {
        a.1 - b.1
    } else {
        b.1 - a.1
    })
}

/// The rounded Euclidean distance never exceeds the Manhattan distance.
pub proof fn lemma_rounded_sqrt_le_manhattan(a: (usize, usize), b: (usize, usize), r: int)
    requires
        rounds_to_sqrt(dist_sq(a, b), r),
    ensures
        r <= manhattan(a, b),
{
    let dx = if a.0 >= b.0 {
        a.0 - b.0
    } else {
        b.0 - a.0
    };
    let dy = if a.1 >= b.1 {
        a.1 - b.1
    } else {
        b.1 - a.1
    };
    let m = dx + dy;
    assert(dist_sq(a, b) == dx * dx + dy * dy) by (nonlinear_arith)
        requires
            dx == if a.0 >= b.0 {
                a.0 - b.0
            } else {
                b.0 - a.0
            },
            dy == if a.1 >= b.1 {
                a.1 - b.1
            } else {
                b.1 - a.1
            },
    ;
    if r > m {
        assert((m + 1) * (m + 1) - (m + 1) >= dx * dx + dy * dy) by (nonlinear_arith)
            requires
                m == dx + dy,
                dx >= 0,
                dy >= 0,
        ;
        assert(r * r - r >= (m + 1) * (m + 1) - (m + 1)) by (nonlinear_arith)
            requires
                r >= m + 1 >= 1,
        ;
    }
}

/// A walkable route is never shorter than the Manhattan distance
/// between its ends: each 4-connected step closes at most one unit.
pub proof fn lemma_route_at_least_manhattan(
    g: Seq<Seq<bool>>,
    w: int,
    h: int,
    p: Seq<(usize, usize)>,
    start: (usize, usize),
    goal: (usize, usize),
)
    requires
        path_ok(g, w, h, p, start, goal),
    ensures
        manhattan(start, goal) <= p.len() - 1,
    decreases p.len(),
{
    if p.len() > 1 {
        let tail = p.subrange(1, p.len() as int);
        assert forall|i: int| 0 <= i < tail.len() implies cell_open(g, w, h, #[trigger] tail[i]) by {
            assert(tail[i] == p[i + 1]);
        }
        assert forall|i: int| 0 <= i < tail.len() - 1 implies adjacent(
            #[trigger] tail[i],
            tail[i + 1],
        ) by {
            assert(tail[i] == p[i + 1] && tail[i + 1] == p[i + 2]);
        }
        assert(tail[tail.len() - 1] == p[p.len() - 1]);
        assert(path_ok(g, w, h, tail, p[1], goal));
        lemma_route_at_least_manhattan(g, w, h, tail, p[1], goal);
        assert(adjacent(p[0], p[1]));
        assert(manhattan(start, goal) <= manhattan(p[1], goal) + 1);
    }
}

/// Law: the A* heuristic is admissible. A result of `astar_heuristic`
/// for a start and goal never exceeds the edge count of any walkable
/// route between them, so the search it guides is optimal.
pub proof fn lemma_heuristic_admissible(
    g: Seq<Seq<bool>>,
    w: int,
    h: int,
    p: Seq<(usize, usize)>,
    start: (usize, usize),
    goal: (usize, usize),
    r: int,
)
    requires
        path_ok(g, w, h, p, start, goal),
        rounds_to_sqrt(dist_sq(start, goal), r),
    ensures
        r <= p.len() - 1,
{
    lemma_rounded_sqrt_le_manhattan(start, goal, r);
    lemma_route_at_least_manhattan(g, w, h, p, start, goal);
}

/// The result of a route query: the cells from start to goal inclusive,
/// and the total cost, which counts the edges walked.
pub struct AStarPath {
    pub path: Vec<(usize, usize)>,
    pub cost: usize,
}

/// Relies on pathfinding::directed::astar::astar: with non-negative edge
/// costs and a heuristic that never overestimates the true remaining
/// cost, it returns a cheapest route from `start` to a goal cell,
/// comprising both ends, along with its total cost, and None exactly
/// when no route exists. The heuristic handed in is the rounded
/// Euclidean distance, which is at most the Manhattan distance and so
/// at most the length of any 4-connected route; the successor closure
/// hands back exactly the open 4-neighbors, each with cost 1, so the
/// searched routes are the walkable routes and a route's cost is its
/// edge count.
#[verifier::external_body]
fn astar_search(map: &MapTiles, start: (usize, usize), goal: (usize, usize)) -> (r: Option<
    (Vec<(usize, usize)>, u64),
>)
    requires
        map.wf(),
        cell_open(map@, map.spec_width(), map.spec_height(), start),
        cell_open(map@, map.spec_width(), map.spec_height(), goal),
    ensures
        match r {
            Some(pc) => {
                &&& path_ok(map@, map.spec_width(), map.spec_height(), pc.0@, start, goal)
                &&& pc.1 + 1 == pc.0@.len()
                &&& forall|q: Seq<(usize, usize)>|
                    path_ok(map@, map.spec_width(), map.spec_height(), q, start, goal)
                        ==> pc.0@.len() <= q.len()
            },
            None => forall|q: Seq<(usize, usize)>|
                !path_ok(map@, map.spec_width(), map.spec_height(), q, start, goal),
        },
{
    pathfinding::directed::astar::astar(
        &start,
        |c: &(usize, usize)| smallvec::SmallVec::<[((usize, usize), u64); 4]>::from_vec(
            map.successors(*c),
        ).into_iter(),
        |c: &(usize, usize)| astar_heuristic(*c, goal),
        |c: &(usize, usize)| *c == goal,
    )
}

proof fn lemma_push_has<T>(s: Seq<T>, e: T)
    ensures
        s.push(e).contains(e),
{
    assert(s.push(e)[s.len() as int] == e);
}

proof fn lemma_push_keeps<T>(s: Seq<T>, e: T, x: T)
    requires
        s.contains(x),
    ensures
        s.push(e).contains(x),
{
    let i = choose|i: int| 0 <= i < s.len() && s[i] == x;
    assert(s.push(e)[i] == x);
}

impl MapTiles {
    /// The in-bounds Air cells 4-adjacent to `c`, each with edge cost 1:
    /// exactly the cells a route may step to from `c`.
    pub fn successors(&self, c: (usize, usize)) -> (v: Vec<((usize, usize), u64)>)
        requires
            self.wf(),
        ensures
            forall|i: int|
                0 <= i < v@.len() ==> (#[trigger] v@[i]).1 == 1 && adjacent(c, v@[i].0)
                    && cell_open(self@, self.spec_width(), self.spec_height(), v@[i].0),
            forall|d: (usize, usize)|
                adjacent(c, d) && cell_open(self@, self.spec_width(), self.spec_height(), d)
                    ==> v@.contains((d, 1u64)),
    {
        let ghost w = self.spec_width();
        let ghost h = self.spec_height();
        let mut v: Vec<((usize, usize), u64)> = Vec::new();
        if c.0 > 0x7fff_ffff || c.1 > 0x7fff_ffff {
            proof {
                assert forall|d: (usize, usize)|
                    adjacent(c, d) && cell_open(self@, w, h, d) implies v@.contains(
                    (d, 1u64),
                ) by {
                    assert(d.0 >= 0x7fff_ffff || d.1 >= 0x7fff_ffff);
                    assert(w <= 0x7fff_ffff && h <= 0x7fff_ffff);
                }
            }
            return v;
        }
        let right = (c.0 + 1, c.1);
        match self.try_get(right.0 as i64, right.1 as i64) {
            Some(t) => {
                if t == Tile::Air {
                    v.push((right, 1));
                    proof {
                        lemma_push_has(Seq::<((usize, usize), u64)>::empty(), (right, 1u64));
                    }
                }
            },
            None => {},
        }
        let ghost v1 = v@;
        if c.0 > 0 {
            let left = (c.0 - 1, c.1);
            match self.try_get(left.0 as i64, left.1 as i64) {
                Some(t) => {
                    if t == Tile::Air {
                        proof {
                            lemma_push_has(v@, (left, 1u64));
                        }
                        v.push((left, 1));
                    }
                },
                None => {},
            }
        }
        let ghost v2 = v@;
        let up = (c.0, c.1 + 1);
        match self.try_get(up.0 as i64, up.1 as i64) {
            Some(t) => {
                if t == Tile::Air {
                    proof {
                        lemma_push_has(v@, (up, 1u64));
                    }
                    v.push((up, 1));
                }
            },
            None => {},
        }
        let ghost v3 = v@;
        if c.1 > 0 {
            let down = (c.0, c.1 - 1);
            match self.try_get(down.0 as i64, down.1 as i64) {
                Some(t) => {
                    if t == Tile::Air {
                        proof {
                            lemma_push_has(v@, (down, 1u64));
                        }
                        v.push((down, 1));
                    }
                },
                None => {},
            }
        }
        proof {
            assert forall|x: ((usize, usize), u64)| v1.contains(x) implies v@.contains(x) by {
                if v2 != v1 {
                    lemma_push_keeps(v1, v2[v2.len() - 1], x);
                }
                assert(v2.contains(x));
                if v3 != v2 {
                    lemma_push_keeps(v2, v3[v3.len() - 1], x);
                }
                assert(v3.contains(x));
                if v@ != v3 {
                    lemma_push_keeps(v3, v@[v@.len() - 1], x);
                }
            }
            assert forall|x: ((usize, usize), u64)| v2.contains(x) implies v@.contains(x) by {
                if v3 != v2 {
                    lemma_push_keeps(v2, v3[v3.len() - 1], x);
                }
                assert(v3.contains(x));
                if v@ != v3 {
                    lemma_push_keeps(v3, v@[v@.len() - 1], x);
                }
            }
            assert forall|x: ((usize, usize), u64)| v3.contains(x) implies v@.contains(x) by {
                if v@ != v3 {
                    lemma_push_keeps(v3, v@[v@.len() - 1], x);
                }
            }
            assert forall|d: (usize, usize)|
                adjacent(c, d) && cell_open(self@, w, h, d) implies v@.contains((d, 1u64)) by {
                if d.1 == c.1 && c.0 + 1 == d.0 {
                    assert(v1.contains((d, 1u64)));
                } else if d.1 == c.1 && d.0 + 1 == c.0 {
                    assert(v2.contains((d, 1u64)));
                } else if d.0 == c.0 && c.1 + 1 == d.1 {
                    assert(v3.contains((d, 1u64)));
                } else {
                    assert(d.0 == c.0 && d.1 + 1 == c.1);
                    assert(v@.contains((d, 1u64)));
                }
            }
        }
        v
    }

    /// Whether `c` is inside the arena and Air there; coordinates
    /// outside the arena simply report a closed cell.
    fn endpoint_open(&self, c: (usize, usize)) -> (r: bool)
        requires
            self.wf(),
        ensures
            r == cell_open(self@, self.spec_width(), self.spec_height(), c),
    {
        if c.0 > 0x7fff_ffff || c.1 > 0x7fff_ffff {
            return false;
        }
        match self.try_get(c.0 as i64, c.1 as i64) {
            Some(t) => t == Tile::Air,
            None => false,
        }
    }

    /// Shortest-route query over the arena, 4-connected with unit edge
    /// cost. Ok holds a cheapest route from `start` to `goal`, both
    /// included, and its cost in edges. Err means `goal` cannot be
    /// reached from `start` — a normal outcome, also reported when an
    /// endpoint is out of bounds or on a Wall.
    #[verifier::rlimit(100)]
    pub fn astar(&self, start: (usize, usize), goal: (usize, usize)) -> (r: Result<AStarPath, ()>)
        requires
            self.wf(),
        ensures
            match r {
                Ok(p) => {
                    &&& path_ok(self@, self.spec_width(), self.spec_height(), p.path@, start, goal)
                    &&& p.cost + 1 == p.path@.len()
                    &&& forall|q: Seq<(usize, usize)>|
                        path_ok(self@, self.spec_width(), self.spec_height(), q, start, goal)
                            ==> p.path@.len() <= q.len()
                },
                Err(_) => forall|q: Seq<(usize, usize)>|
                    !path_ok(self@, self.spec_width(), self.spec_height(), q, start, goal),
            },
    {
        let ghost w = self.spec_width();
        let ghost h = self.spec_height();
        if !self.endpoint_open(start) {
            proof {
                assert forall|q: Seq<(usize, usize)>| !path_ok(self@, w, h, q, start, goal) by {
                    if path_ok(self@, w, h, q, start, goal) {
                        assert(cell_open(self@, w, h, q[0]));
                    }
                }
            }
            return Err(());
        }
        if !self.endpoint_open(goal) {
            proof {
                assert forall|q: Seq<(usize, usize)>| !path_ok(self@, w, h, q, start, goal) by {
                    if path_ok(self@, w, h, q, start, goal) {
                        assert(cell_open(self@, w, h, q[q.len() - 1]));
                    }
                }
            }
            return Err(());
        }
        match astar_search(self, start, goal) {
            Some((path, cost)) => {
                let n = path.len();
                proof {
                    assert(cost + 1 == n);
                }
                Ok(AStarPath { path, cost: cost as usize })
            },
            None => Err(()),
        }
    }
}

} // verus!
