use tanks::map::{MapTiles, Tile};
use tanks::path::astar_heuristic;

#[test]
fn astar_on_open_grid_returns_cost_3_four_cells() {
    let m = MapTiles::new_empty(10, 10);
    let r = m.astar((1, 1), (4, 1)).expect("route must exist on an open grid");
    assert_eq!(r.cost, 3);
    assert_eq!(r.path.len(), 4);
    assert_eq!(r.path[0], (1, 1));
    assert_eq!(r.path[3], (4, 1));
    // each step moves to a 4-adjacent cell
    for pair in r.path.windows(2) {
        let dx = (pair[0].0 as i64 - pair[1].0 as i64).abs();
        let dy = (pair[0].1 as i64 - pair[1].1 as i64).abs();
        assert_eq!(dx + dy, 1);
    }
}

#[test]
fn astar_routes_around_a_wall() {
    let mut m = MapTiles::new_empty(10, 10);
    // a vertical wall at x == 3 with no gap in the interior
    for y in 1..9 {
        assert!(m.try_set(3, y, Tile::Wall));
    }
    assert!(m.astar((1, 1), (5, 1)).is_err());
    // open one gap and the route must pass through it
    assert!(m.try_set(3, 4, Tile::Air));
    let r = m.astar((1, 1), (5, 1)).expect("the gap makes a route");
    assert!(r.path.contains(&(3, 4)));
    // down to the gap, across, and back up: 3 + 4 + 3 edges
    assert_eq!(r.cost, 10);
}

#[test]
fn astar_not_found_when_goal_is_enclosed() {
    let mut m = MapTiles::new_empty(10, 10);
    for (x, y) in [(4, 5), (6, 5), (5, 4), (5, 6)] {
        assert!(m.try_set(x, y, Tile::Wall));
    }
    assert!(m.astar((1, 1), (5, 5)).is_err());
    // and the enclosure is airtight in the other direction too
    assert!(m.astar((5, 5), (1, 1)).is_err());
}

#[test]
fn astar_same_start_and_goal_is_free() {
    let m = MapTiles::new_empty(10, 10);
    let r = m.astar((2, 2), (2, 2)).expect("a cell reaches itself");
    assert_eq!(r.cost, 0);
    assert_eq!(r.path, vec![(2, 2)]);
}

#[test]
fn astar_rejects_wall_or_out_of_bounds_endpoints() {
    let m = MapTiles::new_empty(10, 10);
    // (0, 0) is border Wall
    assert!(m.astar((0, 0), (2, 2)).is_err());
    assert!(m.astar((2, 2), (0, 0)).is_err());
    assert!(m.astar((2, 2), (10, 3)).is_err());
    assert!(m.astar((42, 42), (2, 2)).is_err());
}

#[test]
fn heuristic_is_the_rounded_euclidean_distance() {
    assert_eq!(astar_heuristic((0, 0), (3, 4)), 5);
    assert_eq!(astar_heuristic((1, 1), (4, 1)), 3);
    assert_eq!(astar_heuristic((0, 0), (1, 1)), 1); // sqrt(2) = 1.41..
    assert_eq!(astar_heuristic((0, 0), (2, 1)), 2); // sqrt(5) = 2.23..
    assert_eq!(astar_heuristic((0, 0), (2, 2)), 3); // sqrt(8) = 2.82..
    assert_eq!(astar_heuristic((7, 7), (7, 7)), 0);
    assert_eq!(astar_heuristic((9, 2), (2, 2)), 7);
}

#[test]
fn successors_are_the_open_neighbors() {
    let m = MapTiles::new_empty(10, 10);
    // (1, 1) is the corner of the interior: two neighbors are border Wall
    let v = m.successors((1, 1));
    assert_eq!(v.len(), 2);
    assert!(v.contains(&((2, 1), 1)));
    assert!(v.contains(&((1, 2), 1)));
    // an interior cell has all four
    let v = m.successors((5, 5));
    assert_eq!(v.len(), 4);
    for d in [(6, 5), (4, 5), (5, 6), (5, 4)] {
        assert!(v.contains(&(d, 1)));
    }
}
