use tanks::map::{MapTiles, Tile};

fn tile_at(m: &MapTiles, x: i64, y: i64) -> Tile {
    m.try_get(x, y).expect("coordinates must be in bounds")
}

fn grids_equal(a: &MapTiles, b: &MapTiles) -> bool {
    if a.width() != b.width() || a.height() != b.height() {
        return false;
    }
    for y in 0..a.height() as i64 {
        for x in 0..a.width() as i64 {
            if tile_at(a, x, y) != tile_at(b, x, y) {
                return false;
            }
        }
    }
    true
}

fn wall_count(m: &MapTiles) -> usize {
    let mut n = 0;
    for y in 0..m.height() as i64 {
        for x in 0..m.width() as i64 {
            if tile_at(m, x, y) == Tile::Wall {
                n += 1;
            }
        }
    }
    n
}

#[test]
fn new_empty_has_wall_border_and_air_interior() {
    let m = MapTiles::new_empty(10, 8);
    assert_eq!(m.width(), 10);
    assert_eq!(m.height(), 8);
    for x in 0..10 {
        assert_eq!(tile_at(&m, x, 0), Tile::Wall);
        assert_eq!(tile_at(&m, x, 7), Tile::Wall);
    }
    for y in 0..8 {
        assert_eq!(tile_at(&m, 0, y), Tile::Wall);
        assert_eq!(tile_at(&m, 9, y), Tile::Wall);
    }
    for y in 1..7 {
        for x in 1..9 {
            assert_eq!(tile_at(&m, x, y), Tile::Air);
        }
    }
}

#[test]
fn try_get_out_of_bounds_is_none() {
    let m = MapTiles::new_empty(5, 5);
    assert!(m.try_get(-1, 0).is_none());
    assert!(m.try_get(0, -1).is_none());
    assert!(m.try_get(5, 0).is_none());
    assert!(m.try_get(0, 5).is_none());
    assert!(m.try_get(2, 2).is_some());
}

#[test]
fn try_set_changes_exactly_one_cell() {
    let mut m = MapTiles::new_empty(6, 6);
    assert!(m.try_set(2, 3, Tile::Wall));
    assert_eq!(tile_at(&m, 2, 3), Tile::Wall);
    for y in 1..5 {
        for x in 1..5 {
            if (x, y) != (2, 3) {
                assert_eq!(tile_at(&m, x, y), Tile::Air);
            }
        }
    }
    assert!(!m.try_set(-1, 0, Tile::Wall));
    assert!(!m.try_set(6, 0, Tile::Wall));
}

#[test]
fn place_segment_marks_exactly_its_cells() {
    let mut m = MapTiles::new_empty(10, 10);
    // direction code 0 is +X
    let placed = m.place_wall_segment(2, 2, 0, 3);
    assert!(placed);
    assert_eq!(tile_at(&m, 2, 2), Tile::Wall);
    assert_eq!(tile_at(&m, 3, 2), Tile::Wall);
    assert_eq!(tile_at(&m, 4, 2), Tile::Wall);
    for y in 1..9 {
        for x in 1..9 {
            let in_segment = y == 2 && (2..5).contains(&x);
            let expected = if in_segment { Tile::Wall } else { Tile::Air };
            assert_eq!(tile_at(&m, x, y), expected);
        }
    }
}

#[test]
fn place_segment_rejects_invalid_spots_unchanged() {
    let mut m = MapTiles::new_empty(10, 10);
    // runs off the border: cell (0, 2) is Wall
    assert!(!m.place_wall_segment(2, 2, 1, 3));
    // runs out of bounds
    assert!(!m.place_wall_segment(8, 8, 0, 4));
    let fresh = MapTiles::new_empty(10, 10);
    assert!(grids_equal(&m, &fresh));
    // overlap with an earlier segment fails and changes nothing
    assert!(m.place_wall_segment(2, 2, 0, 3));
    let snapshot_walls = wall_count(&m);
    assert!(!m.place_wall_segment(4, 2, 2, 2));
    assert_eq!(wall_count(&m), snapshot_walls);
}

#[test]
fn generated_grid_keeps_wall_border_and_some_interior_air() {
    let m = MapTiles::gen_v1(10, 10, 500, 42);
    for x in 0..10 {
        assert_eq!(tile_at(&m, x, 0), Tile::Wall);
        assert_eq!(tile_at(&m, x, 9), Tile::Wall);
    }
    for y in 0..10 {
        assert_eq!(tile_at(&m, 0, y), Tile::Wall);
        assert_eq!(tile_at(&m, 9, y), Tile::Wall);
    }
    let mut interior_air = 0;
    for y in 1..9 {
        for x in 1..9 {
            if tile_at(&m, x, y) == Tile::Air {
                interior_air += 1;
            }
        }
    }
    assert!(interior_air > 0);
}

#[test]
fn generation_places_interior_walls_when_asked() {
    // half fullness on a 10x10 arena asks for four segments; with a
    // thousand tries per segment the seeded stream finds spots for them,
    // so walls appear beyond the 36 border cells
    let m = MapTiles::gen_v1(10, 10, 500, 42);
    assert!(wall_count(&m) > 36);
}

#[test]
fn generation_is_deterministic_for_a_seed() {
    let a = MapTiles::gen_v1(12, 9, 700, 123456789);
    let b = MapTiles::gen_v1(12, 9, 700, 123456789);
    assert!(grids_equal(&a, &b));
    let c = MapTiles::gen_v1(12, 9, 700, 4);
    let d = MapTiles::gen_v1(12, 9, 700, 4);
    assert!(grids_equal(&c, &d));
}

#[test]
fn zero_fullness_generates_only_the_border() {
    let m = MapTiles::gen_v1(10, 10, 0, 99);
    let empty = MapTiles::new_empty(10, 10);
    assert!(grids_equal(&m, &empty));
    // border cells: the full ring of a 10x10 grid
    assert_eq!(wall_count(&m), 36);
}

#[test]
fn smallest_arena_keeps_its_border() {
    let m = MapTiles::gen_v1(3, 3, 1000, 7);
    for x in 0..3 {
        for y in 0..3 {
            if x != 1 || y != 1 {
                assert_eq!(tile_at(&m, x, y), Tile::Wall);
            }
        }
    }
    let again = MapTiles::gen_v1(3, 3, 1000, 7);
    assert!(grids_equal(&m, &again));
    let empty = MapTiles::new_empty(3, 3);
    assert_eq!(tile_at(&empty, 1, 1), Tile::Air);
}

#[test]
fn fullness_bounds_the_wall_density() {
    // wanted walls: 20*20*250/1000/2 = 50, so at most round(50/6) = 8
    // segments of at most 6 cells each on top of the 76 border cells
    let m = MapTiles::gen_v1(20, 20, 250, 2024);
    let border = 2 * 20 + 2 * 18;
    assert!(wall_count(&m) <= border + 8 * 6);
}
