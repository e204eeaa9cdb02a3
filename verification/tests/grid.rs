use snake::grid::{Cell, Direction};
use snake::playfield::{cell_to_pixel, Playfield};

#[test]
fn opposite_directions_pair_up() {
    assert_eq!(Direction::Up.opposite(), Direction::Down);
    assert_eq!(Direction::Down.opposite(), Direction::Up);
    assert_eq!(Direction::Left.opposite(), Direction::Right);
    assert_eq!(Direction::Right.opposite(), Direction::Left);
}

#[test]
fn unit_vectors_point_one_step() {
    assert_eq!(Direction::Up.unit_vector(), (0, 1));
    assert_eq!(Direction::Down.unit_vector(), (0, -1));
    assert_eq!(Direction::Left.unit_vector(), (-1, 0));
    assert_eq!(Direction::Right.unit_vector(), (1, 0));
}

#[test]
fn step_moves_to_the_neighbor() {
    let c = Cell::new(3, -4);
    assert_eq!(c.step(Direction::Up), Cell { x: 3, y: -3 });
    assert_eq!(c.step(Direction::Down), Cell { x: 3, y: -5 });
    assert_eq!(c.step(Direction::Left), Cell { x: 2, y: -4 });
    assert_eq!(c.step(Direction::Right), Cell { x: 4, y: -4 });
}

#[test]
fn every_step_lands_on_an_adjacent_cell() {
    let c = Cell::new(-7, 12);
    for d in [Direction::Up, Direction::Down, Direction::Left, Direction::Right] {
        assert!(c.is_adjacent(c.step(d)));
        assert!(c.step(d).is_adjacent(c));
    }
}

#[test]
fn adjacency_is_manhattan_distance_one() {
    let c = Cell::new(0, 0);
    assert!(c.is_adjacent(Cell::new(1, 0)));
    assert!(c.is_adjacent(Cell::new(0, -1)));
    assert!(!c.is_adjacent(c));
    assert!(!c.is_adjacent(Cell::new(1, 1)));
    assert!(!c.is_adjacent(Cell::new(-1, 1)));
    assert!(!c.is_adjacent(Cell::new(2, 0)));
    assert!(!Cell::new(i32::MIN, i32::MIN).is_adjacent(Cell::new(i32::MAX, i32::MAX)));
    assert!(Cell::new(i32::MAX, 0).is_adjacent(Cell::new(i32::MAX - 1, 0)));
}

#[test]
fn playfield_wants_odd_positive_extents() {
    assert!(Playfield::new(33, 33).is_some());
    assert!(Playfield::new(1, 1).is_some());
    assert!(Playfield::new(5, 3).is_some());
    assert!(Playfield::new(i32::MAX, i32::MAX).is_some());
    assert!(Playfield::new(32, 33).is_none());
    assert!(Playfield::new(33, 32).is_none());
    assert!(Playfield::new(0, 33).is_none());
    assert!(Playfield::new(33, 0).is_none());
    assert!(Playfield::new(-3, 3).is_none());
    assert!(Playfield::new(3, -3).is_none());
}

#[test]
fn playfield_reports_its_extents() {
    let p = Playfield::new(33, 5).unwrap();
    assert_eq!(p.width(), 33);
    assert_eq!(p.height(), 5);
    assert_eq!(p.half_width(), 16);
    assert_eq!(p.half_height(), 2);
    assert_eq!(p.cell_count(), 165);
    assert_eq!(p.center(), Cell { x: 0, y: 0 });
    assert_eq!(Playfield::new(33, 33).unwrap().cell_count(), 1089);
    assert_eq!(
        Playfield::new(i32::MAX, i32::MAX).unwrap().cell_count(),
        2147483647u64 * 2147483647u64
    );
}

#[test]
fn playfield_contains_cells_up_to_the_half_extent() {
    let p = Playfield::new(5, 3).unwrap();
    assert!(p.contains(Cell::new(0, 0)));
    assert!(p.contains(Cell::new(2, 1)));
    assert!(p.contains(Cell::new(-2, -1)));
    assert!(!p.contains(Cell::new(3, 0)));
    assert!(!p.contains(Cell::new(-3, 0)));
    assert!(!p.contains(Cell::new(0, 2)));
    assert!(!p.contains(Cell::new(0, -2)));
    assert!(!p.contains(Cell::new(i32::MIN, 0)));
}

#[test]
fn cells_are_numbered_row_by_row_from_the_bottom_left() {
    let p = Playfield::new(5, 3).unwrap();
    assert_eq!(p.cell_at(0), Cell { x: -2, y: -1 });
    assert_eq!(p.cell_at(4), Cell { x: 2, y: -1 });
    assert_eq!(p.cell_at(5), Cell { x: -2, y: 0 });
    assert_eq!(p.cell_at(7), Cell { x: 0, y: 0 });
    assert_eq!(p.cell_at(14), Cell { x: 2, y: 1 });
    assert_eq!(p.index_of(Cell { x: -2, y: -1 }), 0);
    assert_eq!(p.index_of(Cell { x: 0, y: 0 }), 7);
    assert_eq!(p.index_of(Cell { x: 2, y: 1 }), 14);
}

#[test]
fn numbering_and_lookup_are_inverse() {
    let p = Playfield::new(7, 5).unwrap();
    for i in 0..p.cell_count() {
        let c = p.cell_at(i);
        assert!(p.contains(c));
        assert_eq!(p.index_of(c), i);
    }
    for y in -2..=2 {
        for x in -3..=3 {
            let c = Cell::new(x, y);
            assert_eq!(p.cell_at(p.index_of(c)), c);
        }
    }
}

#[test]
fn pixels_scale_the_cell() {
    assert_eq!(cell_to_pixel(Cell::new(0, 0), 24), (0, 0));
    assert_eq!(cell_to_pixel(Cell::new(3, -2), 24), (72, -48));
    assert_eq!(cell_to_pixel(Cell::new(-16, 16), 24), (-384, 384));
    assert_eq!(
        cell_to_pixel(Cell::new(i32::MIN, i32::MAX), i32::MIN),
        (4611686018427387904, -4611686016279904256)
    );
}
