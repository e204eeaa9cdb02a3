use snake::grid::{Cell, Direction};
use snake::snake::{arbitrate, check_chain, contains_cell, Snake};

fn cells(points: &[(i32, i32)]) -> Vec<Cell> {
    points.iter().map(|&(x, y)| Cell::new(x, y)).collect()
}

#[test]
fn new_snake_sits_at_the_centre_heading_right() {
    let s = Snake::new();
    assert_eq!(s.segments(), &cells(&[(0, 0), (-1, 0)]));
    assert_eq!(s.head(), Cell::new(0, 0));
    assert_eq!(s.len(), 2);
    assert_eq!(s.direction(), Direction::Right);
    assert_eq!(s.next_head(), Cell::new(1, 0));
}

#[test]
fn arbitration_ignores_a_reversal() {
    assert_eq!(arbitrate(Direction::Right, Direction::Left), Direction::Right);
    assert_eq!(arbitrate(Direction::Left, Direction::Right), Direction::Left);
    assert_eq!(arbitrate(Direction::Up, Direction::Down), Direction::Up);
    assert_eq!(arbitrate(Direction::Down, Direction::Up), Direction::Down);
}

#[test]
fn arbitration_takes_any_other_request() {
    let all = [Direction::Up, Direction::Down, Direction::Left, Direction::Right];
    for current in all {
        for pending in all {
            let r = arbitrate(current, pending);
            if pending == current.opposite() {
                assert_eq!(r, current);
            } else {
                assert_eq!(r, pending);
            }
            assert_ne!(r, current.opposite());
        }
    }
}

#[test]
fn turn_left_while_moving_right_is_ignored() {
    let mut s = Snake::new();
    s.turn(Direction::Left);
    assert_eq!(s.direction(), Direction::Right);
    s.turn(Direction::Down);
    assert_eq!(s.direction(), Direction::Down);
    s.turn(Direction::Up);
    assert_eq!(s.direction(), Direction::Down);
    assert_eq!(s.segments(), &cells(&[(0, 0), (-1, 0)]));
}

#[test]
fn advance_without_growth_slides_the_body() {
    let mut s = Snake::from_segments(cells(&[(0, 0), (-1, 0), (-1, 1)]), Direction::Right).unwrap();
    s.advance(Cell::new(1, 0), false);
    assert_eq!(s.segments(), &cells(&[(1, 0), (0, 0), (-1, 0)]));
    assert_eq!(s.head(), Cell::new(1, 0));
    assert_eq!(s.len(), 3);
    assert_eq!(s.direction(), Direction::Right);
}

#[test]
fn advance_with_growth_keeps_the_vacated_tail_cell() {
    let mut s = Snake::from_segments(cells(&[(0, 0), (-1, 0), (-1, 1)]), Direction::Right).unwrap();
    s.advance(Cell::new(1, 0), true);
    assert_eq!(s.segments(), &cells(&[(1, 0), (0, 0), (-1, 0), (-1, 1)]));
    assert_eq!(s.len(), 4);
}

#[test]
fn advance_may_enter_the_cell_the_tail_leaves() {
    let mut s =
        Snake::from_segments(cells(&[(0, 0), (-1, 0), (-1, 1), (0, 1)]), Direction::Up).unwrap();
    s.advance(Cell::new(0, 1), false);
    assert_eq!(s.segments(), &cells(&[(0, 1), (0, 0), (-1, 0), (-1, 1)]));
    assert!(check_chain(s.segments()));
}

#[test]
fn advance_on_a_single_cell_snake() {
    let mut s = Snake::from_segments(cells(&[(4, 4)]), Direction::Up).unwrap();
    s.advance(Cell::new(4, 5), false);
    assert_eq!(s.segments(), &cells(&[(4, 5)]));
    s.advance(Cell::new(4, 6), true);
    assert_eq!(s.segments(), &cells(&[(4, 6), (4, 5)]));
}

#[test]
fn advance_keeps_consecutive_cells_adjacent() {
    let mut s = Snake::new();
    let path = [
        Direction::Right,
        Direction::Up,
        Direction::Up,
        Direction::Left,
        Direction::Left,
        Direction::Down,
        Direction::Left,
    ];
    for (i, d) in path.iter().enumerate() {
        s.turn(*d);
        let before = s.len();
        let grow = i % 2 == 0;
        s.advance(s.next_head(), grow);
        assert_eq!(s.len(), before + if grow { 1 } else { 0 });
        assert!(check_chain(s.segments()));
        for pair in s.segments().windows(2) {
            assert!(pair[0].is_adjacent(pair[1]));
        }
    }
    assert_eq!(s.len(), 6);
}

#[test]
fn from_segments_accepts_only_chains() {
    assert!(Snake::from_segments(cells(&[(0, 0)]), Direction::Up).is_some());
    assert!(Snake::from_segments(cells(&[(0, 0), (-1, 0), (-1, 1), (0, 1)]), Direction::Up).is_some());
    assert!(Snake::from_segments(cells(&[]), Direction::Up).is_none());
    assert!(Snake::from_segments(cells(&[(0, 0), (2, 0)]), Direction::Up).is_none());
    assert!(Snake::from_segments(cells(&[(0, 0), (1, 1)]), Direction::Up).is_none());
    assert!(Snake::from_segments(cells(&[(0, 0), (0, 0)]), Direction::Up).is_none());
    assert!(Snake::from_segments(cells(&[(0, 0), (1, 0), (0, 0)]), Direction::Up).is_none());
    assert!(
        Snake::from_segments(cells(&[(0, 0), (1, 0), (1, 1), (0, 1), (0, 0)]), Direction::Up).is_none()
    );
}

#[test]
fn from_segments_keeps_body_and_direction() {
    let body = cells(&[(2, 2), (2, 1), (1, 1)]);
    let s = Snake::from_segments(body.clone(), Direction::Left).unwrap();
    assert_eq!(s.segments(), &body);
    assert_eq!(s.direction(), Direction::Left);
    assert_eq!(s.head(), Cell::new(2, 2));
}

#[test]
fn check_chain_agrees_with_from_segments() {
    assert!(check_chain(&cells(&[(5, 5), (5, 4), (4, 4)])));
    assert!(!check_chain(&cells(&[])));
    assert!(!check_chain(&cells(&[(5, 5), (5, 4), (5, 5)])));
    assert!(!check_chain(&cells(&[(5, 5), (4, 4)])));
}

#[test]
fn occupies_finds_every_body_cell() {
    let s = Snake::from_segments(cells(&[(0, 0), (-1, 0), (-1, 1)]), Direction::Right).unwrap();
    assert!(s.occupies(Cell::new(0, 0)));
    assert!(s.occupies(Cell::new(-1, 0)));
    assert!(s.occupies(Cell::new(-1, 1)));
    assert!(!s.occupies(Cell::new(1, 0)));
    assert!(!s.occupies(Cell::new(0, 1)));
    assert!(contains_cell(&cells(&[(3, 3)]), Cell::new(3, 3)));
    assert!(!contains_cell(&cells(&[]), Cell::new(3, 3)));
}
