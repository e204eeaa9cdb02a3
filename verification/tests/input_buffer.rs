use snake::grid::Direction;
use snake::input::{any_asks_for, InputBuffer, Key};

#[test]
fn steering_keys_map_to_directions() {
    for k in [Key::ArrowUp, Key::W, Key::I] {
        assert_eq!(k.direction(), Some(Direction::Up));
    }
    for k in [Key::ArrowDown, Key::S, Key::K] {
        assert_eq!(k.direction(), Some(Direction::Down));
    }
    for k in [Key::ArrowLeft, Key::A, Key::J] {
        assert_eq!(k.direction(), Some(Direction::Left));
    }
    for k in [Key::ArrowRight, Key::D, Key::L] {
        assert_eq!(k.direction(), Some(Direction::Right));
    }
    assert_eq!(Key::Other.direction(), None);
}

#[test]
fn buffer_holds_the_latest_request() {
    let mut b = InputBuffer::new(Direction::Right);
    assert_eq!(b.pending(), Direction::Right);
    b.request(Direction::Up);
    b.request(Direction::Left);
    b.request(Direction::Down);
    assert_eq!(b.pending(), Direction::Down);
}

#[test]
fn press_ignores_keys_that_do_not_steer() {
    let mut b = InputBuffer::new(Direction::Right);
    b.press(Key::Other);
    assert_eq!(b.pending(), Direction::Right);
    b.press(Key::W);
    assert_eq!(b.pending(), Direction::Up);
    b.press(Key::Other);
    assert_eq!(b.pending(), Direction::Up);
    b.press(Key::J);
    assert_eq!(b.pending(), Direction::Left);
}

#[test]
fn frame_without_steering_keys_keeps_the_request() {
    let mut b = InputBuffer::new(Direction::Down);
    b.press_frame(&vec![]);
    assert_eq!(b.pending(), Direction::Down);
    b.press_frame(&vec![Key::Other, Key::Other]);
    assert_eq!(b.pending(), Direction::Down);
}

#[test]
fn frame_takes_the_last_direction_in_the_order_up_down_left_right() {
    let mut b = InputBuffer::new(Direction::Down);
    b.press_frame(&vec![Key::W]);
    assert_eq!(b.pending(), Direction::Up);
    b.press_frame(&vec![Key::D, Key::W]);
    assert_eq!(b.pending(), Direction::Right);
    b.press_frame(&vec![Key::ArrowLeft, Key::S, Key::I]);
    assert_eq!(b.pending(), Direction::Left);
    b.press_frame(&vec![Key::K, Key::ArrowUp, Key::Other]);
    assert_eq!(b.pending(), Direction::Down);
    b.press_frame(&vec![Key::L, Key::J, Key::K, Key::I]);
    assert_eq!(b.pending(), Direction::Right);
}

#[test]
fn any_asks_for_looks_at_every_key() {
    let keys = vec![Key::Other, Key::A, Key::ArrowUp];
    assert!(any_asks_for(&keys, Direction::Left));
    assert!(any_asks_for(&keys, Direction::Up));
    assert!(!any_asks_for(&keys, Direction::Right));
    assert!(!any_asks_for(&keys, Direction::Down));
    assert!(!any_asks_for(&vec![], Direction::Up));
}

#[test]
fn consume_arbitrates_and_resets_the_request() {
    let mut b = InputBuffer::new(Direction::Left);
    assert_eq!(b.consume(Direction::Right), Direction::Right);
    assert_eq!(b.pending(), Direction::Right);
    b.request(Direction::Up);
    assert_eq!(b.consume(Direction::Right), Direction::Up);
    assert_eq!(b.pending(), Direction::Up);
    assert_eq!(b.consume(Direction::Up), Direction::Up);
    assert_eq!(b.pending(), Direction::Up);
}
