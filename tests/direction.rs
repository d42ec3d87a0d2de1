use wsg_play::direction::Direction;

#[test]
fn turning_right_goes_clockwise() {
    assert_eq!(Direction::Up.turn_right(), Direction::Right);
    assert_eq!(Direction::Right.turn_right(), Direction::Down);
    assert_eq!(Direction::Down.turn_right(), Direction::Left);
    assert_eq!(Direction::Left.turn_right(), Direction::Up);
}

#[test]
fn turning_left_undoes_turning_right() {
    for d in [Direction::Up, Direction::Right, Direction::Down, Direction::Left] {
        assert_eq!(d.turn_right().turn_left(), d);
        assert_eq!(d.turn_left().turn_right(), d);
    }
    assert_eq!(Direction::Up.turn_left(), Direction::Left);
    assert_eq!(Direction::default(), Direction::Up);
}
