use cylinders_land::camera::{
    Axis, Direction, PITCH_LIMIT_DEGREES, ZOOM_MAX_DEGREES, ZOOM_MIN_DEGREES,
};

#[test]
fn forward_and_backward_follow_the_forward_vector() {
    assert_eq!(Direction::FWD.axis(), Axis::Forward);
    assert_eq!(Direction::BWD.axis(), Axis::Forward);
    assert_eq!(Direction::FWD.sign(), 1);
    assert_eq!(Direction::BWD.sign(), -1);
}

#[test]
fn left_and_right_follow_the_right_vector() {
    assert_eq!(Direction::LEFT.axis(), Axis::Right);
    assert_eq!(Direction::RIGHT.axis(), Axis::Right);
    assert_eq!(Direction::LEFT.sign(), -1);
    assert_eq!(Direction::RIGHT.sign(), 1);
}

#[test]
fn opposite_requests_cancel() {
    let pairs = [(Direction::FWD, Direction::BWD), (Direction::RIGHT, Direction::LEFT)];
    for (there, back) in pairs {
        assert_eq!(there.axis(), back.axis());
        assert_eq!(there.sign() + back.sign(), 0);
    }
}

#[test]
fn angle_limits() {
    assert_eq!(PITCH_LIMIT_DEGREES, 89);
    assert_eq!(ZOOM_MIN_DEGREES, 1);
    assert_eq!(ZOOM_MAX_DEGREES, 45);
}
