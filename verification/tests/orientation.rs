use mars_rover::Orientation;

#[test]
fn parses() {
    assert_eq!(Orientation::parse("N").unwrap(), Orientation::North);
    assert_eq!(Orientation::parse("S").unwrap(), Orientation::South);
    assert_eq!(Orientation::parse("E").unwrap(), Orientation::East);
    assert_eq!(Orientation::parse("W").unwrap(), Orientation::West);
    assert!(Orientation::parse("q").is_err());
}

#[test]
fn north_turn_left() {
    assert_eq!(Orientation::North.turn_left(), Orientation::West)
}
#[test]
fn west_turn_left() {
    assert_eq!(Orientation::West.turn_left(), Orientation::South)
}
#[test]
fn south_turn_left() {
    assert_eq!(Orientation::South.turn_left(), Orientation::East)
}
#[test]
fn east_turn_left() {
    assert_eq!(Orientation::East.turn_left(), Orientation::North)
}

#[test]
fn north_turn_right() {
    assert_eq!(Orientation::North.turn_right(), Orientation::East)
}
#[test]
fn west_turn_right() {
    assert_eq!(Orientation::West.turn_right(), Orientation::North)
}
#[test]
fn south_turn_right() {
    assert_eq!(Orientation::South.turn_right(), Orientation::West)
}
#[test]
fn east_turn_right() {
    assert_eq!(Orientation::East.turn_right(), Orientation::South)
}

#[test]
fn code_round_trips_for_every_orientation() {
    let all = [
        Orientation::North,
        Orientation::East,
        Orientation::South,
        Orientation::West,
    ];
    for o in all {
        assert_eq!(Orientation::parse(o.code_str()).unwrap(), o);
    }
    for code in ["N", "E", "S", "W"] {
        assert_eq!(Orientation::parse(code).unwrap().code_str(), code);
    }
}

#[test]
fn rotations_form_four_cycles() {
    let all = [
        Orientation::North,
        Orientation::East,
        Orientation::South,
        Orientation::West,
    ];
    for o in all {
        assert_eq!(o.turn_right().turn_left(), o);
        assert_eq!(o.turn_left().turn_right(), o);
        assert_eq!(o.turn_right().turn_right().turn_right().turn_right(), o);
        assert_eq!(o.turn_left().turn_left().turn_left().turn_left(), o);
    }
}

#[test]
fn rejects_long_and_empty_tokens() {
    assert!(Orientation::parse("").is_err());
    assert!(Orientation::parse("NN").is_err());
    assert!(Orientation::parse("n").is_err());
}
