use mars_rover::Orientation;
use mars_rover::Plateau;

#[test]
fn parses_header_and_rover_pairs() {
    let plateau = Plateau::parse("5 6\n1 2 N\nLM\n3 3 E\n").unwrap();
    assert_eq!(plateau.h_size, 5);
    assert_eq!(plateau.v_size, 6);
    assert_eq!(plateau.rovers.len(), 2);
    assert_eq!(plateau.rovers[0].x, 1);
    assert_eq!(plateau.rovers[0].y, 2);
    assert_eq!(plateau.rovers[0].orientation, Orientation::North);
    assert_eq!(plateau.rovers[1].instructions.len(), 0);
}

#[test]
fn header_alone_yields_zero_rovers() {
    let plateau = Plateau::parse("5 5").unwrap();
    assert_eq!(plateau.rovers.len(), 0);
}

#[test]
fn header_tokens_past_the_second_are_ignored() {
    let plateau = Plateau::parse("5 5 9").unwrap();
    assert_eq!((plateau.h_size, plateau.v_size), (5, 5));
}

#[test]
fn rejects_header_with_one_token() {
    assert!(Plateau::parse("5").is_err());
}

#[test]
fn rejects_non_numeric_header() {
    assert!(Plateau::parse("a 5").is_err());
    assert!(Plateau::parse("5 b").is_err());
    assert!(Plateau::parse("+5 5").is_err());
    assert!(Plateau::parse("5  5").is_err());
}

#[test]
fn rejects_odd_rover_line_count() {
    assert!(Plateau::parse("5 5\n1 2 N").is_err());
    assert!(Plateau::parse("5 5\n1 2 N\nM\n3 3 E").is_err());
}

#[test]
fn accepts_largest_size_and_rejects_overflow() {
    let plateau = Plateau::parse("4294967295 1").unwrap();
    assert_eq!(plateau.h_size, u32::MAX);
    assert!(Plateau::parse("4294967296 1").is_err());
}

#[test]
fn accepts_leading_zeros() {
    let plateau = Plateau::parse("007 5").unwrap();
    assert_eq!(plateau.h_size, 7);
}

#[test]
fn rovers_returns_independent_copies() {
    let plateau = Plateau::parse("5 5\n1 2 N\nLM").unwrap();
    let mut rovers = plateau.rovers();
    assert_eq!(rovers.len(), 1);
    assert_eq!((rovers[0].x, rovers[0].y), (1, 2));
    rovers[0].x = 4;
    let again = plateau.rovers();
    assert_eq!(again[0].x, 1);
}

#[test]
fn serializes_one_line_per_rover() {
    let plateau = Plateau::parse("5 5\n1 2 N\nLM\n3 3 E\n").unwrap();
    assert_eq!(plateau.to_text(), "1 2 N\n3 3 E");
}

#[test]
fn serializes_no_rovers_as_empty_text() {
    let plateau = Plateau::parse("5 5").unwrap();
    assert_eq!(plateau.to_text(), "");
}
