use mars_rover::execute;
use mars_rover::Plateau;

#[test]
fn it_works() {
    let input = "5 5
1 2 N
LMLMLMLMM
3 3 E
MMRMMRMRRM";
    let expected_output = "1 3 N
5 1 E";

    assert_eq!(execute(input).unwrap(), expected_output)
}

#[test]
fn it_fails_to_parse_with_blank_input() {
    let input = "";
    assert!(Plateau::parse(input).is_err())
}

#[test]
fn empty_input_fails_execution_too() {
    assert!(execute("").is_err());
}

#[test]
fn single_move_off_the_western_edge_fails() {
    assert!(execute("5 5\n0 0 W\nM").is_err());
}

#[test]
fn empty_instruction_line_is_a_valid_no_op_program() {
    assert_eq!(execute("2 2\n0 0 N\n").unwrap(), "0 0 N");
}

#[test]
fn one_failing_rover_aborts_the_whole_batch() {
    // The first rover's program succeeds on its own, but the second goes
    // out of bounds, so no output is produced at all.
    let input = "5 5\n1 2 N\nLMLMLMLMM\n0 0 W\nM";
    assert!(execute(input).is_err());
}

#[test]
fn zero_rovers_produce_empty_output() {
    assert_eq!(execute("5 5").unwrap(), "");
}

#[test]
fn rover_parsed_outside_bounds_fails_on_first_move() {
    // Bounds are enforced only while instructions execute: parsing
    // accepts the position, and any Move from it is rejected because the
    // tentative position is checked on both axes.
    assert_eq!(execute("5 5\n9 9 N\n").unwrap(), "9 9 N");
    assert!(execute("5 5\n9 9 N\nM").is_err());
}

#[test]
fn reaching_the_far_corner_succeeds() {
    assert_eq!(execute("1 1\n0 0 N\nMRM").unwrap(), "1 1 E");
    assert!(execute("1 1\n0 0 N\nMRMM").is_err());
}

#[test]
fn parse_failures_of_every_kind_are_reported() {
    assert!(execute("5 5\nx 2 N\nM").is_err());
    assert!(execute("5 5\n1 y N\nM").is_err());
    assert!(execute("5 5\n1 2 Q\nM").is_err());
    assert!(execute("5 5\n1 2 N\nLXM").is_err());
    assert!(execute("5 5\n1 2 N").is_err());
    assert!(execute("5 5\n1 2\nM").is_err());
    assert!(execute("q 5\n1 2 N\nM").is_err());
}

#[test]
fn output_preserves_rover_order() {
    let input = "5 5\n0 0 N\n\n4 4 S\nM\n2 2 E\nRR";
    assert_eq!(execute(input).unwrap(), "0 0 N\n4 3 S\n2 2 W");
}
