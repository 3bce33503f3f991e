use mars_rover::Instruction;
use mars_rover::Orientation;
use mars_rover::Rover;

fn test_rover() -> Rover {
    Rover {
        x: 3,
        y: 3,
        orientation: Orientation::East,
        instructions: vec![
            Instruction::Move,
            Instruction::Move,
            Instruction::Right,
            Instruction::Move,
            Instruction::Move,
            Instruction::Right,
            Instruction::Move,
            Instruction::Right,
            Instruction::Right,
            Instruction::Move,
        ],
    }
}

#[test]
fn doing_turn_left_turns_left() {
    let rover = test_rover();
    let new_rover = rover.turn_left();

    assert_eq!(new_rover.orientation, Orientation::North)
}

#[test]
fn doing_turn_right_turns_right() {
    let rover = test_rover();
    let new_rover = rover.turn_right();

    assert_eq!(new_rover.orientation, Orientation::South)
}

#[test]
fn moving_north_increases_y() {
    let rover = Rover {
        orientation: Orientation::North,
        ..test_rover()
    };
    let new_rover = rover.try_move(20, 20).unwrap();

    assert_eq!(new_rover.y, 4)
}

#[test]
fn moving_south_decreases_y() {
    let rover = Rover {
        orientation: Orientation::South,
        ..test_rover()
    };
    let new_rover = rover.try_move(20, 20).unwrap();

    assert_eq!(new_rover.y, 2)
}

#[test]
fn moving_west_decreases_x() {
    let rover = Rover {
        orientation: Orientation::West,
        ..test_rover()
    };
    let new_rover = rover.try_move(20, 20).unwrap();

    assert_eq!(new_rover.x, 2)
}

#[test]
fn moving_east_decreases_y() {
    let rover = Rover {
        orientation: Orientation::East,
        ..test_rover()
    };
    let new_rover = rover.try_move(20, 20).unwrap();

    assert_eq!(new_rover.x, 4)
}

#[test]
fn perform_as_instructed() {
    let rover = test_rover();
    let expected_rover = Rover {
        x: 5,
        y: 1,
        orientation: Orientation::East,
        ..rover.clone()
    };

    assert_eq!(rover.perform_instructions(20, 20).unwrap(), expected_rover)
}

#[test]
fn raise_error_when_moving_below_zero() {
    let rover = Rover {
        x: 0,
        orientation: Orientation::West,
        ..test_rover()
    };

    assert!(rover
        .perform_instruction(&Instruction::Move, 20, 20)
        .is_err())
}

#[test]
fn raise_error_when_moving_past_the_edge() {
    let rover = Rover {
        x: 5,
        ..test_rover()
    };

    assert!(rover.perform_instruction(&Instruction::Move, 5, 5).is_err())
}

#[test]
fn parses_a_valid_rover() {
    let rover_str = "1 2 N\nLMLMLMLMM";
    let expected_rover = Rover {
        x: 1,
        y: 2,
        orientation: Orientation::North,
        instructions: vec![
            Instruction::Left,
            Instruction::Move,
            Instruction::Left,
            Instruction::Move,
            Instruction::Left,
            Instruction::Move,
            Instruction::Left,
            Instruction::Move,
            Instruction::Move,
        ],
    };

    assert_eq!(Rover::parse(rover_str).unwrap(), expected_rover)
}

#[test]
fn raises_error_when_parsing_invalid_x_position() {
    let rover_str = "x 2 N\nLMLMLMLMM";
    assert!(Rover::parse(rover_str).is_err())
}

#[test]
fn raises_error_when_parsing_invalid_y_position() {
    let rover_str = "1 y N\nLMLMLMLMM";
    assert!(Rover::parse(rover_str).is_err())
}

#[test]
fn raises_error_when_parsing_invalid_orientation() {
    let rover_str = "1 2 Z\nLMLMLMLMM";
    assert!(Rover::parse(rover_str).is_err())
}

#[test]
fn raises_error_when_parsing_invalid_instructions() {
    let rover_str = "1 2 N\nLMLMLMLNM";
    assert!(Rover::parse(rover_str).is_err())
}

#[test]
fn move_changes_exactly_one_axis_by_one() {
    let base = Rover {
        x: 2,
        y: 2,
        orientation: Orientation::North,
        instructions: vec![],
    };
    let north = base.try_move(5, 5).unwrap();
    assert_eq!((north.x, north.y), (2, 3));
    assert_eq!(north.orientation, Orientation::North);

    let south = Rover {
        orientation: Orientation::South,
        ..base.clone()
    }
    .try_move(5, 5)
    .unwrap();
    assert_eq!((south.x, south.y), (2, 1));
    assert_eq!(south.orientation, Orientation::South);

    let east = Rover {
        orientation: Orientation::East,
        ..base.clone()
    }
    .try_move(5, 5)
    .unwrap();
    assert_eq!((east.x, east.y), (3, 2));
    assert_eq!(east.orientation, Orientation::East);

    let west = Rover {
        orientation: Orientation::West,
        ..base
    }
    .try_move(5, 5)
    .unwrap();
    assert_eq!((west.x, west.y), (1, 2));
    assert_eq!(west.orientation, Orientation::West);
}

#[test]
fn rejects_moves_off_every_edge() {
    let west_at_zero = Rover {
        x: 0,
        y: 2,
        orientation: Orientation::West,
        instructions: vec![],
    };
    assert!(west_at_zero.try_move(5, 5).is_err());

    let south_at_zero = Rover {
        x: 2,
        y: 0,
        orientation: Orientation::South,
        instructions: vec![],
    };
    assert!(south_at_zero.try_move(5, 5).is_err());

    let east_at_max = Rover {
        x: 5,
        y: 2,
        orientation: Orientation::East,
        instructions: vec![],
    };
    assert!(east_at_max.try_move(5, 5).is_err());

    let north_at_max = Rover {
        x: 2,
        y: 5,
        orientation: Orientation::North,
        instructions: vec![],
    };
    assert!(north_at_max.try_move(5, 5).is_err());
}

#[test]
fn fails_fast_on_first_out_of_bounds_move() {
    // The first Move already leaves the plateau; instructions after it,
    // which on their own would move back in, cannot rescue the run.
    let rover = Rover {
        x: 0,
        y: 0,
        orientation: Orientation::South,
        instructions: vec![Instruction::Move, Instruction::Left, Instruction::Move],
    };
    assert!(rover.perform_instructions(5, 5).is_err());
}

#[test]
fn empty_program_is_a_no_op() {
    let rover = Rover {
        x: 1,
        y: 2,
        orientation: Orientation::East,
        instructions: vec![],
    };
    let done = rover.perform_instructions(5, 5).unwrap();
    assert_eq!(done, rover);
}

#[test]
fn serializes_state_as_one_line() {
    let rover = Rover {
        x: 10,
        y: 0,
        orientation: Orientation::West,
        instructions: vec![Instruction::Move],
    };
    assert_eq!(rover.to_text(), "10 0 W");
}

#[test]
fn position_line_tokens_past_the_third_are_ignored() {
    let rover = Rover::parse("1 2 N extra\nM").unwrap();
    assert_eq!((rover.x, rover.y), (1, 2));
    assert_eq!(rover.orientation, Orientation::North);
}

#[test]
fn rejects_position_line_with_missing_token() {
    assert!(Rover::parse("1 2\nM").is_err());
    assert!(Rover::parse("1\nM").is_err());
    assert!(Rover::parse("\nM").is_err());
}

#[test]
fn rejects_blocks_not_of_two_lines() {
    assert!(Rover::parse("1 2 N").is_err());
    assert!(Rover::parse("1 2 N\nM\n").is_err());
}
