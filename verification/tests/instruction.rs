use mars_rover::Instruction;

#[test]
fn parses_each_command_character() {
    assert_eq!(Instruction::parse('L').unwrap(), Instruction::Left);
    assert_eq!(Instruction::parse('R').unwrap(), Instruction::Right);
    assert_eq!(Instruction::parse('M').unwrap(), Instruction::Move);
}

#[test]
fn rejects_unknown_command_characters() {
    assert!(Instruction::parse('X').is_err());
    assert!(Instruction::parse('l').is_err());
    assert!(Instruction::parse(' ').is_err());
}
