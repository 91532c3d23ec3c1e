use brainfuck::{BFInterpreter, BracketPair, RunError, Status};

#[test]
fn test_paired_bracket() {
    let instance = BFInterpreter::new("[[[][]]>>>]");
    assert_eq!(instance.paired_bracket(0, BracketPair::LEFT).unwrap(), 10);
    assert_eq!(instance.paired_bracket(1, BracketPair::LEFT).unwrap(), 6);
    assert_eq!(instance.paired_bracket(3, BracketPair::RIGHT).unwrap(), 2);
    assert_eq!(instance.paired_bracket(10, BracketPair::RIGHT).unwrap(), 0);
}

#[test]
fn test_operation() {
    let mut instance = BFInterpreter::new("++>+++++[<+>-]");
    assert_eq!(instance.run(), Ok(Status::Halted));
    println!("{:?}", instance.memory());
    assert_eq!(instance.memory()[0], 7);
    assert_eq!(instance.memory()[1], 0);
}

#[test]
fn test_product() {
    let tape = "++>+++++[<+>-]++++ ++++ [ < +++ +++ > -] <";
    let mut instance = BFInterpreter::new(tape);
    assert_eq!(instance.run(), Ok(Status::Halted));
    assert_eq!(instance.memory()[0] as char, '7');
}

#[test]
fn multi_loop_without_spaces() {
    let mut instance = BFInterpreter::new("++>+++++[<+>-]++++++++[<++++++>-]<");
    assert_eq!(instance.run(), Ok(Status::Halted));
    assert_eq!(instance.memory()[0], 55);
    assert_eq!(instance.memory_index(), 0);
}

#[test]
fn pairing_is_symmetric() {
    let text = "[[[][]]>>>]";
    let instance = BFInterpreter::new(text);
    let mut pairs_found: usize = 0;
    for i in 0..text.len() {
        if let Some(j) = instance.paired_bracket(i, BracketPair::LEFT) {
            assert!(i < j);
            assert_eq!(instance.paired_bracket(j, BracketPair::RIGHT), Some(i));
            pairs_found += 1;
        }
        if let Some(k) = instance.paired_bracket(i, BracketPair::RIGHT) {
            assert_eq!(instance.paired_bracket(k, BracketPair::LEFT), Some(i));
        }
    }
    assert_eq!(pairs_found, 4);
}

#[test]
fn pairing_of_non_brackets_and_wrong_sides() {
    let instance = BFInterpreter::new("[[[][]]>>>]");
    assert_eq!(instance.paired_bracket(7, BracketPair::LEFT), None);
    assert_eq!(instance.paired_bracket(0, BracketPair::RIGHT), None);
    assert_eq!(instance.paired_bracket(10, BracketPair::LEFT), None);
    assert_eq!(instance.paired_bracket(11, BracketPair::LEFT), None);
    assert_eq!(instance.paired_bracket(99, BracketPair::RIGHT), None);
}

#[test]
fn pairing_fails_on_unbalanced_text() {
    assert_eq!(BFInterpreter::new("[").paired_bracket(0, BracketPair::LEFT), None);
    assert_eq!(BFInterpreter::new("]").paired_bracket(0, BracketPair::RIGHT), None);
    assert_eq!(BFInterpreter::new("[]]").paired_bracket(2, BracketPair::RIGHT), None);
    assert_eq!(BFInterpreter::new("[]]").paired_bracket(0, BracketPair::LEFT), Some(1));
    // a stray `]` before the query stops the scan
    assert_eq!(BFInterpreter::new("][]").paired_bracket(1, BracketPair::LEFT), None);
    assert_eq!(BFInterpreter::new("][]").paired_bracket(2, BracketPair::RIGHT), None);
}

#[test]
fn increment_wraps_to_zero() {
    let text = "+".repeat(256);
    let mut instance = BFInterpreter::new(&text);
    assert_eq!(instance.run(), Ok(Status::Halted));
    assert_eq!(instance.memory()[0], 0);
}

#[test]
fn decrement_wraps_to_255() {
    let mut instance = BFInterpreter::new("-");
    assert_eq!(instance.run(), Ok(Status::Halted));
    assert_eq!(instance.memory()[0], 255);
    let mut back = BFInterpreter::new("-+");
    assert_eq!(back.run(), Ok(Status::Halted));
    assert_eq!(back.memory()[0], 0);
}

#[test]
fn memory_grows_on_demand() {
    let mut instance = BFInterpreter::new(">>>>>");
    assert_eq!(instance.memory().len(), 1);
    assert_eq!(instance.run(), Ok(Status::Halted));
    assert_eq!(instance.memory(), &vec![0u8; 6]);
    assert_eq!(instance.memory_index(), 5);
}

#[test]
fn memory_does_not_grow_when_revisiting() {
    let mut instance = BFInterpreter::new(">+<>>");
    assert_eq!(instance.run(), Ok(Status::Halted));
    assert_eq!(instance.memory(), &vec![0u8, 1, 0]);
}

#[test]
fn move_left_at_lowest_cell_fails() {
    let mut instance = BFInterpreter::new("+<");
    assert_eq!(instance.run(), Err(RunError::MemoryUnderflow));
    assert_eq!(instance.tape_index(), 1);
    assert_eq!(instance.memory_index(), 0);
    assert_eq!(instance.memory()[0], 1);
}

#[test]
fn lone_open_bracket_on_zero_fails() {
    let mut instance = BFInterpreter::new("[");
    assert_eq!(instance.run(), Err(RunError::UnmatchedBracket));
    assert_eq!(instance.tape_index(), 0);
}

#[test]
fn lone_open_bracket_on_non_zero_enters_body() {
    let mut instance = BFInterpreter::new("+[");
    assert_eq!(instance.run(), Ok(Status::Halted));
}

#[test]
fn lone_close_bracket_on_non_zero_fails() {
    let mut instance = BFInterpreter::new("+]");
    assert_eq!(instance.run(), Err(RunError::UnmatchedBracket));
    let mut zero = BFInterpreter::new("]");
    assert_eq!(zero.run(), Ok(Status::Halted));
}

#[test]
fn empty_program_halts_at_once() {
    let mut instance = BFInterpreter::new("");
    assert_eq!(instance.run(), Ok(Status::Halted));
    assert_eq!(instance.memory(), &vec![0u8]);
}

#[test]
fn other_characters_are_skipped() {
    let mut instance = BFInterpreter::new("a+é+ +\n");
    assert_eq!(instance.run(), Ok(Status::Halted));
    assert_eq!(instance.memory()[0], 3);
    assert_eq!(instance.tape_index(), 7);
}

#[test]
fn step_reports_each_instruction() {
    let mut instance = BFInterpreter::new("+>");
    assert_eq!(instance.step(), Ok(Status::Running));
    assert_eq!(instance.tape_index(), 1);
    assert_eq!(instance.step(), Ok(Status::Running));
    assert_eq!(instance.memory(), &vec![1u8, 0]);
    assert_eq!(instance.step(), Ok(Status::Halted));
    assert_eq!(instance.tape_index(), 2);
}

#[test]
fn output_is_reported_then_run_resumes() {
    let mut instance = BFInterpreter::new("+++.>++.");
    assert_eq!(instance.run(), Ok(Status::Output(3)));
    assert_eq!(instance.run(), Ok(Status::Output(2)));
    assert_eq!(instance.run(), Ok(Status::Halted));
}

#[test]
fn input_stores_first_byte_of_line() {
    let mut instance = BFInterpreter::new("+,+");
    assert!(!instance.awaiting_input());
    assert_eq!(instance.run(), Ok(Status::AwaitingInput));
    assert!(instance.awaiting_input());
    assert_eq!(instance.tape_index(), 1);
    assert_eq!(instance.supply_input(b"AB\n"), Ok(()));
    assert_eq!(instance.memory()[0], b'A');
    assert_eq!(instance.run(), Ok(Status::Halted));
    assert_eq!(instance.memory()[0], b'B');
}

#[test]
fn empty_input_line_fails() {
    let mut instance = BFInterpreter::new(",");
    assert_eq!(instance.run(), Ok(Status::AwaitingInput));
    assert_eq!(instance.supply_input(b""), Err(RunError::InputExhausted));
    assert_eq!(instance.tape_index(), 0);
    assert_eq!(instance.supply_input(b"\n"), Ok(()));
    assert_eq!(instance.memory()[0], b'\n');
}

#[test]
fn loop_skipped_when_cell_is_zero() {
    let mut instance = BFInterpreter::new("[+++]+");
    assert_eq!(instance.run(), Ok(Status::Halted));
    assert_eq!(instance.memory()[0], 1);
}
