use hrm::interpreter::{InterpreterErrorKind, SimpleInterpreter};
use hrm::lexer::{Annotation, Lexer, Location};
use std::collections::VecDeque;

fn run(source: &str, input: Option<&str>) -> (SimpleInterpreter, Result<usize, Annotation<InterpreterErrorKind>>) {
    let program = Lexer::lex(source);
    let mut machine = SimpleInterpreter::new();
    if let Some(text) = input {
        machine.set_inbox(text.to_string());
    }
    let result = machine.eval(&program);
    (machine, result)
}

fn failure(kind: InterpreterErrorKind, line: usize, col: usize) -> Result<usize, Annotation<InterpreterErrorKind>> {
    Err(Annotation { value: kind, location: Location { line, col } })
}

fn inbox_of(text: &str) -> Vec<i16> {
    let mut machine = SimpleInterpreter::new();
    machine.set_inbox(text.to_string());
    machine.show_inbox().clone().unwrap().into_iter().collect()
}

#[test]
fn new_machine_has_no_inbox() {
    let machine = SimpleInterpreter::new();
    assert_eq!(machine.show_inbox(), &None);
    assert_eq!(machine.hand(), None);
    assert_eq!(machine.cells(), &vec![None; 6]);
    assert_eq!(machine.cursor(), 0);
}

#[test]
fn inbox_single_value() {
    assert_eq!(inbox_of("5"), vec![5]);
}

#[test]
fn inbox_negative_value() {
    assert_eq!(inbox_of("-5"), vec![-5]);
}

#[test]
fn inbox_keeps_the_order_of_the_text() {
    assert_eq!(inbox_of("1 2 3"), vec![1, 2, 3]);
}

#[test]
fn inbox_any_other_character_separates() {
    assert_eq!(inbox_of("10,20;x30\n40é50"), vec![10, 20, 30, 40, 50]);
    assert_eq!(inbox_of(""), Vec::<i16>::new());
    assert_eq!(inbox_of("no numbers - here"), Vec::<i16>::new());
}

#[test]
fn inbox_minus_counts_only_directly_before_the_digits() {
    assert_eq!(inbox_of("1-2 3"), vec![1, -2, 3]);
    assert_eq!(inbox_of("- 4"), vec![4]);
    assert_eq!(inbox_of("--4 5-"), vec![-4, 5]);
}

#[test]
fn inbox_values_wrap_to_sixteen_bits() {
    assert_eq!(inbox_of("32767 32768 65535 65536 65537"), vec![32767, -32768, -1, 0, 1]);
    assert_eq!(inbox_of("-32768 -32769 -65536 -0"), vec![-32768, 32767, 0, 0]);
    assert_eq!(inbox_of("123456789012345678901234567890"), vec![2770]);
}

#[test]
fn set_inbox_of_empty_text_is_an_empty_queue() {
    let mut machine = SimpleInterpreter::new();
    machine.set_inbox(String::new());
    assert_eq!(machine.show_inbox(), &Some(VecDeque::new()));
}

#[test]
fn echo_one_value_then_halt_on_used_up_queue() {
    let (machine, result) = run("inbox\noutbox\n", Some("5"));
    assert_eq!(result, Ok(0));
    assert_eq!(machine.output(), "5\n");
    assert_eq!(machine.show_outbox(), &vec![5]);
    assert_eq!(machine.hand(), None);
}

#[test]
fn echo_loop_ends_when_the_queue_is_used_up() {
    let (machine, result) = run("jump_target a\ninbox\noutbox\njump a\n", Some("5"));
    assert_eq!(result, Ok(0));
    assert_eq!(machine.output(), "5\n");
    assert_eq!(machine.show_inbox(), &Some(VecDeque::new()));
    assert_eq!(machine.cursor(), 1);
}

#[test]
fn copyfrom_unwritten_cell_fails() {
    let (machine, result) = run("copyfrom 0\n", None);
    assert_eq!(result, failure(InterpreterErrorKind::EmptyFloorValue, 1, 10));
    assert_eq!(machine.output(), "");
}

#[test]
fn jump_to_missing_label_is_refused() {
    let (machine, result) = run("jump missing\n", Some("1"));
    assert_eq!(result, failure(InterpreterErrorKind::UnexistedJumpTarget, 1, 6));
    assert_eq!(machine.output(), "");
    assert_eq!(machine.steps(), 0);
}

#[test]
fn load_refuses_at_the_first_dangling_jump_and_runs_nothing() {
    let (machine, result) = run("inbox\noutbox\njump_if_zero x\njump y\njump_target y", Some("1"));
    assert_eq!(result, failure(InterpreterErrorKind::UnexistedJumpTarget, 3, 14));
    assert_eq!(machine.output(), "");
    assert_eq!(machine.show_inbox().clone().unwrap().len(), 1);
}

#[test]
fn inbox_without_input_fails() {
    let (_, result) = run("inbox\n", None);
    assert_eq!(result, failure(InterpreterErrorKind::UndefinedInputBox, 1, 1));
}

#[test]
fn outbox_with_empty_hand_fails() {
    let (machine, result) = run("outbox\n", Some("1"));
    assert_eq!(result, failure(InterpreterErrorKind::EmptyHandValue, 1, 1));
    assert_eq!(machine.output(), "");
}

#[test]
fn outbox_prints_negative_values_and_zero() {
    let (machine, result) = run("jump_target a inbox outbox jump a", Some("-12 0 32767 -32768 7"));
    assert_eq!(result, Ok(0));
    assert_eq!(machine.output(), "-12\n0\n32767\n-32768\n7\n");
}

#[test]
fn copyto_then_copyfrom_gives_the_value_back() {
    let (machine, result) = run("inbox copyto 2 inbox copyfrom 2 outbox copyfrom 2", Some("7 9"));
    assert_eq!(result, Ok(0));
    assert_eq!(machine.output(), "7\n");
    assert_eq!(machine.hand(), Some(7));
    assert_eq!(machine.cells(), &vec![None, None, Some(7), None, None, None]);
}

#[test]
fn copyto_with_empty_hand_fails() {
    let (_, result) = run("copyto 0", Some(""));
    assert_eq!(result, failure(InterpreterErrorKind::EmptyHandValue, 1, 8));
    let (_, result) = run("copyto 9", Some(""));
    assert_eq!(result, failure(InterpreterErrorKind::EmptyHandValue, 1, 8));
}

#[test]
fn add_and_sub_compute_on_the_hand() {
    let (machine, result) = run(
        "inbox copyto 0 inbox add 0 outbox inbox sub 0 outbox",
        Some("3 4 10"),
    );
    assert_eq!(result, Ok(0));
    assert_eq!(machine.output(), "7\n7\n");
    assert_eq!(machine.cells()[0], Some(3));
}

#[test]
fn add_and_sub_wrap() {
    let (machine, result) = run(
        "inbox copyto 0 inbox add 0 outbox inbox sub 0 outbox",
        Some("1 32767 -32768"),
    );
    assert_eq!(result, Ok(0));
    assert_eq!(machine.output(), "-32768\n32767\n");
}

#[test]
fn add_and_sub_on_unwritten_cell_fail_whatever_the_hand_holds() {
    let (_, result) = run("add 1", Some(""));
    assert_eq!(result, failure(InterpreterErrorKind::EmptyFloorValue, 1, 5));
    let (_, result) = run("inbox\nsub 1", Some("5"));
    assert_eq!(result, failure(InterpreterErrorKind::EmptyFloorValue, 2, 5));
}

#[test]
fn add_and_sub_with_empty_hand_fail_on_a_written_cell() {
    let (_, result) = run("inbox copyto 0 outbox\nadd 0", Some("5"));
    assert_eq!(result, failure(InterpreterErrorKind::EmptyHandValue, 2, 5));
    let (_, result) = run("inbox copyto 0 outbox\nsub 0", Some("5"));
    assert_eq!(result, failure(InterpreterErrorKind::EmptyHandValue, 2, 5));
}

#[test]
fn bump_changes_cell_and_hand_by_one() {
    let (machine, result) = run(
        "inbox copyto 3 inbox bump_plus 3 outbox bump_minus 3 bump_minus 3",
        Some("41 0"),
    );
    assert_eq!(result, Ok(0));
    assert_eq!(machine.output(), "42\n");
    assert_eq!(machine.hand(), Some(40));
    assert_eq!(machine.cells()[3], Some(40));
}

#[test]
fn bump_wraps() {
    let (machine, result) = run("inbox copyto 0 bump_plus 0 outbox", Some("32767"));
    assert_eq!(result, Ok(0));
    assert_eq!(machine.output(), "-32768\n");
    let (machine, result) = run("inbox copyto 0 bump_minus 0 outbox", Some("-32768"));
    assert_eq!(result, Ok(0));
    assert_eq!(machine.output(), "32767\n");
}

#[test]
fn bump_on_unwritten_cell_fails() {
    let (_, result) = run("bump_plus 0", None);
    assert_eq!(result, failure(InterpreterErrorKind::EmptyFloorValue, 1, 11));
    let (_, result) = run("bump_minus 5", None);
    assert_eq!(result, failure(InterpreterErrorKind::EmptyFloorValue, 1, 12));
}

#[test]
fn cell_index_beyond_the_floor_fails() {
    let (_, result) = run("copyfrom 6", None);
    assert_eq!(result, failure(InterpreterErrorKind::CellIndexOutOfRange, 1, 10));
    let (_, result) = run("inbox copyto 6", Some("1"));
    assert_eq!(result, failure(InterpreterErrorKind::CellIndexOutOfRange, 1, 14));
    let (_, result) = run("add 100", None);
    assert_eq!(result, failure(InterpreterErrorKind::CellIndexOutOfRange, 1, 5));
    let (_, result) = run("sub 6", None);
    assert_eq!(result, failure(InterpreterErrorKind::CellIndexOutOfRange, 1, 5));
    let (_, result) = run("bump_plus 7", None);
    assert_eq!(result, failure(InterpreterErrorKind::CellIndexOutOfRange, 1, 11));
    let (_, result) = run("bump_minus 8", None);
    assert_eq!(result, failure(InterpreterErrorKind::CellIndexOutOfRange, 1, 12));
}

#[test]
fn jump_if_zero_jumps_on_zero_only() {
    let source = "jump_target top inbox jump_if_zero top outbox jump top";
    let (machine, result) = run(source, Some("0 1 0 -1 0 2"));
    assert_eq!(result, Ok(0));
    assert_eq!(machine.output(), "1\n-1\n2\n");
}

#[test]
fn jump_if_zero_with_empty_hand_falls_through() {
    let (machine, result) = run("jump_if_zero end inbox outbox jump_target end", Some("4"));
    assert_eq!(result, Ok(0));
    assert_eq!(machine.output(), "4\n");
}

#[test]
fn jump_if_neg_jumps_below_zero_only() {
    let source = "jump_target top inbox jump_if_neg top outbox jump top";
    let (machine, result) = run(source, Some("0 -1 1 -32768 32767"));
    assert_eq!(result, Ok(0));
    assert_eq!(machine.output(), "0\n1\n32767\n");
}

#[test]
fn jump_if_neg_with_empty_hand_falls_through() {
    let (machine, result) = run("jump_if_neg end inbox outbox jump_target end", Some("-4"));
    assert_eq!(result, Ok(0));
    assert_eq!(machine.output(), "-4\n");
}

#[test]
fn conditional_jumps_leave_the_hand_alone() {
    let (machine, result) = run(
        "inbox jump_if_zero a jump_target a jump_if_neg b jump_target b",
        Some("0"),
    );
    assert_eq!(result, Ok(0));
    assert_eq!(machine.hand(), Some(0));
    let (machine, _) = run("inbox jump_if_neg b jump_target b jump_if_zero b", Some("-3"));
    assert_eq!(machine.hand(), Some(-3));
}

#[test]
fn repeated_label_means_its_last_jump_target() {
    let source = "inbox jump a jump_target a outbox jump_target a";
    let (machine, result) = run(source, Some("1"));
    assert_eq!(result, Ok(0));
    assert_eq!(machine.output(), "");
    assert_eq!(machine.hand(), Some(1));
}

#[test]
fn jump_backwards_and_forwards() {
    let source = "jump start jump_target back outbox jump end jump_target start inbox jump back jump_target end";
    let (machine, result) = run(source, Some("8"));
    assert_eq!(result, Ok(0));
    assert_eq!(machine.output(), "8\n");
    assert_eq!(machine.steps(), 8);
}

#[test]
fn empty_program_halts_at_once() {
    let (machine, result) = run("", None);
    assert_eq!(result, Ok(0));
    assert_eq!(machine.steps(), 0);
}

#[test]
fn step_limit_stops_an_endless_loop() {
    let program = Lexer::lex("jump_target a\njump a\n");
    let mut machine = SimpleInterpreter::new();
    machine.set_step_limit(1000);
    let result = machine.eval(&program);
    assert_eq!(result, failure(InterpreterErrorKind::StepLimitReached, 1, 13));
    assert_eq!(machine.steps(), 1000);
}

#[test]
fn step_limit_is_not_reached_by_a_program_that_fits() {
    let program = Lexer::lex("inbox outbox");
    let mut machine = SimpleInterpreter::new();
    machine.set_inbox("3".to_string());
    machine.set_step_limit(2);
    assert_eq!(machine.eval(&program), Ok(0));
    machine.set_inbox("3".to_string());
    machine.set_step_limit(1);
    assert_eq!(machine.eval(&program), failure(InterpreterErrorKind::StepLimitReached, 1, 7));
    assert_eq!(machine.output(), "");
    assert_eq!(machine.hand(), Some(3));
}

#[test]
fn step_by_step() {
    let program = Lexer::lex("inbox\noutbox\ninbox\n");
    let mut machine = SimpleInterpreter::new();
    machine.set_inbox("5".to_string());
    assert_eq!(machine.init(&program), Ok(0));
    assert_eq!(machine.step(), Ok(true));
    assert_eq!(machine.hand(), Some(5));
    assert_eq!(machine.take_outbox(), vec![]);
    assert_eq!(machine.step(), Ok(true));
    assert_eq!(machine.hand(), None);
    assert_eq!(machine.take_outbox(), vec![5]);
    assert_eq!(machine.show_outbox(), &vec![]);
    assert_eq!(machine.step(), Ok(false));
    assert_eq!(machine.step(), Ok(false));
    assert_eq!(machine.cursor(), 2);
    assert_eq!(machine.steps(), 2);
}

#[test]
fn step_after_the_end_of_the_program_does_nothing() {
    let program = Lexer::lex("jump_target a");
    let mut machine = SimpleInterpreter::new();
    assert_eq!(machine.init(&program), Ok(0));
    assert_eq!(machine.step(), Ok(true));
    assert_eq!(machine.step(), Ok(false));
    assert_eq!(machine.cursor(), 1);
}

#[test]
fn each_run_starts_afresh_but_keeps_the_queue() {
    let program = Lexer::lex("inbox copyto 0 outbox");
    let mut machine = SimpleInterpreter::new();
    machine.set_inbox("1 2".to_string());
    assert_eq!(machine.eval(&program), Ok(0));
    assert_eq!(machine.output(), "1\n");
    assert_eq!(machine.eval(&program), Ok(0));
    assert_eq!(machine.output(), "2\n");
    assert_eq!(machine.cells()[0], Some(2));
    assert_eq!(machine.eval(&program), Ok(0));
    assert_eq!(machine.output(), "");
    assert_eq!(machine.cells()[0], None);
}

#[test]
fn failed_load_leaves_the_machine_as_it_was() {
    let good = Lexer::lex("inbox copyto 1 outbox");
    let bad = Lexer::lex("jump nowhere");
    let mut machine = SimpleInterpreter::new();
    machine.set_inbox("9".to_string());
    assert_eq!(machine.eval(&good), Ok(0));
    assert_eq!(machine.eval(&bad), failure(InterpreterErrorKind::UnexistedJumpTarget, 1, 6));
    assert_eq!(machine.output(), "9\n");
    assert_eq!(machine.cells()[1], Some(9));
    assert_eq!(machine.cursor(), 3);
}
