use hrm::lexer::{Lexer, Location, Token, TokenKind};

fn at(line: usize, col: usize) -> Location {
    Location { line, col }
}

#[test]
fn lex_empty_text_gives_no_instruction() {
    assert_eq!(Lexer::lex(""), vec![]);
    assert_eq!(Lexer::lex(" \n\t \r\n"), vec![]);
}

#[test]
fn lex_opcodes_without_operand_stand_at_their_own_place() {
    let program = Lexer::lex("inbox\noutbox\n");
    assert_eq!(program, vec![Token::inbox(at(1, 1)), Token::outbox(at(2, 1))]);
}

#[test]
fn lex_instruction_with_operand_stands_at_the_operand() {
    let program = Lexer::lex("copyfrom 0\n  copyto 5\nadd 1 sub 2\nbump_plus 3\nbump_minus 4");
    assert_eq!(
        program,
        vec![
            Token::copy_from(at(1, 10), 0),
            Token::copy_to(at(2, 10), 5),
            Token::add(at(3, 5), 1),
            Token::sub(at(3, 11), 2),
            Token::bump_plus(at(4, 11), 3),
            Token::bump_minus(at(5, 12), 4),
        ]
    );
}

#[test]
fn lex_labels_are_kept_as_written() {
    let program = Lexer::lex("jump_target a\njump a\njump_if_zero b-1\njump_if_neg ü\n");
    assert_eq!(
        program,
        vec![
            Token::jump_target(at(1, 13), "a".to_string()),
            Token::jump(at(2, 6), "a".to_string()),
            Token::jump_if_zero(at(3, 14), "b-1".to_string()),
            Token::jump_if_neg(at(4, 13), "ü".to_string()),
        ]
    );
}

#[test]
fn lex_columns_count_characters_not_bytes() {
    let program = Lexer::lex("é inbox");
    assert_eq!(program, vec![Token::inbox(at(1, 3))]);
}

#[test]
fn lex_unknown_chunk_is_passed_over_alone() {
    let program = Lexer::lex("hello inbox\n# outbox\n");
    assert_eq!(program, vec![Token::inbox(at(1, 7)), Token::outbox(at(2, 3))]);
}

#[test]
fn lex_opcode_without_operand_chunk_is_dropped() {
    assert_eq!(Lexer::lex("inbox\ncopyfrom"), vec![Token::inbox(at(1, 1))]);
    assert_eq!(Lexer::lex("jump"), vec![]);
}

#[test]
fn lex_bad_cell_index_drops_only_the_opcode() {
    let program = Lexer::lex("copyfrom inbox\nadd -1 outbox");
    assert_eq!(program, vec![Token::inbox(at(1, 10)), Token::outbox(at(2, 8))]);
}

#[test]
fn lex_cell_index_forms() {
    let program = Lexer::lex("add +3\nadd 007\nadd 99999999999999999999999999\nadd +\nadd 1x");
    assert_eq!(program, vec![Token::add(at(1, 5), 3), Token::add(at(2, 5), 7)]);
}

#[test]
fn lex_label_may_spell_an_opcode() {
    let program = Lexer::lex("jump inbox outbox");
    assert_eq!(
        program,
        vec![Token::jump(at(1, 6), "inbox".to_string()), Token::outbox(at(1, 12))]
    );
}

#[test]
fn lex_tabs_and_carriage_returns_advance_the_column() {
    let program = Lexer::lex("\tinbox\r\n\x0coutbox");
    assert_eq!(program, vec![Token::inbox(at(1, 2)), Token::outbox(at(2, 2))]);
}

#[test]
fn token_constructors_fill_both_fields() {
    let token = Token::copy_to(at(3, 4), 2);
    assert_eq!(token.value, TokenKind::CopyTo(2));
    assert_eq!(token.location, at(3, 4));
    let token = Token::jump_target(at(1, 1), "loop".to_string());
    assert_eq!(token.value, TokenKind::JumpTarget("loop".to_string()));
}
