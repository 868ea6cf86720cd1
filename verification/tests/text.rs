use hrm::lexer::{split_chunks, Annotation, Location};
use hrm::number::{parse_index, parse_numbers, render, write_line};
use hrm::text::{advance, collect_chars, spells, split_runs, CharClass, Span};

fn chars(text: &str) -> Vec<char> {
    text.chars().collect()
}

fn span(start: usize, end: usize) -> Span {
    Span { start, end }
}

#[test]
fn collect_chars_gives_every_character() {
    assert_eq!(collect_chars("aé\n"), vec!['a', 'é', '\n']);
    assert_eq!(collect_chars(""), Vec::<char>::new());
}

#[test]
fn char_classes() {
    for c in [' ', '\t', '\n', '\x0C', '\r'] {
        assert!(!CharClass::Word.test(c));
    }
    for c in ['a', '0', '-', '\x0B', 'é', '\u{a0}'] {
        assert!(CharClass::Word.test(c));
    }
    for c in ['0', '5', '9'] {
        assert!(CharClass::Digit.test(c));
    }
    for c in ['/', ':', 'a', ' ', '٣'] {
        assert!(!CharClass::Digit.test(c));
    }
}

#[test]
fn split_runs_of_words() {
    let text = chars("  ab c\n\ndef ");
    assert_eq!(split_runs(&text, CharClass::Word), vec![span(2, 4), span(5, 6), span(8, 11)]);
    assert_eq!(split_runs(&chars("x"), CharClass::Word), vec![span(0, 1)]);
    assert_eq!(split_runs(&chars(" \n"), CharClass::Word), vec![]);
}

#[test]
fn split_runs_of_digits() {
    let text = chars("12a-3 45");
    assert_eq!(split_runs(&text, CharClass::Digit), vec![span(0, 2), span(4, 5), span(6, 8)]);
}

#[test]
fn split_chunks_places_each_chunk_at_its_first_character() {
    let text = chars("ab  cd\n e\r\nf");
    let at = |start, end, line, col| Annotation {
        value: span(start, end),
        location: Location { line, col },
    };
    assert_eq!(
        split_chunks(&text),
        vec![at(0, 2, 1, 1), at(4, 6, 1, 5), at(8, 9, 2, 2), at(11, 12, 3, 1)]
    );
}

#[test]
fn advance_counts_lines_and_columns() {
    let text = chars("ab\ncd\n\nxyz");
    let start = Location { line: 1, col: 1 };
    assert_eq!(advance(&text, 0, start, 0), start);
    assert_eq!(advance(&text, 0, start, 2), Location { line: 1, col: 3 });
    assert_eq!(advance(&text, 0, start, 3), Location { line: 2, col: 1 });
    let middle = advance(&text, 0, start, 4);
    assert_eq!(middle, Location { line: 2, col: 2 });
    assert_eq!(advance(&text, 4, middle, 9), Location { line: 4, col: 3 });
}

#[test]
fn spells_compares_the_whole_span() {
    let text = chars("jump_if_zero jump");
    assert!(spells(&text, span(0, 12), "jump_if_zero"));
    assert!(!spells(&text, span(0, 12), "jump"));
    assert!(!spells(&text, span(0, 4), "jump_if_zero"));
    assert!(spells(&text, span(0, 4), "jump"));
    assert!(spells(&text, span(13, 17), "jump"));
    assert!(spells(&text, span(3, 3), ""));
    assert!(!spells(&text, span(3, 4), ""));
}

#[test]
fn parse_index_reads_decimal_digits() {
    let text = chars("0 42 +7 007 -1 1a + x");
    assert_eq!(parse_index(&text, span(0, 1)), Some(0));
    assert_eq!(parse_index(&text, span(2, 4)), Some(42));
    assert_eq!(parse_index(&text, span(5, 7)), Some(7));
    assert_eq!(parse_index(&text, span(8, 11)), Some(7));
    assert_eq!(parse_index(&text, span(12, 14)), None);
    assert_eq!(parse_index(&text, span(15, 17)), None);
    assert_eq!(parse_index(&text, span(18, 19)), None);
    assert_eq!(parse_index(&text, span(20, 21)), None);
    assert_eq!(parse_index(&text, span(1, 1)), None);
}

#[test]
fn parse_index_stops_at_the_largest_usize() {
    let largest = usize::MAX.to_string();
    assert_eq!(parse_index(&chars(&largest), span(0, largest.len())), Some(usize::MAX));
    let mut beyond = largest.clone();
    let last = beyond.pop().unwrap();
    beyond.push(char::from_digit(last.to_digit(10).unwrap() + 1, 10).unwrap());
    assert_eq!(parse_index(&chars(&beyond), span(0, beyond.len())), None);
    let longer = format!("{}0", largest);
    assert_eq!(parse_index(&chars(&longer), span(0, longer.len())), None);
}

#[test]
fn parse_numbers_reads_a_queue() {
    let queue = parse_numbers(&chars("3,-4 x5"));
    assert_eq!(queue.into_iter().collect::<Vec<i16>>(), vec![3, -4, 5]);
}

#[test]
fn write_line_appends_value_and_line_feed() {
    let mut text = String::from(">");
    write_line(&mut text, 0);
    write_line(&mut text, -7);
    write_line(&mut text, 120);
    write_line(&mut text, i16::MAX);
    write_line(&mut text, i16::MIN);
    assert_eq!(text, ">0\n-7\n120\n32767\n-32768\n");
}

#[test]
fn render_gives_one_line_for_each_value() {
    assert_eq!(render(&vec![]), "");
    assert_eq!(render(&vec![10, -10, 9999, 10000]), "10\n-10\n9999\n10000\n");
}

#[test]
fn printed_values_read_back() {
    let values: Vec<i16> = vec![0, 1, -1, 9, 10, -10, 255, 256, 32767, -32767, -32768];
    let queue = parse_numbers(&chars(&render(&values)));
    assert_eq!(queue.into_iter().collect::<Vec<i16>>(), values);
}
