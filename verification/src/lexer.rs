//! Program text to located instructions.

use crate::number::{index_value, parse_index};
use crate::text::{
    advance, collect_chars, lemma_runs_from, location_at, runs, spells, split_runs, CharClass, Span,
};
use vstd::prelude::*;
use vstd::string::StrSliceExecFns;

verus! {

/// A place in a source text: line and column of a character, both counted from 1.
#[derive(Debug, Clone, Copy, PartialEq, Eq, Hash, Structural)]
pub struct Location {
    pub line: usize,
    pub col: usize,
}

/// A value together with the place in the source that it comes from.
#[derive(Debug, Clone, PartialEq, Eq, Hash)]
pub struct Annotation<T> {
    pub value: T,
    pub location: Location,
}

impl<T> Annotation<T> {
    /// `value`, placed at `location`.
    pub fn new(value: T, location: Location) -> (r: Self)
        ensures
            r.value == value,
            r.location == location,
    {
        Self { value, location }
    }
}

impl<T: View> View for Annotation<T> {
    type V = Annotation<T::V>;

    open spec fn view(&self) -> Annotation<T::V> {
        Annotation { value: self.value@, location: self.location }
    }
}

/// One instruction of the machine. A cell index is a position on the floor; a label is
/// matched by its text alone.
#[derive(Debug, Clone, PartialEq, Eq, Hash)]
pub enum TokenKind {
    InBox,
    OutBox,
    CopyFrom(usize),
    CopyTo(usize),
    Add(usize),
    Sub(usize),
    BumpPlus(usize),
    BumpMinus(usize),
    Jump(String),
    JumpIfZero(String),
    JumpIfNeg(String),
    JumpTarget(String),
}

/// What a `TokenKind` stands for: the same instruction with each label as its characters.
pub enum Instruction {
    InBox,
    OutBox,
    CopyFrom(usize),
    CopyTo(usize),
    Add(usize),
    Sub(usize),
    BumpPlus(usize),
    BumpMinus(usize),
    Jump(Seq<char>),
    JumpIfZero(Seq<char>),
    JumpIfNeg(Seq<char>),
    JumpTarget(Seq<char>),
}

impl View for TokenKind {
    type V = Instruction;

    open spec fn view(&self) -> Instruction {
        match self {
            TokenKind::InBox => Instruction::InBox,
            TokenKind::OutBox => Instruction::OutBox,
            TokenKind::CopyFrom(index) => Instruction::CopyFrom(*index),
            TokenKind::CopyTo(index) => Instruction::CopyTo(*index),
            TokenKind::Add(index) => Instruction::Add(*index),
            TokenKind::Sub(index) => Instruction::Sub(*index),
            TokenKind::BumpPlus(index) => Instruction::BumpPlus(*index),
            TokenKind::BumpMinus(index) => Instruction::BumpMinus(*index),
            TokenKind::Jump(label) => Instruction::Jump(label@),
            TokenKind::JumpIfZero(label) => Instruction::JumpIfZero(label@),
            TokenKind::JumpIfNeg(label) => Instruction::JumpIfNeg(label@),
            TokenKind::JumpTarget(label) => Instruction::JumpTarget(label@),
        }
    }
}

/// An instruction and its place in the source: that of its operand, or its own where it
/// has none.
pub type Token = Annotation<TokenKind>;

/// The instructions of a program, in the order in which they are written.
pub type Program = Vec<Token>;

/// The instructions that a sequence of tokens stands for.
pub open spec fn instructions(tokens: Seq<Token>) -> Seq<Annotation<Instruction>> {
    tokens.map_values(|token: Token| token@)
}

impl Token {
    pub fn inbox(location: Location) -> (r: Self)
        ensures
            r@ == (Annotation { value: Instruction::InBox, location }),
    {
        Self::new(TokenKind::InBox, location)
    }

    pub fn outbox(location: Location) -> (r: Self)
        ensures
            r@ == (Annotation { value: Instruction::OutBox, location }),
    {
        Self::new(TokenKind::OutBox, location)
    }

    pub fn copy_from(location: Location, index: usize) -> (r: Self)
        ensures
            r@ == (Annotation { value: Instruction::CopyFrom(index), location }),
    {
        Self::new(TokenKind::CopyFrom(index), location)
    }

    pub fn copy_to(location: Location, index: usize) -> (r: Self)
        ensures
            r@ == (Annotation { value: Instruction::CopyTo(index), location }),
    {
        Self::new(TokenKind::CopyTo(index), location)
    }

    pub fn add(location: Location, index: usize) -> (r: Self)
        ensures
            r@ == (Annotation { value: Instruction::Add(index), location }),
    {
        Self::new(TokenKind::Add(index), location)
    }

    pub fn sub(location: Location, index: usize) -> (r: Self)
        ensures
            r@ == (Annotation { value: Instruction::Sub(index), location }),
    {
        Self::new(TokenKind::Sub(index), location)
    }

    pub fn bump_plus(location: Location, index: usize) -> (r: Self)
        ensures
            r@ == (Annotation { value: Instruction::BumpPlus(index), location }),
    {
        Self::new(TokenKind::BumpPlus(index), location)
    }

    pub fn bump_minus(location: Location, index: usize) -> (r: Self)
        ensures
            r@ == (Annotation { value: Instruction::BumpMinus(index), location }),
    {
        Self::new(TokenKind::BumpMinus(index), location)
    }

    pub fn jump(location: Location, label: String) -> (r: Self)
        ensures
            r@ == (Annotation { value: Instruction::Jump(label@), location }),
    {
        Self::new(TokenKind::Jump(label), location)
    }

    pub fn jump_if_zero(location: Location, label: String) -> (r: Self)
        ensures
            r@ == (Annotation { value: Instruction::JumpIfZero(label@), location }),
    {
        Self::new(TokenKind::JumpIfZero(label), location)
    }

    pub fn jump_if_neg(location: Location, label: String) -> (r: Self)
        ensures
            r@ == (Annotation { value: Instruction::JumpIfNeg(label@), location }),
    {
        Self::new(TokenKind::JumpIfNeg(label), location)
    }

    pub fn jump_target(location: Location, label: String) -> (r: Self)
        ensures
            r@ == (Annotation { value: Instruction::JumpTarget(label@), location }),
    {
        Self::new(TokenKind::JumpTarget(label), location)
    }
}

/// The chunks of a text: its maximal runs of characters other than whitespace, from left
/// to right, each with the place of its first character.
pub open spec fn chunks(text: Seq<char>) -> Seq<Annotation<Span>> {
    runs(text, CharClass::Word).map_values(
        |span: Span| Annotation { value: span, location: location_at(text, span.start as int) },
    )
}

/// The instruction that chunk `i` opens, if it opens one. `inbox` and `outbox` stand
/// alone, at their own place. Every other opcode needs the chunk after it as its
/// operand, a cell index or a label, and the instruction is placed at the operand.
pub open spec fn instruction_at(text: Seq<char>, chunks: Seq<Annotation<Span>>, i: int) -> Option<
    Annotation<Instruction>,
> {
    let word = chunks[i].value.of(text);
    if word == "inbox"@ {
        Some(Annotation { value: Instruction::InBox, location: chunks[i].location })
    } else if word == "outbox"@ {
        Some(Annotation { value: Instruction::OutBox, location: chunks[i].location })
    } else if i + 1 < chunks.len() {
        let operand = chunks[i + 1].value.of(text);
        let value: Option<Instruction> = if word == "copyfrom"@ {
            match index_value(operand) {
                Some(index) => Some(Instruction::CopyFrom(index)),
                None => None,
            }
        } else if word == "copyto"@ {
            match index_value(operand) {
                Some(index) => Some(Instruction::CopyTo(index)),
                None => None,
            }
        } else if word == "add"@ {
            match index_value(operand) {
                Some(index) => Some(Instruction::Add(index)),
                None => None,
            }
        } else if word == "sub"@ {
            match index_value(operand) {
                Some(index) => Some(Instruction::Sub(index)),
                None => None,
            }
        } else if word == "bump_plus"@ {
            match index_value(operand) {
                Some(index) => Some(Instruction::BumpPlus(index)),
                None => None,
            }
        } else if word == "bump_minus"@ {
            match index_value(operand) {
                Some(index) => Some(Instruction::BumpMinus(index)),
                None => None,
            }
        } else if word == "jump"@ {
            Some(Instruction::Jump(operand))
        } else if word == "jump_if_zero"@ {
            Some(Instruction::JumpIfZero(operand))
        } else if word == "jump_if_neg"@ {
            Some(Instruction::JumpIfNeg(operand))
        } else if word == "jump_target"@ {
            Some(Instruction::JumpTarget(operand))
        } else {
            None
        };
        match value {
            Some(value) => Some(Annotation { value, location: chunks[i + 1].location }),
            None => None,
        }
    } else {
        None
    }
}

/// How many chunks an instruction is written with.
pub open spec fn width(instruction: Instruction) -> int {
    match instruction {
        Instruction::InBox | Instruction::OutBox => 1,
        _ => 2,
    }
}

/// The instructions that the chunks from `i` on write. A chunk that opens no instruction
/// is passed over by itself.
pub open spec fn lexed_from(text: Seq<char>, chunks: Seq<Annotation<Span>>, i: int) -> Seq<
    Annotation<Instruction>,
>
    decreases chunks.len() - i,
{
    if i < 0 || i >= chunks.len() {
        Seq::empty()
    } else {
        match instruction_at(text, chunks, i) {
            Some(instruction) => seq![instruction] + lexed_from(
                text,
                chunks,
                i + width(instruction.value),
            ),
            None => lexed_from(text, chunks, i + 1),
        }
    }
}

/// The program that a source text writes.
pub open spec fn lexed(text: Seq<char>) -> Seq<Annotation<Instruction>> {
    lexed_from(text, chunks(text), 0)
}

/// Cuts `chars` into chunks and finds the place of each.
pub fn split_chunks(chars: &Vec<char>) -> (r: Vec<Annotation<Span>>)
    ensures
        r@ == chunks(chars@),
        forall|k: int|
            0 <= k < r.len() ==> (#[trigger] r[k]).value.start < r[k].value.end <= chars.len(),
{
    let spans = split_runs(chars, CharClass::Word);
    proof {
        assert(chars@.len() == chars.len());
        lemma_runs_from(chars@, CharClass::Word, 0);
    }
    let mut r: Vec<Annotation<Span>> = Vec::new();
    let mut from: usize = 0;
    let mut at = Location { line: 1, col: 1 };
    let mut k: usize = 0;
    while k < spans.len()
        invariant
            k <= spans.len(),
            spans@ == runs(chars@, CharClass::Word),
            forall|j: int|
                0 <= j < spans.len() ==> (#[trigger] spans[j]).start < spans[j].end <= chars.len(),
            forall|i: int, j: int| 0 <= i < j < spans.len() ==> spans[i].end < spans[j].start,
            at == location_at(chars@, from as int),
            k < spans.len() ==> from <= spans[k as int].start,
            r@ == chunks(chars@).take(k as int),
        decreases spans.len() - k,
    {
        let span = spans[k];
        at = advance(chars, from, at, span.start);
        from = span.start;
        r.push(Annotation { value: span, location: at });
        k = k + 1;
    }
    r
}

/// The token that chunk `i` opens, if it opens one.
fn read_instruction(input: &str, chars: &Vec<char>, chunks: &Vec<Annotation<Span>>, i: usize) -> (r:
    Option<Token>)
    requires
        chars@ == input@,
        i < chunks.len(),
        forall|k: int|
            0 <= k < chunks.len() ==> (#[trigger] chunks[k]).value.start <= chunks[k].value.end
                <= chars.len(),
    ensures
        r matches Some(token) ==> instruction_at(chars@, chunks@, i as int) == Some(token@),
        r is None ==> instruction_at(chars@, chunks@, i as int) is None,
{
    let word = chunks[i].value;
    if spells(chars, word, "inbox") {
        return Some(Token::inbox(chunks[i].location));
    }
    if spells(chars, word, "outbox") {
        return Some(Token::outbox(chunks[i].location));
    }
    if i + 1 >= chunks.len() {
        return None;
    }
    let operand = chunks[i + 1].value;
    let location = chunks[i + 1].location;
    if spells(chars, word, "copyfrom") {
        match parse_index(chars, operand) {
            Some(index) => Some(Token::copy_from(location, index)),
            None => None,
        }
    } else if spells(chars, word, "copyto") {
        match parse_index(chars, operand) {
            Some(index) => Some(Token::copy_to(location, index)),
            None => None,
        }
    } else if spells(chars, word, "add") {
        match parse_index(chars, operand) {
            Some(index) => Some(Token::add(location, index)),
            None => None,
        }
    } else if spells(chars, word, "sub") {
        match parse_index(chars, operand) {
            Some(index) => Some(Token::sub(location, index)),
            None => None,
        }
    } else if spells(chars, word, "bump_plus") {
        match parse_index(chars, operand) {
            Some(index) => Some(Token::bump_plus(location, index)),
            None => None,
        }
    } else if spells(chars, word, "bump_minus") {
        match parse_index(chars, operand) {
            Some(index) => Some(Token::bump_minus(location, index)),
            None => None,
        }
    } else if spells(chars, word, "jump") {
        Some(Token::jump(location, label_of(input, operand)))
    } else if spells(chars, word, "jump_if_zero") {
        Some(Token::jump_if_zero(location, label_of(input, operand)))
    } else if spells(chars, word, "jump_if_neg") {
        Some(Token::jump_if_neg(location, label_of(input, operand)))
    } else if spells(chars, word, "jump_target") {
        Some(Token::jump_target(location, label_of(input, operand)))
    } else {
        None
    }
}

/// The characters of `input` under `span`, as a label.
fn label_of(input: &str, span: Span) -> (label: String)
    requires
        span.start <= span.end <= input@.len(),
    ensures
        label@ == span.of(input@),
{
    input.substring_char(span.start, span.end).to_owned()
}

/// The reader of program texts.
pub struct Lexer;

impl Lexer {
    /// Reads a program from its source text. Nothing is refused: what writes no
    /// instruction is left out.
    pub fn lex(input: &str) -> (program: Program)
        ensures
            instructions(program@) == lexed(input@),
    {
        let chars = collect_chars(input);
        let words = split_chunks(&chars);
        let mut program: Vec<Token> = Vec::new();
        let mut i: usize = 0;
        while i < words.len()
            invariant
                chars@ == input@,
                words@ == chunks(chars@),
                forall|k: int|
                    0 <= k < words.len() ==> (#[trigger] words[k]).value.start
                        < words[k].value.end <= chars.len(),
                i <= words.len(),
                instructions(program@) + lexed_from(chars@, words@, i as int) == lexed(chars@),
            decreases words.len() - i,
        {
            match read_instruction(input, &chars, &words, i) {
                Some(token) => {
                    let two = match token.value {
                        TokenKind::InBox | TokenKind::OutBox => false,
                        _ => true,
                    };
                    program.push(token);
                    i = if two { i + 2 } else { i + 1 };
                },
                None => {
                    i = i + 1;
                },
            }
        }
        program
    }
}

} // verus!
