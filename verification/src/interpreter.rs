//! The interpreter: a machine that holds a program and runs it.

use crate::lexer::{instructions, Annotation, Location, Program, Token, TokenKind};
use crate::machine::{
    dangling, destination, first_dangling, jump_label, jump_table, lemma_target_before,
    target_before, target_of, Machine, CELL_COUNT,
};
use crate::number::{numbers, output_text, parse_numbers, render};
use crate::text::collect_chars;
use std::collections::{HashMap, VecDeque};
use vstd::prelude::*;

verus! {

/// Why a run, or the loading of a program, fails.
#[derive(Debug, Clone, Copy, PartialEq, Eq, Hash, Structural)]
pub enum InterpreterErrorKind {
    /// A jump refers to a label that no `jump_target` carries.
    UnexistedJumpTarget,
    /// `inbox` was executed though no input was given.
    UndefinedInputBox,
    /// `inbox` was executed with the input queue used up.
    EmptyInBox,
    /// An instruction read a cell that holds nothing.
    EmptyFloorValue,
    /// An instruction read the hand while it was empty.
    EmptyHandValue,
    /// An instruction refers to a cell that the floor does not have.
    CellIndexOutOfRange,
    /// The step limit was reached with instructions left to execute.
    StepLimitReached,
}

/// An error and the place of the instruction that it comes from.
pub type InterpreterError = Annotation<InterpreterErrorKind>;

/// A machine with a program to run, its input and what it has emitted.
pub struct SimpleInterpreter {
    hand: Option<i16>,
    program_cursor: usize,
    cells: Vec<Option<i16>>,
    program: Program,
    inbox: Option<VecDeque<i16>>,
    outbox: Vec<i16>,
    jump_table: HashMap<usize, usize>,
    step_counter: usize,
    step_limit: usize,
}

/// The values that wait in an input queue, front first.
pub open spec fn queued(inbox: Option<VecDeque<i16>>) -> Option<Seq<i16>> {
    match inbox {
        Some(queue) => Some(queue@),
        None => None,
    }
}

/// What an instruction's function owes for `effect`, what the instruction does to the
/// machine `before`: on success the new state; on failure the error, placed at `location`,
/// and the state as it was.
pub open spec fn answers(
    before: Machine,
    effect: Result<Machine, InterpreterErrorKind>,
    location: Location,
    after: Machine,
    r: Result<(), InterpreterError>,
) -> bool {
    match effect {
        Ok(next) => r is Ok && after == next,
        Err(kind) => r == Err::<(), InterpreterError>(Annotation { value: kind, location })
            && after == before,
    }
}

impl View for SimpleInterpreter {
    type V = Machine;

    closed spec fn view(&self) -> Machine {
        Machine {
            hand: self.hand,
            cells: self.cells@,
            inbox: queued(self.inbox),
            outbox: self.outbox@,
            cursor: self.program_cursor as int,
            program: instructions(self.program@),
            jumps: self.jump_table@,
            steps: self.step_counter as int,
            step_limit: self.step_limit as int,
        }
    }
}

/// A floor with every cell empty.
fn empty_floor() -> (cells: Vec<Option<i16>>)
    ensures
        cells@ == Seq::new(CELL_COUNT as nat, |i: int| None::<i16>),
{
    let mut cells: Vec<Option<i16>> = Vec::new();
    while cells.len() < CELL_COUNT
        invariant
            cells.len() <= CELL_COUNT,
            forall|i: int| 0 <= i < cells.len() ==> cells[i] is None,
        decreases CELL_COUNT - cells.len(),
    {
        cells.push(None);
    }
    cells
}

/// The position that `label` names in `program`.
fn find_target(program: &Program, label: &String) -> (r: Option<usize>)
    ensures
        match r {
            Some(target) => target_of(instructions(program@), label@) == Some(target as int),
            None => target_of(instructions(program@), label@) is None,
        },
{
    let mut end: usize = program.len();
    while end > 0
        invariant
            end <= program.len(),
            target_before(instructions(program@), label@, end as int) == target_of(
                instructions(program@),
                label@,
            ),
        decreases end,
    {
        match &program[end - 1].value {
            TokenKind::JumpTarget(name) => {
                if *name == *label {
                    return Some(end - 1);
                }
            },
            _ => {},
        }
        end = end - 1;
    }
    None
}

/// The jump table of `program`, or the error of its first dangling jump.
fn resolve(program: &Program) -> (r: Result<HashMap<usize, usize>, InterpreterError>)
    ensures
        match r {
            Ok(table) => first_dangling(instructions(program@), 0) is None && table@ == jump_table(
                instructions(program@),
            ),
            Err(error) => Machine::fresh().load(instructions(program@)) == Err::<
                Machine,
                InterpreterError,
            >(error),
        },
{
    let ghost code = instructions(program@);
    let mut table: HashMap<usize, usize> = HashMap::new();
    let mut at: usize = 0;
    while at < program.len()
        invariant
            at <= program.len(),
            code == instructions(program@),
            first_dangling(code, at as int) == first_dangling(code, 0),
            forall|k: usize|
                table@.contains_key(k) <==> k < at && destination(code, k as int) is Some,
            forall|k: usize|
                table@.contains_key(k) ==> table@[k] == destination(code, k as int).unwrap(),
        decreases program.len() - at,
    {
        let label = match &program[at].value {
            TokenKind::Jump(label) => Some(label),
            TokenKind::JumpIfZero(label) => Some(label),
            TokenKind::JumpIfNeg(label) => Some(label),
            _ => None,
        };
        if let Some(label) = label {
            match find_target(program, label) {
                Some(target) => {
                    table.insert(at, target);
                },
                None => {
                    return Err(
                        InterpreterError {
                            value: InterpreterErrorKind::UnexistedJumpTarget,
                            location: program[at].location,
                        },
                    );
                },
            }
        }
        at = at + 1;
    }
    Ok(table)
}

/// A copy of `token`.
fn copy_token(token: &Token) -> (copy: Token)
    ensures
        copy == *token,
{
    let value = match &token.value {
        TokenKind::InBox => TokenKind::InBox,
        TokenKind::OutBox => TokenKind::OutBox,
        TokenKind::CopyFrom(index) => TokenKind::CopyFrom(*index),
        TokenKind::CopyTo(index) => TokenKind::CopyTo(*index),
        TokenKind::Add(index) => TokenKind::Add(*index),
        TokenKind::Sub(index) => TokenKind::Sub(*index),
        TokenKind::BumpPlus(index) => TokenKind::BumpPlus(*index),
        TokenKind::BumpMinus(index) => TokenKind::BumpMinus(*index),
        TokenKind::Jump(label) => TokenKind::Jump(label.clone()),
        TokenKind::JumpIfZero(label) => TokenKind::JumpIfZero(label.clone()),
        TokenKind::JumpIfNeg(label) => TokenKind::JumpIfNeg(label.clone()),
        TokenKind::JumpTarget(label) => TokenKind::JumpTarget(label.clone()),
    };
    Token { value, location: token.location }
}

/// A copy of `program`.
fn copy_program(program: &Program) -> (copy: Program)
    ensures
        copy@ == program@,
{
    let mut copy: Vec<Token> = Vec::new();
    let mut i: usize = 0;
    while i < program.len()
        invariant
            i <= program.len(),
            copy@ == program@.take(i as int),
        decreases program.len() - i,
    {
        copy.push(copy_token(&program[i]));
        i = i + 1;
    }
    copy
}

impl SimpleInterpreter {
    /// A machine with nothing loaded, no input and the largest step limit.
    pub fn new() -> (r: Self)
        ensures
            r@ == Machine::fresh(),
            r@.wf(),
    {
        let r = Self {
            hand: None,
            program_cursor: 0,
            cells: empty_floor(),
            program: Vec::new(),
            inbox: None,
            outbox: Vec::new(),
            jump_table: HashMap::new(),
            step_counter: 0,
            step_limit: usize::MAX,
        };
        proof {
            assert(instructions(r.program@) =~= Seq::empty());
            assert(jump_table(Seq::empty()) =~= Map::empty());
        }
        r
    }

    /// Gives the machine its input: the values that `inbox` holds, in their order.
    pub fn set_inbox(&mut self, inbox: String)
        requires
            old(self)@.wf(),
        ensures
            final(self)@ == (Machine { inbox: Some(numbers(inbox@)), ..old(self)@ }),
            final(self)@.wf(),
    {
        let chars = collect_chars(inbox.as_str());
        self.inbox = Some(parse_numbers(&chars));
    }

    /// The input queue, front first; `None` where no input was given.
    pub fn show_inbox(&self) -> (r: &Option<VecDeque<i16>>)
        ensures
            queued(*r) == self@.inbox,
    {
        &self.inbox
    }

    /// What the machine has emitted since its program was loaded, oldest first.
    pub fn show_outbox(&self) -> (r: &Vec<i16>)
        ensures
            r@ == self@.outbox,
    {
        &self.outbox
    }

    /// Hands out what the machine has emitted and leaves nothing of it behind.
    pub fn take_outbox(&mut self) -> (r: Vec<i16>)
        ensures
            r@ == old(self)@.outbox,
            final(self)@ == (Machine { outbox: Seq::empty(), ..old(self)@ }),
            old(self)@.wf() ==> final(self)@.wf(),
    {
        let mut r: Vec<i16> = Vec::new();
        std::mem::swap(&mut r, &mut self.outbox);
        r
    }

    /// The text that the emitted values are printed as: one line for each.
    pub fn output(&self) -> (text: String)
        ensures
            text@ == output_text(self@.outbox),
    {
        render(&self.outbox)
    }

    /// Sets how many instructions a run may execute at most.
    pub fn set_step_limit(&mut self, limit: usize)
        ensures
            final(self)@ == (Machine { step_limit: limit as int, ..old(self)@ }),
            old(self)@.wf() ==> final(self)@.wf(),
    {
        self.step_limit = limit;
    }

    /// What the hand holds.
    pub fn hand(&self) -> (r: Option<i16>)
        ensures
            r == self@.hand,
    {
        self.hand
    }

    /// The floor.
    pub fn cells(&self) -> (r: &Vec<Option<i16>>)
        ensures
            r@ == self@.cells,
    {
        &self.cells
    }

    /// The position of the instruction that comes next.
    pub fn cursor(&self) -> (r: usize)
        ensures
            r == self@.cursor,
    {
        self.program_cursor
    }

    /// How many instructions were executed since the program was loaded.
    pub fn steps(&self) -> (r: usize)
        ensures
            r == self@.steps,
    {
        self.step_counter
    }

    /// `inbox`.
    pub fn eval_inbox(&mut self, location: Location) -> (r: Result<(), InterpreterError>)
        requires
            old(self)@.wf(),
            old(self)@.running(),
        ensures
            final(self)@.wf(),
            answers(old(self)@, old(self)@.take_inbox(), location, final(self)@, r),
    {
        match &mut self.inbox {
            Some(input) => match input.pop_front() {
                Some(value) => {
                    self.hand = Some(value);
                },
                None => {
                    return Err(
                        InterpreterError { value: InterpreterErrorKind::EmptyInBox, location },
                    );
                },
            },
            None => {
                return Err(
                    InterpreterError { value: InterpreterErrorKind::UndefinedInputBox, location },
                );
            },
        }
        self.program_cursor += 1;
        Ok(())
    }

    /// `outbox`.
    pub fn eval_outbox(&mut self, location: Location) -> (r: Result<(), InterpreterError>)
        requires
            old(self)@.wf(),
            old(self)@.running(),
        ensures
            final(self)@.wf(),
            answers(old(self)@, old(self)@.give_outbox(), location, final(self)@, r),
    {
        match self.hand {
            Some(value) => {
                self.outbox.push(value);
                self.hand = None;
            },
            None => {
                return Err(
                    InterpreterError { value: InterpreterErrorKind::EmptyHandValue, location },
                );
            },
        }
        self.program_cursor += 1;
        Ok(())
    }

    /// `copyfrom`.
    pub fn eval_copy_from(&mut self, location: Location, index: usize) -> (r: Result<
        (),
        InterpreterError,
    >)
        requires
            old(self)@.wf(),
            old(self)@.running(),
        ensures
            final(self)@.wf(),
            answers(old(self)@, old(self)@.copy_from(index), location, final(self)@, r),
    {
        if index >= self.cells.len() {
            return Err(
                InterpreterError { value: InterpreterErrorKind::CellIndexOutOfRange, location },
            );
        }
        match self.cells[index] {
            Some(value) => {
                self.hand = Some(value);
            },
            None => {
                return Err(
                    InterpreterError { value: InterpreterErrorKind::EmptyFloorValue, location },
                );
            },
        }
        self.program_cursor += 1;
        Ok(())
    }

    /// `copyto`.
    pub fn eval_copy_to(&mut self, location: Location, index: usize) -> (r: Result<
        (),
        InterpreterError,
    >)
        requires
            old(self)@.wf(),
            old(self)@.running(),
        ensures
            final(self)@.wf(),
            answers(old(self)@, old(self)@.copy_to(index), location, final(self)@, r),
    {
        match self.hand {
            Some(value) => {
                if index >= self.cells.len() {
                    return Err(
                        InterpreterError {
                            value: InterpreterErrorKind::CellIndexOutOfRange,
                            location,
                        },
                    );
                }
                self.cells.set(index, Some(value));
            },
            None => {
                return Err(
                    InterpreterError { value: InterpreterErrorKind::EmptyHandValue, location },
                );
            },
        }
        self.program_cursor += 1;
        Ok(())
    }

    /// The cell's value, for an instruction that needs one.
    fn read_cell(&self, location: Location, index: usize) -> (r: Result<i16, InterpreterError>)
        ensures
            match r {
                Ok(value) => index < self@.cells.len() && self@.cells[index as int] == Some(value),
                Err(error) => error.location == location && if index >= self@.cells.len() {
                    error.value == InterpreterErrorKind::CellIndexOutOfRange
                } else {
                    self@.cells[index as int] is None && error.value
                        == InterpreterErrorKind::EmptyFloorValue
                },
            },
    {
        if index >= self.cells.len() {
            return Err(
                InterpreterError { value: InterpreterErrorKind::CellIndexOutOfRange, location },
            );
        }
        match self.cells[index] {
            Some(value) => Ok(value),
            None => Err(
                InterpreterError { value: InterpreterErrorKind::EmptyFloorValue, location },
            ),
        }
    }

    /// `add`.
    pub fn eval_add(&mut self, location: Location, index: usize) -> (r: Result<
        (),
        InterpreterError,
    >)
        requires
            old(self)@.wf(),
            old(self)@.running(),
        ensures
            final(self)@.wf(),
            answers(old(self)@, old(self)@.combine(index, 1), location, final(self)@, r),
    {
        let floor_value = match self.read_cell(location, index) {
            Ok(value) => value,
            Err(error) => {
                return Err(error);
            },
        };
        match self.hand {
            Some(hand_value) => {
                self.hand = Some(hand_value.wrapping_add(floor_value));
            },
            None => {
                return Err(
                    InterpreterError { value: InterpreterErrorKind::EmptyHandValue, location },
                );
            },
        }
        self.program_cursor += 1;
        Ok(())
    }

    /// `sub`.
    pub fn eval_sub(&mut self, location: Location, index: usize) -> (r: Result<
        (),
        InterpreterError,
    >)
        requires
            old(self)@.wf(),
            old(self)@.running(),
        ensures
            final(self)@.wf(),
            answers(old(self)@, old(self)@.combine(index, -1), location, final(self)@, r),
    {
        let floor_value = match self.read_cell(location, index) {
            Ok(value) => value,
            Err(error) => {
                return Err(error);
            },
        };
        match self.hand {
            Some(hand_value) => {
                self.hand = Some(hand_value.wrapping_sub(floor_value));
            },
            None => {
                return Err(
                    InterpreterError { value: InterpreterErrorKind::EmptyHandValue, location },
                );
            },
        }
        self.program_cursor += 1;
        Ok(())
    }

    /// `bump_plus` and `bump_minus`, by the `delta` of each.
    pub fn eval_bump(&mut self, location: Location, index: usize, delta: i16) -> (r: Result<
        (),
        InterpreterError,
    >)
        requires
            old(self)@.wf(),
            old(self)@.running(),
        ensures
            final(self)@.wf(),
            answers(old(self)@, old(self)@.bump(index, delta), location, final(self)@, r),
    {
        let floor_value = match self.read_cell(location, index) {
            Ok(value) => value,
            Err(error) => {
                return Err(error);
            },
        };
        let bumped = floor_value.wrapping_add(delta);
        self.cells.set(index, Some(bumped));
        self.hand = Some(bumped);
        self.program_cursor += 1;
        Ok(())
    }

    /// `bump_plus`.
    pub fn eval_bump_plus(&mut self, location: Location, index: usize) -> (r: Result<
        (),
        InterpreterError,
    >)
        requires
            old(self)@.wf(),
            old(self)@.running(),
        ensures
            final(self)@.wf(),
            answers(old(self)@, old(self)@.bump(index, 1i16), location, final(self)@, r),
    {
        self.eval_bump(location, index, 1)
    }

    /// `bump_minus`.
    pub fn eval_bump_minus(&mut self, location: Location, index: usize) -> (r: Result<
        (),
        InterpreterError,
    >)
        requires
            old(self)@.wf(),
            old(self)@.running(),
        ensures
            final(self)@.wf(),
            answers(old(self)@, old(self)@.bump(index, -1i16), location, final(self)@, r),
    {
        self.eval_bump(location, index, -1)
    }

    /// `jump`, for the jump at position `at` of the program.
    pub fn eval_jump(&mut self, location: Location, at: usize) -> (r: Result<(), InterpreterError>)
        requires
            old(self)@.wf(),
        ensures
            final(self)@.wf(),
            answers(old(self)@, old(self)@.jump(at), location, final(self)@, r),
    {
        match self.jump_table.get(&at) {
            Some(line) => {
                proof {
                    let program = self@.program;
                    lemma_target_before(
                        program,
                        jump_label(program[at as int].value).unwrap(),
                        program.len() as int,
                    );
                }
                self.program_cursor = *line;
            },
            None => {
                return Err(
                    InterpreterError { value: InterpreterErrorKind::UnexistedJumpTarget, location },
                );
            },
        }
        Ok(())
    }

    /// `jump_if_zero`, for the jump at position `at` of the program.
    pub fn eval_jump_if_zero(&mut self, location: Location, at: usize) -> (r: Result<
        (),
        InterpreterError,
    >)
        requires
            old(self)@.wf(),
            old(self)@.running(),
        ensures
            final(self)@.wf(),
            answers(old(self)@, old(self)@.jump_if_zero(at), location, final(self)@, r),
    {
        match self.hand {
            Some(0) => self.eval_jump(location, at),
            _ => {
                self.program_cursor += 1;
                Ok(())
            },
        }
    }

    /// `jump_if_neg`, for the jump at position `at` of the program.
    pub fn eval_jump_if_neg(&mut self, location: Location, at: usize) -> (r: Result<
        (),
        InterpreterError,
    >)
        requires
            old(self)@.wf(),
            old(self)@.running(),
        ensures
            final(self)@.wf(),
            answers(old(self)@, old(self)@.jump_if_neg(at), location, final(self)@, r),
    {
        match self.hand {
            Some(value) if value < 0 => self.eval_jump(location, at),
            _ => {
                self.program_cursor += 1;
                Ok(())
            },
        }
    }

    /// Loads `program` and makes the machine ready to run it from its first instruction,
    /// or refuses the program and leaves the machine as it was.
    pub fn init(&mut self, program: &Program) -> (r: Result<usize, InterpreterError>)
        requires
            old(self)@.wf(),
        ensures
            final(self)@.wf(),
            match old(self)@.load(instructions(program@)) {
                Ok(loaded) => r == Ok::<usize, InterpreterError>(0) && final(self)@ == loaded,
                Err(error) => r == Err::<usize, InterpreterError>(error) && final(self)@ == old(
                    self,
                )@,
            },
    {
        let table = match resolve(program) {
            Ok(table) => table,
            Err(error) => {
                return Err(error);
            },
        };
        self.hand = None;
        self.cells = empty_floor();
        self.outbox = Vec::new();
        self.program_cursor = 0;
        self.program = copy_program(program);
        self.jump_table = table;
        self.step_counter = 0;
        assert(self@.program.len() == program.len());
        Ok(0)
    }

    /// Executes the instruction under the cursor. `Ok(true)`: it was executed. `Ok(false)`:
    /// the machine has halted and stays as it was. `Err`: the run has failed, and the
    /// machine stays as it was.
    pub fn step(&mut self) -> (r: Result<bool, InterpreterError>)
        requires
            old(self)@.wf(),
        ensures
            final(self)@.wf(),
            match old(self)@.step() {
                Ok(Some(next)) => r == Ok::<bool, InterpreterError>(true) && final(self)@ == next,
                Ok(None) => r == Ok::<bool, InterpreterError>(false) && final(self)@ == old(self)@,
                Err(error) => r == Err::<bool, InterpreterError>(error) && final(self)@ == old(
                    self,
                )@,
            },
    {
        if self.program_cursor >= self.program.len() {
            return Ok(false);
        }
        let at = self.program_cursor;
        let location = self.program[at].location;
        if self.step_counter >= self.step_limit {
            return Err(
                InterpreterError { value: InterpreterErrorKind::StepLimitReached, location },
            );
        }
        let res = match self.program[at].value {
            TokenKind::InBox => self.eval_inbox(location),
            TokenKind::OutBox => self.eval_outbox(location),
            TokenKind::CopyFrom(index) => self.eval_copy_from(location, index),
            TokenKind::CopyTo(index) => self.eval_copy_to(location, index),
            TokenKind::Add(index) => self.eval_add(location, index),
            TokenKind::Sub(index) => self.eval_sub(location, index),
            TokenKind::BumpPlus(index) => self.eval_bump_plus(location, index),
            TokenKind::BumpMinus(index) => self.eval_bump_minus(location, index),
            TokenKind::Jump(_) => self.eval_jump(location, at),
            TokenKind::JumpIfZero(_) => self.eval_jump_if_zero(location, at),
            TokenKind::JumpIfNeg(_) => self.eval_jump_if_neg(location, at),
            TokenKind::JumpTarget(_) => {
                self.program_cursor += 1;
                Ok(())
            },
        };
        match res {
            Ok(()) => {
                self.step_counter += 1;
                Ok(true)
            },
            Err(error) => {
                if error.value == InterpreterErrorKind::EmptyInBox {
                    Ok(false)
                } else {
                    Err(error)
                }
            },
        }
    }

    /// Loads `program` and runs it to its end: until the machine halts, the run fails or
    /// the step limit is reached.
    pub fn eval(&mut self, program: &Program) -> (r: Result<usize, InterpreterError>)
        requires
            old(self)@.wf(),
        ensures
            final(self)@.wf(),
            match old(self)@.load(instructions(program@)) {
                Ok(loaded) => (final(self)@, r) == loaded.run(),
                Err(error) => r == Err::<usize, InterpreterError>(error) && final(self)@ == old(
                    self,
                )@,
            },
    {
        if let Err(error) = self.init(program) {
            return Err(error);
        }
        let ghost loaded = self@;
        loop
            invariant
                self@.wf(),
                old(self)@.load(instructions(program@)) == Ok::<Machine, InterpreterError>(loaded),
                self@.run() == loaded.run(),
            decreases self@.step_limit - self@.steps,
        {
            match self.step() {
                Ok(true) => {},
                Ok(false) => {
                    return Ok(0);
                },
                Err(error) => {
                    return Err(error);
                },
            }
        }
    }
}

} // verus!
