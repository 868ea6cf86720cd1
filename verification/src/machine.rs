//! The machine as a mathematical object: its state, what each instruction does to it,
//! how a program is loaded and what a run comes to.
//!
//! The hand and the cells hold 16-bit signed integers, and all arithmetic wraps: a result
//! beyond either end of the range comes back in at the other.
//!
//! A run is bounded, so that it always ends: the machine counts the instructions it
//! executes and stops with `StepLimitReached` when another one is due after `step_limit`
//! of them. The limit starts as the largest `usize`.

use crate::interpreter::InterpreterErrorKind;
use crate::lexer::{Annotation, Instruction};
use crate::number::wrap16;
use vstd::prelude::*;

verus! {

/// The number of cells on the floor.
pub const CELL_COUNT: usize = 6;

/// The position of the last `jump_target` among the first `end` instructions of `program`
/// that carries `label`.
pub open spec fn target_before(
    program: Seq<Annotation<Instruction>>,
    label: Seq<char>,
    end: int,
) -> Option<int>
    decreases end,
{
    if end <= 0 {
        None
    } else if program[end - 1].value == Instruction::JumpTarget(label) {
        Some(end - 1)
    } else {
        target_before(program, label, end - 1)
    }
}

/// The position that `label` names in `program`: that of the last `jump_target` which
/// carries it.
pub open spec fn target_of(program: Seq<Annotation<Instruction>>, label: Seq<char>) -> Option<int> {
    target_before(program, label, program.len() as int)
}

/// What `target_before` finds is a `jump_target` with the label, below `end`, and the last
/// such one; where it finds nothing there is none.
pub proof fn lemma_target_before(
    program: Seq<Annotation<Instruction>>,
    label: Seq<char>,
    end: int,
)
    requires
        0 <= end <= program.len(),
    ensures
        match target_before(program, label, end) {
            Some(target) => {
                &&& 0 <= target < end
                &&& program[target].value == Instruction::JumpTarget(label)
                &&& forall|j: int|
                    target < j < end ==> (#[trigger] program[j]).value != Instruction::JumpTarget(
                        label,
                    )
            },
            None => forall|j: int|
                0 <= j < end ==> (#[trigger] program[j]).value != Instruction::JumpTarget(label),
        },
    decreases end,
{
    if end > 0 && program[end - 1].value != Instruction::JumpTarget(label) {
        lemma_target_before(program, label, end - 1);
    }
}

/// The label that a jump refers to; `None` for every other instruction.
pub open spec fn jump_label(instruction: Instruction) -> Option<Seq<char>> {
    match instruction {
        Instruction::Jump(label) => Some(label),
        Instruction::JumpIfZero(label) => Some(label),
        Instruction::JumpIfNeg(label) => Some(label),
        _ => None,
    }
}

/// Where the instruction at position `at` leads if it is a jump whose label is defined.
pub open spec fn destination(program: Seq<Annotation<Instruction>>, at: int) -> Option<int> {
    if 0 <= at < program.len() {
        match jump_label(program[at].value) {
            Some(label) => target_of(program, label),
            None => None,
        }
    } else {
        None
    }
}

/// Whether the instruction at position `at` is a jump whose label no `jump_target` carries.
pub open spec fn dangling(program: Seq<Annotation<Instruction>>, at: int) -> bool {
    0 <= at < program.len() && jump_label(program[at].value) is Some && destination(program, at)
        is None
}

/// The position of the first dangling jump at or after `from`.
pub open spec fn first_dangling(program: Seq<Annotation<Instruction>>, from: int) -> Option<int>
    decreases program.len() - from,
{
    if from >= program.len() {
        None
    } else if dangling(program, from) {
        Some(from)
    } else {
        first_dangling(program, from + 1)
    }
}

/// The jump table of a program: each jump's position, mapped to the position it leads to.
pub open spec fn jump_table(program: Seq<Annotation<Instruction>>) -> Map<usize, usize> {
    Map::new(
        |at: usize| destination(program, at as int) is Some,
        |at: usize| destination(program, at as int).unwrap() as usize,
    )
}

/// The state of the machine.
pub struct Machine {
    /// The register: empty, or one value.
    pub hand: Option<i16>,
    /// The floor: each cell empty, or holding one value.
    pub cells: Seq<Option<i16>>,
    /// The input queue, front first; `None` where no input was given.
    pub inbox: Option<Seq<i16>>,
    /// What has been emitted so far, oldest first.
    pub outbox: Seq<i16>,
    /// The position of the instruction that comes next.
    pub cursor: int,
    /// The program that was loaded.
    pub program: Seq<Annotation<Instruction>>,
    /// The jump table.
    pub jumps: Map<usize, usize>,
    /// How many instructions have been executed since the program was loaded.
    pub steps: int,
    /// How many instructions may be executed at most.
    pub step_limit: int,
}

impl Machine {
    /// A machine before anything was loaded or given to it.
    pub open spec fn fresh() -> Machine {
        Machine {
            hand: None,
            cells: Seq::new(CELL_COUNT as nat, |i: int| None),
            inbox: None,
            outbox: Seq::empty(),
            cursor: 0,
            program: Seq::empty(),
            jumps: Map::empty(),
            steps: 0,
            step_limit: usize::MAX as int,
        }
    }

    /// What holds of every machine: the floor has its cells, the cursor lies within the
    /// program or at its end, every jump of the program leads somewhere, and the jump
    /// table is that of the program.
    pub open spec fn wf(self) -> bool {
        &&& self.cells.len() == CELL_COUNT
        &&& 0 <= self.cursor <= self.program.len() <= usize::MAX
        &&& 0 <= self.steps <= usize::MAX
        &&& 0 <= self.step_limit <= usize::MAX
        &&& first_dangling(self.program, 0) is None
        &&& self.jumps == jump_table(self.program)
    }

    /// Whether an instruction is left to execute.
    pub open spec fn running(self) -> bool {
        0 <= self.cursor < self.program.len()
    }

    /// The machine with `program` loaded and ready to run from its first instruction: hand
    /// and floor empty, nothing emitted, no step taken. The input queue and the step limit
    /// stay. A program with a dangling jump is refused at the first such jump.
    pub open spec fn load(self, program: Seq<Annotation<Instruction>>) -> Result<
        Machine,
        Annotation<InterpreterErrorKind>,
    > {
        match first_dangling(program, 0) {
            Some(at) => Err(
                Annotation {
                    value: InterpreterErrorKind::UnexistedJumpTarget,
                    location: program[at].location,
                },
            ),
            None => Ok(
                Machine {
                    hand: None,
                    cells: Seq::new(CELL_COUNT as nat, |i: int| None),
                    outbox: Seq::empty(),
                    cursor: 0,
                    program,
                    jumps: jump_table(program),
                    steps: 0,
                    ..self
                },
            ),
        }
    }

    /// The machine with the cursor on the next instruction.
    pub open spec fn forward(self) -> Machine {
        Machine { cursor: self.cursor + 1, ..self }
    }

    /// `inbox`: the front of the queue goes to the hand.
    pub open spec fn take_inbox(self) -> Result<Machine, InterpreterErrorKind> {
        match self.inbox {
            None => Err(InterpreterErrorKind::UndefinedInputBox),
            Some(queue) => if queue.len() == 0 {
                Err(InterpreterErrorKind::EmptyInBox)
            } else {
                Ok(Machine { hand: Some(queue[0]), inbox: Some(queue.skip(1)), ..self.forward() })
            },
        }
    }

    /// `outbox`: the hand's value is emitted and the hand left empty.
    pub open spec fn give_outbox(self) -> Result<Machine, InterpreterErrorKind> {
        match self.hand {
            None => Err(InterpreterErrorKind::EmptyHandValue),
            Some(value) => Ok(
                Machine { hand: None, outbox: self.outbox.push(value), ..self.forward() },
            ),
        }
    }

    /// `copyfrom`: the hand takes the cell's value.
    pub open spec fn copy_from(self, index: usize) -> Result<Machine, InterpreterErrorKind> {
        if index >= self.cells.len() {
            Err(InterpreterErrorKind::CellIndexOutOfRange)
        } else if self.cells[index as int] is None {
            Err(InterpreterErrorKind::EmptyFloorValue)
        } else {
            Ok(Machine { hand: self.cells[index as int], ..self.forward() })
        }
    }

    /// `copyto`: the cell takes the hand's value.
    pub open spec fn copy_to(self, index: usize) -> Result<Machine, InterpreterErrorKind> {
        if self.hand is None {
            Err(InterpreterErrorKind::EmptyHandValue)
        } else if index >= self.cells.len() {
            Err(InterpreterErrorKind::CellIndexOutOfRange)
        } else {
            Ok(Machine { cells: self.cells.update(index as int, self.hand), ..self.forward() })
        }
    }

    /// `add` and `sub`: the hand takes the sum of its value and `sign` times the cell's,
    /// wrapped to 16 bits.
    pub open spec fn combine(self, index: usize, sign: int) -> Result<
        Machine,
        InterpreterErrorKind,
    > {
        if index >= self.cells.len() {
            Err(InterpreterErrorKind::CellIndexOutOfRange)
        } else if self.cells[index as int] is None {
            Err(InterpreterErrorKind::EmptyFloorValue)
        } else if self.hand is None {
            Err(InterpreterErrorKind::EmptyHandValue)
        } else {
            Ok(
                Machine {
                    hand: Some(wrap16(self.hand.unwrap() + sign * self.cells[index as int].unwrap())),
                    ..self.forward()
                },
            )
        }
    }

    /// `bump_plus` and `bump_minus`: the cell's value changes by `delta`, wrapped to 16
    /// bits, and the hand takes the new value.
    pub open spec fn bump(self, index: usize, delta: i16) -> Result<Machine, InterpreterErrorKind> {
        if index >= self.cells.len() {
            Err(InterpreterErrorKind::CellIndexOutOfRange)
        } else if self.cells[index as int] is None {
            Err(InterpreterErrorKind::EmptyFloorValue)
        } else {
            let value = Some(wrap16(self.cells[index as int].unwrap() + delta));
            Ok(
                Machine {
                    hand: value,
                    cells: self.cells.update(index as int, value),
                    ..self.forward()
                },
            )
        }
    }

    /// `jump`: the cursor goes where the jump table leads from position `at`.
    pub open spec fn jump(self, at: usize) -> Result<Machine, InterpreterErrorKind> {
        if self.jumps.contains_key(at) {
            Ok(Machine { cursor: self.jumps[at] as int, ..self })
        } else {
            Err(InterpreterErrorKind::UnexistedJumpTarget)
        }
    }

    /// `jump_if_zero`: a jump if the hand holds 0, else on to the next instruction.
    pub open spec fn jump_if_zero(self, at: usize) -> Result<Machine, InterpreterErrorKind> {
        if self.hand == Some(0i16) {
            self.jump(at)
        } else {
            Ok(self.forward())
        }
    }

    /// `jump_if_neg`: a jump if the hand holds a value below 0, else on to the next
    /// instruction.
    pub open spec fn jump_if_neg(self, at: usize) -> Result<Machine, InterpreterErrorKind> {
        if self.hand is Some && self.hand.unwrap() < 0 {
            self.jump(at)
        } else {
            Ok(self.forward())
        }
    }

    /// What the instruction under the cursor does.
    pub open spec fn dispatch(self) -> Result<Machine, InterpreterErrorKind> {
        match self.program[self.cursor].value {
            Instruction::InBox => self.take_inbox(),
            Instruction::OutBox => self.give_outbox(),
            Instruction::CopyFrom(index) => self.copy_from(index),
            Instruction::CopyTo(index) => self.copy_to(index),
            Instruction::Add(index) => self.combine(index, 1),
            Instruction::Sub(index) => self.combine(index, -1),
            Instruction::BumpPlus(index) => self.bump(index, 1i16),
            Instruction::BumpMinus(index) => self.bump(index, -1i16),
            Instruction::Jump(_) => self.jump(self.cursor as usize),
            Instruction::JumpIfZero(_) => self.jump_if_zero(self.cursor as usize),
            Instruction::JumpIfNeg(_) => self.jump_if_neg(self.cursor as usize),
            Instruction::JumpTarget(_) => Ok(self.forward()),
        }
    }

    /// One step of a run. `Ok(Some(next))`: the instruction under the cursor was
    /// executed. `Ok(None)`: the machine has halted, at the end of the program or at an
    /// `inbox` with the queue used up. `Err`: the run has failed at the instruction under
    /// the cursor, or the step limit was reached before it.
    pub open spec fn step(self) -> Result<Option<Machine>, Annotation<InterpreterErrorKind>> {
        if !self.running() {
            Ok(None)
        } else if self.steps >= self.step_limit {
            Err(
                Annotation {
                    value: InterpreterErrorKind::StepLimitReached,
                    location: self.program[self.cursor].location,
                },
            )
        } else {
            match self.dispatch() {
                Ok(next) => Ok(Some(Machine { steps: self.steps + 1, ..next })),
                Err(InterpreterErrorKind::EmptyInBox) => Ok(None),
                Err(kind) => Err(
                    Annotation { value: kind, location: self.program[self.cursor].location },
                ),
            }
        }
    }

    /// A run from this state on: the state it ends in, and how it ends.
    pub open spec fn run(self) -> (Machine, Result<usize, Annotation<InterpreterErrorKind>>)
        decreases self.step_limit - self.steps,
    {
        match self.step() {
            Ok(Some(next)) => next.run(),
            Ok(None) => (self, Ok(0)),
            Err(error) => (self, Err(error)),
        }
    }
}

} // verus!
