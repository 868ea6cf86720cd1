//! What holds of the machine whatever the program and the input.

use crate::interpreter::InterpreterErrorKind;
use crate::lexer::{Annotation, Instruction};
use crate::machine::{
    dangling, destination, first_dangling, jump_label, lemma_target_before, target_of, Machine,
};
use crate::number::{
    all_digits, decimal_digits, decimal_value, digit_char, digit_value, number_at, numbers,
    output_line, output_text, wrap16,
};
use crate::text::{
    is_digit, lemma_run_end, lemma_runs_from, run_end, runs, runs_from, CharClass, Span,
};
use vstd::prelude::*;

verus! {

/// Whether some `jump_target` of `program` carries `label`.
pub open spec fn defined(program: Seq<Annotation<Instruction>>, label: Seq<char>) -> bool {
    exists|j: int|
        0 <= j < program.len() && (#[trigger] program[j]).value == Instruction::JumpTarget(label)
}

/// A label names a position if and only if a `jump_target` carries it, and then it names
/// the last one that does.
pub proof fn law_target(program: Seq<Annotation<Instruction>>, label: Seq<char>)
    ensures
        target_of(program, label) is Some <==> defined(program, label),
        target_of(program, label) matches Some(target) ==> {
            &&& 0 <= target < program.len()
            &&& program[target].value == Instruction::JumpTarget(label)
            &&& forall|j: int|
                target < j < program.len() ==> (#[trigger] program[j]).value
                    != Instruction::JumpTarget(label)
        },
{
    lemma_target_before(program, label, program.len() as int);
}

/// `first_dangling` finds a dangling jump, and the first one from `from` on; where it
/// finds nothing there is none.
pub proof fn lemma_first_dangling(program: Seq<Annotation<Instruction>>, from: int)
    requires
        0 <= from,
    ensures
        match first_dangling(program, from) {
            Some(at) => from <= at && dangling(program, at) && forall|i: int|
                from <= i < at ==> !dangling(program, i),
            None => forall|i: int| from <= i ==> !dangling(program, i),
        },
    decreases program.len() - from,
{
    if from < program.len() && !dangling(program, from) {
        lemma_first_dangling(program, from + 1);
    }
}

/// A program is loaded if and only if every label that one of its jumps refers to is
/// carried by one of its `jump_target`s. Otherwise the load fails with
/// `UnexistedJumpTarget`, at the place of the first jump whose label is not.
pub proof fn law_load(machine: Machine, program: Seq<Annotation<Instruction>>)
    ensures
        machine.load(program) is Ok <==> forall|i: int|
            0 <= i < program.len() && jump_label((#[trigger] program[i]).value) is Some
                ==> defined(program, jump_label(program[i].value).unwrap()),
        machine.load(program) matches Err(error) ==> {
            &&& error.value == InterpreterErrorKind::UnexistedJumpTarget
            &&& exists|at: int|
                {
                    &&& 0 <= at < program.len()
                    &&& error.location == (#[trigger] program[at]).location
                    &&& jump_label(program[at].value) is Some
                    &&& !defined(program, jump_label(program[at].value).unwrap())
                    &&& forall|i: int|
                        0 <= i < at && jump_label((#[trigger] program[i]).value) is Some
                            ==> defined(program, jump_label(program[i].value).unwrap())
                }
        },
{
    lemma_first_dangling(program, 0);
    assert forall|i: int|
        0 <= i < program.len() && jump_label((#[trigger] program[i]).value) is Some implies (
    defined(program, jump_label(program[i].value).unwrap()) <==> !dangling(program, i)) by {
        law_target(program, jump_label(program[i].value).unwrap());
    }
    match first_dangling(program, 0) {
        Some(at) => {
            assert(dangling(program, at));
            assert(jump_label(program[at].value) is Some);
        },
        None => {},
    }
}

/// A loaded machine is well formed, stands before the first instruction of its program
/// and has executed and emitted nothing.
pub proof fn law_loaded(machine: Machine, program: Seq<Annotation<Instruction>>)
    requires
        machine.wf(),
        program.len() <= usize::MAX,
    ensures
        machine.load(program) matches Ok(loaded) ==> {
            &&& loaded.wf()
            &&& loaded.program == program
            &&& loaded.cursor == 0
            &&& loaded.steps == 0
            &&& loaded.hand is None
            &&& loaded.outbox.len() == 0
            &&& loaded.inbox == machine.inbox
            &&& forall|i: int| 0 <= i < loaded.cells.len() ==> loaded.cells[i] is None
        },
{
}

/// The values of an input stream stand in the order of the text: one for each run of
/// digits, and each run ends before the next one starts.
pub proof fn law_numbers_order(text: Seq<char>)
    requires
        text.len() <= usize::MAX,
    ensures
        numbers(text).len() == runs(text, CharClass::Digit).len(),
        forall|k: int|
            0 <= k < numbers(text).len() ==> #[trigger] numbers(text)[k] == number_at(
                text,
                runs(text, CharClass::Digit)[k],
            ),
        forall|j: int, k: int|
            0 <= j < k < numbers(text).len() ==> runs(text, CharClass::Digit)[j].end < runs(
                text,
                CharClass::Digit,
            )[k].start,
{
    lemma_runs_from(text, CharClass::Digit, 0);
}

/// `n` times `inbox` in a row.
pub open spec fn take_many(machine: Machine, n: nat) -> Result<Machine, InterpreterErrorKind>
    decreases n,
{
    if n == 0 {
        Ok(machine)
    } else {
        match machine.take_inbox() {
            Ok(next) => take_many(next, (n - 1) as nat),
            Err(kind) => Err(kind),
        }
    }
}

/// The queue is handed out from its front: as long as values are left in it, the `n`-th
/// `inbox` puts the `n`-th value of the queue in the hand and leaves those behind it.
pub proof fn law_inbox_order(machine: Machine, queue: Seq<i16>, n: nat)
    requires
        machine.inbox == Some(queue),
        n <= queue.len(),
    ensures
        take_many(machine, n) matches Ok(after) && after.inbox == Some(queue.skip(n as int))
            && after.cursor == machine.cursor + n && (n > 0 ==> after.hand == Some(
            queue[n - 1],
        )),
        n == queue.len() ==> take_many(machine, n).unwrap().take_inbox() == Err::<
            Machine,
            InterpreterErrorKind,
        >(InterpreterErrorKind::EmptyInBox),
    decreases n,
{
    if n == 0 {
        assert(queue.skip(0) =~= queue);
    } else {
        let next = machine.take_inbox().unwrap();
        law_inbox_order(next, queue.skip(1), (n - 1) as nat);
        assert(queue.skip(1).skip(n - 1) =~= queue.skip(n as int));
    }
}

/// `inbox` fails with `UndefinedInputBox` where no input was given, and with `EmptyInBox`
/// where the queue is used up.
pub proof fn law_inbox_failures(machine: Machine)
    ensures
        machine.inbox is None ==> machine.take_inbox() == Err::<Machine, InterpreterErrorKind>(
            InterpreterErrorKind::UndefinedInputBox,
        ),
        machine.inbox matches Some(queue) && queue.len() == 0 ==> machine.take_inbox() == Err::<
            Machine,
            InterpreterErrorKind,
        >(InterpreterErrorKind::EmptyInBox),
{
}

/// `outbox` with an empty hand fails with `EmptyHandValue`. With a value in the hand it
/// adds the line of that value, and nothing else, to what is printed, and leaves the hand
/// empty.
pub proof fn law_outbox(machine: Machine)
    ensures
        machine.hand is None ==> machine.give_outbox() == Err::<Machine, InterpreterErrorKind>(
            InterpreterErrorKind::EmptyHandValue,
        ),
        machine.hand matches Some(value) ==> {
            &&& machine.give_outbox() matches Ok(next)
            &&& next.hand is None
            &&& next.outbox == machine.outbox.push(value)
            &&& output_text(next.outbox) == output_text(machine.outbox) + output_line(value)
        },
{
    if machine.hand is Some {
        let value = machine.hand.unwrap();
        assert(machine.outbox.push(value).drop_last() =~= machine.outbox);
    }
}

/// `copyto` with an empty hand fails with `EmptyHandValue`. Where it succeeds, a
/// `copyfrom` of the same cell that follows puts the same value in the hand and leaves
/// the floor as it is.
pub proof fn law_copy_to_then_from(machine: Machine, index: usize)
    ensures
        machine.hand is None ==> machine.copy_to(index) == Err::<Machine, InterpreterErrorKind>(
            InterpreterErrorKind::EmptyHandValue,
        ),
        machine.copy_to(index) matches Ok(stored) ==> {
            &&& stored.hand == machine.hand
            &&& stored.cells[index as int] == machine.hand
            &&& stored.copy_from(index) matches Ok(read)
            &&& read.hand == machine.hand
            &&& read.cells == stored.cells
        },
{
}

/// `copyfrom` of an empty cell fails with `EmptyFloorValue`, whatever the hand holds.
pub proof fn law_copy_from_empty_cell(machine: Machine, index: usize)
    requires
        index < machine.cells.len(),
        machine.cells[index as int] is None,
    ensures
        machine.copy_from(index) == Err::<Machine, InterpreterErrorKind>(
            InterpreterErrorKind::EmptyFloorValue,
        ),
{
}

/// `add` and `sub` on an empty cell fail with `EmptyFloorValue`, whatever the hand holds;
/// on a cell with a value and with an empty hand they fail with `EmptyHandValue`.
/// Otherwise the hand takes the sum, or the difference, wrapped to 16 bits, and the floor
/// stays as it is.
pub proof fn law_add_sub(machine: Machine, index: usize, sign: int)
    requires
        index < machine.cells.len(),
        sign == 1 || sign == -1,
    ensures
        machine.cells[index as int] is None ==> machine.combine(index, sign) == Err::<
            Machine,
            InterpreterErrorKind,
        >(InterpreterErrorKind::EmptyFloorValue),
        machine.cells[index as int] is Some && machine.hand is None ==> machine.combine(
            index,
            sign,
        ) == Err::<Machine, InterpreterErrorKind>(InterpreterErrorKind::EmptyHandValue),
        machine.cells[index as int] is Some && machine.hand is Some ==> {
            &&& machine.combine(index, sign) matches Ok(next)
            &&& next.hand == Some(
                wrap16(machine.hand.unwrap() + sign * machine.cells[index as int].unwrap()),
            )
            &&& next.cells == machine.cells
        },
{
}

/// `bump_plus` and `bump_minus` on an empty cell fail with `EmptyFloorValue`. Otherwise
/// the cell's value changes by just 1, but for the wrap at the ends of the 16-bit range,
/// the hand takes the new value and no other cell changes.
pub proof fn law_bump(machine: Machine, index: usize, delta: i16)
    requires
        index < machine.cells.len(),
        delta == 1 || delta == -1,
    ensures
        machine.cells[index as int] is None ==> machine.bump(index, delta) == Err::<
            Machine,
            InterpreterErrorKind,
        >(InterpreterErrorKind::EmptyFloorValue),
        machine.cells[index as int] matches Some(cell) ==> {
            &&& machine.bump(index, delta) matches Ok(next)
            &&& next.cells[index as int] == next.hand
            &&& next.hand matches Some(value)
            &&& i16::MIN <= cell + delta <= i16::MAX ==> value == cell + delta
            &&& cell + delta > i16::MAX ==> value == i16::MIN
            &&& cell + delta < i16::MIN ==> value == i16::MAX
            &&& forall|other: int|
                0 <= other < machine.cells.len() && other != index ==> next.cells[other]
                    == machine.cells[other]
        },
{
}

/// An instruction that names a cell which the floor does not have fails with
/// `CellIndexOutOfRange`, but for a `copyto` with an empty hand.
pub proof fn law_cell_out_of_range(machine: Machine, index: usize, sign: int, delta: i16)
    requires
        index >= machine.cells.len(),
    ensures
        machine.copy_from(index) == Err::<Machine, InterpreterErrorKind>(
            InterpreterErrorKind::CellIndexOutOfRange,
        ),
        machine.hand is Some ==> machine.copy_to(index) == Err::<Machine, InterpreterErrorKind>(
            InterpreterErrorKind::CellIndexOutOfRange,
        ),
        machine.combine(index, sign) == Err::<Machine, InterpreterErrorKind>(
            InterpreterErrorKind::CellIndexOutOfRange,
        ),
        machine.bump(index, delta) == Err::<Machine, InterpreterErrorKind>(
            InterpreterErrorKind::CellIndexOutOfRange,
        ),
{
}

/// `jump_if_zero` jumps if and only if the hand holds 0, and `jump_if_neg` if and only if
/// the hand holds a value below 0; else each goes on to the next instruction. Neither
/// changes anything but the cursor.
pub proof fn law_conditional_jumps(machine: Machine, at: usize)
    ensures
        machine.jump_if_zero(at) == if machine.hand == Some(0i16) {
            machine.jump(at)
        } else {
            Ok::<Machine, InterpreterErrorKind>(machine.forward())
        },
        machine.jump_if_neg(at) == if machine.hand matches Some(value) && value < 0 {
            machine.jump(at)
        } else {
            Ok::<Machine, InterpreterErrorKind>(machine.forward())
        },
        machine.jump_if_zero(at) matches Ok(next) ==> next == (Machine {
            cursor: next.cursor,
            ..machine
        }),
        machine.jump_if_neg(at) matches Ok(next) ==> next == (Machine {
            cursor: next.cursor,
            ..machine
        }),
{
}

/// In a well-formed machine the jump under the cursor leads to a `jump_target` that
/// carries its label: no jump fails while a program runs.
pub proof fn law_jump_is_resolved(machine: Machine)
    requires
        machine.wf(),
        machine.running(),
        jump_label(machine.program[machine.cursor].value) is Some,
    ensures
        machine.jump(machine.cursor as usize) matches Ok(next) && 0 <= next.cursor
            < machine.program.len() && machine.program[next.cursor].value
            == Instruction::JumpTarget(jump_label(machine.program[machine.cursor].value).unwrap()),
{
    lemma_first_dangling(machine.program, 0);
    assert(!dangling(machine.program, machine.cursor));
    law_target(machine.program, jump_label(machine.program[machine.cursor].value).unwrap());
    assert(destination(machine.program, machine.cursor as usize as int) is Some);
}

/// A step of a well-formed machine gives a well-formed machine, which has executed one
/// instruction more, and never fails with `UnexistedJumpTarget` or `EmptyInBox`.
pub proof fn law_step(machine: Machine)
    requires
        machine.wf(),
    ensures
        machine.step() matches Ok(Some(next)) ==> next.wf() && next.steps == machine.steps + 1
            && next.program == machine.program && machine.steps < machine.step_limit,
        machine.step() matches Err(error) ==> error.value
            != InterpreterErrorKind::UnexistedJumpTarget && error.value
            != InterpreterErrorKind::EmptyInBox && error.location
            == machine.program[machine.cursor].location,
{
    if machine.running() && jump_label(machine.program[machine.cursor].value) is Some {
        law_jump_is_resolved(machine);
    }
}

/// A run of a well-formed machine ends in a well-formed machine with the same program. It
/// ends well only at the end of the program or at an `inbox` with the queue used up, and
/// in failure only with the error of the step that the machine it ends in would take.
pub proof fn law_run(machine: Machine)
    requires
        machine.wf(),
    ensures
        machine.run().0.wf(),
        machine.run().0.program == machine.program,
        machine.run().1 matches Ok(status) ==> status == 0 && machine.run().0.step() == Ok::<
            Option<Machine>,
            Annotation<InterpreterErrorKind>,
        >(None),
        machine.run().1 matches Err(error) ==> machine.run().0.step() == Err::<
            Option<Machine>,
            Annotation<InterpreterErrorKind>,
        >(error),
    decreases machine.step_limit - machine.steps,
{
    law_step(machine);
    match machine.step() {
        Ok(Some(next)) => {
            law_run(next);
        },
        _ => {},
    }
}

/// No character of the class is left out: each one from `pos` on lies in one of the runs.
pub proof fn law_runs_cover(text: Seq<char>, class: CharClass, pos: int, at: int)
    requires
        0 <= pos <= at < text.len() <= usize::MAX,
        class.holds(text[at]),
    ensures
        exists|k: int|
            0 <= k < runs_from(text, class, pos).len() && (#[trigger] runs_from(
                text,
                class,
                pos,
            )[k]).start <= at < runs_from(text, class, pos)[k].end,
    decreases text.len() - pos,
{
    let all = runs_from(text, class, pos);
    if !class.holds(text[pos]) {
        law_runs_cover(text, class, pos + 1, at);
    } else {
        let end = run_end(text, class, pos);
        lemma_run_end(text, class, pos);
        let rest = runs_from(text, class, end);
        assert(all == seq![Span { start: pos as usize, end: end as usize }] + rest);
        if at < end {
            assert(all[0].start <= at < all[0].end);
        } else {
            law_runs_cover(text, class, end, at);
            let k = choose|k: int|
                0 <= k < rest.len() && (#[trigger] rest[k]).start <= at < rest[k].end;
            assert(all[k + 1] == rest[k]);
        }
    }
}

/// The digits that a number is written with are digits, and are worth the number.
pub proof fn law_digits_value(n: nat)
    ensures
        all_digits(decimal_digits(n)),
        decimal_value(decimal_digits(n)) == n,
        decimal_digits(n).len() > 0,
    decreases n,
{
    if n < 10 {
        let digits = decimal_digits(n);
        assert(digits.drop_last() =~= Seq::<char>::empty());
        assert(decimal_value(digits.drop_last()) == 0);
        assert(digit_value(digits.last()) == n);
    } else {
        law_digits_value(n / 10);
        let front = decimal_digits(n / 10);
        let last = digit_char((n % 10) as int);
        assert(front.push(last).drop_last() =~= front);
        assert(digit_value(front.push(last).last()) == n % 10);
        assert(decimal_value(front.push(last)) == 10 * decimal_value(front) + n % 10);
        assert forall|i: int| 0 <= i < front.push(last).len() implies is_digit(
            #[trigger] front.push(last)[i],
        ) by {
            if i < front.len() {
                assert(is_digit(front[i]));
            }
        }
    }
}

/// A stretch of digits that ends at a character which is none, or at the end of the text,
/// is one run.
proof fn lemma_digit_run(text: Seq<char>, start: int, end: int)
    requires
        0 <= start <= end <= text.len(),
        forall|i: int| start <= i < end ==> is_digit(#[trigger] text[i]),
        end < text.len() ==> !is_digit(text[end]),
    ensures
        run_end(text, CharClass::Digit, start) == end,
    decreases end - start,
{
    if start < end {
        assert(is_digit(text[start]));
        lemma_digit_run(text, start + 1, end);
    }
}

/// What the machine prints, it reads back: the line of a value, taken as an input stream,
/// holds that value and no other.
pub proof fn law_output_reads_back(value: i16)
    ensures
        numbers(output_line(value)) == seq![value],
{
    let text = output_line(value);
    let magnitude: nat = if value < 0 {
        (-value) as nat
    } else {
        value as nat
    };
    let digits = decimal_digits(magnitude);
    law_digits_value(magnitude);
    assert(digits.len() <= 5) by {
        reveal_with_fuel(decimal_digits, 6);
    }
    let start: int = if value < 0 {
        1
    } else {
        0
    };
    let end = start + digits.len();
    assert(text.len() == end + 1);
    assert(text[end] == '\n');
    assert forall|i: int| start <= i < end implies is_digit(#[trigger] text[i]) by {
        assert(text[i] == digits[i - start]);
    }
    lemma_digit_run(text, start, end);
    let span = Span { start: start as usize, end: end as usize };
    assert(span.of(text) =~= digits);
    assert(runs_from(text, CharClass::Digit, end + 1) =~= Seq::<Span>::empty());
    assert(runs_from(text, CharClass::Digit, end) =~= Seq::<Span>::empty());
    assert(runs_from(text, CharClass::Digit, start) =~= seq![span]);
    if value < 0 {
        assert(text[0] == '-');
        assert(runs_from(text, CharClass::Digit, 0) == runs_from(text, CharClass::Digit, 1));
    }
    assert(runs(text, CharClass::Digit) =~= seq![span]);
    assert(number_at(text, span) == value);
    assert(numbers(text) =~= seq![value]);
}

} // verus!
