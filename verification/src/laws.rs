//! What holds of every machine and of every source: laws of the engine and of
//! the loader, proved from the definitions of the state and loader modules.

#![allow(unused_imports)]

use vstd::prelude::*;
use crate::event::{EventView, Fault};
use crate::loader::{
    assemble,
    decode,
    emits,
    first_operand,
    instruction_count,
    label_name,
    line_kind,
    scan_labels,
    LineKind,
};
use crate::opcode::{Instruction, Opcode};
use crate::state::{
    branch_taken,
    execute,
    is_branch,
    is_register,
    run_from,
    status,
    State,
    Status,
};
use crate::text::{trim, words};
use crate::word::wrap32;

verus! {

/// A run of `m + n` steps is a run of `m` steps followed by a run of `n`
/// steps: the host may run a program in pieces.
pub proof fn lemma_run_in_pieces(s: State, m: nat, n: nat)
    ensures
        run_from(s, m + n) == run_from(run_from(s, m), n),
    decreases m,
{
    if m == 0 {
    } else if status(s) != Status::Ready {
        assert(run_from(s, m) == s);
        lemma_run_stays(s, n);
        lemma_run_stays(s, m + n);
    } else {
        lemma_run_in_pieces(execute(s), (m - 1) as nat, n);
        assert(((m - 1) as nat) + n == (m + n - 1) as nat);
    }
}

/// A machine that is not ready does not move, however many steps it is given.
pub proof fn lemma_run_stays(s: State, n: nat)
    requires
        status(s) != Status::Ready,
    ensures
        run_from(s, n) == s,
{
}

/// A run ends in a machine that is not ready, unless the steps ran out.
pub proof fn lemma_run_ends(s: State, n: nat)
    ensures
        status(run_from(s, n)) == Status::Ready ==> forall|m: nat|
            m <= n ==> status(#[trigger] run_from(s, m)) == Status::Ready,
    decreases n,
{
    if n == 0 || status(s) != Status::Ready {
        assert forall|m: nat| m <= n implies run_from(s, m) == s by {}
    } else {
        lemma_run_ends(execute(s), (n - 1) as nat);
        if status(run_from(s, n)) == Status::Ready {
            assert forall|m: nat| m <= n implies status(#[trigger] run_from(s, m))
                == Status::Ready by {
                if m > 0 {
                    assert(run_from(s, m) == run_from(execute(s), (m - 1) as nat));
                }
            }
        }
    }
}

/// An instruction leaves a well-formed machine well formed, and puts no
/// value outside the memory.
pub proof fn lemma_execute_keeps_shape(s: State)
    requires
        s.well_formed(),
        status(s) == Status::Ready,
    ensures
        execute(s).well_formed(),
        s.memory_in_bounds() ==> execute(s).memory_in_bounds(),
{
}

/// So does a run: from a machine as it is made, no run ever puts a value
/// outside the memory.
pub proof fn lemma_run_keeps_shape(s: State, fuel: nat)
    requires
        s.well_formed(),
    ensures
        run_from(s, fuel).well_formed(),
        s.memory_in_bounds() ==> run_from(s, fuel).memory_in_bounds(),
    decreases fuel,
{
    if fuel > 0 && status(s) == Status::Ready {
        lemma_execute_keeps_shape(s);
        lemma_run_keeps_shape(execute(s), (fuel - 1) as nat);
    }
}

/// The program that pushes `a`, pushes `b`, adds and prints: a run of it, on
/// a machine that stands at its start, prints the sum once and nothing else,
/// leaves the stack as it was, and ends at the end of the program. The sum is
/// `a + b` itself where that fits in 32 bits.
pub proof fn lemma_sum_is_printed_once(s: State, a: i32, b: i32, fuel: nat)
    requires
        s.program == seq![
            (Opcode::PSH, Some(a), None::<i32>),
            (Opcode::PSH, Some(b), None::<i32>),
            (Opcode::ADD, None::<i32>, None::<i32>),
            (Opcode::PPT, None::<i32>, None::<i32>),
        ],
        s.pc == 0,
        s.running,
        fuel >= 4,
    ensures
        run_from(s, fuel).output == s.output.push(EventView::Print(wrap32(a + b))),
        i32::MIN <= a + b <= i32::MAX ==> run_from(s, fuel).output == s.output.push(
            EventView::Print((a + b) as i32),
        ),
        run_from(s, fuel).stack == s.stack,
        run_from(s, fuel).pc == 4,
        status(run_from(s, fuel)) == Status::Halted,
{
    let s1 = execute(s);
    assert(s1 == s.push(a).advance());
    let s2 = execute(s1);
    assert(s2 == s1.push(b).advance());
    let s3 = execute(s2);
    assert(s2.stack.len() >= 2);
    assert(s2.top() == b && s2.second() == a);
    assert(s3.stack == s.stack.push(wrap32(a + b)));
    let s4 = execute(s3);
    assert(s4.stack == s.stack);
    assert(s4.output == s.output.push(EventView::Print(wrap32(a + b))));
    assert(status(s4) == Status::Halted);
    assert(run_from(s, 4) == s4) by {
        reveal_with_fuel(run_from, 5);
    }
    lemma_run_in_pieces(s, 4, (fuel - 4) as nat);
    lemma_run_stays(s4, (fuel - 4) as nat);
}

/// A division or remainder on the stack whose divisor, on top, is zero takes
/// its two operands, pushes nothing, reports the division by zero, and goes
/// on with the next instruction.
pub proof fn lemma_division_by_zero(s: State)
    requires
        status(s) == Status::Ready,
        s.instruction().0 == Opcode::DIV || s.instruction().0 == Opcode::MOD,
        s.instruction().2 is None,
        s.stack.len() >= 2,
        s.top() == 0,
    ensures
        execute(s).pc == s.pc + 1,
        execute(s).stack == s.stack.take(s.stack.len() - 2),
        execute(s).output == s.output.push(
            EventView::Error(s.instruction().0, Fault::DivisionByZero),
        ),
        execute(s).running,
        execute(s).memory == s.memory,
        execute(s).registers == s.registers,
{
}

/// Setting a register from the stack and getting the same register at once
/// leaves the stack as it was.
pub proof fn lemma_set_then_get(s: State, r: i32)
    requires
        s.well_formed(),
        status(s) == Status::Ready,
        s.instruction() == (Opcode::SET, Some(r), s.instruction().2),
        s.pc + 1 < s.program.len(),
        s.program[s.pc + 1] == (Opcode::GET, Some(r), s.program[s.pc + 1].2),
        s.stack.len() > 0,
    ensures
        status(execute(s)) == Status::Ready,
        execute(execute(s)).stack == s.stack,
        execute(execute(s)).registers == s.registers.update(r as int, s.top()),
        execute(execute(s)).pc == s.pc + 2,
{
    let s1 = execute(s);
    assert(is_register(r));
    assert(s1.stack == s.stack.take(s.stack.len() - 1));
    assert(s1.registers[r as int] == s.top());
    assert(execute(s1).stack =~= s.stack);
}

/// After a move, the source register holds zero: getting it pushes 0.
pub proof fn lemma_move_then_get(s: State, from: i32, to: i32)
    requires
        s.well_formed(),
        status(s) == Status::Ready,
        s.instruction() == (Opcode::MOV, Some(from), Some(to)),
        s.pc + 1 < s.program.len(),
        s.program[s.pc + 1] == (Opcode::GET, Some(from), s.program[s.pc + 1].2),
    ensures
        status(execute(s)) == Status::Ready,
        execute(execute(s)).stack == s.stack.push(0),
        from != to ==> execute(s).registers[to as int] == s.registers[from as int],
{
}

/// After a copy, the source register holds what it held: getting it pushes
/// the value that was copied, and the destination holds it too.
pub proof fn lemma_copy_then_get(s: State, from: i32, to: i32)
    requires
        s.well_formed(),
        status(s) == Status::Ready,
        s.instruction() == (Opcode::COP, Some(from), Some(to)),
        s.pc + 1 < s.program.len(),
        s.program[s.pc + 1] == (Opcode::GET, Some(from), s.program[s.pc + 1].2),
    ensures
        status(execute(s)) == Status::Ready,
        execute(execute(s)).stack == s.stack.push(s.registers[from as int]),
        execute(s).registers[to as int] == s.registers[from as int],
{
}

/// Clearing a stack that is empty already reports an error and changes
/// nothing else: the machine goes on with the next instruction as if the
/// clear had not been there.
pub proof fn lemma_clear_empty_stack(s: State)
    requires
        status(s) == Status::Ready,
        s.instruction().0 == Opcode::SCL,
        s.stack.len() == 0,
    ensures
        execute(s) == s.fail(Opcode::SCL, Fault::AlreadyEmpty).advance(),
        execute(s).without_output() == s.advance().without_output(),
        status(execute(s)) == status(s.advance()),
{
}

/// A conditional jump looks at the top of the stack and leaves the stack as
/// it is, whether it jumps or not.
pub proof fn lemma_branch_keeps_stack(s: State)
    requires
        status(s) == Status::Ready,
        is_branch(s.instruction().0),
    ensures
        execute(s).stack == s.stack,
        !(s.stack.len() > 0 && branch_taken(s.instruction().0, s.top()))
            ==> execute(s) == s.advance(),
{
}

/// Every instruction but a jump that is taken goes on with the next
/// instruction, and a diagnosed fault never stops the machine: only the halt
/// instruction does.
pub proof fn lemma_execute_goes_on(s: State)
    requires
        status(s) == Status::Ready,
    ensures
        execute(s).running == (s.instruction().0 != Opcode::HLT),
        execute(s).program == s.program,
        execute(s).labels == s.labels,
        s.instruction().0 != Opcode::JMP && !is_branch(s.instruction().0)
            ==> execute(s).pc == s.pc + 1,
{
}

/// The second pass works line by line: the program of two sources put
/// together is the two programs put together.
pub proof fn lemma_assemble_concat(
    first: Seq<Seq<char>>,
    second: Seq<Seq<char>>,
    labels: Map<Seq<char>, usize>,
)
    ensures
        assemble(first + second, labels) == assemble(first, labels) + assemble(second, labels),
    decreases second.len(),
{
    if second.len() == 0 {
        assert(first + second == first);
        assert(assemble(first, labels) + Seq::<Instruction>::empty() == assemble(first, labels));
    } else {
        let all = first + second;
        assert(all.drop_last() == first + second.drop_last());
        assert(all.last() == second.last());
        lemma_assemble_concat(first, second.drop_last(), labels);
        if emits(second.last()) {
            let ins = decode(second.last(), labels)->0;
            assert((assemble(first, labels) + assemble(second.drop_last(), labels)).push(ins)
                == assemble(first, labels) + assemble(second.drop_last(), labels).push(ins));
        }
    }
}

/// The instruction that an instruction line puts into the program stands at
/// the index that is the number of instructions that the lines above it put
/// there.
pub proof fn lemma_instruction_position(
    lines: Seq<Seq<char>>,
    labels: Map<Seq<char>, usize>,
    at: int,
)
    requires
        0 <= at < lines.len(),
        emits(lines[at]),
    ensures
        assemble(lines.take(at), labels).len() < assemble(lines, labels).len(),
        assemble(lines, labels)[assemble(lines.take(at), labels).len() as int] == decode(
            lines[at],
            labels,
        )->0,
{
    let above = lines.take(at);
    let here = seq![lines[at]];
    let below = lines.skip(at + 1);
    assert(lines == above + here + below);
    lemma_assemble_concat(above + here, below, labels);
    lemma_assemble_concat(above, here, labels);
    assert(here.drop_last() == Seq::<Seq<char>>::empty());
    assert(here.last() == lines[at]);
    assert(assemble(here, labels) == seq![decode(lines[at], labels)->0]) by {
        reveal_with_fuel(assemble, 2);
        assert(assemble(here.drop_last(), labels) == Seq::<Instruction>::empty());
    }
}

/// The number that the first pass counts is the number of instructions that
/// the second pass makes, whatever the label table: both passes count the
/// same lines.
pub proof fn lemma_count_is_position(lines: Seq<Seq<char>>, labels: Map<Seq<char>, usize>)
    ensures
        instruction_count(lines) == assemble(lines, labels).len(),
    decreases lines.len(),
{
    if lines.len() > 0 {
        lemma_count_is_position(lines.drop_last(), labels);
    }
}

/// No more instructions are counted than there are lines.
pub proof fn lemma_instruction_count_bound(lines: Seq<Seq<char>>)
    ensures
        instruction_count(lines) <= lines.len(),
    decreases lines.len(),
{
    if lines.len() > 0 {
        lemma_instruction_count_bound(lines.drop_last());
    }
}

/// Lines that put nothing into the program do not move what follows them:
/// the program of the lines above `to` is the program of the lines above
/// `from`, where no line from `from` up to `to` puts an instruction there.
pub proof fn lemma_silent_lines(
    lines: Seq<Seq<char>>,
    labels: Map<Seq<char>, usize>,
    from: int,
    to: int,
)
    requires
        0 <= from <= to <= lines.len(),
        forall|j: int| from <= j < to ==> !emits(#[trigger] lines[j]),
    ensures
        assemble(lines.take(to), labels) == assemble(lines.take(from), labels),
    decreases to - from,
{
    if from < to {
        lemma_silent_lines(lines, labels, from, to - 1);
        assert(lines.take(to).drop_last() == lines.take(to - 1));
        assert(lines.take(to).last() == lines[to - 1]);
    }
}

/// The first pass binds a label to its position in the program: the number
/// of instructions that the lines above the label's line put there, where
/// no line below binds the same name again. This holds of every source, and
/// whatever the label table with which the program is made.
pub proof fn lemma_label_binding(
    lines: Seq<Seq<char>>,
    table: Map<Seq<char>, usize>,
    labels: Map<Seq<char>, usize>,
    at: int,
)
    requires
        lines.len() <= usize::MAX,
        0 <= at < lines.len(),
        line_kind(lines[at]) == LineKind::Label,
        forall|j: int|
            at < j < lines.len() && line_kind(#[trigger] lines[j]) == LineKind::Label
                ==> label_name(lines[j]) != label_name(lines[at]),
    ensures
        scan_labels(lines, table).contains_key(label_name(lines[at])),
        scan_labels(lines, table)[label_name(lines[at])] == assemble(lines.take(at), labels).len(),
        assemble(lines.take(at), labels).len() <= assemble(lines, labels).len(),
    decreases lines.len(),
{
    let rest = lines.drop_last();
    lemma_count_is_position(lines.take(at), labels);
    lemma_instruction_count_bound(lines.take(at));
    assert(lines == lines.take(at) + lines.skip(at));
    lemma_assemble_concat(lines.take(at), lines.skip(at), labels);
    if at == lines.len() - 1 {
        assert(lines.last() == lines[at]);
        assert(rest == lines.take(at));
    } else {
        assert(rest[at] == lines[at]);
        assert forall|j: int|
            at < j < rest.len() && line_kind(#[trigger] rest[j])
                == LineKind::Label implies label_name(rest[j]) != label_name(rest[at]) by {
            assert(rest[j] == lines[j]);
        }
        lemma_label_binding(rest, table, labels, at);
        assert(rest.take(at) == lines.take(at));
        assert(lines.last() == lines[lines.len() - 1]);
    }
}

/// A label stands for the instruction that follows it: where the line at
/// `next` is the first below the label's line that puts an instruction into
/// the program, the label is bound to the index at which that instruction
/// stands in the program.
pub proof fn lemma_label_is_next_instruction(
    lines: Seq<Seq<char>>,
    table: Map<Seq<char>, usize>,
    labels: Map<Seq<char>, usize>,
    at: int,
    next: int,
)
    requires
        lines.len() <= usize::MAX,
        0 <= at < next < lines.len(),
        line_kind(lines[at]) == LineKind::Label,
        emits(lines[next]),
        forall|j: int| at <= j < next ==> !emits(#[trigger] lines[j]),
        forall|j: int|
            at < j < lines.len() && line_kind(#[trigger] lines[j]) == LineKind::Label
                ==> label_name(lines[j]) != label_name(lines[at]),
    ensures
        ({
            let index = scan_labels(lines, table)[label_name(lines[at])] as int;
            &&& 0 <= index < assemble(lines, labels).len()
            &&& assemble(lines, labels)[index] == decode(lines[next], labels)->0
        }),
{
    lemma_label_binding(lines, table, labels, at);
    lemma_silent_lines(lines, labels, at, next);
    lemma_instruction_position(lines, labels, next);
}

/// A reference to a label resolves to the label's position in the program
/// wherever the referring line stands, above the label's line or below it:
/// the instruction of a line whose second word is the label's name has as
/// its first operand the number of instructions that the lines above the
/// label's line put into the program.
pub proof fn lemma_reference_resolves(
    lines: Seq<Seq<char>>,
    table: Map<Seq<char>, usize>,
    from: int,
    to: int,
)
    requires
        lines.len() <= usize::MAX,
        0 <= from < lines.len(),
        0 <= to < lines.len(),
        emits(lines[from]),
        line_kind(lines[to]) == LineKind::Label,
        words(trim(lines[from])).len() >= 2,
        words(trim(lines[from]))[1] == label_name(lines[to]),
        forall|j: int|
            to < j < lines.len() && line_kind(#[trigger] lines[j]) == LineKind::Label
                ==> label_name(lines[j]) != label_name(lines[to]),
    ensures
        ({
            let labels = scan_labels(lines, table);
            let program = assemble(lines, labels);
            let index = assemble(lines.take(from), labels).len() as int;
            let target = assemble(lines.take(to), labels).len() as int;
            &&& index < program.len()
            &&& target <= program.len()
            &&& program[index].1 == Some(wrap32(target))
        }),
{
    let labels = scan_labels(lines, table);
    lemma_label_binding(lines, table, labels, to);
    lemma_instruction_position(lines, labels, from);
    let instruction = decode(lines[from], labels)->0;
    assert(instruction.1 == first_operand(words(trim(lines[from])), labels));
}

} // verus!
