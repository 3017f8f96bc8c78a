//! The machine as a mathematical value, and what each instruction does to it.
//!
//! `execute` is the meaning of one instruction; `status` says whether the
//! machine can execute the instruction at its program counter by itself;
//! `run_from` is the meaning of a bounded run.

#![allow(unused_imports)]

use vstd::prelude::*;
use crate::event::{EventView, Fault, SnapshotView};
use crate::loader::{assemble, scan_labels};
use crate::number::{decimal_text, parse_i32};
use crate::opcode::{Instruction, Opcode};
use crate::text::trim;
use crate::word::{trunc_div, trunc_rem, wrap32};

verus! {

/// How many registers the machine has.
pub const REGISTER_COUNT: usize = 8;

/// How many addresses the memory has.
pub const MAX_MEMORY_SIZE: usize = 1048576;

/// The state of a machine.
#[verifier::ext_equal]
pub struct State {
    /// The operand stack, bottom first.
    pub stack: Seq<i32>,
    /// The memory: the addresses that were stored to, with their values.
    pub memory: Map<usize, i32>,
    /// The registers.
    pub registers: Seq<i32>,
    /// The program.
    pub program: Seq<Instruction>,
    /// The program counter: the index of the next instruction.
    pub pc: int,
    /// Whether the machine is running.
    pub running: bool,
    /// The label table.
    pub labels: Map<Seq<char>, usize>,
    /// The events produced and not yet taken by the host, oldest first.
    pub output: Seq<EventView>,
}

/// What the machine can do next.
#[derive(Debug, Clone, Copy, PartialEq, Eq, Structural)]
pub enum Status {
    /// It can execute the instruction at the program counter.
    Ready,
    /// It has stopped: a halt instruction was executed, the program counter
    /// has left the program, or the run was never started.
    Halted,
    /// The instruction at the program counter reads a line from the console.
    AwaitingInput,
    /// The instruction at the program counter reads the clock.
    AwaitingTime,
    /// The instruction at the program counter names a register that does not
    /// exist, and is not one that diagnoses this itself. The machine cannot
    /// go on.
    BadRegister,
}

/// Whether `r` is the index of a register.
pub open spec fn is_register(r: i32) -> bool {
    0 <= r < REGISTER_COUNT
}

/// Whether `address` is an address of the memory.
pub open spec fn is_address(address: i32) -> bool {
    0 <= address < MAX_MEMORY_SIZE
}

/// Whether `v` is the code of a character.
pub open spec fn is_char_code(v: i32) -> bool {
    0 <= v <= 0xD7FF || 0xE000 <= v <= 0x10FFFF
}

/// The first operand where the second one is present: an absent first
/// operand counts as zero.
pub open spec fn or_zero(operand: Option<i32>) -> i32 {
    match operand {
        Some(v) => v,
        None => 0,
    }
}

/// 1 for true, 0 for false.
pub open spec fn truth(b: bool) -> i32 {
    if b {
        1
    } else {
        0
    }
}

/// Whether `op` is one of the four conditional jumps.
pub open spec fn is_branch(op: Opcode) -> bool {
    op == Opcode::JEZ || op == Opcode::JNZ || op == Opcode::JGZ || op == Opcode::JLZ
}

/// The result of an arithmetic opcode on `left` and `right`; `None` where it
/// divides by zero. Results outside the 32-bit range wrap around. No other
/// opcode has a result.
pub open spec fn compute(op: Opcode, left: i32, right: i32) -> Option<i32> {
    match op {
        Opcode::ADD => Some(wrap32(left + right)),
        Opcode::SUB => Some(wrap32(left - right)),
        Opcode::MUL => Some(wrap32(left * right)),
        Opcode::DIV => if right == 0 {
            None
        } else {
            Some(wrap32(trunc_div(left as int, right as int)))
        },
        Opcode::MOD => if right == 0 {
            None
        } else {
            Some(wrap32(trunc_rem(left as int, right as int)))
        },
        _ => None,
    }
}

/// Whether the comparison `op` holds of `a` and `b`, in this order. No other
/// opcode holds of anything.
pub open spec fn compare(op: Opcode, a: int, b: int) -> bool {
    match op {
        Opcode::EQU => a == b,
        Opcode::NEQ => a != b,
        Opcode::GTH => a > b,
        Opcode::LTH => a < b,
        Opcode::GTE => a >= b,
        Opcode::LTE => a <= b,
        _ => false,
    }
}

/// Whether the conditional jump `op` is taken when `v` is on top of the
/// stack. No other opcode is taken.
pub open spec fn branch_taken(op: Opcode, v: i32) -> bool {
    match op {
        Opcode::JEZ => v == 0,
        Opcode::JNZ => v != 0,
        Opcode::JGZ => v > 0,
        Opcode::JLZ => v < 0,
        _ => false,
    }
}

impl State {
    /// A machine as it is made: everything empty, every register zero, not
    /// running.
    pub open spec fn fresh() -> State {
        State {
            stack: Seq::empty(),
            memory: Map::empty(),
            registers: Seq::new(REGISTER_COUNT as nat, |i: int| 0i32),
            program: Seq::empty(),
            pc: 0,
            running: false,
            labels: Map::empty(),
            output: Seq::empty(),
        }
    }

    /// Whether the state is one that a machine can be in.
    pub open spec fn well_formed(self) -> bool {
        &&& self.registers.len() == REGISTER_COUNT
        &&& 0 <= self.pc <= usize::MAX
        &&& self.program.len() <= usize::MAX
        &&& self.memory.dom().finite()
    }

    /// Whether every address that holds a value is an address of the memory.
    pub open spec fn memory_in_bounds(self) -> bool {
        forall|address: usize| self.memory.contains_key(address) ==> address < MAX_MEMORY_SIZE
    }

    /// The same machine with `program` loaded, ready at its first instruction.
    pub open spec fn load(self, program: Seq<Instruction>) -> State {
        State { program, pc: 0, ..self }
    }

    /// The same machine with the label `name` bound to `target`.
    pub open spec fn bind(self, name: Seq<char>, target: usize) -> State {
        State { labels: self.labels.insert(name, target), ..self }
    }

    /// The same machine after the source `lines` are loaded: their labels
    /// are added to the label table, and the program that they write with
    /// that table is loaded.
    pub open spec fn load_source(self, lines: Seq<Seq<char>>) -> State {
        let labels = scan_labels(lines, self.labels);
        State { labels, ..self }.load(assemble(lines, labels))
    }

    /// The same machine, running.
    pub open spec fn start(self) -> State {
        State { running: true, ..self }
    }

    /// The same machine, not running.
    pub open spec fn stop(self) -> State {
        State { running: false, ..self }
    }

    /// Whether the program counter is inside the program.
    pub open spec fn in_program(self) -> bool {
        0 <= self.pc < self.program.len()
    }

    /// The instruction at the program counter.
    pub open spec fn instruction(self) -> Instruction {
        self.program[self.pc]
    }

    /// The value on top of the stack.
    pub open spec fn top(self) -> i32 {
        self.stack[self.stack.len() - 1]
    }

    /// The value below the top of the stack.
    pub open spec fn second(self) -> i32 {
        self.stack[self.stack.len() - 2]
    }

    /// The program counter moved to the next instruction.
    pub open spec fn advance(self) -> State {
        State { pc: self.pc + 1, ..self }
    }

    /// The program counter moved to `target`.
    pub open spec fn jump(self, target: int) -> State {
        State { pc: target, ..self }
    }

    /// `v` pushed onto the stack.
    pub open spec fn push(self, v: i32) -> State {
        State { stack: self.stack.push(v), ..self }
    }

    /// The top `n` values removed from the stack.
    pub open spec fn drop_top(self, n: int) -> State {
        State { stack: self.stack.take(self.stack.len() - n), ..self }
    }

    /// Register `r` set to `v`.
    pub open spec fn set_register(self, r: int, v: i32) -> State {
        State { registers: self.registers.update(r, v), ..self }
    }

    /// `v` stored at `address`.
    pub open spec fn store(self, address: usize, v: i32) -> State {
        State { memory: self.memory.insert(address, v), ..self }
    }

    /// `e` added to the output.
    pub open spec fn emit(self, e: EventView) -> State {
        State { output: self.output.push(e), ..self }
    }

    /// A fault of `op` added to the output.
    pub open spec fn fail(self, op: Opcode, fault: Fault) -> State {
        self.emit(EventView::Error(op, fault))
    }

    /// The output taken away.
    pub open spec fn without_output(self) -> State {
        State { output: Seq::empty(), ..self }
    }

    /// What the debug instruction reports.
    pub open spec fn snapshot(self) -> SnapshotView {
        SnapshotView {
            pc: self.pc,
            stack: self.stack,
            memory: self.memory,
            registers: self.registers,
            labels: self.labels,
        }
    }
}

/// Arithmetic. With a second operand, the operands are register indices and
/// the result of the two registers is pushed. Without one, the two values on
/// top of the stack are replaced by their result; the one pushed first is the
/// left operand. A division by zero takes its operands and pushes nothing.
pub open spec fn arithmetic(s: State, op: Opcode, a: Option<i32>, b: Option<i32>) -> State {
    match b {
        Some(rb) => {
            let ra = or_zero(a);
            if is_register(ra) && is_register(rb) {
                match compute(op, s.registers[ra as int], s.registers[rb as int]) {
                    Some(v) => s.push(v).advance(),
                    None => s.fail(op, Fault::DivisionByZero).advance(),
                }
            } else {
                s.fail(op, Fault::InvalidRegister).advance()
            }
        },
        None => {
            if s.stack.len() < 2 {
                s.fail(op, Fault::StackUnderflow).advance()
            } else {
                match compute(op, s.second(), s.top()) {
                    Some(v) => s.drop_top(2).push(v).advance(),
                    None => s.drop_top(2).fail(op, Fault::DivisionByZero).advance(),
                }
            }
        },
    }
}

/// Comparison. Without a second operand, the two values on top of the stack
/// are replaced by 1 or 0: whether the comparison holds of the value popped
/// first and the value popped second. With one, the operands must be register
/// indices, and the comparison is made of the two indices themselves.
pub open spec fn comparison(s: State, op: Opcode, a: Option<i32>, b: Option<i32>) -> State {
    match b {
        Some(rb) => {
            let ra = or_zero(a);
            if is_register(ra) && is_register(rb) {
                s.push(truth(compare(op, ra as int, rb as int))).advance()
            } else {
                s.fail(op, Fault::InvalidRegister).advance()
            }
        },
        None => {
            if s.stack.len() < 2 {
                s.fail(op, Fault::StackUnderflow).advance()
            } else {
                s.drop_top(2).push(truth(compare(op, s.top() as int, s.second() as int))).advance()
            }
        },
    }
}

/// Increment and decrement, by `delta`: of a register where the operand
/// names one, else of the top of the stack.
pub open spec fn adjust(s: State, op: Opcode, a: Option<i32>, delta: int) -> State {
    match a {
        Some(r) => s.set_register(r as int, wrap32(s.registers[r as int] + delta)).advance(),
        None => {
            if s.stack.len() == 0 {
                s.fail(op, Fault::StackUnderflow).advance()
            } else {
                s.drop_top(1).push(wrap32(s.top() + delta)).advance()
            }
        },
    }
}

/// Store: pops a value and writes it at the operand's address. A value whose
/// address is absent or outside the memory is lost; only the latter is
/// diagnosed. An empty stack is left alone.
pub open spec fn store_top(s: State, a: Option<i32>) -> State {
    if s.stack.len() == 0 {
        s.advance()
    } else {
        match a {
            None => s.drop_top(1).advance(),
            Some(address) => {
                if is_address(address) {
                    s.drop_top(1).store(address as usize, s.top()).advance()
                } else {
                    s.drop_top(1).fail(Opcode::STR, Fault::AddressOutOfBounds).advance()
                }
            },
        }
    }
}

/// Load: pushes the value at the operand's address, where one was stored.
pub open spec fn load_value(s: State, a: Option<i32>) -> State {
    match a {
        Some(address) => {
            if address >= 0 && s.memory.contains_key(address as usize) {
                s.push(s.memory[address as usize]).advance()
            } else {
                s.advance()
            }
        },
        None => s.advance(),
    }
}

/// Move and copy between registers: the destination takes the source's
/// value; a move then sets the source to zero.
pub open spec fn transfer(s: State, op: Opcode, a: Option<i32>, b: Option<i32>) -> State {
    match b {
        Some(to) => {
            let from = or_zero(a);
            let copied = s.set_register(to as int, s.registers[from as int]);
            if op == Opcode::MOV {
                copied.set_register(from as int, 0).advance()
            } else {
                copied.advance()
            }
        },
        None => s.fail(op, Fault::MissingOperand).advance(),
    }
}

/// Set: pops the top of the stack into the register that the operand names.
pub open spec fn set_from_stack(s: State, a: Option<i32>) -> State {
    if s.stack.len() == 0 {
        s.fail(Opcode::SET, Fault::StackUnderflow).advance()
    } else {
        match a {
            Some(r) => s.drop_top(1).set_register(r as int, s.top()).advance(),
            None => s.advance(),
        }
    }
}

/// Get: pushes the value of the register that the operand names.
pub open spec fn get_to_stack(s: State, a: Option<i32>) -> State {
    match a {
        Some(r) => s.push(s.registers[r as int]).advance(),
        None => s.advance(),
    }
}

/// The unconditional jump: to the operand, where it is an instruction index.
pub open spec fn jump_always(s: State, a: Option<i32>) -> State {
    match a {
        Some(target) => {
            if 0 <= target < s.program.len() {
                s.jump(target as int)
            } else {
                s.fail(Opcode::JMP, Fault::InvalidJumpTarget(target)).advance()
            }
        },
        None => s.advance(),
    }
}

/// A conditional jump. The top of the stack is looked at and stays. Where
/// the test holds of it, the machine jumps: to what the label table has under
/// the operand written in base ten, if it has that name; else to the operand,
/// if it is an instruction index. In every other case the next instruction
/// follows.
pub open spec fn branch(s: State, op: Opcode, a: Option<i32>) -> State {
    if s.stack.len() > 0 && branch_taken(op, s.top()) {
        match a {
            Some(target) => {
                if s.labels.contains_key(decimal_text(target as int)) {
                    s.jump(s.labels[decimal_text(target as int)] as int)
                } else if 0 <= target < s.program.len() {
                    s.jump(target as int)
                } else {
                    s.fail(op, Fault::InvalidJumpTarget(target)).advance()
                }
            },
            None => s.advance(),
        }
    } else {
        s.advance()
    }
}

/// Print the character whose code is popped from the stack.
pub open spec fn print_char(s: State) -> State {
    if s.stack.len() == 0 {
        s.fail(Opcode::PRC, Fault::EmptyStack).advance()
    } else if is_char_code(s.top()) {
        s.drop_top(1).emit(EventView::PrintChar(s.top() as char)).advance()
    } else {
        s.drop_top(1).fail(Opcode::PRC, Fault::InvalidCharCode(s.top())).advance()
    }
}

/// What the instruction at the program counter does to the machine.
/// Meaningful where `status(s)` is `Ready`.
pub open spec fn execute(s: State) -> State {
    let (op, a, b) = s.instruction();
    match op {
        Opcode::ADD | Opcode::SUB | Opcode::MUL | Opcode::DIV | Opcode::MOD => {
            arithmetic(s, op, a, b)
        },
        Opcode::INC => adjust(s, op, a, 1),
        Opcode::DEC => adjust(s, op, a, -1),
        Opcode::PSH => match a {
            Some(v) => s.push(v).advance(),
            None => s.advance(),
        },
        Opcode::POP => if s.stack.len() == 0 {
            s.fail(op, Fault::EmptyStack).advance()
        } else {
            s.drop_top(1).advance()
        },
        Opcode::DUP => if s.stack.len() == 0 {
            s.fail(op, Fault::StackUnderflow).advance()
        } else {
            s.push(s.top()).advance()
        },
        Opcode::SWP => if s.stack.len() < 2 {
            s.fail(op, Fault::StackUnderflow).advance()
        } else {
            s.drop_top(2).push(s.top()).push(s.second()).advance()
        },
        Opcode::SCL => if s.stack.len() == 0 {
            s.fail(op, Fault::AlreadyEmpty).advance()
        } else {
            s.drop_top(s.stack.len() as int).advance()
        },
        Opcode::STR => store_top(s, a),
        Opcode::LOA => load_value(s, a),
        Opcode::MCL => if s.memory.dom().is_empty() {
            s.fail(op, Fault::AlreadyEmpty).advance()
        } else {
            State { memory: Map::empty(), ..s }.advance()
        },
        Opcode::MOV | Opcode::COP => transfer(s, op, a, b),
        Opcode::SET => set_from_stack(s, a),
        Opcode::GET => get_to_stack(s, a),
        Opcode::JMP => jump_always(s, a),
        Opcode::JEZ | Opcode::JNZ | Opcode::JGZ | Opcode::JLZ => branch(s, op, a),
        Opcode::EQU | Opcode::NEQ | Opcode::GTH | Opcode::LTH | Opcode::GTE | Opcode::LTE => {
            comparison(s, op, a, b)
        },
        Opcode::PRT => if s.stack.len() == 0 {
            s.fail(op, Fault::EmptyStack).advance()
        } else {
            s.emit(EventView::Print(s.top())).advance()
        },
        Opcode::PPT => if s.stack.len() == 0 {
            s.fail(op, Fault::EmptyStack).advance()
        } else {
            s.drop_top(1).emit(EventView::Print(s.top())).advance()
        },
        Opcode::PRC => print_char(s),
        Opcode::DEB => s.emit(EventView::Debug(s.snapshot())).advance(),
        Opcode::HLT => s.stop().advance(),
        Opcode::NOP => s.advance(),
        Opcode::INP | Opcode::TIM => s,
    }
}

/// Whether the instruction at the program counter would use a register that
/// does not exist, without diagnosing it.
pub open spec fn names_bad_register(s: State) -> bool {
    let (op, a, b) = s.instruction();
    match op {
        Opcode::INC | Opcode::DEC | Opcode::GET => a is Some && !is_register(a->0),
        Opcode::SET => s.stack.len() > 0 && a is Some && !is_register(a->0),
        Opcode::MOV | Opcode::COP => b is Some && !(is_register(or_zero(a)) && is_register(b->0)),
        _ => false,
    }
}

/// What the machine can do next.
pub open spec fn status(s: State) -> Status {
    if !s.running || !s.in_program() {
        Status::Halted
    } else if s.instruction().0 == Opcode::INP {
        Status::AwaitingInput
    } else if s.instruction().0 == Opcode::TIM {
        Status::AwaitingTime
    } else if names_bad_register(s) {
        Status::BadRegister
    } else {
        Status::Ready
    }
}

/// One step: the instruction at the program counter is executed where the
/// machine is ready for it; else nothing changes.
pub open spec fn step(s: State) -> State {
    if status(s) == Status::Ready {
        execute(s)
    } else {
        s
    }
}

/// The machine after it has executed instructions until it is no longer
/// ready or `fuel` of them are done.
pub open spec fn run_from(s: State, fuel: nat) -> State
    decreases fuel,
{
    if fuel == 0 || status(s) != Status::Ready {
        s
    } else {
        run_from(execute(s), (fuel - 1) as nat)
    }
}

/// What a line from the console does to a machine that awaits input: the
/// number on the line, white space around it aside, is pushed and the next
/// instruction follows. A line that holds no number stops the machine.
pub open spec fn accept_input(s: State, line: Seq<char>) -> State {
    match parse_i32(trim(line)) {
        Some(v) => s.push(v).advance(),
        None => s.stop(),
    }
}

/// What the clock's reading does to a machine that awaits the time: the
/// count of seconds, cut to 32 bits, is pushed and the next instruction
/// follows.
pub open spec fn accept_time(s: State, seconds: int) -> State {
    s.push(wrap32(seconds)).advance()
}

} // verus!
