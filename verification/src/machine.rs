//! The execution engine: a machine that owns its state and executes its
//! program one instruction at a time.
//!
//! The machine does no input or output itself. What it prints and diagnoses
//! is collected as events for the host to take. Where an instruction needs a
//! line from the console or the time, the machine waits until the host
//! supplies it.

#![allow(unused_imports)]

use vstd::prelude::*;
use std::collections::HashMap;
use crate::event::{event_views, Event, EventView, Fault, Snapshot};
use crate::labels::LabelTable;
use crate::loader::{
    bind_labels,
    chars_of_lines,
    emit_program,
    line_texts,
    rejected_lines,
    rejected_views,
    Rejected,
};
use crate::number::{decimal, parse_i32, parse_number};
use crate::opcode::{Instruction, Opcode};
use crate::state::{
    accept_input,
    accept_time,
    adjust,
    arithmetic,
    branch,
    branch_taken,
    compare,
    comparison,
    compute,
    get_to_stack,
    is_register,
    jump_always,
    load_value,
    or_zero,
    print_char,
    run_from,
    set_from_stack,
    status,
    step,
    store_top,
    transfer,
    truth,
    State,
    Status,
    MAX_MEMORY_SIZE,
    REGISTER_COUNT,
};
use crate::text::{chars_of, trim, trimmed};
use crate::word::{add_words, div_words, mul_words, rem_words, sub_words, word_from_u64};

verus! {

/// Why a line from the console was not taken.
#[derive(Debug, Clone, Copy, PartialEq, Eq, Structural)]
pub enum InputError {
    /// The machine does not await input.
    NotAwaited,
    /// The line holds no number. The machine has stopped.
    NotANumber,
}

/// `char::from_u32`: the character whose code is `i`, where `i` is a
/// Unicode scalar value, and `None` where it is not.
pub assume_specification[ char::from_u32 ](i: u32) -> (r: Option<char>)
    ensures
        r == (if i <= 0xD7FF || 0xE000 <= i <= 0x10FFFF {
            Some(i as char)
        } else {
            None
        }),
;

/// The machine.
pub struct VM {
    stack: Vec<i32>,
    memory: HashMap<usize, i32>,
    registers: [i32; 8],
    program: Vec<Instruction>,
    pc: usize,
    running: bool,
    labels: LabelTable,
    output: Vec<Event>,
}

impl View for VM {
    type V = State;

    /// The machine's state as a mathematical value.
    closed spec fn view(&self) -> State {
        State {
            stack: self.stack@,
            memory: self.memory@,
            registers: self.registers@,
            program: self.program@,
            pc: self.pc as int,
            running: self.running,
            labels: self.labels@,
            output: event_views(self.output@),
        }
    }
}

impl VM {
    /// A machine with nothing loaded: everything empty, every register zero,
    /// not running.
    pub fn new() -> (vm: VM)
        ensures
            vm@ == State::fresh(),
    {
        let vm = VM {
            stack: Vec::new(),
            memory: HashMap::new(),
            registers: [0;8],
            program: Vec::new(),
            pc: 0,
            running: false,
            labels: LabelTable::new(),
            output: Vec::new(),
        };
        assert(vm@.registers =~= State::fresh().registers);
        assert(vm@.output =~= State::fresh().output);
        vm
    }

    /// The state of a machine is always well formed.
    pub proof fn lemma_well_formed(&self)
        ensures
            self@.well_formed(),
    {
        assert(self.program@.len() == self.program.len());
    }

    /// Loads `program` and moves the program counter to its first
    /// instruction. Nothing else changes.
    pub fn load_program(&mut self, program: Vec<Instruction>)
        ensures
            final(self)@ == old(self)@.load(program@),
    {
        self.program = program;
        self.pc = 0;
    }

    /// Loads the program that the source `lines` write. The labels that the
    /// lines define are added to the label table first, so that an
    /// instruction may name a label that is defined below it; then the
    /// program is loaded as by `load_program`. Returns the instruction lines
    /// that were left out because their first word is no mnemonic.
    pub fn load_program_from_lines(&mut self, lines: &Vec<String>) -> (rejected: Vec<Rejected>)
        ensures
            final(self)@ == old(self)@.load_source(line_texts(lines@)),
            rejected_views(rejected@) == rejected_lines(line_texts(lines@)),
    {
        let text = chars_of_lines(lines);
        bind_labels(&text, &mut self.labels);
        let (program, rejected) = emit_program(&text, &self.labels);
        self.load_program(program);
        rejected
    }

    /// Binds the label `name` to the instruction index `target`.
    pub fn define_label(&mut self, name: &str, target: usize)
        ensures
            final(self)@ == old(self)@.bind(name@, target),
    {
        let key = chars_of(name);
        self.labels.insert(key, target);
    }

    /// The program counter.
    pub fn pc(&self) -> (r: usize)
        ensures
            r == self@.pc,
    {
        self.pc
    }

    /// Whether the machine is running.
    pub fn is_running(&self) -> (r: bool)
        ensures
            r == self@.running,
    {
        self.running
    }

    /// The stack, bottom first.
    pub fn stack(&self) -> (r: &Vec<i32>)
        ensures
            r@ == self@.stack,
    {
        &self.stack
    }

    /// The registers.
    pub fn registers(&self) -> (r: &[i32; 8])
        ensures
            r@ == self@.registers,
    {
        &self.registers
    }

    /// The program.
    pub fn program(&self) -> (r: &Vec<Instruction>)
        ensures
            r@ == self@.program,
    {
        &self.program
    }

    /// The label table.
    pub fn labels(&self) -> (r: &LabelTable)
        ensures
            r@ == self@.labels,
    {
        &self.labels
    }

    /// The instruction index that the label `name` is bound to, if it is
    /// bound.
    pub fn label(&self, name: &str) -> (r: Option<usize>)
        ensures
            r == (if self@.labels.contains_key(name@) {
                Some(self@.labels[name@])
            } else {
                None
            }),
    {
        let key = chars_of(name);
        self.labels.get(&key)
    }

    /// The value stored at `address`, if one was stored there.
    pub fn memory_at(&self, address: usize) -> (r: Option<i32>)
        ensures
            r == (if self@.memory.contains_key(address) {
                Some(self@.memory[address])
            } else {
                None
            }),
    {
        match self.memory.get(&address) {
            Some(v) => Some(*v),
            None => None,
        }
    }

    /// How many addresses hold a value.
    pub fn memory_len(&self) -> (r: usize)
        ensures
            r == self@.memory.len(),
    {
        self.memory.len()
    }

    /// The events that the host has not taken yet, oldest first.
    pub fn output(&self) -> (r: &Vec<Event>)
        ensures
            event_views(r@) == self@.output,
    {
        &self.output
    }

    /// Hands the collected events to the host and forgets them.
    pub fn take_output(&mut self) -> (r: Vec<Event>)
        ensures
            event_views(r@) == old(self)@.output,
            final(self)@ == old(self)@.without_output(),
    {
        let mut taken: Vec<Event> = Vec::new();
        core::mem::swap(&mut self.output, &mut taken);
        assert(event_views(self.output@) =~= Seq::<EventView>::empty());
        taken
    }

    /// The state as the debug instruction reports it.
    pub fn snapshot(&self) -> (r: Snapshot)
        ensures
            r@ == self@.snapshot(),
    {
        let stack = self.stack.clone();
        assert(stack@ =~= self.stack@);
        Snapshot {
            pc: self.pc,
            stack,
            memory: self.memory.clone(),
            registers: self.registers,
            labels: self.labels.clone(),
        }
    }

    /// What the machine can do next.
    pub fn status(&self) -> (r: Status)
        ensures
            r == status(self@),
    {
        if !self.running || self.pc >= self.program.len() {
            return Status::Halted;
        }
        let (op, a, b) = self.program[self.pc];
        match op {
            Opcode::INP => Status::AwaitingInput,
            Opcode::TIM => Status::AwaitingTime,
            Opcode::INC | Opcode::DEC | Opcode::GET => match a {
                Some(r) => if register_index(r).is_some() {
                    Status::Ready
                } else {
                    Status::BadRegister
                },
                None => Status::Ready,
            },
            Opcode::SET => match a {
                Some(r) => if self.stack.len() == 0 || register_index(r).is_some() {
                    Status::Ready
                } else {
                    Status::BadRegister
                },
                None => Status::Ready,
            },
            Opcode::MOV | Opcode::COP => match b {
                Some(to) => if register_index(to).is_some() && register_index(
                    first_or_zero(a),
                ).is_some() {
                    Status::Ready
                } else {
                    Status::BadRegister
                },
                None => Status::Ready,
            },
            _ => Status::Ready,
        }
    }

    /// Sets the machine running. A run starts with this.
    pub fn start(&mut self)
        ensures
            final(self)@ == old(self)@.start(),
    {
        self.running = true;
    }

    /// Executes the instruction at the program counter, where the machine is
    /// ready for it, and says what the machine could do before the call.
    /// A machine that is not ready is left as it is.
    pub fn step(&mut self) -> (r: Status)
        ensures
            r == status(old(self)@),
            final(self)@ == step(old(self)@),
    {
        let st = self.status();
        if st != Status::Ready {
            return st;
        }
        let (op, a, b) = self.program[self.pc];
        match op {
            Opcode::ADD | Opcode::SUB | Opcode::MUL | Opcode::DIV | Opcode::MOD => {
                self.do_arithmetic(op, a, b);
            },
            Opcode::INC => {
                self.do_adjust(op, a, 1);
            },
            Opcode::DEC => {
                self.do_adjust(op, a, -1);
            },
            Opcode::PSH => {
                match a {
                    Some(v) => {
                        self.push(v);
                    },
                    None => {},
                }
                self.advance();
            },
            Opcode::POP => {
                if self.stack.len() == 0 {
                    self.fail(op, Fault::EmptyStack);
                } else {
                    self.drop_top(1);
                }
                self.advance();
            },
            Opcode::DUP => {
                if self.stack.len() == 0 {
                    self.fail(op, Fault::StackUnderflow);
                } else {
                    let v: i32 = self.stack[self.stack.len() - 1];
                    self.push(v);
                }
                self.advance();
            },
            Opcode::SWP => {
                let n: usize = self.stack.len();
                if n < 2 {
                    self.fail(op, Fault::StackUnderflow);
                } else {
                    let top: i32 = self.stack[n - 1];
                    let second: i32 = self.stack[n - 2];
                    self.drop_top(2);
                    self.push(top);
                    self.push(second);
                }
                self.advance();
            },
            Opcode::SCL => {
                if self.stack.len() == 0 {
                    self.fail(op, Fault::AlreadyEmpty);
                } else {
                    self.stack.clear();
                    assert(self.stack@ =~= old(self).stack@.take(0));
                }
                self.advance();
            },
            Opcode::STR => {
                self.do_store(a);
            },
            Opcode::LOA => {
                self.do_load(a);
            },
            Opcode::MCL => {
                if self.memory.is_empty() {
                    self.fail(op, Fault::AlreadyEmpty);
                } else {
                    self.memory.clear();
                }
                self.advance();
            },
            Opcode::MOV | Opcode::COP => {
                self.do_transfer(op, a, b);
            },
            Opcode::SET => {
                self.do_set(a);
            },
            Opcode::GET => {
                self.do_get(a);
            },
            Opcode::JMP => {
                self.do_jump(a);
            },
            Opcode::JEZ | Opcode::JNZ | Opcode::JGZ | Opcode::JLZ => {
                self.do_branch(op, a);
            },
            Opcode::EQU | Opcode::NEQ | Opcode::GTH | Opcode::LTH | Opcode::GTE | Opcode::LTE => {
                self.do_comparison(op, a, b);
            },
            Opcode::PRT => {
                if self.stack.len() == 0 {
                    self.fail(op, Fault::EmptyStack);
                } else {
                    let v: i32 = self.stack[self.stack.len() - 1];
                    self.emit(Event::Print(v));
                }
                self.advance();
            },
            Opcode::PPT => {
                if self.stack.len() == 0 {
                    self.fail(op, Fault::EmptyStack);
                } else {
                    let v: i32 = self.stack[self.stack.len() - 1];
                    self.drop_top(1);
                    self.emit(Event::Print(v));
                }
                self.advance();
            },
            Opcode::PRC => {
                self.do_print_char();
            },
            Opcode::DEB => {
                let snapshot = self.snapshot();
                self.emit(Event::Debug(snapshot));
                self.advance();
            },
            Opcode::HLT => {
                self.running = false;
                self.advance();
            },
            Opcode::NOP => {
                self.advance();
            },
            Opcode::INP | Opcode::TIM => {},
        }
        st
    }

    /// Runs the program: sets the machine running and executes instructions
    /// until the machine is no longer ready. Returns what the machine can do
    /// then.
    ///
    /// A program may go on for ever. So that the run is known to end, it
    /// stops after `u64::MAX` instructions in any case, which no machine
    /// reaches in practice. A host that wants the output of a long run while
    /// it is under way uses `run_for`.
    pub fn run(&mut self) -> (r: Status)
        ensures
            final(self)@ == run_from(old(self)@.start(), u64::MAX as nat),
            r == status(final(self)@),
    {
        self.run_for(u64::MAX)
    }

    /// Sets the machine running and executes instructions until it is no
    /// longer ready or `max_steps` of them are done. Returns what the machine
    /// can do then: `Ready` where the steps ran out first.
    pub fn run_for(&mut self, max_steps: u64) -> (r: Status)
        ensures
            final(self)@ == run_from(old(self)@.start(), max_steps as nat),
            r == status(final(self)@),
    {
        self.running = true;
        let mut done: u64 = 0;
        let mut st: Status = self.status();
        while done < max_steps && st == Status::Ready
            invariant
                done <= max_steps,
                st == status(self@),
                run_from(old(self)@.start(), max_steps as nat) == run_from(
                    self@,
                    (max_steps - done) as nat,
                ),
            decreases max_steps - done,
        {
            self.step();
            done = done + 1;
            st = self.status();
        }
        st
    }

    /// Gives a line from the console to a machine that awaits input. The
    /// number on the line is pushed and the next instruction follows; where
    /// the line holds no number, the machine stops. A machine that does not
    /// await input is left as it is.
    pub fn supply_input(&mut self, line: &str) -> (r: Result<(), InputError>)
        ensures
            status(old(self)@) != Status::AwaitingInput ==> r == Err::<(), InputError>(
                InputError::NotAwaited,
            ) && final(self)@ == old(self)@,
            status(old(self)@) == Status::AwaitingInput ==> final(self)@ == accept_input(
                old(self)@,
                line@,
            ) && r == (if parse_i32(trim(line@)) is Some {
                Ok::<(), InputError>(())
            } else {
                Err::<(), InputError>(InputError::NotANumber)
            }),
    {
        if self.status() != Status::AwaitingInput {
            return Err(InputError::NotAwaited);
        }
        let text = chars_of(line);
        let number = trimmed(&text);
        match parse_number(&number) {
            Some(v) => {
                self.push(v);
                self.advance();
                Ok(())
            },
            None => {
                self.running = false;
                Err(InputError::NotANumber)
            },
        }
    }

    /// Gives the time, in seconds, to a machine that awaits it: the count,
    /// cut to 32 bits, is pushed and the next instruction follows. Returns
    /// whether the machine awaited the time; one that did not is left as it
    /// is.
    pub fn supply_time(&mut self, seconds: u64) -> (r: bool)
        ensures
            r == (status(old(self)@) == Status::AwaitingTime),
            final(self)@ == (if r {
                accept_time(old(self)@, seconds as int)
            } else {
                old(self)@
            }),
    {
        if self.status() != Status::AwaitingTime {
            return false;
        }
        self.push(word_from_u64(seconds));
        self.advance();
        true
    }

    /// Moves the program counter to the next instruction.
    fn advance(&mut self)
        requires
            old(self).pc < old(self).program.len(),
        ensures
            final(self)@ == old(self)@.advance(),
    {
        self.pc = self.pc + 1;
    }

    /// Moves the program counter to `target`.
    fn jump(&mut self, target: usize)
        ensures
            final(self)@ == old(self)@.jump(target as int),
    {
        self.pc = target;
    }

    /// Pushes `v` onto the stack.
    fn push(&mut self, v: i32)
        ensures
            final(self)@ == old(self)@.push(v),
    {
        self.stack.push(v);
    }

    /// Removes the top `n` values from the stack.
    fn drop_top(&mut self, n: usize)
        requires
            n <= old(self).stack.len(),
        ensures
            final(self)@ == old(self)@.drop_top(n as int),
    {
        let keep: usize = self.stack.len() - n;
        self.stack.truncate(keep);
    }

    /// Sets register `r` to `v`.
    fn set_register(&mut self, r: usize, v: i32)
        requires
            r < REGISTER_COUNT,
        ensures
            final(self)@ == old(self)@.set_register(r as int, v),
    {
        self.registers[r] = v;
    }

    /// Adds `e` to the output.
    fn emit(&mut self, e: Event)
        ensures
            final(self)@ == old(self)@.emit(e@),
    {
        self.output.push(e);
        assert(event_views(self.output@) =~= event_views(old(self).output@).push(e@));
    }

    /// Adds a fault of `op` to the output.
    fn fail(&mut self, op: Opcode, fault: Fault)
        ensures
            final(self)@ == old(self)@.fail(op, fault),
    {
        self.emit(Event::Error(op, fault));
    }

    /// Executes an arithmetic instruction.
    fn do_arithmetic(&mut self, op: Opcode, a: Option<i32>, b: Option<i32>)
        requires
            old(self).pc < old(self).program.len(),
        ensures
            final(self)@ == arithmetic(old(self)@, op, a, b),
    {
        match b {
            Some(rb) => {
                match (register_index(first_or_zero(a)), register_index(rb)) {
                    (Some(i), Some(j)) => {
                        match evaluate(op, self.registers[i], self.registers[j]) {
                            Some(v) => {
                                self.push(v);
                            },
                            None => {
                                self.fail(op, Fault::DivisionByZero);
                            },
                        }
                    },
                    _ => {
                        self.fail(op, Fault::InvalidRegister);
                    },
                }
            },
            None => {
                let n: usize = self.stack.len();
                if n < 2 {
                    self.fail(op, Fault::StackUnderflow);
                } else {
                    let right: i32 = self.stack[n - 1];
                    let left: i32 = self.stack[n - 2];
                    self.drop_top(2);
                    match evaluate(op, left, right) {
                        Some(v) => {
                            self.push(v);
                        },
                        None => {
                            self.fail(op, Fault::DivisionByZero);
                        },
                    }
                }
            },
        }
        self.advance();
    }

    /// Executes a comparison instruction.
    fn do_comparison(&mut self, op: Opcode, a: Option<i32>, b: Option<i32>)
        requires
            old(self).pc < old(self).program.len(),
        ensures
            final(self)@ == comparison(old(self)@, op, a, b),
    {
        match b {
            Some(rb) => {
                let ra: i32 = first_or_zero(a);
                if register_index(ra).is_some() && register_index(rb).is_some() {
                    self.push(holds(op, ra, rb));
                } else {
                    self.fail(op, Fault::InvalidRegister);
                }
            },
            None => {
                let n: usize = self.stack.len();
                if n < 2 {
                    self.fail(op, Fault::StackUnderflow);
                } else {
                    let first: i32 = self.stack[n - 1];
                    let second: i32 = self.stack[n - 2];
                    self.drop_top(2);
                    self.push(holds(op, first, second));
                }
            },
        }
        self.advance();
    }

    /// Executes an increment or a decrement.
    fn do_adjust(&mut self, op: Opcode, a: Option<i32>, delta: i32)
        requires
            old(self).pc < old(self).program.len(),
            a is Some ==> is_register(a->0),
        ensures
            final(self)@ == adjust(old(self)@, op, a, delta as int),
    {
        match a {
            Some(r) => {
                let i: usize = r as usize;
                let v: i32 = add_words(self.registers[i], delta);
                self.set_register(i, v);
            },
            None => {
                let n: usize = self.stack.len();
                if n == 0 {
                    self.fail(op, Fault::StackUnderflow);
                } else {
                    let v: i32 = add_words(self.stack[n - 1], delta);
                    self.drop_top(1);
                    self.push(v);
                }
            },
        }
        self.advance();
    }

    /// Executes a store.
    fn do_store(&mut self, a: Option<i32>)
        requires
            old(self).pc < old(self).program.len(),
        ensures
            final(self)@ == store_top(old(self)@, a),
    {
        let n: usize = self.stack.len();
        if n > 0 {
            let v: i32 = self.stack[n - 1];
            self.drop_top(1);
            match a {
                Some(address) => {
                    if address >= 0 && (address as usize) < MAX_MEMORY_SIZE {
                        self.memory.insert(address as usize, v);
                    } else {
                        self.fail(Opcode::STR, Fault::AddressOutOfBounds);
                    }
                },
                None => {},
            }
        }
        self.advance();
    }

    /// Executes a load.
    fn do_load(&mut self, a: Option<i32>)
        requires
            old(self).pc < old(self).program.len(),
        ensures
            final(self)@ == load_value(old(self)@, a),
    {
        match a {
            Some(address) => {
                if address >= 0 {
                    let found: Option<i32> = self.memory_at(address as usize);
                    match found {
                        Some(v) => {
                            self.push(v);
                        },
                        None => {},
                    }
                }
            },
            None => {},
        }
        self.advance();
    }

    /// Executes a move or a copy between registers.
    fn do_transfer(&mut self, op: Opcode, a: Option<i32>, b: Option<i32>)
        requires
            old(self).pc < old(self).program.len(),
            b is Some ==> is_register(or_zero(a)) && is_register(b->0),
        ensures
            final(self)@ == transfer(old(self)@, op, a, b),
    {
        match b {
            Some(to) => {
                let from: usize = first_or_zero(a) as usize;
                let v: i32 = self.registers[from];
                self.set_register(to as usize, v);
                if op == Opcode::MOV {
                    self.set_register(from, 0);
                }
            },
            None => {
                self.fail(op, Fault::MissingOperand);
            },
        }
        self.advance();
    }

    /// Executes a set.
    fn do_set(&mut self, a: Option<i32>)
        requires
            old(self).pc < old(self).program.len(),
            old(self).stack.len() > 0 && a is Some ==> is_register(a->0),
        ensures
            final(self)@ == set_from_stack(old(self)@, a),
    {
        let n: usize = self.stack.len();
        if n == 0 {
            self.fail(Opcode::SET, Fault::StackUnderflow);
        } else {
            match a {
                Some(r) => {
                    let v: i32 = self.stack[n - 1];
                    self.drop_top(1);
                    self.set_register(r as usize, v);
                },
                None => {},
            }
        }
        self.advance();
    }

    /// Executes a get.
    fn do_get(&mut self, a: Option<i32>)
        requires
            old(self).pc < old(self).program.len(),
            a is Some ==> is_register(a->0),
        ensures
            final(self)@ == get_to_stack(old(self)@, a),
    {
        match a {
            Some(r) => {
                let v: i32 = self.registers[r as usize];
                self.push(v);
            },
            None => {},
        }
        self.advance();
    }

    /// Executes an unconditional jump.
    fn do_jump(&mut self, a: Option<i32>)
        requires
            old(self).pc < old(self).program.len(),
        ensures
            final(self)@ == jump_always(old(self)@, a),
    {
        match a {
            Some(target) => {
                if target >= 0 && (target as usize) < self.program.len() {
                    self.jump(target as usize);
                } else {
                    self.fail(Opcode::JMP, Fault::InvalidJumpTarget(target));
                    self.advance();
                }
            },
            None => {
                self.advance();
            },
        }
    }

    /// Executes a conditional jump.
    fn do_branch(&mut self, op: Opcode, a: Option<i32>)
        requires
            old(self).pc < old(self).program.len(),
        ensures
            final(self)@ == branch(old(self)@, op, a),
    {
        let n: usize = self.stack.len();
        if n > 0 && taken(op, self.stack[n - 1]) {
            match a {
                Some(target) => {
                    let name = decimal(target);
                    match self.labels.get(&name) {
                        Some(index) => {
                            self.jump(index);
                        },
                        None => {
                            if target >= 0 && (target as usize) < self.program.len() {
                                self.jump(target as usize);
                            } else {
                                self.fail(op, Fault::InvalidJumpTarget(target));
                                self.advance();
                            }
                        },
                    }
                },
                None => {
                    self.advance();
                },
            }
        } else {
            self.advance();
        }
    }

    /// Executes a print of a character.
    fn do_print_char(&mut self)
        requires
            old(self).pc < old(self).program.len(),
        ensures
            final(self)@ == print_char(old(self)@),
    {
        let n: usize = self.stack.len();
        if n == 0 {
            self.fail(Opcode::PRC, Fault::EmptyStack);
        } else {
            let v: i32 = self.stack[n - 1];
            self.drop_top(1);
            let c: Option<char> = if v >= 0 {
                char::from_u32(v as u32)
            } else {
                None
            };
            match c {
                Some(c) => {
                    self.emit(Event::PrintChar(c));
                },
                None => {
                    self.fail(Opcode::PRC, Fault::InvalidCharCode(v));
                },
            }
        }
        self.advance();
    }
}

/// The operand, or zero where it is absent.
fn first_or_zero(operand: Option<i32>) -> (r: i32)
    ensures
        r == or_zero(operand),
{
    match operand {
        Some(v) => v,
        None => 0,
    }
}

/// `r` as an index into the registers, where it is one.
fn register_index(r: i32) -> (i: Option<usize>)
    ensures
        i == (if is_register(r) {
            Some(r as usize)
        } else {
            None
        }),
{
    if 0 <= r && r < 8 {
        Some(r as usize)
    } else {
        None
    }
}

/// The result of an arithmetic opcode.
fn evaluate(op: Opcode, left: i32, right: i32) -> (r: Option<i32>)
    ensures
        r == compute(op, left, right),
{
    match op {
        Opcode::ADD => Some(add_words(left, right)),
        Opcode::SUB => Some(sub_words(left, right)),
        Opcode::MUL => Some(mul_words(left, right)),
        Opcode::DIV => div_words(left, right),
        Opcode::MOD => rem_words(left, right),
        _ => None,
    }
}

/// 1 where the comparison holds of `a` and `b`, else 0.
fn holds(op: Opcode, a: i32, b: i32) -> (r: i32)
    ensures
        r == truth(compare(op, a as int, b as int)),
{
    let yes: bool = match op {
        Opcode::EQU => a == b,
        Opcode::NEQ => a != b,
        Opcode::GTH => a > b,
        Opcode::LTH => a < b,
        Opcode::GTE => a >= b,
        Opcode::LTE => a <= b,
        _ => false,
    };
    if yes {
        1
    } else {
        0
    }
}

/// Whether a conditional jump is taken.
fn taken(op: Opcode, v: i32) -> (r: bool)
    ensures
        r == branch_taken(op, v),
{
    match op {
        Opcode::JEZ => v == 0,
        Opcode::JNZ => v != 0,
        Opcode::JGZ => v > 0,
        Opcode::JLZ => v < 0,
        _ => false,
    }
}

} // verus!
