//! What the machine hands to its host: the values it prints, the errors it
//! diagnoses, and snapshots of its state.

#![allow(unused_imports)]

use vstd::prelude::*;
use std::collections::HashMap;
use crate::labels::LabelTable;
use crate::opcode::Opcode;

verus! {

/// Why an instruction could not do its work. The machine diagnoses the fault
/// and goes on with the next instruction.
#[derive(Debug, Clone, Copy, PartialEq, Eq, Structural)]
pub enum Fault {
    /// The stack holds fewer values than the instruction takes.
    StackUnderflow,
    /// The divisor is zero.
    DivisionByZero,
    /// An operand of a two-operand arithmetic or comparison instruction is
    /// no register index.
    InvalidRegister,
    /// The address of a store lies outside the memory.
    AddressOutOfBounds,
    /// The target of a jump, held here, is no instruction index.
    InvalidJumpTarget(i32),
    /// There is nothing on the stack to pop or to print.
    EmptyStack,
    /// There is nothing to clear.
    AlreadyEmpty,
    /// The value, held here, is no character code.
    InvalidCharCode(i32),
    /// The instruction takes two operands and the second is absent.
    MissingOperand,
}

/// The machine's state as the debug instruction reports it.
#[derive(Debug, Clone, PartialEq, Eq)]
pub struct Snapshot {
    /// The index of the debug instruction.
    pub pc: usize,
    /// The stack, bottom first.
    pub stack: Vec<i32>,
    /// The memory.
    pub memory: HashMap<usize, i32>,
    /// The registers.
    pub registers: [i32; 8],
    /// The label table.
    pub labels: LabelTable,
}

/// Something for the host to show, in the order in which the machine
/// produced it.
#[derive(Debug, Clone, PartialEq, Eq)]
pub enum Event {
    /// A value to print on a line of its own.
    Print(i32),
    /// A character to print.
    PrintChar(char),
    /// A snapshot of the state to print.
    Debug(Snapshot),
    /// A fault to report, with the opcode that met it.
    Error(Opcode, Fault),
}

/// A snapshot as a mathematical value.
#[verifier::ext_equal]
pub struct SnapshotView {
    pub pc: int,
    pub stack: Seq<i32>,
    pub memory: Map<usize, i32>,
    pub registers: Seq<i32>,
    pub labels: Map<Seq<char>, usize>,
}

/// An event as a mathematical value.
#[verifier::ext_equal]
pub enum EventView {
    Print(i32),
    PrintChar(char),
    Debug(SnapshotView),
    Error(Opcode, Fault),
}

impl View for Snapshot {
    type V = SnapshotView;

    /// The snapshot as a mathematical value.
    open spec fn view(&self) -> SnapshotView {
        SnapshotView {
            pc: self.pc as int,
            stack: self.stack@,
            memory: self.memory@,
            registers: self.registers@,
            labels: self.labels@,
        }
    }
}

impl View for Event {
    type V = EventView;

    /// The event as a mathematical value.
    open spec fn view(&self) -> EventView {
        match *self {
            Event::Print(v) => EventView::Print(v),
            Event::PrintChar(c) => EventView::PrintChar(c),
            Event::Debug(snapshot) => EventView::Debug(snapshot@),
            Event::Error(op, fault) => EventView::Error(op, fault),
        }
    }
}

/// The events of a log as mathematical values.
pub open spec fn event_views(log: Seq<Event>) -> Seq<EventView> {
    log.map_values(|e: Event| e@)
}

} // verus!
