//! A small stack machine: a loader that turns source lines into a program,
//! and an engine that executes the program against a stack, a sparse memory
//! and a register file.
//!
//! The machine is a value. It reads no file and prints nothing: the host
//! hands it source lines, takes the events it produces, and supplies console
//! input and the time when the machine asks for them.

pub mod event;
pub mod labels;
pub mod laws;
pub mod loader;
pub mod machine;
pub mod number;
pub mod opcode;
pub mod state;
pub mod text;
pub mod word;

pub use crate::event::{Event, Fault, Snapshot};
pub use crate::labels::LabelTable;
pub use crate::loader::Rejected;
pub use crate::machine::{InputError, VM};
pub use crate::opcode::{Instruction, Opcode};
pub use crate::state::Status;
