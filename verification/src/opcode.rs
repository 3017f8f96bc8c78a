//! The instruction set and its table of mnemonics.

#![allow(unused_imports)]

use vstd::prelude::*;
use crate::text::{upper, upper_case};

verus! {

/// What one instruction does.
#[derive(Debug, Clone, Copy, PartialEq, Eq, Structural)]
pub enum Opcode {
    /// Add.
    ADD,
    /// Subtract.
    SUB,
    /// Multiply.
    MUL,
    /// Divide.
    DIV,
    /// Remainder.
    MOD,
    /// Add one.
    INC,
    /// Subtract one.
    DEC,
    /// Push the operand onto the stack.
    PSH,
    /// Remove the top of the stack.
    POP,
    /// Push the top of the stack once more.
    DUP,
    /// Exchange the two values on top of the stack.
    SWP,
    /// Empty the stack.
    SCL,
    /// Pop a value and store it at the operand's address.
    STR,
    /// Push the value stored at the operand's address.
    LOA,
    /// Empty the memory.
    MCL,
    /// Move a register's value to another register.
    MOV,
    /// Copy a register's value to another register.
    COP,
    /// Pop a value into a register.
    SET,
    /// Push a register's value.
    GET,
    /// Jump.
    JMP,
    /// Jump if the top of the stack is zero.
    JEZ,
    /// Jump if the top of the stack is not zero.
    JNZ,
    /// Jump if the top of the stack is greater than zero.
    JGZ,
    /// Jump if the top of the stack is less than zero.
    JLZ,
    /// Equal.
    EQU,
    /// Not equal.
    NEQ,
    /// Greater.
    GTH,
    /// Less.
    LTH,
    /// Greater or equal.
    GTE,
    /// Less or equal.
    LTE,
    /// Read a number from the console and push it.
    INP,
    /// Print the top of the stack.
    PRT,
    /// Pop a value and print it.
    PPT,
    /// Pop a value and print the character with that code.
    PRC,
    /// Push the time in seconds.
    TIM,
    /// Print the machine's state.
    DEB,
    /// Stop.
    HLT,
    /// Do nothing.
    NOP,
}

/// One instruction: what to do, and up to two operands.
pub type Instruction = (Opcode, Option<i32>, Option<i32>);

/// The three letters of an opcode's mnemonic.
pub open spec fn letters(op: Opcode) -> (char, char, char) {
    match op {
        Opcode::ADD => ('A', 'D', 'D'),
        Opcode::SUB => ('S', 'U', 'B'),
        Opcode::MUL => ('M', 'U', 'L'),
        Opcode::DIV => ('D', 'I', 'V'),
        Opcode::MOD => ('M', 'O', 'D'),
        Opcode::INC => ('I', 'N', 'C'),
        Opcode::DEC => ('D', 'E', 'C'),
        Opcode::PSH => ('P', 'S', 'H'),
        Opcode::POP => ('P', 'O', 'P'),
        Opcode::DUP => ('D', 'U', 'P'),
        Opcode::SWP => ('S', 'W', 'P'),
        Opcode::SCL => ('S', 'C', 'L'),
        Opcode::STR => ('S', 'T', 'R'),
        Opcode::LOA => ('L', 'O', 'A'),
        Opcode::MCL => ('M', 'C', 'L'),
        Opcode::MOV => ('M', 'O', 'V'),
        Opcode::COP => ('C', 'O', 'P'),
        Opcode::SET => ('S', 'E', 'T'),
        Opcode::GET => ('G', 'E', 'T'),
        Opcode::JMP => ('J', 'M', 'P'),
        Opcode::JEZ => ('J', 'E', 'Z'),
        Opcode::JNZ => ('J', 'N', 'Z'),
        Opcode::JGZ => ('J', 'G', 'Z'),
        Opcode::JLZ => ('J', 'L', 'Z'),
        Opcode::EQU => ('E', 'Q', 'U'),
        Opcode::NEQ => ('N', 'E', 'Q'),
        Opcode::GTH => ('G', 'T', 'H'),
        Opcode::LTH => ('L', 'T', 'H'),
        Opcode::GTE => ('G', 'T', 'E'),
        Opcode::LTE => ('L', 'T', 'E'),
        Opcode::INP => ('I', 'N', 'P'),
        Opcode::PRT => ('P', 'R', 'T'),
        Opcode::PPT => ('P', 'P', 'T'),
        Opcode::PRC => ('P', 'R', 'C'),
        Opcode::TIM => ('T', 'I', 'M'),
        Opcode::DEB => ('D', 'E', 'B'),
        Opcode::HLT => ('H', 'L', 'T'),
        Opcode::NOP => ('N', 'O', 'P'),
    }
}

/// An opcode's mnemonic, in upper case.
pub open spec fn mnemonic(op: Opcode) -> Seq<char> {
    seq![letters(op).0, letters(op).1, letters(op).2]
}

/// The opcode whose mnemonic is `name`, if there is one.
pub open spec fn opcode_named(name: Seq<char>) -> Option<Opcode> {
    if exists|op: Opcode| mnemonic(op) == name {
        Some(choose|op: Opcode| mnemonic(op) == name)
    } else {
        None
    }
}

/// The opcode that a word of source text names: the one whose mnemonic is the
/// word in upper case.
pub open spec fn opcode_of_word(word: Seq<char>) -> Option<Opcode> {
    opcode_named(upper(word))
}

/// No two opcodes share a mnemonic, so each mnemonic names its own opcode.
pub proof fn lemma_mnemonic_names_opcode(op: Opcode)
    ensures
        opcode_named(mnemonic(op)) == Some(op),
{
    let other = choose|o: Opcode| mnemonic(o) == mnemonic(op);
    assert(mnemonic(other)[0] == mnemonic(op)[0]);
    assert(mnemonic(other)[1] == mnemonic(op)[1]);
    assert(mnemonic(other)[2] == mnemonic(op)[2]);
}

impl Opcode {
    /// The opcode whose upper-case mnemonic is `name`.
    pub fn from_mnemonic(name: &Vec<char>) -> (r: Option<Opcode>)
        ensures
            r == opcode_named(name@),
    {
        if name.len() != 3 {
            assert forall|op: Opcode| mnemonic(op) != name@ by {
                assert(mnemonic(op).len() == 3);
            }
            return None;
        }
        let a: char = name[0];
        let b: char = name[1];
        let c: char = name[2];
        let found: Option<Opcode> = Self::from_letters(a, b, c);
        proof {
            assert(name@ == seq![a, b, c]);
            match found {
                Some(op) => {
                    assert(mnemonic(op) == name@);
                    let other = choose|o: Opcode| mnemonic(o) == name@;
                    assert(mnemonic(other)[0] == a);
                    assert(mnemonic(other)[1] == b);
                    assert(mnemonic(other)[2] == c);
                },
                None => {
                    assert forall|op: Opcode| mnemonic(op) != name@ by {
                        if mnemonic(op) == name@ {
                            assert(mnemonic(op)[0] == a);
                            assert(mnemonic(op)[1] == b);
                            assert(mnemonic(op)[2] == c);
                        }
                    }
                },
            }
        }
        found
    }

    /// The opcode whose mnemonic is spelled with the three letters.
    fn from_letters(a: char, b: char, c: char) -> (r: Option<Opcode>)
        ensures
            match r {
                Some(op) => letters(op) == (a, b, c),
                None => forall|op: Opcode| letters(op) != (a, b, c),
            },
    {
        if a == 'A' && b == 'D' && c == 'D' {
            Some(Opcode::ADD)
        } else if a == 'S' && b == 'U' && c == 'B' {
            Some(Opcode::SUB)
        } else if a == 'M' && b == 'U' && c == 'L' {
            Some(Opcode::MUL)
        } else if a == 'D' && b == 'I' && c == 'V' {
            Some(Opcode::DIV)
        } else if a == 'M' && b == 'O' && c == 'D' {
            Some(Opcode::MOD)
        } else if a == 'I' && b == 'N' && c == 'C' {
            Some(Opcode::INC)
        } else if a == 'D' && b == 'E' && c == 'C' {
            Some(Opcode::DEC)
        } else if a == 'P' && b == 'S' && c == 'H' {
            Some(Opcode::PSH)
        } else if a == 'P' && b == 'O' && c == 'P' {
            Some(Opcode::POP)
        } else if a == 'D' && b == 'U' && c == 'P' {
            Some(Opcode::DUP)
        } else if a == 'S' && b == 'W' && c == 'P' {
            Some(Opcode::SWP)
        } else if a == 'S' && b == 'C' && c == 'L' {
            Some(Opcode::SCL)
        } else if a == 'S' && b == 'T' && c == 'R' {
            Some(Opcode::STR)
        } else if a == 'L' && b == 'O' && c == 'A' {
            Some(Opcode::LOA)
        } else if a == 'M' && b == 'C' && c == 'L' {
            Some(Opcode::MCL)
        } else if a == 'M' && b == 'O' && c == 'V' {
            Some(Opcode::MOV)
        } else if a == 'C' && b == 'O' && c == 'P' {
            Some(Opcode::COP)
        } else if a == 'S' && b == 'E' && c == 'T' {
            Some(Opcode::SET)
        } else if a == 'G' && b == 'E' && c == 'T' {
            Some(Opcode::GET)
        } else if a == 'J' && b == 'M' && c == 'P' {
            Some(Opcode::JMP)
        } else if a == 'J' && b == 'E' && c == 'Z' {
            Some(Opcode::JEZ)
        } else if a == 'J' && b == 'N' && c == 'Z' {
            Some(Opcode::JNZ)
        } else if a == 'J' && b == 'G' && c == 'Z' {
            Some(Opcode::JGZ)
        } else if a == 'J' && b == 'L' && c == 'Z' {
            Some(Opcode::JLZ)
        } else if a == 'E' && b == 'Q' && c == 'U' {
            Some(Opcode::EQU)
        } else if a == 'N' && b == 'E' && c == 'Q' {
            Some(Opcode::NEQ)
        } else if a == 'G' && b == 'T' && c == 'H' {
            Some(Opcode::GTH)
        } else if a == 'L' && b == 'T' && c == 'H' {
            Some(Opcode::LTH)
        } else if a == 'G' && b == 'T' && c == 'E' {
            Some(Opcode::GTE)
        } else if a == 'L' && b == 'T' && c == 'E' {
            Some(Opcode::LTE)
        } else if a == 'I' && b == 'N' && c == 'P' {
            Some(Opcode::INP)
        } else if a == 'P' && b == 'R' && c == 'T' {
            Some(Opcode::PRT)
        } else if a == 'P' && b == 'P' && c == 'T' {
            Some(Opcode::PPT)
        } else if a == 'P' && b == 'R' && c == 'C' {
            Some(Opcode::PRC)
        } else if a == 'T' && b == 'I' && c == 'M' {
            Some(Opcode::TIM)
        } else if a == 'D' && b == 'E' && c == 'B' {
            Some(Opcode::DEB)
        } else if a == 'H' && b == 'L' && c == 'T' {
            Some(Opcode::HLT)
        } else if a == 'N' && b == 'O' && c == 'P' {
            Some(Opcode::NOP)
        } else {
            None
        }
    }

    /// The opcode that a word of source text names, whatever the case of its
    /// letters.
    pub fn from_word(word: &Vec<char>) -> (r: Option<Opcode>)
        ensures
            r == opcode_of_word(word@),
    {
        let name = upper_case(word);
        Self::from_mnemonic(&name)
    }

    /// The mnemonic of this opcode.
    pub fn name(self) -> (r: Vec<char>)
        ensures
            r@ == mnemonic(self),
    {
        let (a, b, c) = self.spelling();
        let mut out: Vec<char> = Vec::new();
        out.push(a);
        out.push(b);
        out.push(c);
        assert(out@ == seq![a, b, c]);
        out
    }

    /// The three letters of this opcode's mnemonic.
    fn spelling(self) -> (r: (char, char, char))
        ensures
            r == letters(self),
    {
        match self {
            Opcode::ADD => ('A', 'D', 'D'),
            Opcode::SUB => ('S', 'U', 'B'),
            Opcode::MUL => ('M', 'U', 'L'),
            Opcode::DIV => ('D', 'I', 'V'),
            Opcode::MOD => ('M', 'O', 'D'),
            Opcode::INC => ('I', 'N', 'C'),
            Opcode::DEC => ('D', 'E', 'C'),
            Opcode::PSH => ('P', 'S', 'H'),
            Opcode::POP => ('P', 'O', 'P'),
            Opcode::DUP => ('D', 'U', 'P'),
            Opcode::SWP => ('S', 'W', 'P'),
            Opcode::SCL => ('S', 'C', 'L'),
            Opcode::STR => ('S', 'T', 'R'),
            Opcode::LOA => ('L', 'O', 'A'),
            Opcode::MCL => ('M', 'C', 'L'),
            Opcode::MOV => ('M', 'O', 'V'),
            Opcode::COP => ('C', 'O', 'P'),
            Opcode::SET => ('S', 'E', 'T'),
            Opcode::GET => ('G', 'E', 'T'),
            Opcode::JMP => ('J', 'M', 'P'),
            Opcode::JEZ => ('J', 'E', 'Z'),
            Opcode::JNZ => ('J', 'N', 'Z'),
            Opcode::JGZ => ('J', 'G', 'Z'),
            Opcode::JLZ => ('J', 'L', 'Z'),
            Opcode::EQU => ('E', 'Q', 'U'),
            Opcode::NEQ => ('N', 'E', 'Q'),
            Opcode::GTH => ('G', 'T', 'H'),
            Opcode::LTH => ('L', 'T', 'H'),
            Opcode::GTE => ('G', 'T', 'E'),
            Opcode::LTE => ('L', 'T', 'E'),
            Opcode::INP => ('I', 'N', 'P'),
            Opcode::PRT => ('P', 'R', 'T'),
            Opcode::PPT => ('P', 'P', 'T'),
            Opcode::PRC => ('P', 'R', 'C'),
            Opcode::TIM => ('T', 'I', 'M'),
            Opcode::DEB => ('D', 'E', 'B'),
            Opcode::HLT => ('H', 'L', 'T'),
            Opcode::NOP => ('N', 'O', 'P'),
        }
    }
}

} // verus!
