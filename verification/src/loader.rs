//! The loader: from source lines to a program, in two passes.
//!
//! The first pass binds each label to the number of instructions that the
//! lines above it put into the program: the index of the instruction that
//! follows the label. The second pass turns each instruction line into an
//! instruction, with label names replaced by what they are bound to, so that
//! a line may refer to a label that is defined further down.

#![allow(unused_imports)]

use vstd::prelude::*;
use crate::labels::LabelTable;
use crate::number::{parse_i32, parse_number};
use crate::opcode::{opcode_of_word, Instruction, Opcode};
use crate::text::{
    chars_of,
    copy_range,
    is_space,
    lemma_first_word,
    lemma_trim,
    split_words,
    texts,
    trim,
    trimmed,
    words,
};
use crate::word::{word_from_usize, wrap32};

verus! {

/// What a source line is.
#[derive(Debug, Clone, Copy, PartialEq, Eq, Structural)]
pub enum LineKind {
    /// Nothing but white space.
    Blank,
    /// A comment: the first character that is not white space is `#`.
    Comment,
    /// A label definition: the last character that is not white space is `:`.
    Label,
    /// Anything else: a mnemonic and its operands.
    Instruction,
}

/// An instruction line that was left out of the program because its first
/// word is no mnemonic.
#[derive(Debug, Clone, PartialEq, Eq)]
pub struct Rejected {
    /// The index of the line in the source.
    pub line: usize,
    /// The first word of the line.
    pub word: Vec<char>,
}

/// What a source line is.
pub open spec fn line_kind(line: Seq<char>) -> LineKind {
    let t = trim(line);
    if t.len() == 0 {
        LineKind::Blank
    } else if t[0] == '#' {
        LineKind::Comment
    } else if t[t.len() - 1] == ':' {
        LineKind::Label
    } else {
        LineKind::Instruction
    }
}

/// The name that a label line defines: what stands before the colon, without
/// the white space around it.
pub open spec fn label_name(line: Seq<char>) -> Seq<char> {
    trim(trim(line).drop_last())
}

/// Whether the line puts an instruction into the program: it is an
/// instruction line and its first word is a mnemonic.
pub open spec fn emits(line: Seq<char>) -> bool {
    line_kind(line) == LineKind::Instruction && opcode_of_word(words(trim(line))[0]) is Some
}

/// How many of the lines put an instruction into the program.
pub open spec fn instruction_count(lines: Seq<Seq<char>>) -> nat
    decreases lines.len(),
{
    if lines.len() == 0 {
        0
    } else if emits(lines.last()) {
        instruction_count(lines.drop_last()) + 1
    } else {
        instruction_count(lines.drop_last())
    }
}

/// The label table after the first pass over `lines`, which started with
/// `table`: each label line binds its name to the number of instructions
/// that the lines above it put into the program. A later line of the same
/// name binds it again.
pub open spec fn scan_labels(lines: Seq<Seq<char>>, table: Map<Seq<char>, usize>) -> Map<
    Seq<char>,
    usize,
>
    decreases lines.len(),
{
    if lines.len() == 0 {
        table
    } else if line_kind(lines.last()) == LineKind::Label {
        scan_labels(lines.drop_last(), table).insert(
            label_name(lines.last()),
            instruction_count(lines.drop_last()) as usize,
        )
    } else {
        scan_labels(lines.drop_last(), table)
    }
}

/// The first operand of an instruction line with the words `w`: the second
/// word, as the index that the label of this name is bound to, or else as a
/// number; absent where the word is neither.
pub open spec fn first_operand(w: Seq<Seq<char>>, labels: Map<Seq<char>, usize>) -> Option<i32> {
    if w.len() < 2 {
        None
    } else if labels.contains_key(w[1]) {
        Some(wrap32(labels[w[1]] as int))
    } else {
        parse_i32(w[1])
    }
}

/// The second operand of an instruction line with the words `w`: the third
/// word as a number; absent where it is none.
pub open spec fn second_operand(w: Seq<Seq<char>>) -> Option<i32> {
    if w.len() < 3 {
        None
    } else {
        parse_i32(w[2])
    }
}

/// The instruction that an instruction line stands for; `None` where its
/// first word is no mnemonic.
pub open spec fn decode(line: Seq<char>, labels: Map<Seq<char>, usize>) -> Option<Instruction> {
    let w = words(trim(line));
    match opcode_of_word(w[0]) {
        Some(op) => Some((op, first_operand(w, labels), second_operand(w))),
        None => None,
    }
}

/// The program that the second pass makes of `lines` with the label table
/// `labels`: the instructions of the instruction lines, in order. Lines whose
/// first word is no mnemonic are left out.
pub open spec fn assemble(lines: Seq<Seq<char>>, labels: Map<Seq<char>, usize>) -> Seq<
    Instruction,
>
    decreases lines.len(),
{
    if lines.len() == 0 {
        Seq::empty()
    } else if emits(lines.last()) {
        assemble(lines.drop_last(), labels).push(decode(lines.last(), labels)->0)
    } else {
        assemble(lines.drop_last(), labels)
    }
}

/// The instruction lines that the second pass leaves out, each with its
/// index and its first word, in order.
pub open spec fn rejected_lines(lines: Seq<Seq<char>>) -> Seq<(int, Seq<char>)>
    decreases lines.len(),
{
    if lines.len() == 0 {
        Seq::empty()
    } else if line_kind(lines.last()) == LineKind::Instruction && !emits(lines.last()) {
        rejected_lines(lines.drop_last()).push(
            (lines.len() - 1, words(trim(lines.last()))[0]),
        )
    } else {
        rejected_lines(lines.drop_last())
    }
}

/// The rejected lines as mathematical values.
pub open spec fn rejected_views(v: Seq<Rejected>) -> Seq<(int, Seq<char>)> {
    v.map_values(|r: Rejected| (r.line as int, r.word@))
}

/// The texts of source lines.
pub open spec fn line_texts(lines: Seq<String>) -> Seq<Seq<char>> {
    lines.map_values(|l: String| l@)
}

/// What the line is, together with the line without the white space around
/// it.
pub fn classify(line: &Vec<char>) -> (r: (LineKind, Vec<char>))
    ensures
        r.0 == line_kind(line@),
        r.1@ == trim(line@),
{
    let t = trimmed(line);
    let n: usize = t.len();
    let kind = if n == 0 {
        LineKind::Blank
    } else if t[0] == '#' {
        LineKind::Comment
    } else if t[n - 1] == ':' {
        LineKind::Label
    } else {
        LineKind::Instruction
    };
    (kind, t)
}

/// The characters of each line.
pub fn chars_of_lines(lines: &Vec<String>) -> (r: Vec<Vec<char>>)
    ensures
        texts(r@) == line_texts(lines@),
{
    let mut out: Vec<Vec<char>> = Vec::new();
    let mut i: usize = 0;
    while i < lines.len()
        invariant
            i <= lines.len(),
            texts(out@) == line_texts(lines@.take(i as int)),
        decreases lines.len() - i,
    {
        let line = chars_of(lines[i].as_str());
        let ghost before = texts(out@);
        out.push(line);
        proof {
            assert(texts(out@) == before.push(lines@[i as int]@));
            assert(lines@.take(i + 1) == lines@.take(i as int).push(lines@[i as int]));
            assert(line_texts(lines@.take(i + 1)) == line_texts(lines@.take(i as int)).push(
                lines@[i as int]@,
            ));
        }
        i = i + 1;
    }
    assert(lines@.take(lines.len() as int) == lines@);
    out
}

/// The first pass: binds in `table` each label that `lines` define.
pub fn bind_labels(lines: &Vec<Vec<char>>, table: &mut LabelTable)
    ensures
        final(table)@ == scan_labels(texts(lines@), old(table)@),
{
    let ghost all = texts(lines@);
    let mut count: usize = 0;
    let mut i: usize = 0;
    while i < lines.len()
        invariant
            i <= lines.len(),
            all == texts(lines@),
            count == instruction_count(all.take(i as int)),
            count <= i,
            table@ == scan_labels(all.take(i as int), old(table)@),
        decreases lines.len() - i,
    {
        let ghost line = all[i as int];
        proof {
            assert(all.take(i + 1).drop_last() == all.take(i as int));
            assert(all.take(i + 1).last() == line);
            assert(line == lines@[i as int]@);
        }
        let (kind, t) = classify(&lines[i]);
        match kind {
            LineKind::Label => {
                let mut name = t;
                name.pop();
                let name = trimmed(&name);
                assert(name@ == label_name(line));
                table.insert(name, count);
            },
            LineKind::Instruction => {
                proof {
                    lemma_trim(line);
                }
                let (op, _) = read_opcode(&t);
                if op.is_some() {
                    count = count + 1;
                }
            },
            _ => {},
        }
        i = i + 1;
    }
    assert(all.take(lines.len() as int) == all);
}

/// The words of an instruction line, which comes without the white space
/// around it, and the opcode that the first word names.
fn read_opcode(t: &Vec<char>) -> (r: (Option<Opcode>, Vec<Vec<char>>))
    requires
        t@.len() > 0,
        !is_space(t@[0]),
    ensures
        texts(r.1@) == words(t@),
        r.1@.len() > 0,
        r.0 == opcode_of_word(words(t@)[0]),
{
    let w = split_words(t);
    proof {
        lemma_first_word(t@);
    }
    assert(texts(w@).len() == w@.len());
    assert(texts(w@)[0] == w@[0]@);
    let op = Opcode::from_word(&w[0]);
    (op, w)
}

/// The first operand that the words of an instruction line give.
fn read_first_operand(w: &Vec<Vec<char>>, labels: &LabelTable) -> (r: Option<i32>)
    ensures
        r == first_operand(texts(w@), labels@),
{
    if w.len() < 2 {
        None
    } else {
        assert(texts(w@)[1] == w@[1]@);
        match labels.get(&w[1]) {
            Some(index) => Some(word_from_usize(index)),
            None => parse_number(&w[1]),
        }
    }
}

/// The second operand that the words of an instruction line give.
fn read_second_operand(w: &Vec<Vec<char>>) -> (r: Option<i32>)
    ensures
        r == second_operand(texts(w@)),
{
    if w.len() < 3 {
        None
    } else {
        assert(texts(w@)[2] == w@[2]@);
        parse_number(&w[2])
    }
}

/// The second pass: the program that `lines` write, with label names
/// replaced by what `labels` binds them to, and the instruction lines that
/// were left out because their first word is no mnemonic.
pub fn emit_program(lines: &Vec<Vec<char>>, labels: &LabelTable) -> (r: (
    Vec<Instruction>,
    Vec<Rejected>,
))
    ensures
        r.0@ == assemble(texts(lines@), labels@),
        rejected_views(r.1@) == rejected_lines(texts(lines@)),
{
    let ghost all = texts(lines@);
    let mut program: Vec<Instruction> = Vec::new();
    let mut rejected: Vec<Rejected> = Vec::new();
    let mut i: usize = 0;
    while i < lines.len()
        invariant
            i <= lines.len(),
            all == texts(lines@),
            program@ == assemble(all.take(i as int), labels@),
            rejected_views(rejected@) == rejected_lines(all.take(i as int)),
        decreases lines.len() - i,
    {
        let ghost line = all[i as int];
        proof {
            assert(all.take(i + 1).drop_last() == all.take(i as int));
            assert(all.take(i + 1).last() == line);
            assert(line == lines@[i as int]@);
        }
        let (kind, t) = classify(&lines[i]);
        if kind == LineKind::Instruction {
            proof {
                lemma_trim(line);
            }
            let (op, w) = read_opcode(&t);
            assert(texts(w@)[0] == w@[0]@);
            match op {
                Some(op) => {
                    let a = read_first_operand(&w, labels);
                    let b = read_second_operand(&w);
                    program.push((op, a, b));
                },
                None => {
                    let word = copy_range(&w[0], 0, w[0].len());
                    assert(word@ == w@[0]@);
                    let ghost before = rejected_views(rejected@);
                    rejected.push(Rejected { line: i, word });
                    assert(rejected_views(rejected@) == before.push((i as int, w@[0]@)));
                },
            }
        }
        i = i + 1;
    }
    assert(all.take(lines.len() as int) == all);
    (program, rejected)
}

} // verus!
