//! The label table: which instruction index each label name stands for.

#![allow(unused_imports)]

use vstd::prelude::*;
use crate::text::{copy_range, same_text};

verus! {

/// A label name and the instruction index it stands for.
#[derive(Debug, Clone, PartialEq, Eq)]
struct Label {
    name: Vec<char>,
    target: usize,
}

/// A table from label names to instruction indices. No name occurs twice in
/// it: binding a name again replaces what it stood for.
#[derive(Debug, PartialEq, Eq)]
pub struct LabelTable {
    entries: Vec<Label>,
}

/// Whether the entry at `i` has the name `name`.
spec fn named(entries: Seq<Label>, i: int, name: Seq<char>) -> bool {
    0 <= i < entries.len() && entries[i].name@ == name
}

/// Whether no two entries share a name.
spec fn distinct(entries: Seq<Label>) -> bool {
    forall|i: int, j: int|
        0 <= i < j < entries.len() ==> (#[trigger] entries[i]).name@ != (
        #[trigger] entries[j]).name@
}

/// Whether some entry has the name `name`.
spec fn holds(entries: Seq<Label>, name: Seq<char>) -> bool {
    exists|i: int| named(entries, i, name)
}

/// The map that the entries stand for.
spec fn table_of(entries: Seq<Label>) -> Map<Seq<char>, usize> {
    Map::new(
        |name: Seq<char>| holds(entries, name),
        |name: Seq<char>| entries[choose|i: int| named(entries, i, name)].target,
    )
}

/// A table with the entry at `at` replaced by one of the same name.
proof fn lemma_table_of_update(before: Seq<Label>, after: Seq<Label>, at: int)
    requires
        distinct(before),
        0 <= at < before.len(),
        after.len() == before.len(),
        after[at].name@ == before[at].name@,
        forall|i: int| 0 <= i < before.len() && i != at ==> after[i] == before[i],
    ensures
        distinct(after),
        table_of(after) == table_of(before).insert(after[at].name@, after[at].target),
{
    let key = after[at].name@;
    assert forall|a: int, b: int| 0 <= a < b < after.len() implies (#[trigger] after[a]).name@ != (
    #[trigger] after[b]).name@ by {
        assert(before[a].name@ != before[b].name@);
    }
    assert forall|k: Seq<char>| #[trigger] holds(after, k) == holds(before, k) by {
        if holds(after, k) {
            let j = choose|j: int| named(after, j, k);
            assert(named(before, j, k));
        }
        if holds(before, k) {
            let j = choose|j: int| named(before, j, k);
            assert(named(after, j, k));
        }
    }
    assert(named(before, at, key));
    assert forall|k: Seq<char>| #[trigger] holds(after, k) implies table_of(after)[k] == table_of(
        before,
    ).insert(key, after[at].target)[k] by {
        let j = choose|j: int| named(after, j, k);
        lemma_table_of_entry(after, j);
        if k != key {
            assert(named(before, j, k));
            lemma_table_of_entry(before, j);
        } else {
            lemma_table_of_entry(after, at);
        }
    }
    assert(table_of(after) =~= table_of(before).insert(key, after[at].target));
}

/// A table with one entry of a new name added at the end.
proof fn lemma_table_of_push(before: Seq<Label>, entry: Label)
    requires
        distinct(before),
        !holds(before, entry.name@),
    ensures
        distinct(before.push(entry)),
        table_of(before.push(entry)) == table_of(before).insert(entry.name@, entry.target),
{
    let after = before.push(entry);
    let key = entry.name@;
    let last = before.len() as int;
    assert forall|a: int, b: int| 0 <= a < b < after.len() implies (#[trigger] after[a]).name@ != (
    #[trigger] after[b]).name@ by {
        if b < last {
            assert(before[a].name@ != before[b].name@);
        } else {
            assert(!named(before, a, key));
        }
    }
    assert forall|k: Seq<char>| #[trigger] holds(after, k) == (k == key || holds(before, k)) by {
        if holds(after, k) {
            let j = choose|j: int| named(after, j, k);
            if j < last {
                assert(named(before, j, k));
            }
        }
        if holds(before, k) {
            let j = choose|j: int| named(before, j, k);
            assert(named(after, j, k));
        }
        if k == key {
            assert(named(after, last, k));
        }
    }
    assert forall|k: Seq<char>| #[trigger] holds(after, k) implies table_of(after)[k] == table_of(
        before,
    ).insert(key, entry.target)[k] by {
        let j = choose|j: int| named(after, j, k);
        lemma_table_of_entry(after, j);
        if k != key {
            assert(named(before, j, k));
            lemma_table_of_entry(before, j);
        } else {
            assert(named(after, last, k));
            lemma_table_of_entry(after, last);
        }
    }
    assert(table_of(after) =~= table_of(before).insert(key, entry.target));
}

/// Entries with the same names and targets, one by one, stand for the same map.
proof fn lemma_table_of_same(a: Seq<Label>, b: Seq<Label>)
    requires
        distinct(b),
        a.len() == b.len(),
        forall|i: int|
            0 <= i < a.len() ==> (#[trigger] a[i]).name@ == b[i].name@ && a[i].target
                == b[i].target,
    ensures
        distinct(a),
        table_of(a) == table_of(b),
{
    assert forall|x: int, y: int| 0 <= x < y < a.len() implies (#[trigger] a[x]).name@ != (
    #[trigger] a[y]).name@ by {
        assert(b[x].name@ != b[y].name@);
    }
    assert forall|k: Seq<char>| #[trigger] holds(a, k) == holds(b, k) by {
        if holds(a, k) {
            let j = choose|j: int| named(a, j, k);
            assert(named(b, j, k));
        }
        if holds(b, k) {
            let j = choose|j: int| named(b, j, k);
            assert(named(a, j, k));
        }
    }
    assert forall|k: Seq<char>| #[trigger] holds(a, k) implies table_of(a)[k] == table_of(b)[k] by {
        let j = choose|j: int| named(a, j, k);
        lemma_table_of_entry(a, j);
        assert(named(b, j, k));
        lemma_table_of_entry(b, j);
    }
    assert(table_of(a) =~= table_of(b));
}

/// Each entry of a table of distinct names is what the table has under its
/// name.
proof fn lemma_table_of_entry(entries: Seq<Label>, i: int)
    requires
        distinct(entries),
        0 <= i < entries.len(),
    ensures
        table_of(entries).contains_key(entries[i].name@),
        table_of(entries)[entries[i].name@] == entries[i].target,
{
    let name = entries[i].name@;
    assert(named(entries, i, name));
    let j = choose|j: int| named(entries, j, name);
    assert(j == i) by {
        if j < i {
            assert(entries[j].name@ != entries[i].name@);
        } else if i < j {
            assert(entries[i].name@ != entries[j].name@);
        }
    }
}

impl View for LabelTable {
    type V = Map<Seq<char>, usize>;

    /// The table as a map from names to instruction indices.
    closed spec fn view(&self) -> Map<Seq<char>, usize> {
        table_of(self.entries@)
    }
}

impl Clone for LabelTable {
    /// A copy of the table.
    fn clone(&self) -> (r: Self)
        ensures
            r@ == self@,
    {
        self.copy()
    }
}

impl LabelTable {
    /// No name occurs twice.
    #[verifier::type_invariant]
    spec fn names_occur_once(self) -> bool {
        distinct(self.entries@)
    }

    /// A table with no label in it.
    pub fn new() -> (r: Self)
        ensures
            r@ == Map::<Seq<char>, usize>::empty(),
    {
        let r = LabelTable { entries: Vec::new() };
        assert(r@ =~= Map::<Seq<char>, usize>::empty());
        r
    }

    /// Where in the entries `name` stands, if it does.
    fn position(&self, name: &Vec<char>) -> (r: Option<usize>)
        ensures
            match r {
                Some(i) => named(self.entries@, i as int, name@),
                None => forall|i: int| !named(self.entries@, i, name@),
            },
    {
        let mut i: usize = 0;
        while i < self.entries.len()
            invariant
                i <= self.entries.len(),
                forall|k: int| 0 <= k < i ==> !named(self.entries@, k, name@),
            decreases self.entries.len() - i,
        {
            if same_text(&self.entries[i].name, name) {
                return Some(i);
            }
            i = i + 1;
        }
        None
    }

    /// The instruction index that `name` stands for, if the table has it.
    pub fn get(&self, name: &Vec<char>) -> (r: Option<usize>)
        ensures
            r == (if self@.contains_key(name@) {
                Some(self@[name@])
            } else {
                None
            }),
    {
        proof {
            use_type_invariant(self);
        }
        match self.position(name) {
            Some(i) => {
                proof {
                    lemma_table_of_entry(self.entries@, i as int);
                }
                Some(self.entries[i].target)
            },
            None => None,
        }
    }

    /// Binds `name` to `target`, in place of what it stood for before.
    pub fn insert(&mut self, name: Vec<char>, target: usize)
        ensures
            final(self)@ == old(self)@.insert(name@, target),
    {
        proof {
            use_type_invariant(&*self);
        }
        let ghost before = self.entries@;
        let found: Option<usize> = self.position(&name);
        let entry = Label { name, target };
        let mut entries: Vec<Label> = Vec::new();
        core::mem::swap(&mut self.entries, &mut entries);
        match found {
            Some(i) => {
                entries.set(i, entry);
                proof {
                    lemma_table_of_update(before, entries@, i as int);
                }
            },
            None => {
                proof {
                    assert(!holds(before, entry.name@));
                    lemma_table_of_push(before, entry);
                }
                entries.push(entry);
            },
        }
        self.entries = entries;
    }

    /// How many names the table holds.
    pub fn len(&self) -> (r: usize)
        ensures
            r == self@.len(),
    {
        proof {
            use_type_invariant(self);
            lemma_table_len(self.entries@);
        }
        self.entries.len()
    }

    /// The names of the table, each once, with what they stand for. The
    /// order is not part of the table.
    pub fn entries(&self) -> (r: Vec<(Vec<char>, usize)>)
        ensures
            r.len() == self@.len(),
            forall|i: int|
                0 <= i < r.len() ==> self@.contains_key((#[trigger] r[i]).0@) && self@[r[i].0@]
                    == r[i].1,
            forall|name: Seq<char>|
                self@.contains_key(name) ==> exists|i: int|
                    0 <= i < r.len() && (#[trigger] r[i]).0@ == name,
    {
        proof {
            use_type_invariant(self);
            lemma_table_len(self.entries@);
        }
        let mut out: Vec<(Vec<char>, usize)> = Vec::new();
        let mut i: usize = 0;
        while i < self.entries.len()
            invariant
                i <= self.entries.len(),
                out.len() == i,
                distinct(self.entries@),
                forall|k: int|
                    0 <= k < i ==> (#[trigger] out[k]).0@ == self.entries[k].name@ && out[k].1
                        == self.entries[k].target,
            decreases self.entries.len() - i,
        {
            let name = copy_range(&self.entries[i].name, 0, self.entries[i].name.len());
            assert(name@ == self.entries[i as int].name@);
            out.push((name, self.entries[i].target));
            i = i + 1;
        }
        proof {
            assert forall|k: int| 0 <= k < out.len() implies self@.contains_key(
                (#[trigger] out[k]).0@,
            ) && self@[out[k].0@] == out[k].1 by {
                lemma_table_of_entry(self.entries@, k);
            }
            assert forall|name: Seq<char>| self@.contains_key(name) implies exists|k: int|
                0 <= k < out.len() && (#[trigger] out[k]).0@ == name by {
                let j = choose|j: int| named(self.entries@, j, name);
                assert(out[j].0@ == name);
            }
        }
        out
    }

    /// A copy of the table.
    pub fn copy(&self) -> (r: Self)
        ensures
            r@ == self@,
    {
        proof {
            use_type_invariant(self);
        }
        let mut out: Vec<Label> = Vec::new();
        let mut i: usize = 0;
        while i < self.entries.len()
            invariant
                i <= self.entries.len(),
                out.len() == i,
                forall|k: int|
                    0 <= k < i ==> (#[trigger] out[k]).name@ == self.entries[k].name@
                        && out[k].target == self.entries[k].target,
            decreases self.entries.len() - i,
        {
            let name = copy_range(&self.entries[i].name, 0, self.entries[i].name.len());
            assert(name@ == self.entries[i as int].name@);
            out.push(Label { name, target: self.entries[i].target });
            i = i + 1;
        }
        proof {
            lemma_table_of_same(out@, self.entries@);
        }
        LabelTable { entries: out }
    }
}

/// A table of distinct names has as many keys as entries.
proof fn lemma_table_len(entries: Seq<Label>)
    requires
        distinct(entries),
    ensures
        table_of(entries).dom().finite(),
        table_of(entries).len() == entries.len(),
    decreases entries.len(),
{
    if entries.len() == 0 {
        assert(table_of(entries) =~= Map::<Seq<char>, usize>::empty());
    } else {
        let rest = entries.drop_last();
        let last = entries.last();
        assert(distinct(rest)) by {
            assert forall|i: int, j: int| 0 <= i < j < rest.len() implies (
            #[trigger] rest[i]).name@ != (#[trigger] rest[j]).name@ by {
                assert(entries[i].name@ != entries[j].name@);
            }
        }
        lemma_table_len(rest);
        assert(!table_of(rest).contains_key(last.name@)) by {
            if table_of(rest).contains_key(last.name@) {
                let j = choose|j: int| named(rest, j, last.name@);
                assert(entries[j].name@ != entries[entries.len() - 1].name@);
            }
        }
        assert(entries == rest.push(last));
        assert(!holds(rest, last.name@));
        lemma_table_of_push(rest, last);
    }
}

} // verus!
