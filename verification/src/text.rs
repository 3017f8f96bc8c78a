//! Text of the source format, as sequences of characters: white space,
//! trimming, splitting a line into words, and signed decimal numbers.

#![allow(unused_imports)]

use vstd::prelude::*;

verus! {

/// White space: the characters that separate words and that trimming removes.
pub open spec fn is_space(c: char) -> bool {
    let u = c as u32;
    ||| 0x09 <= u <= 0x0D
    ||| u == 0x20
    ||| u == 0x85
    ||| u == 0xA0
    ||| u == 0x1680
    ||| 0x2000 <= u <= 0x200A
    ||| u == 0x2028
    ||| u == 0x2029
    ||| u == 0x202F
    ||| u == 0x205F
    ||| u == 0x3000
}

/// The first position at or after `i` that holds no white space, or the
/// length of `s` if only white space follows.
pub open spec fn skip_spaces(s: Seq<char>, i: int) -> int
    decreases s.len() - i,
{
    if 0 <= i < s.len() && is_space(s[i]) {
        skip_spaces(s, i + 1)
    } else {
        i
    }
}

/// The first position at or after `i` that holds white space, or the length
/// of `s` if none follows.
pub open spec fn skip_word(s: Seq<char>, i: int) -> int
    decreases s.len() - i,
{
    if 0 <= i < s.len() && !is_space(s[i]) {
        skip_word(s, i + 1)
    } else {
        i
    }
}

/// The end of `s.take(j)` once its trailing white space is left out.
pub open spec fn skip_spaces_back(s: Seq<char>, j: int) -> int
    decreases j,
{
    if 0 < j <= s.len() && is_space(s[j - 1]) {
        skip_spaces_back(s, j - 1)
    } else {
        j
    }
}

/// `s` without its leading and trailing white space.
pub open spec fn trim(s: Seq<char>) -> Seq<char> {
    let a = skip_spaces(s, 0);
    let b = skip_spaces_back(s, s.len() as int);
    if a < b {
        s.subrange(a, b)
    } else {
        Seq::empty()
    }
}

/// The words of `s` that start at or after `i`: the maximal runs of
/// characters that are not white space, in order.
pub open spec fn words_from(s: Seq<char>, i: int) -> Seq<Seq<char>>
    decreases s.len() - i,
{
    let a = skip_spaces(s, i);
    let b = skip_word(s, a);
    if 0 <= i <= a < b <= s.len() {
        seq![s.subrange(a, b)] + words_from(s, b)
    } else {
        Seq::empty()
    }
}

/// The words of `s`.
pub open spec fn words(s: Seq<char>) -> Seq<Seq<char>> {
    words_from(s, 0)
}

/// `skip_spaces` passes white space only and stops at the first character
/// that is none.
pub proof fn lemma_skip_spaces_bounds(s: Seq<char>, i: int)
    requires
        0 <= i <= s.len(),
    ensures
        i <= skip_spaces(s, i) <= s.len(),
        skip_spaces(s, i) < s.len() ==> !is_space(s[skip_spaces(s, i)]),
        forall|k: int| i <= k < skip_spaces(s, i) ==> is_space(s[k]),
    decreases s.len() - i,
{
    if i < s.len() && is_space(s[i]) {
        lemma_skip_spaces_bounds(s, i + 1);
    }
}

/// `skip_word` passes no white space and stops at the first character that
/// is white space.
pub proof fn lemma_skip_word_bounds(s: Seq<char>, i: int)
    requires
        0 <= i <= s.len(),
    ensures
        i <= skip_word(s, i) <= s.len(),
        skip_word(s, i) < s.len() ==> is_space(s[skip_word(s, i)]),
        forall|k: int| i <= k < skip_word(s, i) ==> !is_space(s[k]),
        i < s.len() && !is_space(s[i]) ==> i < skip_word(s, i),
    decreases s.len() - i,
{
    if i < s.len() && !is_space(s[i]) {
        lemma_skip_word_bounds(s, i + 1);
    }
}

/// `skip_spaces_back` passes white space only, backwards, and stops behind
/// the last character that is none.
pub proof fn lemma_skip_spaces_back_bounds(s: Seq<char>, j: int)
    requires
        0 <= j <= s.len(),
    ensures
        0 <= skip_spaces_back(s, j) <= j,
        skip_spaces_back(s, j) > 0 ==> !is_space(s[skip_spaces_back(s, j) - 1]),
        forall|k: int| skip_spaces_back(s, j) <= k < j ==> is_space(s[k]),
    decreases j,
{
    if 0 < j && is_space(s[j - 1]) {
        lemma_skip_spaces_back_bounds(s, j - 1);
    }
}

/// Whether `s` holds nothing but white space before `a` and from `b` on.
pub open spec fn blank_outside(s: Seq<char>, a: int, b: int) -> bool {
    forall|k: int| 0 <= k < a || b <= k < s.len() ==> is_space(#[trigger] s[k])
}

/// What trimming leaves is a part of the text with nothing but white space
/// before and after it, and it neither starts nor ends with white space.
pub proof fn lemma_trim(s: Seq<char>)
    ensures
        exists|a: int, b: int|
            0 <= a <= b <= s.len() && #[trigger] s.subrange(a, b) == trim(s) && blank_outside(
                s,
                a,
                b,
            ),
        trim(s).len() > 0 ==> !is_space(trim(s)[0]) && !is_space(trim(s)[trim(s).len() - 1]),
{
    let a = skip_spaces(s, 0);
    let b = skip_spaces_back(s, s.len() as int);
    lemma_skip_spaces_bounds(s, 0);
    lemma_skip_spaces_back_bounds(s, s.len() as int);
    if a < b {
        assert(s.subrange(a, b) == trim(s));
        assert(blank_outside(s, a, b));
    } else {
        assert(s.subrange(a, a) == trim(s));
        assert(blank_outside(s, a, a)) by {
            if a < s.len() {
                assert(b > a);
            }
        }
    }
}

/// Every word holds at least one character and no white space.
pub proof fn lemma_words(s: Seq<char>, i: int)
    requires
        0 <= i <= s.len(),
    ensures
        forall|k: int|
            0 <= k < words_from(s, i).len() ==> (#[trigger] words_from(s, i)[k]).len() > 0 && forall|
                j: int,
            |
                0 <= j < words_from(s, i)[k].len() ==> !is_space(words_from(s, i)[k][j]),
    decreases s.len() - i,
{
    let a = skip_spaces(s, i);
    let b = skip_word(s, a);
    lemma_skip_spaces_bounds(s, i);
    lemma_skip_word_bounds(s, a);
    if a < b {
        lemma_words(s, b);
        let first = s.subrange(a, b);
        let rest = words_from(s, b);
        assert(words_from(s, i) == seq![first] + rest);
        assert forall|k: int| 0 <= k < words_from(s, i).len() implies (#[trigger] words_from(
            s,
            i,
        )[k]).len() > 0 && forall|j: int|
            0 <= j < words_from(s, i)[k].len() ==> !is_space(words_from(s, i)[k][j]) by {
            if k == 0 {
                assert(words_from(s, i)[0] == first);
            } else {
                assert(words_from(s, i)[k] == rest[k - 1]);
            }
        }
    }
}

/// A text that starts with a character that is no white space has a first
/// word.
pub proof fn lemma_first_word(s: Seq<char>)
    requires
        s.len() > 0,
        !is_space(s[0]),
    ensures
        words(s).len() > 0,
{
    lemma_skip_word_bounds(s, 0);
}

/// Whether `c` is white space.
pub fn is_space_char(c: char) -> (r: bool)
    ensures
        r == is_space(c),
{
    let u: u32 = c as u32;
    (0x09 <= u && u <= 0x0D) || u == 0x20 || u == 0x85 || u == 0xA0 || u == 0x1680 || (0x2000 <= u
        && u <= 0x200A) || u == 0x2028 || u == 0x2029 || u == 0x202F || u == 0x205F || u == 0x3000
}

/// The characters of `s`.
pub fn chars_of(s: &str) -> (r: Vec<char>)
    ensures
        r@ == s@,
{
    let mut out: Vec<char> = Vec::new();
    for c in it: s.chars()
        invariant
            it.seq() == s@,
            out@ == it.seq().take(it.index() as int),
    {
        out.push(c);
    }
    out
}

/// A copy of the characters of `s` from `a` up to `b`.
pub(crate) fn copy_range(s: &Vec<char>, a: usize, b: usize) -> (r: Vec<char>)
    requires
        a <= b <= s.len(),
    ensures
        r@ == s@.subrange(a as int, b as int),
{
    let mut out: Vec<char> = Vec::new();
    let mut i: usize = a;
    while i < b
        invariant
            a <= i <= b <= s.len(),
            out@ == s@.subrange(a as int, i as int),
        decreases b - i,
    {
        out.push(s[i]);
        i = i + 1;
    }
    out
}

/// Whether two texts hold the same characters.
pub fn same_text(a: &Vec<char>, b: &Vec<char>) -> (r: bool)
    ensures
        r == (a@ == b@),
{
    if a.len() != b.len() {
        return false;
    }
    let mut i: usize = 0;
    while i < a.len()
        invariant
            a.len() == b.len(),
            i <= a.len(),
            a@.take(i as int) == b@.take(i as int),
        decreases a.len() - i,
    {
        if a[i] != b[i] {
            return false;
        }
        assert(a@.take(i + 1) == a@.take(i as int).push(a@[i as int]));
        assert(b@.take(i + 1) == b@.take(i as int).push(b@[i as int]));
        i = i + 1;
    }
    assert(a@.take(a.len() as int) == a@);
    assert(b@.take(b.len() as int) == b@);
    true
}

/// `s` without its leading and trailing white space.
pub fn trimmed(s: &Vec<char>) -> (r: Vec<char>)
    ensures
        r@ == trim(s@),
{
    let n: usize = s.len();
    let mut a: usize = 0;
    while a < n && is_space_char(s[a])
        invariant
            a <= n == s.len(),
            skip_spaces(s@, 0) == skip_spaces(s@, a as int),
        decreases n - a,
    {
        a = a + 1;
    }
    let mut b: usize = n;
    while b > 0 && is_space_char(s[b - 1])
        invariant
            b <= n == s.len(),
            skip_spaces_back(s@, n as int) == skip_spaces_back(s@, b as int),
        decreases b,
    {
        b = b - 1;
    }
    if a < b {
        copy_range(s, a, b)
    } else {
        Vec::new()
    }
}

/// Whether every character of `s` is an ASCII character.
pub open spec fn is_ascii_text(s: Seq<char>) -> bool {
    forall|i: int| 0 <= i < s.len() ==> (#[trigger] s[i]) as u32 <= 0x7F
}

/// The upper-case letter for `a` to `z`, and any other character itself.
pub open spec fn ascii_upper(c: char) -> char {
    if 'a' <= c <= 'z' {
        ((c as u32) - 0x20) as char
    } else {
        c
    }
}

/// What `str::to_uppercase` makes of a text: its characters in upper case,
/// as Unicode defines it.
pub uninterp spec fn uppercase_of(s: Seq<char>) -> Seq<char>;

/// `s` in upper case. In an ASCII text the letters `a` to `z` become `A` to
/// `Z` and nothing else changes; the upper case of any other text is what
/// Unicode defines.
pub open spec fn upper(s: Seq<char>) -> Seq<char> {
    if is_ascii_text(s) {
        s.map_values(|c: char| ascii_upper(c))
    } else {
        uppercase_of(s)
    }
}

/// The text in upper case, by `str::to_uppercase`. The result depends on the
/// characters alone; nothing more is claimed of it.
#[verifier::external_body]
fn to_uppercase(s: &Vec<char>) -> (r: Vec<char>)
    ensures
        r@ == uppercase_of(s@),
{
    let text: String = s.iter().collect();
    text.to_uppercase().chars().collect()
}

/// `s` in upper case.
pub fn upper_case(s: &Vec<char>) -> (r: Vec<char>)
    ensures
        r@ == upper(s@),
{
    let mut out: Vec<char> = Vec::new();
    let mut i: usize = 0;
    while i < s.len()
        invariant
            i <= s.len(),
            is_ascii_text(s@.take(i as int)),
            out@ == s@.take(i as int).map_values(|c: char| ascii_upper(c)),
        decreases s.len() - i,
    {
        let c: char = s[i];
        let u: u32 = c as u32;
        if u > 0x7F {
            assert(!is_ascii_text(s@)) by {
                assert(s@[i as int] == c);
            }
            return to_uppercase(s);
        }
        let up: char = if 0x61 <= u && u <= 0x7A {
            ((u - 0x20) as u8) as char
        } else {
            c
        };
        assert(up == ascii_upper(c));
        out.push(up);
        proof {
            let before = s@.take(i as int);
            let after = s@.take(i + 1);
            assert(after == before.push(c));
            assert(after.map_values(|c: char| ascii_upper(c)) == before.map_values(
                |c: char| ascii_upper(c),
            ).push(ascii_upper(c)));
            assert forall|k: int| 0 <= k < after.len() implies (#[trigger] after[k]) as u32
                <= 0x7F by {
                if k < i {
                    assert(after[k] == before[k]);
                }
            }
        }
        i = i + 1;
    }
    assert(s@.take(s.len() as int) == s@);
    out
}

/// The texts that a vector of character vectors holds.
pub open spec fn texts(v: Seq<Vec<char>>) -> Seq<Seq<char>> {
    v.map_values(|w: Vec<char>| w@)
}

/// The words of `s`, in order.
pub fn split_words(s: &Vec<char>) -> (r: Vec<Vec<char>>)
    ensures
        texts(r@) == words(s@),
{
    let n: usize = s.len();
    let mut out: Vec<Vec<char>> = Vec::new();
    let mut i: usize = 0;
    assert(texts(out@) + words_from(s@, 0) == words(s@));
    loop
        invariant_except_break
            i <= n == s.len(),
            words(s@) == texts(out@) + words_from(s@, i as int),
        ensures
            texts(out@) == words(s@),
        decreases n - i,
    {
        let mut a: usize = i;
        while a < n && is_space_char(s[a])
            invariant
                i <= a <= n == s.len(),
                skip_spaces(s@, i as int) == skip_spaces(s@, a as int),
            decreases n - a,
        {
            a = a + 1;
        }
        let mut b: usize = a;
        while b < n && !is_space_char(s[b])
            invariant
                a <= b <= n == s.len(),
                skip_word(s@, a as int) == skip_word(s@, b as int),
            decreases n - b,
        {
            b = b + 1;
        }
        if a == b {
            assert(words_from(s@, i as int) == Seq::<Seq<char>>::empty());
            assert(texts(out@) + Seq::<Seq<char>>::empty() == texts(out@));
            break;
        }
        let word = copy_range(s, a, b);
        let ghost before = texts(out@);
        out.push(word);
        proof {
            let w = s@.subrange(a as int, b as int);
            assert(texts(out@) == before.push(w));
            assert(words_from(s@, i as int) == seq![w] + words_from(s@, b as int));
            assert(before + (seq![w] + words_from(s@, b as int)) == before.push(w) + words_from(
                s@,
                b as int,
            ));
        }
        i = b;
    }
    out
}

} // verus!
