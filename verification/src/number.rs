//! Signed decimal numbers as text: reading a word as a 32-bit value, and
//! writing a value out.

#![allow(unused_imports)]

use vstd::prelude::*;

verus! {

/// Whether `c` is one of `0` to `9`.
pub open spec fn is_digit(c: char) -> bool {
    '0' <= c <= '9'
}

/// The value of the digit `c`.
pub open spec fn digit_value(c: char) -> int {
    c as int - '0' as int
}

/// Whether `s` holds digits only.
pub open spec fn all_digits(s: Seq<char>) -> bool {
    forall|i: int| 0 <= i < s.len() ==> is_digit(#[trigger] s[i])
}

/// The number that the digits of `s` write in base ten.
pub open spec fn digits_value(s: Seq<char>) -> int
    decreases s.len(),
{
    if s.len() == 0 {
        0
    } else {
        10 * digits_value(s.drop_last()) + digit_value(s.last())
    }
}

/// Whether `s` starts with a sign.
pub open spec fn has_sign(s: Seq<char>) -> bool {
    s.len() > 0 && (s[0] == '-' || s[0] == '+')
}

/// The value that `s` writes, where it is a number: an optional `+` or `-`,
/// then one digit or more, nothing else, and a value that fits in 32 bits.
pub open spec fn parse_i32(s: Seq<char>) -> Option<i32> {
    let digits = if has_sign(s) {
        s.drop_first()
    } else {
        s
    };
    let value = if has_sign(s) && s[0] == '-' {
        -digits_value(digits)
    } else {
        digits_value(digits)
    };
    if digits.len() > 0 && all_digits(digits) && i32::MIN <= value <= i32::MAX {
        Some(value as i32)
    } else {
        None
    }
}

/// The character that writes the digit `d`.
pub open spec fn digit_char(d: int) -> char {
    ('0' as int + d) as char
}

/// The digits that write `n` in base ten, with no leading zero.
pub open spec fn natural_text(n: nat) -> Seq<char>
    decreases n,
{
    if n < 10 {
        seq![digit_char(n as int)]
    } else {
        natural_text(n / 10).push(digit_char((n % 10) as int))
    }
}

/// The text that writes `v` in base ten, with `-` in front where it is negative.
pub open spec fn decimal_text(v: int) -> Seq<char> {
    if v < 0 {
        seq!['-'] + natural_text((-v) as nat)
    } else {
        natural_text(v as nat)
    }
}

/// Digits write a number that is not negative, and a longer run of digits
/// writes no smaller number than its beginning.
pub proof fn lemma_digits_value_grows(s: Seq<char>, k: int)
    requires
        all_digits(s),
        0 <= k <= s.len(),
    ensures
        0 <= digits_value(s.take(k)) <= digits_value(s),
    decreases s.len(),
{
    if k == s.len() {
        assert(s.take(k) == s);
        if s.len() > 0 {
            lemma_digits_value_grows(s.drop_last(), k - 1);
            assert(s.drop_last().take(k - 1) == s.drop_last());
        }
    } else {
        lemma_digits_value_grows(s.drop_last(), k);
        assert(s.drop_last().take(k) == s.take(k));
    }
}

/// What `decimal_text` writes, `parse_i32` reads back.
pub proof fn lemma_parse_decimal_text(v: i32)
    ensures
        parse_i32(decimal_text(v as int)) == Some(v),
{
    if v < 0 {
        let n = (-(v as int)) as nat;
        lemma_natural_text_digits(n);
        let s = decimal_text(v as int);
        assert(s.drop_first() == natural_text(n));
    } else {
        lemma_natural_text_digits(v as nat);
    }
}

/// The text of a natural number holds digits only, at least one, and they
/// write that number.
pub proof fn lemma_natural_text_digits(n: nat)
    ensures
        natural_text(n).len() > 0,
        all_digits(natural_text(n)),
        digits_value(natural_text(n)) == n,
        !has_sign(natural_text(n)),
    decreases n,
{
    if n < 10 {
        let s = natural_text(n);
        assert(s.drop_last() == Seq::<char>::empty());
        assert(digits_value(s.drop_last()) == 0);
    } else {
        lemma_natural_text_digits(n / 10);
        let s = natural_text(n);
        assert(s.drop_last() == natural_text(n / 10));
        assert(s[0] == natural_text(n / 10)[0]);
    }
}

/// The value of a digit character, `None` for any other character.
pub fn digit_of(c: char) -> (r: Option<u8>)
    ensures
        r == (if is_digit(c) {
            Some(digit_value(c) as u8)
        } else {
            None
        }),
{
    let u: u32 = c as u32;
    if 48 <= u && u <= 57 {
        Some((u - 48) as u8)
    } else {
        None
    }
}

/// Reads `s` as a signed 32-bit number.
pub fn parse_number(s: &Vec<char>) -> (r: Option<i32>)
    ensures
        r == parse_i32(s@),
{
    let n: usize = s.len();
    let signed: bool = n > 0 && (s[0] == '-' || s[0] == '+');
    let negative: bool = signed && s[0] == '-';
    let first: usize = if signed {
        1
    } else {
        0
    };
    let ghost digits = if signed {
        s@.drop_first()
    } else {
        s@
    };
    if first == n {
        return None;
    }
    let mut acc: i64 = 0;
    let mut too_large: bool = false;
    let mut i: usize = first;
    while i < n
        invariant
            first <= i <= n == s.len(),
            signed == has_sign(s@),
            digits == (if signed {
                s@.drop_first()
            } else {
                s@
            }),
            digits.len() == n - first,
            forall|k: int| 0 <= k < digits.len() ==> digits[k] == s@[k + first],
            all_digits(digits.take(i - first)),
            !too_large ==> acc == digits_value(digits.take(i - first)) && 0 <= acc <= 0x8000_0000,
            too_large ==> all_digits(digits) ==> digits_value(digits) > 0x8000_0000,
        decreases n - i,
    {
        let ghost before = digits.take(i - first);
        let ghost after = digits.take(i - first + 1);
        assert(after.drop_last() == before);
        assert(after.last() == s@[i as int]);
        match digit_of(s[i]) {
            None => {
                assert(!is_digit(digits[i - first]));
                assert(!all_digits(digits));
                return None;
            },
            Some(d) => {
                if !too_large {
                    acc = acc * 10 + d as i64;
                    if acc > 0x8000_0000 {
                        too_large = true;
                        proof {
                            if all_digits(digits) {
                                lemma_digits_value_grows(digits, i - first + 1);
                            }
                        }
                    }
                }
            },
        }
        i = i + 1;
    }
    assert(digits.take(n - first) == digits);
    if too_large {
        None
    } else if negative {
        Some((-acc) as i32)
    } else if acc > 0x7FFF_FFFF {
        None
    } else {
        Some(acc as i32)
    }
}

/// Writes the digits of `n` at the end of `out`.
fn push_natural(n: u32, out: &mut Vec<char>)
    ensures
        final(out)@ == old(out)@ + natural_text(n as nat),
    decreases n,
{
    if n >= 10 {
        push_natural(n / 10, out);
    }
    let d: u8 = (n % 10) as u8;
    let c: char = (48u8 + d) as char;
    assert(c == digit_char((n % 10) as int));
    out.push(c);
    proof {
        if n < 10 {
            assert(old(out)@.push(c) == old(out)@ + seq![c]);
        } else {
            assert((old(out)@ + natural_text((n / 10) as nat)).push(c) == old(out)@ + natural_text(
                (n / 10) as nat,
            ).push(c));
        }
    }
}

/// The text that writes `v` in base ten.
pub fn decimal(v: i32) -> (r: Vec<char>)
    ensures
        r@ == decimal_text(v as int),
{
    let mut out: Vec<char> = Vec::new();
    if v < 0 {
        out.push('-');
        let m: u32 = (-(v as i64)) as u32;
        push_natural(m, &mut out);
    } else {
        push_natural(v as u32, &mut out);
        assert(Seq::<char>::empty() + natural_text(v as nat) == natural_text(v as nat));
    }
    out
}

} // verus!
