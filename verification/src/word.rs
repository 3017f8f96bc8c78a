//! Arithmetic on the machine's signed 32-bit words.
//!
//! Sums, differences and products that leave the 32-bit range wrap around
//! (two's complement). Division rounds toward zero.

#![allow(unused_imports)]

use vstd::prelude::*;

verus! {

/// The 32-bit word that `v` wraps to: the one value in the `i32` range that
/// differs from `v` by a multiple of 2^32.
pub open spec fn wrap32(v: int) -> i32 {
    let m = v % 0x1_0000_0000;
    if m < 0x8000_0000 {
        m as i32
    } else {
        (m - 0x1_0000_0000) as i32
    }
}

/// The magnitude of `v`.
pub open spec fn magnitude(v: int) -> int {
    if v < 0 {
        -v
    } else {
        v
    }
}

/// The quotient of `a` by `b`, rounded toward zero. Meaningful for `b != 0`.
pub open spec fn trunc_div(a: int, b: int) -> int {
    if (a < 0) == (b < 0) {
        magnitude(a) / magnitude(b)
    } else {
        -(magnitude(a) / magnitude(b))
    }
}

/// The remainder that goes with `trunc_div`; it has the sign of `a`.
/// Meaningful for `b != 0`.
pub open spec fn trunc_rem(a: int, b: int) -> int {
    if a < 0 {
        -(magnitude(a) % magnitude(b))
    } else {
        magnitude(a) % magnitude(b)
    }
}

/// A value inside the 32-bit range wraps to itself.
pub proof fn lemma_wrap32_in_range(v: int)
    requires
        i32::MIN <= v <= i32::MAX,
    ensures
        wrap32(v) == v,
{
}

/// Wrapping forgets multiples of 2^32.
pub proof fn lemma_wrap32_congruent(v: int)
    ensures
        (wrap32(v) - v) % 0x1_0000_0000 == 0,
{
}

/// The quotient and the remainder put the dividend together again.
pub proof fn lemma_trunc_div_rem(a: int, b: int)
    requires
        b != 0,
    ensures
        a == b * trunc_div(a, b) + trunc_rem(a, b),
        magnitude(trunc_rem(a, b)) < magnitude(b),
{
    let x = magnitude(a);
    let d = magnitude(b);
    vstd::arithmetic::div_mod::lemma_fundamental_div_mod(x, d);
    assert(x == d * (x / d) + x % d);
    assert(b * trunc_div(a, b) + trunc_rem(a, b) == a) by (nonlinear_arith)
        requires
            x == d * (x / d) + x % d,
            x == magnitude(a),
            d == magnitude(b),
            b != 0,
            trunc_div(a, b) == (if (a < 0) == (b < 0) { x / d } else { -(x / d) }),
            trunc_rem(a, b) == (if a < 0 { -(x % d) } else { x % d }),
    ;
}

/// `a + b`, wrapped.
pub fn add_words(a: i32, b: i32) -> (r: i32)
    ensures
        r == wrap32(a + b),
{
    a.wrapping_add(b)
}

/// `a - b`, wrapped.
pub fn sub_words(a: i32, b: i32) -> (r: i32)
    ensures
        r == wrap32(a - b),
{
    a.wrapping_sub(b)
}

/// `a * b`, wrapped.
pub fn mul_words(a: i32, b: i32) -> (r: i32)
    ensures
        r == wrap32(a * b),
{
    a.wrapping_mul(b)
}

/// `a / b` rounded toward zero, wrapped; `None` when `b` is zero.
pub fn div_words(a: i32, b: i32) -> (r: Option<i32>)
    ensures
        r == (if b == 0 {
            None
        } else {
            Some(wrap32(trunc_div(a as int, b as int)))
        }),
{
    if b == 0 {
        None
    } else {
        match a.checked_div(b) {
            Some(q) => Some(q),
            None => Some(i32::MIN),
        }
    }
}

/// The remainder of `a / b`, with the sign of `a`; `None` when `b` is zero.
pub fn rem_words(a: i32, b: i32) -> (r: Option<i32>)
    ensures
        r == (if b == 0 {
            None
        } else {
            Some(wrap32(trunc_rem(a as int, b as int)))
        }),
{
    if b == 0 {
        None
    } else {
        match a.checked_rem(b) {
            Some(m) => Some(m),
            None => Some(0),
        }
    }
}

/// The low 32 bits of a count of seconds, read as a signed word.
pub fn word_from_u64(v: u64) -> (r: i32)
    ensures
        r == wrap32(v as int),
{
    let low: u64 = v % 0x1_0000_0000;
    if low < 0x8000_0000 {
        low as i32
    } else {
        (low as i64 - 0x1_0000_0000) as i32
    }
}

/// The low 32 bits of an index, read as a signed word.
pub fn word_from_usize(v: usize) -> (r: i32)
    ensures
        r == wrap32(v as int),
{
    word_from_u64(v as u64)
}

} // verus!
