//! Double-precision numbers by their IEEE-754 binary64 encoding.
//!
//! A number is a `u64`: one sign bit, eleven exponent bits and fifty-two
//! fraction bits. The encoding is monotonic in its magnitude part, so the
//! order of two numbers can be read from their bits alone.

use vstd::prelude::*;

verus! {

/// The sign bit of the encoding.
pub const SIGN_BIT: u64 = 0x8000_0000_0000_0000;

/// The encoding of positive infinity. Every larger magnitude is a NaN.
pub const INFINITY: u64 = 0x7ff0_0000_0000_0000;

/// The four arithmetic operations on numbers.
#[derive(Debug, Clone, Copy, PartialEq, Eq, Structural)]
pub enum Arithmetic {
    Add,
    Subtract,
    Multiply,
    Divide,
}

/// The encoding without its sign bit.
pub open spec fn magnitude(bits: u64) -> u64 {
    if bits >= SIGN_BIT {
        (bits - SIGN_BIT) as u64
    } else {
        bits
    }
}

/// Whether the sign bit is set.
pub open spec fn negative(bits: u64) -> bool {
    bits >= SIGN_BIT
}

/// Whether the encoding is a NaN: exponent all ones and a fraction that is not zero.
pub open spec fn nan(bits: u64) -> bool {
    magnitude(bits) > INFINITY
}

/// An integer that orders the numbers that are not NaN as their values are
/// ordered. Both zeros have the key 0.
pub open spec fn order_key(bits: u64) -> int {
    if negative(bits) {
        -(magnitude(bits) as int)
    } else {
        magnitude(bits) as int
    }
}

/// `a < b` on numbers. False when either is a NaN.
pub open spec fn less(a: u64, b: u64) -> bool {
    !nan(a) && !nan(b) && order_key(a) < order_key(b)
}

/// `a <= b` on numbers. False when either is a NaN.
pub open spec fn less_or_equal(a: u64, b: u64) -> bool {
    !nan(a) && !nan(b) && order_key(a) <= order_key(b)
}

/// `a == b` on numbers. A NaN equals nothing, itself included, and the two
/// zeros are equal.
pub open spec fn equal(a: u64, b: u64) -> bool {
    !nan(a) && !nan(b) && order_key(a) == order_key(b)
}

/// The number with its sign bit flipped.
pub open spec fn negated(bits: u64) -> u64 {
    if bits >= SIGN_BIT {
        (bits - SIGN_BIT) as u64
    } else {
        (bits + SIGN_BIT) as u64
    }
}

/// Whether `bits` encodes a NaN.
pub fn is_nan(bits: u64) -> (r: bool)
    ensures
        r == nan(bits),
{
    let m: u64 = if bits >= SIGN_BIT {
        bits - SIGN_BIT
    } else {
        bits
    };
    m > INFINITY
}

/// The key by which numbers are ordered, as a pair: whether the value is
/// below zero, and its magnitude.
fn sign_and_magnitude(bits: u64) -> (r: (bool, u64))
    ensures
        r.1 == magnitude(bits),
        r.0 == (negative(bits) && magnitude(bits) != 0),
        order_key(bits) == if r.0 {
            -(r.1 as int)
        } else {
            r.1 as int
        },
{
    if bits >= SIGN_BIT {
        let m: u64 = bits - SIGN_BIT;
        (m != 0, m)
    } else {
        (false, bits)
    }
}

/// `a < b`.
pub fn is_less(a: u64, b: u64) -> (r: bool)
    ensures
        r == less(a, b),
{
    if is_nan(a) || is_nan(b) {
        return false;
    }
    let (a_below, a_size) = sign_and_magnitude(a);
    let (b_below, b_size) = sign_and_magnitude(b);
    if a_below {
        !b_below || a_size > b_size
    } else {
        !b_below && a_size < b_size
    }
}

/// `a <= b`.
pub fn is_less_or_equal(a: u64, b: u64) -> (r: bool)
    ensures
        r == less_or_equal(a, b),
{
    if is_nan(a) || is_nan(b) {
        return false;
    }
    let (a_below, a_size) = sign_and_magnitude(a);
    let (b_below, b_size) = sign_and_magnitude(b);
    if a_below {
        !b_below || a_size >= b_size
    } else {
        !b_below && a_size <= b_size
    }
}

/// `a == b`.
pub fn is_equal(a: u64, b: u64) -> (r: bool)
    ensures
        r == equal(a, b),
{
    if is_nan(a) || is_nan(b) {
        return false;
    }
    let (a_below, a_size) = sign_and_magnitude(a);
    let (b_below, b_size) = sign_and_magnitude(b);
    a_below == b_below && a_size == b_size
}

/// `-a`: the same number with the opposite sign, NaN and zero included.
pub fn negate(bits: u64) -> (r: u64)
    ensures
        r == negated(bits),
{
    if bits >= SIGN_BIT {
        bits - SIGN_BIT
    } else {
        bits + SIGN_BIT
    }
}

/// A number is never below itself, and is equal to itself unless it is a NaN.
pub proof fn lemma_order_reflexive(a: u64)
    ensures
        !less(a, a),
        equal(a, a) == !nan(a),
        less_or_equal(a, a) == !nan(a),
{
}

/// Of two numbers that are not NaN exactly one of `a < b`, `a == b`, `b < a` holds,
/// and `a <= b` is `a < b` or `a == b`.
pub proof fn lemma_order_total(a: u64, b: u64)
    ensures
        less_or_equal(a, b) == (less(a, b) || equal(a, b)),
        !(less(a, b) && less(b, a)),
        !(less(a, b) && equal(a, b)),
        !nan(a) && !nan(b) ==> less(a, b) || equal(a, b) || less(b, a),
{
}

/// Negating twice gives the number back, and negation turns the order around.
pub proof fn lemma_negation(a: u64, b: u64)
    ensures
        negated(negated(a)) == a,
        nan(negated(a)) == nan(a),
        less(negated(a), negated(b)) == less(b, a),
        equal(negated(a), negated(b)) == equal(a, b),
{
}

} // verus!
