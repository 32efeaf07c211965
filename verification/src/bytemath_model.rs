//! What the byte arithmetic computes: the numbers that byte strings stand
//! for, and the byte strings that the operations return.
//!
//! Numbers are unsigned and of any size, held least significant byte first.
//! A fixed-point number has 64 fractional bits: the fixed-point number `x`
//! is held as the integer `x * 2^64`.

use vstd::prelude::*;

verus! {

/// 256 to the power `n`.
pub open spec fn pow256(n: nat) -> nat
    decreases n,
{
    if n == 0 {
        1
    } else {
        256 * pow256((n - 1) as nat)
    }
}

/// 2 to the power `n`.
pub open spec fn pow2(n: nat) -> nat
    decreases n,
{
    if n == 0 {
        1
    } else {
        2 * pow2((n - 1) as nat)
    }
}

/// The number that a little-endian byte string stands for.
pub open spec fn le_value(bytes: Seq<u8>) -> nat
    decreases bytes.len(),
{
    if bytes.len() == 0 {
        0
    } else {
        le_value(bytes.drop_last()) + bytes.last() as nat * pow256((bytes.len() - 1) as nat)
    }
}

/// The number that a big-endian byte string stands for.
pub open spec fn be_value(bytes: Seq<u8>) -> nat
    decreases bytes.len(),
{
    if bytes.len() == 0 {
        0
    } else {
        be_value(bytes.drop_last()) * 256 + bytes.last() as nat
    }
}

/// Whether a byte string has no superfluous high byte: it is at most one
/// byte long or its last byte is not zero.
pub open spec fn trimmed(bytes: Seq<u8>) -> bool {
    bytes.len() <= 1 || bytes.last() != 0
}

/// The byte at a position, zero past the end.
pub open spec fn byte_at(bytes: Seq<u8>, i: int) -> nat {
    if 0 <= i < bytes.len() {
        bytes[i] as nat
    } else {
        0
    }
}

/// The number that the first `n` bytes stand for; the string counts as
/// continued by zeros.
pub open spec fn low_value(bytes: Seq<u8>, n: nat) -> nat {
    if n <= bytes.len() {
        le_value(bytes.take(n as int))
    } else {
        le_value(bytes)
    }
}

/// The little-endian bytes of a number, in `len` bytes.
pub open spec fn le_bytes(value: nat, len: nat) -> Seq<u8> {
    Seq::new(len, |i: int| ((value / pow256(i as nat)) % 256) as u8)
}

/// The number of bytes that a number takes; one for zero.
pub open spec fn byte_width(value: nat) -> nat
    decreases value,
{
    if value < 256 {
        1
    } else {
        1 + byte_width(value / 256)
    }
}

/// The shortest byte string of at least one byte that stands for a number.
pub open spec fn shortest(value: nat) -> Seq<u8> {
    le_bytes(value, byte_width(value))
}

/// The length of the longer of two byte strings.
pub open spec fn longer(a: Seq<u8>, b: Seq<u8>) -> nat {
    if a.len() >= b.len() {
        a.len()
    } else {
        b.len()
    }
}

/// The bytes of the sum of two numbers, as [`add_bytearrays`] returns them.
pub open spec fn sum_of(a: Seq<u8>, b: Seq<u8>) -> Seq<u8> {
    le_bytes(
        le_value(a) + le_value(b),
        longer(a, b) + if le_value(a) + le_value(b) >= pow256(longer(a, b)) {
            1nat
        } else {
            0nat
        },
    )
}

/// The bytes of the difference of two numbers, as [`subtract_bytearrays`]
/// returns them.
pub open spec fn difference_of(a: Seq<u8>, b: Seq<u8>) -> Seq<u8> {
    if longer(a, b) == 0 {
        Seq::empty()
    } else {
        shortest(((le_value(a) - le_value(b)) % (pow256(longer(a, b)) as int)) as nat)
    }
}

/// The bytes of half a number, as [`divide_by_two`] returns them.
pub open spec fn half_of(a: Seq<u8>) -> Seq<u8> {
    if a.len() == 0 {
        Seq::empty()
    } else {
        shortest(le_value(a) / 2)
    }
}

/// The bytes of the fixed-point product of two numbers, as
/// [`multiply_byte_arrays`] returns them.
pub open spec fn product_of(a: Seq<u8>, b: Seq<u8>) -> Seq<u8> {
    if a.len() + b.len() <= 8 {
        Seq::empty()
    } else {
        shortest((le_value(a) * le_value(b)) / pow256(8))
    }
}

/// The number of bits of a byte: the place of its highest set bit, counted
/// from one; zero for the byte zero.
pub open spec fn byte_bits(byte: u8) -> nat {
    (8 - vstd::std_specs::bits::u8_leading_zeros(byte)) as nat
}

/// The bit length of a byte string: eight bits for every byte but the last,
/// and the number of bits of the last byte. Zero for the empty string.
pub open spec fn bit_length_of(bytes: Seq<u8>) -> nat {
    if bytes.len() == 0 {
        0
    } else {
        ((bytes.len() - 1) * 8) as nat + byte_bits(bytes.last())
    }
}

/// The bytes of `2^exp`, as [`power_of_two`] returns them.
pub open spec fn power_bytes(exp: nat) -> Seq<u8> {
    Seq::new(
        exp / 8 + 1,
        |i: int|
            if i == exp / 8 {
                pow2(exp % 8) as u8
            } else {
                0u8
            },
    )
}

/// Whether `a` comes before `b` or equals it in the order of byte strings:
/// the first byte in which they differ decides, and a string comes before
/// every string that continues it.
pub open spec fn lex_le(a: Seq<u8>, b: Seq<u8>) -> bool
    decreases a.len(),
{
    if a.len() == 0 {
        true
    } else if b.len() == 0 {
        false
    } else if a[0] != b[0] {
        a[0] < b[0]
    } else {
        lex_le(a.skip(1), b.skip(1))
    }
}

/// Whether two numbers can be multiplied: they have eight bytes or more
/// between them, and the product's bytes can be counted.
pub open spec fn can_multiply(a: Seq<u8>, b: Seq<u8>) -> bool {
    8 <= a.len() + b.len() <= usize::MAX
}

/// Whether every multiplication of the square-and-multiply loop can be done,
/// from the accumulated `result` and the current power `base_pow` on.
pub open spec fn power_defined(result: Seq<u8>, base_pow: Seq<u8>, exp: nat) -> bool
    decreases exp,
{
    exp == 0 || {
        &&& exp % 2 == 1 ==> can_multiply(result, base_pow)
        &&& can_multiply(base_pow, base_pow)
        &&& power_defined(
            if exp % 2 == 1 {
                product_of(result, base_pow)
            } else {
                result
            },
            product_of(base_pow, base_pow),
            exp / 2,
        )
    }
}

/// What the square-and-multiply loop returns, from the accumulated `result`
/// and the current power `base_pow` on: for every bit of the exponent, from
/// the lowest, the result takes the current power in where the bit is set,
/// and the power is squared.
pub open spec fn power_from(result: Seq<u8>, base_pow: Seq<u8>, exp: nat) -> Seq<u8>
    decreases exp,
{
    if exp == 0 {
        result
    } else {
        power_from(
            if exp % 2 == 1 {
                product_of(result, base_pow)
            } else {
                result
            },
            product_of(base_pow, base_pow),
            exp / 2,
        )
    }
}

/// The power of a fixed-point number by square and multiply with fixed-point
/// products, starting from the integer one.
pub open spec fn power_of(base: Seq<u8>, exponent: nat) -> Seq<u8> {
    power_from(seq![1u8], base, exponent)
}

/// The middle between two bounds of the bisection: half their sum.
pub open spec fn middle(low: Seq<u8>, high: Seq<u8>) -> Seq<u8> {
    half_of(sum_of(low, high))
}

/// Whether every step of the bisection can be done, from the bounds `low`
/// and `high` on.
pub open spec fn root_defined(
    low: Seq<u8>,
    high: Seq<u8>,
    input: Seq<u8>,
    n: nat,
    steps: nat,
) -> bool
    decreases steps,
{
    steps == 0 || {
        &&& low.len() < usize::MAX
        &&& high.len() < usize::MAX
        &&& power_defined(seq![1u8], middle(low, high), n)
        &&& if lex_le(power_of(middle(low, high), n), input) {
            root_defined(middle(low, high), high, input, n, (steps - 1) as nat)
        } else {
            root_defined(low, middle(low, high), input, n, (steps - 1) as nat)
        }
    }
}

/// What the bisection returns, from the bounds `low` and `high` on: in every
/// step the middle between the bounds is raised to the power `n`; where the
/// power comes before the input in the order of byte strings, or equals it,
/// the middle is the new lower bound, else the new upper bound. The lower
/// bound is the result.
pub open spec fn root_from(
    low: Seq<u8>,
    high: Seq<u8>,
    input: Seq<u8>,
    n: nat,
    steps: nat,
) -> Seq<u8>
    decreases steps,
{
    if steps == 0 {
        low
    } else if lex_le(power_of(middle(low, high), n), input) {
        root_from(middle(low, high), high, input, n, (steps - 1) as nat)
    } else {
        root_from(low, middle(low, high), input, n, (steps - 1) as nat)
    }
}

/// The fixed-point number two.
pub open spec fn two() -> Seq<u8> {
    seq![0u8, 0u8, 0u8, 0u8, 0u8, 0u8, 0u8, 0u8, 2u8]
}

/// The guess after one step of the Newton iteration: `y * (2 - x * y)`.
pub open spec fn newton_step(x: Seq<u8>, y: Seq<u8>) -> Seq<u8> {
    product_of(y, difference_of(two(), product_of(x, y)))
}

/// The first guess of the Newton iteration for the inverse of a number: the
/// power of two whose exponent is what the number's bit length lacks to 128.
pub open spec fn first_guess(input: Seq<u8>) -> Seq<u8> {
    power_bytes(
        if 128 > bit_length_of(input) {
            (128 - bit_length_of(input)) as nat
        } else {
            0
        },
    )
}

/// Whether every step of the Newton iteration can be done, from the guess
/// `y` on.
pub open spec fn inverse_defined(x: Seq<u8>, y: Seq<u8>, steps: nat) -> bool
    decreases steps,
{
    steps == 0 || {
        &&& can_multiply(x, y)
        &&& can_multiply(y, difference_of(two(), product_of(x, y)))
        &&& inverse_defined(x, newton_step(x, y), (steps - 1) as nat)
    }
}

/// What the Newton iteration returns, from the guess `y` on.
pub open spec fn inverse_from(x: Seq<u8>, y: Seq<u8>, steps: nat) -> Seq<u8>
    decreases steps,
{
    if steps == 0 {
        y
    } else {
        inverse_from(x, newton_step(x, y), (steps - 1) as nat)
    }
}

} // verus!
