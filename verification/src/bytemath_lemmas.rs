//! Facts about powers and about the values of byte strings that the proofs
//! of the byte arithmetic rest on.

use vstd::prelude::*;
use crate::bytemath_model::{
    be_value, byte_at, byte_width, le_bytes, le_value, low_value, pow2, pow256, shortest, trimmed,
};

verus! {

/// Powers of 256 are positive.
pub proof fn lemma_pow256_positive(n: nat)
    ensures
        pow256(n) > 0,
    decreases n,
{
    if n > 0 {
        lemma_pow256_positive((n - 1) as nat);
    }
}

/// Powers of 256 multiply by adding the exponents.
pub proof fn lemma_pow256_add(a: nat, b: nat)
    ensures
        pow256(a + b) == pow256(a) * pow256(b),
    decreases a,
{
    if a == 0 {
        assert(1 * pow256(b) == pow256(b));
    } else {
        lemma_pow256_add((a - 1) as nat, b);
        let x = pow256((a - 1) as nat);
        let y = pow256(b);
        assert(256 * (x * y) == (256 * x) * y) by (nonlinear_arith);
    }
}

/// Powers of 256 grow with the exponent.
pub proof fn lemma_pow256_monotonic(a: nat, b: nat)
    requires
        a <= b,
    ensures
        pow256(a) <= pow256(b),
    decreases b,
{
    if a < b {
        lemma_pow256_monotonic(a, (b - 1) as nat);
        lemma_pow256_positive((b - 1) as nat);
    }
}

/// The first powers of 256.
pub proof fn lemma_pow256_values()
    ensures
        pow256(0) == 1,
        pow256(1) == 0x100,
        pow256(2) == 0x1_0000,
        pow256(3) == 0x100_0000,
        pow256(4) == 0x1_0000_0000,
        pow256(8) == 0x1_0000_0000_0000_0000,
{
    reveal_with_fuel(pow256, 9);
}

/// A byte string of `n` bytes stands for a number below `256^n`.
pub proof fn lemma_le_value_bound(bytes: Seq<u8>)
    ensures
        le_value(bytes) < pow256(bytes.len()),
    decreases bytes.len(),
{
    if bytes.len() > 0 {
        lemma_le_value_bound(bytes.drop_last());
        let p = pow256((bytes.len() - 1) as nat);
        let b = bytes.last() as nat;
        assert(b * p <= 255 * p) by (nonlinear_arith)
            requires
                b <= 255,
        ;
    }
}

/// A big-endian byte string of `n` bytes stands for a number below `256^n`.
pub proof fn lemma_be_value_bound(bytes: Seq<u8>)
    ensures
        be_value(bytes) < pow256(bytes.len()),
    decreases bytes.len(),
{
    if bytes.len() > 0 {
        lemma_be_value_bound(bytes.drop_last());
    }
}

/// The value of a byte string with one more byte at the high end.
pub proof fn lemma_le_value_push(bytes: Seq<u8>, byte: u8)
    ensures
        le_value(bytes.push(byte)) == le_value(bytes) + byte as nat * pow256(bytes.len()),
{
    assert(bytes.push(byte).drop_last() =~= bytes);
}

/// The value of the first `i + 1` bytes.
pub proof fn lemma_le_value_take(bytes: Seq<u8>, i: int)
    requires
        0 <= i < bytes.len(),
    ensures
        le_value(bytes.take(i + 1)) == le_value(bytes.take(i)) + bytes[i] as nat * pow256(i as nat),
{
    assert(bytes.take(i + 1).drop_last() =~= bytes.take(i));
}

/// The low value grows byte by byte, with zeros past the end.
pub proof fn lemma_low_value_step(bytes: Seq<u8>, n: nat)
    ensures
        low_value(bytes, n + 1) == low_value(bytes, n) + byte_at(bytes, n as int) * pow256(n),
        low_value(bytes, 0) == 0,
        n >= bytes.len() ==> low_value(bytes, n) == le_value(bytes),
{
    assert(bytes.take(0) =~= Seq::<u8>::empty());
    if n < bytes.len() {
        lemma_le_value_take(bytes, n as int);
    } else {
        assert(bytes.take(bytes.len() as int) =~= bytes);
    }
}

/// A string of zero bytes stands for zero.
pub proof fn lemma_le_value_zeros(bytes: Seq<u8>)
    requires
        forall|i: int| 0 <= i < bytes.len() ==> bytes[i] == 0,
    ensures
        le_value(bytes) == 0,
    decreases bytes.len(),
{
    if bytes.len() > 0 {
        lemma_le_value_zeros(bytes.drop_last());
    }
}

/// Dropping a zero byte at the high end keeps the value.
pub proof fn lemma_le_value_drop_zero(bytes: Seq<u8>)
    requires
        bytes.len() > 0,
        bytes.last() == 0,
    ensures
        le_value(bytes.drop_last()) == le_value(bytes),
{
}

/// Replacing one byte changes the value by the difference of the bytes at
/// the weight of the place.
pub proof fn lemma_le_value_update(bytes: Seq<u8>, i: int, byte: u8)
    requires
        0 <= i < bytes.len(),
    ensures
        le_value(bytes.update(i, byte)) + bytes[i] as nat * pow256(i as nat) == le_value(bytes)
            + byte as nat * pow256(i as nat),
    decreases bytes.len(),
{
    let changed = bytes.update(i, byte);
    if i == bytes.len() - 1 {
        assert(changed.drop_last() =~= bytes.drop_last());
    } else {
        lemma_le_value_update(bytes.drop_last(), i, byte);
        assert(changed.drop_last() =~= bytes.drop_last().update(i, byte));
    }
}

/// The value of a byte string is the value of its first `k` bytes plus
/// `256^k` times the value of the rest.
pub proof fn lemma_le_value_split(bytes: Seq<u8>, k: int)
    requires
        0 <= k <= bytes.len(),
    ensures
        le_value(bytes) == le_value(bytes.take(k)) + pow256(k as nat) * le_value(bytes.skip(k)),
    decreases bytes.len(),
{
    if k == bytes.len() {
        assert(bytes.take(k) =~= bytes);
        assert(pow256(k as nat) * 0 == 0);
    } else {
        let front = bytes.drop_last();
        lemma_le_value_split(front, k);
        assert(front.take(k) =~= bytes.take(k));
        assert(front.skip(k) =~= bytes.skip(k).drop_last());
        let n = (bytes.len() - 1) as nat;
        lemma_pow256_add(k as nat, (n - k) as nat);
        let pk = pow256(k as nat);
        let pr = pow256((n - k) as nat);
        let last = bytes.last() as nat;
        let rest = le_value(front.skip(k));
        assert(pk * (rest + last * pr) == pk * rest + last * (pk * pr)) by (nonlinear_arith);
    }
}

/// Dropping the first `k` bytes divides the value by `256^k`, rounding down.
pub proof fn lemma_le_value_skip(bytes: Seq<u8>, k: int)
    requires
        0 <= k <= bytes.len(),
    ensures
        le_value(bytes.skip(k)) == le_value(bytes) / pow256(k as nat),
{
    lemma_le_value_split(bytes, k);
    lemma_le_value_bound(bytes.take(k));
    lemma_pow256_positive(k as nat);
    let d = pow256(k as nat) as int;
    let q = le_value(bytes.skip(k)) as int;
    let r = le_value(bytes.take(k)) as int;
    assert(le_value(bytes) == q * d + r) by (nonlinear_arith)
        requires
            le_value(bytes) == r + d * q,
    ;
    vstd::arithmetic::div_mod::lemma_fundamental_div_mod_converse(le_value(bytes) as int, d, q, r);
}

/// Powers of 2 multiply by adding the exponents.
pub proof fn lemma_pow2_add(a: nat, b: nat)
    ensures
        pow2(a + b) == pow2(a) * pow2(b),
    decreases a,
{
    if a == 0 {
        assert(1 * pow2(b) == pow2(b));
    } else {
        lemma_pow2_add((a - 1) as nat, b);
        let x = pow2((a - 1) as nat);
        let y = pow2(b);
        assert(2 * (x * y) == (2 * x) * y) by (nonlinear_arith);
    }
}

/// A power of 256 is the power of 2 with eight times the exponent.
pub proof fn lemma_pow256_is_pow2(n: nat)
    ensures
        pow256(n) == pow2(8 * n),
    decreases n,
{
    if n > 0 {
        lemma_pow256_is_pow2((n - 1) as nat);
        lemma_pow2_add(8, (8 * (n - 1)) as nat);
        reveal_with_fuel(pow2, 9);
    }
}

/// The lowest byte of a string is its value modulo 256.
pub proof fn lemma_low_byte(bytes: Seq<u8>)
    requires
        bytes.len() > 0,
    ensures
        le_value(bytes) % 256 == bytes[0],
{
    lemma_le_value_split(bytes, 1);
    lemma_pow256_values();
    let first = bytes.take(1);
    assert(bytes[0] as nat * pow256(0) == bytes[0] as nat) by (nonlinear_arith)
        requires
            pow256(0) == 1,
    ;
    assert(le_value(first) == le_value(first.drop_last()) + first.last() as nat * pow256(
        (first.len() - 1) as nat,
    ));
    let rest = le_value(bytes.skip(1));
    assert(pow256(1) * rest == 256 * rest) by (nonlinear_arith)
        requires
            pow256(1) == 256,
    ;
    assert((bytes[0] as nat + 256 * rest) % 256 == bytes[0] as nat) by (nonlinear_arith)
        requires
            bytes[0] as nat <= 255,
    ;
}

/// A byte string is the bytes of its value.
pub proof fn lemma_le_bytes_of_value(bytes: Seq<u8>)
    ensures
        le_bytes(le_value(bytes), bytes.len()) == bytes,
{
    assert forall|i: int| 0 <= i < bytes.len() implies le_bytes(le_value(bytes), bytes.len())[i]
        == bytes[i] by {
        lemma_le_value_skip(bytes, i);
        lemma_low_byte(bytes.skip(i));
    }
}

/// The width of a number is the one length at which the number lies between
/// the powers of 256.
pub proof fn lemma_byte_width(value: nat, len: nat)
    requires
        len >= 1,
        value < pow256(len),
        len > 1 ==> value >= pow256((len - 1) as nat),
    ensures
        byte_width(value) == len,
    decreases len,
{
    lemma_pow256_values();
    if len > 1 {
        lemma_pow256_positive((len - 2) as nat);
        lemma_byte_width(value / 256, (len - 1) as nat);
    }
}

/// A trimmed byte string of at least one byte is the shortest one for its
/// value.
pub proof fn lemma_shortest_unique(bytes: Seq<u8>)
    requires
        bytes.len() >= 1,
        trimmed(bytes),
    ensures
        bytes == shortest(le_value(bytes)),
{
    lemma_le_bytes_of_value(bytes);
    lemma_le_value_bound(bytes);
    if bytes.len() > 1 {
        lemma_le_value_bound(bytes.drop_last());
        let p = pow256((bytes.len() - 1) as nat);
        let last = bytes.last() as nat;
        assert(last * p >= p) by (nonlinear_arith)
            requires
                last >= 1,
        ;
    }
    lemma_byte_width(le_value(bytes), bytes.len());
}

} // verus!
