//! Arithmetic on unsigned numbers of any size, held as little-endian byte
//! strings, and on fixed-point numbers with 64 fractional bits held the same
//! way.

use vstd::prelude::*;
use crate::bytemath_lemmas::{
    lemma_be_value_bound, lemma_le_bytes_of_value, lemma_le_value_bound, lemma_le_value_drop_zero,
    lemma_le_value_push, lemma_le_value_skip, lemma_le_value_take, lemma_le_value_update,
    lemma_le_value_zeros, lemma_low_value_step, lemma_pow256_add, lemma_pow256_is_pow2,
    lemma_pow256_monotonic, lemma_pow256_positive, lemma_pow256_values, lemma_pow2_add,
    lemma_shortest_unique,
};
use crate::bytemath_model::{
    be_value, bit_length_of, byte_at, difference_of, first_guess, half_of, inverse_defined,
    inverse_from, le_value, lex_le, longer, low_value, power_bytes, power_defined, power_from,
    power_of, pow2, pow256, product_of, root_defined, root_from, shortest, sum_of, trimmed, two,
};

verus! {

/// Removes superfluous zero bytes from the high end, down to one byte.
pub fn trim(bytes: &mut Vec<u8>)
    ensures
        le_value(final(bytes)@) == le_value(old(bytes)@),
        trimmed(final(bytes)@),
        final(bytes).len() <= old(bytes).len(),
        old(bytes).len() >= 1 ==> final(bytes).len() >= 1,
{
    while bytes.len() > 1 && bytes[bytes.len() - 1] == 0
        invariant
            le_value(bytes@) == le_value(old(bytes)@),
            bytes.len() <= old(bytes).len(),
            old(bytes).len() >= 1 ==> bytes.len() >= 1,
        decreases bytes.len(),
    {
        proof {
            lemma_le_value_drop_zero(bytes@);
        }
        bytes.pop();
    }
}

/// Reads the bytes before the last eight as a big-endian 32-bit number.
/// `None` where there are fewer than eight bytes, or more than four before
/// the last eight.
pub fn vec_prefix_to_u32(v: &Vec<u8>) -> (out: Option<u32>)
    ensures
        (v.len() < 8 || v.len() > 12) <==> out is None,
        out matches Some(x) ==> x == be_value(v@.take(v.len() - 8)),
{
    if v.len() < 8 || v.len() - 8 > 4 {
        return None;
    }
    let n: usize = v.len() - 8;
    let ghost prefix = v@.take(n as int);
    let mut x: u32 = 0;
    let mut i: usize = 0;
    while i < n
        invariant
            i <= n <= 4,
            n == v.len() - 8,
            prefix == v@.take(n as int),
            x == be_value(prefix.take(i as int)),
        decreases n - i,
    {
        proof {
            lemma_be_value_bound(prefix.take(i as int));
            lemma_pow256_values();
            lemma_pow256_monotonic(i as nat, 3);
            assert(prefix.take(i + 1).drop_last() =~= prefix.take(i as int));
        }
        x = x * 256 + v[i] as u32;
        i += 1;
    }
    assert(prefix.take(n as int) =~= prefix);
    Some(x)
}

/// The fixed-point form of a 32-bit number: the number times `2^64`, in as
/// few bytes as hold it, and the single byte zero for zero.
pub fn u32_to_qinfinity64(n: u32) -> (bytes: Vec<u8>)
    ensures
        le_value(bytes@) == n as nat * pow256(8),
        trimmed(bytes@),
        bytes.len() >= 1,
        bytes@ == shortest(n as nat * pow256(8)),
{
    proof {
        lemma_pow256_values();
    }
    if n == 0 {
        let mut zero: Vec<u8> = Vec::new();
        zero.push(0);
        proof {
            lemma_le_value_zeros(zero@);
            lemma_shortest_unique(zero@);
        }
        return zero;
    }
    let value: u128 = (n as u128) << 64;
    assert((n as u128) << 64 == n as u128 * 0x1_0000_0000_0000_0000) by (bit_vector);
    let mut bytes: Vec<u8> = Vec::new();
    let mut temp: u128 = value;
    assert(temp as nat * pow256(0) == temp as nat) by (nonlinear_arith)
        requires
            pow256(0) == 1,
    ;
    while temp > 0
        invariant
            le_value(bytes@) + temp as nat * pow256(bytes.len() as nat) == value as nat,
            temp == 0 ==> bytes.len() > 0 && bytes@.last() != 0,
            value > 0,
        decreases temp,
    {
        let byte: u8 = (temp & 0xff) as u8;
        let rest: u128 = temp >> 8;
        assert(temp & 0xff == temp % 256) by (bit_vector);
        assert(temp >> 8 == temp / 256) by (bit_vector);
        proof {
            lemma_le_value_push(bytes@, byte);
            let p = pow256(bytes.len() as nat);
            assert(temp as nat * p == byte as nat * p + rest as nat * (256 * p))
                by (nonlinear_arith)
                requires
                    temp as nat == byte as nat + 256 * rest as nat,
            ;
        }
        bytes.push(byte);
        temp = rest;
    }
    proof {
        lemma_shortest_unique(bytes@);
    }
    bytes
}

/// The sum of two numbers, in as many bytes as the longer of the two has,
/// and one more where the sum does not fit into them.
pub fn add_bytearrays(a: &Vec<u8>, b: &Vec<u8>) -> (sum: Vec<u8>)
    requires
        a.len() < usize::MAX,
        b.len() < usize::MAX,
    ensures
        le_value(sum@) == le_value(a@) + le_value(b@),
        sum.len() == longer(a@, b@) + (if le_value(a@) + le_value(b@) >= pow256(longer(a@, b@)) {
            1int
        } else {
            0int
        }),
        sum@ == sum_of(a@, b@),
{
    let max_len: usize = if a.len() >= b.len() { a.len() } else { b.len() };
    let mut sum: Vec<u8> = Vec::new();
    let mut carry: u16 = 0;
    let mut i: usize = 0;
    proof {
        lemma_low_value_step(a@, 0);
        lemma_low_value_step(b@, 0);
    }
    while i < max_len
        invariant
            i <= max_len,
            max_len == if a.len() >= b.len() { a.len() } else { b.len() },
            sum.len() == i,
            carry <= 1,
            le_value(sum@) + carry as nat * pow256(i as nat) == low_value(a@, i as nat) + low_value(
                b@,
                i as nat,
            ),
        decreases max_len - i,
    {
        let byte_a: u16 = if i < a.len() { a[i] as u16 } else { 0 };
        let byte_b: u16 = if i < b.len() { b[i] as u16 } else { 0 };
        let total: u16 = byte_a + byte_b + carry;
        let low: u8 = (total & 0xff) as u8;
        let high: u16 = total >> 8;
        assert(total & 0xff == total % 256) by (bit_vector);
        assert(total >> 8 == total / 256) by (bit_vector);
        proof {
            lemma_low_value_step(a@, i as nat);
            lemma_low_value_step(b@, i as nat);
            lemma_le_value_push(sum@, low);
            let p = pow256(i as nat);
            assert((byte_a + byte_b + carry) as nat * p == low as nat * p + high as nat * (256 * p))
                by (nonlinear_arith)
                requires
                    (byte_a + byte_b + carry) as nat == low as nat + 256 * high as nat,
            ;
            assert((byte_a + byte_b + carry) as nat * p == byte_a as nat * p + byte_b as nat * p
                + carry as nat * p) by (nonlinear_arith);
        }
        sum.push(low);
        carry = high;
        i += 1;
    }
    proof {
        lemma_low_value_step(a@, max_len as nat);
        lemma_low_value_step(b@, max_len as nat);
        lemma_le_value_bound(sum@);
    }
    if carry > 0 {
        proof {
            lemma_le_value_push(sum@, 1);
        }
        sum.push(carry as u8);
    }
    proof {
        lemma_le_bytes_of_value(sum@);
    }
    sum
}

/// The difference of two numbers in the bytes of the longer of the two:
/// `a - b` where `a` is at least `b`, and `a - b + 256^n` for the length `n`
/// of the longer where it is not. Superfluous zero bytes at the high end are
/// removed, down to one byte.
pub fn subtract_bytearrays(a: &[u8], b: &[u8]) -> (difference: Vec<u8>)
    ensures
        le_value(difference@) == (le_value(a@) - le_value(b@)) % (pow256(longer(a@, b@)) as int),
        trimmed(difference@),
        difference.len() <= longer(a@, b@),
        a.len() > 0 || b.len() > 0 ==> difference.len() >= 1,
        difference@ == difference_of(a@, b@),
{
    let max_len: usize = if a.len() >= b.len() { a.len() } else { b.len() };
    let mut difference: Vec<u8> = Vec::new();
    let mut borrow: i16 = 0;
    let mut i: usize = 0;
    proof {
        lemma_low_value_step(a@, 0);
        lemma_low_value_step(b@, 0);
    }
    while i < max_len
        invariant
            i <= max_len,
            max_len == if a.len() >= b.len() { a.len() } else { b.len() },
            difference.len() == i,
            0 <= borrow <= 1,
            le_value(difference@) == low_value(a@, i as nat) - low_value(b@, i as nat) + borrow
                * pow256(i as nat),
        decreases max_len - i,
    {
        let ai: i16 = if i < a.len() { a[i] as i16 } else { 0 };
        let bi: i16 = if i < b.len() { b[i] as i16 } else { 0 };
        let mut diff: i16 = ai - bi - borrow;
        let ghost borrowed = borrow;
        if diff < 0 {
            diff += 256;
            borrow = 1;
        } else {
            borrow = 0;
        }
        let byte: u8 = diff as u8;
        proof {
            lemma_low_value_step(a@, i as nat);
            lemma_low_value_step(b@, i as nat);
            lemma_le_value_push(difference@, byte);
            let p = pow256(i as nat) as int;
            assert(byte * p == ai * p - bi * p - borrowed * p + borrow * (256 * p))
                by (nonlinear_arith)
                requires
                    byte == ai - bi - borrowed + 256 * borrow,
            ;
        }
        difference.push(byte);
        i += 1;
    }
    proof {
        lemma_low_value_step(a@, max_len as nat);
        lemma_low_value_step(b@, max_len as nat);
        lemma_le_value_bound(difference@);
        let m = pow256(max_len as nat) as int;
        let x = le_value(a@) - le_value(b@);
        lemma_pow256_positive(max_len as nat);
        assert(x == (-borrow) * m + le_value(difference@)) by (nonlinear_arith)
            requires
                le_value(difference@) == x + borrow * m,
        ;
        vstd::arithmetic::div_mod::lemma_fundamental_div_mod_converse(
            x,
            m,
            -borrow as int,
            le_value(difference@) as int,
        );
    }
    trim(&mut difference);
    proof {
        if difference.len() >= 1 {
            lemma_shortest_unique(difference@);
        }
    }
    difference
}

/// The number of bits that the number in `a` takes, going by its last byte.
pub fn bit_length(a: &[u8]) -> (bits: usize)
    requires
        a.len() <= usize::MAX / 8,
    ensures
        bits == bit_length_of(a@),
{
    if a.len() == 0 {
        0
    } else {
        let msb: u8 = a[a.len() - 1];
        proof {
            vstd::std_specs::bits::axiom_u8_leading_zeros(msb);
        }
        let bits_in_msb: usize = 8 - msb.leading_zeros() as usize;
        (a.len() - 1) * 8 + bits_in_msb
    }
}

/// The little-endian bytes of `2^exp`: zeros up to the byte that holds the
/// one set bit.
pub fn power_of_two(exp: usize) -> (bytes: Vec<u8>)
    ensures
        le_value(bytes@) == pow2(exp as nat),
        bytes.len() == exp / 8 + 1,
        trimmed(bytes@),
        bytes@ == power_bytes(exp as nat),
{
    let byte_index: usize = exp / 8;
    let bit_index: usize = exp % 8;
    let mut bytes: Vec<u8> = Vec::new();
    let mut i: usize = 0;
    while i < byte_index
        invariant
            i <= byte_index,
            bytes.len() == i,
            forall|k: int| 0 <= k < i ==> bytes[k] == 0,
        decreases byte_index - i,
    {
        bytes.push(0);
        i += 1;
    }
    let shift: u8 = bit_index as u8;
    let byte: u8 = 1u8 << shift;
    assert(shift < 8 ==> (1u8 << shift) != 0) by (bit_vector);
    proof {
        reveal_with_fuel(pow2, 9);
        assert(shift < 8 ==> (1u8 << shift) == (if shift == 0 {
            1u8
        } else if shift == 1 {
            2u8
        } else if shift == 2 {
            4u8
        } else if shift == 3 {
            8u8
        } else if shift == 4 {
            16u8
        } else if shift == 5 {
            32u8
        } else if shift == 6 {
            64u8
        } else {
            128u8
        })) by (bit_vector);
        lemma_le_value_zeros(bytes@);
        lemma_le_value_push(bytes@, byte);
        lemma_pow256_is_pow2(byte_index as nat);
        lemma_pow2_add(bit_index as nat, (8 * byte_index) as nat);
    }
    bytes.push(byte);
    bytes
}

/// The fixed-point form of the number two: `2^65`, in nine bytes.
pub fn fixed_point_two() -> (bytes: Vec<u8>)
    ensures
        le_value(bytes@) == 2 * pow256(8),
        bytes.len() == 9,
        bytes@ == seq![0u8, 0u8, 0u8, 0u8, 0u8, 0u8, 0u8, 0u8, 2u8],
{
    let mut bytes: Vec<u8> = Vec::new();
    let mut i: usize = 0;
    while i < 8
        invariant
            i <= 8,
            bytes.len() == i,
            forall|k: int| 0 <= k < i ==> bytes[k] == 0,
        decreases 8 - i,
    {
        bytes.push(0);
        i += 1;
    }
    proof {
        lemma_le_value_zeros(bytes@);
        lemma_le_value_push(bytes@, 2);
    }
    bytes.push(2);
    bytes
}

/// Half of a number, rounded down. Superfluous zero bytes at the high end
/// are removed, down to one byte.
pub fn divide_by_two(a: &[u8]) -> (half: Vec<u8>)
    ensures
        le_value(half@) == le_value(a@) / 2,
        trimmed(half@),
        half.len() <= a.len(),
        a.len() > 0 ==> half.len() >= 1,
        half@ == half_of(a@),
{
    let mut half: Vec<u8> = Vec::new();
    let mut i: usize = 0;
    proof {
        lemma_low_value_step(a@, 0);
        assert(byte_at(a@, 0) % 2 * pow256(0) == byte_at(a@, 0) % 2) by (nonlinear_arith)
            requires
                pow256(0) == 1,
        ;
    }
    while i < a.len()
        invariant
            i <= a.len(),
            half.len() == i,
            2 * le_value(half@) + byte_at(a@, 0) % 2 == low_value(a@, i as nat) + (byte_at(
                a@,
                i as int,
            ) % 2) * pow256(i as nat),
        decreases a.len() - i,
    {
        let low: u8 = a[i] >> 1;
        let carry: u8 = if i + 1 < a.len() { (a[i + 1] & 1) << 7 } else { 0 };
        let byte: u8 = low | carry;
        let this: u8 = a[i];
        let next: u8 = if i + 1 < a.len() { a[i + 1] } else { 0 };
        assert((this >> 1) | ((next & 1) << 7) == this / 2 + 128 * (next % 2)) by (bit_vector);
        assert((this >> 1) | 0 == this / 2) by (bit_vector);
        proof {
            lemma_low_value_step(a@, i as nat);
            lemma_le_value_push(half@, byte);
            let p = pow256(i as nat);
            let bit = byte_at(a@, i as int) % 2;
            let bit_next = byte_at(a@, i + 1) % 2;
            assert(2 * (byte as nat * p) + bit * p == this as nat * p + bit_next * (256 * p))
                by (nonlinear_arith)
                requires
                    byte as nat == (this as nat - bit) / 2 + 128 * bit_next,
                    bit == this as nat % 2,
            ;
        }
        half.push(byte);
        i += 1;
    }
    proof {
        lemma_low_value_step(a@, a.len() as nat);
    }
    trim(&mut half);
    proof {
        if half.len() >= 1 {
            lemma_shortest_unique(half@);
        }
    }
    half
}

/// The product of two fixed-point numbers: the product of the two integers
/// without its eight lowest bytes, that is, divided by `2^64` and rounded
/// down. Superfluous zero bytes at the high end are removed, down to one
/// byte. The two numbers must have eight bytes or more between them.
pub fn multiply_byte_arrays(a: &Vec<u8>, b: &Vec<u8>) -> (product: Vec<u8>)
    requires
        a.len() + b.len() >= 8,
        a.len() + b.len() <= usize::MAX,
    ensures
        le_value(product@) == (le_value(a@) * le_value(b@)) / pow256(8),
        trimmed(product@),
        product.len() <= a.len() + b.len() - 8,
        a.len() + b.len() > 8 ==> product.len() >= 1,
        product@ == product_of(a@, b@),
{
    let la: usize = a.len();
    let lb: usize = b.len();
    let ghost vb = le_value(b@);
    let mut result: Vec<u8> = Vec::new();
    let mut n: usize = 0;
    while n < la + lb
        invariant
            n <= la + lb,
            la + lb <= usize::MAX,
            result.len() == n,
            forall|k: int| 0 <= k < n ==> result[k] == 0,
        decreases la + lb - n,
    {
        result.push(0);
        n += 1;
    }
    proof {
        lemma_le_value_zeros(result@);
        assert(0 * vb == 0);
    }
    let mut i: usize = 0;
    while i < la
        invariant
            i <= la,
            la == a.len(),
            lb == b.len(),
            la + lb <= usize::MAX,
            vb == le_value(b@),
            result.len() == la + lb,
            le_value(result@) == le_value(a@.take(i as int)) * vb,
        decreases la - i,
    {
        let byte_a: u16 = a[i] as u16;
        let ghost done = le_value(a@.take(i as int)) * vb;
        let mut carry: u16 = 0;
        let mut j: usize = 0;
        proof {
            assert(byte_a as nat * 0 * pow256(i as nat) == 0) by (nonlinear_arith);
        }
        while j < lb
            invariant
                j <= lb,
                i < la,
                la == a.len(),
                lb == b.len(),
                la + lb <= usize::MAX,
                result.len() == la + lb,
                carry <= 255,
                byte_a == a[i as int],
                le_value(result@) + carry as nat * pow256((i + j) as nat) == done + byte_a as nat
                    * le_value(b@.take(j as int)) * pow256(i as nat),
            decreases lb - j,
        {
            let index: usize = i + j;
            let existing: u16 = result[index] as u16;
            let byte_b: u16 = b[j] as u16;
            assert(byte_a * byte_b <= 255 * 255) by (nonlinear_arith)
                requires
                    byte_a <= 255,
                    byte_b <= 255,
            ;
            let product: u16 = byte_a * byte_b + existing + carry;
            let low: u8 = (product & 0xff) as u8;
            let high: u16 = product >> 8;
            assert(product & 0xff == product % 256) by (bit_vector);
            assert(product >> 8 == product / 256) by (bit_vector);
            proof {
                lemma_le_value_update(result@, index as int, low);
                lemma_le_value_take(b@, j as int);
                lemma_pow256_add(i as nat, j as nat);
                let p = pow256((i + j) as nat);
                let pi = pow256(i as nat);
                let pj = pow256(j as nat);
                let bj = le_value(b@.take(j as int));
                assert(low as nat * p + high as nat * (256 * p) == (byte_a as nat * byte_b as nat
                    + existing as nat + carry as nat) * p) by (nonlinear_arith)
                    requires
                        byte_a as nat * byte_b as nat + existing as nat + carry as nat
                            == low as nat + 256 * high as nat,
                ;
                assert((byte_a as nat * byte_b as nat + existing as nat + carry as nat) * p
                    == byte_a as nat * byte_b as nat * p + existing as nat * p + carry as nat * p)
                    by (nonlinear_arith);
                assert(byte_a as nat * (bj + byte_b as nat * pj) * pi == byte_a as nat * bj * pi
                    + byte_a as nat * byte_b as nat * p) by (nonlinear_arith)
                    requires
                        p == pi * pj,
                ;
            }
            result[index] = low;
            carry = high;
            j += 1;
        }
        proof {
            assert(b@.take(lb as int) =~= b@);
            lemma_le_value_take(a@, i as int);
            let pi = pow256(i as nat);
            let ai = le_value(a@.take(i as int));
            assert((ai + byte_a as nat * pi) * vb == ai * vb + byte_a as nat * vb * pi)
                by (nonlinear_arith);
        }
        let ghost target = le_value(a@.take(i + 1)) * vb;
        let mut index: usize = i + lb;
        proof {
            lemma_le_value_bound(a@.take(i + 1));
            lemma_le_value_bound(b@);
            lemma_pow256_add((i + 1) as nat, lb as nat);
            lemma_pow256_monotonic((i + 1 + lb) as nat, (la + lb) as nat);
            let x = le_value(a@.take(i + 1));
            let px = pow256((i + 1) as nat);
            let py = pow256(lb as nat);
            assert(x * vb < px * py) by (nonlinear_arith)
                requires
                    x < px,
                    vb < py,
            ;
        }
        while carry > 0
            invariant
                i + lb <= index <= la + lb,
                la + lb <= usize::MAX,
                result.len() == la + lb,
                carry <= 255,
                le_value(result@) + carry as nat * pow256(index as nat) == target,
                target < pow256((la + lb) as nat),
            decreases la + lb - index,
        {
            proof {
                if index == la + lb {
                    let p = pow256(index as nat);
                    assert(carry as nat * p >= p) by (nonlinear_arith)
                        requires
                            carry >= 1,
                    ;
                }
            }
            let total: u16 = result[index] as u16 + carry;
            let low: u8 = (total & 0xff) as u8;
            let high: u16 = total >> 8;
            assert(total & 0xff == total % 256) by (bit_vector);
            assert(total >> 8 == total / 256) by (bit_vector);
            proof {
                lemma_le_value_update(result@, index as int, low);
                let p = pow256(index as nat);
                let existing = result[index as int] as nat;
                assert(low as nat * p + high as nat * (256 * p) == existing * p + carry as nat * p)
                    by (nonlinear_arith)
                    requires
                        existing + carry as nat == low as nat + 256 * high as nat,
                ;
            }
            result[index] = low;
            carry = high;
            index += 1;
        }
        i += 1;
    }
    assert(a@.take(la as int) =~= a@);
    let mut product: Vec<u8> = Vec::new();
    let mut k: usize = 8;
    while k < la + lb
        invariant
            8 <= k <= la + lb,
            result.len() == la + lb,
            product@ == result@.subrange(8, k as int),
        decreases la + lb - k,
    {
        product.push(result[k]);
        k += 1;
    }
    proof {
        lemma_le_value_skip(result@, 8);
    }
    trim(&mut product);
    proof {
        if product.len() >= 1 {
            lemma_shortest_unique(product@);
        }
    }
    product
}

/// Compares two byte strings in the order of byte strings.
pub fn bytes_le(a: &Vec<u8>, b: &Vec<u8>) -> (le: bool)
    ensures
        le == lex_le(a@, b@),
{
    let mut i: usize = 0;
    assert(a@.skip(0) =~= a@);
    assert(b@.skip(0) =~= b@);
    while i < a.len() && i < b.len()
        invariant
            i <= a.len(),
            i <= b.len(),
            lex_le(a@, b@) == lex_le(a@.skip(i as int), b@.skip(i as int)),
        decreases a.len() - i,
    {
        proof {
            assert(a@.skip(i as int).skip(1) =~= a@.skip(i + 1));
            assert(b@.skip(i as int).skip(1) =~= b@.skip(i + 1));
        }
        if a[i] != b[i] {
            return a[i] < b[i];
        }
        i += 1;
    }
    a.len() <= b.len()
}

/// Raises a fixed-point number to a power by square and multiply. Every
/// product on the way must be one that [`multiply_byte_arrays`] can form.
pub fn bytearray_pow(base: &Vec<u8>, exponent: u32) -> (power: Vec<u8>)
    requires
        power_defined(seq![1u8], base@, exponent as nat),
    ensures
        power@ == power_of(base@, exponent as nat),
{
    let mut result: Vec<u8> = Vec::new();
    result.push(1);
    let mut base_pow: Vec<u8> = Vec::new();
    let mut k: usize = 0;
    while k < base.len()
        invariant
            k <= base.len(),
            base_pow@ == base@.take(k as int),
        decreases base.len() - k,
    {
        base_pow.push(base[k]);
        k += 1;
    }
    assert(base@.take(k as int) =~= base@);
    let mut exp: u32 = exponent;
    while exp > 0
        invariant
            power_defined(result@, base_pow@, exp as nat),
            power_from(result@, base_pow@, exp as nat) == power_of(base@, exponent as nat),
        decreases exp,
    {
        if exp % 2 == 1 {
            result = multiply_byte_arrays(&result, &base_pow);
        }
        base_pow = multiply_byte_arrays(&base_pow, &base_pow);
        exp = exp / 2;
    }
    result
}

/// The number of steps of the bisection: two for every fractional bit.
pub const ROOT_STEPS: usize = 128;

/// Searches the `n`-th root of a fixed-point number by bisection between
/// zero and the number, in 128 steps. Every product on the way must be one
/// that [`multiply_byte_arrays`] can form.
pub fn bytearray_root(input: &Vec<u8>, n: u32) -> (root: Vec<u8>)
    requires
        root_defined(seq![0u8], input@, input@, n as nat, ROOT_STEPS as nat),
    ensures
        root@ == root_from(seq![0u8], input@, input@, n as nat, ROOT_STEPS as nat),
{
    let mut low: Vec<u8> = Vec::new();
    low.push(0);
    let mut high: Vec<u8> = Vec::new();
    let mut k: usize = 0;
    while k < input.len()
        invariant
            k <= input.len(),
            high@ == input@.take(k as int),
        decreases input.len() - k,
    {
        high.push(input[k]);
        k += 1;
    }
    assert(input@.take(k as int) =~= input@);
    let mut step: usize = 0;
    while step < ROOT_STEPS
        invariant
            step <= ROOT_STEPS,
            root_defined(low@, high@, input@, n as nat, (ROOT_STEPS - step) as nat),
            root_from(low@, high@, input@, n as nat, (ROOT_STEPS - step) as nat) == root_from(
                seq![0u8],
                input@,
                input@,
                n as nat,
                ROOT_STEPS as nat,
            ),
        decreases ROOT_STEPS - step,
    {
        let sum = add_bytearrays(&low, &high);
        let mid = divide_by_two(sum.as_slice());
        let mid_pow_n = bytearray_pow(&mid, n);
        if bytes_le(&mid_pow_n, input) {
            low = mid;
        } else {
            high = mid;
        }
        step += 1;
    }
    low
}

/// The number of steps of the Newton iteration.
pub const INVERSE_STEPS: usize = 10;

/// Approximates the inverse of a fixed-point number by ten steps of the
/// Newton iteration `y * (2 - x * y)`, from a power of two as first guess.
/// Every product on the way must be one that [`multiply_byte_arrays`] can
/// form.
pub fn bytearray_inverse(input: &Vec<u8>) -> (inverse: Vec<u8>)
    requires
        input.len() <= usize::MAX / 8,
        inverse_defined(input@, first_guess(input@), INVERSE_STEPS as nat),
    ensures
        inverse@ == inverse_from(input@, first_guess(input@), INVERSE_STEPS as nat),
{
    let bits = bit_length(input.as_slice());
    let init_exp: usize = if 128 > bits { 128 - bits } else { 0 };
    let mut y = power_of_two(init_exp);
    let two_fp = fixed_point_two();
    let mut step: usize = 0;
    while step < INVERSE_STEPS
        invariant
            step <= INVERSE_STEPS,
            two_fp@ == two(),
            inverse_defined(input@, y@, (INVERSE_STEPS - step) as nat),
            inverse_from(input@, y@, (INVERSE_STEPS - step) as nat) == inverse_from(
                input@,
                first_guess(input@),
                INVERSE_STEPS as nat,
            ),
        decreases INVERSE_STEPS - step,
    {
        let prod = multiply_byte_arrays(input, &y);
        let diff = subtract_bytearrays(two_fp.as_slice(), prod.as_slice());
        y = multiply_byte_arrays(&y, &diff);
        step += 1;
    }
    y
}

} // verus!
