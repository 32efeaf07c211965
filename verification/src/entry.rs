//! The calling convention of a guest's entry point. The guest exports one
//! function that takes the pointer and length of a request buffer and
//! returns one 64-bit word: the output buffer's pointer in the upper 32 bits
//! and its length in the lower 32 bits. The word 0 means failure.

use vstd::prelude::*;

verus! {

/// The word that an entry point returns when it failed.
pub const ENTRY_FAILURE: u64 = 0;

/// The word that stands for an output buffer: the pointer in the upper 32
/// bits, the low 32 bits of the length in the lower.
pub open spec fn packed(ptr: u32, len: usize) -> u64 {
    (ptr as int * 0x1_0000_0000 + len as int % 0x1_0000_0000) as u64
}

/// Packs the pointer and length of an output buffer into the returned word.
pub fn pack_return(ptr: u32, len: usize) -> (word: u64)
    ensures
        word == packed(ptr, len),
{
    let wide: u64 = len as u64;
    let low: u64 = wide & 0xffff_ffff;
    let high: u64 = ptr as u64;
    let word: u64 = (high << 32) | low;
    assert(wide & 0xffff_ffff == wide % 0x1_0000_0000) by (bit_vector);
    assert((high << 32) | low == high * 0x1_0000_0000 + low) by (bit_vector)
        requires
            high < 0x1_0000_0000,
            low < 0x1_0000_0000,
    ;
    word
}

/// The word that an entry point returns: the packed output buffer where
/// there is one, the failure word where the request could not be served.
pub fn entry_return(output: Option<(u32, usize)>) -> (word: u64)
    ensures
        word == match output {
            Some((ptr, len)) => packed(ptr, len),
            None => ENTRY_FAILURE,
        },
{
    match output {
        Some((ptr, len)) => pack_return(ptr, len),
        None => ENTRY_FAILURE,
    }
}

/// The output buffer that a returned word stands for; `None` for the
/// failure word.
pub open spec fn unpacked(word: u64) -> Option<(u32, u32)> {
    if word == 0 {
        None
    } else {
        Some(((word / 0x1_0000_0000) as u32, (word % 0x1_0000_0000) as u32))
    }
}

/// Reads a returned word: failure, or the pointer and length of the output.
pub fn unpack_return(word: u64) -> (output: Option<(u32, u32)>)
    ensures
        output == unpacked(word),
{
    if word == 0 {
        None
    } else {
        let high: u64 = word >> 32;
        let low: u64 = word & 0xffff_ffff;
        assert(word >> 32 == word / 0x1_0000_0000) by (bit_vector);
        assert(word & 0xffff_ffff == word % 0x1_0000_0000) by (bit_vector);
        Some((high as u32, low as u32))
    }
}

/// Packing and reading agree: a word that is not the failure word reads as
/// the pointer and the length that were packed, and the failure word comes
/// from packing only for the null pointer with an empty buffer.
pub proof fn law_pack_unpack(ptr: u32, len: usize)
    requires
        len < 0x1_0000_0000,
    ensures
        packed(ptr, len) != 0 ==> unpacked(packed(ptr, len)) == Some((ptr, len as u32)),
        packed(ptr, len) == 0 <==> ptr == 0 && len == 0,
        unpacked(ENTRY_FAILURE) is None,
{
}

} // verus!
