//! The host side of the guest ABI: the three functions a sandboxed module
//! imports (`rand`, `gets`, `sets`). Everything crosses the boundary as
//! regions of the guest's linear memory; this module decides which regions
//! are read, what is computed from them and what is written back.

use vstd::prelude::*;
use crate::bytes::clone_bytes;
use crate::store::{ContractSetArg, KeyPair, SetArgView, key_pairs_view, set_args_view};

verus! {

/// The number of random bytes that `rand` hands to the guest.
pub const RANDOM_LEN: usize = 32;

/// The status that a host function returns to the guest when it succeeded.
pub const HOST_OK: i32 = 0;

/// A region of guest memory to read before a host function can run.
#[derive(Debug, PartialEq, Eq)]
pub struct MemoryRead {
    pub offset: usize,
    pub len: usize,
}

/// Bytes to write into guest memory at an offset.
#[derive(Debug, PartialEq, Eq)]
pub struct MemoryWrite {
    pub offset: usize,
    pub bytes: Vec<u8>,
}

/// The four bytes of a 32-bit word, least significant first.
pub open spec fn le_word(n: u32) -> Seq<u8> {
    seq![
        (n % 256) as u8,
        ((n / 256) % 256) as u8,
        ((n / 65536) % 256) as u8,
        ((n / 16777216) % 256) as u8,
    ]
}

/// The 32-bit word that stands for a length: its low 32 bits.
pub open spec fn length_of(len: usize) -> u32 {
    (len as int % 0x1_0000_0000) as u32
}

/// Encodes a 32-bit word as four bytes, least significant first.
pub fn encode_word(n: u32) -> (bytes: Vec<u8>)
    ensures
        bytes@ == le_word(n),
{
    let b0: u8 = (n & 0xff) as u8;
    let b1: u8 = ((n >> 8) & 0xff) as u8;
    let b2: u8 = ((n >> 16) & 0xff) as u8;
    let b3: u8 = ((n >> 24) & 0xff) as u8;
    assert((n & 0xff) == n % 256) by (bit_vector);
    assert(((n >> 8) & 0xff) == (n / 256) % 256) by (bit_vector);
    assert(((n >> 16) & 0xff) == (n / 65536) % 256) by (bit_vector);
    assert(((n >> 24) & 0xff) == (n / 16777216) % 256) by (bit_vector);
    let mut bytes: Vec<u8> = Vec::new();
    bytes.push(b0);
    bytes.push(b1);
    bytes.push(b2);
    bytes.push(b3);
    bytes
}

/// Encodes a length as the guest reads it: the low 32 bits, least
/// significant byte first.
pub fn encode_length(len: usize) -> (bytes: Vec<u8>)
    ensures
        bytes@ == le_word(length_of(len)),
{
    let wide: u64 = len as u64;
    let low: u64 = wide & 0xffff_ffff;
    assert(wide & 0xffff_ffff == wide % 0x1_0000_0000) by (bit_vector);
    encode_word(low as u32)
}

/// `rand::rng()` and `RngCore::fill_bytes`: a buffer of `len` bytes, filled
/// by the thread's generator. Of what comes back only the length is known:
/// the bytes differ from call to call. The generator panics where the
/// system's source of randomness fails.
#[verifier::external_body]
fn random_bytes(len: usize) -> (bytes: Vec<u8>)
    ensures
        bytes.len() == len,
{
    let mut bytes = vec![0u8; len];
    rand::RngCore::fill_bytes(&mut rand::rng(), &mut bytes);
    bytes
}

/// What the host writes for `rand(out_ptr, out_len_ptr)` once `random` has
/// been drawn: the bytes at `out_ptr`, then their length at `out_len_ptr`.
pub fn rand_writes(out_ptr: u32, out_len_ptr: u32, random: Vec<u8>) -> (writes: Vec<MemoryWrite>)
    ensures
        writes.len() == 2,
        writes[0].offset == out_ptr,
        writes[0].bytes@ == random@,
        writes[1].offset == out_len_ptr,
        writes[1].bytes@ == le_word(length_of(random.len())),
{
    let len_bytes = encode_length(random.len());
    let mut writes: Vec<MemoryWrite> = Vec::new();
    writes.push(MemoryWrite { offset: out_ptr as usize, bytes: random });
    writes.push(MemoryWrite { offset: out_len_ptr as usize, bytes: len_bytes });
    writes
}

/// The host function `rand(out_ptr, out_len_ptr)`: 32 fresh random bytes
/// at `out_ptr`, then the little-endian word 32 at `out_len_ptr`.
pub fn rand_reply(out_ptr: u32, out_len_ptr: u32) -> (writes: Vec<MemoryWrite>)
    ensures
        writes.len() == 2,
        writes[0].offset == out_ptr,
        writes[0].bytes.len() == RANDOM_LEN,
        writes[1].offset == out_len_ptr,
        writes[1].bytes@ == le_word(32),
{
    let random = random_bytes(RANDOM_LEN);
    rand_writes(out_ptr, out_len_ptr, random)
}

/// The region that holds a buffer the guest passed as `(ptr, len)`.
pub fn guest_buffer(ptr: u32, len: u32) -> (region: MemoryRead)
    ensures
        region.offset == ptr,
        region.len == len,
{
    MemoryRead { offset: ptr as usize, len: len as usize }
}

/// The key list that `serde_json::from_slice` reads out of a JSON text: the
/// text is an array of pairs, a pair an array of two byte strings, a byte
/// string an array of numbers below 256. `None` where the text is not such a
/// list.
pub uninterp spec fn json_key_pairs(text: Seq<u8>) -> Option<Seq<(Seq<u8>, Seq<u8>)>>;

/// What an optional key list holds.
pub open spec fn optional_pairs_view(
    pairs: Option<Vec<KeyPair>>,
) -> Option<Seq<(Seq<u8>, Seq<u8>)>> {
    match pairs {
        Some(p) => Some(key_pairs_view(p@)),
        None => None,
    }
}

/// `serde_json::from_slice` at the type `Vec<(Vec<u8>, Vec<u8>)>`, with its
/// error dropped. What it returns depends on the text alone and goes by the
/// name [`json_key_pairs`]; nothing else is claimed of it.
#[verifier::external_body]
fn decode_key_pairs(text: &[u8]) -> (pairs: Option<Vec<KeyPair>>)
    ensures
        optional_pairs_view(pairs) == json_key_pairs(text@),
{
    serde_json::from_slice(text).ok()
}

/// The keys that a decoded key buffer stands for: a text that does not parse
/// counts as the empty list.
pub open spec fn keys_or_empty(
    decoded: Option<Seq<(Seq<u8>, Seq<u8>)>>,
) -> Seq<(Seq<u8>, Seq<u8>)> {
    match decoded {
        Some(p) => p,
        None => Seq::empty(),
    }
}

/// Reads the key list out of the buffer the guest passed to `gets` or
/// `sets`. An unparseable buffer is an empty list, not a failure.
pub fn parse_key_pairs(text: &[u8]) -> (pairs: Vec<KeyPair>)
    ensures
        key_pairs_view(pairs@) == keys_or_empty(json_key_pairs(text@)),
{
    match decode_key_pairs(text) {
        Some(p) => p,
        None => {
            let empty: Vec<KeyPair> = Vec::new();
            empty
        },
    }
}

/// What the host writes for `gets(.., rets_ptr, rets_len_ptr)` once the
/// looked-up records are serialised: the JSON at `rets_ptr`, then its
/// length at `rets_len_ptr`.
pub fn gets_reply(rets_ptr: u32, rets_len_ptr: u32, out_json: Vec<u8>) -> (writes: Vec<MemoryWrite>)
    ensures
        writes.len() == 2,
        writes[0].offset == rets_ptr,
        writes[0].bytes@ == out_json@,
        writes[1].offset == rets_len_ptr,
        writes[1].bytes@ == le_word(length_of(out_json.len())),
{
    let len_bytes = encode_length(out_json.len());
    let mut writes: Vec<MemoryWrite> = Vec::new();
    writes.push(MemoryWrite { offset: rets_ptr as usize, bytes: out_json });
    writes.push(MemoryWrite { offset: rets_len_ptr as usize, bytes: len_bytes });
    writes
}

/// The key at a position of a `sets` call; positions past the key list get
/// the empty namespace and the empty address.
pub open spec fn key_at(pairs: Seq<(Seq<u8>, Seq<u8>)>, i: int) -> (Seq<u8>, Seq<u8>) {
    if 0 <= i < pairs.len() {
        pairs[i]
    } else {
        (Seq::empty(), Seq::empty())
    }
}

/// The record stored for a position of a `sets` call. The key list decides
/// namespace and address, whatever the value record says of them; a
/// position past the value list gets an empty placeholder.
pub open spec fn merged_arg(
    pairs: Seq<(Seq<u8>, Seq<u8>)>,
    args: Seq<SetArgView>,
    i: int,
) -> SetArgView {
    if 0 <= i < args.len() {
        SetArgView {
            is_contract: args[i].is_contract,
            in_contract: key_at(pairs, i).0,
            at_address: key_at(pairs, i).1,
            data: args[i].data,
            version: args[i].version,
        }
    } else {
        SetArgView {
            is_contract: false,
            in_contract: key_at(pairs, i).0,
            at_address: key_at(pairs, i).1,
            data: Seq::empty(),
            version: None,
        }
    }
}

/// The records that a `sets` call stores: one per position of the longer
/// of the two lists.
pub open spec fn merged_args(
    pairs: Seq<(Seq<u8>, Seq<u8>)>,
    args: Seq<SetArgView>,
) -> Seq<SetArgView> {
    Seq::new(
        if pairs.len() >= args.len() { pairs.len() } else { args.len() },
        |i: int| merged_arg(pairs, args, i),
    )
}

/// Merges the key list and the value list of a `sets` call position by
/// position. A length mismatch is tolerated: the shorter list is padded.
pub fn merge_set_args(
    pairs: &Vec<KeyPair>,
    args: &Vec<ContractSetArg>,
) -> (merged: Vec<ContractSetArg>)
    ensures
        set_args_view(merged@) == merged_args(key_pairs_view(pairs@), set_args_view(args@)),
{
    let count: usize = if pairs.len() >= args.len() { pairs.len() } else { args.len() };
    let ghost pv = key_pairs_view(pairs@);
    let ghost av = set_args_view(args@);
    let mut merged: Vec<ContractSetArg> = Vec::new();
    let mut i: usize = 0;
    while i < count
        invariant
            i <= count,
            count == if pairs.len() >= args.len() { pairs.len() } else { args.len() },
            pv == key_pairs_view(pairs@),
            av == set_args_view(args@),
            merged.len() == i,
            forall|k: int| 0 <= k < i ==> (#[trigger] merged[k])@ == merged_arg(pv, av, k),
        decreases count - i,
    {
        let (some_in, some_at) = if i < pairs.len() {
            (clone_bytes(&pairs[i].0), clone_bytes(&pairs[i].1))
        } else {
            (Vec::new(), Vec::new())
        };
        let arg = if i < args.len() {
            ContractSetArg {
                is_contract: args[i].is_contract,
                in_contract: some_in,
                at_address: some_at,
                data: clone_bytes(&args[i].data),
                version: args[i].version,
            }
        } else {
            ContractSetArg {
                is_contract: false,
                in_contract: some_in,
                at_address: some_at,
                data: Vec::new(),
                version: None,
            }
        };
        merged.push(arg);
        i += 1;
    }
    merged
}

/// The records that a `sets` call stores, from the key buffer as the guest
/// passed it and the value records parsed from the value buffer.
pub fn sets_arguments(keys_text: &[u8], args: &Vec<ContractSetArg>) -> (merged: Vec<ContractSetArg>)
    ensures
        set_args_view(merged@) == merged_args(
            keys_or_empty(json_key_pairs(keys_text@)),
            set_args_view(args@),
        ),
{
    let pairs = parse_key_pairs(keys_text);
    merge_set_args(&pairs, args)
}

} // verus!
