//! The guest side of the storage convention: how a contract frames batched
//! reads and writes for the host, and how it addresses its storage through
//! pointers and tables. Values cross the boundary as JSON text; the calls
//! into the host happen outside.

use vstd::prelude::*;
use crate::segments::{flattened, nested_view, offset, segment, total, lemma_offsets, natural};
use crate::bytes::{bytes_eq, clone_bytes, slice_to_vec};
use crate::hashing::{blake3_digest, content_hash};
use crate::host_abi::length_of;

verus! {

/// What can go wrong between a guest and its host's storage.
#[derive(Debug, PartialEq, Eq)]
pub enum HostLibError {
    /// The host's batched read returned this status.
    HostGetError(i32),
    /// The host's batched write returned this status.
    HostSetError(i32),
    /// A value could not be serialised.
    SerializeError(String),
    /// A stored value could not be parsed.
    DeserializeError(String),
    /// The host reported more bytes than the data buffer holds.
    BufferTooSmall,
}

/// The number of bytes reserved in the data buffer for each value read.
pub const VALUE_CAPACITY: usize = 1024;

/// The length of a storage address.
pub const ADDRESS_LEN: u32 = 32;

/// Whether all keys have the length of the first.
pub open spec fn uniform(keys: Seq<Seq<u8>>) -> bool {
    forall|i: int| 0 <= i < keys.len() ==> (#[trigger] keys[i]).len() == keys[0].len()
}

/// Whether all keys have the length of the first.
pub fn is_uniform(keys: &Vec<Vec<u8>>) -> (yes: bool)
    ensures
        yes == uniform(nested_view(keys@)),
{
    let mut i: usize = 0;
    while i < keys.len()
        invariant
            i <= keys.len(),
            forall|k: int| 0 <= k < i ==> (#[trigger] keys[k]).len() == keys[0].len(),
        decreases keys.len() - i,
    {
        if keys[i].len() != keys[0].len() {
            assert(nested_view(keys@)[i as int].len() != nested_view(keys@)[0].len());
            return false;
        }
        i += 1;
    }
    assert forall|k: int| 0 <= k < nested_view(keys@).len() implies (#[trigger] nested_view(
        keys@,
    )[k]).len() == nested_view(keys@)[0].len() by {
        assert(keys[k].len() == keys[0].len());
    }
    true
}

/// A batched read, as handed to the host: the keys packed end to end, and
/// the sizes of the two buffers that the host fills, one with the values'
/// JSON end to end and one with a length per key.
#[derive(Debug, PartialEq, Eq)]
pub struct ReadRequest {
    pub keys_buf: Vec<u8>,
    pub data_buf_len: usize,
    pub num_keys: usize,
}

/// A batched write, as handed to the host: the keys packed end to end, the
/// values' JSON end to end, and the length of each value.
#[derive(Debug, PartialEq, Eq)]
pub struct WriteRequest {
    pub keys_buf: Vec<u8>,
    pub vals_buf: Vec<u8>,
    pub lengths: Vec<u32>,
}

/// Packs byte strings end to end.
pub fn pack(items: &Vec<Vec<u8>>) -> (packed: Vec<u8>)
    ensures
        packed@ == flattened(nested_view(items@)),
{
    let ghost lists = nested_view(items@);
    let mut packed: Vec<u8> = Vec::new();
    let mut i: usize = 0;
    while i < items.len()
        invariant
            i <= items.len(),
            lists == nested_view(items@),
            packed@ == flattened(lists.take(i as int)),
        decreases items.len() - i,
    {
        let mut copy = clone_bytes(&items[i]);
        packed.append(&mut copy);
        proof {
            assert(lists.take(i + 1).drop_last() =~= lists.take(i as int));
        }
        i += 1;
    }
    assert(lists.take(i as int) =~= lists);
    packed
}

/// The batched read of `keys`: `None` for no keys, which needs no call.
/// The keys of one batch have one length, and the data buffer reserves 1024
/// bytes per key.
pub fn reads(keys: &Vec<Vec<u8>>) -> (request: Option<ReadRequest>)
    requires
        uniform(nested_view(keys@)),
        keys.len() * VALUE_CAPACITY <= usize::MAX,
    ensures
        keys.len() == 0 <==> request is None,
        request matches Some(r) ==> r.keys_buf@ == flattened(nested_view(keys@)) && r.data_buf_len
            == VALUE_CAPACITY * keys.len() && r.num_keys == keys.len(),
{
    if keys.len() == 0 {
        return None;
    }
    let keys_buf = pack(keys);
    Some(ReadRequest { keys_buf, data_buf_len: VALUE_CAPACITY * keys.len(), num_keys: keys.len() })
}

/// The lengths as numbers.
pub open spec fn lengths_view(lengths: Seq<u32>) -> Seq<int> {
    Seq::new(lengths.len(), |i: int| lengths[i] as int)
}

/// The value that the host returned for key `i`: absent where the length is
/// zero, else the bytes that follow those of the values before it.
pub open spec fn value_at(data: Seq<u8>, lengths: Seq<int>, i: int) -> Option<Seq<u8>> {
    if lengths[i] == 0 {
        None
    } else {
        Some(segment(data, lengths, i))
    }
}

/// The values that the host returned, key by key.
pub open spec fn values_in(data: Seq<u8>, lengths: Seq<int>) -> Seq<Option<Seq<u8>>> {
    Seq::new(lengths.len(), |i: int| value_at(data, lengths, i))
}

/// What a list of optional byte strings holds.
pub open spec fn optional_bytes_view(values: Seq<Option<Vec<u8>>>) -> Seq<Option<Seq<u8>>> {
    Seq::new(
        values.len(),
        |i: int|
            match values[i] {
                Some(v) => Some(v@),
                None => None,
            },
    )
}

/// Cuts the data buffer that the host filled into one optional value per
/// key, by the lengths that the host reported. Lengths that together exceed
/// the buffer are an error.
pub fn read_results(data_buf: &Vec<u8>, lengths: &Vec<u32>) -> (out: Result<
    Vec<Option<Vec<u8>>>,
    HostLibError,
>)
    ensures
        total(lengths_view(lengths@)) > data_buf.len() <==> out is Err,
        out matches Err(e) ==> e is BufferTooSmall,
        out matches Ok(values) ==> optional_bytes_view(values@) == values_in(
            data_buf@,
            lengths_view(lengths@),
        ),
{
    let ghost sizes = lengths_view(lengths@);
    let mut values: Vec<Option<Vec<u8>>> = Vec::new();
    let mut at: usize = 0;
    let mut i: usize = 0;
    proof {
        lemma_offsets(sizes, 0);
    }
    while i < lengths.len()
        invariant
            i <= lengths.len(),
            sizes == lengths_view(lengths@),
            natural(sizes),
            at == offset(sizes, i as int),
            at <= data_buf.len(),
            values.len() == i,
            forall|k: int|
                0 <= k < i ==> match #[trigger] values[k] {
                    Some(v) => Some(v@),
                    None => None,
                } == value_at(data_buf@, sizes, k),
        decreases lengths.len() - i,
    {
        proof {
            lemma_offsets(sizes, i as int);
            lemma_offsets(sizes, i + 1);
        }
        let len: usize = lengths[i] as usize;
        if len == 0 {
            values.push(None);
        } else {
            if len > data_buf.len() - at {
                return Err(HostLibError::BufferTooSmall);
            }
            let mut value: Vec<u8> = Vec::new();
            let mut k: usize = 0;
            while k < len
                invariant
                    k <= len,
                    at + len <= data_buf.len(),
                    value@ == data_buf@.subrange(at as int, at + k),
                decreases len - k,
            {
                value.push(data_buf[at + k]);
                k += 1;
            }
            values.push(Some(value));
            at = at + len;
        }
        i += 1;
    }
    proof {
        lemma_offsets(sizes, lengths.len() as int);
    }
    Ok(values)
}

/// The value of a single-key read: the first of the results, absent where
/// there is none.
pub fn first_result(values: Vec<Option<Vec<u8>>>) -> (value: Option<Vec<u8>>)
    ensures
        value == if values.len() > 0 {
            values[0]
        } else {
            None
        },
{
    let mut values = values;
    if values.len() == 0 {
        None
    } else {
        values.swap_remove(0)
    }
}

/// The length of each value as the host reads it: the low 32 bits.
pub open spec fn value_lengths(values: Seq<Seq<u8>>) -> Seq<u32> {
    Seq::new(values.len(), |i: int| length_of(values[i].len() as usize))
}

/// The batched write of `values`, already serialised, under `keys`: `None`
/// for no keys, which needs no call. There is one value per key, and the
/// keys of one batch have one length.
pub fn writes(keys: &Vec<Vec<u8>>, values: &Vec<Vec<u8>>) -> (request: Option<WriteRequest>)
    requires
        keys.len() > 0 ==> values.len() == keys.len(),
        uniform(nested_view(keys@)),
    ensures
        keys.len() == 0 <==> request is None,
        request matches Some(r) ==> r.keys_buf@ == flattened(nested_view(keys@)) && r.vals_buf@
            == flattened(nested_view(values@)) && r.lengths@ == value_lengths(
            nested_view(values@),
        ),
{
    if keys.len() == 0 {
        return None;
    }
    let keys_buf = pack(keys);
    let vals_buf = pack(values);
    let mut lengths: Vec<u32> = Vec::new();
    let mut i: usize = 0;
    while i < values.len()
        invariant
            i <= values.len(),
            lengths.len() == i,
            forall|k: int| 0 <= k < i ==> #[trigger] lengths[k] == length_of(values[k].len()),
        decreases values.len() - i,
    {
        let wide: u64 = values[i].len() as u64;
        let low: u64 = wide & 0xffff_ffff;
        assert(wide & 0xffff_ffff == wide % 0x1_0000_0000) by (bit_vector);
        lengths.push(low as u32);
        i += 1;
    }
    Some(WriteRequest { keys_buf, vals_buf, lengths })
}

/// Reads a host status after a batched read: zero is success.
pub fn check_get(status: i32) -> (out: Result<(), HostLibError>)
    ensures
        status == 0 <==> out is Ok,
        out matches Err(e) ==> e == HostLibError::HostGetError(status),
{
    if status == 0 {
        Ok(())
    } else {
        Err(HostLibError::HostGetError(status))
    }
}

/// Reads a host status after a batched write: zero is success.
pub fn check_set(status: i32) -> (out: Result<(), HostLibError>)
    ensures
        status == 0 <==> out is Ok,
        out matches Err(e) ==> e == HostLibError::HostSetError(status),
{
    if status == 0 {
        Ok(())
    } else {
        Err(HostLibError::HostSetError(status))
    }
}

/// The read of the single key `key`.
pub fn read_storage_json(key: &[u8]) -> (request: ReadRequest)
    ensures
        request.keys_buf@ == key@,
        request.data_buf_len == VALUE_CAPACITY,
        request.num_keys == 1,
{
    let mut keys: Vec<Vec<u8>> = Vec::new();
    keys.push(slice_to_vec(key));
    proof {
        single_flat(key@);
        assert(nested_view(keys@) =~= seq![key@]);
    }
    match reads(&keys) {
        Some(request) => request,
        None => ReadRequest { keys_buf: Vec::new(), data_buf_len: 0, num_keys: 0 },
    }
}

/// The write of the single serialised value `value` under `key`.
pub fn write_storage_json(key: &[u8], value: Vec<u8>) -> (request: WriteRequest)
    ensures
        request.keys_buf@ == key@,
        request.vals_buf@ == value@,
        request.lengths@ == seq![length_of(value.len())],
{
    let mut keys: Vec<Vec<u8>> = Vec::new();
    keys.push(slice_to_vec(key));
    let mut values: Vec<Vec<u8>> = Vec::new();
    values.push(value);
    proof {
        single_flat(key@);
        single_flat(value@);
        assert(nested_view(keys@) =~= seq![key@]);
        assert(nested_view(values@) =~= seq![value@]);
    }
    match writes(&keys, &values) {
        Some(request) => request,
        None => WriteRequest { keys_buf: Vec::new(), vals_buf: Vec::new(), lengths: Vec::new() },
    }
}

/// One list laid end to end is that list.
proof fn single_flat(item: Seq<u8>)
    ensures
        flattened(seq![item]) == item,
{
    let one = seq![item];
    assert(flattened(one.drop_last()) =~= Seq::<u8>::empty());
}

/// The address of a contract's root object: 32 zero bytes.
pub open spec fn root_address() -> Seq<u8> {
    Seq::new(32, |i: int| 0u8)
}

/// The key of the root object.
pub fn root_key() -> (key: Vec<u8>)
    ensures
        key@ == root_address(),
{
    let mut key: Vec<u8> = Vec::new();
    let mut i: usize = 0;
    while i < 32
        invariant
            i <= 32,
            key.len() == i,
            forall|k: int| 0 <= k < i ==> #[trigger] key[k] == 0,
        decreases 32 - i,
    {
        key.push(0);
        i += 1;
    }
    key
}

/// The read of the root object, which holds a contract's whole reachable
/// state.
pub fn get_root() -> (request: ReadRequest)
    ensures
        request.keys_buf@ == root_address(),
        request.data_buf_len == VALUE_CAPACITY,
        request.num_keys == 1,
{
    let key = root_key();
    read_storage_json(key.as_slice())
}

/// The write of the serialised root object.
pub fn set_root(root: Vec<u8>) -> (request: WriteRequest)
    ensures
        request.keys_buf@ == root_address(),
        request.vals_buf@ == root@,
        request.lengths@ == seq![length_of(root.len())],
{
    let key = root_key();
    write_storage_json(key.as_slice(), root)
}

/// A handle on one storage slot: its address.
#[derive(Debug, PartialEq, Eq)]
pub struct Pointer {
    key: Vec<u8>,
    len: u32,
}

impl Pointer {
    /// The address of the slot.
    pub closed spec fn address(&self) -> Seq<u8> {
        self.key@
    }

    /// The length that the handle records for its address.
    pub closed spec fn recorded_len(&self) -> u32 {
        self.len
    }

    /// A handle on the slot at `key`; where no key is given, on the slot at
    /// the `fresh` address, which the caller has drawn at random.
    pub fn new(key: Option<Vec<u8>>, fresh: Vec<u8>) -> (pointer: Pointer)
        ensures
            pointer.address() == match key {
                Some(k) => k@,
                None => fresh@,
            },
            pointer.recorded_len() == ADDRESS_LEN,
    {
        let key = match key {
            Some(k) => k,
            None => fresh,
        };
        Pointer { key, len: ADDRESS_LEN }
    }

    /// The read of the value stored in the slot.
    pub fn get(&self) -> (request: ReadRequest)
        ensures
            request.keys_buf@ == self.address(),
            request.data_buf_len == VALUE_CAPACITY,
            request.num_keys == 1,
    {
        read_storage_json(self.key.as_slice())
    }

    /// The write of the serialised `value` into the slot.
    pub fn set(&self, value: Vec<u8>) -> (request: WriteRequest)
        ensures
            request.keys_buf@ == self.address(),
            request.vals_buf@ == value@,
            request.lengths@ == seq![length_of(value.len())],
    {
        write_storage_json(self.key.as_slice(), value)
    }

    /// The address of the slot.
    pub fn ptr(&self) -> (address: Vec<u8>)
        ensures
            address@ == self.address(),
    {
        clone_bytes(&self.key)
    }
}

/// The text that `serde_json::to_string` writes for the pair of a table's
/// name and a key, the key given as JSON text and taken in as it stands:
/// `None` where `serde_json` does not take the key text for JSON.
pub uninterp spec fn compound_key_json(table: Seq<char>, key_json: Seq<char>) -> Option<Seq<char>>;

/// What an optional text holds.
pub open spec fn optional_text_view(text: Option<String>) -> Option<Seq<char>> {
    match text {
        Some(t) => Some(t@),
        None => None,
    }
}

/// `serde_json::to_string` on the pair of the table's name and the key, the
/// key text turned into a raw JSON value by `RawValue::from_string`, which
/// refuses a text that is not JSON. Both errors are dropped. What comes back
/// depends on the two texts alone and goes by the name
/// [`compound_key_json`]; nothing else is claimed of it.
#[verifier::external_body]
fn compound_key(table: &str, key_json: &str) -> (text: Option<String>)
    ensures
        optional_text_view(text) == compound_key_json(table@, key_json@),
{
    let key = serde_json::value::RawValue::from_string(key_json.to_string()).ok()?;
    serde_json::to_string(&(table, key)).ok()
}

/// The storage address of `key_json` in the table `table`: the content hash
/// of the serialised pair of the two. `None` where the key is not JSON.
pub open spec fn table_address(table: Seq<char>, key_json: Seq<char>) -> Option<Seq<u8>> {
    match compound_key_json(table, key_json) {
        Some(text) => Some(blake3_digest(text_bytes(text))),
        None => None,
    }
}

/// The UTF-8 bytes of a text.
pub open spec fn text_bytes(text: Seq<char>) -> Seq<u8> {
    vstd::utf8::encode_utf8(text)
}

/// A logical keyed collection: its name decides where its entries live.
#[derive(Debug, PartialEq, Eq)]
pub struct Table {
    table_name: String,
}

impl Table {
    /// The table's name.
    pub closed spec fn name(&self) -> Seq<char> {
        self.table_name@
    }

    /// The table of the given name.
    pub fn new(table_name: String) -> (table: Table)
        ensures
            table.name() == table_name@,
    {
        Table { table_name }
    }

    /// The storage address of the entry for `key_json`, a key given as JSON
    /// text. `None` where the key is not valid JSON.
    pub fn storage_key(&self, key_json: &str) -> (address: Option<Vec<u8>>)
        ensures
            match address {
                Some(a) => Some(a@),
                None => None,
            } == table_address(self.name(), key_json@),
    {
        match compound_key(self.table_name.as_str(), key_json) {
            Some(text) => Some(content_hash(text.as_str().as_bytes())),
            None => None,
        }
    }

    /// The handle on the entry for `key_json`. `None` where the key is not
    /// valid JSON.
    pub fn get(&self, key_json: &str) -> (pointer: Option<Pointer>)
        ensures
            match pointer {
                Some(p) => Some(p.address()),
                None => None,
            } == table_address(self.name(), key_json@),
            pointer matches Some(p) ==> p.recorded_len() == ADDRESS_LEN,
    {
        match self.storage_key(key_json) {
            Some(address) => Some(Pointer::new(Some(address), Vec::new())),
            None => None,
        }
    }

    /// The write of the serialised `value` into the entry for `key_json`.
    /// `None` where the key is not valid JSON.
    pub fn set(&self, key_json: &str, value: Vec<u8>) -> (request: Option<WriteRequest>)
        ensures
            request is Some <==> table_address(self.name(), key_json@) is Some,
            request matches Some(r) ==> Some(r.keys_buf@) == table_address(self.name(), key_json@)
                && r.vals_buf@ == value@ && r.lengths@ == seq![length_of(value.len())],
    {
        match self.get(key_json) {
            Some(pointer) => Some(pointer.set(value)),
            None => None,
        }
    }
}

/// Addresses are a function of the table's name and the key: two tables of
/// the same name address the same key at the same place.
pub proof fn law_table_determinism(a: Table, b: Table, key_a: Seq<char>, key_b: Seq<char>)
    requires
        a.name() == b.name(),
        key_a == key_b,
    ensures
        table_address(a.name(), key_a) == table_address(b.name(), key_b),
{
}

/// Whether `commit` is the content hash of the serialised `reveal`.
pub fn verify_commit_reveal(commit: Vec<u8>, reveal: &[u8]) -> (ok: bool)
    ensures
        ok == (commit@ == blake3_digest(reveal@)),
{
    let hash = content_hash(reveal);
    bytes_eq(&commit, &hash)
}

} // verus!
