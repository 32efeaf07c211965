//! The records exchanged with the contract store.

use vstd::prelude::*;
use crate::executor::ExecutionError;

verus! {

/// The identity of one sandboxed call.
#[derive(Debug, PartialEq, Eq)]
pub struct ContractContext {
    contract_id: Vec<u8>,
    call_id: u64,
    rand_id: u64,
}

/// What a [`ContractContext`] holds.
pub struct ContextView {
    pub contract_id: Seq<u8>,
    pub call_id: u64,
    pub rand_id: u64,
}

impl View for ContractContext {
    type V = ContextView;

    closed spec fn view(&self) -> ContextView {
        ContextView { contract_id: self.contract_id@, call_id: self.call_id, rand_id: self.rand_id }
    }
}

impl ContractContext {
    /// The context of a call: the contract's address, the call's identifier
    /// and the identifier of its randomness stream.
    pub fn new(contract_id: Vec<u8>, call_id: u64, rand_id: u64) -> (ctx: ContractContext)
        ensures
            ctx@ == (ContextView { contract_id: contract_id@, call_id, rand_id }),
    {
        ContractContext { contract_id, call_id, rand_id }
    }

    /// The address of the contract that runs.
    pub fn contract_id(&self) -> (id: &Vec<u8>)
        ensures
            id@ == self@.contract_id,
    {
        &self.contract_id
    }

    /// The call's identifier.
    pub fn call_id(&self) -> (id: u64)
        ensures
            id == self@.call_id,
    {
        self.call_id
    }

    /// The identifier of the call's randomness stream.
    pub fn rand_id(&self) -> (id: u64)
        ensures
            id == self@.rand_id,
    {
        self.rand_id
    }
}

/// A stored record: bytecode or contract data, with its version.
#[derive(Debug, PartialEq, Eq)]
pub struct ContractRecord {
    pub is_contract: bool,
    pub in_contract: Vec<u8>,
    pub at_address: Vec<u8>,
    pub data: Vec<u8>,
    pub version: i64,
}

/// A record to store, with the version the caller expects to replace, if any.
#[derive(Debug, PartialEq, Eq)]
pub struct ContractSetArg {
    pub is_contract: bool,
    pub in_contract: Vec<u8>,
    pub at_address: Vec<u8>,
    pub data: Vec<u8>,
    pub version: Option<i64>,
}

/// What a [`ContractSetArg`] holds.
pub struct SetArgView {
    pub is_contract: bool,
    pub in_contract: Seq<u8>,
    pub at_address: Seq<u8>,
    pub data: Seq<u8>,
    pub version: Option<i64>,
}

impl View for ContractSetArg {
    type V = SetArgView;

    open spec fn view(&self) -> SetArgView {
        SetArgView {
            is_contract: self.is_contract,
            in_contract: self.in_contract@,
            at_address: self.at_address@,
            data: self.data@,
            version: self.version,
        }
    }
}

/// A storage key: the namespace and the address inside it.
pub type KeyPair = (Vec<u8>, Vec<u8>);

/// What a list of storage keys holds.
pub open spec fn key_pairs_view(pairs: Seq<KeyPair>) -> Seq<(Seq<u8>, Seq<u8>)> {
    Seq::new(pairs.len(), |i: int| (pairs[i].0@, pairs[i].1@))
}

/// What a list of records to store holds.
pub open spec fn set_args_view(args: Seq<ContractSetArg>) -> Seq<SetArgView> {
    Seq::new(args.len(), |i: int| args[i]@)
}

/// What the store does with one record of a batched write.
#[derive(Clone, Copy, Debug, PartialEq, Eq, Structural)]
pub enum Upsert {
    /// Nothing is stored at the key: the record is inserted, at version 0.
    Insert,
    /// The stored record is replaced, and gets this version.
    Update { version: i64 },
    /// The stored version is not the one the caller expected: the stored
    /// record stays as it is.
    Conflict,
    /// The stored version is the largest there is: the store cannot count on.
    Overflow,
}

/// The rule of the versioned write. Where nothing is stored at the key, the
/// record is inserted, whatever version the caller expects. Where a record
/// is stored, it is replaced if the caller expects no version in particular
/// or expects the stored one, and its version grows by one; else it stays.
pub open spec fn upsert_of(stored: Option<i64>, expected: Option<i64>) -> Upsert {
    match stored {
        None => Upsert::Insert,
        Some(version) => if expected is Some && expected != Some(version) {
            Upsert::Conflict
        } else if version == i64::MAX {
            Upsert::Overflow
        } else {
            Upsert::Update { version: (version + 1) as i64 }
        },
    }
}

/// Decides what the store does with a record, from the version stored at its
/// key, if any, and the version the caller expects, if any.
pub fn upsert_decision(stored: Option<i64>, expected: Option<i64>) -> (decision: Upsert)
    ensures
        decision == upsert_of(stored, expected),
{
    match stored {
        None => Upsert::Insert,
        Some(version) => {
            let conflict = match expected {
                Some(e) => e != version,
                None => false,
            };
            if conflict {
                Upsert::Conflict
            } else if version == i64::MAX {
                Upsert::Overflow
            } else {
                Upsert::Update { version: version + 1 }
            }
        },
    }
}

/// What the caller is told of one record of a batched write: a record that
/// was inserted or replaced is applied; one that met another version is a
/// version conflict, which does not stop the records after it; a version that
/// cannot grow is a failure of the store.
pub fn set_outcome(decision: Upsert) -> (outcome: Result<(), ExecutionError>)
    ensures
        outcome == match decision {
            Upsert::Insert => Ok::<(), ExecutionError>(()),
            Upsert::Update { .. } => Ok(()),
            Upsert::Conflict => Err(ExecutionError::VersionConflict),
            Upsert::Overflow => Err(ExecutionError::StorageError),
        },
{
    match decision {
        Upsert::Insert => Ok(()),
        Upsert::Update { .. } => Ok(()),
        Upsert::Conflict => Err(ExecutionError::VersionConflict),
        Upsert::Overflow => Err(ExecutionError::StorageError),
    }
}

/// A stored version never goes back: a write that is applied to a stored
/// record leaves a larger version, and a write that is not applied leaves
/// none. A caller that expects a version other than the stored one is never
/// applied, and a caller that expects the stored one, or none, is, as long as
/// the version can grow.
pub proof fn law_versions_grow(stored: i64, expected: Option<i64>)
    ensures
        upsert_of(Some(stored), expected) matches Upsert::Update { version } ==> version == stored
            + 1,
        upsert_of(Some(stored), expected) is Conflict <==> expected is Some && expected != Some(
            stored,
        ),
        upsert_of(Some(stored), expected) is Update <==> (expected is None || expected == Some(
            stored,
        )) && stored < i64::MAX,
        !(upsert_of(Some(stored), expected) is Insert),
        upsert_of(None, expected) is Insert,
{
}

} // verus!
