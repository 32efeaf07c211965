//! Deployment: bytecode is stored under its own content hash, and that hash
//! is the contract's address from then on.

use vstd::prelude::*;
use crate::bytes::clone_bytes;
use crate::hashing::{blake3_digest, content_hash, hex_text, to_hex};
use crate::store::{ContractSetArg, SetArgView};

verus! {

/// Why bytecode was not deployed.
#[derive(Clone, Copy, Debug, PartialEq, Eq, Structural)]
pub enum DeployError {
    /// No contract bytes were provided.
    EmptyBody,
}

/// What deploying bytecode comes to: the record to store and the contract's
/// address as the caller is told it, in hexadecimal.
#[derive(Debug, PartialEq, Eq)]
pub struct Deployment {
    pub record: ContractSetArg,
    pub contract_hash: String,
}

/// The record that stores `body` as bytecode at the address `hash`:
/// namespace and address are both that address, and no stored version is
/// expected.
pub open spec fn bytecode_record(body: Seq<u8>, hash: Seq<u8>) -> SetArgView {
    SetArgView { is_contract: true, in_contract: hash, at_address: hash, data: body, version: None }
}

/// The deployment of `body` under its content hash `hash`.
pub fn deployment_of(body: Vec<u8>, hash: Vec<u8>) -> (deployment: Deployment)
    ensures
        deployment.record@ == bytecode_record(body@, hash@),
        deployment.contract_hash@ == hex_text(hash@),
{
    let contract_hash = to_hex(hash.as_slice());
    let record = ContractSetArg {
        is_contract: true,
        in_contract: clone_bytes(&hash),
        at_address: hash,
        data: body,
        version: None,
    };
    Deployment { record, contract_hash }
}

/// Prepares the deployment of `body`: the bytecode is stored under its own
/// content hash, which is the contract's address from then on. An empty body
/// is refused.
pub fn deploy_contract(body: Vec<u8>) -> (out: Result<Deployment, DeployError>)
    ensures
        body.len() == 0 <==> out is Err,
        out matches Ok(d) ==> d.record@ == bytecode_record(body@, blake3_digest(body@))
            && d.contract_hash@ == hex_text(blake3_digest(body@)),
{
    if body.len() == 0 {
        return Err(DeployError::EmptyBody);
    }
    let hash = content_hash(body.as_slice());
    Ok(deployment_of(body, hash))
}

} // verus!
