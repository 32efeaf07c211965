//! JSON values as the engine carries them: opaque payloads that are moved
//! and copied, never inspected.

use vstd::prelude::*;

verus! {

/// `serde_json::Value`, carried through the engine without looking inside.
#[verifier::external_type_specification]
#[verifier::external_body]
pub struct ExJsonValue(serde_json::Value);

/// `Clone::clone` of `serde_json::Value`, which the crate derives: the copy
/// is the same JSON value as the one copied.
pub assume_specification[ <serde_json::Value as Clone>::clone ](value: &serde_json::Value) -> (copy:
    serde_json::Value)
    ensures
        copy == *value,
;

} // verus!
