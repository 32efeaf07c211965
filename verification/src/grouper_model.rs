//! What grouping and its inverse compute, over the calls' contents: the
//! order in which contracts and functions first appear, the arguments of
//! every function in call order, and the result that belongs to every call.

use vstd::prelude::*;
use crate::calls::{InputView, InvokeView, OutputView, CallKey};

verus! {

/// The keys of a list of calls, in call order.
pub open spec fn keys_of(calls: Seq<InvokeView>) -> Seq<CallKey> {
    Seq::new(calls.len(), |j: int| calls[j].key)
}

/// The contracts that a list of calls addresses, each once, in the order in
/// which they first appear.
pub open spec fn contracts_called(keys: Seq<CallKey>) -> Seq<Seq<u8>>
    decreases keys.len(),
{
    if keys.len() == 0 {
        Seq::empty()
    } else {
        let earlier = contracts_called(keys.drop_last());
        if earlier.contains(keys.last().contract) {
            earlier
        } else {
            earlier.push(keys.last().contract)
        }
    }
}

/// The functions of `contract` that a list of calls addresses, each once, in
/// the order in which they first appear.
pub open spec fn functions_called(keys: Seq<CallKey>, contract: Seq<u8>) -> Seq<Seq<char>>
    decreases keys.len(),
{
    if keys.len() == 0 {
        Seq::empty()
    } else {
        let earlier = functions_called(keys.drop_last(), contract);
        if keys.last().contract == contract && !earlier.contains(keys.last().function) {
            earlier.push(keys.last().function)
        } else {
            earlier
        }
    }
}

/// The positions of the calls that address `key`, ascending.
pub open spec fn positions(keys: Seq<CallKey>, key: CallKey) -> Seq<int>
    decreases keys.len(),
{
    if keys.len() == 0 {
        Seq::empty()
    } else {
        let earlier = positions(keys.drop_last(), key);
        if keys.last() == key {
            earlier.push(keys.len() - 1)
        } else {
            earlier
        }
    }
}

/// The arguments of the calls that address `key`, in call order.
pub open spec fn arguments_of(calls: Seq<InvokeView>, key: CallKey) -> Seq<serde_json::Value> {
    let at = positions(keys_of(calls), key);
    Seq::new(at.len(), |k: int| calls[at[k]].argument)
}

/// The aggregate of the calls to `contract`: its functions in order of first
/// appearance, each with the arguments of its calls in call order.
pub open spec fn input_for(calls: Seq<InvokeView>, contract: Seq<u8>) -> InputView {
    let names = functions_called(keys_of(calls), contract);
    InputView {
        contract,
        functions: Seq::new(
            names.len(),
            |h: int| (names[h], arguments_of(calls, CallKey { contract, function: names[h] })),
        ),
    }
}

/// The grouping of a list of calls: one aggregate per contract, in the order
/// in which the contracts first appear.
pub open spec fn grouped(calls: Seq<InvokeView>) -> Seq<InputView> {
    let order = contracts_called(keys_of(calls));
    Seq::new(order.len(), |g: int| input_for(calls, order[g]))
}

/// Whether a list of aggregates is well formed: no contract has two
/// aggregates, no aggregate names a function twice, and every function named
/// has a call.
pub open spec fn well_grouped(groups: Seq<InputView>) -> bool {
    &&& forall|a: int, b: int|
        0 <= a < b < groups.len() ==> (#[trigger] groups[a]).contract != (
        #[trigger] groups[b]).contract
    &&& forall|g: int, a: int, b: int|
        0 <= g < groups.len() && 0 <= a < b < groups[g].functions.len() ==> (
        #[trigger] groups[g].functions[a]).0 != (#[trigger] groups[g].functions[b]).0
    &&& forall|g: int, h: int|
        0 <= g < groups.len() && 0 <= h < groups[g].functions.len() ==> (
        #[trigger] groups[g].functions[h]).1.len() > 0
}

/// The position of the first entry named `name`, if there is one.
pub open spec fn find_name<T>(entries: Seq<(Seq<char>, T)>, name: Seq<char>) -> Option<int>
    decreases entries.len(),
{
    if entries.len() == 0 {
        None
    } else {
        match find_name(entries.drop_last(), name) {
            Some(h) => Some(h),
            None => if entries.last().0 == name {
                Some(entries.len() - 1)
            } else {
                None
            },
        }
    }
}

/// The position of the first aggregate for `contract`, if there is one.
pub open spec fn find_group(groups: Seq<InputView>, contract: Seq<u8>) -> Option<int>
    decreases groups.len(),
{
    if groups.len() == 0 {
        None
    } else {
        match find_group(groups.drop_last(), contract) {
            Some(g) => Some(g),
            None => if groups.last().contract == contract {
                Some(groups.len() - 1)
            } else {
                None
            },
        }
    }
}

/// The function list of an aggregate after one more call of `name`.
pub open spec fn with_argument(
    functions: Seq<(Seq<char>, Seq<serde_json::Value>)>,
    name: Seq<char>,
    argument: serde_json::Value,
) -> Seq<(Seq<char>, Seq<serde_json::Value>)> {
    match find_name(functions, name) {
        Some(h) => functions.update(h, (name, functions[h].1.push(argument))),
        None => functions.push((name, seq![argument])),
    }
}

/// The aggregates after one more call.
pub open spec fn with_call(groups: Seq<InputView>, call: InvokeView) -> Seq<InputView> {
    match find_group(groups, call.key.contract) {
        Some(g) => groups.update(
            g,
            InputView {
                contract: groups[g].contract,
                functions: with_argument(groups[g].functions, call.key.function, call.argument),
            },
        ),
        None => groups.push(
            InputView {
                contract: call.key.contract,
                functions: seq![(call.key.function, seq![call.argument])],
            },
        ),
    }
}

/// How many earlier calls address the same contract and function as call `j`.
pub open spec fn occurrence(keys: Seq<CallKey>, j: int) -> nat {
    positions(keys.take(j), keys[j]).len()
}

/// The `k`-th result of `function` in an output; absent where the output is
/// absent, does not name the function, or holds fewer results.
pub open spec fn result_at(output: Option<OutputView>, function: Seq<char>, k: int) -> Option<
    serde_json::Value,
> {
    match output {
        None => None,
        Some(o) => match find_name(o.functions, function) {
            None => None,
            Some(h) => if 0 <= k < o.functions[h].1.len() {
                o.functions[h].1[k]
            } else {
                None
            },
        },
    }
}

/// The result of call `j`: the output of its contract, by the contract's
/// place in the order of first appearance, holds it under the call's
/// function, at the call's occurrence.
pub open spec fn result_of(outputs: Seq<Option<OutputView>>, keys: Seq<CallKey>, j: int) -> Option<
    serde_json::Value,
> {
    let g = contracts_called(keys).index_of(keys[j].contract);
    if 0 <= g < outputs.len() {
        result_at(outputs[g], keys[j].function, occurrence(keys, j) as int)
    } else {
        None
    }
}

/// The inverse of grouping: per-contract outputs, in the order of the
/// aggregates, become one optional result per call, in call order.
pub open spec fn ungrouped(outputs: Seq<Option<OutputView>>, keys: Seq<CallKey>) -> Seq<
    Option<serde_json::Value>,
> {
    Seq::new(keys.len(), |j: int| result_of(outputs, keys, j))
}

/// The outputs of contracts that answer every call with its own argument.
pub open spec fn echo(inputs: Seq<InputView>) -> Seq<Option<OutputView>> {
    Seq::new(
        inputs.len(),
        |g: int|
            Some(
                OutputView {
                    functions: Seq::new(
                        inputs[g].functions.len(),
                        |h: int|
                            (
                                inputs[g].functions[h].0,
                                Seq::new(
                                    inputs[g].functions[h].1.len(),
                                    |k: int| Some(inputs[g].functions[h].1[k]),
                                ),
                            ),
                    ),
                },
            ),
    )
}

/// The position of the first call that addresses `contract`; the number of
/// calls where none does.
pub open spec fn first_call(keys: Seq<CallKey>, contract: Seq<u8>) -> int
    decreases keys.len(),
{
    if keys.len() == 0 {
        0
    } else if first_call(keys.drop_last(), contract) < keys.len() - 1 {
        first_call(keys.drop_last(), contract)
    } else if keys.last().contract == contract {
        keys.len() - 1
    } else {
        keys.len() as int
    }
}

} // verus!
