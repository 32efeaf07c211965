//! Facts about the grouping model that the grouper's proofs rest on.

use vstd::prelude::*;
use crate::calls::{CallKey, InputView, InvokeView};
use crate::grouper_model::{
    arguments_of, contracts_called, find_group, find_name, first_call, functions_called, grouped,
    input_for, keys_of, occurrence, positions, with_argument, with_call,
};

verus! {

/// `find_name` returns the first entry of that name, and `None` only where
/// no entry has it.
pub proof fn lemma_find_name<T>(entries: Seq<(Seq<char>, T)>, name: Seq<char>)
    ensures
        match find_name(entries, name) {
            Some(h) => 0 <= h < entries.len() && entries[h].0 == name && forall|k: int|
                0 <= k < h ==> (#[trigger] entries[k]).0 != name,
            None => forall|k: int| 0 <= k < entries.len() ==> (#[trigger] entries[k]).0 != name,
        },
    decreases entries.len(),
{
    if entries.len() > 0 {
        lemma_find_name(entries.drop_last(), name);
        assert forall|k: int| 0 <= k < entries.len() - 1 implies entries.drop_last()[k]
            == entries[k] by {}
    }
}

/// `find_group` returns the first aggregate of that contract, and `None`
/// only where no aggregate is for it.
pub proof fn lemma_find_group(groups: Seq<InputView>, contract: Seq<u8>)
    ensures
        match find_group(groups, contract) {
            Some(g) => 0 <= g < groups.len() && groups[g].contract == contract && forall|k: int|
                0 <= k < g ==> (#[trigger] groups[k]).contract != contract,
            None => forall|k: int|
                0 <= k < groups.len() ==> (#[trigger] groups[k]).contract != contract,
        },
    decreases groups.len(),
{
    if groups.len() > 0 {
        lemma_find_group(groups.drop_last(), contract);
        match find_group(groups.drop_last(), contract) {
            Some(g) => {
                assert forall|k: int| 0 <= k < g implies (#[trigger] groups[k]).contract
                    != contract by {
                    assert(groups.drop_last()[k] == groups[k]);
                }
            },
            None => {
                assert forall|k: int| 0 <= k < groups.len() - 1 implies (
                #[trigger] groups[k]).contract != contract by {
                    assert(groups.drop_last()[k] == groups[k]);
                }
            },
        }
    }
}

/// A contract is in the contract order exactly when some call addresses it,
/// and it is there once.
pub proof fn lemma_contracts_called(keys: Seq<CallKey>)
    ensures
        forall|contract: Seq<u8>| #[trigger]
            contracts_called(keys).contains(contract) <==> exists|j: int|
                0 <= j < keys.len() && (#[trigger] keys[j]).contract == contract,
        forall|a: int, b: int|
            0 <= a < b < contracts_called(keys).len() ==> contracts_called(keys)[a]
                != contracts_called(keys)[b],
    decreases keys.len(),
{
    let order = contracts_called(keys);
    if keys.len() > 0 {
        let front = keys.drop_last();
        let earlier = contracts_called(front);
        lemma_contracts_called(front);
        assert forall|contract: Seq<u8>| #[trigger]
            order.contains(contract) <==> exists|j: int|
                0 <= j < keys.len() && (#[trigger] keys[j]).contract == contract by {
            if order.contains(contract) {
                let g = choose|g: int| 0 <= g < order.len() && order[g] == contract;
                if g < earlier.len() {
                    assert(earlier.contains(contract));
                }
            }
            if exists|j: int| 0 <= j < keys.len() && (#[trigger] keys[j]).contract == contract {
                let j = choose|j: int|
                    0 <= j < keys.len() && (#[trigger] keys[j]).contract == contract;
                if j < front.len() {
                    assert(front[j] == keys[j]);
                    assert(earlier.contains(contract));
                    let g = choose|g: int| 0 <= g < earlier.len() && earlier[g] == contract;
                    assert(order[g] == contract);
                } else if !earlier.contains(contract) {
                    assert(order[order.len() - 1] == contract);
                }
            }
        }
    }
}

/// A function is in a contract's function order exactly when some call
/// addresses it, and it is there once.
pub proof fn lemma_functions_called(keys: Seq<CallKey>, contract: Seq<u8>)
    ensures
        forall|function: Seq<char>| #[trigger]
            functions_called(keys, contract).contains(function) <==> exists|j: int|
                0 <= j < keys.len() && #[trigger] keys[j] == (CallKey { contract, function }),
        forall|a: int, b: int|
            0 <= a < b < functions_called(keys, contract).len() ==> functions_called(
                keys,
                contract,
            )[a] != functions_called(keys, contract)[b],
    decreases keys.len(),
{
    let names = functions_called(keys, contract);
    if keys.len() > 0 {
        let front = keys.drop_last();
        let earlier = functions_called(front, contract);
        lemma_functions_called(front, contract);
        assert forall|function: Seq<char>| #[trigger]
            names.contains(function) <==> exists|j: int|
                0 <= j < keys.len() && #[trigger] keys[j] == (CallKey { contract, function }) by {
            let key = CallKey { contract, function };
            if names.contains(function) {
                let h = choose|h: int| 0 <= h < names.len() && names[h] == function;
                if h < earlier.len() {
                    assert(earlier.contains(function));
                }
            }
            if exists|j: int| 0 <= j < keys.len() && #[trigger] keys[j] == key {
                let j = choose|j: int| 0 <= j < keys.len() && #[trigger] keys[j] == key;
                if j < front.len() {
                    assert(front[j] == keys[j]);
                    assert(earlier.contains(function));
                    let h = choose|h: int| 0 <= h < earlier.len() && earlier[h] == function;
                    assert(names[h] == function);
                } else if !earlier.contains(function) {
                    assert(names[names.len() - 1] == function);
                }
            }
        }
    }
}

/// The positions of a key are valid, ascending, hold that key, and miss no
/// call that addresses it.
pub proof fn lemma_positions(keys: Seq<CallKey>, key: CallKey)
    ensures
        forall|k: int|
            0 <= k < positions(keys, key).len() ==> 0 <= #[trigger] positions(keys, key)[k]
                < keys.len() && keys[positions(keys, key)[k]] == key,
        forall|a: int, b: int|
            0 <= a < b < positions(keys, key).len() ==> positions(keys, key)[a] < positions(
                keys,
                key,
            )[b],
        forall|j: int|
            0 <= j < keys.len() && #[trigger] keys[j] == key ==> positions(keys, key).contains(j),
    decreases keys.len(),
{
    let at = positions(keys, key);
    if keys.len() > 0 {
        let front = keys.drop_last();
        let earlier = positions(front, key);
        lemma_positions(front, key);
        assert forall|j: int| 0 <= j < keys.len() && #[trigger] keys[j] == key implies at.contains(
            j,
        ) by {
            if j < front.len() {
                assert(front[j] == keys[j]);
                let k = choose|k: int| 0 <= k < earlier.len() && earlier[k] == j;
                assert(at[k] == j);
            } else {
                assert(at[at.len() - 1] == j);
            }
        }
    }
}

/// A key that no call addresses has no positions.
pub proof fn lemma_positions_empty(keys: Seq<CallKey>, key: CallKey)
    requires
        forall|j: int| 0 <= j < keys.len() ==> #[trigger] keys[j] != key,
    ensures
        positions(keys, key) == Seq::<int>::empty(),
{
    lemma_positions(keys, key);
    if positions(keys, key).len() > 0 {
        assert(keys[positions(keys, key)[0]] == key);
    }
}

/// The keys of a list of calls with one more call.
pub proof fn lemma_keys_push(calls: Seq<InvokeView>, call: InvokeView)
    ensures
        keys_of(calls.push(call)) == keys_of(calls).push(call.key),
        keys_of(calls.push(call)).drop_last() == keys_of(calls),
        keys_of(calls.push(call)).last() == call.key,
{
}

/// The arguments for a key after one more call.
pub proof fn lemma_arguments_push(calls: Seq<InvokeView>, call: InvokeView, key: CallKey)
    ensures
        arguments_of(calls.push(call), key) == if call.key == key {
            arguments_of(calls, key).push(call.argument)
        } else {
            arguments_of(calls, key)
        },
{
    lemma_keys_push(calls, call);
    lemma_positions(keys_of(calls), key);
}

/// A call leaves the aggregates of other contracts as they are.
pub proof fn lemma_input_for_other(calls: Seq<InvokeView>, call: InvokeView, contract: Seq<u8>)
    requires
        contract != call.key.contract,
    ensures
        input_for(calls.push(call), contract) == input_for(calls, contract),
{
    lemma_keys_push(calls, call);
    let more = calls.push(call);
    let names = functions_called(keys_of(calls), contract);
    assert forall|h: int| 0 <= h < names.len() implies arguments_of(
        more,
        CallKey { contract, function: names[h] },
    ) == arguments_of(calls, CallKey { contract, function: names[h] }) by {
        lemma_arguments_push(calls, call, CallKey { contract, function: names[h] });
    }
    assert(input_for(more, contract).functions =~= input_for(calls, contract).functions);
}

/// A call adds its argument to the aggregate of its contract.
pub proof fn lemma_input_for_same(calls: Seq<InvokeView>, call: InvokeView)
    ensures
        input_for(calls.push(call), call.key.contract) == (InputView {
            contract: call.key.contract,
            functions: with_argument(
                input_for(calls, call.key.contract).functions,
                call.key.function,
                call.argument,
            ),
        }),
{
    lemma_keys_push(calls, call);
    let contract = call.key.contract;
    let keys = keys_of(calls);
    let more = calls.push(call);
    let names = functions_called(keys, contract);
    let names_more = functions_called(keys_of(more), contract);
    let before = input_for(calls, contract).functions;
    let after = input_for(more, contract).functions;
    lemma_functions_called(keys, contract);
    lemma_find_name(before, call.key.function);
    match find_name(before, call.key.function) {
        Some(h) => {
            let expected = before.update(h, (call.key.function, before[h].1.push(call.argument)));
            assert forall|k: int| 0 <= k < names.len() implies after[k] == expected[k] by {
                lemma_arguments_push(calls, call, CallKey { contract, function: names[k] });
            }
            assert(after =~= expected);
        },
        None => {
            if names.contains(call.key.function) {
                let h = choose|h: int| 0 <= h < names.len() && names[h] == call.key.function;
                assert(before[h].0 == call.key.function);
            }
            lemma_positions_empty(keys, call.key);
            lemma_arguments_push(calls, call, call.key);
            let expected = before.push((call.key.function, seq![call.argument]));
            assert forall|k: int| 0 <= k < names_more.len() implies after[k] == expected[k] by {
                if k < names.len() {
                    lemma_arguments_push(calls, call, CallKey { contract, function: names[k] });
                }
            }
            assert(after =~= expected);
        },
    }
}

/// Grouping one call more is adding that call to the aggregates.
pub proof fn lemma_grouped_push(calls: Seq<InvokeView>, call: InvokeView)
    ensures
        grouped(calls.push(call)) == with_call(grouped(calls), call),
{
    lemma_keys_push(calls, call);
    let contract = call.key.contract;
    let keys = keys_of(calls);
    let more = calls.push(call);
    let order = contracts_called(keys);
    let order_more = contracts_called(keys_of(more));
    let before = grouped(calls);
    let after = grouped(more);
    lemma_contracts_called(keys);
    lemma_find_group(before, contract);
    lemma_input_for_same(calls, call);
    match find_group(before, contract) {
        Some(g) => {
            let expected = with_call(before, call);
            assert forall|k: int| 0 <= k < order.len() implies after[k] == expected[k] by {
                if k != g {
                    lemma_input_for_other(calls, call, order[k]);
                }
            }
        },
        None => {
            if order.contains(contract) {
                let g = choose|g: int| 0 <= g < order.len() && order[g] == contract;
                assert(before[g].contract == contract);
            }
            lemma_functions_called(keys, contract);
            let names = functions_called(keys, contract);
            if names.len() > 0 {
                assert(names.contains(names[0]));
            }
            assert(with_argument(
                input_for(calls, contract).functions,
                call.key.function,
                call.argument,
            ) =~= seq![(call.key.function, seq![call.argument])]);
            let expected = with_call(before, call);
            assert forall|k: int| 0 <= k < order_more.len() implies after[k] == expected[k] by {
                if k < order.len() {
                    lemma_input_for_other(calls, call, order[k]);
                }
            }
        },
    }
}

/// The contract order of a prefix of the calls is a prefix of the contract
/// order of all of them.
pub proof fn lemma_contracts_prefix(keys: Seq<CallKey>, n: int)
    requires
        0 <= n <= keys.len(),
    ensures
        contracts_called(keys.take(n)).len() <= contracts_called(keys).len(),
        forall|g: int|
            0 <= g < contracts_called(keys.take(n)).len() ==> #[trigger] contracts_called(
                keys.take(n),
            )[g] == contracts_called(keys)[g],
    decreases keys.len() - n,
{
    if n < keys.len() {
        lemma_contracts_prefix(keys, n + 1);
        assert(keys.take(n + 1).drop_last() =~= keys.take(n));
        let shorter = contracts_called(keys.take(n));
        let longer = contracts_called(keys.take(n + 1));
        assert forall|g: int| 0 <= g < shorter.len() implies #[trigger] shorter[g]
            == contracts_called(keys)[g] by {
            assert(shorter[g] == longer[g]);
        }
    } else {
        assert(keys.take(n) =~= keys);
    }
}

/// The positions of a key in a prefix of the calls are a prefix of its
/// positions in all of them.
pub proof fn lemma_positions_prefix(keys: Seq<CallKey>, key: CallKey, n: int)
    requires
        0 <= n <= keys.len(),
    ensures
        positions(keys.take(n), key).len() <= positions(keys, key).len(),
        forall|k: int|
            0 <= k < positions(keys.take(n), key).len() ==> #[trigger] positions(
                keys.take(n),
                key,
            )[k] == positions(keys, key)[k],
    decreases keys.len() - n,
{
    if n < keys.len() {
        lemma_positions_prefix(keys, key, n + 1);
        assert(keys.take(n + 1).drop_last() =~= keys.take(n));
        let shorter = positions(keys.take(n), key);
        let longer = positions(keys.take(n + 1), key);
        assert forall|k: int| 0 <= k < shorter.len() implies #[trigger] shorter[k] == positions(
            keys,
            key,
        )[k] by {
            assert(shorter[k] == longer[k]);
        }
    } else {
        assert(keys.take(n) =~= keys);
    }
}

/// Call `j` stands in the positions of its key at its occurrence.
pub proof fn lemma_occurrence(keys: Seq<CallKey>, j: int)
    requires
        0 <= j < keys.len(),
    ensures
        occurrence(keys, j) < positions(keys, keys[j]).len(),
        positions(keys, keys[j])[occurrence(keys, j) as int] == j,
{
    let key = keys[j];
    lemma_positions_prefix(keys, key, j + 1);
    assert(keys.take(j + 1).drop_last() =~= keys.take(j));
    assert(positions(keys.take(j + 1), key)[occurrence(keys, j) as int] == j);
}

/// The place of a contract in the contract order, where it is there.
pub proof fn lemma_index_of_contract(keys: Seq<CallKey>, g: int)
    requires
        0 <= g < contracts_called(keys).len(),
    ensures
        contracts_called(keys).index_of(contracts_called(keys)[g]) == g,
{
    lemma_contracts_called(keys);
}

/// An ascending list of positions below `bound` is no longer than `bound`.
pub proof fn lemma_ascending_bound(at: Seq<int>, bound: int)
    requires
        forall|k: int| 0 <= k < at.len() ==> 0 <= #[trigger] at[k] < bound,
        forall|a: int, b: int| 0 <= a < b < at.len() ==> at[a] < at[b],
    ensures
        at.len() <= bound || at.len() == 0,
    decreases at.len(),
{
    if at.len() > 0 {
        let front = at.drop_last();
        lemma_ascending_bound(front, at.last());
    }
}

/// `first_call` is the least position of a call to the contract.
pub proof fn lemma_first_call(keys: Seq<CallKey>, contract: Seq<u8>)
    ensures
        0 <= first_call(keys, contract) <= keys.len(),
        first_call(keys, contract) < keys.len() ==> keys[first_call(keys, contract)].contract
            == contract,
        forall|j: int|
            0 <= j < first_call(keys, contract) ==> (#[trigger] keys[j]).contract != contract,
    decreases keys.len(),
{
    if keys.len() > 0 {
        let front = keys.drop_last();
        lemma_first_call(front, contract);
        assert forall|j: int| 0 <= j < first_call(keys, contract) implies (
        #[trigger] keys[j]).contract != contract by {
            if j < front.len() {
                assert(front[j] == keys[j]);
            }
        }
    }
}

/// The contract order is ascending in the position of the first call.
pub proof fn lemma_order_by_first_call(keys: Seq<CallKey>)
    ensures
        forall|g: int|
            0 <= g < contracts_called(keys).len() ==> first_call(
                keys,
                #[trigger] contracts_called(keys)[g],
            ) < keys.len(),
        forall|a: int, b: int|
            0 <= a < b < contracts_called(keys).len() ==> first_call(
                keys,
                contracts_called(keys)[a],
            ) < first_call(keys, contracts_called(keys)[b]),
    decreases keys.len(),
{
    let order = contracts_called(keys);
    if keys.len() > 0 {
        let front = keys.drop_last();
        let earlier = contracts_called(front);
        lemma_order_by_first_call(front);
        lemma_contracts_called(front);
        assert forall|g: int| 0 <= g < order.len() implies first_call(keys, #[trigger] order[g])
            < keys.len() && (g < earlier.len() ==> first_call(keys, order[g]) == first_call(
            front,
            earlier[g],
        )) && (g >= earlier.len() ==> first_call(keys, order[g]) == keys.len() - 1) by {
            lemma_first_call(front, order[g]);
        }
    }
}

} // verus!
