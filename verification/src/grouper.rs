//! The invocation grouper: reshapes a flat, ordered list of calls into one
//! aggregate per contract, and per-contract results back into a flat list
//! aligned with the calls.

use vstd::prelude::*;
use crate::bytes::{bytes_eq, clone_bytes};
use crate::calls::{
    addresses_view, calls_view, inputs_view, invokes_view, outputs_view, results_view,
    CallAddress, CallKey, FunctionCalls, FunctionResults, Input, Invoke, InvokeView, Output,
};
use crate::grouper_lemmas::{
    lemma_ascending_bound, lemma_contracts_called, lemma_contracts_prefix, lemma_find_group,
    lemma_find_name, lemma_functions_called, lemma_grouped_push, lemma_index_of_contract,
    lemma_occurrence, lemma_order_by_first_call, lemma_positions, lemma_positions_empty,
};
use crate::grouper_model::{
    contracts_called, echo, find_group, find_name, first_call, functions_called, grouped, keys_of,
    occurrence, positions, result_at, result_of, ungrouped, well_grouped, with_argument, with_call,
};

verus! {

/// Finds the aggregate for `contract`.
pub fn find_input(inputs: &Vec<Input>, contract: &Vec<u8>) -> (found: Option<usize>)
    ensures
        match found {
            Some(g) => g < inputs.len() && find_group(inputs_view(inputs@), contract@) == Some(
                g as int,
            ),
            None => find_group(inputs_view(inputs@), contract@) is None,
        },
{
    let ghost groups = inputs_view(inputs@);
    let mut g: usize = 0;
    while g < inputs.len()
        invariant
            g <= inputs.len(),
            groups == inputs_view(inputs@),
            forall|k: int| 0 <= k < g ==> (#[trigger] groups[k]).contract != contract@,
        decreases inputs.len() - g,
    {
        if bytes_eq(&inputs[g].contract, contract) {
            proof {
                lemma_find_group(groups, contract@);
                assert(groups[g as int].contract == contract@);
            }
            return Some(g);
        }
        g += 1;
    }
    proof {
        lemma_find_group(groups, contract@);
    }
    None
}

/// Finds the calls to the function `name`.
pub fn find_calls(functions: &Vec<FunctionCalls>, name: &String) -> (found: Option<usize>)
    ensures
        match found {
            Some(h) => h < functions.len() && find_name(calls_view(functions@), name@) == Some(
                h as int,
            ),
            None => find_name(calls_view(functions@), name@) is None,
        },
{
    let ghost entries = calls_view(functions@);
    let mut h: usize = 0;
    while h < functions.len()
        invariant
            h <= functions.len(),
            entries == calls_view(functions@),
            forall|k: int| 0 <= k < h ==> (#[trigger] entries[k]).0 != name@,
        decreases functions.len() - h,
    {
        if functions[h].name == *name {
            proof {
                lemma_find_name(entries, name@);
                assert(entries[h as int].0 == name@);
            }
            return Some(h);
        }
        h += 1;
    }
    proof {
        lemma_find_name(entries, name@);
    }
    None
}

/// Finds the results of the function `name`.
pub fn find_results(functions: &Vec<FunctionResults>, name: &String) -> (found: Option<usize>)
    ensures
        match found {
            Some(h) => h < functions.len() && find_name(results_view(functions@), name@) == Some(
                h as int,
            ),
            None => find_name(results_view(functions@), name@) is None,
        },
{
    let ghost entries = results_view(functions@);
    let mut h: usize = 0;
    while h < functions.len()
        invariant
            h <= functions.len(),
            entries == results_view(functions@),
            forall|k: int| 0 <= k < h ==> (#[trigger] entries[k]).0 != name@,
        decreases functions.len() - h,
    {
        if functions[h].name == *name {
            proof {
                lemma_find_name(entries, name@);
                assert(entries[h as int].0 == name@);
            }
            return Some(h);
        }
        h += 1;
    }
    proof {
        lemma_find_name(entries, name@);
    }
    None
}

/// Records one more call of `name` in a function list.
pub fn add_argument(functions: &mut Vec<FunctionCalls>, name: &String, argument: serde_json::Value)
    ensures
        calls_view(final(functions)@) == with_argument(
            calls_view(old(functions)@),
            name@,
            argument,
        ),
{
    let ghost before = calls_view(functions@);
    match find_calls(functions, name) {
        Some(h) => {
            functions[h].arguments.push(argument);
            assert(calls_view(functions@) =~= before.update(
                h as int,
                (name@, before[h as int].1.push(argument)),
            )) by {
                lemma_find_name(before, name@);
            }
        },
        None => {
            let mut arguments: Vec<serde_json::Value> = Vec::new();
            arguments.push(argument);
            functions.push(FunctionCalls { name: name.clone(), arguments });
        },
    }
}

/// Records one more call in a list of aggregates.
pub fn add_call(inputs: &mut Vec<Input>, invoke: &Invoke)
    ensures
        inputs_view(final(inputs)@) == with_call(inputs_view(old(inputs)@), invoke@),
{
    let argument = invoke.argument().clone();
    match find_input(inputs, invoke.contract()) {
        Some(g) => {
            add_argument(&mut inputs[g].functions, invoke.function(), argument);
        },
        None => {
            let mut arguments: Vec<serde_json::Value> = Vec::new();
            arguments.push(argument);
            let mut functions: Vec<FunctionCalls> = Vec::new();
            functions.push(FunctionCalls { name: invoke.function().clone(), arguments });
            let input = Input { contract: clone_bytes(invoke.contract()), functions };
            assert(input@.functions =~= seq![(invoke@.key.function, seq![invoke@.argument])]);
            inputs.push(input);
        },
    }
}

/// Grouping of an ordered list of calls by contract.
pub trait InputExt {
    /// The calls, in order.
    spec fn calls(&self) -> Seq<InvokeView>;

    /// One aggregate per contract, in the order in which the contracts first
    /// appear; in each, the functions in the order in which they first
    /// appear, each with the arguments of its calls in call order.
    fn contract(&self) -> (inputs: Vec<Input>)
        ensures
            inputs_view(inputs@) == grouped(self.calls()),
            well_grouped(inputs_view(inputs@)),
    ;
}

impl InputExt for Vec<Invoke> {
    open spec fn calls(&self) -> Seq<InvokeView> {
        invokes_view(self@)
    }

    fn contract(&self) -> (inputs: Vec<Input>) {
        let ghost calls = invokes_view(self@);
        let mut inputs: Vec<Input> = Vec::new();
        let mut i: usize = 0;
        while i < self.len()
            invariant
                i <= self.len(),
                calls == invokes_view(self@),
                inputs_view(inputs@) == grouped(calls.take(i as int)),
            decreases self.len() - i,
        {
            add_call(&mut inputs, &self[i]);
            proof {
                lemma_grouped_push(calls.take(i as int), calls[i as int]);
                assert(calls.take(i as int).push(calls[i as int]) =~= calls.take(i + 1));
            }
            i += 1;
        }
        assert(calls.take(i as int) =~= calls);
        proof {
            law_well_grouped(calls);
        }
        inputs
    }
}

/// The addresses of a list of calls, in call order.
pub fn addresses(invokes: &Vec<Invoke>) -> (list: Vec<CallAddress>)
    ensures
        addresses_view(list@) == keys_of(invokes_view(invokes@)),
{
    let mut list: Vec<CallAddress> = Vec::new();
    let mut j: usize = 0;
    while j < invokes.len()
        invariant
            j <= invokes.len(),
            list.len() == j,
            forall|k: int| 0 <= k < j ==> (#[trigger] list[k])@ == invokes[k]@.key,
        decreases invokes.len() - j,
    {
        list.push(
            CallAddress {
                contract: clone_bytes(invokes[j].contract()),
                function: invokes[j].function().clone(),
            },
        );
        j += 1;
    }
    list
}

/// How many calls of one function have been seen so far.
struct Cursor {
    name: String,
    next: usize,
}

/// The cursors of one contract keep, for each of its functions in order of
/// first appearance, the number of calls seen.
spec fn cursors_track(cursors: Seq<Cursor>, keys: Seq<CallKey>, contract: Seq<u8>) -> bool {
    let names = functions_called(keys, contract);
    &&& cursors.len() == names.len()
    &&& forall|h: int|
        0 <= h < cursors.len() ==> (#[trigger] cursors[h]).name@ == names[h] && cursors[h].next
            == positions(keys, CallKey { contract, function: names[h] }).len()
}

/// The bookkeeping of the inverse of grouping after the calls `keys`.
spec fn tracking(order: Seq<Vec<u8>>, cursors: Seq<Vec<Cursor>>, keys: Seq<CallKey>) -> bool {
    let called = contracts_called(keys);
    &&& order.len() == called.len()
    &&& cursors.len() == called.len()
    &&& forall|g: int| 0 <= g < order.len() ==> (#[trigger] order[g])@ == called[g]
    &&& forall|g: int|
        0 <= g < cursors.len() ==> cursors_track((#[trigger] cursors[g])@, keys, called[g])
}

/// Finds a contract among those seen.
fn find_contract(order: &Vec<Vec<u8>>, contract: &Vec<u8>) -> (found: Option<usize>)
    ensures
        match found {
            Some(g) => g < order.len() && order[g as int]@ == contract@,
            None => forall|k: int| 0 <= k < order.len() ==> (#[trigger] order[k])@ != contract@,
        },
{
    let mut g: usize = 0;
    while g < order.len()
        invariant
            g <= order.len(),
            forall|k: int| 0 <= k < g ==> (#[trigger] order[k])@ != contract@,
        decreases order.len() - g,
    {
        if bytes_eq(&order[g], contract) {
            return Some(g);
        }
        g += 1;
    }
    None
}

/// Finds the cursor of a function.
fn find_cursor(cursors: &Vec<Cursor>, name: &String) -> (found: Option<usize>)
    ensures
        match found {
            Some(h) => h < cursors.len() && cursors[h as int].name@ == name@,
            None => forall|k: int|
                0 <= k < cursors.len() ==> (#[trigger] cursors[k]).name@ != name@,
        },
{
    let mut h: usize = 0;
    while h < cursors.len()
        invariant
            h <= cursors.len(),
            forall|k: int| 0 <= k < h ==> (#[trigger] cursors[k]).name@ != name@,
        decreases cursors.len() - h,
    {
        if cursors[h].name == *name {
            return Some(h);
        }
        h += 1;
    }
    None
}

/// Takes note of one more call of `name` among the cursors of `contract`
/// and returns how many calls of it came before.
fn count_call(
    cursors: &mut Vec<Cursor>,
    name: &String,
    Ghost(keys): Ghost<Seq<CallKey>>,
    Ghost(contract): Ghost<Seq<u8>>,
) -> (k: usize)
    requires
        cursors_track(old(cursors)@, keys, contract),
        keys.len() < usize::MAX,
    ensures
        cursors_track(
            final(cursors)@,
            keys.push(CallKey { contract, function: name@ }),
            contract,
        ),
        k == positions(keys, CallKey { contract, function: name@ }).len(),
{
    let ghost key = CallKey { contract, function: name@ };
    let ghost more = keys.push(key);
    let ghost names = functions_called(keys, contract);
    proof {
        lemma_functions_called(keys, contract);
        lemma_positions(keys, key);
        lemma_ascending_bound(positions(keys, key), keys.len() as int);
        assert(more.drop_last() =~= keys);
    }
    let h: usize = match find_cursor(cursors, name) {
        Some(h) => h,
        None => {
            proof {
                if names.contains(name@) {
                    let i = choose|i: int| 0 <= i < names.len() && names[i] == name@;
                    assert(cursors[i].name@ == names[i]);
                }
                lemma_positions_empty(keys, key);
            }
            cursors.push(Cursor { name: name.clone(), next: 0 });
            cursors.len() - 1
        },
    };
    let k: usize = cursors[h].next;
    cursors[h].next = k + 1;
    proof {
        let names_more = functions_called(more, contract);
        assert forall|i: int| 0 <= i < cursors.len() implies (#[trigger] cursors[i]).name@
            == names_more[i] && cursors[i].next == positions(
            more,
            CallKey { contract, function: names_more[i] },
        ).len() by {
        }
    }
    k
}

/// Takes note of one more call: returns the place of its contract in the
/// order of first appearance and the number of earlier calls of the same
/// function of that contract.
fn advance(
    order: &mut Vec<Vec<u8>>,
    cursors: &mut Vec<Vec<Cursor>>,
    address: &CallAddress,
    Ghost(keys): Ghost<Seq<CallKey>>,
) -> (place: (usize, usize))
    requires
        tracking(old(order)@, old(cursors)@, keys),
        keys.len() < usize::MAX,
    ensures
        tracking(final(order)@, final(cursors)@, keys.push(address@)),
        place.0 < contracts_called(keys.push(address@)).len(),
        contracts_called(keys.push(address@))[place.0 as int] == address@.contract,
        place.1 == positions(keys, address@).len(),
{
    let ghost key = address@;
    let ghost more = keys.push(key);
    let ghost called = contracts_called(keys);
    let ghost called_more = contracts_called(more);
    proof {
        lemma_contracts_called(keys);
        assert(more.drop_last() =~= keys);
    }
    let g: usize = match find_contract(order, &address.contract) {
        Some(g) => g,
        None => {
            proof {
                if called.contains(key.contract) {
                    let i = choose|i: int| 0 <= i < called.len() && called[i] == key.contract;
                    assert(order[i]@ == called[i]);
                }
                lemma_functions_called(keys, key.contract);
                let names = functions_called(keys, key.contract);
                if names.len() > 0 {
                    assert(names.contains(names[0]));
                }
            }
            order.push(clone_bytes(&address.contract));
            cursors.push(Vec::new());
            order.len() - 1
        },
    };
    let k = count_call(&mut cursors[g], &address.function, Ghost(keys), Ghost(key.contract));
    proof {
        lemma_contracts_called(more);
        assert forall|i: int| 0 <= i < cursors.len() implies cursors_track(
            (#[trigger] cursors[i])@,
            more,
            called_more[i],
        ) by {
            if i != g {
                assert(functions_called(more, called_more[i]) == functions_called(
                    keys,
                    called_more[i],
                ));
            }
        }
    }
    (g, k)
}

/// The `k`-th result of `function` in an output, copied out.
pub fn result_in(output: &Option<Output>, function: &String, k: usize) -> (result: Option<
    serde_json::Value,
>)
    ensures
        result == result_at(
            match *output {
                Some(o) => Some(o@),
                None => None,
            },
            function@,
            k as int,
        ),
{
    match output {
        None => None,
        Some(o) => {
            match find_results(&o.functions, function) {
                None => None,
                Some(h) => {
                    if k < o.functions[h].results.len() {
                        match &o.functions[h].results[k] {
                            Some(value) => Some(value.clone()),
                            None => None,
                        }
                    } else {
                        None
                    }
                },
            }
        },
    }
}

/// The inverse of grouping. `outputs` holds one optional output per
/// contract, in the order in which the contracts first appear among
/// `calls`; the result holds one optional value per call, in call order.
/// A call whose contract has no output, or whose output lacks its result,
/// gets `None`.
pub fn ungroup(outputs: &Vec<Option<Output>>, calls: &Vec<CallAddress>) -> (results: Vec<
    Option<serde_json::Value>,
>)
    ensures
        results@ == ungrouped(outputs_view(outputs@), addresses_view(calls@)),
{
    let ghost keys = addresses_view(calls@);
    let ghost outs = outputs_view(outputs@);
    let mut order: Vec<Vec<u8>> = Vec::new();
    let mut cursors: Vec<Vec<Cursor>> = Vec::new();
    let mut results: Vec<Option<serde_json::Value>> = Vec::new();
    let mut j: usize = 0;
    while j < calls.len()
        invariant
            j <= calls.len(),
            keys == addresses_view(calls@),
            outs == outputs_view(outputs@),
            tracking(order@, cursors@, keys.take(j as int)),
            results.len() == j,
            forall|i: int| 0 <= i < j ==> #[trigger] results[i] == result_of(outs, keys, i),
        decreases calls.len() - j,
    {
        let place = advance(&mut order, &mut cursors, &calls[j], Ghost(keys.take(j as int)));
        proof {
            assert(keys.take(j as int).push(calls[j as int]@) =~= keys.take(j + 1));
            lemma_contracts_prefix(keys, j + 1);
            lemma_index_of_contract(keys, place.0 as int);
        }
        let result = if place.0 < outputs.len() {
            result_in(&outputs[place.0], &calls[j].function, place.1)
        } else {
            None
        };
        results.push(result);
        j += 1;
    }
    results
}

/// Grouping keeps the order in which the contracts first appear: there is
/// one aggregate per contract called, and an aggregate stands before another
/// exactly when its contract is first called earlier.
pub proof fn law_group_order(calls: Seq<InvokeView>)
    ensures
        grouped(calls).len() == contracts_called(keys_of(calls)).len(),
        forall|g: int|
            0 <= g < grouped(calls).len() ==> (#[trigger] grouped(calls)[g]).contract
                == contracts_called(keys_of(calls))[g],
        forall|g: int|
            0 <= g < grouped(calls).len() ==> first_call(
                keys_of(calls),
                (#[trigger] grouped(calls)[g]).contract,
            ) < calls.len(),
        forall|j: int|
            0 <= j < calls.len() ==> exists|g: int|
                0 <= g < grouped(calls).len() && (#[trigger] grouped(calls)[g]).contract == (
                #[trigger] calls[j]).key.contract,
        forall|a: int, b: int|
            0 <= a < b < grouped(calls).len() ==> first_call(
                keys_of(calls),
                (#[trigger] grouped(calls)[a]).contract,
            ) < first_call(keys_of(calls), (#[trigger] grouped(calls)[b]).contract),
{
    let keys = keys_of(calls);
    lemma_order_by_first_call(keys);
    lemma_contracts_called(keys);
    let order = contracts_called(keys);
    assert forall|j: int| 0 <= j < calls.len() implies exists|g: int|
        0 <= g < grouped(calls).len() && (#[trigger] grouped(calls)[g]).contract == (
        #[trigger] calls[j]).key.contract by {
        assert(keys[j].contract == calls[j].key.contract);
        assert(order.contains(calls[j].key.contract));
        let g = choose|g: int| 0 <= g < order.len() && order[g] == calls[j].key.contract;
        assert(grouped(calls)[g].contract == calls[j].key.contract);
    }
}

/// Grouping is well formed: no contract gets two aggregates, no aggregate
/// names a function twice, and every function named has a call.
pub proof fn law_well_grouped(calls: Seq<InvokeView>)
    ensures
        well_grouped(grouped(calls)),
{
    let keys = keys_of(calls);
    let order = contracts_called(keys);
    let groups = grouped(calls);
    lemma_contracts_called(keys);
    assert forall|g: int, a: int, b: int|
        0 <= g < groups.len() && 0 <= a < b < groups[g].functions.len() implies (
    #[trigger] groups[g].functions[a]).0 != (#[trigger] groups[g].functions[b]).0 by {
        lemma_functions_called(keys, order[g]);
    }
    assert forall|g: int, h: int|
        0 <= g < groups.len() && 0 <= h < groups[g].functions.len() implies (
    #[trigger] groups[g].functions[h]).1.len() > 0 by {
        let names = functions_called(keys, order[g]);
        let key = CallKey { contract: order[g], function: names[h] };
        lemma_functions_called(keys, order[g]);
        assert(names.contains(names[h]));
        let j = choose|j: int| 0 <= j < keys.len() && #[trigger] keys[j] == key;
        lemma_positions(keys, key);
        assert(positions(keys, key).contains(j));
    }
}

/// Round trip: where every contract answers each call with the call's own
/// argument, ungrouping the grouped calls gives back every argument, in call
/// order.
pub proof fn law_round_trip(calls: Seq<InvokeView>)
    ensures
        ungrouped(echo(grouped(calls)), keys_of(calls)) == Seq::new(
            calls.len(),
            |j: int| Some(calls[j].argument),
        ),
{
    let keys = keys_of(calls);
    let order = contracts_called(keys);
    let groups = grouped(calls);
    let outputs = echo(groups);
    lemma_contracts_called(keys);
    assert forall|j: int| 0 <= j < calls.len() implies result_of(outputs, keys, j) == Some(
        calls[j].argument,
    ) by {
        let key = keys[j];
        assert(order.contains(key.contract));
        let g0 = choose|g: int| 0 <= g < order.len() && order[g] == key.contract;
        lemma_index_of_contract(keys, g0);
        let g = order.index_of(key.contract);
        let names = functions_called(keys, key.contract);
        lemma_functions_called(keys, key.contract);
        assert(names.contains(key.function));
        let h0 = choose|h: int| 0 <= h < names.len() && names[h] == key.function;
        let functions = outputs[g]->0.functions;
        lemma_find_name(functions, key.function);
        let h = find_name(functions, key.function)->0;
        assert(find_name(functions, key.function) is Some) by {
            assert(functions[h0].0 == key.function);
        }
        lemma_occurrence(keys, j);
        let k = occurrence(keys, j) as int;
    }
}

} // verus!
