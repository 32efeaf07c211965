//! The invocation batcher: the processing step of the batch queue for calls.
//! The calls of all queued requests are flattened and grouped by contract;
//! each aggregate is executed on its own; the outputs are ungrouped and cut
//! back into one response per request.

use vstd::prelude::*;
use crate::calls::{
    addresses_view, inputs_view, invokes_view, outputs_view, CallAddress, CallKey, Input, Invoke,
    InvokeView, Output, OutputView,
};
use crate::executor::ExecutionError;
use crate::grouper::{addresses, ungroup, InputExt};
use crate::grouper_model::{grouped, keys_of, result_of, ungrouped, well_grouped};
use crate::segments::{
    counts_of, counts_view, flattened, law_delivery, law_segments, lemma_lengths, offset,
    reassemble, segments, total,
};

verus! {

/// One request: an ordered list of calls.
#[derive(Debug, PartialEq, Eq)]
pub struct InvokeRequest {
    pub call: Vec<Invoke>,
}

/// The response to one request: one optional JSON value per call, in the
/// order of the calls. `None` stands for a call without result.
#[derive(Debug, PartialEq, Eq)]
pub struct InvokeResponse {
    pub emit: Vec<Option<serde_json::Value>>,
}

/// What a list of requests holds: the calls of each.
pub open spec fn requests_view(requests: Seq<InvokeRequest>) -> Seq<Seq<InvokeView>> {
    Seq::new(requests.len(), |i: int| invokes_view(requests[i].call@))
}

/// What a list of responses holds: the results of each.
pub open spec fn responses_view(
    responses: Seq<InvokeResponse>,
) -> Seq<Seq<Option<serde_json::Value>>> {
    Seq::new(responses.len(), |i: int| responses[i].emit@)
}

/// What the batcher keeps of a batch while its aggregates are executed: how
/// many calls each request made, and which contract and function each call
/// addressed.
#[derive(Debug, PartialEq, Eq)]
pub struct BatchPlan {
    counts: Vec<usize>,
    calls: Vec<CallAddress>,
}

/// What a [`BatchPlan`] holds.
pub struct PlanView {
    pub counts: Seq<int>,
    pub keys: Seq<CallKey>,
}

impl View for BatchPlan {
    type V = PlanView;

    closed spec fn view(&self) -> PlanView {
        PlanView { counts: counts_view(self.counts@), keys: addresses_view(self.calls@) }
    }
}

impl BatchPlan {
    /// The counts cover the calls: there is one call address per call counted.
    #[verifier::type_invariant]
    spec fn covered(&self) -> bool {
        total(counts_view(self.counts@)) == self.calls.len()
    }
}

/// The plan of a batch of requests.
pub open spec fn plan_of(requests: Seq<Seq<InvokeView>>) -> PlanView {
    PlanView { counts: counts_of(requests), keys: keys_of(flattened(requests)) }
}

/// The output of each aggregate: absent where its execution failed.
pub open spec fn outputs_of(
    outcomes: Seq<Result<Output, ExecutionError>>,
) -> Seq<Option<OutputView>> {
    Seq::new(
        outcomes.len(),
        |g: int|
            match outcomes[g] {
                Ok(o) => Some(o@),
                Err(_) => None,
            },
    )
}

/// The first failure among the outcomes that is one of the whole batch.
pub open spec fn batch_failure(
    outcomes: Seq<Result<Output, ExecutionError>>,
) -> Option<ExecutionError>
    decreases outcomes.len(),
{
    if outcomes.len() == 0 {
        None
    } else {
        match batch_failure(outcomes.drop_last()) {
            Some(e) => Some(e),
            None => match outcomes.last() {
                Err(e) => if e.aborts_batch() {
                    Some(e)
                } else {
                    None
                },
                Ok(_) => None,
            },
        }
    }
}

/// The responses to the requests of a plan for the outputs that came back:
/// the results of all calls, in call order, cut by the requests' counts.
pub open spec fn responses_for(plan: PlanView, outputs: Seq<Option<OutputView>>) -> Seq<
    Seq<Option<serde_json::Value>>,
> {
    segments(ungrouped(outputs, plan.keys), plan.counts)
}

/// Flattens the calls of the queued requests and groups them by contract.
/// Returns what to keep until the outputs are there, and one aggregate per
/// contract, in the order in which the contracts first appear.
pub fn plan(requests: Vec<InvokeRequest>) -> (out: (BatchPlan, Vec<Input>))
    ensures
        out.0@ == plan_of(requests_view(requests@)),
        inputs_view(out.1@) == grouped(flattened(requests_view(requests@))),
        well_grouped(inputs_view(out.1@)),
{
    let ghost given = requests_view(requests@);
    let mut requests = requests;
    let mut counts: Vec<usize> = Vec::new();
    let mut flat: Vec<Invoke> = Vec::new();
    let mut i: usize = 0;
    while i < requests.len()
        invariant
            i <= requests.len(),
            requests.len() == given.len(),
            forall|k: int|
                i <= k < requests.len() ==> invokes_view((#[trigger] requests[k]).call@)
                    == given[k],
            counts.len() == i,
            forall|k: int| 0 <= k < i ==> #[trigger] counts[k] == given[k].len(),
            invokes_view(flat@) == flattened(given.take(i as int)),
        decreases requests.len() - i,
    {
        counts.push(requests[i].call.len());
        let ghost before = requests@;
        let ghost flat_before = flat@;
        flat.append(&mut requests[i].call);
        proof {
            assert(given.take(i + 1).drop_last() =~= given.take(i as int));
            assert(invokes_view(flat@) =~= invokes_view(flat_before) + invokes_view(
                before[i as int].call@,
            ));
        }
        i += 1;
    }
    assert(given.take(i as int) =~= given);
    assert(counts_view(counts@) =~= counts_of(given));
    let calls = addresses(&flat);
    let inputs = flat.contract();
    proof {
        lemma_lengths(given);
    }
    (BatchPlan { counts, calls }, inputs)
}

/// Finds the first outcome that fails the whole batch.
pub fn find_batch_failure(outcomes: &Vec<Result<Output, ExecutionError>>) -> (found: Option<
    ExecutionError,
>)
    ensures
        found == batch_failure(outcomes@),
{
    let mut g: usize = 0;
    while g < outcomes.len()
        invariant
            g <= outcomes.len(),
            batch_failure(outcomes@.take(g as int)) is None,
        decreases outcomes.len() - g,
    {
        proof {
            assert(outcomes@.take(g + 1).drop_last() =~= outcomes@.take(g as int));
        }
        match &outcomes[g] {
            Err(e) => {
                if e.is_batch_failure() {
                    proof {
                        lemma_failure_stays(outcomes@, g + 1);
                    }
                    return Some(*e);
                }
            },
            Ok(_) => {},
        }
        g += 1;
    }
    assert(outcomes@.take(g as int) =~= outcomes@);
    None
}

/// A batch failure among the first outcomes is the batch failure of them all.
pub proof fn lemma_failure_stays(outcomes: Seq<Result<Output, ExecutionError>>, n: int)
    requires
        0 <= n <= outcomes.len(),
        batch_failure(outcomes.take(n)) is Some,
    ensures
        batch_failure(outcomes) == batch_failure(outcomes.take(n)),
    decreases outcomes.len() - n,
{
    if n < outcomes.len() {
        assert(outcomes.take(n + 1).drop_last() =~= outcomes.take(n));
        lemma_failure_stays(outcomes, n + 1);
    } else {
        assert(outcomes.take(n) =~= outcomes);
    }
}

/// Turns the outcomes of the aggregates into the responses to the requests.
/// A failure of the whole batch among the outcomes fails every request: it
/// is returned in place of the responses. Otherwise an aggregate that failed
/// leaves its calls without result, and every request gets the results of
/// its own calls, in their order.
pub fn respond(plan: &BatchPlan, outcomes: Vec<Result<Output, ExecutionError>>) -> (out: Result<
    Vec<InvokeResponse>,
    ExecutionError,
>)
    ensures
        match out {
            Err(e) => batch_failure(outcomes@) == Some(e),
            Ok(responses) => batch_failure(outcomes@) is None && responses_view(responses@)
                == responses_for(plan@, outputs_of(outcomes@)),
        },
{
    proof {
        use_type_invariant(plan);
    }
    match find_batch_failure(&outcomes) {
        Some(e) => {
            return Err(e);
        },
        None => {},
    }
    let mut outputs: Vec<Option<Output>> = Vec::new();
    for outcome in it: outcomes
        invariant
            it.seq() == outcomes@,
            outputs.len() == it.index(),
            forall|g: int|
                0 <= g < outputs.len() ==> #[trigger] outputs[g] == match outcomes[g] {
                    Ok(o) => Some(o),
                    Err(_) => None::<Output>,
                },
    {
        outputs.push(
            match outcome {
                Ok(o) => Some(o),
                Err(_) => None,
            },
        );
    }
    assert(outputs_view(outputs@) =~= outputs_of(outcomes@));
    let results = ungroup(&outputs, &plan.calls);
    let cut = reassemble(results, &plan.counts);
    let mut responses: Vec<InvokeResponse> = Vec::new();
    for segment in it: cut
        invariant
            it.seq() == cut@,
            responses.len() == it.index(),
            forall|i: int| 0 <= i < responses.len() ==> (#[trigger] responses[i]).emit == cut[i],
    {
        responses.push(InvokeResponse { emit: segment });
    }
    Ok(responses)
}

/// The request that goes into the queue for one caller: the queue takes
/// lists, so the request is wrapped into a list of one.
pub fn submission(request: InvokeRequest) -> (list: Vec<InvokeRequest>)
    ensures
        list@ == seq![request],
{
    let mut list: Vec<InvokeRequest> = Vec::new();
    list.push(request);
    list
}

/// The response that comes back from the queue for one caller: the last of
/// the list, `None` where the list is empty.
pub fn only_response(responses: Vec<InvokeResponse>) -> (response: Option<InvokeResponse>)
    ensures
        response == if responses.len() > 0 {
            Some(responses[responses.len() - 1])
        } else {
            None
        },
{
    let mut responses = responses;
    responses.pop()
}

/// Every request gets a response of its own size, and together the
/// responses hold one result per call of the batch.
pub proof fn law_response_sizes(requests: Seq<Seq<InvokeView>>, outputs: Seq<Option<OutputView>>)
    ensures
        responses_for(plan_of(requests), outputs).len() == requests.len(),
        counts_of(responses_for(plan_of(requests), outputs)) == counts_of(requests),
        total(counts_of(responses_for(plan_of(requests), outputs))) == flattened(requests).len(),
        flattened(responses_for(plan_of(requests), outputs)) == ungrouped(
            outputs,
            keys_of(flattened(requests)),
        ),
{
    let plan = plan_of(requests);
    let results = ungrouped(outputs, plan.keys);
    lemma_lengths(requests);
    law_segments(results, plan.counts);
}

/// The response to request `i` holds at place `k` the result of that
/// request's call `k`: the result that the output of the call's contract
/// holds under the call's function, at the call's occurrence in the batch.
pub proof fn law_aligned_responses(
    requests: Seq<Seq<InvokeView>>,
    outputs: Seq<Option<OutputView>>,
    i: int,
    k: int,
)
    requires
        0 <= i < requests.len(),
        0 <= k < requests[i].len(),
    ensures
        responses_for(plan_of(requests), outputs)[i].len() == requests[i].len(),
        0 <= offset(counts_of(requests), i) + k < flattened(requests).len(),
        flattened(requests)[offset(counts_of(requests), i) + k] == requests[i][k],
        responses_for(plan_of(requests), outputs)[i][k] == result_of(
            outputs,
            keys_of(flattened(requests)),
            offset(counts_of(requests), i) + k,
        ),
{
    let plan = plan_of(requests);
    let results = ungrouped(outputs, plan.keys);
    lemma_lengths(requests);
    law_delivery(requests, results, i, k);
}

} // verus!
