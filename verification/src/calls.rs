//! Calls and their aggregates: one call site, all calls to one contract in
//! one pass, and all results of one contract.

use vstd::prelude::*;

verus! {

/// What a call asks for: a contract, one of its functions and a JSON argument.
#[derive(Debug, PartialEq, Eq)]
pub struct InvokePayload {
    contract: Vec<u8>,
    function: String,
    pub argument: serde_json::Value,
}

/// One call site: who calls, and what.
#[derive(Debug, PartialEq, Eq)]
pub struct Invoke {
    identity: Vec<u8>,
    pub payload: InvokePayload,
}

/// The calls to one function of a contract: the arguments, in call order.
#[derive(Debug, PartialEq, Eq)]
pub struct FunctionCalls {
    pub name: String,
    pub arguments: Vec<serde_json::Value>,
}

/// All calls to one contract in one pass, function by function. An
/// aggregate that comes out of grouping names every function once.
#[derive(Debug, PartialEq, Eq)]
pub struct Input {
    pub contract: Vec<u8>,
    pub functions: Vec<FunctionCalls>,
}

/// The results of the calls to one function: one optional JSON value per call.
#[derive(Debug, PartialEq, Eq)]
pub struct FunctionResults {
    pub name: String,
    pub results: Vec<Option<serde_json::Value>>,
}

/// All results of one contract, function by function. Where an output names
/// a function more than once, the first entry counts.
#[derive(Debug, PartialEq, Eq)]
pub struct Output {
    pub functions: Vec<FunctionResults>,
}

/// The contract and function that a call addresses.
pub struct CallKey {
    pub contract: Seq<u8>,
    pub function: Seq<char>,
}

/// What an [`Invoke`] holds.
pub struct InvokeView {
    pub identity: Seq<u8>,
    pub key: CallKey,
    pub argument: serde_json::Value,
}

/// What an [`Input`] holds: the contract, and for each function called on it
/// the name and the arguments.
pub struct InputView {
    pub contract: Seq<u8>,
    pub functions: Seq<(Seq<char>, Seq<serde_json::Value>)>,
}

/// What an [`Output`] holds.
pub struct OutputView {
    pub functions: Seq<(Seq<char>, Seq<Option<serde_json::Value>>)>,
}

impl View for Invoke {
    type V = InvokeView;

    closed spec fn view(&self) -> InvokeView {
        InvokeView {
            identity: self.identity@,
            key: self.payload.key(),
            argument: self.payload.argument_view(),
        }
    }
}

impl View for FunctionCalls {
    type V = (Seq<char>, Seq<serde_json::Value>);

    open spec fn view(&self) -> (Seq<char>, Seq<serde_json::Value>) {
        (self.name@, self.arguments@)
    }
}

impl View for Input {
    type V = InputView;

    open spec fn view(&self) -> InputView {
        InputView {
            contract: self.contract@,
            functions: Seq::new(self.functions.len() as nat, |h: int| self.functions[h]@),
        }
    }
}

impl View for FunctionResults {
    type V = (Seq<char>, Seq<Option<serde_json::Value>>);

    open spec fn view(&self) -> (Seq<char>, Seq<Option<serde_json::Value>>) {
        (self.name@, self.results@)
    }
}

impl View for Output {
    type V = OutputView;

    open spec fn view(&self) -> OutputView {
        OutputView { functions: Seq::new(self.functions.len() as nat, |h: int| self.functions[h]@) }
    }
}

impl InvokePayload {
    /// A payload that calls `function` of `contract` with `argument`.
    pub fn new(
        contract: Vec<u8>,
        function: String,
        argument: serde_json::Value,
    ) -> (payload: InvokePayload)
        ensures
            payload.key() == (CallKey { contract: contract@, function: function@ }),
            payload.argument_view() == argument,
    {
        InvokePayload { contract, function, argument }
    }

    /// The contract and function called.
    pub closed spec fn key(&self) -> CallKey {
        CallKey { contract: self.contract@, function: self.function@ }
    }

    /// The argument of the call.
    pub closed spec fn argument_view(&self) -> serde_json::Value {
        self.argument
    }

    /// The address of the contract called.
    pub fn contract(&self) -> (contract: &Vec<u8>)
        ensures
            contract@ == self.key().contract,
    {
        &self.contract
    }

    /// The name of the function called.
    pub fn function(&self) -> (function: &String)
        ensures
            function@ == self.key().function,
    {
        &self.function
    }
}

impl Invoke {
    /// A call by `identity` of `function` of `contract` with `argument`.
    pub fn new(
        identity: Vec<u8>,
        contract: Vec<u8>,
        function: String,
        argument: serde_json::Value,
    ) -> (invoke: Invoke)
        ensures
            invoke@ == (InvokeView {
                identity: identity@,
                key: CallKey { contract: contract@, function: function@ },
                argument,
            }),
    {
        Invoke { identity, payload: InvokePayload { contract, function, argument } }
    }

    /// The caller's identity.
    pub fn identity(&self) -> (identity: &Vec<u8>)
        ensures
            identity@ == self@.identity,
    {
        &self.identity
    }

    /// The address of the contract called.
    pub fn contract(&self) -> (contract: &Vec<u8>)
        ensures
            contract@ == self@.key.contract,
    {
        &self.payload.contract
    }

    /// The name of the function called.
    pub fn function(&self) -> (function: &String)
        ensures
            function@ == self@.key.function,
    {
        &self.payload.function
    }

    /// The argument of the call.
    pub fn argument(&self) -> (argument: &serde_json::Value)
        ensures
            *argument == self@.argument,
    {
        &self.payload.argument
    }
}

/// What a list of calls holds.
pub open spec fn invokes_view(invokes: Seq<Invoke>) -> Seq<InvokeView> {
    Seq::new(invokes.len(), |j: int| invokes[j]@)
}

/// What a list of inputs holds.
pub open spec fn inputs_view(inputs: Seq<Input>) -> Seq<InputView> {
    Seq::new(inputs.len(), |g: int| inputs[g]@)
}

/// What a list of optional outputs holds.
pub open spec fn outputs_view(outputs: Seq<Option<Output>>) -> Seq<Option<OutputView>> {
    Seq::new(
        outputs.len(),
        |g: int|
            match outputs[g] {
                Some(o) => Some(o@),
                None => None,
            },
    )
}

/// The names and arguments that a function list holds.
pub open spec fn calls_view(
    functions: Seq<FunctionCalls>,
) -> Seq<(Seq<char>, Seq<serde_json::Value>)> {
    Seq::new(functions.len(), |h: int| functions[h]@)
}

/// The names and results that a function list holds.
pub open spec fn results_view(functions: Seq<FunctionResults>) -> Seq<
    (Seq<char>, Seq<Option<serde_json::Value>>),
> {
    Seq::new(functions.len(), |h: int| functions[h]@)
}

/// The contract and function of one call, as the inverse of grouping needs
/// them.
#[derive(Debug, PartialEq, Eq)]
pub struct CallAddress {
    pub contract: Vec<u8>,
    pub function: String,
}

impl View for CallAddress {
    type V = CallKey;

    open spec fn view(&self) -> CallKey {
        CallKey { contract: self.contract@, function: self.function@ }
    }
}

/// What a list of call addresses holds.
pub open spec fn addresses_view(addresses: Seq<CallAddress>) -> Seq<CallKey> {
    Seq::new(addresses.len(), |j: int| addresses[j]@)
}

} // verus!
