//! The sandbox executor: the protocol by which one aggregate of calls is run
//! against a contract's bytecode. Loading, instantiating and calling the
//! guest happen outside; this module decides what is done next, as a
//! function from the executor's state and an event to its next state and an
//! action.
//!
//! The offsets are a fixed convention between host and guest: the input is
//! written at offset 0 of the guest's memory and the output is read from
//! offset 1024.

use vstd::prelude::*;
use crate::bytes::clone_bytes;
use crate::calls::Output;
use crate::store::{ContextView, ContractContext, ContractRecord};

verus! {

/// Where the serialised input is written in guest memory.
pub const INPUT_OFFSET: usize = 0;

/// Where the serialised output is read from guest memory.
pub const OUTPUT_OFFSET: usize = 1024;

/// The name under which a guest exports its memory.
pub const MEMORY_EXPORT: &'static str = "memory";

/// The name under which a guest exports its entry function, which takes a
/// pointer and a length as 32-bit integers and returns a 32-bit length.
pub const ENTRY_FUNCTION: &'static str = "_invoke";

/// Why a call, a batch or a store operation did not go through.
#[derive(Clone, Copy, Debug, PartialEq, Eq, Structural)]
pub enum ExecutionError {
    /// No record at the contract's address, or a record that is not bytecode.
    NotFound,
    /// The bytecode did not compile or did not instantiate.
    InstantiationError,
    /// The guest does not keep to the protocol: no memory, no entry function
    /// of the right shape, a failed call, a negative length, a region out of
    /// bounds.
    ProtocolError,
    /// The input could not be serialised or the output could not be parsed.
    SerializationError,
    /// The contract store could not be reached.
    StorageError,
    /// A record was not stored because its stored version is not the one the
    /// caller expected.
    VersionConflict,
}

impl ExecutionError {
    /// Whether the failure is one of the whole batch rather than of a call.
    /// A failure of a call leaves that call without result; a failure of the
    /// batch is reported to every caller of the batch.
    pub open spec fn aborts_batch(self) -> bool {
        self is StorageError
    }

    /// Whether the failure is one of the whole batch rather than of a call.
    pub fn is_batch_failure(&self) -> (yes: bool)
        ensures
            yes == self.aborts_batch(),
    {
        match self {
            ExecutionError::StorageError => true,
            _ => false,
        }
    }
}

/// The executor of one call between two of its steps: what it waits for.
#[derive(Debug, PartialEq, Eq)]
pub enum Executor {
    /// The store looks up the record at the contract's address.
    AwaitingRecord { contract: Vec<u8>, call_id: u64 },
    /// The bytecode is compiled and instantiated.
    AwaitingInstance,
    /// The guest's exported memory is looked up.
    AwaitingMemory,
    /// The input is serialised.
    AwaitingInput,
    /// The input of the given length is written into guest memory.
    AwaitingWrite { len: usize },
    /// The guest's entry function runs.
    AwaitingReturn,
    /// The output is read from guest memory.
    AwaitingOutput,
    /// The output is parsed.
    AwaitingParse,
    /// The call is over.
    Finished,
}

/// What an [`Executor`] holds.
pub enum ExecutorView {
    AwaitingRecord { contract: Seq<u8>, call_id: u64 },
    AwaitingInstance,
    AwaitingMemory,
    AwaitingInput,
    AwaitingWrite { len: usize },
    AwaitingReturn,
    AwaitingOutput,
    AwaitingParse,
    Finished,
}

impl View for Executor {
    type V = ExecutorView;

    open spec fn view(&self) -> ExecutorView {
        match *self {
            Executor::AwaitingRecord { contract, call_id } => ExecutorView::AwaitingRecord {
                contract: contract@,
                call_id,
            },
            Executor::AwaitingInstance => ExecutorView::AwaitingInstance,
            Executor::AwaitingMemory => ExecutorView::AwaitingMemory,
            Executor::AwaitingInput => ExecutorView::AwaitingInput,
            Executor::AwaitingWrite { len } => ExecutorView::AwaitingWrite { len },
            Executor::AwaitingReturn => ExecutorView::AwaitingReturn,
            Executor::AwaitingOutput => ExecutorView::AwaitingOutput,
            Executor::AwaitingParse => ExecutorView::AwaitingParse,
            Executor::Finished => ExecutorView::Finished,
        }
    }
}

/// How the work that the executor asked for ended.
#[derive(Debug, PartialEq, Eq)]
pub enum ExecutorEvent {
    /// The store answered the lookup with these rows.
    Fetched(Vec<Option<ContractRecord>>),
    /// The store could not be reached.
    FetchFailed,
    /// The bytecode compiled and instantiated.
    Instantiated,
    /// The bytecode did not compile, or its imports could not be met.
    InstantiationFailed,
    /// The guest exports a memory under the expected name.
    MemoryFound,
    /// The guest exports no such memory.
    MemoryMissing,
    /// The input was serialised into this many bytes.
    Serialized(usize),
    /// The input could not be serialised.
    SerializationFailed,
    /// The input stands in guest memory.
    Written,
    /// The input did not fit into guest memory.
    WriteFailed,
    /// The entry function returned this value.
    Returned(i32),
    /// There is no entry function of the right shape, or the call failed.
    CallFailed,
    /// The output was read from guest memory.
    OutputRead,
    /// The output region lies outside guest memory.
    ReadFailed,
    /// The output parsed as this value.
    Parsed(Output),
    /// The output did not parse.
    ParseFailed,
}

/// What the executor asks for next.
#[derive(Debug, PartialEq, Eq)]
pub enum ExecutorAction {
    /// Look up the record at this namespace and address.
    Fetch { namespace: Vec<u8>, address: Vec<u8> },
    /// Compile this bytecode and instantiate it, bound to this fresh context.
    Instantiate { bytecode: Vec<u8>, context: ContractContext },
    /// Look up the guest's exported memory.
    FindMemory,
    /// Serialise the input to JSON.
    SerializeInput,
    /// Write the serialised input at this offset of guest memory.
    WriteInput { offset: usize },
    /// Call the entry function with this pointer and length.
    CallEntry { ptr: i32, len: i32 },
    /// Read this many bytes at this offset of guest memory.
    ReadOutput { offset: usize, size: usize },
    /// Parse what was read as an output.
    ParseOutput,
    /// The call is over, with this output or for this reason without one.
    Finish(Result<Output, ExecutionError>),
}

/// What an [`ExecutorAction`] holds.
pub enum ExecutorActionView {
    Fetch { namespace: Seq<u8>, address: Seq<u8> },
    Instantiate { bytecode: Seq<u8>, context: ContextView },
    FindMemory,
    SerializeInput,
    WriteInput { offset: usize },
    CallEntry { ptr: i32, len: i32 },
    ReadOutput { offset: usize, size: usize },
    ParseOutput,
    Finish(Result<Output, ExecutionError>),
}

impl View for ExecutorAction {
    type V = ExecutorActionView;

    open spec fn view(&self) -> ExecutorActionView {
        match *self {
            ExecutorAction::Fetch { namespace, address } => ExecutorActionView::Fetch {
                namespace: namespace@,
                address: address@,
            },
            ExecutorAction::Instantiate { bytecode, context } => ExecutorActionView::Instantiate {
                bytecode: bytecode@,
                context: context@,
            },
            ExecutorAction::FindMemory => ExecutorActionView::FindMemory,
            ExecutorAction::SerializeInput => ExecutorActionView::SerializeInput,
            ExecutorAction::WriteInput { offset } => ExecutorActionView::WriteInput { offset },
            ExecutorAction::CallEntry { ptr, len } => ExecutorActionView::CallEntry { ptr, len },
            ExecutorAction::ReadOutput { offset, size } => ExecutorActionView::ReadOutput {
                offset,
                size,
            },
            ExecutorAction::ParseOutput => ExecutorActionView::ParseOutput,
            ExecutorAction::Finish(outcome) => ExecutorActionView::Finish(outcome),
        }
    }
}

/// The bytecode that a lookup found: the data of the first row, where that
/// row is there and marked as bytecode.
pub open spec fn bytecode_of(rows: Seq<Option<ContractRecord>>) -> Option<Seq<u8>> {
    if rows.len() > 0 && rows[0] is Some && rows[0]->0.is_contract {
        Some(rows[0]->0.data@)
    } else {
        None
    }
}

/// The length of the input as the entry function receives it: the low 32
/// bits of the byte length, read as a signed number.
pub open spec fn entry_length(len: usize) -> i32 {
    let low = len as int % 0x1_0000_0000;
    if low < 0x8000_0000 {
        low as i32
    } else {
        (low - 0x1_0000_0000) as i32
    }
}

/// Whether an event can occur in a state: it ends the work that the state
/// waits for.
pub open spec fn accepts(state: ExecutorView, event: ExecutorEvent) -> bool {
    match state {
        ExecutorView::AwaitingRecord { .. } => event is Fetched || event is FetchFailed,
        ExecutorView::AwaitingInstance => event is Instantiated || event is InstantiationFailed,
        ExecutorView::AwaitingMemory => event is MemoryFound || event is MemoryMissing,
        ExecutorView::AwaitingInput => event is Serialized || event is SerializationFailed,
        ExecutorView::AwaitingWrite { .. } => event is Written || event is WriteFailed,
        ExecutorView::AwaitingReturn => event is Returned || event is CallFailed,
        ExecutorView::AwaitingOutput => event is OutputRead || event is ReadFailed,
        ExecutorView::AwaitingParse => event is Parsed || event is ParseFailed,
        ExecutorView::Finished => false,
    }
}

/// The action that answers an event.
pub open spec fn action_for(state: ExecutorView, event: ExecutorEvent) -> ExecutorActionView {
    match state {
        ExecutorView::AwaitingRecord { contract, call_id } => match event {
            ExecutorEvent::Fetched(rows) => match bytecode_of(rows@) {
                Some(bytecode) => ExecutorActionView::Instantiate {
                    bytecode,
                    context: ContextView { contract_id: contract, call_id, rand_id: 0 },
                },
                None => ExecutorActionView::Finish(Err(ExecutionError::NotFound)),
            },
            _ => ExecutorActionView::Finish(Err(ExecutionError::StorageError)),
        },
        ExecutorView::AwaitingInstance => match event {
            ExecutorEvent::Instantiated => ExecutorActionView::FindMemory,
            _ => ExecutorActionView::Finish(Err(ExecutionError::InstantiationError)),
        },
        ExecutorView::AwaitingMemory => match event {
            ExecutorEvent::MemoryFound => ExecutorActionView::SerializeInput,
            _ => ExecutorActionView::Finish(Err(ExecutionError::ProtocolError)),
        },
        ExecutorView::AwaitingInput => match event {
            ExecutorEvent::Serialized(_) => ExecutorActionView::WriteInput { offset: INPUT_OFFSET },
            _ => ExecutorActionView::Finish(Err(ExecutionError::SerializationError)),
        },
        ExecutorView::AwaitingWrite { len } => match event {
            ExecutorEvent::Written => ExecutorActionView::CallEntry {
                ptr: 0,
                len: entry_length(len),
            },
            _ => ExecutorActionView::Finish(Err(ExecutionError::ProtocolError)),
        },
        ExecutorView::AwaitingReturn => match event {
            ExecutorEvent::Returned(length) => if length >= 0 {
                ExecutorActionView::ReadOutput { offset: OUTPUT_OFFSET, size: length as usize }
            } else {
                ExecutorActionView::Finish(Err(ExecutionError::ProtocolError))
            },
            _ => ExecutorActionView::Finish(Err(ExecutionError::ProtocolError)),
        },
        ExecutorView::AwaitingOutput => match event {
            ExecutorEvent::OutputRead => ExecutorActionView::ParseOutput,
            _ => ExecutorActionView::Finish(Err(ExecutionError::ProtocolError)),
        },
        ExecutorView::AwaitingParse => match event {
            ExecutorEvent::Parsed(output) => ExecutorActionView::Finish(Ok(output)),
            _ => ExecutorActionView::Finish(Err(ExecutionError::SerializationError)),
        },
        ExecutorView::Finished => ExecutorActionView::Finish(Err(ExecutionError::ProtocolError)),
    }
}

/// The state after an event: the next stage of the protocol where the work
/// succeeded, the end where it failed.
pub open spec fn next_state(state: ExecutorView, event: ExecutorEvent) -> ExecutorView {
    match state {
        ExecutorView::AwaitingRecord { .. } => match event {
            ExecutorEvent::Fetched(rows) => if bytecode_of(rows@) is Some {
                ExecutorView::AwaitingInstance
            } else {
                ExecutorView::Finished
            },
            _ => ExecutorView::Finished,
        },
        ExecutorView::AwaitingInstance => match event {
            ExecutorEvent::Instantiated => ExecutorView::AwaitingMemory,
            _ => ExecutorView::Finished,
        },
        ExecutorView::AwaitingMemory => match event {
            ExecutorEvent::MemoryFound => ExecutorView::AwaitingInput,
            _ => ExecutorView::Finished,
        },
        ExecutorView::AwaitingInput => match event {
            ExecutorEvent::Serialized(len) => ExecutorView::AwaitingWrite { len },
            _ => ExecutorView::Finished,
        },
        ExecutorView::AwaitingWrite { .. } => match event {
            ExecutorEvent::Written => ExecutorView::AwaitingReturn,
            _ => ExecutorView::Finished,
        },
        ExecutorView::AwaitingReturn => match event {
            ExecutorEvent::Returned(length) => if length >= 0 {
                ExecutorView::AwaitingOutput
            } else {
                ExecutorView::Finished
            },
            _ => ExecutorView::Finished,
        },
        ExecutorView::AwaitingOutput => match event {
            ExecutorEvent::OutputRead => ExecutorView::AwaitingParse,
            _ => ExecutorView::Finished,
        },
        ExecutorView::AwaitingParse => ExecutorView::Finished,
        ExecutorView::Finished => ExecutorView::Finished,
    }
}

/// Encodes the length of the input for the entry function.
pub fn encode_entry_length(len: usize) -> (word: i32)
    ensures
        word == entry_length(len),
{
    let wide: u64 = len as u64;
    let low: u64 = wide & 0xffff_ffff;
    assert(wide & 0xffff_ffff == wide % 0x1_0000_0000) by (bit_vector);
    if low < 0x8000_0000 {
        low as i32
    } else {
        let over: u64 = low - 0x8000_0000;
        let word: i32 = (over as i32) - 0x4000_0000 - 0x4000_0000;
        word
    }
}

impl Executor {
    /// Begins the execution of call `call_id` against `contract`: the
    /// bytecode is looked up at the contract's address, in the namespace of
    /// that same address.
    pub fn start(contract: &Vec<u8>, call_id: u64) -> (out: (Executor, ExecutorAction))
        ensures
            out.0@ == (ExecutorView::AwaitingRecord { contract: contract@, call_id }),
            out.1@ == (ExecutorActionView::Fetch { namespace: contract@, address: contract@ }),
    {
        (
            Executor::AwaitingRecord { contract: clone_bytes(contract), call_id },
            ExecutorAction::Fetch {
                namespace: clone_bytes(contract),
                address: clone_bytes(contract),
            },
        )
    }

    /// Whether the executor can take this event in its state.
    pub fn can_take(&self, event: &ExecutorEvent) -> (ok: bool)
        ensures
            ok == accepts(self@, *event),
    {
        match self {
            Executor::AwaitingRecord { .. } => match event {
                ExecutorEvent::Fetched(_) => true,
                ExecutorEvent::FetchFailed => true,
                _ => false,
            },
            Executor::AwaitingInstance => match event {
                ExecutorEvent::Instantiated => true,
                ExecutorEvent::InstantiationFailed => true,
                _ => false,
            },
            Executor::AwaitingMemory => match event {
                ExecutorEvent::MemoryFound => true,
                ExecutorEvent::MemoryMissing => true,
                _ => false,
            },
            Executor::AwaitingInput => match event {
                ExecutorEvent::Serialized(_) => true,
                ExecutorEvent::SerializationFailed => true,
                _ => false,
            },
            Executor::AwaitingWrite { .. } => match event {
                ExecutorEvent::Written => true,
                ExecutorEvent::WriteFailed => true,
                _ => false,
            },
            Executor::AwaitingReturn => match event {
                ExecutorEvent::Returned(_) => true,
                ExecutorEvent::CallFailed => true,
                _ => false,
            },
            Executor::AwaitingOutput => match event {
                ExecutorEvent::OutputRead => true,
                ExecutorEvent::ReadFailed => true,
                _ => false,
            },
            Executor::AwaitingParse => match event {
                ExecutorEvent::Parsed(_) => true,
                ExecutorEvent::ParseFailed => true,
                _ => false,
            },
            Executor::Finished => false,
        }
    }

    /// One step of the executor: the state after `event` and the action that
    /// answers it.
    pub fn step(self, event: ExecutorEvent) -> (out: (Executor, ExecutorAction))
        requires
            accepts(self@, event),
        ensures
            out.0@ == next_state(self@, event),
            out.1@ == action_for(self@, event),
    {
        match self {
            Executor::AwaitingRecord { contract, call_id } => match event {
                ExecutorEvent::Fetched(rows) => {
                    let mut rows = rows;
                    if rows.len() == 0 {
                        return (
                            Executor::Finished,
                            ExecutorAction::Finish(Err(ExecutionError::NotFound)),
                        );
                    }
                    match rows.remove(0) {
                        Some(record) => {
                            if record.is_contract {
                                (
                                    Executor::AwaitingInstance,
                                    ExecutorAction::Instantiate {
                                        bytecode: record.data,
                                        context: ContractContext::new(contract, call_id, 0),
                                    },
                                )
                            } else {
                                (
                                    Executor::Finished,
                                    ExecutorAction::Finish(Err(ExecutionError::NotFound)),
                                )
                            }
                        },
                        None => (
                            Executor::Finished,
                            ExecutorAction::Finish(Err(ExecutionError::NotFound)),
                        ),
                    }
                },
                _ => (
                    Executor::Finished,
                    ExecutorAction::Finish(Err(ExecutionError::StorageError)),
                ),
            },
            Executor::AwaitingInstance => match event {
                ExecutorEvent::Instantiated => (
                    Executor::AwaitingMemory,
                    ExecutorAction::FindMemory,
                ),
                _ => (
                    Executor::Finished,
                    ExecutorAction::Finish(Err(ExecutionError::InstantiationError)),
                ),
            },
            Executor::AwaitingMemory => match event {
                ExecutorEvent::MemoryFound => (
                    Executor::AwaitingInput,
                    ExecutorAction::SerializeInput,
                ),
                _ => (
                    Executor::Finished,
                    ExecutorAction::Finish(Err(ExecutionError::ProtocolError)),
                ),
            },
            Executor::AwaitingInput => match event {
                ExecutorEvent::Serialized(len) => (
                    Executor::AwaitingWrite { len },
                    ExecutorAction::WriteInput { offset: INPUT_OFFSET },
                ),
                _ => (
                    Executor::Finished,
                    ExecutorAction::Finish(Err(ExecutionError::SerializationError)),
                ),
            },
            Executor::AwaitingWrite { len } => match event {
                ExecutorEvent::Written => (
                    Executor::AwaitingReturn,
                    ExecutorAction::CallEntry { ptr: 0, len: encode_entry_length(len) },
                ),
                _ => (
                    Executor::Finished,
                    ExecutorAction::Finish(Err(ExecutionError::ProtocolError)),
                ),
            },
            Executor::AwaitingReturn => match event {
                ExecutorEvent::Returned(length) => {
                    if length >= 0 {
                        (
                            Executor::AwaitingOutput,
                            ExecutorAction::ReadOutput {
                                offset: OUTPUT_OFFSET,
                                size: length as usize,
                            },
                        )
                    } else {
                        (
                            Executor::Finished,
                            ExecutorAction::Finish(Err(ExecutionError::ProtocolError)),
                        )
                    }
                },
                _ => (
                    Executor::Finished,
                    ExecutorAction::Finish(Err(ExecutionError::ProtocolError)),
                ),
            },
            Executor::AwaitingOutput => match event {
                ExecutorEvent::OutputRead => (Executor::AwaitingParse, ExecutorAction::ParseOutput),
                _ => (
                    Executor::Finished,
                    ExecutorAction::Finish(Err(ExecutionError::ProtocolError)),
                ),
            },
            Executor::AwaitingParse => match event {
                ExecutorEvent::Parsed(output) => (
                    Executor::Finished,
                    ExecutorAction::Finish(Ok(output)),
                ),
                _ => (
                    Executor::Finished,
                    ExecutorAction::Finish(Err(ExecutionError::SerializationError)),
                ),
            },
            Executor::Finished => (
                Executor::Finished,
                ExecutorAction::Finish(Err(ExecutionError::ProtocolError)),
            ),
        }
    }
}

/// The output that a finished call leaves to the batch: absent where the
/// call failed.
pub fn output_of(outcome: Result<Output, ExecutionError>) -> (output: Option<Output>)
    ensures
        output == match outcome {
            Ok(o) => Some(o),
            Err(_) => None::<Output>,
        },
{
    match outcome {
        Ok(o) => Some(o),
        Err(_) => None,
    }
}

/// The call is over exactly when the executor says so, and it says so on
/// every failure: a step ends in the final state exactly when its action is
/// the end of the call, the final state takes no event, and every event
/// that reports a failure ends the call without an output.
pub proof fn law_failure_ends_call(state: ExecutorView, event: ExecutorEvent)
    requires
        accepts(state, event),
    ensures
        next_state(state, event) is Finished <==> action_for(state, event) is Finish,
        forall|later: ExecutorEvent| !accepts(ExecutorView::Finished, later),
        (event is FetchFailed || event is InstantiationFailed || event is MemoryMissing || event
            is SerializationFailed || event is WriteFailed || event is CallFailed || event
            is ReadFailed || event is ParseFailed) ==> action_for(state, event)
            matches ExecutorActionView::Finish(Err(_)),
        action_for(state, event) matches ExecutorActionView::Finish(Ok(output)) ==> state
            is AwaitingParse && event == ExecutorEvent::Parsed(output),
{
}

/// Which failure ends a call: a missing or non-bytecode record is
/// `NotFound`; an unreachable store is `StorageError`; a module that does not
/// instantiate is `InstantiationError`; input that does not serialise and
/// output that does not parse are `SerializationError`; everything else the
/// guest gets wrong, a negative length among it, is `ProtocolError`.
pub proof fn law_failure_kinds(state: ExecutorView, event: ExecutorEvent)
    requires
        accepts(state, event),
    ensures
        event matches ExecutorEvent::Fetched(rows) ==> (bytecode_of(rows@) is None ==> action_for(
            state,
            event,
        ) == ExecutorActionView::Finish(Err(ExecutionError::NotFound))),
        event is FetchFailed ==> action_for(state, event) == ExecutorActionView::Finish(
            Err(ExecutionError::StorageError),
        ),
        event is InstantiationFailed ==> action_for(state, event) == ExecutorActionView::Finish(
            Err(ExecutionError::InstantiationError),
        ),
        event is SerializationFailed || event is ParseFailed ==> action_for(state, event)
            == ExecutorActionView::Finish(Err(ExecutionError::SerializationError)),
        event is MemoryMissing || event is WriteFailed || event is CallFailed || event
            is ReadFailed ==> action_for(state, event) == ExecutorActionView::Finish(
            Err(ExecutionError::ProtocolError),
        ),
        event matches ExecutorEvent::Returned(length) ==> (length < 0 ==> action_for(state, event)
            == ExecutorActionView::Finish(Err(ExecutionError::ProtocolError))),
{
}

/// The protocol runs in its fixed order, and the guest runs only on bytecode:
/// each stage is entered from the stage before it and from no other, and the
/// first of them only with the data of a record that is marked as bytecode.
pub proof fn law_protocol_order(state: ExecutorView, event: ExecutorEvent)
    requires
        accepts(state, event),
    ensures
        next_state(state, event) is AwaitingRecord ==> false,
        next_state(state, event) is AwaitingInstance ==> ({
            &&& state is AwaitingRecord
            &&& event matches ExecutorEvent::Fetched(rows)
            &&& action_for(state, event) matches ExecutorActionView::Instantiate { bytecode, .. }
            &&& Some(bytecode) == bytecode_of(rows@)
        }),
        next_state(state, event) is AwaitingMemory ==> state is AwaitingInstance,
        next_state(state, event) is AwaitingInput ==> state is AwaitingMemory,
        next_state(state, event) is AwaitingWrite ==> state is AwaitingInput,
        next_state(state, event) is AwaitingReturn ==> state is AwaitingWrite,
        next_state(state, event) is AwaitingOutput ==> state is AwaitingReturn,
        next_state(state, event) is AwaitingParse ==> state is AwaitingOutput,
{
}

/// The offsets are fixed: the input is written at offset 0 and the entry
/// function gets the pointer 0 with the input's length; the output is read at
/// offset 1024, in the length that the entry function returned.
pub proof fn law_fixed_offsets(state: ExecutorView, event: ExecutorEvent)
    requires
        accepts(state, event),
    ensures
        action_for(state, event) matches ExecutorActionView::WriteInput { offset } ==> offset == 0,
        action_for(state, event) matches ExecutorActionView::CallEntry { ptr, len } ==> ({
            &&& ptr == 0
            &&& state matches ExecutorView::AwaitingWrite { len: written }
            &&& len == entry_length(written)
        }),
        action_for(state, event) matches ExecutorActionView::ReadOutput { offset, size } ==> ({
            &&& offset == 1024
            &&& event matches ExecutorEvent::Returned(length)
            &&& size == length
        }),
{
}

} // verus!
