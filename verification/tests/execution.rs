use contract_engine::batches::{BatchConsumer, ConsumerAction, ConsumerEvent};
use contract_engine::counter::{draw_call_ids, ProgramCounter};
use contract_engine::executor::{
    encode_entry_length, output_of, ExecutionError, Executor, ExecutorAction, ExecutorEvent,
    ENTRY_FUNCTION, INPUT_OFFSET, MEMORY_EXPORT, OUTPUT_OFFSET,
};
use contract_engine::calls::{FunctionCalls, FunctionResults, Invoke, Output};
use contract_engine::invoke_batcher::{plan, respond, InvokeRequest, InvokeResponse};
use contract_engine::store::{set_outcome, upsert_decision, ContractContext, ContractRecord, Upsert};
use serde_json::Value;

fn bytecode(data: &[u8]) -> ContractRecord {
    ContractRecord {
        is_contract: true,
        in_contract: vec![1; 32],
        at_address: vec![1; 32],
        data: data.to_vec(),
        version: 0,
    }
}

fn finished(error: ExecutionError) -> (Executor, ExecutorAction) {
    (Executor::Finished, ExecutorAction::Finish(Err(error)))
}

fn run_to(stage: usize) -> Executor {
    let events = vec![
        ExecutorEvent::Fetched(vec![Some(bytecode(&[0, 97, 115, 109]))]),
        ExecutorEvent::Instantiated,
        ExecutorEvent::MemoryFound,
        ExecutorEvent::Serialized(40),
        ExecutorEvent::Written,
        ExecutorEvent::Returned(12),
        ExecutorEvent::OutputRead,
    ];
    let (mut executor, _) = Executor::start(&vec![1; 32], 7);
    for event in events.into_iter().take(stage) {
        assert!(executor.can_take(&event));
        executor = executor.step(event).0;
    }
    executor
}

#[test]
fn a_call_runs_through_the_protocol() {
    let contract = vec![1u8; 32];
    let (executor, action) = Executor::start(&contract, 7);
    assert_eq!(
        action,
        ExecutorAction::Fetch { namespace: contract.clone(), address: contract.clone() }
    );
    let (executor, action) =
        executor.step(ExecutorEvent::Fetched(vec![Some(bytecode(&[0, 97, 115, 109]))]));
    assert_eq!(
        action,
        ExecutorAction::Instantiate {
            bytecode: vec![0, 97, 115, 109],
            context: ContractContext::new(contract.clone(), 7, 0),
        }
    );
    let (executor, action) = executor.step(ExecutorEvent::Instantiated);
    assert_eq!(action, ExecutorAction::FindMemory);
    let (executor, action) = executor.step(ExecutorEvent::MemoryFound);
    assert_eq!(action, ExecutorAction::SerializeInput);
    let (executor, action) = executor.step(ExecutorEvent::Serialized(40));
    assert_eq!(action, ExecutorAction::WriteInput { offset: 0 });
    assert_eq!(executor, Executor::AwaitingWrite { len: 40 });
    let (executor, action) = executor.step(ExecutorEvent::Written);
    assert_eq!(action, ExecutorAction::CallEntry { ptr: 0, len: 40 });
    let (executor, action) = executor.step(ExecutorEvent::Returned(12));
    assert_eq!(action, ExecutorAction::ReadOutput { offset: 1024, size: 12 });
    let (executor, action) = executor.step(ExecutorEvent::OutputRead);
    assert_eq!(action, ExecutorAction::ParseOutput);
    let output = Output {
        functions: vec![FunctionResults { name: "f".to_string(), results: vec![None] }],
    };
    let (executor, action) = executor.step(ExecutorEvent::Parsed(output));
    assert_eq!(
        action,
        ExecutorAction::Finish(Ok(Output {
            functions: vec![FunctionResults { name: "f".to_string(), results: vec![None] }],
        }))
    );
    assert_eq!(executor, Executor::Finished);
    assert!(!executor.can_take(&ExecutorEvent::Instantiated));
}

#[test]
fn the_offsets_are_fixed() {
    assert_eq!(INPUT_OFFSET, 0);
    assert_eq!(OUTPUT_OFFSET, 1024);
    assert_eq!(MEMORY_EXPORT, "memory");
    assert_eq!(ENTRY_FUNCTION, "_invoke");
}

#[test]
fn a_missing_record_is_not_found() {
    assert_eq!(run_to(0).step(ExecutorEvent::Fetched(vec![])), finished(ExecutionError::NotFound));
    assert_eq!(
        run_to(0).step(ExecutorEvent::Fetched(vec![None])),
        finished(ExecutionError::NotFound)
    );
    assert_eq!(
        run_to(0).step(ExecutorEvent::Fetched(vec![None, Some(bytecode(&[1]))])),
        finished(ExecutionError::NotFound)
    );
}

#[test]
fn a_record_that_is_not_bytecode_is_not_found() {
    let mut data = bytecode(&[1, 2, 3]);
    data.is_contract = false;
    assert_eq!(
        run_to(0).step(ExecutorEvent::Fetched(vec![Some(data)])),
        finished(ExecutionError::NotFound)
    );
}

#[test]
fn every_failure_has_its_kind() {
    assert_eq!(run_to(0).step(ExecutorEvent::FetchFailed), finished(ExecutionError::StorageError));
    assert_eq!(
        run_to(1).step(ExecutorEvent::InstantiationFailed),
        finished(ExecutionError::InstantiationError)
    );
    assert_eq!(
        run_to(2).step(ExecutorEvent::MemoryMissing),
        finished(ExecutionError::ProtocolError)
    );
    assert_eq!(
        run_to(3).step(ExecutorEvent::SerializationFailed),
        finished(ExecutionError::SerializationError)
    );
    assert_eq!(run_to(4).step(ExecutorEvent::WriteFailed), finished(ExecutionError::ProtocolError));
    assert_eq!(run_to(5).step(ExecutorEvent::CallFailed), finished(ExecutionError::ProtocolError));
    assert_eq!(run_to(6).step(ExecutorEvent::ReadFailed), finished(ExecutionError::ProtocolError));
    assert_eq!(
        run_to(7).step(ExecutorEvent::ParseFailed),
        finished(ExecutionError::SerializationError)
    );
}

#[test]
fn a_negative_length_is_a_protocol_error() {
    assert_eq!(
        run_to(5).step(ExecutorEvent::Returned(-1)),
        finished(ExecutionError::ProtocolError)
    );
    assert_eq!(
        run_to(5).step(ExecutorEvent::Returned(i32::MIN)),
        finished(ExecutionError::ProtocolError)
    );
    let (executor, action) = run_to(5).step(ExecutorEvent::Returned(0));
    assert_eq!(action, ExecutorAction::ReadOutput { offset: 1024, size: 0 });
    assert_eq!(executor, Executor::AwaitingOutput);
    let (_, action) = run_to(5).step(ExecutorEvent::Returned(i32::MAX));
    assert_eq!(action, ExecutorAction::ReadOutput { offset: 1024, size: 2147483647 });
}

#[test]
fn events_out_of_turn_are_not_taken() {
    assert!(!run_to(0).can_take(&ExecutorEvent::Instantiated));
    assert!(!run_to(1).can_take(&ExecutorEvent::Fetched(vec![])));
    assert!(!run_to(2).can_take(&ExecutorEvent::Written));
    assert!(!run_to(3).can_take(&ExecutorEvent::Returned(1)));
    assert!(!run_to(4).can_take(&ExecutorEvent::Serialized(1)));
    assert!(!run_to(5).can_take(&ExecutorEvent::OutputRead));
    assert!(!run_to(6).can_take(&ExecutorEvent::ParseFailed));
    assert!(!run_to(7).can_take(&ExecutorEvent::MemoryFound));
    assert!(run_to(7).can_take(&ExecutorEvent::ParseFailed));
}

#[test]
fn entry_length_is_the_low_word_signed() {
    assert_eq!(encode_entry_length(0), 0);
    assert_eq!(encode_entry_length(40), 40);
    assert_eq!(encode_entry_length(0x7fff_ffff), i32::MAX);
    assert_eq!(encode_entry_length(0x8000_0000), i32::MIN);
    assert_eq!(encode_entry_length(0xffff_ffff), -1);
}

#[test]
fn a_failed_call_has_no_output() {
    assert_eq!(output_of(Err(ExecutionError::NotFound)), None);
    let output = Output { functions: vec![] };
    assert_eq!(output_of(Ok(output)), Some(Output { functions: vec![] }));
}

#[test]
fn a_new_record_is_inserted_whatever_is_expected() {
    assert_eq!(upsert_decision(None, None), Upsert::Insert);
    assert_eq!(upsert_decision(None, Some(0)), Upsert::Insert);
    assert_eq!(upsert_decision(None, Some(7)), Upsert::Insert);
}

#[test]
fn a_stored_record_is_replaced_at_the_expected_version() {
    assert_eq!(upsert_decision(Some(0), None), Upsert::Update { version: 1 });
    assert_eq!(upsert_decision(Some(4), Some(4)), Upsert::Update { version: 5 });
    assert_eq!(upsert_decision(Some(-3), Some(-3)), Upsert::Update { version: -2 });
    assert_eq!(
        upsert_decision(Some(i64::MAX - 1), None),
        Upsert::Update { version: i64::MAX }
    );
}

#[test]
fn another_version_is_a_conflict() {
    assert_eq!(upsert_decision(Some(4), Some(3)), Upsert::Conflict);
    assert_eq!(upsert_decision(Some(4), Some(5)), Upsert::Conflict);
    assert_eq!(upsert_decision(Some(i64::MAX), Some(0)), Upsert::Conflict);
}

#[test]
fn the_largest_version_cannot_grow() {
    assert_eq!(upsert_decision(Some(i64::MAX), None), Upsert::Overflow);
    assert_eq!(upsert_decision(Some(i64::MAX), Some(i64::MAX)), Upsert::Overflow);
}

#[test]
fn the_store_tells_applied_from_version_conflict() {
    assert_eq!(set_outcome(Upsert::Insert), Ok(()));
    assert_eq!(set_outcome(Upsert::Update { version: 2 }), Ok(()));
    assert_eq!(set_outcome(Upsert::Conflict), Err(ExecutionError::VersionConflict));
    assert_eq!(set_outcome(Upsert::Overflow), Err(ExecutionError::StorageError));
}

#[test]
fn context_keeps_its_identity() {
    let context = ContractContext::new(vec![4, 5], 11, 3);
    assert_eq!(context.contract_id(), &vec![4u8, 5]);
    assert_eq!(context.call_id(), 11);
    assert_eq!(context.rand_id(), 3);
}

// One request with two calls to an address that was never deployed: the
// calls form one aggregate, its execution ends as not found, and both calls
// come back without result.
#[test]
fn calls_to_an_undeployed_contract_come_back_null() {
    let address = vec![0xde, 0xad, 0xbe, 0xef];
    let request = InvokeRequest {
        call: vec![
            Invoke::new(vec![], address.clone(), "f".to_string(), Value::from(1)),
            Invoke::new(vec![], address.clone(), "g".to_string(), Value::from(2)),
        ],
    };
    let consumer: BatchConsumer<InvokeRequest> = BatchConsumer::new();
    let (consumer, _) =
        consumer.step(ConsumerEvent::<InvokeRequest, InvokeResponse>::Received(vec![request]));
    let (consumer, action) =
        consumer.step(ConsumerEvent::<InvokeRequest, InvokeResponse>::QueueEmpty);
    let requests = match action {
        ConsumerAction::Process(requests) => requests,
        _ => unreachable!(),
    };
    let (plan, inputs) = plan(requests);
    assert_eq!(inputs.len(), 1);
    assert_eq!(inputs[0].contract, address);
    assert_eq!(
        inputs[0].functions,
        vec![
            FunctionCalls { name: "f".to_string(), arguments: vec![Value::from(1)] },
            FunctionCalls { name: "g".to_string(), arguments: vec![Value::from(2)] },
        ]
    );
    let mut pc = ProgramCounter::new();
    let ids = draw_call_ids(&mut pc, inputs.len());
    assert_eq!(ids, vec![0]);
    let (executor, action) = Executor::start(&inputs[0].contract, ids[0]);
    assert_eq!(
        action,
        ExecutorAction::Fetch { namespace: address.clone(), address: address.clone() }
    );
    let (executor, action) = executor.step(ExecutorEvent::Fetched(vec![None]));
    assert_eq!(executor, Executor::Finished);
    assert_eq!(action, ExecutorAction::Finish(Err(ExecutionError::NotFound)));
    let responses = respond(&plan, vec![Err(ExecutionError::NotFound)]).unwrap();
    assert_eq!(responses, vec![InvokeResponse { emit: vec![None, None] }]);
    let (consumer, action) = consumer.step(ConsumerEvent::Processed(responses));
    assert_eq!(
        action,
        ConsumerAction::Deliver(vec![vec![InvokeResponse { emit: vec![None, None] }]])
    );
    assert_eq!(consumer, BatchConsumer::Waiting);
}
