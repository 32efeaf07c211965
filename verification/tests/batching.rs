use contract_engine::batches::{BatchConsumer, ConsumerAction, ConsumerEvent};
use contract_engine::segments::{covers, flatten, reassemble};
use contract_engine::counter::{draw_call_ids, get_pc, ProgramCounter};
use contract_engine::executor::ExecutionError;
use contract_engine::calls::{FunctionResults, Invoke, Output};
use contract_engine::invoke_batcher::{
    find_batch_failure, only_response, plan, respond, submission, InvokeRequest, InvokeResponse,
};
use serde_json::Value;

fn call(contract: &[u8], function: &str, argument: i64) -> Invoke {
    Invoke::new(vec![], contract.to_vec(), function.to_string(), Value::from(argument))
}

#[test]
fn flatten_records_counts_and_keeps_order() {
    let (counts, flat) = flatten(vec![vec![1, 2], vec![], vec![3], vec![4, 5, 6]]);
    assert_eq!(counts, vec![2, 0, 1, 3]);
    assert_eq!(flat, vec![1, 2, 3, 4, 5, 6]);
}

#[test]
fn reassemble_cuts_by_counts() {
    let cut = reassemble(vec!['a', 'b', 'c', 'd', 'e', 'f'], &vec![2, 0, 1, 3]);
    assert_eq!(cut, vec![vec!['a', 'b'], vec![], vec!['c'], vec!['d', 'e', 'f']]);
}

#[test]
fn reassemble_undoes_flatten() {
    let batch = vec![vec![10, 11], vec![12], vec![], vec![13, 14]];
    let (counts, flat) = flatten(batch.clone());
    let total: usize = counts.iter().sum();
    assert_eq!(total, flat.len());
    assert_eq!(reassemble(flat, &counts), batch);
}

#[test]
fn reassemble_drops_results_nobody_asked_for() {
    let cut = reassemble(vec![1, 2, 3, 4], &vec![1, 2]);
    assert_eq!(cut, vec![vec![1], vec![2, 3]]);
    assert_eq!(reassemble(vec![1, 2], &Vec::new()), Vec::<Vec<i32>>::new());
}

#[test]
fn covers_compares_the_total() {
    assert!(covers(&vec![1, 2, 3], 6));
    assert!(covers(&vec![1, 2, 3], 7));
    assert!(!covers(&vec![1, 2, 3], 5));
    assert!(covers(&Vec::new(), 0));
    assert!(!covers(&vec![usize::MAX, usize::MAX], usize::MAX));
}

#[test]
fn two_submissions_race_into_one_batch() {
    let consumer: BatchConsumer<&str> = BatchConsumer::new();
    assert_eq!(consumer, BatchConsumer::Waiting);
    let first: ConsumerEvent<&str, usize> = ConsumerEvent::Received(vec!["a", "bb"]);
    assert!(consumer.can_take(&first));
    let (consumer, action) = consumer.step(first);
    assert_eq!(action, ConsumerAction::PollItem);
    let (consumer, action) =
        consumer.step(ConsumerEvent::<&str, usize>::Received(vec!["ccc", "dddd", "eeeee"]));
    assert_eq!(action, ConsumerAction::PollItem);
    let (consumer, action) = consumer.step(ConsumerEvent::<&str, usize>::QueueEmpty);
    // One processing call gets the union of both submissions.
    assert_eq!(action, ConsumerAction::Process(vec!["a", "bb", "ccc", "dddd", "eeeee"]));
    assert_eq!(consumer, BatchConsumer::Processing(vec![2, 3]));
    let items = match action {
        ConsumerAction::Process(items) => items,
        _ => unreachable!(),
    };
    let results: Vec<usize> = items.iter().map(|s| s.len()).collect();
    let (consumer, action) = consumer.step(ConsumerEvent::<&str, usize>::Processed(results));
    // Each submission gets its own slice, of its own size.
    assert_eq!(action, ConsumerAction::Deliver(vec![vec![1, 2], vec![3, 4, 5]]));
    assert_eq!(consumer, BatchConsumer::Waiting);
}

#[test]
fn consumer_processes_one_batch_at_a_time() {
    let mut consumer: BatchConsumer<u8> = BatchConsumer::new();
    let mut running = 0;
    let mut most = 0;
    let mut runs = 0;
    let script: Vec<ConsumerEvent<u8, u8>> = vec![
        ConsumerEvent::Received(vec![1]),
        ConsumerEvent::Received(vec![2, 3]),
        ConsumerEvent::QueueEmpty,
        ConsumerEvent::Processed(vec![10, 20, 30]),
        ConsumerEvent::Received(vec![4]),
        ConsumerEvent::QueueEmpty,
        ConsumerEvent::Processed(vec![40]),
        ConsumerEvent::QueueClosed,
    ];
    for event in script {
        assert!(consumer.can_take(&event));
        if matches!(event, ConsumerEvent::Processed(_)) {
            running -= 1;
        }
        let (next, action) = consumer.step(event);
        if matches!(action, ConsumerAction::Process(_)) {
            running += 1;
            runs += 1;
            // While a batch is processed nothing but its end is taken.
            assert!(!next.can_take(&ConsumerEvent::<u8, u8>::Received(vec![9])));
            assert!(!next.can_take(&ConsumerEvent::<u8, u8>::QueueEmpty));
            assert!(!next.can_take(&ConsumerEvent::<u8, u8>::QueueClosed));
        }
        most = most.max(running);
        consumer = next;
    }
    assert_eq!(most, 1);
    assert_eq!(runs, 2);
    assert_eq!(consumer, BatchConsumer::Stopped);
    assert!(!consumer.can_take(&ConsumerEvent::<u8, u8>::Received(vec![1])));
}

#[test]
fn consumer_refuses_too_few_results() {
    let consumer: BatchConsumer<u8> = BatchConsumer::Processing(vec![2, 1]);
    assert!(!consumer.can_take(&ConsumerEvent::<u8, u8>::Processed(vec![1, 2])));
    assert!(consumer.can_take(&ConsumerEvent::<u8, u8>::Processed(vec![1, 2, 3])));
}

#[test]
fn a_closed_queue_still_gets_its_last_batch_processed() {
    let consumer: BatchConsumer<u8> = BatchConsumer::new();
    let (consumer, _) = consumer.step(ConsumerEvent::<u8, u8>::Received(vec![5, 6]));
    let (consumer, action) = consumer.step(ConsumerEvent::<u8, u8>::QueueClosed);
    assert_eq!(action, ConsumerAction::Process(vec![5, 6]));
    let (consumer, action) = consumer.step(ConsumerEvent::<u8, u8>::Processed(vec![50, 60]));
    assert_eq!(action, ConsumerAction::Deliver(vec![vec![50, 60]]));
    let (consumer, action) = consumer.step(ConsumerEvent::<u8, u8>::QueueClosed);
    assert_eq!(action, ConsumerAction::Stop);
    assert_eq!(consumer, BatchConsumer::Stopped);
}

#[test]
fn plan_flattens_and_groups_all_requests() {
    let requests = vec![
        InvokeRequest { call: vec![call(b"a", "f", 1), call(b"b", "f", 2)] },
        InvokeRequest { call: vec![] },
        InvokeRequest { call: vec![call(b"a", "f", 3)] },
    ];
    let (_plan, inputs) = plan(requests);
    assert_eq!(inputs.len(), 2);
    assert_eq!(inputs[0].contract, b"a".to_vec());
    assert_eq!(inputs[0].functions[0].arguments, vec![Value::from(1), Value::from(3)]);
    assert_eq!(inputs[1].contract, b"b".to_vec());
}

#[test]
fn respond_aligns_results_with_requests() {
    let requests = vec![
        InvokeRequest { call: vec![call(b"a", "f", 1), call(b"b", "g", 2)] },
        InvokeRequest { call: vec![call(b"a", "f", 3), call(b"a", "h", 4), call(b"b", "g", 5)] },
    ];
    let (plan, inputs) = plan(requests);
    assert_eq!(inputs.len(), 2);
    let a = Output {
        functions: vec![
            FunctionResults {
                name: "f".to_string(),
                results: vec![Some(Value::from("a.f.0")), Some(Value::from("a.f.1"))],
            },
            FunctionResults { name: "h".to_string(), results: vec![None] },
        ],
    };
    let b = Output {
        functions: vec![FunctionResults {
            name: "g".to_string(),
            results: vec![Some(Value::from("b.g.0")), Some(Value::from("b.g.1"))],
        }],
    };
    let responses = respond(&plan, vec![Ok(a), Ok(b)]).unwrap();
    assert_eq!(
        responses,
        vec![
            InvokeResponse { emit: vec![Some(Value::from("a.f.0")), Some(Value::from("b.g.0"))] },
            InvokeResponse {
                emit: vec![Some(Value::from("a.f.1")), None, Some(Value::from("b.g.1"))],
            },
        ]
    );
    let sizes: Vec<usize> = responses.iter().map(|r| r.emit.len()).collect();
    assert_eq!(sizes, vec![2, 3]);
}

#[test]
fn a_failed_call_leaves_its_siblings_alone() {
    let requests = vec![InvokeRequest { call: vec![call(b"a", "f", 1), call(b"b", "f", 2)] }];
    let (plan, _inputs) = plan(requests);
    let b = Output {
        functions: vec![FunctionResults {
            name: "f".to_string(),
            results: vec![Some(Value::from(22))],
        }],
    };
    let responses = respond(&plan, vec![Err(ExecutionError::ProtocolError), Ok(b)]).unwrap();
    assert_eq!(responses, vec![InvokeResponse { emit: vec![None, Some(Value::from(22))] }]);
}

#[test]
fn an_unreachable_store_fails_the_whole_batch() {
    let requests = vec![
        InvokeRequest { call: vec![call(b"a", "f", 1)] },
        InvokeRequest { call: vec![call(b"b", "f", 2)] },
    ];
    let (plan, _inputs) = plan(requests);
    let a = Output { functions: vec![] };
    let out = respond(&plan, vec![Ok(a), Err(ExecutionError::StorageError)]);
    assert_eq!(out, Err(ExecutionError::StorageError));
}

#[test]
fn batch_failures_are_told_from_call_failures() {
    assert!(ExecutionError::StorageError.is_batch_failure());
    assert!(!ExecutionError::NotFound.is_batch_failure());
    assert!(!ExecutionError::InstantiationError.is_batch_failure());
    assert!(!ExecutionError::ProtocolError.is_batch_failure());
    assert!(!ExecutionError::SerializationError.is_batch_failure());
    assert!(!ExecutionError::VersionConflict.is_batch_failure());
    assert_eq!(find_batch_failure(&vec![Err(ExecutionError::NotFound)]), None);
    assert_eq!(
        find_batch_failure(&vec![
            Err(ExecutionError::NotFound),
            Err(ExecutionError::StorageError),
        ]),
        Some(ExecutionError::StorageError)
    );
    assert_eq!(find_batch_failure(&Vec::new()), None);
}

#[test]
fn one_request_goes_in_and_its_response_comes_out() {
    let list = submission(InvokeRequest { call: vec![call(b"a", "f", 1)] });
    assert_eq!(list.len(), 1);
    assert_eq!(list[0].call.len(), 1);
    assert_eq!(only_response(Vec::new()), None);
    let response = only_response(vec![
        InvokeResponse { emit: vec![None] },
        InvokeResponse { emit: vec![Some(Value::from(1))] },
    ]);
    assert_eq!(response, Some(InvokeResponse { emit: vec![Some(Value::from(1))] }));
}

#[test]
fn program_counter_counts_up_from_zero() {
    let mut pc = ProgramCounter::new();
    assert_eq!(pc.peek(), 0);
    assert_eq!(get_pc(&mut pc), 0);
    assert_eq!(get_pc(&mut pc), 1);
    assert_eq!(pc.peek(), 2);
}

#[test]
fn call_ids_are_drawn_one_per_aggregate() {
    let mut pc = ProgramCounter::new();
    assert_eq!(draw_call_ids(&mut pc, 3), vec![0, 1, 2]);
    assert_eq!(draw_call_ids(&mut pc, 0), Vec::<u64>::new());
    assert_eq!(draw_call_ids(&mut pc, 2), vec![3, 4]);
    assert_eq!(get_pc(&mut pc), 5);
}
