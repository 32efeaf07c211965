use contract_engine::calls::{
    CallAddress, FunctionCalls, FunctionResults, Input, Invoke, InvokePayload, Output,
};
use contract_engine::grouper::{add_call, addresses, find_input, result_in, ungroup, InputExt};
use serde_json::Value;

fn call(contract: &[u8], function: &str, argument: i64) -> Invoke {
    Invoke::new(vec![9], contract.to_vec(), function.to_string(), Value::from(argument))
}

fn echo(inputs: &Vec<Input>) -> Vec<Option<Output>> {
    let mut outputs = Vec::new();
    for input in inputs {
        let mut functions = Vec::new();
        for f in &input.functions {
            let results = f.arguments.iter().map(|a| Some(a.clone())).collect();
            functions.push(FunctionResults { name: f.name.clone(), results });
        }
        outputs.push(Some(Output { functions }));
    }
    outputs
}

#[test]
fn invoke_keeps_what_it_was_made_of() {
    let invoke = Invoke::new(vec![1, 2], vec![3, 4], "f".to_string(), Value::from("x"));
    assert_eq!(invoke.identity(), &vec![1u8, 2]);
    assert_eq!(invoke.contract(), &vec![3u8, 4]);
    assert_eq!(invoke.function(), "f");
    assert_eq!(invoke.argument(), &Value::from("x"));
    assert_eq!(invoke.payload.argument, Value::from("x"));
    let payload = InvokePayload::new(vec![5], "g".to_string(), Value::Null);
    assert_eq!(payload.contract(), &vec![5u8]);
    assert_eq!(payload.function(), "g");
    assert_eq!(payload.argument, Value::Null);
}

#[test]
fn grouping_nothing_gives_nothing() {
    let invokes: Vec<Invoke> = Vec::new();
    assert!(invokes.contract().is_empty());
    assert!(ungroup(&Vec::new(), &Vec::new()).is_empty());
}

#[test]
fn grouping_two_functions_of_one_contract() {
    let invokes = vec![call(&[7; 32], "f", 1), call(&[7; 32], "g", 2)];
    let inputs = invokes.contract();
    assert_eq!(inputs.len(), 1);
    assert_eq!(inputs[0].contract, vec![7u8; 32]);
    assert_eq!(
        inputs[0].functions,
        vec![
            FunctionCalls { name: "f".to_string(), arguments: vec![Value::from(1)] },
            FunctionCalls { name: "g".to_string(), arguments: vec![Value::from(2)] },
        ]
    );
}

#[test]
fn grouping_keeps_first_appearance_order() {
    let invokes = vec![
        call(b"b", "x", 1),
        call(b"a", "y", 2),
        call(b"b", "z", 3),
        call(b"c", "x", 4),
        call(b"a", "y", 5),
    ];
    let inputs = invokes.contract();
    let contracts: Vec<Vec<u8>> = inputs.iter().map(|i| i.contract.clone()).collect();
    assert_eq!(contracts, vec![b"b".to_vec(), b"a".to_vec(), b"c".to_vec()]);
    let names: Vec<String> = inputs[0].functions.iter().map(|f| f.name.clone()).collect();
    assert_eq!(names, vec!["x".to_string(), "z".to_string()]);
    assert_eq!(inputs[1].functions.len(), 1);
    assert_eq!(inputs[1].functions[0].arguments, vec![Value::from(2), Value::from(5)]);
}

#[test]
fn grouping_merges_repeats_that_are_apart() {
    let invokes = vec![call(b"a", "f", 1), call(b"b", "f", 2), call(b"a", "f", 3)];
    let inputs = invokes.contract();
    assert_eq!(inputs.len(), 2);
    assert_eq!(inputs[0].contract, b"a".to_vec());
    assert_eq!(inputs[0].functions.len(), 1);
    assert_eq!(inputs[0].functions[0].arguments, vec![Value::from(1), Value::from(3)]);
    assert_eq!(inputs[1].contract, b"b".to_vec());
    assert_eq!(inputs[1].functions[0].arguments, vec![Value::from(2)]);
}

#[test]
fn ungrouping_the_echo_gives_the_arguments_back() {
    let invokes = vec![
        call(b"b", "x", 10),
        call(b"a", "y", 20),
        call(b"b", "x", 30),
        call(b"b", "z", 40),
        call(b"a", "x", 50),
        call(b"b", "x", 60),
    ];
    let inputs = invokes.contract();
    let outputs = echo(&inputs);
    let results = ungroup(&outputs, &addresses(&invokes));
    let expected: Vec<Option<Value>> =
        vec![10, 20, 30, 40, 50, 60].into_iter().map(|n| Some(Value::from(n))).collect();
    assert_eq!(results, expected);
}

#[test]
fn addresses_follow_the_calls() {
    let invokes = vec![call(b"a", "f", 1), call(b"b", "g", 2)];
    assert_eq!(
        addresses(&invokes),
        vec![
            CallAddress { contract: b"a".to_vec(), function: "f".to_string() },
            CallAddress { contract: b"b".to_vec(), function: "g".to_string() },
        ]
    );
}

#[test]
fn ungrouping_leaves_calls_without_output_empty() {
    let calls = vec![
        CallAddress { contract: b"a".to_vec(), function: "f".to_string() },
        CallAddress { contract: b"b".to_vec(), function: "f".to_string() },
        CallAddress { contract: b"a".to_vec(), function: "g".to_string() },
        CallAddress { contract: b"a".to_vec(), function: "f".to_string() },
        CallAddress { contract: b"c".to_vec(), function: "f".to_string() },
    ];
    let outputs = vec![
        Some(Output {
            functions: vec![FunctionResults {
                name: "f".to_string(),
                results: vec![Some(Value::from(1))],
            }],
        }),
        None,
    ];
    let results = ungroup(&outputs, &calls);
    // a.f #0 is there; b has no output; a.g is not named; a.f #1 is past the
    // end of the results; c has no place among the outputs.
    assert_eq!(results, vec![Some(Value::from(1)), None, None, None, None]);
}

#[test]
fn ungrouping_takes_the_first_entry_of_a_name() {
    let output = Some(Output {
        functions: vec![
            FunctionResults { name: "f".to_string(), results: vec![None, Some(Value::from(2))] },
            FunctionResults { name: "f".to_string(), results: vec![Some(Value::from(9))] },
        ],
    });
    assert_eq!(result_in(&output, &"f".to_string(), 0), None);
    assert_eq!(result_in(&output, &"f".to_string(), 1), Some(Value::from(2)));
    assert_eq!(result_in(&output, &"f".to_string(), 2), None);
    assert_eq!(result_in(&output, &"g".to_string(), 0), None);
    assert_eq!(result_in(&None, &"f".to_string(), 0), None);
}

#[test]
fn adding_calls_one_by_one() {
    let mut inputs: Vec<Input> = Vec::new();
    add_call(&mut inputs, &call(b"a", "f", 1));
    add_call(&mut inputs, &call(b"a", "f", 2));
    add_call(&mut inputs, &call(b"b", "f", 3));
    assert_eq!(find_input(&inputs, &b"a".to_vec()), Some(0));
    assert_eq!(find_input(&inputs, &b"b".to_vec()), Some(1));
    assert_eq!(find_input(&inputs, &b"c".to_vec()), None);
    assert_eq!(inputs[0].functions[0].arguments, vec![Value::from(1), Value::from(2)]);
}

#[test]
fn grouping_copies_structured_arguments() {
    let argument = Value::Array(vec![Value::from("p"), Value::from(7), Value::Bool(true)]);
    let invokes =
        vec![Invoke::new(vec![], b"a".to_vec(), "new".to_string(), argument.clone())];
    let inputs = invokes.contract();
    assert_eq!(inputs[0].functions[0].arguments, vec![argument.clone()]);
    assert_eq!(invokes[0].payload.argument, argument);
}
