use massa_api::api::{APISettings, ConsensusConfig, NetworkConfig, Public, API};
use massa_api::error::ApiError;
use massa_api::execution::{
    ExecuteReadOnlyResponse, ExecutionOutput, ExecutionStackElement, ReadOnlyBytecodeExecution,
    ReadOnlyCall, ReadOnlyExecutionRequest, ReadOnlyExecutionTarget, ReadOnlyResult, ReadOnlyStep,
};
use massa_api::models::{Address, Amount, IpAddr, MassaTime, NodeId, Slot, Version};

type Api = API<Public<(), (), (), (), (), ()>>;

fn api(max_arguments: u64) -> Api {
    API::new(
        (),
        (),
        APISettings { max_arguments },
        (),
        ConsensusConfig {
            thread_count: 32,
            t0: MassaTime(16_000),
            genesis_timestamp: MassaTime(1_000),
            periods_per_cycle: 128,
        },
        (),
        NetworkConfig { routable_ip: Some(IpAddr::V4([10, 0, 0, 1])) },
        Version { instance: ['T', 'E', 'S', 'T'], major: 13, minor: 2 },
        (),
        0,
        NodeId([9; 32]),
        (),
    )
}

fn bytecode(code: u8, address: Option<Address>) -> ReadOnlyBytecodeExecution {
    ReadOnlyBytecodeExecution {
        max_gas: 100 + code as u64,
        simulated_gas_price: Amount(5),
        bytecode: vec![code, code],
        address,
    }
}

fn call(function: &str, caller_address: Option<Address>) -> ReadOnlyCall {
    ReadOnlyCall {
        max_gas: 77,
        simulated_gas_price: Amount(2),
        target_address: Address([200; 32]),
        target_function: function.to_string(),
        parameter: vec![1, 2, 3],
        caller_address,
    }
}

fn level(byte: u8) -> ExecutionStackElement {
    ExecutionStackElement {
        address: Address([byte; 32]),
        coins: Amount(0),
        owned_addresses: vec![Address([byte; 32])],
    }
}

/// Follows a batch to its end: the requests that are executed, the number of
/// addresses that are drawn, and the responses. The first drawn address is full
/// of 100, the next of 101, and so on; `outcomes` come from the front.
fn run(
    first: ReadOnlyStep<&'static str>,
    mut outcomes: Vec<Result<ExecutionOutput<&'static str>, String>>,
) -> (Vec<ReadOnlyExecutionRequest>, u8, Vec<ExecuteReadOnlyResponse<&'static str>>) {
    let mut requests = Vec::new();
    let mut draws = 0;
    let mut step = first;
    loop {
        step = match step {
            ReadOnlyStep::DrawAddress(state) => {
                draws += 1;
                state.drawn(Address([99 + draws; 32]))
            }
            ReadOnlyStep::Execute(request, state) => {
                requests.push(request);
                state.executed(outcomes.remove(0))
            }
            ReadOnlyStep::Reply(responses) => return (requests, draws, responses),
        };
    }
}

fn output(period: u64, events: Vec<&'static str>) -> Result<ExecutionOutput<&'static str>, String> {
    Ok(ExecutionOutput { slot: Slot { period, thread: 3 }, events })
}

#[test]
fn empty_batch_is_answered_at_once() {
    let step = api(0).execute_read_only_bytecode::<&'static str>(vec![]).unwrap();
    let (requests, draws, responses) = run(step, vec![]);
    assert!(requests.is_empty());
    assert_eq!(draws, 0);
    assert!(responses.is_empty());
}

#[test]
fn bytecode_batch_over_the_limit_is_refused() {
    let error = Err(ApiError::TooManyArguments("too many arguments".to_string()));
    let reqs = vec![bytecode(1, None), bytecode(2, None)];
    assert_eq!(api(1).execute_read_only_bytecode::<()>(reqs).map(|_| ()), error);
    let reqs = vec![bytecode(1, None), bytecode(2, None)];
    assert!(api(2).execute_read_only_bytecode::<()>(reqs).is_ok());
}

#[test]
fn call_batch_over_the_limit_is_refused() {
    let error = Err(ApiError::TooManyArguments("too many arguments".to_string()));
    assert_eq!(
        api(0).execute_read_only_call::<()>(vec![call("f", None)]).map(|_| ()),
        error
    );
    assert!(api(1).execute_read_only_call::<()>(vec![call("f", None)]).is_ok());
}

#[test]
fn bytecode_is_executed_for_the_named_address() {
    let reqs = vec![bytecode(7, Some(Address([1; 32])))];
    let step = api(10).execute_read_only_bytecode(reqs).unwrap();
    let (requests, draws, responses) = run(step, vec![output(8, vec!["a", "b"])]);
    assert_eq!(draws, 0);
    assert_eq!(
        requests,
        vec![ReadOnlyExecutionRequest {
            max_gas: 107,
            simulated_gas_price: Amount(5),
            call_stack: vec![level(1)],
            target: ReadOnlyExecutionTarget::BytecodeExecution(vec![7, 7]),
        }]
    );
    assert_eq!(
        responses,
        vec![ExecuteReadOnlyResponse {
            executed_at: Slot { period: 8, thread: 3 },
            result: ReadOnlyResult::Success,
            output_events: vec!["a", "b"],
        }]
    );
}

#[test]
fn call_stands_above_its_caller() {
    let reqs = vec![call("transfer", Some(Address([1; 32])))];
    let step = api(10).execute_read_only_call(reqs).unwrap();
    let (requests, draws, _) = run(step, vec![output(8, vec![])]);
    assert_eq!(draws, 0);
    assert_eq!(
        requests,
        vec![ReadOnlyExecutionRequest {
            max_gas: 77,
            simulated_gas_price: Amount(2),
            call_stack: vec![level(1), level(200)],
            target: ReadOnlyExecutionTarget::FunctionCall {
                target_addr: Address([200; 32]),
                target_func: "transfer".to_string(),
                parameter: vec![1, 2, 3],
            },
        }]
    );
}

#[test]
fn addresses_are_drawn_only_where_none_is_named() {
    let reqs = vec![
        bytecode(1, None),
        bytecode(2, Some(Address([5; 32]))),
        bytecode(3, None),
    ];
    let step = api(3).execute_read_only_bytecode(reqs).unwrap();
    let outcomes = vec![output(1, vec![]), output(2, vec![]), output(3, vec![])];
    let (requests, draws, responses) = run(step, outcomes);
    assert_eq!(draws, 2);
    assert_eq!(requests[0].call_stack, vec![level(100)]);
    assert_eq!(requests[1].call_stack, vec![level(5)]);
    assert_eq!(requests[2].call_stack, vec![level(101)]);
    let periods: Vec<u64> = responses.iter().map(|r| r.executed_at.period).collect();
    assert_eq!(periods, vec![1, 2, 3]);
}

#[test]
fn failure_does_not_end_the_batch() {
    let reqs = vec![call("f", None), call("g", None)];
    let step = api(3).execute_read_only_call(reqs).unwrap();
    let outcomes = vec![Err("out of gas".to_string()), output(4, vec!["done"])];
    let (requests, draws, responses) = run(step, outcomes);
    assert_eq!(requests.len(), 2);
    assert_eq!(draws, 2);
    assert_eq!(
        responses,
        vec![
            ExecuteReadOnlyResponse {
                executed_at: Slot { period: 0, thread: 0 },
                result: ReadOnlyResult::Error("readonly call failed: out of gas".to_string()),
                output_events: vec![],
            },
            ExecuteReadOnlyResponse {
                executed_at: Slot { period: 4, thread: 3 },
                result: ReadOnlyResult::Success,
                output_events: vec!["done"],
            },
        ]
    );
}

#[test]
fn caller_only_shows_in_the_call_stack() {
    let request = |caller: u8| {
        let step = api(1)
            .execute_read_only_call(vec![call("f", Some(Address([caller; 32])))])
            .unwrap();
        run(step, vec![output(1, vec![])]).0.remove(0)
    };
    let (one, two) = (request(1), request(2));
    assert_eq!(one.target, two.target);
    assert_eq!(one.max_gas, two.max_gas);
    assert_eq!(one.simulated_gas_price, two.simulated_gas_price);
    assert_ne!(one.call_stack[0], two.call_stack[0]);
    assert_eq!(one.call_stack[1], two.call_stack[1]);
}
