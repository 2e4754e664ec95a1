use massa_api::api::{APISettings, ConsensusConfig, NetworkConfig, Public, API};
use massa_api::error::{ApiError, ModelsError};
use massa_api::models::{IpAddr, MassaTime, NodeId, OperationId, Version, Wrapped};
use massa_api::submission::{Deserialized, OperationInput, SubmissionStep};

type Api = API<Public<(), (), (), (), (), ()>>;

fn api(max_arguments: u64) -> Api {
    API::new(
        (),
        (),
        APISettings { max_arguments },
        (),
        ConsensusConfig {
            thread_count: 32,
            t0: MassaTime(16_000),
            genesis_timestamp: MassaTime(1_000),
            periods_per_cycle: 128,
        },
        (),
        NetworkConfig { routable_ip: Some(IpAddr::V4([10, 0, 0, 1])) },
        Version { instance: ['T', 'E', 'S', 'T'], major: 13, minor: 2 },
        (),
        0,
        NodeId([9; 32]),
        (),
    )
}

fn input(byte: u8) -> OperationInput {
    OperationInput {
        creator_public_key: vec![byte, 20],
        signature: vec![byte, 10, 10],
        serialized_content: vec![byte, 30],
    }
}

fn operation(byte: u8) -> Wrapped<OperationId, u8> {
    Wrapped { id: OperationId([byte; 32]), content: byte }
}

fn deserialized(byte: u8) -> Deserialized<u8> {
    Ok((vec![], operation(byte)))
}

#[derive(Debug, PartialEq)]
enum End {
    Submitted(Vec<Wrapped<OperationId, u8>>, Vec<OperationId>),
    Rejected(ApiError),
}

/// Follows a request to its end: the bytes that are deserialized, the operations
/// that are verified, and the end.
fn run(
    first: SubmissionStep<u8>,
    replies: Vec<(Deserialized<u8>, Result<(), ApiError>)>,
) -> (Vec<Vec<u8>>, Vec<u8>, End) {
    let mut replies = replies.into_iter();
    let mut verification = Ok(());
    let mut bytes = Vec::new();
    let mut verified = Vec::new();
    let mut step = first;
    loop {
        step = match step {
            SubmissionStep::Deserialize(serialized, state) => {
                bytes.push(serialized);
                let reply = replies.next().unwrap();
                verification = reply.1;
                state.deserialized(reply.0)
            }
            SubmissionStep::VerifyIntegrity(state) => {
                verified.push(state.operation().content);
                let outcome = verification;
                verification = Ok(());
                state.checked(outcome)
            }
            SubmissionStep::Submit(operations, ids) => {
                return (bytes, verified, End::Submitted(operations, ids));
            }
            SubmissionStep::Reject(error) => return (bytes, verified, End::Rejected(error)),
        };
    }
}

fn deserialize_error(text: &str) -> End {
    End::Rejected(ApiError::ModelsError(ModelsError::DeserializeError(text.to_string())))
}

#[test]
fn no_operations_are_submitted_as_such() {
    let end = run(api(0).send_operations(vec![]), vec![]);
    assert_eq!(end, (vec![], vec![], End::Submitted(vec![], vec![])));
}

#[test]
fn too_many_operations_are_rejected_unread() {
    let end = run(api(1).send_operations(vec![input(1), input(2)]), vec![]);
    let error = ApiError::TooManyArguments("too many arguments".to_string());
    assert_eq!(end, (vec![], vec![], End::Rejected(error)));
}

#[test]
fn valid_operations_are_submitted_in_order() {
    let step = api(2).send_operations(vec![input(1), input(2)]);
    let (bytes, verified, end) = run(step, vec![(deserialized(1), Ok(())), (deserialized(2), Ok(()))]);
    assert_eq!(bytes, vec![vec![1, 10, 10, 1, 20, 1, 30], vec![2, 10, 10, 2, 20, 2, 30]]);
    assert_eq!(verified, vec![1, 2]);
    assert_eq!(
        end,
        End::Submitted(
            vec![operation(1), operation(2)],
            vec![OperationId([1; 32]), OperationId([2; 32])]
        )
    );
}

#[test]
fn bytes_that_are_no_operation_are_rejected() {
    let step = api(9).send_operations(vec![input(1)]);
    let (bytes, verified, end) = run(step, vec![(Err("bad tag".to_string()), Ok(()))]);
    assert_eq!(bytes.len(), 1);
    assert!(verified.is_empty());
    assert_eq!(end, deserialize_error("bad tag"));
}

#[test]
fn bytes_left_over_are_rejected() {
    let step = api(9).send_operations(vec![input(1)]);
    let (_, verified, end) = run(step, vec![(Ok((vec![0], operation(1))), Ok(()))]);
    assert!(verified.is_empty());
    assert_eq!(end, deserialize_error("There is data left after operation deserialization"));
}

#[test]
fn first_fault_rejects_the_request() {
    let step = api(9).send_operations(vec![input(1), input(2), input(3)]);
    let fault = ApiError::ModelsError(ModelsError::Other("wrong signature".to_string()));
    let replies = vec![
        (deserialized(1), Ok(())),
        (deserialized(2), Err(fault)),
        (Err("never read".to_string()), Ok(())),
    ];
    let (bytes, verified, end) = run(step, replies);
    assert_eq!(bytes.len(), 2);
    assert_eq!(verified, vec![1, 2]);
    let fault = ApiError::ModelsError(ModelsError::Other("wrong signature".to_string()));
    assert_eq!(end, End::Rejected(fault));
}
