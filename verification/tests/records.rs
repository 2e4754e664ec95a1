use massa_api::api::{APISettings, ConsensusConfig, NetworkConfig, Public, API};
use massa_api::error::ApiError;
use massa_api::id_set::IdSet;
use massa_api::models::{
    BlockId, EndorsementId, IpAddr, MassaTime, NodeId, OperationId, Version, Wrapped,
};
use massa_api::records::{EndorsementInfo, Lookup, OperationInfo};

type Api = API<Public<(), (), (), (), (), ()>>;

fn api(max_arguments: u64) -> Api {
    API::new(
        (),
        (),
        APISettings { max_arguments },
        (),
        ConsensusConfig {
            thread_count: 32,
            t0: MassaTime(16_000),
            genesis_timestamp: MassaTime(1_000),
            periods_per_cycle: 128,
        },
        (),
        NetworkConfig { routable_ip: Some(IpAddr::V4([10, 0, 0, 1])) },
        Version { instance: ['T', 'E', 'S', 'T'], major: 13, minor: 2 },
        (),
        0,
        NodeId([9; 32]),
        (),
    )
}

fn operation(byte: u8) -> Wrapped<OperationId, u8> {
    Wrapped { id: OperationId([byte; 32]), content: byte }
}

fn endorsement(byte: u8) -> Wrapped<EndorsementId, u8> {
    Wrapped { id: EndorsementId([byte; 32]), content: byte }
}

fn blocks(bytes: &[u8]) -> Option<IdSet<BlockId>> {
    Some(IdSet::from_vec(bytes.iter().map(|byte| BlockId([*byte; 32])).collect()))
}

fn operation_lookups() -> Vec<Lookup<OperationId, u8>> {
    vec![
        Lookup { item: Some(operation(3)), containing_blocks: blocks(&[7, 8, 7]) },
        Lookup { item: None, containing_blocks: blocks(&[7]) },
        Lookup { item: Some(operation(1)), containing_blocks: None },
    ]
}

fn too_many() -> ApiError {
    ApiError::TooManyArguments("too many arguments".to_string())
}

#[test]
fn operations_are_asked_about_in_request_order() {
    let found = api(2).get_operations(operation_lookups());
    assert_eq!(found.ids(), &vec![OperationId([3; 32]), OperationId([1; 32])]);
    let infos = found.operation_infos(vec![true, false], vec!["executed", "unknown"]).unwrap();
    assert_eq!(
        infos,
        vec![
            OperationInfo {
                id: OperationId([3; 32]),
                operation: operation(3),
                in_pool: true,
                in_blocks: vec![BlockId([7; 32]), BlockId([8; 32])],
                execution_status: "executed",
            },
            OperationInfo {
                id: OperationId([1; 32]),
                operation: operation(1),
                in_pool: false,
                in_blocks: vec![],
                execution_status: "unknown",
            },
        ]
    );
}

#[test]
fn limit_counts_the_operations_that_are_found() {
    let found = api(1).get_operations(operation_lookups());
    assert_eq!(found.operation_infos(vec![true, true], vec![0, 0]), Err(too_many()));
    let found = api(2).get_operations(operation_lookups());
    assert_eq!(found.operation_infos(vec![true, true], vec![0, 0]).unwrap().len(), 2);
}

#[test]
fn operations_without_a_reply_are_dropped() {
    let found = api(5).get_operations(operation_lookups());
    let infos = found.operation_infos(vec![true, true], vec![4]).unwrap();
    assert_eq!(infos.len(), 1);
    assert_eq!(infos[0].id, OperationId([3; 32]));
    let found = api(5).get_operations(operation_lookups());
    assert!(found.operation_infos(vec![], vec![4, 5]).unwrap().is_empty());
}

#[test]
fn endorsements_are_compiled_in_request_order() {
    let lookups = || {
        vec![
            Lookup { item: None, containing_blocks: None },
            Lookup { item: Some(endorsement(6)), containing_blocks: blocks(&[1]) },
            Lookup { item: Some(endorsement(2)), containing_blocks: None },
        ]
    };
    let found = api(2).get_endorsements(lookups());
    assert_eq!(found.ids(), &vec![EndorsementId([6; 32]), EndorsementId([2; 32])]);
    let infos = found.endorsement_infos(vec![false, true]).unwrap();
    assert_eq!(
        infos,
        vec![
            EndorsementInfo {
                id: EndorsementId([6; 32]),
                endorsement: endorsement(6),
                in_pool: false,
                in_blocks: vec![BlockId([1; 32])],
            },
            EndorsementInfo {
                id: EndorsementId([2; 32]),
                endorsement: endorsement(2),
                in_pool: true,
                in_blocks: vec![],
            },
        ]
    );
    let found = api(1).get_endorsements(lookups());
    assert_eq!(found.endorsement_infos(vec![false, true]), Err(too_many()));
}

#[test]
fn id_set_holds_nothing_twice() {
    let ids: Vec<BlockId> = [4u8, 5, 4, 4].iter().map(|byte| BlockId([*byte; 32])).collect();
    let set = IdSet::from_vec(ids);
    assert!(set.contains(&BlockId([4; 32])));
    assert!(set.contains(&BlockId([5; 32])));
    assert!(!set.contains(&BlockId([6; 32])));
    let mut near = [4; 32];
    near[31] = 5;
    assert!(!set.contains(&BlockId(near)));
    assert_eq!(set.into_vec().len(), 2);
    assert!(IdSet::<BlockId>::new().into_vec().is_empty());
}
