use massa_api::api::{APISettings, ConsensusConfig, NetworkConfig, Public, API};
use massa_api::addresses::AddressInfo;
use massa_api::datastore::{DatastoreEntryInput, DatastoreEntryOutput};
use massa_api::error::ApiError;
use massa_api::id_set::IdSet;
use massa_api::models::{
    Address, BlockId, EndorsementId, IpAddr, MassaTime, NodeId, OperationId, Slot, Version,
};
use massa_api::stakers::StakersQuery;
use massa_api::timeslots::{CycleQuery, ThreadQuery};

type Api = API<Public<(), (), (), (), (), ()>>;

fn api(max_arguments: u64) -> Api {
    API::new(
        (),
        (),
        APISettings { max_arguments },
        (),
        ConsensusConfig {
            thread_count: 32,
            t0: MassaTime(16_000),
            genesis_timestamp: MassaTime(1_000),
            periods_per_cycle: 128,
        },
        (),
        NetworkConfig { routable_ip: Some(IpAddr::V4([10, 0, 0, 1])) },
        Version { instance: ['T', 'E', 'S', 'T'], major: 13, minor: 2 },
        (),
        0,
        NodeId([9; 32]),
        (),
    )
}

fn address(byte: u8) -> Address {
    Address([byte; 32])
}

fn stakers(list: &[(u8, u64)]) -> Vec<(Address, u64)> {
    list.iter().map(|(byte, rolls)| (address(*byte), *rolls)).collect()
}

fn stakers_query(last_slot: Option<Slot>) -> StakersQuery {
    let at = api(1).get_stakers(Ok(MassaTime(1))).ok().unwrap();
    at.with_latest_slot(Ok(last_slot)).ok().unwrap()
}

/// The stakers from the rolls in a cycle.
fn sorted(rolls: Vec<(Address, u64)>) -> Vec<(Address, u64)> {
    stakers_query(Some(Slot { period: 300, thread: 1 })).in_cycle(2).stakers(rolls)
}

#[test]
fn stakers_are_asked_for_in_the_cycle_of_the_latest_slot() {
    let slot = Slot { period: 300, thread: 1 };
    let query = stakers_query(Some(slot));
    assert_eq!(query.cycle_query(), CycleQuery { slot, periods_per_cycle: 128 });
    assert_eq!(query.in_cycle(2).cycle(), 2);
    let query = stakers_query(None);
    let genesis = Slot { period: 0, thread: 0 };
    assert_eq!(query.cycle_query(), CycleQuery { slot: genesis, periods_per_cycle: 128 });
    assert_eq!(query.in_cycle(0).cycle(), 0);
}

#[test]
fn stakers_need_the_time_and_the_latest_slot() {
    let clock = || ApiError::TimeError("clock".to_string());
    assert_eq!(api(1).get_stakers(Err(clock())).err(), Some(clock()));
    let latest = || ApiError::ConsensusError("slot".to_string());
    let at = api(1).get_stakers(Ok(MassaTime(1))).ok().unwrap();
    assert_eq!(at.with_latest_slot(Err(latest())).err(), Some(latest()));
}

#[test]
fn thread_is_asked_for_among_the_threads_of_the_graph() {
    assert_eq!(
        api(1).thread_query(address(4)),
        ThreadQuery { address: address(4), thread_count: 32 }
    );
}

#[test]
fn stakers_stand_by_their_rolls() {
    assert_eq!(sorted(vec![]), vec![]);
    assert_eq!(
        sorted(stakers(&[(1, 30), (2, 10), (3, 20), (4, 0), (5, u64::MAX)])),
        stakers(&[(4, 0), (2, 10), (3, 20), (1, 30), (5, u64::MAX)])
    );
}

#[test]
fn stakers_with_equally_many_rolls_keep_their_order() {
    assert_eq!(
        sorted(stakers(&[(9, 2), (1, 1), (8, 2), (2, 1), (7, 2), (3, 1)])),
        stakers(&[(1, 1), (2, 1), (3, 1), (9, 2), (8, 2), (7, 2)])
    );
}

#[test]
fn sorted_stakers_stay() {
    let expected = stakers(&[(3, 1), (1, 1), (2, 5)]);
    assert_eq!(sorted(stakers(&[(3, 1), (1, 1), (2, 5)])), expected);
}

#[test]
fn many_stakers_are_kept() {
    let list: Vec<(Address, u64)> =
        (0..200u64).map(|i| (address(i as u8), (i * 37) % 50)).collect();
    let mut expected = list.clone();
    expected.sort_by_key(|(_, rolls)| *rolls);
    assert_eq!(sorted(list), expected);
}

#[test]
fn datastore_is_asked_entry_by_entry() {
    let entries = vec![
        DatastoreEntryInput { address: address(1), key: vec![1, 2] },
        DatastoreEntryInput { address: address(2), key: vec![] },
    ];
    assert_eq!(
        api(1).get_datastore_entries(entries),
        vec![(address(1), vec![1, 2]), (address(2), vec![])]
    );
}

#[test]
fn datastore_values_keep_their_place() {
    let values = vec![(Some(vec![1]), None), (None, Some(vec![2])), (None, None)];
    let output = |final_value, candidate_value| DatastoreEntryOutput { final_value, candidate_value };
    assert_eq!(
        api(1).datastore_entries(values),
        vec![output(Some(vec![1]), None), output(None, Some(vec![2])), output(None, None)]
    );
}

fn infos(addresses: Vec<(Address, u8)>, selections: Vec<&'static str>) -> Vec<AddressInfo<u64, &'static str>> {
    api(0).get_addresses(
        addresses,
        vec![Some(IdSet::from_vec(vec![BlockId([1; 32])])), None],
        vec![None, Some(IdSet::from_vec(vec![OperationId([2; 32])]))],
        vec![None, Some(IdSet::from_vec(vec![EndorsementId([3; 32]), EndorsementId([4; 32])]))],
        vec![(10, 11), (20, 21)],
        selections,
    )
}

#[test]
fn addresses_are_compiled_in_request_order() {
    let mut infos = infos(vec![(address(1), 5), (address(2), 6)], vec!["first", "second"]);
    assert_eq!(infos.len(), 2);
    let second = infos.pop().unwrap();
    let first = infos.pop().unwrap();
    assert_eq!(first.address, address(1));
    assert_eq!(first.thread, 5);
    assert_eq!((first.final_ledger_info, first.candidate_ledger_info), (10, 11));
    assert_eq!(first.cycle_info, "first");
    assert_eq!(first.created_blocks.into_vec(), vec![BlockId([1; 32])]);
    assert!(first.created_operations.into_vec().is_empty());
    assert!(first.created_endorsements.into_vec().is_empty());
    assert_eq!(second.address, address(2));
    assert_eq!(second.thread, 6);
    assert_eq!((second.final_ledger_info, second.candidate_ledger_info), (20, 21));
    assert_eq!(second.cycle_info, "second");
    assert!(second.created_blocks.into_vec().is_empty());
    assert_eq!(second.created_operations.into_vec(), vec![OperationId([2; 32])]);
    assert_eq!(second.created_endorsements.into_vec().len(), 2);
}

#[test]
fn addresses_without_a_reply_are_dropped() {
    let infos_of_one = infos(vec![(address(1), 5), (address(2), 6)], vec!["first"]);
    assert_eq!(infos_of_one.len(), 1);
    assert_eq!(infos_of_one[0].address, address(1));
    assert!(infos(vec![], vec!["first", "second"]).is_empty());
}
