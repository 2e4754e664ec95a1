use massa_api::api::{APISettings, ConsensusConfig, NetworkConfig, Public, API};
use massa_api::error::ApiError;
use massa_api::models::{IpAddr, MassaTime, NodeId, Slot, Version};
use massa_api::status::{NodeStatus, Peer, StatusQuery};
use massa_api::timeslots::{CycleQuery, LatestSlotQuery, NextSlotQuery};

type Api = API<Public<(), (), (), (), (), ()>>;

fn api(max_arguments: u64) -> Api {
    API::new(
        (),
        (),
        APISettings { max_arguments },
        (),
        ConsensusConfig {
            thread_count: 32,
            t0: MassaTime(16_000),
            genesis_timestamp: MassaTime(1_000),
            periods_per_cycle: 128,
        },
        (),
        NetworkConfig { routable_ip: Some(IpAddr::V4([10, 0, 0, 1])) },
        Version { instance: ['T', 'E', 'S', 'T'], major: 13, minor: 2 },
        (),
        0,
        NodeId([9; 32]),
        (),
    )
}

const LAST: Slot = Slot { period: 40, thread: 31 };
const NEXT: Slot = Slot { period: 41, thread: 0 };

fn peers() -> Vec<(IpAddr, Peer)> {
    vec![
        (
            IpAddr::V4([1, 1, 1, 1]),
            Peer { active_nodes: vec![(NodeId([1; 32]), true), (NodeId([2; 32]), false)] },
        ),
        (IpAddr::V4([2, 2, 2, 2]), Peer { active_nodes: vec![] }),
        (IpAddr::V6([3; 16]), Peer { active_nodes: vec![(NodeId([3; 32]), true)] }),
    ]
}

fn status_query(now: u64, last_slot: Option<Slot>) -> StatusQuery {
    let at = api(1).get_status(Ok(MassaTime(now))).ok().unwrap();
    at.with_latest_slot(Ok(last_slot)).ok().unwrap()
}

fn network(text: &str) -> ApiError {
    ApiError::NetworkError(text.to_string())
}

#[test]
fn status_compiles_what_the_services_say() {
    let query = status_query(123, Some(LAST));
    assert_eq!(query.next_slot_query(), NextSlotQuery { slot: LAST, thread_count: 32 });
    let report = query
        .report(Ok(peers()), Ok(NEXT), Ok("consensus"), Ok("network"), (4, 5), "config")
        .ok()
        .unwrap();
    assert_eq!(report.cycle_query(), CycleQuery { slot: LAST, periods_per_cycle: 128 });
    assert_eq!(
        report.complete(6),
        NodeStatus {
            node_id: NodeId([9; 32]),
            node_ip: Some(IpAddr::V4([10, 0, 0, 1])),
            version: Version { instance: ['T', 'E', 'S', 'T'], major: 13, minor: 2 },
            current_time: MassaTime(123),
            connected_nodes: vec![
                (NodeId([1; 32]), (IpAddr::V4([1, 1, 1, 1]), true)),
                (NodeId([2; 32]), (IpAddr::V4([1, 1, 1, 1]), false)),
                (NodeId([3; 32]), (IpAddr::V6([3; 16]), true)),
            ],
            last_slot: Some(LAST),
            next_slot: NEXT,
            consensus_stats: "consensus",
            pool_stats: (4, 5),
            network_stats: "network",
            config: "config",
            current_cycle: 6,
        }
    );
}

#[test]
fn before_the_first_slot_genesis_stands_for_the_present() {
    let genesis = Slot { period: 0, thread: 0 };
    assert_eq!(Slot::or_genesis(None), genesis);
    assert_eq!(Slot::or_genesis(Some(LAST)), LAST);
    let query = status_query(1, None);
    assert_eq!(query.next_slot_query(), NextSlotQuery { slot: genesis, thread_count: 32 });
    let report = query
        .report(Ok(vec![]), Ok(NEXT), Ok(()), Ok(()), (0, 0), ())
        .ok()
        .unwrap();
    assert_eq!(report.cycle_query(), CycleQuery { slot: genesis, periods_per_cycle: 128 });
    let status = report.complete(0);
    assert_eq!(status.last_slot, None);
    assert!(status.connected_nodes.is_empty());
}

/// The cycle of a slot, as a node may work it out.
fn cycle_of(query: CycleQuery) -> u64 {
    query.slot.period / query.periods_per_cycle
}

#[test]
fn stakers_are_those_of_the_cycle_in_the_status() {
    for (last_slot, cycle) in [
        (None, 0),
        (Some(LAST), 0),
        (Some(Slot { period: 127, thread: 31 }), 0),
        (Some(Slot { period: 128, thread: 0 }), 1),
        (Some(Slot { period: 1_000, thread: 7 }), 7),
    ] {
        let report = status_query(1, last_slot)
            .report(Ok(peers()), Ok(NEXT), Ok(()), Ok(()), (0, 0), ())
            .ok()
            .unwrap();
        let stakers = api(1).get_stakers(Ok(MassaTime(1))).ok().unwrap();
        let stakers = stakers.with_latest_slot(Ok(last_slot)).ok().unwrap();
        assert_eq!(stakers.cycle_query(), report.cycle_query());
        let staker_cycle = cycle_of(stakers.cycle_query());
        let rolls = stakers.in_cycle(staker_cycle);
        let status_cycle = cycle_of(report.cycle_query());
        let status = report.complete(status_cycle);
        assert_eq!(status.current_cycle, cycle);
        assert_eq!(rolls.cycle(), cycle);
    }
}

#[test]
fn status_and_stakers_ask_for_the_same_latest_slot() {
    let expected = LatestSlotQuery {
        thread_count: 32,
        t0: MassaTime(16_000),
        genesis_timestamp: MassaTime(1_000),
        now: MassaTime(77),
    };
    let status = api(1).get_status(Ok(MassaTime(77))).ok().unwrap();
    assert_eq!(status.latest_slot_query(), expected);
    let stakers = api(1).get_stakers(Ok(MassaTime(77))).ok().unwrap();
    assert_eq!(stakers.latest_slot_query(), expected);
}

#[test]
fn no_node_is_listed_twice() {
    let report = status_query(1, None)
        .report(Ok(peers()), Ok(NEXT), Ok(()), Ok(()), (0, 0), ())
        .ok()
        .unwrap();
    let ids: Vec<NodeId> =
        report.complete(0).connected_nodes.into_iter().map(|(id, _)| id).collect();
    assert_eq!(ids, vec![NodeId([1; 32]), NodeId([2; 32]), NodeId([3; 32])]);
}

#[test]
fn first_error_is_the_answer() {
    let clock = || ApiError::TimeError("clock".to_string());
    assert_eq!(api(1).get_status(Err(clock())).err(), Some(clock()));
    let latest = || ApiError::TimeError("latest".to_string());
    let at = api(1).get_status(Ok(MassaTime(1))).ok().unwrap();
    assert_eq!(at.with_latest_slot(Err(latest())).err(), Some(latest()));
    let query = || status_query(1, None);
    let slot = || -> Result<Slot, ApiError> { Err(ApiError::TimeError("slot".to_string())) };
    let consensus =
        || -> Result<(), ApiError> { Err(ApiError::ConsensusError("consensus".to_string())) };
    let answer = query().report(
        Err(network("peers")),
        slot(),
        consensus(),
        Err::<(), ApiError>(network("stats")),
        (0, 0),
        (),
    );
    assert_eq!(answer.err(), Some(network("peers")));
    let answer = query().report(
        Ok(peers()),
        slot(),
        consensus(),
        Err::<(), ApiError>(network("stats")),
        (0, 0),
        (),
    );
    assert_eq!(answer.err(), slot().err());
    let answer = query().report(
        Ok(peers()),
        Ok(NEXT),
        consensus(),
        Err::<(), ApiError>(network("stats")),
        (0, 0),
        (),
    );
    assert_eq!(answer.err(), consensus().err());
    let answer = query().report(
        Ok(peers()),
        Ok(NEXT),
        Ok(()),
        Err::<(), ApiError>(network("stats")),
        (0, 0),
        (),
    );
    assert_eq!(answer.err(), Some(network("stats")));
}
