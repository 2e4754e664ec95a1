use massa_api::api::{APISettings, ConsensusConfig, NetworkConfig, Public, API};
use massa_api::blocks::{
    BlockAtSlotStep, BlockGraphExport, BlockInfo, BlockInfoContent, BlockSummary, Clique,
    DiscardReason, ExportBlockStatus, ExportCompiledBlock,
};
use massa_api::error::ApiError;
use massa_api::id_set::IdSet;
use massa_api::models::{Address, BlockId, IpAddr, MassaTime, NodeId, Slot, Version};
use massa_api::timeslots::{SlotRangeQuery, TimeInterval};

type Api = API<Public<(), (), (), (), (), ()>>;

fn api(max_arguments: u64) -> Api {
    API::new(
        (),
        (),
        APISettings { max_arguments },
        (),
        ConsensusConfig {
            thread_count: 32,
            t0: MassaTime(16_000),
            genesis_timestamp: MassaTime(1_000),
            periods_per_cycle: 128,
        },
        (),
        NetworkConfig { routable_ip: Some(IpAddr::V4([10, 0, 0, 1])) },
        Version { instance: ['T', 'E', 'S', 'T'], major: 13, minor: 2 },
        (),
        0,
        NodeId([9; 32]),
        (),
    )
}

fn id(byte: u8) -> BlockId {
    BlockId([byte; 32])
}

fn clique(blocks: &[u8], is_blockclique: bool) -> Clique {
    Clique {
        block_ids: IdSet::from_vec(blocks.iter().map(|byte| id(*byte)).collect()),
        fitness: 1,
        is_blockclique,
    }
}

fn block_info(byte: u8, status: Option<ExportBlockStatus<&'static str>>) -> BlockInfo<&'static str> {
    let cliques = vec![clique(&[1, 2], false), clique(&[2, 3], true), clique(&[4], true)];
    api(1).get_block(id(byte), Ok(cliques)).ok().unwrap().answer(Ok(status)).unwrap()
}

#[test]
fn block_status_is_asked_for_the_requested_block() {
    let query = api(1).get_block(id(7), Ok(vec![clique(&[1], true)])).ok().unwrap();
    assert_eq!(query.id(), id(7));
}

#[test]
fn block_needs_a_blockclique() {
    let error = ApiError::InconsistencyError("Missing block clique".to_string());
    assert_eq!(api(1).get_block(id(1), Ok(vec![])).err(), Some(error));
    let error = ApiError::InconsistencyError("Missing block clique".to_string());
    let cliques = vec![clique(&[1], false), clique(&[2], false)];
    assert_eq!(api(1).get_block(id(1), Ok(cliques)).err(), Some(error));
}

#[test]
fn active_and_final_blocks_are_shown() {
    assert_eq!(
        block_info(3, Some(ExportBlockStatus::Active("block"))),
        BlockInfo {
            id: id(3),
            content: Some(BlockInfoContent {
                is_final: false,
                is_stale: false,
                is_in_blockclique: true,
                block: "block",
            }),
        }
    );
    assert_eq!(
        block_info(1, Some(ExportBlockStatus::Final("block"))).content,
        Some(BlockInfoContent {
            is_final: true,
            is_stale: false,
            is_in_blockclique: false,
            block: "block",
        })
    );
    let second_blockclique = block_info(4, Some(ExportBlockStatus::Active("block")));
    assert!(!second_blockclique.content.unwrap().is_in_blockclique);
}

#[test]
fn other_blocks_have_no_content() {
    let nothing = BlockInfo { id: id(2), content: None };
    assert_eq!(block_info(2, None), nothing);
    assert_eq!(block_info(2, Some(ExportBlockStatus::Incoming)), nothing);
    assert_eq!(block_info(2, Some(ExportBlockStatus::WaitingForSlot)), nothing);
    assert_eq!(block_info(2, Some(ExportBlockStatus::WaitingForDependencies)), nothing);
    let discarded = ExportBlockStatus::Discarded(DiscardReason::Stale);
    assert_eq!(block_info(2, Some(discarded)), nothing);
}

#[test]
fn block_at_slot_is_asked_for_only_if_there_is_one() {
    let api = api(1);
    assert_eq!(api.get_blockclique_block_by_slot(Ok(None)), Ok(BlockAtSlotStep::ReplyNone));
    assert_eq!(
        api.get_blockclique_block_by_slot(Ok(Some(id(5)))),
        Ok(BlockAtSlotStep::AskStatus(id(5)))
    );
}

#[test]
fn block_by_slot_is_the_block_by_id() {
    let statuses: Vec<fn() -> Option<ExportBlockStatus<&'static str>>> = vec![
        || None,
        || Some(ExportBlockStatus::Incoming),
        || Some(ExportBlockStatus::WaitingForSlot),
        || Some(ExportBlockStatus::WaitingForDependencies),
        || Some(ExportBlockStatus::Active("active")),
        || Some(ExportBlockStatus::Discarded(DiscardReason::Other("bad".to_string()))),
        || Some(ExportBlockStatus::Final("final")),
    ];
    let by_slot: Vec<Option<&'static str>> =
        statuses.iter().map(|status| api(1).blockclique_block(Ok(status())).unwrap()).collect();
    assert_eq!(by_slot, vec![None, None, None, None, Some("active"), None, Some("final")]);
    for (status, block) in statuses.iter().zip(by_slot) {
        assert_eq!(block_info(2, status()).content.map(|content| content.block), block);
    }
}

fn failure(text: &str) -> ApiError {
    ApiError::ConsensusError(text.to_string())
}

#[test]
fn block_is_answered_with_the_first_error() {
    assert_eq!(api(1).get_block(id(1), Err(failure("cliques"))).err(), Some(failure("cliques")));
    let query = api(1).get_block(id(1), Ok(vec![clique(&[1], true)])).ok().unwrap();
    assert_eq!(query.answer::<()>(Err(failure("status"))), Err(failure("status")));
}

#[test]
fn block_by_slot_is_answered_with_the_first_error() {
    let api = api(1);
    assert_eq!(api.get_blockclique_block_by_slot(Err(failure("slot"))), Err(failure("slot")));
    assert_eq!(api.blockclique_block::<()>(Err(failure("status"))), Err(failure("status")));
}

const TIME: TimeInterval = TimeInterval { start: Some(MassaTime(5)), end: None };

/// The answer when consensus exports `graph` for the range of time.
fn summarized(graph: Result<BlockGraphExport, ApiError>) -> Result<Vec<BlockSummary>, ApiError> {
    let slots = (Some(Slot { period: 1, thread: 2 }), None);
    api(1).get_graph_interval(TIME).in_slots(Ok(slots)).ok().unwrap().summarize(graph)
}

#[test]
fn graph_is_asked_for_in_the_slots_of_the_time() {
    let query = api(1).get_graph_interval(TIME);
    assert_eq!(
        query.slot_range_query(),
        SlotRangeQuery {
            thread_count: 32,
            t0: MassaTime(16_000),
            genesis_timestamp: MassaTime(1_000),
            start: Some(MassaTime(5)),
            end: None,
        }
    );
    let slots = (Some(Slot { period: 1, thread: 2 }), Some(Slot { period: 3, thread: 4 }));
    assert_eq!(query.in_slots(Ok(slots)).ok().unwrap().slots(), slots);
}

#[test]
fn graph_is_answered_with_the_first_error() {
    let time_error = || ApiError::TimeError("range".to_string());
    let query = api(1).get_graph_interval(TIME);
    assert_eq!(query.in_slots(Err(time_error())).err(), Some(time_error()));
    assert_eq!(summarized(Err(failure("graph"))), Err(failure("graph")));
}

#[test]
fn no_block_is_summarized_twice() {
    let graph = BlockGraphExport {
        active_blocks: vec![(id(1), compiled(1, true)), (id(2), compiled(2, false))],
        discarded_blocks: vec![
            discarded(3, DiscardReason::Stale),
            discarded(4, DiscardReason::Other("invalid".to_string())),
            discarded(5, DiscardReason::Stale),
        ],
        max_cliques: vec![clique(&[2], true)],
    };
    let ids: Vec<BlockId> =
        summarized(Ok(graph)).unwrap().into_iter().map(|summary| summary.id).collect();
    assert_eq!(ids, vec![id(1), id(2), id(3), id(5)]);
}

fn compiled(period: u64, is_final: bool) -> ExportCompiledBlock {
    ExportCompiledBlock {
        is_final,
        slot: Slot { period, thread: 0 },
        creator: Address([50; 32]),
        parents: vec![id(0)],
    }
}

fn discarded(byte: u8, reason: DiscardReason) -> (BlockId, (DiscardReason, (Slot, Address, Vec<BlockId>))) {
    (id(byte), (reason, (Slot { period: 9, thread: 1 }, Address([60; 32]), vec![])))
}

#[test]
fn graph_needs_a_blockclique() {
    let graph = BlockGraphExport {
        active_blocks: vec![],
        discarded_blocks: vec![],
        max_cliques: vec![clique(&[1], false)],
    };
    assert_eq!(
        summarized(Ok(graph)),
        Err(ApiError::InconsistencyError("missing blockclique".to_string()))
    );
}

#[test]
fn graph_shows_its_blocks_and_the_stale_ones() {
    let graph = BlockGraphExport {
        active_blocks: vec![(id(3), compiled(1, true)), (id(1), compiled(2, false))],
        discarded_blocks: vec![
            discarded(2, DiscardReason::Stale),
            discarded(6, DiscardReason::Other("invalid".to_string())),
            discarded(5, DiscardReason::Stale),
        ],
        max_cliques: vec![clique(&[2, 3], true)],
    };
    let summary = |byte, is_in_blockclique, is_stale, is_final, slot, creator, parents| BlockSummary {
        id: id(byte),
        is_in_blockclique,
        is_stale,
        is_final,
        slot,
        creator: Address([creator; 32]),
        parents,
    };
    let slot = |period, thread| Slot { period, thread };
    assert_eq!(
        summarized(Ok(graph)).unwrap(),
        vec![
            summary(3, true, false, true, slot(1, 0), 50, vec![id(0)]),
            summary(1, false, false, false, slot(2, 0), 50, vec![id(0)]),
            summary(2, false, true, false, slot(9, 1), 60, vec![]),
            summary(5, false, true, false, slot(9, 1), 60, vec![]),
        ]
    );
}

#[test]
fn block_and_summary_agree() {
    for is_final in [false, true] {
        let graph = BlockGraphExport {
            active_blocks: vec![(id(3), compiled(1, is_final))],
            discarded_blocks: vec![],
            max_cliques: vec![clique(&[2, 3], true)],
        };
        let summary = summarized(Ok(graph)).unwrap().remove(0);
        let status = if is_final {
            ExportBlockStatus::Final("block")
        } else {
            ExportBlockStatus::Active("block")
        };
        let content = block_info(3, Some(status)).content.unwrap();
        assert_eq!(content.is_final, summary.is_final);
        assert_eq!(content.is_stale, summary.is_stale);
        assert_eq!(content.is_in_blockclique, summary.is_in_blockclique);
    }
}
