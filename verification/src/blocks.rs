//! Blocks: `get_block`, `get_blockclique_block_by_slot` and
//! `get_graph_interval`.
//!
//! Consensus keeps a graph of blocks. A clique is a set of blocks of the graph
//! that are compatible with each other; one of the cliques is the blockclique,
//! on which the node builds.

use crate::api::{Public, API};
use crate::error::{error_view, value_view, ApiError, ApiErrorView};
use crate::id_set::IdSet;
use crate::models::{Address, BlockId, Slot};
use crate::sequences::lemma_filter_map_push;
use crate::timeslots::{SlotRangeQuery, TimeInterval};
use vstd::prelude::*;

verus! {

/// A clique of compatible blocks.
#[derive(Debug)]
pub struct Clique {
    /// The blocks of the clique.
    pub block_ids: IdSet<BlockId>,
    /// How good the clique is.
    pub fitness: u64,
    /// Whether the clique is the blockclique.
    pub is_blockclique: bool,
}

/// Why consensus discarded a block.
#[derive(PartialEq, Eq, Debug)]
pub enum DiscardReason {
    /// The block went stale: the graph went on without it.
    Stale,
    /// Another reason, in words.
    Other(String),
}

/// What consensus says of a block. `Block` is the type of a block's content.
#[derive(PartialEq, Eq, Debug)]
pub enum ExportBlockStatus<Block> {
    /// The block waits to be processed.
    Incoming,
    /// The block waits for its slot.
    WaitingForSlot,
    /// The block waits for blocks on which it depends.
    WaitingForDependencies,
    /// The block is in the graph and not final.
    Active(Block),
    /// The block was discarded.
    Discarded(DiscardReason),
    /// The block is in the graph for good.
    Final(Block),
}

/// What the node knows of a block in the graph.
#[derive(PartialEq, Eq, Debug)]
pub struct BlockInfoContent<Block> {
    pub is_final: bool,
    pub is_stale: bool,
    pub is_in_blockclique: bool,
    pub block: Block,
}

/// The answer to a request for a block: without content if the block is not in
/// the graph.
#[derive(PartialEq, Eq, Debug)]
pub struct BlockInfo<Block> {
    pub id: BlockId,
    pub content: Option<BlockInfoContent<Block>>,
}

/// A block in the graph as consensus exports it.
#[derive(PartialEq, Eq, Debug)]
pub struct ExportCompiledBlock {
    pub is_final: bool,
    pub slot: Slot,
    pub creator: Address,
    pub parents: Vec<BlockId>,
}

/// A part of the block graph as consensus exports it.
#[derive(Debug)]
pub struct BlockGraphExport {
    /// The blocks in the graph.
    pub active_blocks: Vec<(BlockId, ExportCompiledBlock)>,
    /// The blocks that were discarded: why, and their slot, creator and parents.
    pub discarded_blocks: Vec<(BlockId, (DiscardReason, (Slot, Address, Vec<BlockId>)))>,
    /// The cliques.
    pub max_cliques: Vec<Clique>,
}

/// What the node knows of a block of the graph, without its content.
#[derive(PartialEq, Eq, Debug)]
pub struct BlockSummary {
    pub id: BlockId,
    pub is_in_blockclique: bool,
    pub is_stale: bool,
    pub is_final: bool,
    pub slot: Slot,
    pub creator: Address,
    pub parents: Vec<BlockId>,
}

/// The blocks of the first clique that is said to be the blockclique.
pub open spec fn blockclique(cliques: Seq<Clique>) -> Option<Set<BlockId>>
    decreases cliques.len(),
{
    if cliques.len() == 0 {
        None
    } else if cliques[0].is_blockclique {
        Some(cliques[0].block_ids@)
    } else {
        blockclique(cliques.drop_first())
    }
}

/// Finds the blocks of the blockclique.
fn find_blockclique(cliques: Vec<Clique>) -> (found: Option<IdSet<BlockId>>)
    ensures
        match found {
            Some(block_ids) => blockclique(cliques@) == Some(block_ids@),
            None => blockclique(cliques@) is None,
        },
{
    assert(cliques@.skip(0) =~= cliques@);
    for clique in it: cliques
        invariant
            it.seq() == cliques@,
            blockclique(cliques@) == blockclique(cliques@.skip(it.index() as int)),
    {
        proof {
            let i = it.index() as int;
            assert(clique == cliques@.skip(i)[0]);
            assert(cliques@.skip(i).drop_first() =~= cliques@.skip(i + 1));
        }
        if clique.is_blockclique {
            return Some(clique.block_ids);
        }
    }
    None
}

/// The block that consensus says is in the graph, and whether it is final.
pub open spec fn block_in_graph<Block>(status: Option<ExportBlockStatus<Block>>) -> Option<
    (Block, bool),
> {
    match status {
        Some(ExportBlockStatus::Active(block)) => Some((block, false)),
        Some(ExportBlockStatus::Final(block)) => Some((block, true)),
        _ => None,
    }
}

/// The block that consensus says is in the graph, and whether it is final.
fn take_block<Block>(status: Option<ExportBlockStatus<Block>>) -> (taken: Option<(Block, bool)>)
    ensures
        taken == block_in_graph(status),
{
    match status {
        Some(ExportBlockStatus::Active(block)) => Some((block, false)),
        Some(ExportBlockStatus::Incoming) => None,
        Some(ExportBlockStatus::WaitingForSlot) => None,
        Some(ExportBlockStatus::WaitingForDependencies) => None,
        Some(ExportBlockStatus::Discarded(_)) => None,
        Some(ExportBlockStatus::Final(block)) => Some((block, true)),
        None => None,
    }
}

/// The answer to a request for block `id` when the blockclique holds the blocks
/// `clique` and consensus says `status` of the block.
pub open spec fn block_info<Block>(
    id: BlockId,
    clique: Set<BlockId>,
    status: Option<ExportBlockStatus<Block>>,
) -> BlockInfo<Block> {
    BlockInfo {
        id,
        content: match block_in_graph(status) {
            Some((block, is_final)) => Some(
                BlockInfoContent {
                    is_final,
                    is_stale: false,
                    is_in_blockclique: clique.contains(id),
                    block,
                },
            ),
            None => None,
        },
    }
}

/// A request for a block, for which consensus is to be asked the block's
/// status.
pub struct BlockQuery {
    id: BlockId,
    blockclique: IdSet<BlockId>,
}

/// A [`BlockQuery`] with the blocks of the blockclique as a set.
pub struct BlockQueryView {
    pub id: BlockId,
    pub blockclique: Set<BlockId>,
}

impl View for BlockQuery {
    type V = BlockQueryView;

    closed spec fn view(&self) -> BlockQueryView {
        BlockQueryView { id: self.id, blockclique: self.blockclique@ }
    }
}

/// A request for block `id` with the cliques that consensus knows, or the error
/// that answers it.
pub open spec fn block_query(id: BlockId, cliques: Result<Vec<Clique>, ApiError>) -> Result<
    BlockQueryView,
    ApiErrorView,
> {
    match cliques {
        Err(error) => Err(error@),
        Ok(cliques) => match blockclique(cliques@) {
            Some(blockclique) => Ok(BlockQueryView { id, blockclique }),
            None => Err(ApiErrorView::InconsistencyError("Missing block clique"@)),
        },
    }
}

impl BlockQueryView {
    /// The answer when consensus says `status` of the block.
    pub open spec fn answer<Block>(
        self,
        status: Result<Option<ExportBlockStatus<Block>>, ApiError>,
    ) -> Result<BlockInfo<Block>, ApiError> {
        match status {
            Ok(status) => Ok(block_info(self.id, self.blockclique, status)),
            Err(error) => Err(error),
        }
    }
}

impl BlockQuery {
    /// The block for whose status consensus is to be asked.
    pub fn id(&self) -> (id: BlockId)
        ensures
            id == self@.id,
    {
        self.id
    }

    /// Compiles the answer from the status of the block, unless consensus
    /// failed; `None` means that consensus does not know the block.
    pub fn answer<Block>(
        self,
        status: Result<Option<ExportBlockStatus<Block>>, ApiError>,
    ) -> (info: Result<BlockInfo<Block>, ApiError>)
        ensures
            info == self@.answer(status),
    {
        let status = match status {
            Ok(status) => status,
            Err(error) => {
                return Err(error);
            },
        };
        match take_block(status) {
            Some((block, is_final)) => Ok(
                BlockInfo {
                    id: self.id,
                    content: Some(
                        BlockInfoContent {
                            is_final,
                            is_stale: false,
                            is_in_blockclique: self.blockclique.contains(&self.id),
                            block,
                        },
                    ),
                },
            ),
            None => Ok(BlockInfo { id: self.id, content: None }),
        }
    }
}

/// What to do next for a request for the blockclique's block at a slot.
#[derive(PartialEq, Eq, Debug)]
pub enum BlockAtSlotStep {
    /// Ask consensus for the status of the block.
    AskStatus(BlockId),
    /// Answer that there is no such block.
    ReplyNone,
}

/// What to do for a request for the blockclique's block at a slot when consensus
/// names `block_id` for the slot.
pub open spec fn block_at_slot_step(block_id: Result<Option<BlockId>, ApiError>) -> Result<
    BlockAtSlotStep,
    ApiError,
> {
    match block_id {
        Err(error) => Err(error),
        Ok(Some(id)) => Ok(BlockAtSlotStep::AskStatus(id)),
        Ok(None) => Ok(BlockAtSlotStep::ReplyNone),
    }
}

/// The block that answers a request for the blockclique's block at a slot when
/// consensus says `status` of the block that it names.
pub open spec fn block_at_slot<Block>(
    status: Result<Option<ExportBlockStatus<Block>>, ApiError>,
) -> Result<Option<Block>, ApiError> {
    match status {
        Err(error) => Err(error),
        Ok(status) => match block_in_graph(status) {
            Some((block, is_final)) => Ok(Some(block)),
            None => Ok(None),
        },
    }
}

/// The summary of a block in the graph, when the blockclique holds the blocks
/// `clique`.
pub open spec fn active_summary(
    clique: Set<BlockId>,
    entry: (BlockId, ExportCompiledBlock),
) -> BlockSummary {
    BlockSummary {
        id: entry.0,
        is_in_blockclique: clique.contains(entry.0),
        is_stale: false,
        is_final: entry.1.is_final,
        slot: entry.1.slot,
        creator: entry.1.creator,
        parents: entry.1.parents,
    }
}

/// Whether a discarded block is stale.
pub open spec fn is_stale(
    entry: (BlockId, (DiscardReason, (Slot, Address, Vec<BlockId>))),
) -> bool {
    entry.1.0 is Stale
}

/// The summary of a stale block.
pub open spec fn stale_summary(
    entry: (BlockId, (DiscardReason, (Slot, Address, Vec<BlockId>))),
) -> BlockSummary {
    BlockSummary {
        id: entry.0,
        is_in_blockclique: false,
        is_stale: true,
        is_final: false,
        slot: entry.1.1.0,
        creator: entry.1.1.1,
        parents: entry.1.1.2,
    }
}

/// The summaries of the blocks in the graph.
pub open spec fn active_summaries(
    clique: Set<BlockId>,
    entries: Seq<(BlockId, ExportCompiledBlock)>,
) -> Seq<BlockSummary> {
    entries.map_values(|entry: (BlockId, ExportCompiledBlock)| active_summary(clique, entry))
}

/// The summaries of the stale blocks among those that were discarded.
pub open spec fn stale_summaries(
    entries: Seq<(BlockId, (DiscardReason, (Slot, Address, Vec<BlockId>)))>,
) -> Seq<BlockSummary> {
    entries.filter(
        |entry: (BlockId, (DiscardReason, (Slot, Address, Vec<BlockId>)))| is_stale(entry),
    ).map_values(
        |entry: (BlockId, (DiscardReason, (Slot, Address, Vec<BlockId>)))| stale_summary(entry),
    )
}

/// The summaries of a part of the graph: of every block in it, then of every
/// stale one.
pub open spec fn graph_summaries(
    clique: Set<BlockId>,
    active_blocks: Seq<(BlockId, ExportCompiledBlock)>,
    discarded_blocks: Seq<(BlockId, (DiscardReason, (Slot, Address, Vec<BlockId>)))>,
) -> Seq<BlockSummary> {
    active_summaries(clique, active_blocks) + stale_summaries(discarded_blocks)
}

/// What a request for a part of the graph is answered when consensus exports
/// `graph`.
pub open spec fn graph_part_summaries(graph: Result<BlockGraphExport, ApiError>) -> Result<
    Seq<BlockSummary>,
    ApiErrorView,
> {
    match graph {
        Err(error) => Err(error@),
        Ok(graph) => match blockclique(graph.max_cliques@) {
            Some(clique) => Ok(
                graph_summaries(clique, graph.active_blocks@, graph.discarded_blocks@),
            ),
            None => Err(ApiErrorView::InconsistencyError("missing blockclique"@)),
        },
    }
}

/// A request for the blocks of a range of time, for which the slots that the
/// range covers are to be worked out.
pub struct GraphQuery {
    range: SlotRangeQuery,
}

/// A request for the blocks of a range of slots, for which consensus is to be
/// asked that part of the graph.
pub struct GraphPartQuery {
    slots: (Option<Slot>, Option<Slot>),
}

impl View for GraphQuery {
    type V = SlotRangeQuery;

    closed spec fn view(&self) -> SlotRangeQuery {
        self.range
    }
}

impl View for GraphPartQuery {
    type V = (Option<Slot>, Option<Slot>);

    closed spec fn view(&self) -> (Option<Slot>, Option<Slot>) {
        self.slots
    }
}

impl GraphQuery {
    /// The question which slots the range of time covers.
    pub fn slot_range_query(&self) -> (query: SlotRangeQuery)
        ensures
            query == self@,
    {
        self.range
    }

    /// Goes on with the slots from the first to the last, unless working them
    /// out failed.
    pub fn in_slots(
        self,
        slots: Result<(Option<Slot>, Option<Slot>), ApiError>,
    ) -> (query: Result<GraphPartQuery, ApiError>)
        ensures
            value_view(query) == slots,
    {
        match slots {
            Ok(slots) => Ok(GraphPartQuery { slots }),
            Err(error) => Err(error),
        }
    }
}

impl GraphPartQuery {
    /// The first and the last slot of the part of the graph for which consensus
    /// is to be asked.
    pub fn slots(&self) -> (slots: (Option<Slot>, Option<Slot>))
        ensures
            slots == self@,
    {
        self.slots
    }

    /// Summarizes the part of the graph, unless consensus failed. Which part it
    /// is, consensus has decided: nothing of it is left out here but blocks that
    /// were discarded for another reason than being stale.
    pub fn summarize(self, graph: Result<BlockGraphExport, ApiError>) -> (answer: Result<
        Vec<BlockSummary>,
        ApiError,
    >)
        ensures
            error_view(value_view(answer)) == graph_part_summaries(graph),
            graph matches Err(error) ==> answer == Err::<Vec<BlockSummary>, ApiError>(error),
    {
        let graph = match graph {
            Ok(graph) => graph,
            Err(error) => {
                return Err(error);
            },
        };
        let active_blocks = graph.active_blocks;
        let discarded_blocks = graph.discarded_blocks;
        let mut summaries: Vec<BlockSummary> = Vec::with_capacity(active_blocks.len());
        let blockclique = match find_blockclique(graph.max_cliques) {
            Some(blockclique) => blockclique,
            None => {
                return Err(ApiError::InconsistencyError("missing blockclique".to_string()));
            },
        };
        for entry in it: active_blocks
            invariant
                it.seq() == active_blocks@,
                summaries@ =~= active_summaries(blockclique@, active_blocks@).take(
                    it.index() as int,
                ),
        {
            let (id, exported_block) = entry;
            summaries.push(
                BlockSummary {
                    id,
                    is_final: exported_block.is_final,
                    is_stale: false,
                    is_in_blockclique: blockclique.contains(&id),
                    slot: exported_block.slot,
                    creator: exported_block.creator,
                    parents: exported_block.parents,
                },
            );
        }
        let ghost active = active_summaries(blockclique@, active_blocks@);
        assert(summaries@ =~= active);
        assert(stale_summaries(discarded_blocks@.take(0)) =~= Seq::empty()) by {
            reveal(Seq::filter);
        }
        for entry in it: discarded_blocks
            invariant
                it.seq() == discarded_blocks@,
                summaries@ =~= active + stale_summaries(
                    discarded_blocks@.take(it.index() as int),
                ),
        {
            proof {
                let i = it.index() as int;
                lemma_filter_map_push(
                    discarded_blocks@.take(i),
                    entry,
                    |entry: (BlockId, (DiscardReason, (Slot, Address, Vec<BlockId>)))|
                        is_stale(entry),
                    |entry: (BlockId, (DiscardReason, (Slot, Address, Vec<BlockId>)))|
                        stale_summary(entry),
                );
                assert(discarded_blocks@.take(i).push(entry) =~= discarded_blocks@.take(i + 1));
            }
            let (id, (reason, (slot, creator, parents))) = entry;
            if let DiscardReason::Stale = reason {
                summaries.push(
                    BlockSummary {
                        id,
                        is_final: false,
                        is_stale: true,
                        is_in_blockclique: false,
                        slot,
                        creator,
                        parents,
                    },
                );
            }
        }
        assert(discarded_blocks@.take(discarded_blocks@.len() as int) =~= discarded_blocks@);
        Ok(summaries)
    }
}

impl<Consensus, Execution, Selector, Pool, Network, Storage> API<
    Public<Consensus, Execution, Selector, Pool, Network, Storage>,
> {
    /// Begins a request for a block with the cliques that consensus knows, unless
    /// consensus failed or knows no blockclique.
    pub fn get_block(
        &self,
        id: BlockId,
        cliques: Result<Vec<Clique>, ApiError>,
    ) -> (begun: Result<BlockQuery, ApiError>)
        ensures
            error_view(value_view(begun)) == block_query(id, cliques),
            cliques matches Err(error) ==> begun == Err::<BlockQuery, ApiError>(error),
    {
        let cliques = match cliques {
            Ok(cliques) => cliques,
            Err(error) => {
                return Err(error);
            },
        };
        match find_blockclique(cliques) {
            Some(blockclique) => Ok(BlockQuery { id, blockclique }),
            None => Err(ApiError::InconsistencyError("Missing block clique".to_string())),
        }
    }

    /// Begins a request for the blockclique's block at a slot, with the block
    /// that consensus names for the slot, unless consensus failed.
    pub fn get_blockclique_block_by_slot(
        &self,
        block_id: Result<Option<BlockId>, ApiError>,
    ) -> (step: Result<BlockAtSlotStep, ApiError>)
        ensures
            step == block_at_slot_step(block_id),
    {
        match block_id {
            Err(error) => Err(error),
            Ok(Some(id)) => Ok(BlockAtSlotStep::AskStatus(id)),
            Ok(None) => Ok(BlockAtSlotStep::ReplyNone),
        }
    }

    /// The block that answers a request for the blockclique's block at a slot,
    /// given the status of the block that consensus names, unless consensus
    /// failed.
    pub fn blockclique_block<Block>(
        &self,
        status: Result<Option<ExportBlockStatus<Block>>, ApiError>,
    ) -> (answer: Result<Option<Block>, ApiError>)
        ensures
            answer == block_at_slot(status),
    {
        let status = match status {
            Ok(status) => status,
            Err(error) => {
                return Err(error);
            },
        };
        match take_block(status) {
            Some((block, _)) => Ok(Some(block)),
            None => Ok(None),
        }
    }

    /// Begins a request for the blocks of a range of time.
    pub fn get_graph_interval(&self, time: TimeInterval) -> (query: GraphQuery)
        ensures
            query@ == SlotRangeQuery::spec_in(self.0.consensus_config, time),
    {
        let config = self.0.consensus_config;
        GraphQuery {
            range: SlotRangeQuery {
                thread_count: config.thread_count,
                t0: config.t0,
                genesis_timestamp: config.genesis_timestamp,
                start: time.start,
                end: time.end,
            },
        }
    }
}

/// What a request for block `id` is answered in the end, when consensus knows
/// the cliques `cliques` and says of each block what `status_of` says.
pub open spec fn block_answer<Block>(
    id: BlockId,
    cliques: Result<Vec<Clique>, ApiError>,
    status_of: spec_fn(BlockId) -> Result<Option<ExportBlockStatus<Block>>, ApiError>,
) -> Result<BlockInfo<Block>, ApiErrorView> {
    match block_query(id, cliques) {
        Err(error) => Err(error),
        Ok(query) => error_view(query.answer(status_of(query.id))),
    }
}

/// What a request for the blockclique's block at a slot is answered in the end,
/// when consensus names `block_id` for the slot and says of each block what
/// `status_of` says.
pub open spec fn block_by_slot_answer<Block>(
    block_id: Result<Option<BlockId>, ApiError>,
    status_of: spec_fn(BlockId) -> Result<Option<ExportBlockStatus<Block>>, ApiError>,
) -> Result<Option<Block>, ApiError> {
    match block_at_slot_step(block_id) {
        Err(error) => Err(error),
        Ok(BlockAtSlotStep::ReplyNone) => Ok(None),
        Ok(BlockAtSlotStep::AskStatus(id)) => block_at_slot(status_of(id)),
    }
}

/// What a request for the blocks of a range of time is answered in the end, when
/// the node works out ranges of slots as `slots_of` says and consensus exports
/// for each of them what `graph_of` says.
pub open spec fn graph_answer<Consensus, Execution, Selector, Pool, Network, Storage>(
    api: API<Public<Consensus, Execution, Selector, Pool, Network, Storage>>,
    time: TimeInterval,
    slots_of: spec_fn(SlotRangeQuery) -> Result<(Option<Slot>, Option<Slot>), ApiError>,
    graph_of: spec_fn((Option<Slot>, Option<Slot>)) -> Result<BlockGraphExport, ApiError>,
) -> Result<Seq<BlockSummary>, ApiErrorView> {
    match slots_of(SlotRangeQuery::spec_in(api.0.consensus_config, time)) {
        Err(error) => Err(error@),
        Ok(slots) => graph_part_summaries(graph_of(slots)),
    }
}

/// A request for a block is answered with the first of these errors: that of the
/// cliques, that there is no blockclique, that of the block's status. Where there
/// is none, the answer is about the block that was requested.
pub proof fn law_first_error_answers_the_block<Block>(
    id: BlockId,
    cliques: Result<Vec<Clique>, ApiError>,
    status_of: spec_fn(BlockId) -> Result<Option<ExportBlockStatus<Block>>, ApiError>,
)
    ensures
        block_answer(id, cliques, status_of) == match (
            cliques,
            blockclique(cliques->Ok_0@),
            status_of(id),
        ) {
            (Err(error), _, _) => Err(error@),
            (_, None, _) => Err(ApiErrorView::InconsistencyError("Missing block clique"@)),
            (_, _, Err(error)) => Err(error@),
            (Ok(_), Some(clique), Ok(status)) => Ok(block_info(id, clique, status)),
        },
{
}

/// A request for the blockclique's block at a slot is answered with the error of
/// the block's name or, only if a block is named, with that of its status. Where
/// there is none, the answer is the block that is named, if it is in the graph.
pub proof fn law_first_error_answers_the_block_by_slot<Block>(
    block_id: Result<Option<BlockId>, ApiError>,
    status_of: spec_fn(BlockId) -> Result<Option<ExportBlockStatus<Block>>, ApiError>,
)
    ensures
        block_by_slot_answer(block_id, status_of) == match block_id {
            Err(error) => Err(error),
            Ok(None) => Ok(None),
            Ok(Some(id)) => match status_of(id) {
                Err(error) => Err(error),
                Ok(Some(ExportBlockStatus::Active(block))) => Ok(Some(block)),
                Ok(Some(ExportBlockStatus::Final(block))) => Ok(Some(block)),
                Ok(_) => Ok(None),
            },
        },
{
}

/// A request for the blocks of a range of time is answered with the first of
/// these errors: that of the range of slots, that of the part of the graph, that
/// there is no blockclique in it. Where there is none, the answer summarizes all
/// of the part of the graph that consensus exports for that range of slots.
pub proof fn law_first_error_answers_the_graph_interval<
    Consensus,
    Execution,
    Selector,
    Pool,
    Network,
    Storage,
>(
    api: API<Public<Consensus, Execution, Selector, Pool, Network, Storage>>,
    time: TimeInterval,
    slots_of: spec_fn(SlotRangeQuery) -> Result<(Option<Slot>, Option<Slot>), ApiError>,
    graph_of: spec_fn((Option<Slot>, Option<Slot>)) -> Result<BlockGraphExport, ApiError>,
)
    ensures
        ({
            let slots = slots_of(SlotRangeQuery::spec_in(api.0.consensus_config, time));
            let graph = graph_of(slots->Ok_0);
            let clique = blockclique(graph->Ok_0.max_cliques@);
            graph_answer(api, time, slots_of, graph_of) == match (slots, graph, clique) {
                (Err(error), _, _) => Err(error@),
                (_, Err(error), _) => Err(error@),
                (_, _, None) => Err(ApiErrorView::InconsistencyError("missing blockclique"@)),
                (Ok(_), Ok(graph), Some(clique)) => Ok(
                    graph_summaries(clique, graph.active_blocks@, graph.discarded_blocks@),
                ),
            }
        }),
{
}

/// A block is shown exactly when it is in the graph, final or not. What waits,
/// was discarded or is not known has no content; what is shown is not stale.
pub proof fn law_only_blocks_in_the_graph_are_shown<Block>(
    id: BlockId,
    clique: Set<BlockId>,
    status: Option<ExportBlockStatus<Block>>,
)
    ensures
        block_info(id, clique, status).id == id,
        block_info(id, clique, status).content is Some <==> (status matches Some(known) && (
        known is Active || known is Final)),
        block_info(id, clique, status).content matches Some(content) ==> !content.is_stale,
{
}

/// A request by identifier and a request by slot for which consensus names the
/// same block show the same block, or both show none, where neither fails.
pub proof fn law_same_block_by_id_and_by_slot<Block>(
    id: BlockId,
    cliques: Result<Vec<Clique>, ApiError>,
    status_of: spec_fn(BlockId) -> Result<Option<ExportBlockStatus<Block>>, ApiError>,
)
    requires
        block_answer(id, cliques, status_of) is Ok,
    ensures
        block_by_slot_answer(Ok(Some(id)), status_of) == Ok::<Option<Block>, ApiError>(
            match block_answer(id, cliques, status_of)->Ok_0.content {
                Some(content) => Some(content.block),
                None => None,
            },
        ),
{
}

/// The request for a block and the summary of the graph agree on whether a
/// block is final, stale and in the blockclique, where consensus tells both the
/// same.
pub proof fn law_block_and_summary_agree<Block>(
    clique: Set<BlockId>,
    entry: (BlockId, ExportCompiledBlock),
    status: Option<ExportBlockStatus<Block>>,
)
    requires
        block_in_graph(status) matches Some((block, is_final)) && is_final == entry.1.is_final,
    ensures
        ({
            let summary = active_summary(clique, entry);
            let content = block_info(entry.0, clique, status).content->0;
            &&& content.is_final == summary.is_final
            &&& content.is_stale == summary.is_stale
            &&& content.is_in_blockclique == summary.is_in_blockclique
        }),
{
}

/// The summary of a graph holds every block of the graph, and each stale one,
/// once for each time that consensus exports it: first the former, then the
/// latter. A stale block is neither final nor in the blockclique.
pub proof fn law_summaries_of_the_graph(
    clique: Set<BlockId>,
    active_blocks: Seq<(BlockId, ExportCompiledBlock)>,
    discarded_blocks: Seq<(BlockId, (DiscardReason, (Slot, Address, Vec<BlockId>)))>,
)
    ensures
        ({
            let summaries = graph_summaries(clique, active_blocks, discarded_blocks);
            let stale = discarded_blocks.filter(
                |entry: (BlockId, (DiscardReason, (Slot, Address, Vec<BlockId>)))| is_stale(entry),
            );
            &&& summaries.len() == active_blocks.len() + stale.len()
            &&& forall|i: int|
                0 <= i < active_blocks.len() ==> {
                    &&& (#[trigger] summaries[i]).id == active_blocks[i].0
                    &&& !summaries[i].is_stale
                }
            &&& forall|i: int|
                active_blocks.len() <= i < summaries.len() ==> {
                    &&& (#[trigger] summaries[i]).id == stale[i - active_blocks.len()].0
                    &&& summaries[i].is_stale
                    &&& !summaries[i].is_final
                    &&& !summaries[i].is_in_blockclique
                }
        }),
{
}

/// The identifiers of the blocks that are summarized.
pub open spec fn ids_of_summaries(summaries: Seq<BlockSummary>) -> Seq<BlockId> {
    summaries.map_values(|summary: BlockSummary| summary.id)
}

/// The identifiers of the blocks that consensus exports: those of the blocks in
/// the graph, then those of the discarded ones.
pub open spec fn exported_ids(
    active_blocks: Seq<(BlockId, ExportCompiledBlock)>,
    discarded_blocks: Seq<(BlockId, (DiscardReason, (Slot, Address, Vec<BlockId>)))>,
) -> Seq<BlockId> {
    active_blocks.map_values(|entry: (BlockId, ExportCompiledBlock)| entry.0)
        + discarded_blocks.map_values(
        |entry: (BlockId, (DiscardReason, (Slot, Address, Vec<BlockId>)))| entry.0,
    )
}

/// Where discarded blocks have identifiers of their own, so have the stale ones
/// among them.
proof fn lemma_stale_ids(
    discarded_blocks: Seq<(BlockId, (DiscardReason, (Slot, Address, Vec<BlockId>)))>,
)
    requires
        discarded_blocks.map_values(
            |entry: (BlockId, (DiscardReason, (Slot, Address, Vec<BlockId>)))| entry.0,
        ).no_duplicates(),
    ensures
        ids_of_summaries(stale_summaries(discarded_blocks)).no_duplicates(),
        forall|id: BlockId| #[trigger]
            ids_of_summaries(stale_summaries(discarded_blocks)).contains(id)
                ==> discarded_blocks.map_values(
                |entry: (BlockId, (DiscardReason, (Slot, Address, Vec<BlockId>)))| entry.0,
            ).contains(id),
    decreases discarded_blocks.len(),
{
    let id_of = |entry: (BlockId, (DiscardReason, (Slot, Address, Vec<BlockId>)))| entry.0;
    let ids = discarded_blocks.map_values(id_of);
    let stale_ids = ids_of_summaries(stale_summaries(discarded_blocks));
    if discarded_blocks.len() == 0 {
        reveal(Seq::filter);
    } else {
        let before = discarded_blocks.drop_last();
        let last = discarded_blocks.last();
        let ids_before = before.map_values(id_of);
        let stale_before = ids_of_summaries(stale_summaries(before));
        assert(ids =~= ids_before.push(last.0));
        assert forall|i: int, j: int|
            0 <= i < ids_before.len() && 0 <= j < ids_before.len() && i
                != j implies ids_before[i] != ids_before[j] by {
            assert(ids[i] != ids[j]);
        }
        lemma_stale_ids(before);
        lemma_filter_map_push(
            before,
            last,
            |entry: (BlockId, (DiscardReason, (Slot, Address, Vec<BlockId>)))| is_stale(entry),
            |entry: (BlockId, (DiscardReason, (Slot, Address, Vec<BlockId>)))|
                stale_summary(entry),
        );
        assert(before.push(last) =~= discarded_blocks);
        assert(!ids_before.contains(last.0)) by {
            if ids_before.contains(last.0) {
                let i = choose|i: int| 0 <= i < ids_before.len() && ids_before[i] == last.0;
                assert(ids[i] != ids[ids.len() - 1]);
            }
        }
        if is_stale(last) {
            assert(stale_ids =~= stale_before.push(last.0));
            assert(!stale_before.contains(last.0));
        } else {
            assert(stale_ids =~= stale_before);
        }
        assert forall|id: BlockId| #[trigger] stale_ids.contains(id) implies ids.contains(id) by {
            if stale_before.contains(id) {
                let i = choose|i: int| 0 <= i < ids_before.len() && ids_before[i] == id;
                assert(ids[i] == id);
            } else {
                assert(ids[ids.len() - 1] == last.0);
            }
        }
    }
}

/// Where consensus exports each block once, the summary of the graph names no
/// block twice.
pub proof fn law_no_block_is_summarized_twice(
    clique: Set<BlockId>,
    active_blocks: Seq<(BlockId, ExportCompiledBlock)>,
    discarded_blocks: Seq<(BlockId, (DiscardReason, (Slot, Address, Vec<BlockId>)))>,
)
    requires
        exported_ids(active_blocks, discarded_blocks).no_duplicates(),
    ensures
        ids_of_summaries(
            graph_summaries(clique, active_blocks, discarded_blocks),
        ).no_duplicates(),
{
    let exported = exported_ids(active_blocks, discarded_blocks);
    let active_ids = active_blocks.map_values(|entry: (BlockId, ExportCompiledBlock)| entry.0);
    let discarded_ids = discarded_blocks.map_values(
        |entry: (BlockId, (DiscardReason, (Slot, Address, Vec<BlockId>)))| entry.0,
    );
    let stale_ids = ids_of_summaries(stale_summaries(discarded_blocks));
    let split = active_ids.len() as int;
    assert forall|i: int, j: int|
        0 <= i < discarded_ids.len() && 0 <= j < discarded_ids.len() && i
            != j implies discarded_ids[i] != discarded_ids[j] by {
        assert(exported[split + i] != exported[split + j]);
    }
    lemma_stale_ids(discarded_blocks);
    let ids = ids_of_summaries(graph_summaries(clique, active_blocks, discarded_blocks));
    assert(ids =~= active_ids + stale_ids);
    assert forall|i: int, j: int| 0 <= i < split && 0 <= j < stale_ids.len() implies active_ids[i]
        != stale_ids[j] by {
        assert(stale_ids.contains(stale_ids[j]));
        let k = choose|k: int|
            0 <= k < discarded_ids.len() && discarded_ids[k] == stale_ids[j];
        assert(exported[i] != exported[split + k]);
    }
    assert forall|i: int, j: int| 0 <= i < ids.len() && 0 <= j < ids.len() && i != j implies ids[i]
        != ids[j] by {
        if i < split && j < split {
            assert(exported[i] != exported[j]);
        }
    }
}

/// The blockclique is the first clique that is said to be it.
proof fn lemma_first_blockclique(cliques: Seq<Clique>, first: int)
    requires
        0 <= first < cliques.len(),
        cliques[first].is_blockclique,
        forall|i: int| 0 <= i < first ==> !(#[trigger] cliques[i]).is_blockclique,
    ensures
        blockclique(cliques) == Some(cliques[first].block_ids@),
    decreases first,
{
    if first > 0 {
        lemma_first_blockclique(cliques.drop_first(), first - 1);
    }
}

/// Where no clique is said to be the blockclique, there is none.
proof fn lemma_no_blockclique(cliques: Seq<Clique>)
    requires
        forall|i: int| 0 <= i < cliques.len() ==> !(#[trigger] cliques[i]).is_blockclique,
    ensures
        blockclique(cliques) is None,
    decreases cliques.len(),
{
    if cliques.len() > 0 {
        lemma_no_blockclique(cliques.drop_first());
    }
}

/// Where there is a blockclique, some clique is said to be it, and it is the
/// first one of those.
proof fn lemma_some_blockclique(cliques: Seq<Clique>) -> (first: int)
    requires
        exists|i: int| 0 <= i < cliques.len() && (#[trigger] cliques[i]).is_blockclique,
    ensures
        0 <= first < cliques.len(),
        cliques[first].is_blockclique,
        forall|i: int| 0 <= i < first ==> !(#[trigger] cliques[i]).is_blockclique,
    decreases cliques.len(),
{
    if cliques[0].is_blockclique {
        0
    } else {
        let rest = cliques.drop_first();
        let i = choose|i: int| 0 <= i < cliques.len() && (#[trigger] cliques[i]).is_blockclique;
        assert(rest[i - 1].is_blockclique);
        let first = lemma_some_blockclique(rest) + 1;
        assert forall|j: int| 0 <= j < first implies !(#[trigger] cliques[j]).is_blockclique by {
            if j > 0 {
                assert(!rest[j - 1].is_blockclique);
            }
        }
        first
    }
}

/// A request for a block goes on exactly if consensus tells the cliques and one
/// of them is said to be the blockclique. An error of consensus is handed on.
pub proof fn law_block_needs_a_blockclique<
    Consensus,
    Execution,
    Selector,
    Pool,
    Network,
    Storage,
>(
    api: API<Public<Consensus, Execution, Selector, Pool, Network, Storage>>,
    id: BlockId,
    cliques: Result<Vec<Clique>, ApiError>,
    begun: Result<BlockQuery, ApiError>,
)
    requires
        call_ensures(
            API::<Public<Consensus, Execution, Selector, Pool, Network, Storage>>::get_block,
            (&api, id, cliques),
            begun,
        ),
    ensures
        match cliques {
            Err(error) => begun == Err::<BlockQuery, ApiError>(error),
            Ok(cliques) => {
                &&& begun is Ok <==> exists|i: int|
                    0 <= i < cliques@.len() && (#[trigger] cliques@[i]).is_blockclique
                &&& begun matches Err(error) ==> (error matches ApiError::InconsistencyError(text)
                    && text@ == "Missing block clique"@)
            },
        },
{
    if let Ok(cliques) = cliques {
        if exists|i: int| 0 <= i < cliques@.len() && (#[trigger] cliques@[i]).is_blockclique {
            let first = lemma_some_blockclique(cliques@);
            lemma_first_blockclique(cliques@, first);
        } else {
            lemma_no_blockclique(cliques@);
        }
    }
}

/// Consensus is asked for the status of the block that the client requests, and
/// the answer is about that block. A block in the graph is shown as it is, final
/// exactly if consensus says so, never stale, and in the blockclique exactly if
/// the first clique that is said to be the blockclique holds it. Nothing else is
/// shown.
pub proof fn law_block_is_told_as_it_is_known<
    Consensus,
    Execution,
    Selector,
    Pool,
    Network,
    Storage,
    Block,
>(
    api: API<Public<Consensus, Execution, Selector, Pool, Network, Storage>>,
    id: BlockId,
    cliques: Vec<Clique>,
    first: int,
    query: BlockQuery,
    asked: BlockId,
    status: Result<Option<ExportBlockStatus<Block>>, ApiError>,
    answer: Result<BlockInfo<Block>, ApiError>,
)
    requires
        0 <= first < cliques@.len(),
        cliques@[first].is_blockclique,
        forall|i: int| 0 <= i < first ==> !(#[trigger] cliques@[i]).is_blockclique,
        call_ensures(
            API::<Public<Consensus, Execution, Selector, Pool, Network, Storage>>::get_block,
            (&api, id, Ok::<Vec<Clique>, ApiError>(cliques)),
            Ok::<BlockQuery, ApiError>(query),
        ),
        call_ensures(BlockQuery::id, (&query,), asked),
        call_ensures(BlockQuery::answer::<Block>, (query, status), answer),
    ensures
        asked == id,
        match status {
            Err(error) => answer == Err::<BlockInfo<Block>, ApiError>(error),
            Ok(status) => {
                &&& answer is Ok
                &&& answer->Ok_0.id == id
                &&& match status {
                    Some(ExportBlockStatus::Active(block)) => {
                        &&& answer->Ok_0.content matches Some(content)
                        &&& content.block == block
                        &&& !content.is_final
                        &&& !content.is_stale
                        &&& content.is_in_blockclique <==> cliques@[first].block_ids@.contains(id)
                    },
                    Some(ExportBlockStatus::Final(block)) => {
                        &&& answer->Ok_0.content matches Some(content)
                        &&& content.block == block
                        &&& content.is_final
                        &&& !content.is_stale
                        &&& content.is_in_blockclique <==> cliques@[first].block_ids@.contains(id)
                    },
                    _ => answer->Ok_0.content is None,
                }
            },
        },
{
    lemma_first_blockclique(cliques@, first);
}

/// Consensus is asked for the status of exactly the block that it names for a
/// slot, if it names one. The block is the answer if it is in the graph, final or
/// not; else there is none. An error of consensus is handed on.
pub proof fn law_block_by_slot_is_told_as_it_is_known<
    Consensus,
    Execution,
    Selector,
    Pool,
    Network,
    Storage,
    Block,
>(
    api: API<Public<Consensus, Execution, Selector, Pool, Network, Storage>>,
    block_id: Result<Option<BlockId>, ApiError>,
    step: Result<BlockAtSlotStep, ApiError>,
    status: Result<Option<ExportBlockStatus<Block>>, ApiError>,
    answer: Result<Option<Block>, ApiError>,
)
    requires
        call_ensures(
            API::<
                Public<Consensus, Execution, Selector, Pool, Network, Storage>,
            >::get_blockclique_block_by_slot,
            (&api, block_id),
            step,
        ),
        call_ensures(
            API::<
                Public<Consensus, Execution, Selector, Pool, Network, Storage>,
            >::blockclique_block::<
                Block,
            >,
            (&api, status),
            answer,
        ),
    ensures
        match block_id {
            Err(error) => step == Err::<BlockAtSlotStep, ApiError>(error),
            Ok(Some(id)) => step == Ok::<BlockAtSlotStep, ApiError>(
                BlockAtSlotStep::AskStatus(id),
            ),
            Ok(None) => step == Ok::<BlockAtSlotStep, ApiError>(BlockAtSlotStep::ReplyNone),
        },
        match status {
            Err(error) => answer == Err::<Option<Block>, ApiError>(error),
            Ok(Some(ExportBlockStatus::Active(block))) => answer == Ok::<Option<Block>, ApiError>(
                Some(block),
            ),
            Ok(Some(ExportBlockStatus::Final(block))) => answer == Ok::<Option<Block>, ApiError>(
                Some(block),
            ),
            Ok(_) => answer == Ok::<Option<Block>, ApiError>(None),
        },
{
}

/// The slots of a request for the blocks of a range of time are asked for from
/// the very start to the very end that the client gives, in the node's own
/// graph. Consensus is asked for exactly the slots that come back.
pub proof fn law_graph_is_asked_for_in_the_time_of_the_client<
    Consensus,
    Execution,
    Selector,
    Pool,
    Network,
    Storage,
>(
    api: API<Public<Consensus, Execution, Selector, Pool, Network, Storage>>,
    time: TimeInterval,
    query: GraphQuery,
    range: SlotRangeQuery,
    slots: Result<(Option<Slot>, Option<Slot>), ApiError>,
    part: Result<GraphPartQuery, ApiError>,
)
    requires
        call_ensures(
            API::<
                Public<Consensus, Execution, Selector, Pool, Network, Storage>,
            >::get_graph_interval,
            (&api, time),
            query,
        ),
        call_ensures(GraphQuery::slot_range_query, (&query,), range),
        call_ensures(GraphQuery::in_slots, (query, slots), part),
    ensures
        range.start == time.start,
        range.end == time.end,
        range.thread_count == api.0.consensus_config.thread_count,
        range.t0 == api.0.consensus_config.t0,
        range.genesis_timestamp == api.0.consensus_config.genesis_timestamp,
        match slots {
            Err(error) => part == Err::<GraphPartQuery, ApiError>(error),
            Ok(slots) => {
                &&& part is Ok
                &&& forall|asked: (Option<Slot>, Option<Slot>)| #[trigger]
                    call_ensures(GraphPartQuery::slots, (&part->Ok_0,), asked) ==> {
                        &&& asked.0 == slots.0
                        &&& asked.1 == slots.1
                    }
            },
        },
{
}

/// A part of the graph is summarized exactly if consensus exports it with a
/// blockclique. The summary tells first of each block in the graph and then of
/// each discarded block that is stale, in the order of the export, and of no
/// other. Of each it tells what consensus exports: a block in the graph is final
/// exactly if consensus says so, is not stale, and is in the blockclique exactly
/// if the first clique that is said to be it holds the block; a stale block is
/// neither final nor in the blockclique.
pub proof fn law_graph_is_told_as_it_is_exported(
    part: GraphPartQuery,
    graph: Result<BlockGraphExport, ApiError>,
    answer: Result<Vec<BlockSummary>, ApiError>,
)
    requires
        call_ensures(GraphPartQuery::summarize, (part, graph), answer),
    ensures
        match graph {
            Err(error) => answer == Err::<Vec<BlockSummary>, ApiError>(error),
            Ok(graph) => {
                let cliques = graph.max_cliques@;
                let active = graph.active_blocks@;
                let stale = graph.discarded_blocks@.filter(
                    |entry: (BlockId, (DiscardReason, (Slot, Address, Vec<BlockId>)))|
                        entry.1.0 is Stale,
                );
                &&& answer is Ok <==> exists|i: int|
                    0 <= i < cliques.len() && (#[trigger] cliques[i]).is_blockclique
                &&& answer matches Err(error) ==> (error matches ApiError::InconsistencyError(text)
                    && text@ == "missing blockclique"@)
                &&& answer matches Ok(summaries) ==> {
                    &&& summaries@.len() == active.len() + stale.len()
                    &&& forall|i: int|
                        0 <= i < active.len() ==> {
                            &&& (#[trigger] summaries@[i]).id == active[i].0
                            &&& summaries@[i].is_final == active[i].1.is_final
                            &&& !summaries@[i].is_stale
                            &&& summaries@[i].slot == active[i].1.slot
                            &&& summaries@[i].creator == active[i].1.creator
                            &&& summaries@[i].parents == active[i].1.parents
                        }
                    &&& forall|i: int, first: int|
                        0 <= i < active.len() && 0 <= first < cliques.len()
                            && cliques[first].is_blockclique && (forall|j: int|
                            0 <= j < first ==> !(#[trigger] cliques[j]).is_blockclique) ==> ((
                        #[trigger] summaries@[i]).is_in_blockclique <==> (
                        #[trigger] cliques[first]).block_ids@.contains(active[i].0))
                    &&& forall|i: int|
                        0 <= i < stale.len() ==> {
                            let summary = summaries@[active.len() + i];
                            &&& summary.id == (#[trigger] stale[i]).0
                            &&& !summary.is_final
                            &&& summary.is_stale
                            &&& !summary.is_in_blockclique
                            &&& summary.slot == stale[i].1.1.0
                            &&& summary.creator == stale[i].1.1.1
                            &&& summary.parents == stale[i].1.1.2
                        }
                }
            },
        },
{
    if let Ok(graph) = graph {
        let cliques = graph.max_cliques@;
        let stale = graph.discarded_blocks@.filter(
            |entry: (BlockId, (DiscardReason, (Slot, Address, Vec<BlockId>)))| entry.1.0 is Stale,
        );
        assert((|entry: (BlockId, (DiscardReason, (Slot, Address, Vec<BlockId>)))|
            entry.1.0 is Stale) =~= (
        |entry: (BlockId, (DiscardReason, (Slot, Address, Vec<BlockId>)))| is_stale(entry)));
        if exists|i: int| 0 <= i < cliques.len() && (#[trigger] cliques[i]).is_blockclique {
            let chosen = lemma_some_blockclique(cliques);
            lemma_first_blockclique(cliques, chosen);
            assert forall|first: int|
                0 <= first < cliques.len() && (#[trigger] cliques[first]).is_blockclique && (
                forall|j: int|
                    0 <= j < first ==> !(#[trigger] cliques[j]).is_blockclique) implies first
                == chosen by {
                if first < chosen {
                    assert(!cliques[first].is_blockclique);
                }
                if chosen < first {
                    assert(!cliques[chosen].is_blockclique);
                }
            }
            let clique = cliques[chosen].block_ids@;
            let expected = graph_summaries(clique, graph.active_blocks@, graph.discarded_blocks@);
            assert(answer is Ok && answer->Ok_0@ == expected);
            let active = graph.active_blocks@;
            assert forall|i: int| 0 <= i < stale.len() implies expected[active.len() + i]
                == stale_summary(#[trigger] stale[i]) by {}
        } else {
            lemma_no_blockclique(cliques);
        }
    }
}

} // verus!
