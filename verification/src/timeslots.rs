//! Questions about slots, cycles and threads, which the node's calendar answers.

use crate::api::{ConsensusConfig, Public, API};
use crate::models::{Address, MassaTime, Slot};
use vstd::prelude::*;

verus! {

/// A range of time; an end that is not given is open.
#[derive(Clone, Copy, PartialEq, Eq, Debug)]
pub struct TimeInterval {
    pub start: Option<MassaTime>,
    pub end: Option<MassaTime>,
}

/// The question which slot is the latest one at a time.
#[derive(Clone, Copy, PartialEq, Eq, Debug)]
pub struct LatestSlotQuery {
    /// How many threads the graph has.
    pub thread_count: u8,
    /// The time between two periods.
    pub t0: MassaTime,
    /// When the graph begins.
    pub genesis_timestamp: MassaTime,
    pub now: MassaTime,
}

impl LatestSlotQuery {
    /// The question which slot of the graph is the latest one at `now`.
    pub open spec fn spec_at(config: ConsensusConfig, now: MassaTime) -> LatestSlotQuery {
        LatestSlotQuery {
            thread_count: config.thread_count,
            t0: config.t0,
            genesis_timestamp: config.genesis_timestamp,
            now,
        }
    }

    /// The question which slot of the graph is the latest one at `now`.
    pub(crate) fn at(config: ConsensusConfig, now: MassaTime) -> (query: LatestSlotQuery)
        ensures
            query == LatestSlotQuery::spec_at(config, now),
    {
        LatestSlotQuery {
            thread_count: config.thread_count,
            t0: config.t0,
            genesis_timestamp: config.genesis_timestamp,
            now,
        }
    }
}

/// The question which slots a range of time covers.
#[derive(Clone, Copy, PartialEq, Eq, Debug)]
pub struct SlotRangeQuery {
    /// How many threads the graph has.
    pub thread_count: u8,
    /// The time between two periods.
    pub t0: MassaTime,
    /// When the graph begins.
    pub genesis_timestamp: MassaTime,
    pub start: Option<MassaTime>,
    pub end: Option<MassaTime>,
}

impl SlotRangeQuery {
    /// The question which slots of the graph `time` covers.
    pub open spec fn spec_in(config: ConsensusConfig, time: TimeInterval) -> SlotRangeQuery {
        SlotRangeQuery {
            thread_count: config.thread_count,
            t0: config.t0,
            genesis_timestamp: config.genesis_timestamp,
            start: time.start,
            end: time.end,
        }
    }
}

/// The question which slot comes after another.
#[derive(Clone, Copy, PartialEq, Eq, Debug)]
pub struct NextSlotQuery {
    pub slot: Slot,
    /// How many threads the graph has.
    pub thread_count: u8,
}

impl NextSlotQuery {
    /// The question which slot of the graph comes next when the latest slot is
    /// `last`.
    pub open spec fn spec_after(config: ConsensusConfig, last: Option<Slot>) -> NextSlotQuery {
        NextSlotQuery { slot: Slot::spec_or_genesis(last), thread_count: config.thread_count }
    }
}

/// The question to which cycle a slot belongs.
#[derive(Clone, Copy, PartialEq, Eq, Debug)]
pub struct CycleQuery {
    pub slot: Slot,
    /// How many periods make a cycle.
    pub periods_per_cycle: u64,
}

impl CycleQuery {
    /// The question which cycle is the current one when the latest slot is
    /// `last`.
    pub open spec fn spec_current(config: ConsensusConfig, last: Option<Slot>) -> CycleQuery {
        CycleQuery {
            slot: Slot::spec_or_genesis(last),
            periods_per_cycle: config.periods_per_cycle,
        }
    }

    /// The question which cycle is the current one when the latest slot is
    /// `last`.
    pub(crate) fn current(config: ConsensusConfig, last: Option<Slot>) -> (query: CycleQuery)
        ensures
            query == CycleQuery::spec_current(config, last),
    {
        CycleQuery { slot: Slot::or_genesis(last), periods_per_cycle: config.periods_per_cycle }
    }
}

/// The question to which thread an address belongs.
#[derive(Clone, Copy, PartialEq, Eq, Debug)]
pub struct ThreadQuery {
    pub address: Address,
    /// How many threads the graph has.
    pub thread_count: u8,
}

impl<Consensus, Execution, Selector, Pool, Network, Storage> API<
    Public<Consensus, Execution, Selector, Pool, Network, Storage>,
> {
    /// The question to which thread of the graph an address belongs.
    pub fn thread_query(&self, address: Address) -> (query: ThreadQuery)
        ensures
            query == (ThreadQuery { address, thread_count: self.0.consensus_config.thread_count }),
    {
        ThreadQuery { address, thread_count: self.0.consensus_config.thread_count }
    }
}

/// The thread of an address is asked for among the threads of the node's own
/// graph.
pub proof fn law_thread_question<
    Consensus,
    Execution,
    Selector,
    Pool,
    Network,
    Storage,
>(
    api: API<Public<Consensus, Execution, Selector, Pool, Network, Storage>>,
    address: Address,
    query: ThreadQuery,
)
    requires
        call_ensures(
            API::<Public<Consensus, Execution, Selector, Pool, Network, Storage>>::thread_query,
            (&api, address),
            query,
        ),
    ensures
        query.address == address,
        query.thread_count == api.0.consensus_config.thread_count,
{
}

} // verus!
