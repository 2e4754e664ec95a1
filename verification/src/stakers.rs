//! The stakers of the current cycle: `get_stakers`.
//!
//! The current cycle is that of the latest slot. It is worked out first; then
//! execution is asked for the rolls in it, by which the stakers are listed.

use crate::api::{ConsensusConfig, Public, API};
use crate::error::{value_view, ApiError};
use crate::models::{Address, IpAddr, MassaTime, Slot};
use crate::status::{status_answer, NodeStatusView, Peer};
use crate::timeslots::{CycleQuery, LatestSlotQuery, NextSlotQuery};
use vstd::prelude::*;

verus! {

/// Whether a staker has exactly `rolls` rolls.
pub open spec fn has_rolls(rolls: u64) -> spec_fn((Address, u64)) -> bool {
    |staker: (Address, u64)| staker.1 == rolls
}

/// The stakers that have exactly `rolls` rolls, in the order in which they
/// stand.
pub open spec fn with_rolls(stakers: Seq<(Address, u64)>, rolls: u64) -> Seq<(Address, u64)> {
    stakers.filter(has_rolls(rolls))
}

/// Whether the stakers stand in the order of their rolls, fewest first.
pub open spec fn ascending(stakers: Seq<(Address, u64)>) -> bool {
    forall|i: int, j: int| 0 <= i <= j < stakers.len() ==> stakers[i].1 <= stakers[j].1
}

/// Whether `sorted` holds the stakers of `stakers` in the order of their rolls,
/// where those with equally many rolls stand as they stood before.
pub open spec fn is_sorting_of(sorted: Seq<(Address, u64)>, stakers: Seq<(Address, u64)>) -> bool {
    &&& ascending(sorted)
    &&& forall|rolls: u64| #[trigger] with_rolls(sorted, rolls) == with_rolls(stakers, rolls)
}

/// Merges two sorted lists; of equals, those of `left` come first.
fn merge(left: &Vec<(Address, u64)>, right: &Vec<(Address, u64)>) -> (merged: Vec<(Address, u64)>)
    requires
        ascending(left@),
        ascending(right@),
    ensures
        is_sorting_of(merged@, left@ + right@),
{
    let mut merged: Vec<(Address, u64)> = Vec::new();
    let mut i: usize = 0;
    let mut j: usize = 0;
    assert(left@.take(0) + right@.take(0) =~= Seq::<(Address, u64)>::empty());
    while i < left.len() || j < right.len()
        invariant
            i <= left@.len(),
            j <= right@.len(),
            ascending(left@),
            ascending(right@),
            ascending(merged@),
            forall|k: int, l: int|
                0 <= k < merged@.len() && i <= l < left@.len() ==> merged@[k].1 <= left@[l].1,
            forall|k: int, l: int|
                0 <= k < merged@.len() && j <= l < right@.len() ==> merged@[k].1 <= right@[l].1,
            forall|k: int, l: int| 0 <= k < j && i <= l < left@.len() ==> right@[k].1 < left@[l].1,
            forall|rolls: u64| #[trigger]
                with_rolls(merged@, rolls) == with_rolls(
                    left@.take(i as int) + right@.take(j as int),
                    rolls,
                ),
        decreases left@.len() - i + right@.len() - j,
    {
        let ghost before = merged@;
        let ghost taken_left = left@.take(i as int);
        let ghost taken_right = right@.take(j as int);
        let from_left: bool = j >= right.len() || (i < left.len() && left[i].1 <= right[j].1);
        if from_left {
            let staker = left[i];
            merged.push(staker);
            proof {
                assert(left@.take(i + 1) =~= taken_left.push(staker));
                assert forall|rolls: u64| #[trigger]
                    with_rolls(merged@, rolls) == with_rolls(
                        left@.take(i + 1) + taken_right,
                        rolls,
                    ) by {
                    before.lemma_filter_push(staker, has_rolls(rolls));
                    taken_left.lemma_filter_push(staker, has_rolls(rolls));
                    Seq::filter_distributes_over_add(taken_left, taken_right, has_rolls(rolls));
                    Seq::filter_distributes_over_add(
                        taken_left.push(staker),
                        taken_right,
                        has_rolls(rolls),
                    );
                    assert(with_rolls(before, rolls) == with_rolls(
                        taken_left + taken_right,
                        rolls,
                    ));
                    if staker.1 == rolls {
                        assert forall|k: int| 0 <= k < taken_right.len() implies (
                        #[trigger] taken_right[k]).1 != rolls by {
                            assert(right@[k].1 < left@[i as int].1);
                        }
                        taken_right.lemma_all_neg_filter_empty(has_rolls(rolls));
                        assert(with_rolls(taken_right, rolls) =~= Seq::empty());
                        assert(with_rolls(taken_left, rolls).push(staker) + Seq::<
                            (Address, u64),
                        >::empty() =~= (with_rolls(taken_left, rolls) + Seq::<
                            (Address, u64),
                        >::empty()).push(staker));
                    }
                }
            }
            i += 1;
        } else {
            let staker = right[j];
            merged.push(staker);
            proof {
                assert(right@.take(j + 1) =~= taken_right.push(staker));
                assert forall|rolls: u64| #[trigger]
                    with_rolls(merged@, rolls) == with_rolls(
                        taken_left + right@.take(j + 1),
                        rolls,
                    ) by {
                    before.lemma_filter_push(staker, has_rolls(rolls));
                    (taken_left + taken_right).lemma_filter_push(staker, has_rolls(rolls));
                    assert((taken_left + taken_right).push(staker) =~= taken_left
                        + taken_right.push(staker));
                    assert(with_rolls(before, rolls) == with_rolls(
                        taken_left + taken_right,
                        rolls,
                    ));
                }
            }
            j += 1;
        }
    }
    assert(left@.take(i as int) =~= left@);
    assert(right@.take(j as int) =~= right@);
    merged
}

/// Sorts stakers by their rolls, fewest first; equals keep their order.
fn sort_by_rolls(stakers: Vec<(Address, u64)>) -> (sorted: Vec<(Address, u64)>)
    ensures
        is_sorting_of(sorted@, stakers@),
    decreases stakers@.len(),
{
    if stakers.len() <= 1 {
        return stakers;
    }
    let mut left = stakers;
    let middle: usize = left.len() / 2;
    let right = left.split_off(middle);
    let ghost halves = left@ + right@;
    assert(halves =~= stakers@);
    let sorted_left = sort_by_rolls(left);
    let sorted_right = sort_by_rolls(right);
    let sorted = merge(&sorted_left, &sorted_right);
    proof {
        assert forall|rolls: u64| #[trigger]
            with_rolls(sorted@, rolls) == with_rolls(stakers@, rolls) by {
            Seq::filter_distributes_over_add(left@, right@, has_rolls(rolls));
            Seq::filter_distributes_over_add(sorted_left@, sorted_right@, has_rolls(rolls));
            assert(with_rolls(sorted_left@, rolls) == with_rolls(left@, rolls));
            assert(with_rolls(sorted_right@, rolls) == with_rolls(right@, rolls));
            assert(with_rolls(sorted@, rolls) == with_rolls(sorted_left@ + sorted_right@, rolls));
        }
    }
    sorted
}

/// A request for the stakers at a time, for which the latest slot is to be worked
/// out.
pub struct StakersAtTime {
    consensus_config: ConsensusConfig,
    now: MassaTime,
}

/// What a [`StakersAtTime`] holds.
pub struct StakersAtTimeView {
    pub consensus_config: ConsensusConfig,
    pub now: MassaTime,
}

/// A request for the stakers of the current cycle, for which the cycle is to be
/// worked out.
pub struct StakersQuery {
    consensus_config: ConsensusConfig,
    last_slot: Option<Slot>,
}

/// What a [`StakersQuery`] holds.
pub struct StakersQueryView {
    pub consensus_config: ConsensusConfig,
    pub last_slot: Option<Slot>,
}

/// A request for the stakers of a cycle, for which execution is to be asked the
/// rolls in that cycle.
pub struct RollsQuery {
    cycle: u64,
}

impl View for StakersAtTime {
    type V = StakersAtTimeView;

    closed spec fn view(&self) -> StakersAtTimeView {
        StakersAtTimeView { consensus_config: self.consensus_config, now: self.now }
    }
}

impl View for StakersQuery {
    type V = StakersQueryView;

    closed spec fn view(&self) -> StakersQueryView {
        StakersQueryView { consensus_config: self.consensus_config, last_slot: self.last_slot }
    }
}

impl StakersAtTimeView {
    /// The question which slot is the latest one.
    pub open spec fn latest_slot_query(self) -> LatestSlotQuery {
        LatestSlotQuery::spec_at(self.consensus_config, self.now)
    }

    /// The request with the latest slot, or the error in working that out.
    pub open spec fn with_latest_slot(self, last_slot: Result<Option<Slot>, ApiError>) -> Result<
        StakersQueryView,
        ApiError,
    > {
        match last_slot {
            Ok(last_slot) => Ok(
                StakersQueryView { consensus_config: self.consensus_config, last_slot },
            ),
            Err(error) => Err(error),
        }
    }
}

impl StakersQueryView {
    /// The question which cycle is the current one.
    pub open spec fn cycle_query(self) -> CycleQuery {
        CycleQuery::spec_current(self.consensus_config, self.last_slot)
    }
}

impl StakersAtTime {
    /// The question which slot is the latest one.
    pub fn latest_slot_query(&self) -> (query: LatestSlotQuery)
        ensures
            query == self@.latest_slot_query(),
    {
        LatestSlotQuery::at(self.consensus_config, self.now)
    }

    /// Goes on with the latest slot, unless working that out failed.
    pub fn with_latest_slot(self, last_slot: Result<Option<Slot>, ApiError>) -> (query: Result<
        StakersQuery,
        ApiError,
    >)
        ensures
            value_view(query) == self@.with_latest_slot(last_slot),
    {
        match last_slot {
            Ok(last_slot) => Ok(
                StakersQuery { consensus_config: self.consensus_config, last_slot },
            ),
            Err(error) => Err(error),
        }
    }
}

impl StakersQuery {
    /// The question which cycle is the current one.
    pub fn cycle_query(&self) -> (query: CycleQuery)
        ensures
            query == self@.cycle_query(),
    {
        CycleQuery::current(self.consensus_config, self.last_slot)
    }

    /// Goes on with the current cycle.
    pub fn in_cycle(self, cycle: u64) -> (query: RollsQuery)
        ensures
            query.spec_cycle() == cycle,
    {
        RollsQuery { cycle }
    }
}

impl RollsQuery {
    /// The cycle whose stakers are listed.
    pub closed spec fn spec_cycle(self) -> u64 {
        self.cycle
    }

    /// The cycle for which execution is to be asked the rolls.
    pub fn cycle(&self) -> (cycle: u64)
        ensures
            cycle == self.spec_cycle(),
    {
        self.cycle
    }

    /// Lists the stakers by their rolls, fewest first, from the rolls that
    /// execution knows for the cycle.
    pub fn stakers(self, rolls: Vec<(Address, u64)>) -> (stakers: Vec<(Address, u64)>)
        ensures
            is_sorting_of(stakers@, rolls@),
    {
        sort_by_rolls(rolls)
    }
}

impl<Consensus, Execution, Selector, Pool, Network, Storage> API<
    Public<Consensus, Execution, Selector, Pool, Network, Storage>,
> {
    /// A request for the stakers with the present time, or the error in reading
    /// the clock.
    pub open spec fn spec_get_stakers(&self, now: Result<MassaTime, ApiError>) -> Result<
        StakersAtTimeView,
        ApiError,
    > {
        match now {
            Ok(now) => Ok(
                StakersAtTimeView { consensus_config: self.0.consensus_config, now },
            ),
            Err(error) => Err(error),
        }
    }

    /// Begins a request for the stakers with the present time, unless the clock
    /// could not be read.
    pub fn get_stakers(&self, now: Result<MassaTime, ApiError>) -> (begun: Result<
        StakersAtTime,
        ApiError,
    >)
        ensures
            value_view(begun) == self.spec_get_stakers(now),
    {
        match now {
            Ok(now) => Ok(StakersAtTime { consensus_config: self.0.consensus_config, now }),
            Err(error) => Err(error),
        }
    }
}

/// The cycle in which a request for the stakers has execution asked for the
/// rolls, when the node works out latest slots and cycles as `latest_slot_of`
/// and `cycle_of` say; or the error that answers the request.
pub open spec fn stakers_cycle<Consensus, Execution, Selector, Pool, Network, Storage>(
    api: API<Public<Consensus, Execution, Selector, Pool, Network, Storage>>,
    now: Result<MassaTime, ApiError>,
    latest_slot_of: spec_fn(LatestSlotQuery) -> Result<Option<Slot>, ApiError>,
    cycle_of: spec_fn(CycleQuery) -> u64,
) -> Result<u64, ApiError> {
    match api.spec_get_stakers(now) {
        Err(error) => Err(error),
        Ok(at) => match at.with_latest_slot(latest_slot_of(at.latest_slot_query())) {
            Err(error) => Err(error),
            Ok(query) => Ok(cycle_of(query.cycle_query())),
        },
    }
}

/// A request for the stakers fails exactly if the clock cannot be read or the
/// latest slot cannot be worked out, with the error of the first of these.
/// Otherwise the rolls are those in the cycle of the latest slot, or of the
/// genesis slot before the first one.
pub proof fn law_stakers_of_the_current_cycle<
    Consensus,
    Execution,
    Selector,
    Pool,
    Network,
    Storage,
>(
    api: API<Public<Consensus, Execution, Selector, Pool, Network, Storage>>,
    now: Result<MassaTime, ApiError>,
    latest_slot_of: spec_fn(LatestSlotQuery) -> Result<Option<Slot>, ApiError>,
    cycle_of: spec_fn(CycleQuery) -> u64,
)
    ensures
        ({
            let layout = api.0.consensus_config;
            let last_slot = latest_slot_of(LatestSlotQuery::spec_at(layout, now->Ok_0));
            stakers_cycle(api, now, latest_slot_of, cycle_of) == match (now, last_slot) {
                (Err(error), _) => Err(error),
                (_, Err(error)) => Err(error),
                (Ok(_), Ok(last_slot)) => Ok(
                    cycle_of(CycleQuery::spec_current(layout, last_slot)),
                ),
            }
        }),
{
}

/// The stakers are those of the cycle that the status of the same API shows at
/// the same time: where a request for the status is answered with a status, one
/// for the stakers does not fail, and has execution asked for the rolls in
/// exactly the cycle of that status.
pub proof fn law_stakers_of_the_cycle_in_the_status<
    Consensus,
    Execution,
    Selector,
    Pool,
    Network,
    Storage,
    ConsensusStats,
    NetworkStats,
    Config,
>(
    api: API<Public<Consensus, Execution, Selector, Pool, Network, Storage>>,
    now: Result<MassaTime, ApiError>,
    latest_slot_of: spec_fn(LatestSlotQuery) -> Result<Option<Slot>, ApiError>,
    peers: Result<Vec<(IpAddr, Peer)>, ApiError>,
    next_slot_of: spec_fn(NextSlotQuery) -> Result<Slot, ApiError>,
    consensus_stats: Result<ConsensusStats, ApiError>,
    network_stats: Result<NetworkStats, ApiError>,
    pool_stats: (usize, usize),
    config: Config,
    cycle_of: spec_fn(CycleQuery) -> u64,
    status: NodeStatusView<ConsensusStats, NetworkStats, Config>,
)
    requires
        status_answer(
            api,
            now,
            latest_slot_of,
            peers,
            next_slot_of,
            consensus_stats,
            network_stats,
            pool_stats,
            config,
            cycle_of,
        ) == Ok::<NodeStatusView<ConsensusStats, NetworkStats, Config>, ApiError>(status),
    ensures
        stakers_cycle(api, now, latest_slot_of, cycle_of) == Ok::<u64, ApiError>(
            status.current_cycle,
        ),
{
}

/// The order of the stakers is determined: there is only one sorting of a list.
pub proof fn law_one_sorting(
    left: Seq<(Address, u64)>,
    right: Seq<(Address, u64)>,
    stakers: Seq<(Address, u64)>,
)
    requires
        is_sorting_of(left, stakers),
        is_sorting_of(right, stakers),
    ensures
        left == right,
{
    assert forall|rolls: u64| #[trigger]
        with_rolls(left, rolls) == with_rolls(right, rolls) by {
        assert(with_rolls(left, rolls) == with_rolls(stakers, rolls));
        assert(with_rolls(right, rolls) == with_rolls(stakers, rolls));
    }
    lemma_same_selections(left, right);
}

/// Two ascending lists from which the same is selected are the same.
proof fn lemma_same_selections(left: Seq<(Address, u64)>, right: Seq<(Address, u64)>)
    requires
        ascending(left),
        ascending(right),
        forall|rolls: u64| #[trigger] with_rolls(left, rolls) == with_rolls(right, rolls),
    ensures
        left == right,
    decreases left.len(),
{
    reveal(Seq::filter);
    if left.len() == 0 {
        if right.len() > 0 {
            let rolls = right.last().1;
            assert(with_rolls(left, rolls) == with_rolls(right, rolls));
            assert(with_rolls(right, rolls).last() == right.last());
        }
        assert(left =~= right);
    } else {
        let rolls = left.last().1;
        assert(with_rolls(left, rolls).last() == left.last());
        assert(with_rolls(left, rolls) == with_rolls(right, rolls));
        lemma_selected_is_there(right, rolls);
        let top = right.last().1;
        assert(with_rolls(right, top).last() == right.last());
        assert(with_rolls(left, top) == with_rolls(right, top));
        lemma_selected_is_there(left, top);
        assert(top == rolls);
        assert(left.last() == right.last());
        let shorter_left = left.drop_last();
        let shorter_right = right.drop_last();
        assert forall|r: u64| #[trigger]
            with_rolls(shorter_left, r) == with_rolls(shorter_right, r) by {
            shorter_left.lemma_filter_push(left.last(), has_rolls(r));
            shorter_right.lemma_filter_push(right.last(), has_rolls(r));
            assert(shorter_left.push(left.last()) =~= left);
            assert(shorter_right.push(right.last()) =~= right);
            assert(with_rolls(left, r) == with_rolls(right, r));
            if r == rolls {
                assert(with_rolls(shorter_left, r) =~= with_rolls(left, r).drop_last());
                assert(with_rolls(shorter_right, r) =~= with_rolls(right, r).drop_last());
            }
        }
        lemma_same_selections(shorter_left, shorter_right);
        assert(left =~= shorter_left.push(left.last()));
        assert(right =~= shorter_right.push(right.last()));
    }
}

/// If someone with `rolls` rolls is selected, someone with as many is there.
proof fn lemma_selected_is_there(stakers: Seq<(Address, u64)>, rolls: u64)
    requires
        with_rolls(stakers, rolls).len() > 0,
    ensures
        exists|i: int| 0 <= i < stakers.len() && (#[trigger] stakers[i]).1 == rolls,
{
    if forall|i: int| 0 <= i < stakers.len() ==> (#[trigger] stakers[i]).1 != rolls {
        stakers.lemma_all_neg_filter_empty(has_rolls(rolls));
    }
}

/// Sorting neither adds nor drops a staker.
pub proof fn law_sorting_keeps_the_stakers(
    sorted: Seq<(Address, u64)>,
    stakers: Seq<(Address, u64)>,
)
    requires
        is_sorting_of(sorted, stakers),
    ensures
        sorted.to_multiset() == stakers.to_multiset(),
        sorted.len() == stakers.len(),
{
    assert forall|staker: (Address, u64)|
        sorted.to_multiset().count(staker) == stakers.to_multiset().count(staker) by {
        lemma_count(sorted, staker);
        lemma_count(stakers, staker);
        assert(with_rolls(sorted, staker.1) == with_rolls(stakers, staker.1));
    }
    assert(sorted.to_multiset() =~= stakers.to_multiset());
    sorted.to_multiset_ensures();
    stakers.to_multiset_ensures();
}

/// A staker occurs as often among those with its rolls as among all.
proof fn lemma_count(stakers: Seq<(Address, u64)>, staker: (Address, u64))
    ensures
        stakers.to_multiset().count(staker) == with_rolls(
            stakers,
            staker.1,
        ).to_multiset().count(staker),
    decreases stakers.len(),
{
    if stakers.len() == 0 {
        reveal(Seq::filter);
        assert(with_rolls(stakers, staker.1) =~= stakers);
    } else {
        let before = stakers.drop_last();
        let last = stakers.last();
        lemma_count(before, staker);
        before.lemma_filter_push(last, has_rolls(staker.1));
        assert(before.push(last) =~= stakers);
        before.to_multiset_ensures();
        with_rolls(before, staker.1).to_multiset_ensures();
        assert(stakers.to_multiset() =~= before.to_multiset().insert(last));
    }
}

/// A list that is in order stays as it is.
pub proof fn law_sorting_of_a_sorted_list(
    sorted: Seq<(Address, u64)>,
    stakers: Seq<(Address, u64)>,
)
    requires
        ascending(stakers),
        is_sorting_of(sorted, stakers),
    ensures
        sorted == stakers,
{
    law_one_sorting(sorted, stakers, stakers);
}

/// A request for the stakers goes on with the latest slot exactly if the clock
/// could be read, and then exactly if the latest slot could be worked out; an
/// error is handed on. The latest slot is asked for at the very time that the
/// clock gave, in the node's own graph.
pub proof fn law_stakers_are_asked_for_at_the_time_of_the_clock<
    Consensus,
    Execution,
    Selector,
    Pool,
    Network,
    Storage,
>(
    api: API<Public<Consensus, Execution, Selector, Pool, Network, Storage>>,
    now: Result<MassaTime, ApiError>,
    begun: Result<StakersAtTime, ApiError>,
    latest: LatestSlotQuery,
    last_slot: Result<Option<Slot>, ApiError>,
    query: Result<StakersQuery, ApiError>,
)
    requires
        call_ensures(
            API::<Public<Consensus, Execution, Selector, Pool, Network, Storage>>::get_stakers,
            (&api, now),
            begun,
        ),
        begun matches Ok(at) ==> call_ensures(StakersAtTime::latest_slot_query, (&at,), latest),
        begun matches Ok(at) ==> call_ensures(
            StakersAtTime::with_latest_slot,
            (at, last_slot),
            query,
        ),
    ensures
        match now {
            Err(error) => begun == Err::<StakersAtTime, ApiError>(error),
            Ok(now) => {
                &&& begun is Ok
                &&& latest.now == now
                &&& latest.thread_count == api.0.consensus_config.thread_count
                &&& latest.t0 == api.0.consensus_config.t0
                &&& latest.genesis_timestamp == api.0.consensus_config.genesis_timestamp
                &&& match last_slot {
                    Err(error) => query == Err::<StakersQuery, ApiError>(error),
                    Ok(_) => query is Ok,
                }
            },
        },
{
}

/// The cycle is asked for from the latest slot, or from period 0 in thread 0
/// before the first one; the rolls are asked for in exactly that cycle; and the
/// stakers are those that have rolls there, each as often as execution says, with
/// their own rolls, those with fewer before those with more, and those with
/// equally many, whatever that `count` is, in the order in which execution tells
/// them.
pub proof fn law_stakers_are_told_as_they_are_known<
    Consensus,
    Execution,
    Selector,
    Pool,
    Network,
    Storage,
>(
    api: API<Public<Consensus, Execution, Selector, Pool, Network, Storage>>,
    now: MassaTime,
    at: StakersAtTime,
    last_slot: Option<Slot>,
    query: StakersQuery,
    cycle: CycleQuery,
    current_cycle: u64,
    rolls_query: RollsQuery,
    asked: u64,
    rolls: Vec<(Address, u64)>,
    stakers: Vec<(Address, u64)>,
    count: u64,
)
    requires
        call_ensures(
            API::<Public<Consensus, Execution, Selector, Pool, Network, Storage>>::get_stakers,
            (&api, Ok::<MassaTime, ApiError>(now)),
            Ok::<StakersAtTime, ApiError>(at),
        ),
        call_ensures(
            StakersAtTime::with_latest_slot,
            (at, Ok::<Option<Slot>, ApiError>(last_slot)),
            Ok::<StakersQuery, ApiError>(query),
        ),
        call_ensures(StakersQuery::cycle_query, (&query,), cycle),
        call_ensures(StakersQuery::in_cycle, (query, current_cycle), rolls_query),
        call_ensures(RollsQuery::cycle, (&rolls_query,), asked),
        call_ensures(RollsQuery::stakers, (rolls_query, rolls), stakers),
    ensures
        match last_slot {
            Some(slot) => cycle.slot == slot,
            None => cycle.slot.period == 0 && cycle.slot.thread == 0,
        },
        cycle.periods_per_cycle == api.0.consensus_config.periods_per_cycle,
        asked == current_cycle,
        stakers@.len() == rolls@.len(),
        stakers@.to_multiset() == rolls@.to_multiset(),
        forall|i: int, j: int| 0 <= i < j < stakers@.len() ==> stakers@[i].1 <= stakers@[j].1,
        stakers@.filter(|staker: (Address, u64)| staker.1 == count) == rolls@.filter(
            |staker: (Address, u64)| staker.1 == count,
        ),
{
    law_sorting_keeps_the_stakers(stakers@, rolls@);
    assert(has_rolls(count) =~= (|staker: (Address, u64)| staker.1 == count));
    assert(with_rolls(stakers@, count) == with_rolls(rolls@, count));
}

} // verus!
