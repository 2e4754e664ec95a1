//! The status of the node: `get_status`.
//!
//! Many services have a part in the status. It is compiled only when all of
//! them answered; otherwise one of their errors is the answer.

use crate::api::{ConsensusConfig, Public, API};
use crate::error::{value_view, ApiError};
use crate::models::{IpAddr, MassaTime, NodeId, Slot, Version};
use crate::timeslots::{CycleQuery, LatestSlotQuery, NextSlotQuery};
use vstd::prelude::*;

verus! {

/// A peer to which the node is connected.
#[derive(PartialEq, Eq, Debug)]
pub struct Peer {
    /// The nodes that are active there, each with whether the connection to it
    /// is an outgoing one.
    pub active_nodes: Vec<(NodeId, bool)>,
}

/// The status of the node. The statistics and the configuration have the types
/// of the services from which they come.
#[derive(PartialEq, Eq, Debug)]
pub struct NodeStatus<ConsensusStats, NetworkStats, Config> {
    pub node_id: NodeId,
    /// The address under which the node can be reached, if it can.
    pub node_ip: Option<IpAddr>,
    pub version: Version,
    pub current_time: MassaTime,
    /// The nodes to which there is a connection, each with its address and
    /// whether the connection is an outgoing one.
    pub connected_nodes: Vec<(NodeId, (IpAddr, bool))>,
    /// The latest slot, unless the graph has not begun.
    pub last_slot: Option<Slot>,
    pub next_slot: Slot,
    pub consensus_stats: ConsensusStats,
    /// How many operations and how many endorsements wait in the pool.
    pub pool_stats: (usize, usize),
    pub network_stats: NetworkStats,
    pub config: Config,
    pub current_cycle: u64,
}

/// A [`NodeStatus`] with its connections as a sequence.
pub struct NodeStatusView<ConsensusStats, NetworkStats, Config> {
    pub node_id: NodeId,
    pub node_ip: Option<IpAddr>,
    pub version: Version,
    pub current_time: MassaTime,
    pub connected_nodes: Seq<(NodeId, (IpAddr, bool))>,
    pub last_slot: Option<Slot>,
    pub next_slot: Slot,
    pub consensus_stats: ConsensusStats,
    pub pool_stats: (usize, usize),
    pub network_stats: NetworkStats,
    pub config: Config,
    pub current_cycle: u64,
}

impl<ConsensusStats, NetworkStats, Config> View for NodeStatus<
    ConsensusStats,
    NetworkStats,
    Config,
> {
    type V = NodeStatusView<ConsensusStats, NetworkStats, Config>;

    open spec fn view(&self) -> NodeStatusView<ConsensusStats, NetworkStats, Config> {
        NodeStatusView {
            node_id: self.node_id,
            node_ip: self.node_ip,
            version: self.version,
            current_time: self.current_time,
            connected_nodes: self.connected_nodes@,
            last_slot: self.last_slot,
            next_slot: self.next_slot,
            consensus_stats: self.consensus_stats,
            pool_stats: self.pool_stats,
            network_stats: self.network_stats,
            config: self.config,
            current_cycle: self.current_cycle,
        }
    }
}

/// The connections to the active nodes of one peer.
pub open spec fn nodes_of_peer(entry: (IpAddr, Peer)) -> Seq<(NodeId, (IpAddr, bool))> {
    entry.1.active_nodes@.map_values(|node: (NodeId, bool)| (node.0, (entry.0, node.1)))
}

/// The connections to the active nodes of all peers, peer by peer.
pub open spec fn nodes_of_peers(peers: Seq<(IpAddr, Peer)>) -> Seq<(NodeId, (IpAddr, bool))>
    decreases peers.len(),
{
    if peers.len() == 0 {
        Seq::empty()
    } else {
        nodes_of_peers(peers.drop_last()) + nodes_of_peer(peers.last())
    }
}

/// Lists the connections to the active nodes of all peers.
fn connected_nodes(peers: Vec<(IpAddr, Peer)>) -> (nodes: Vec<(NodeId, (IpAddr, bool))>)
    ensures
        nodes@ == nodes_of_peers(peers@),
{
    let mut nodes: Vec<(NodeId, (IpAddr, bool))> = Vec::new();
    let mut i: usize = 0;
    while i < peers.len()
        invariant
            i <= peers@.len(),
            nodes@ == nodes_of_peers(peers@.take(i as int)),
        decreases peers@.len() - i,
    {
        let ip = peers[i].0;
        let peer = &peers[i].1;
        let ghost before = nodes@;
        let mut j: usize = 0;
        while j < peer.active_nodes.len()
            invariant
                i < peers@.len(),
                ip == peers@[i as int].0,
                *peer == peers@[i as int].1,
                j <= peer.active_nodes@.len(),
                nodes@ =~= before + nodes_of_peer(peers@[i as int]).take(j as int),
            decreases peer.active_nodes@.len() - j,
        {
            let (id, is_outgoing) = peer.active_nodes[j];
            nodes.push((id, (ip, is_outgoing)));
            j += 1;
        }
        proof {
            assert(nodes@ =~= before + nodes_of_peer(peers@[i as int]));
            assert(peers@.take(i + 1).drop_last() =~= peers@.take(i as int));
        }
        i += 1;
    }
    assert(peers@.take(peers@.len() as int) =~= peers@);
    nodes
}

/// A request for the node's status at a time, for which the latest slot is to be
/// worked out.
pub struct StatusAtTime {
    node_id: NodeId,
    node_ip: Option<IpAddr>,
    version: Version,
    consensus_config: ConsensusConfig,
    now: MassaTime,
}

/// What a [`StatusAtTime`] holds.
pub struct StatusAtTimeView {
    pub node_id: NodeId,
    pub node_ip: Option<IpAddr>,
    pub version: Version,
    pub consensus_config: ConsensusConfig,
    pub now: MassaTime,
}

/// A request for the node's status with the latest slot, for which the services
/// are to be asked and the next slot is to be worked out.
pub struct StatusQuery {
    at: StatusAtTime,
    last_slot: Option<Slot>,
}

/// What a [`StatusQuery`] holds.
pub struct StatusQueryView {
    pub at: StatusAtTimeView,
    pub last_slot: Option<Slot>,
}

/// A status that lacks the current cycle only, which is to be worked out.
pub struct StatusReport<ConsensusStats, NetworkStats, Config> {
    query: StatusQuery,
    connected_nodes: Vec<(NodeId, (IpAddr, bool))>,
    next_slot: Slot,
    consensus_stats: ConsensusStats,
    network_stats: NetworkStats,
    pool_stats: (usize, usize),
    config: Config,
}

/// What a [`StatusReport`] holds.
pub struct StatusReportView<ConsensusStats, NetworkStats, Config> {
    pub query: StatusQueryView,
    pub connected_nodes: Seq<(NodeId, (IpAddr, bool))>,
    pub next_slot: Slot,
    pub consensus_stats: ConsensusStats,
    pub network_stats: NetworkStats,
    pub pool_stats: (usize, usize),
    pub config: Config,
}

impl View for StatusAtTime {
    type V = StatusAtTimeView;

    closed spec fn view(&self) -> StatusAtTimeView {
        StatusAtTimeView {
            node_id: self.node_id,
            node_ip: self.node_ip,
            version: self.version,
            consensus_config: self.consensus_config,
            now: self.now,
        }
    }
}

impl View for StatusQuery {
    type V = StatusQueryView;

    closed spec fn view(&self) -> StatusQueryView {
        StatusQueryView { at: self.at@, last_slot: self.last_slot }
    }
}

impl<ConsensusStats, NetworkStats, Config> View for StatusReport<
    ConsensusStats,
    NetworkStats,
    Config,
> {
    type V = StatusReportView<ConsensusStats, NetworkStats, Config>;

    closed spec fn view(&self) -> StatusReportView<ConsensusStats, NetworkStats, Config> {
        StatusReportView {
            query: self.query@,
            connected_nodes: self.connected_nodes@,
            next_slot: self.next_slot,
            consensus_stats: self.consensus_stats,
            network_stats: self.network_stats,
            pool_stats: self.pool_stats,
            config: self.config,
        }
    }
}

impl StatusAtTimeView {
    /// The question which slot is the latest one.
    pub open spec fn latest_slot_query(self) -> LatestSlotQuery {
        LatestSlotQuery::spec_at(self.consensus_config, self.now)
    }

    /// The request with the latest slot, or the error in working that out.
    pub open spec fn with_latest_slot(self, last_slot: Result<Option<Slot>, ApiError>) -> Result<
        StatusQueryView,
        ApiError,
    > {
        match last_slot {
            Ok(last_slot) => Ok(StatusQueryView { at: self, last_slot }),
            Err(error) => Err(error),
        }
    }
}

impl StatusQueryView {
    /// The question which slot comes next.
    pub open spec fn next_slot_query(self) -> NextSlotQuery {
        NextSlotQuery::spec_after(self.at.consensus_config, self.last_slot)
    }

    /// The status but for the current cycle, or the first error among those of
    /// the peers, the next slot, the statistics of consensus and those of the
    /// network.
    pub open spec fn report<ConsensusStats, NetworkStats, Config>(
        self,
        peers: Result<Vec<(IpAddr, Peer)>, ApiError>,
        next_slot: Result<Slot, ApiError>,
        consensus_stats: Result<ConsensusStats, ApiError>,
        network_stats: Result<NetworkStats, ApiError>,
        pool_stats: (usize, usize),
        config: Config,
    ) -> Result<StatusReportView<ConsensusStats, NetworkStats, Config>, ApiError> {
        match (peers, next_slot, consensus_stats, network_stats) {
            (Err(error), _, _, _) => Err(error),
            (_, Err(error), _, _) => Err(error),
            (_, _, Err(error), _) => Err(error),
            (_, _, _, Err(error)) => Err(error),
            (Ok(peers), Ok(next_slot), Ok(consensus_stats), Ok(network_stats)) => Ok(
                StatusReportView {
                    query: self,
                    connected_nodes: nodes_of_peers(peers@),
                    next_slot,
                    consensus_stats,
                    network_stats,
                    pool_stats,
                    config,
                },
            ),
        }
    }
}

impl<ConsensusStats, NetworkStats, Config> StatusReportView<ConsensusStats, NetworkStats, Config> {
    /// The question which cycle is the current one.
    pub open spec fn cycle_query(self) -> CycleQuery {
        CycleQuery::spec_current(self.query.at.consensus_config, self.query.last_slot)
    }

    /// The status, given the current cycle.
    pub open spec fn status(self, current_cycle: u64) -> NodeStatusView<
        ConsensusStats,
        NetworkStats,
        Config,
    > {
        NodeStatusView {
            node_id: self.query.at.node_id,
            node_ip: self.query.at.node_ip,
            version: self.query.at.version,
            current_time: self.query.at.now,
            connected_nodes: self.connected_nodes,
            last_slot: self.query.last_slot,
            next_slot: self.next_slot,
            consensus_stats: self.consensus_stats,
            pool_stats: self.pool_stats,
            network_stats: self.network_stats,
            config: self.config,
            current_cycle,
        }
    }
}

impl StatusAtTime {
    /// The question which slot is the latest one.
    pub fn latest_slot_query(&self) -> (query: LatestSlotQuery)
        ensures
            query == self@.latest_slot_query(),
    {
        LatestSlotQuery::at(self.consensus_config, self.now)
    }

    /// Goes on with the latest slot, unless working that out failed.
    pub fn with_latest_slot(self, last_slot: Result<Option<Slot>, ApiError>) -> (query: Result<
        StatusQuery,
        ApiError,
    >)
        ensures
            value_view(query) == self@.with_latest_slot(last_slot),
    {
        match last_slot {
            Ok(last_slot) => Ok(StatusQuery { at: self, last_slot }),
            Err(error) => Err(error),
        }
    }
}

impl StatusQuery {
    /// The question which slot comes next.
    pub fn next_slot_query(&self) -> (query: NextSlotQuery)
        ensures
            query == self@.next_slot_query(),
    {
        NextSlotQuery {
            slot: Slot::or_genesis(self.last_slot),
            thread_count: self.at.consensus_config.thread_count,
        }
    }

    /// Compiles what the services say: the peers, the slot that comes next, the
    /// statistics of consensus, network and pool, and the configuration. If
    /// more than one of them failed, the error of the first in this order is
    /// the answer.
    pub fn report<ConsensusStats, NetworkStats, Config>(
        self,
        peers: Result<Vec<(IpAddr, Peer)>, ApiError>,
        next_slot: Result<Slot, ApiError>,
        consensus_stats: Result<ConsensusStats, ApiError>,
        network_stats: Result<NetworkStats, ApiError>,
        pool_stats: (usize, usize),
        config: Config,
    ) -> (answer: Result<StatusReport<ConsensusStats, NetworkStats, Config>, ApiError>)
        ensures
            value_view(answer) == self@.report(
                peers,
                next_slot,
                consensus_stats,
                network_stats,
                pool_stats,
                config,
            ),
    {
        let peers = match peers {
            Ok(peers) => peers,
            Err(error) => {
                return Err(error);
            },
        };
        let next_slot = match next_slot {
            Ok(next_slot) => next_slot,
            Err(error) => {
                return Err(error);
            },
        };
        let consensus_stats = match consensus_stats {
            Ok(consensus_stats) => consensus_stats,
            Err(error) => {
                return Err(error);
            },
        };
        let network_stats = match network_stats {
            Ok(network_stats) => network_stats,
            Err(error) => {
                return Err(error);
            },
        };
        Ok(
            StatusReport {
                query: self,
                connected_nodes: connected_nodes(peers),
                next_slot,
                consensus_stats,
                network_stats,
                pool_stats,
                config,
            },
        )
    }
}

impl<ConsensusStats, NetworkStats, Config> StatusReport<ConsensusStats, NetworkStats, Config> {
    /// The question which cycle is the current one.
    pub fn cycle_query(&self) -> (query: CycleQuery)
        ensures
            query == self@.cycle_query(),
    {
        CycleQuery::current(self.query.at.consensus_config, self.query.last_slot)
    }

    /// Completes the status with the current cycle.
    pub fn complete(self, current_cycle: u64) -> (status: NodeStatus<
        ConsensusStats,
        NetworkStats,
        Config,
    >)
        ensures
            status@ == self@.status(current_cycle),
    {
        NodeStatus {
            node_id: self.query.at.node_id,
            node_ip: self.query.at.node_ip,
            version: self.query.at.version,
            current_time: self.query.at.now,
            connected_nodes: self.connected_nodes,
            last_slot: self.query.last_slot,
            next_slot: self.next_slot,
            consensus_stats: self.consensus_stats,
            network_stats: self.network_stats,
            pool_stats: self.pool_stats,
            config: self.config,
            current_cycle,
        }
    }
}

impl<Consensus, Execution, Selector, Pool, Network, Storage> API<
    Public<Consensus, Execution, Selector, Pool, Network, Storage>,
> {
    /// A request for the node's status with the present time, or the error in
    /// reading the clock.
    pub open spec fn spec_get_status(&self, now: Result<MassaTime, ApiError>) -> Result<
        StatusAtTimeView,
        ApiError,
    > {
        match now {
            Ok(now) => Ok(
                StatusAtTimeView {
                    node_id: self.0.node_id,
                    node_ip: self.0.network_settings.routable_ip,
                    version: self.0.version,
                    consensus_config: self.0.consensus_config,
                    now,
                },
            ),
            Err(error) => Err(error),
        }
    }

    /// Begins a request for the node's status with the present time, unless the
    /// clock could not be read.
    pub fn get_status(&self, now: Result<MassaTime, ApiError>) -> (begun: Result<
        StatusAtTime,
        ApiError,
    >)
        ensures
            value_view(begun) == self.spec_get_status(now),
    {
        match now {
            Ok(now) => Ok(
                StatusAtTime {
                    node_id: self.0.node_id,
                    node_ip: self.0.network_settings.routable_ip,
                    version: self.0.version,
                    consensus_config: self.0.consensus_config,
                    now,
                },
            ),
            Err(error) => Err(error),
        }
    }
}

/// What a request for the node's status is answered in the end, when the node
/// works out latest slots, next slots and cycles as `latest_slot_of`,
/// `next_slot_of` and `cycle_of` say.
pub open spec fn status_answer<
    Consensus,
    Execution,
    Selector,
    Pool,
    Network,
    Storage,
    ConsensusStats,
    NetworkStats,
    Config,
>(
    api: API<Public<Consensus, Execution, Selector, Pool, Network, Storage>>,
    now: Result<MassaTime, ApiError>,
    latest_slot_of: spec_fn(LatestSlotQuery) -> Result<Option<Slot>, ApiError>,
    peers: Result<Vec<(IpAddr, Peer)>, ApiError>,
    next_slot_of: spec_fn(NextSlotQuery) -> Result<Slot, ApiError>,
    consensus_stats: Result<ConsensusStats, ApiError>,
    network_stats: Result<NetworkStats, ApiError>,
    pool_stats: (usize, usize),
    config: Config,
    cycle_of: spec_fn(CycleQuery) -> u64,
) -> Result<NodeStatusView<ConsensusStats, NetworkStats, Config>, ApiError> {
    match api.spec_get_status(now) {
        Err(error) => Err(error),
        Ok(at) => match at.with_latest_slot(latest_slot_of(at.latest_slot_query())) {
            Err(error) => Err(error),
            Ok(query) => match query.report(
                peers,
                next_slot_of(query.next_slot_query()),
                consensus_stats,
                network_stats,
                pool_stats,
                config,
            ) {
                Err(error) => Err(error),
                Ok(report) => Ok(report.status(cycle_of(report.cycle_query()))),
            },
        },
    }
}

/// A request for the node's status is answered with the first error in the order
/// clock, latest slot, peers, next slot, statistics of consensus, statistics of
/// the network. Where there is none, the answer is the status, in which the next
/// slot and the cycle are those of the latest slot, or of the genesis slot before
/// the first one.
pub proof fn law_first_error_answers_the_status<
    Consensus,
    Execution,
    Selector,
    Pool,
    Network,
    Storage,
    ConsensusStats,
    NetworkStats,
    Config,
>(
    api: API<Public<Consensus, Execution, Selector, Pool, Network, Storage>>,
    now: Result<MassaTime, ApiError>,
    latest_slot_of: spec_fn(LatestSlotQuery) -> Result<Option<Slot>, ApiError>,
    peers: Result<Vec<(IpAddr, Peer)>, ApiError>,
    next_slot_of: spec_fn(NextSlotQuery) -> Result<Slot, ApiError>,
    consensus_stats: Result<ConsensusStats, ApiError>,
    network_stats: Result<NetworkStats, ApiError>,
    pool_stats: (usize, usize),
    config: Config,
    cycle_of: spec_fn(CycleQuery) -> u64,
)
    ensures
        ({
            let layout = api.0.consensus_config;
            let last_slot = latest_slot_of(LatestSlotQuery::spec_at(layout, now->Ok_0));
            let next_slot = next_slot_of(NextSlotQuery::spec_after(layout, last_slot->Ok_0));
            status_answer(
                api,
                now,
                latest_slot_of,
                peers,
                next_slot_of,
                consensus_stats,
                network_stats,
                pool_stats,
                config,
                cycle_of,
            ) == match (now, last_slot, peers, next_slot, consensus_stats, network_stats) {
                (Err(error), _, _, _, _, _) => Err(error),
                (_, Err(error), _, _, _, _) => Err(error),
                (_, _, Err(error), _, _, _) => Err(error),
                (_, _, _, Err(error), _, _) => Err(error),
                (_, _, _, _, Err(error), _) => Err(error),
                (_, _, _, _, _, Err(error)) => Err(error),
                (
                    Ok(now),
                    Ok(last_slot),
                    Ok(peers),
                    Ok(next_slot),
                    Ok(consensus_stats),
                    Ok(network_stats),
                ) => Ok(
                    NodeStatusView {
                        node_id: api.0.node_id,
                        node_ip: api.0.network_settings.routable_ip,
                        version: api.0.version,
                        current_time: now,
                        connected_nodes: nodes_of_peers(peers@),
                        last_slot,
                        next_slot,
                        consensus_stats,
                        pool_stats,
                        network_stats,
                        config,
                        current_cycle: cycle_of(CycleQuery::spec_current(layout, last_slot)),
                    },
                ),
            }
        }),
{
}

/// The status lists a connection exactly when some peer has that node active,
/// under the peer's own address.
pub proof fn law_connections_are_those_of_the_peers(
    peers: Seq<(IpAddr, Peer)>,
    id: NodeId,
    ip: IpAddr,
    is_outgoing: bool,
)
    ensures
        nodes_of_peers(peers).contains((id, (ip, is_outgoing))) <==> exists|i: int|
            0 <= i < peers.len() && (#[trigger] peers[i]).0 == ip
                && peers[i].1.active_nodes@.contains((id, is_outgoing)),
    decreases peers.len(),
{
    let connection = (id, (ip, is_outgoing));
    if peers.len() > 0 {
        let before = peers.drop_last();
        law_connections_are_those_of_the_peers(before, id, ip, is_outgoing);
        let nodes = nodes_of_peer(peers.last());
        let active = peers.last().1.active_nodes@;
        if nodes_of_peers(peers).contains(connection) {
            let k = choose|k: int|
                0 <= k < nodes_of_peers(peers).len() && nodes_of_peers(peers)[k] == connection;
            let split = nodes_of_peers(before).len();
            if k < split {
                assert(nodes_of_peers(before)[k] == connection);
                let i = choose|i: int|
                    0 <= i < before.len() && (#[trigger] before[i]).0 == ip
                        && before[i].1.active_nodes@.contains((id, is_outgoing));
                assert(peers[i] == before[i]);
            } else {
                assert(nodes[k - split] == connection);
                assert(active[k - split] == (id, is_outgoing));
                assert(peers[peers.len() - 1] == peers.last());
            }
        }
        if exists|i: int|
            0 <= i < peers.len() && (#[trigger] peers[i]).0 == ip
                && peers[i].1.active_nodes@.contains((id, is_outgoing)) {
            let i = choose|i: int|
                0 <= i < peers.len() && (#[trigger] peers[i]).0 == ip
                    && peers[i].1.active_nodes@.contains((id, is_outgoing));
            if i < before.len() {
                assert(before[i] == peers[i]);
                let k = choose|k: int|
                    0 <= k < nodes_of_peers(before).len() && nodes_of_peers(before)[k]
                        == connection;
                assert(nodes_of_peers(peers)[k] == connection);
            } else {
                let k = choose|k: int| 0 <= k < active.len() && active[k] == (id, is_outgoing);
                assert(nodes[k] == connection);
                assert(nodes_of_peers(peers)[nodes_of_peers(before).len() + k] == connection);
            }
        }
    }
}

/// Whether no node is active twice, neither at one peer nor at two.
pub open spec fn no_node_active_twice(peers: Seq<(IpAddr, Peer)>) -> bool {
    forall|i: int, k: int, j: int, l: int|
        #![trigger peers[i].1.active_nodes@[k], peers[j].1.active_nodes@[l]]
        0 <= i < peers.len() && 0 <= k < peers[i].1.active_nodes@.len() && 0 <= j < peers.len()
            && 0 <= l < peers[j].1.active_nodes@.len() && (i != j || k != l)
            ==> peers[i].1.active_nodes@[k].0 != peers[j].1.active_nodes@[l].0
}

/// The identifiers of the nodes to which there is a connection.
pub open spec fn ids_of_nodes(nodes: Seq<(NodeId, (IpAddr, bool))>) -> Seq<NodeId> {
    nodes.map_values(|node: (NodeId, (IpAddr, bool))| node.0)
}

/// Where no node is active twice among the peers, the status lists no node twice.
pub proof fn law_no_node_is_listed_twice(peers: Seq<(IpAddr, Peer)>)
    requires
        no_node_active_twice(peers),
    ensures
        ids_of_nodes(nodes_of_peers(peers)).no_duplicates(),
    decreases peers.len(),
{
    if peers.len() > 0 {
        let before = peers.drop_last();
        let last = peers.last();
        let active = last.1.active_nodes@;
        let ids = ids_of_nodes(nodes_of_peers(peers));
        let ids_before = ids_of_nodes(nodes_of_peers(before));
        let split = ids_before.len() as int;
        let p = peers.len() - 1;
        assert forall|i: int, k: int, j: int, l: int|
            #![trigger before[i].1.active_nodes@[k], before[j].1.active_nodes@[l]]
            0 <= i < before.len() && 0 <= k < before[i].1.active_nodes@.len() && 0 <= j
                < before.len() && 0 <= l < before[j].1.active_nodes@.len() && (i != j || k
                != l) implies before[i].1.active_nodes@[k].0
            != before[j].1.active_nodes@[l].0 by {
            assert(peers[i].1.active_nodes@[k].0 != peers[j].1.active_nodes@[l].0);
        }
        law_no_node_is_listed_twice(before);
        assert forall|a: int| split <= a < ids.len() implies #[trigger] ids[a] == active[a
            - split].0 by {}
        assert forall|a: int| 0 <= a < split implies #[trigger] ids[a] == ids_before[a] by {}
        assert forall|a: int, b: int| 0 <= a < split && split <= b < ids.len() implies ids[a]
            != ids[b] by {
            let node = nodes_of_peers(before)[a];
            law_connections_are_those_of_the_peers(before, node.0, node.1.0, node.1.1);
            assert(nodes_of_peers(before).contains(node));
            let i = choose|i: int|
                0 <= i < before.len() && (#[trigger] before[i]).0 == node.1.0
                    && before[i].1.active_nodes@.contains((node.0, node.1.1));
            let nodes = before[i].1.active_nodes@;
            let k = choose|k: int| 0 <= k < nodes.len() && nodes[k] == (node.0, node.1.1);
            assert(peers[i].1.active_nodes@[k].0 != peers[p].1.active_nodes@[b - split].0);
        }
        assert forall|a: int, b: int| 0 <= a < ids.len() && 0 <= b < ids.len() && a
            != b implies ids[a] != ids[b] by {
            if a >= split && b >= split {
                assert(peers[p].1.active_nodes@[a - split].0 != peers[p].1.active_nodes@[b
                    - split].0);
            }
        }
    }
}

/// The connections of the peers, one after the other.
proof fn lemma_nodes_one_after_the_other(peers: Seq<(IpAddr, Peer)>)
    ensures
        nodes_of_peers(peers) == peers.map_values(
            |entry: (IpAddr, Peer)|
                entry.1.active_nodes@.map_values(
                    |node: (NodeId, bool)| (node.0, (entry.0, node.1)),
                ),
        ).flatten(),
    decreases peers.len(),
{
    let listed = |entry: (IpAddr, Peer)|
        entry.1.active_nodes@.map_values(|node: (NodeId, bool)| (node.0, (entry.0, node.1)));
    if peers.len() > 0 {
        lemma_nodes_one_after_the_other(peers.drop_last());
        let before = peers.drop_last().map_values(listed);
        before.lemma_flatten_push(listed(peers.last()));
        assert(before.push(listed(peers.last())) =~= peers.map_values(listed));
        assert(nodes_of_peer(peers.last()) =~= listed(peers.last()));
    }
}

/// A request for the status goes on with the latest slot exactly if the clock
/// could be read, and then exactly if the latest slot could be worked out; an
/// error is handed on. The latest slot is asked for at the very time that the
/// clock gave, in the node's own graph.
pub proof fn law_status_is_asked_for_at_the_time_of_the_clock<
    Consensus,
    Execution,
    Selector,
    Pool,
    Network,
    Storage,
>(
    api: API<Public<Consensus, Execution, Selector, Pool, Network, Storage>>,
    now: Result<MassaTime, ApiError>,
    begun: Result<StatusAtTime, ApiError>,
    latest: LatestSlotQuery,
    last_slot: Result<Option<Slot>, ApiError>,
    query: Result<StatusQuery, ApiError>,
)
    requires
        call_ensures(
            API::<Public<Consensus, Execution, Selector, Pool, Network, Storage>>::get_status,
            (&api, now),
            begun,
        ),
        begun matches Ok(at) ==> call_ensures(StatusAtTime::latest_slot_query, (&at,), latest),
        begun matches Ok(at) ==> call_ensures(
            StatusAtTime::with_latest_slot,
            (at, last_slot),
            query,
        ),
    ensures
        match now {
            Err(error) => begun == Err::<StatusAtTime, ApiError>(error),
            Ok(now) => {
                &&& begun is Ok
                &&& latest.now == now
                &&& latest.thread_count == api.0.consensus_config.thread_count
                &&& latest.t0 == api.0.consensus_config.t0
                &&& latest.genesis_timestamp == api.0.consensus_config.genesis_timestamp
                &&& match last_slot {
                    Err(error) => query == Err::<StatusQuery, ApiError>(error),
                    Ok(_) => query is Ok,
                }
            },
        },
{
}

/// What a status tells, it tells as it was told: the node by the node's own
/// settings, the time by the clock, the slots and the cycle as they were worked
/// out, and the rest as each service says, whatever the others say. The next slot
/// and the cycle are asked for from the latest slot, or from period 0 in thread 0
/// before the first one, in the node's own graph. Each peer's active nodes are
/// listed under the peer's address, peer by peer, in the order in which they are
/// told.
pub proof fn law_status_is_told_as_it_is_known<
    Consensus,
    Execution,
    Selector,
    Pool,
    Network,
    Storage,
    ConsensusStats,
    NetworkStats,
    Config,
>(
    api: API<Public<Consensus, Execution, Selector, Pool, Network, Storage>>,
    now: MassaTime,
    at: StatusAtTime,
    last_slot: Option<Slot>,
    query: StatusQuery,
    next: NextSlotQuery,
    peers: Vec<(IpAddr, Peer)>,
    next_slot: Slot,
    consensus_stats: ConsensusStats,
    network_stats: NetworkStats,
    pool_stats: (usize, usize),
    config: Config,
    report: StatusReport<ConsensusStats, NetworkStats, Config>,
    cycle: CycleQuery,
    current_cycle: u64,
    status: NodeStatus<ConsensusStats, NetworkStats, Config>,
)
    requires
        call_ensures(
            API::<Public<Consensus, Execution, Selector, Pool, Network, Storage>>::get_status,
            (&api, Ok::<MassaTime, ApiError>(now)),
            Ok::<StatusAtTime, ApiError>(at),
        ),
        call_ensures(
            StatusAtTime::with_latest_slot,
            (at, Ok::<Option<Slot>, ApiError>(last_slot)),
            Ok::<StatusQuery, ApiError>(query),
        ),
        call_ensures(StatusQuery::next_slot_query, (&query,), next),
        call_ensures(
            StatusQuery::report::<ConsensusStats, NetworkStats, Config>,
            (
                query,
                Ok::<Vec<(IpAddr, Peer)>, ApiError>(peers),
                Ok::<Slot, ApiError>(next_slot),
                Ok::<ConsensusStats, ApiError>(consensus_stats),
                Ok::<NetworkStats, ApiError>(network_stats),
                pool_stats,
                config,
            ),
            Ok::<StatusReport<ConsensusStats, NetworkStats, Config>, ApiError>(report),
        ),
        call_ensures(
            StatusReport::<ConsensusStats, NetworkStats, Config>::cycle_query,
            (&report,),
            cycle,
        ),
        call_ensures(
            StatusReport::<ConsensusStats, NetworkStats, Config>::complete,
            (report, current_cycle),
            status,
        ),
    ensures
        match last_slot {
            Some(slot) => next.slot == slot && cycle.slot == slot,
            None => {
                &&& next.slot.period == 0
                &&& next.slot.thread == 0
                &&& cycle.slot.period == 0
                &&& cycle.slot.thread == 0
            },
        },
        next.thread_count == api.0.consensus_config.thread_count,
        cycle.periods_per_cycle == api.0.consensus_config.periods_per_cycle,
        status.node_id == api.0.node_id,
        status.node_ip == api.0.network_settings.routable_ip,
        status.version == api.0.version,
        status.current_time == now,
        status.connected_nodes@ == peers@.map_values(
            |entry: (IpAddr, Peer)|
                entry.1.active_nodes@.map_values(
                    |node: (NodeId, bool)| (node.0, (entry.0, node.1)),
                ),
        ).flatten(),
        status.last_slot == last_slot,
        status.next_slot == next_slot,
        status.consensus_stats == consensus_stats,
        status.network_stats == network_stats,
        status.pool_stats.0 == pool_stats.0,
        status.pool_stats.1 == pool_stats.1,
        status.config == config,
        status.current_cycle == current_cycle,
{
    lemma_nodes_one_after_the_other(peers@);
}

/// What the services say becomes a status exactly if none of them failed;
/// otherwise the answer is the error of the first of peers, next slot, statistics
/// of consensus and statistics of the network that failed.
pub proof fn law_status_needs_every_service<ConsensusStats, NetworkStats, Config>(
    query: StatusQuery,
    peers: Result<Vec<(IpAddr, Peer)>, ApiError>,
    next_slot: Result<Slot, ApiError>,
    consensus_stats: Result<ConsensusStats, ApiError>,
    network_stats: Result<NetworkStats, ApiError>,
    pool_stats: (usize, usize),
    config: Config,
    answer: Result<StatusReport<ConsensusStats, NetworkStats, Config>, ApiError>,
)
    requires
        call_ensures(
            StatusQuery::report::<ConsensusStats, NetworkStats, Config>,
            (query, peers, next_slot, consensus_stats, network_stats, pool_stats, config),
            answer,
        ),
    ensures
        answer is Ok <==> peers is Ok && next_slot is Ok && consensus_stats is Ok
            && network_stats is Ok,
        answer matches Err(error) ==> {
            &&& peers matches Err(first) ==> error == first
            &&& peers is Ok ==> (next_slot matches Err(first) ==> error == first)
            &&& peers is Ok && next_slot is Ok ==> (consensus_stats matches Err(first) ==> error
                == first)
            &&& peers is Ok && next_slot is Ok && consensus_stats is Ok ==> (
            network_stats matches Err(first) ==> error == first)
        },
{
}

} // verus!
