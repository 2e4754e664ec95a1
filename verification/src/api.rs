//! The public API of a node and the endpoints that it refuses.

use crate::error::{ApiError, ApiErrorView};
use crate::id_set::IdSet;
use crate::models::{Address, IpAddr, MassaTime, NodeId, Version};
use vstd::prelude::*;

verus! {

/// The limits of the API.
#[derive(Clone, Copy, PartialEq, Eq, Debug)]
pub struct APISettings {
    /// How many arguments one request may have.
    pub max_arguments: u64,
}

/// The layout of the block graph.
#[derive(Clone, Copy, PartialEq, Eq, Debug)]
pub struct ConsensusConfig {
    /// How many threads the graph has.
    pub thread_count: u8,
    /// The time between two periods.
    pub t0: MassaTime,
    /// When the graph begins.
    pub genesis_timestamp: MassaTime,
    /// How many periods make a cycle.
    pub periods_per_cycle: u64,
}

/// What the node knows of its own place in the network.
#[derive(Clone, Copy, PartialEq, Eq, Debug)]
pub struct NetworkConfig {
    /// The address under which the node can be reached, if it can.
    pub routable_ip: Option<IpAddr>,
}

/// A public key with a signature made with its secret key.
#[derive(PartialEq, Eq, Debug)]
pub struct PubkeySig {
    pub public_key: Vec<u8>,
    pub signature: Vec<u8>,
}

/// What the public API works with: the handles of the node's services, whose
/// types are those of whoever runs the API, and the node's configuration.
pub struct Public<Consensus, Execution, Selector, Pool, Network, Storage> {
    /// The handle of consensus.
    pub consensus_command_sender: Consensus,
    /// The handle of the execution of operations.
    pub execution_controller: Execution,
    pub api_settings: APISettings,
    /// The handle of the draws of block producers.
    pub selector_controller: Selector,
    pub consensus_config: ConsensusConfig,
    /// The handle of the pool of pending operations and endorsements.
    pub pool_command_sender: Pool,
    pub network_settings: NetworkConfig,
    pub version: Version,
    /// The handle of the connections to other nodes.
    pub network_command_sender: Network,
    /// What to add to the machine's clock.
    pub compensation_millis: i64,
    pub node_id: NodeId,
    /// The handle of the storage of blocks, operations and endorsements.
    pub storage: Storage,
}

/// An API of a node.
pub struct API<T>(pub T);

/// The answer of an endpoint that this API does not serve.
fn wrong_api<T>() -> (refusal: Result<T, ApiError>)
    ensures
        refused(refusal),
{
    Err(ApiError::WrongAPI)
}

/// Whether `answer` says that the endpoint belongs to another API.
pub open spec fn refused<T>(answer: Result<T, ApiError>) -> bool {
    answer matches Err(error) && error@ == ApiErrorView::WrongAPI
}

impl<Consensus, Execution, Selector, Pool, Network, Storage> API<
    Public<Consensus, Execution, Selector, Pool, Network, Storage>,
> {
    /// Makes a public API out of the handles of the node's services and its
    /// configuration.
    pub fn new(
        consensus_command_sender: Consensus,
        execution_controller: Execution,
        api_settings: APISettings,
        selector_controller: Selector,
        consensus_settings: ConsensusConfig,
        pool_command_sender: Pool,
        network_settings: NetworkConfig,
        version: Version,
        network_command_sender: Network,
        compensation_millis: i64,
        node_id: NodeId,
        storage: Storage,
    ) -> (api: Self)
        ensures
            api.0.consensus_command_sender == consensus_command_sender,
            api.0.execution_controller == execution_controller,
            api.0.api_settings == api_settings,
            api.0.selector_controller == selector_controller,
            api.0.consensus_config == consensus_settings,
            api.0.pool_command_sender == pool_command_sender,
            api.0.network_settings == network_settings,
            api.0.version == version,
            api.0.network_command_sender == network_command_sender,
            api.0.compensation_millis == compensation_millis,
            api.0.node_id == node_id,
            api.0.storage == storage,
    {
        API(
            Public {
                consensus_command_sender,
                consensus_config: consensus_settings,
                api_settings,
                pool_command_sender,
                network_settings,
                version,
                network_command_sender,
                compensation_millis,
                node_id,
                execution_controller,
                selector_controller,
                storage,
            },
        )
    }

    /// The limit on the number of arguments of one request.
    pub open spec fn max_arguments(&self) -> u64 {
        self.0.api_settings.max_arguments
    }

    /// Refused: stopping the node is not for the public.
    pub fn stop_node(&self) -> (answer: Result<(), ApiError>)
        ensures
            refused(answer),
    {
        wrong_api()
    }

    /// Refused: the public cannot have messages signed by the node.
    pub fn node_sign_message(&self, _message: Vec<u8>) -> (answer: Result<PubkeySig, ApiError>)
        ensures
            refused(answer),
    {
        wrong_api()
    }

    /// Refused: the keys, of whatever type, are not looked at.
    pub fn add_staking_secret_keys<KeyPair>(&self, _keys: Vec<KeyPair>) -> (answer: Result<
        (),
        ApiError,
    >)
        ensures
            refused(answer),
    {
        wrong_api()
    }

    /// Refused: staking is managed through the private API.
    pub fn remove_staking_addresses(&self, _addresses: Vec<Address>) -> (answer: Result<
        (),
        ApiError,
    >)
        ensures
            refused(answer),
    {
        wrong_api()
    }

    /// Refused: which addresses the node stakes with is not for the public.
    pub fn get_staking_addresses(&self) -> (answer: Result<IdSet<Address>, ApiError>)
        ensures
            refused(answer),
    {
        wrong_api()
    }

    /// Refused: bans are managed through the private API.
    pub fn node_ban_by_ip(&self, _ips: Vec<IpAddr>) -> (answer: Result<(), ApiError>)
        ensures
            refused(answer),
    {
        wrong_api()
    }

    /// Refused: bans are managed through the private API.
    pub fn node_ban_by_id(&self, _ids: Vec<NodeId>) -> (answer: Result<(), ApiError>)
        ensures
            refused(answer),
    {
        wrong_api()
    }

    /// Refused: bans are managed through the private API.
    pub fn node_unban_by_ip(&self, _ips: Vec<IpAddr>) -> (answer: Result<(), ApiError>)
        ensures
            refused(answer),
    {
        wrong_api()
    }

    /// Refused: bans are managed through the private API.
    pub fn node_unban_by_id(&self, _ids: Vec<NodeId>) -> (answer: Result<(), ApiError>)
        ensures
            refused(answer),
    {
        wrong_api()
    }

    /// Refused: the whitelist is managed through the private API.
    pub fn node_whitelist(&self, _ips: Vec<IpAddr>) -> (answer: Result<(), ApiError>)
        ensures
            refused(answer),
    {
        wrong_api()
    }

    /// Refused: the whitelist is managed through the private API.
    pub fn node_remove_from_whitelist(&self, _ips: Vec<IpAddr>) -> (answer: Result<(), ApiError>)
        ensures
            refused(answer),
    {
        wrong_api()
    }
}

/// Whatever is asked of an endpoint of the private API, and whatever the node is,
/// the public API answers that the endpoint is not its own.
pub proof fn law_private_endpoints_are_refused<
    Consensus,
    Execution,
    Selector,
    Pool,
    Network,
    Storage,
    KeyPair,
>(
    api: API<Public<Consensus, Execution, Selector, Pool, Network, Storage>>,
    message: Vec<u8>,
    keys: Vec<KeyPair>,
    addresses: Vec<Address>,
    ips: Vec<IpAddr>,
    ids: Vec<NodeId>,
    answer: Result<(), ApiError>,
    signed: Result<PubkeySig, ApiError>,
    staking: Result<IdSet<Address>, ApiError>,
)
    ensures
        call_ensures(
            API::<Public<Consensus, Execution, Selector, Pool, Network, Storage>>::stop_node,
            (&api,),
            answer,
        ) ==> answer == Err::<(), ApiError>(ApiError::WrongAPI),
        call_ensures(
            API::<
                Public<Consensus, Execution, Selector, Pool, Network, Storage>,
            >::node_sign_message,
            (&api, message),
            signed,
        ) ==> signed == Err::<PubkeySig, ApiError>(ApiError::WrongAPI),
        call_ensures(
            API::<
                Public<Consensus, Execution, Selector, Pool, Network, Storage>,
            >::add_staking_secret_keys::<KeyPair>,
            (&api, keys),
            answer,
        ) ==> answer == Err::<(), ApiError>(ApiError::WrongAPI),
        call_ensures(
            API::<
                Public<Consensus, Execution, Selector, Pool, Network, Storage>,
            >::remove_staking_addresses,
            (&api, addresses),
            answer,
        ) ==> answer == Err::<(), ApiError>(ApiError::WrongAPI),
        call_ensures(
            API::<
                Public<Consensus, Execution, Selector, Pool, Network, Storage>,
            >::get_staking_addresses,
            (&api,),
            staking,
        ) ==> staking == Err::<IdSet<Address>, ApiError>(ApiError::WrongAPI),
        call_ensures(
            API::<Public<Consensus, Execution, Selector, Pool, Network, Storage>>::node_ban_by_ip,
            (&api, ips),
            answer,
        ) ==> answer == Err::<(), ApiError>(ApiError::WrongAPI),
        call_ensures(
            API::<Public<Consensus, Execution, Selector, Pool, Network, Storage>>::node_ban_by_id,
            (&api, ids),
            answer,
        ) ==> answer == Err::<(), ApiError>(ApiError::WrongAPI),
        call_ensures(
            API::<Public<Consensus, Execution, Selector, Pool, Network, Storage>>::node_unban_by_ip,
            (&api, ips),
            answer,
        ) ==> answer == Err::<(), ApiError>(ApiError::WrongAPI),
        call_ensures(
            API::<Public<Consensus, Execution, Selector, Pool, Network, Storage>>::node_unban_by_id,
            (&api, ids),
            answer,
        ) ==> answer == Err::<(), ApiError>(ApiError::WrongAPI),
        call_ensures(
            API::<Public<Consensus, Execution, Selector, Pool, Network, Storage>>::node_whitelist,
            (&api, ips),
            answer,
        ) ==> answer == Err::<(), ApiError>(ApiError::WrongAPI),
        call_ensures(
            API::<
                Public<Consensus, Execution, Selector, Pool, Network, Storage>,
            >::node_remove_from_whitelist,
            (&api, ips),
            answer,
        ) ==> answer == Err::<(), ApiError>(ApiError::WrongAPI),
{
}

/// A new API has the handles and the configuration that it is given.
pub proof fn law_new_api_keeps_what_it_is_given<
    Consensus,
    Execution,
    Selector,
    Pool,
    Network,
    Storage,
>(
    consensus_command_sender: Consensus,
    execution_controller: Execution,
    api_settings: APISettings,
    selector_controller: Selector,
    consensus_settings: ConsensusConfig,
    pool_command_sender: Pool,
    network_settings: NetworkConfig,
    version: Version,
    network_command_sender: Network,
    compensation_millis: i64,
    node_id: NodeId,
    storage: Storage,
    api: API<Public<Consensus, Execution, Selector, Pool, Network, Storage>>,
)
    requires
        call_ensures(
            API::<Public<Consensus, Execution, Selector, Pool, Network, Storage>>::new,
            (
                consensus_command_sender,
                execution_controller,
                api_settings,
                selector_controller,
                consensus_settings,
                pool_command_sender,
                network_settings,
                version,
                network_command_sender,
                compensation_millis,
                node_id,
                storage,
            ),
            api,
        ),
    ensures
        api.0.api_settings.max_arguments == api_settings.max_arguments,
        api.0.consensus_config.thread_count == consensus_settings.thread_count,
        api.0.consensus_config.t0 == consensus_settings.t0,
        api.0.consensus_config.genesis_timestamp == consensus_settings.genesis_timestamp,
        api.0.consensus_config.periods_per_cycle == consensus_settings.periods_per_cycle,
        api.0.network_settings.routable_ip == network_settings.routable_ip,
        api.0.version == version,
        api.0.compensation_millis == compensation_millis,
        api.0.node_id == node_id,
        api.0.consensus_command_sender == consensus_command_sender,
        api.0.execution_controller == execution_controller,
        api.0.selector_controller == selector_controller,
        api.0.pool_command_sender == pool_command_sender,
        api.0.network_command_sender == network_command_sender,
        api.0.storage == storage,
{
}

} // verus!
