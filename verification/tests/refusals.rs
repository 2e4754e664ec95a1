use massa_api::api::{APISettings, ConsensusConfig, NetworkConfig, Public, API};
use massa_api::error::ApiError;
use massa_api::models::{Address, IpAddr, MassaTime, NodeId, Version};

type Handles = API<Public<&'static str, &'static str, &'static str, &'static str, &'static str, &'static str>>;

fn api() -> Handles {
    API::new(
        "consensus",
        "execution",
        APISettings { max_arguments: 3 },
        "selector",
        ConsensusConfig {
            thread_count: 32,
            t0: MassaTime(16_000),
            genesis_timestamp: MassaTime(1_000),
            periods_per_cycle: 128,
        },
        "pool",
        NetworkConfig { routable_ip: Some(IpAddr::V4([1, 2, 3, 4])) },
        Version { instance: ['T', 'E', 'S', 'T'], major: 13, minor: 2 },
        "network",
        -7,
        NodeId([9; 32]),
        "storage",
    )
}

#[test]
fn new_keeps_what_it_is_given() {
    let public = api().0;
    assert_eq!(public.consensus_command_sender, "consensus");
    assert_eq!(public.execution_controller, "execution");
    assert_eq!(public.api_settings.max_arguments, 3);
    assert_eq!(public.selector_controller, "selector");
    assert_eq!(public.consensus_config.thread_count, 32);
    assert_eq!(public.consensus_config.periods_per_cycle, 128);
    assert_eq!(public.consensus_config.t0, MassaTime(16_000));
    assert_eq!(public.consensus_config.genesis_timestamp, MassaTime(1_000));
    assert_eq!(public.pool_command_sender, "pool");
    assert_eq!(public.network_settings.routable_ip, Some(IpAddr::V4([1, 2, 3, 4])));
    assert_eq!(public.version.major, 13);
    assert_eq!(public.network_command_sender, "network");
    assert_eq!(public.compensation_millis, -7);
    assert_eq!(public.node_id, NodeId([9; 32]));
    assert_eq!(public.storage, "storage");
}

#[test]
fn private_endpoints_are_refused() {
    let api = api();
    assert_eq!(api.stop_node(), Err(ApiError::WrongAPI));
    assert_eq!(api.node_sign_message(vec![1, 2]), Err(ApiError::WrongAPI));
    assert_eq!(api.add_staking_secret_keys(vec!["key"]), Err(ApiError::WrongAPI));
    assert_eq!(api.remove_staking_addresses(vec![Address([1; 32])]), Err(ApiError::WrongAPI));
    assert_eq!(api.get_staking_addresses().err(), Some(ApiError::WrongAPI));
    let ip = IpAddr::V6([0; 16]);
    assert_eq!(api.node_ban_by_ip(vec![ip]), Err(ApiError::WrongAPI));
    assert_eq!(api.node_unban_by_ip(vec![ip]), Err(ApiError::WrongAPI));
    assert_eq!(api.node_ban_by_id(vec![NodeId([1; 32])]), Err(ApiError::WrongAPI));
    assert_eq!(api.node_unban_by_id(vec![]), Err(ApiError::WrongAPI));
    assert_eq!(api.node_whitelist(vec![]), Err(ApiError::WrongAPI));
    assert_eq!(api.node_remove_from_whitelist(vec![ip]), Err(ApiError::WrongAPI));
}
