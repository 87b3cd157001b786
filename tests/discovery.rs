use p2p_bootstrap::discovery::{
    admitted_addresses, advertises_protocol, loop_periods, next_action, ticks_within, LoopAction,
    SwarmInput, KADEMLIA_PROTOCOL_NAME, STATUS_INTERVAL_SECS,
};

fn strings(items: &[&str]) -> Vec<String> {
    items.iter().map(|s| s.to_string()).collect()
}

#[test]
fn dht_peer_has_all_addresses_admitted() {
    let dht = "/dht/1.0.0".to_string();
    let input = SwarmInput::IdentifyReceived {
        peer_id: "peer-a".to_string(),
        protocols: strings(&["/dht/1.0.0", "/other/1.0.0"]),
        listen_addrs: strings(&["/ip4/10.0.0.1/tcp/4001", "/ip4/10.0.0.2/tcp/4001"]),
    };
    match next_action(&dht, input) {
        LoopAction::AddAddresses { peer_id, addrs } => {
            assert_eq!(peer_id, "peer-a");
            assert_eq!(
                addrs,
                strings(&["/ip4/10.0.0.1/tcp/4001", "/ip4/10.0.0.2/tcp/4001"])
            );
        }
        _ => panic!("addresses were not admitted"),
    }
}

#[test]
fn peer_without_dht_is_ignored() {
    let dht = "/dht/1.0.0".to_string();
    let input = SwarmInput::IdentifyReceived {
        peer_id: "peer-b".to_string(),
        protocols: strings(&["/other/1.0.0"]),
        listen_addrs: strings(&["/ip4/10.0.0.3/tcp/4001"]),
    };
    assert!(matches!(next_action(&dht, input), LoopAction::Ignore));
}

#[test]
fn similar_protocol_names_are_not_admitted() {
    let dht = "/dht/1.0.0".to_string();
    let protocols = strings(&["/dht/1.0.0/extra", "/dht/1.0", "/DHT/1.0.0", " /dht/1.0.0"]);
    assert!(!advertises_protocol(&protocols, &dht));
    let admitted = admitted_addresses(&dht, &protocols, vec![1u32, 2, 3]);
    assert!(admitted.is_empty());
}

#[test]
fn exact_protocol_name_admits_every_address() {
    let dht = KADEMLIA_PROTOCOL_NAME.to_string();
    let protocols = strings(&["/ipfs/id/1.0.0", KADEMLIA_PROTOCOL_NAME]);
    assert!(advertises_protocol(&protocols, &dht));
    assert_eq!(admitted_addresses(&dht, &protocols, vec![1u32, 2, 3]), vec![1, 2, 3]);
    assert!(!advertises_protocol(&Vec::new(), &dht));
}

#[test]
fn timers_and_other_events_dispatch() {
    let dht = "/dht/1.0.0".to_string();
    assert!(matches!(
        next_action::<u8, u8>(&dht, SwarmInput::BootstrapTick),
        LoopAction::Bootstrap
    ));
    assert!(matches!(
        next_action::<u8, u8>(&dht, SwarmInput::StatusTick),
        LoopAction::ReportStatus
    ));
    assert!(matches!(
        next_action::<u8, u8>(&dht, SwarmInput::Other),
        LoopAction::Ignore
    ));
}

#[test]
fn bootstrap_tick_after_failed_bootstrap_bootstraps_again() {
    let dht = "/dht/1.0.0".to_string();
    let first = next_action::<u8, u8>(&dht, SwarmInput::BootstrapTick);
    assert!(matches!(first, LoopAction::Bootstrap));
    let failed: Result<(), &str> = Err("no known peers");
    assert!(failed.is_err());
    let second = next_action::<u8, u8>(&dht, SwarmInput::BootstrapTick);
    assert!(matches!(second, LoopAction::Bootstrap));
}

#[test]
fn status_period_is_fixed_whatever_the_bootstrap_interval() {
    let a = loop_periods(10).unwrap();
    let b = loop_periods(1).unwrap();
    assert_eq!(a.status_secs, STATUS_INTERVAL_SECS);
    assert_eq!(b.status_secs, 5);
    assert_eq!(a.bootstrap_secs, 10);
    assert_eq!(b.bootstrap_secs, 1);
    assert!(loop_periods(0).is_none());
}

#[test]
fn twenty_second_run_fires_status_four_times_and_bootstrap_twice() {
    let periods = loop_periods(10).unwrap();
    assert_eq!(ticks_within(periods.status_secs, 20), 4);
    assert_eq!(ticks_within(periods.bootstrap_secs, 20), 2);
    assert_eq!(ticks_within(5, 21), 5);
    assert_eq!(ticks_within(5, 0), 0);
    assert_eq!(ticks_within(1, u64::MAX), u64::MAX);
    assert_eq!(ticks_within(2, u64::MAX), u64::MAX / 2 + 1);
}
