use mde_shell::discovery::{
    Announce, DeviceType, DiscoveryRegistry, SyntheticAnnounce, STALE_WINDOW_MS,
};

#[test]
fn synthetic_announce_is_fresh_within_90s_window() {
    let s = SyntheticAnnounce {
        announce: Announce {
            device_id: "abc".to_string(),
            device_name: "phone".to_string(),
            device_type: DeviceType::Phone,
            protocol_version: 7,
            incoming_capabilities: vec![],
            outgoing_capabilities: vec![],
        },
        relayed_by: "peer-A".to_string(),
        relayed_at_ms: 1_000_000,
    };
    assert!(s.is_fresh(1_050_000));
    assert!(s.is_fresh(1_090_000));
    assert!(!s.is_fresh(1_091_000));
    assert!(!s.is_fresh(1_200_000));
}

fn sample_announce(device_id: &str) -> Announce {
    Announce {
        device_id: device_id.to_string(),
        device_name: device_id.to_string(),
        device_type: DeviceType::Phone,
        protocol_version: 7,
        incoming_capabilities: vec![],
        outgoing_capabilities: vec![],
    }
}

#[test]
fn registry_starts_empty() {
    let r = DiscoveryRegistry::new();
    assert!(r.is_empty());
    assert_eq!(r.len(), 0);
}

#[test]
fn inject_real_marks_relayer_as_self() {
    let mut r = DiscoveryRegistry::new();
    r.inject_real(sample_announce("phone-A"), 1000);
    assert_eq!(r.relayer_for("phone-A"), Some("self"));
    assert_eq!(r.len(), 1);
}

#[test]
fn inject_synthetic_records_neighbor_relayer() {
    let mut r = DiscoveryRegistry::new();
    let synth = SyntheticAnnounce {
        announce: sample_announce("phone-X"),
        relayed_by: "peer-A".to_string(),
        relayed_at_ms: 1000,
    };
    r.inject_synthetic(synth);
    assert_eq!(r.relayer_for("phone-X"), Some("peer-A"));
}

#[test]
fn inject_replaces_existing_entry_for_same_device() {
    let mut r = DiscoveryRegistry::new();
    r.inject_real(sample_announce("phone-A"), 1000);
    r.inject_real(sample_announce("phone-A"), 2000);
    assert_eq!(r.len(), 1, "second inject must replace, not duplicate");
}

#[test]
fn take_fresh_filters_stale_entries() {
    let mut r = DiscoveryRegistry::new();
    r.inject_real(sample_announce("phone-A"), 1000);
    r.inject_real(sample_announce("phone-B"), 10);
    let now = 10 + STALE_WINDOW_MS + 1;
    let fresh = r.take_fresh(now);
    let ids: Vec<&str> = fresh.iter().map(|a| a.device_id.as_str()).collect();
    assert!(ids.contains(&"phone-A"));
    assert!(!ids.contains(&"phone-B"));
}

#[test]
fn prune_stale_drops_old_entries() {
    let mut r = DiscoveryRegistry::new();
    r.inject_real(sample_announce("phone-A"), 1000);
    r.inject_real(sample_announce("phone-B"), 10);
    let now = 10 + STALE_WINDOW_MS + 1;
    let dropped = r.prune_stale(now);
    assert_eq!(dropped, 1);
    assert_eq!(r.len(), 1);
    assert_eq!(r.relayer_for("phone-A"), Some("self"));
    assert!(r.relayer_for("phone-B").is_none());
}

#[test]
fn synthetic_replaces_prior_real_announce_for_same_device() {
    let mut r = DiscoveryRegistry::new();
    r.inject_real(sample_announce("phone-A"), 1000);
    assert_eq!(r.relayer_for("phone-A"), Some("self"));
    r.inject_synthetic(SyntheticAnnounce {
        announce: sample_announce("phone-A"),
        relayed_by: "peer-B".to_string(),
        relayed_at_ms: 2000,
    });
    assert_eq!(r.relayer_for("phone-A"), Some("peer-B"));
    assert_eq!(r.len(), 1);
}

#[test]
fn prune_then_take_fresh_agree_at_the_boundary() {
    let mut r = DiscoveryRegistry::new();
    r.inject_real(sample_announce("edge"), 0);
    r.inject_real(sample_announce("late"), 5);
    // Exactly STALE_WINDOW_MS old is still fresh.
    assert_eq!(r.take_fresh(STALE_WINDOW_MS).len(), 2);
    assert_eq!(r.prune_stale(STALE_WINDOW_MS + 1), 1);
    let fresh = r.take_fresh(STALE_WINDOW_MS + 1);
    assert_eq!(fresh.len(), 1);
    assert_eq!(fresh[0].device_id, "late");
    // A clock far behind never overflows the age computation.
    assert_eq!(r.take_fresh(i64::MIN).len(), 1);
}

#[test]
fn registry_len_counts_distinct_devices_over_a_series() {
    let mut r = DiscoveryRegistry::new();
    r.inject_real(sample_announce("a"), 100);
    r.inject_real(sample_announce("b"), 100);
    r.inject_real(sample_announce("a"), 200);
    r.inject_synthetic(SyntheticAnnounce {
        announce: sample_announce("b"),
        relayed_by: "peer".to_string(),
        relayed_at_ms: 300,
    });
    r.inject_real(sample_announce("c"), 0);
    assert_eq!(r.len(), 3);
    r.prune_stale(STALE_WINDOW_MS + 1);
    assert_eq!(r.len(), 2);
    assert!(!r.is_empty());
}

#[test]
fn injected_synthetic_is_fresh_exactly_when_it_is_fresh() {
    let mut r = DiscoveryRegistry::new();
    r.inject_real(sample_announce("phone-A"), 0);
    let s = SyntheticAnnounce {
        announce: sample_announce("phone-A"),
        relayed_by: "peer".to_string(),
        relayed_at_ms: 1_000,
    };
    r.inject_synthetic(s.clone());
    for now in [1_000, 1_000 + STALE_WINDOW_MS, 1_001 + STALE_WINDOW_MS] {
        let fresh = r.take_fresh(now);
        assert_eq!(fresh.contains(&s.announce), s.is_fresh(now));
        assert!(fresh.len() <= 1);
    }
}
