use flow::crypto::UdpCryptor;
use flow::network::protocol::ScreenMetrics;
use flow::network::tls::{begin_trust_check, finish_trust_check, TrustAnswer, TrustDecision, TrustLookup};
use flow::state::{InputControlState, PeerState, StateManager};

fn connected(id: u64) -> PeerState {
    PeerState::FullyConnected {
        metrics: ScreenMetrics { width: 0, height: 0, monitors: Vec::new(), uses_physical_pixels: false },
        udp_addr: "10.0.0.9:8118".to_string(),
        cryptor: UdpCryptor::new(&[0u8; 32], [0, 0, 0, 0]),
        connection_id: id,
    }
}

#[test]
fn transition_needs_a_fully_connected_peer() {
    let mut s = StateManager::new();
    assert!(!s.request_transition("10.0.0.9", (5, 5)));
    s.set_peer_state("10.0.0.9", PeerState::UdpHandshaking);
    assert!(!s.request_transition("10.0.0.9", (5, 5)));
    s.set_peer_state("10.0.0.9", connected(1));
    assert!(s.request_transition("10.0.0.9", (5, 6)));
    match s.get_input_state() {
        InputControlState::Redirected { target_ip, return_pos } => {
            assert_eq!(target_ip, "10.0.0.9");
            assert_eq!(return_pos, (5, 6));
        }
        InputControlState::Local => panic!("input should be redirected"),
    }
}

#[test]
fn disconnect_of_controlled_peer_releases_input() {
    let mut s = StateManager::new();
    s.set_peer_state("a", connected(1));
    assert!(s.request_transition("a", (0, 0)));
    assert!(s.set_peer_state("a", PeerState::Disconnected));
    assert!(matches!(s.get_input_state(), InputControlState::Local));
    assert!(s.take_release_request());
    assert!(!s.take_release_request());
}

#[test]
fn removing_controlled_peer_releases_input() {
    let mut s = StateManager::new();
    s.set_peer_state("a", connected(1));
    s.set_peer_state("b", connected(2));
    assert!(s.request_transition("a", (0, 0)));
    assert!(!s.remove_peer("b"));
    assert!(matches!(s.get_input_state(), InputControlState::Redirected { .. }));
    assert!(s.remove_peer("a"));
    assert!(matches!(s.get_input_state(), InputControlState::Local));
    assert!(s.get_peer_state("a").is_none());
}

#[test]
fn topology_version_counts_changes() {
    let mut s = StateManager::new();
    assert_eq!(s.topology_version(), 1);
    s.set_peer_state("a", PeerState::Connecting);
    s.notify_topology_changed();
    s.remove_peer("a");
    assert_eq!(s.topology_version(), 4);
}

#[test]
fn connected_peers_in_order() {
    let mut s = StateManager::new();
    s.set_peer_state("b", connected(1));
    s.set_peer_state("a", PeerState::Connecting);
    s.set_peer_state("c", connected(2));
    assert_eq!(s.get_fully_connected_peers(), vec!["b".to_string(), "c".to_string()]);
    assert!(s.has_any_connected_peer());
    assert!(s.is_peer_fully_connected("c"));
    assert!(!s.is_peer_fully_connected("a"));
    let empty = StateManager::new();
    assert!(!empty.has_any_connected_peer());
}

#[test]
fn emergency_release_reports_previous_target() {
    let mut s = StateManager::new();
    assert!(s.emergency_release().is_none());
    s.set_peer_state("a", connected(1));
    s.request_transition("a", (1, 1));
    assert_eq!(s.emergency_release(), Some("a".to_string()));
    assert!(matches!(s.get_input_state(), InputControlState::Local));
    s.transition_to_local();
    assert!(matches!(s.get_input_state(), InputControlState::Local));
}

#[test]
fn trusted_fingerprint_is_accepted_without_prompt() {
    let mut s = StateManager::new();
    let d = begin_trust_check(&mut s, "10.0.0.5", "AA:BB", &TrustLookup::Trusted("AA:BB".to_string()));
    assert!(matches!(d, TrustDecision::Accept));
    assert!(matches!(s.get_peer_state("10.0.0.5"), Some(PeerState::TlsEstablished)));
    assert!(s.get_pending_trusts().is_empty());
}

#[test]
fn changed_fingerprint_prompts_with_warning() {
    let mut s = StateManager::new();
    let d = begin_trust_check(&mut s, "10.0.0.5", "AA:BC", &TrustLookup::Trusted("AA:BB".to_string()));
    assert!(matches!(d, TrustDecision::Prompt { is_mismatch: true }));
    let p = s.get_pending_trusts();
    assert_eq!(p.len(), 1);
    assert_eq!(p[0].fingerprint, "AA:BC");
    assert!(p[0].is_mismatch);
    let d = begin_trust_check(&mut s, "10.0.0.6", "CC", &TrustLookup::Unknown);
    assert!(matches!(d, TrustDecision::Prompt { is_mismatch: false }));
    let d = begin_trust_check(&mut s, "10.0.0.7", "CC", &TrustLookup::Failed);
    assert!(matches!(d, TrustDecision::Prompt { is_mismatch: false }));
    assert_eq!(s.get_pending_trusts().len(), 3);
}

#[test]
fn approval_answers_once_and_rejection_disconnects() {
    let mut s = StateManager::new();
    begin_trust_check(&mut s, "p", "F", &TrustLookup::Unknown);
    assert!(s.approve_trust("p"));
    assert!(!s.approve_trust("p"));
    assert!(!s.approve_trust("unknown"));
    begin_trust_check(&mut s, "q", "F", &TrustLookup::Unknown);
    assert!(s.reject_trust("q"));
    assert!(matches!(s.get_peer_state("q"), Some(PeerState::Disconnected)));
    assert!(!s.reject_trust("r"));
    assert!(matches!(s.get_peer_state("r"), Some(PeerState::Disconnected)));
}

#[test]
fn user_answer_decides_the_certificate() {
    let mut s = StateManager::new();
    assert!(finish_trust_check(&mut s, "p", TrustAnswer::Accepted));
    assert!(matches!(s.get_peer_state("p"), Some(PeerState::TlsEstablished)));
    assert!(!finish_trust_check(&mut s, "p", TrustAnswer::Rejected));
    assert!(matches!(s.get_peer_state("p"), Some(PeerState::Disconnected)));
    assert!(!finish_trust_check(&mut s, "p", TrustAnswer::TimedOut));
}

#[test]
fn active_monitors_are_replaced() {
    let mut s = StateManager::new();
    assert!(s.get_active_monitors().is_empty());
    let v0 = s.topology_version();
    s.update_active_monitors(vec![flow::config::MonitorLayout {
        monitor_id: "m".to_string(),
        host: "main".to_string(),
        monitor_name: "A".to_string(),
        x: 0,
        y: 0,
        width: 1,
        height: 1,
        scale_factor_bits: 0,
        local_x: 0,
        local_y: 0,
    }]);
    assert_eq!(s.get_active_monitors().len(), 1);
    assert_eq!(s.topology_version(), v0 + 1);
}

#[test]
fn peer_states_read_in_logs() {
    assert_eq!(PeerState::Connecting.describe(), "Connecting");
    assert_eq!(connected(42).describe(), "FullyConnected(udp=10.0.0.9:8118, conn_id=42)");
    let mut s = StateManager::new();
    begin_trust_check(&mut s, "10.0.0.5", "AB", &TrustLookup::Trusted("CD".to_string()));
    assert_eq!(
        s.get_peer_state("10.0.0.5").unwrap().describe(),
        "PendingTrustApproval(ip=10.0.0.5, mismatch=true)"
    );
}
