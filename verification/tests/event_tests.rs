use flow::crypto::{UdpCryptor, UdpReplayProtector};
use flow::network::protocol::InputEvent;
use flow::network::udp::{
    event_packet, format_event, handshake_ack_packet, handshake_pulse_packet, injections_for, is_client_pulse,
    is_handshake_ack, is_handshake_pulse, parse_event, receive_event, Injection,
};

#[test]
fn linux_tests_test_udp_event_formatting_and_parsing() {
    let move_ev = InputEvent::Move { x: 500, y: 600 };
    let click_ev = InputEvent::MouseClick { button: "left".to_string(), pressed: true };
    let scroll_ev = InputEvent::MouseScroll { dx: 1, dy: -2 };
    let key_ev = InputEvent::KeyPress { key: "Key.space".to_string(), pressed: false };
    let stop_ev = InputEvent::Stop;

    // Verify format -> parse parity
    let move_str = format_event(&move_ev);
    if let Some(InputEvent::Move { x, y }) = parse_event(&move_str) {
        assert_eq!(x, 500);
        assert_eq!(y, 600);
    } else {
        panic!("Failed to parse Move event");
    }

    let click_str = format_event(&click_ev);
    if let Some(InputEvent::MouseClick { button, pressed }) = parse_event(&click_str) {
        assert_eq!(button, "left");
        assert!(pressed);
    } else {
        panic!("Failed to parse MouseClick event");
    }

    let scroll_str = format_event(&scroll_ev);
    if let Some(InputEvent::MouseScroll { dx, dy }) = parse_event(&scroll_str) {
        assert_eq!(dx, 1);
        assert_eq!(dy, -2);
    } else {
        panic!("Failed to parse MouseScroll event");
    }

    let key_str = format_event(&key_ev);
    if let Some(InputEvent::KeyPress { key, pressed }) = parse_event(&key_str) {
        assert_eq!(key, "Key.space");
        assert!(!pressed);
    } else {
        panic!("Failed to parse KeyPress event");
    }

    let stop_str = format_event(&stop_ev);
    if let Some(InputEvent::Stop) = parse_event(&stop_str) {
        // Succeeded
    } else {
        panic!("Failed to parse Stop event");
    }
}

#[test]
fn mac_tests_test_udp_event_formatting_and_parsing() {
    let move_ev = InputEvent::Move { x: 500, y: 600 };
    let click_ev = InputEvent::MouseClick { button: "left".to_string(), pressed: true };
    let scroll_ev = InputEvent::MouseScroll { dx: 1, dy: -2 };
    let key_ev = InputEvent::KeyPress { key: "Key.space".to_string(), pressed: false };
    let stop_ev = InputEvent::Stop;

    // Verify format -> parse parity
    let move_str = format_event(&move_ev);
    if let Some(InputEvent::Move { x, y }) = parse_event(&move_str) {
        assert_eq!(x, 500);
        assert_eq!(y, 600);
    } else {
        panic!("Failed to parse Move event");
    }

    let click_str = format_event(&click_ev);
    if let Some(InputEvent::MouseClick { button, pressed }) = parse_event(&click_str) {
        assert_eq!(button, "left");
        assert!(pressed);
    } else {
        panic!("Failed to parse MouseClick event");
    }

    let scroll_str = format_event(&scroll_ev);
    if let Some(InputEvent::MouseScroll { dx, dy }) = parse_event(&scroll_str) {
        assert_eq!(dx, 1);
        assert_eq!(dy, -2);
    } else {
        panic!("Failed to parse MouseScroll event");
    }

    let key_str = format_event(&key_ev);
    if let Some(InputEvent::KeyPress { key, pressed }) = parse_event(&key_str) {
        assert_eq!(key, "Key.space");
        assert!(!pressed);
    } else {
        panic!("Failed to parse KeyPress event");
    }

    let stop_str = format_event(&stop_ev);
    if let Some(InputEvent::Stop) = parse_event(&stop_str) {
        // Succeeded
    } else {
        panic!("Failed to parse Stop event");
    }
}

#[test]
fn integration_tests_test_udp_event_formatting_and_parsing() {
    let move_ev = InputEvent::Move { x: 500, y: 600 };
    let click_ev = InputEvent::MouseClick { button: "left".to_string(), pressed: true };
    let scroll_ev = InputEvent::MouseScroll { dx: 1, dy: -2 };
    let key_ev = InputEvent::KeyPress { key: "Key.space".to_string(), pressed: false };
    let stop_ev = InputEvent::Stop;

    // Verify format -> parse parity
    let move_str = format_event(&move_ev);
    if let Some(InputEvent::Move { x, y }) = parse_event(&move_str) {
        assert_eq!(x, 500);
        assert_eq!(y, 600);
    } else {
        panic!("Failed to parse Move event");
    }

    let click_str = format_event(&click_ev);
    if let Some(InputEvent::MouseClick { button, pressed }) = parse_event(&click_str) {
        assert_eq!(button, "left");
        assert!(pressed);
    } else {
        panic!("Failed to parse MouseClick event");
    }

    let scroll_str = format_event(&scroll_ev);
    if let Some(InputEvent::MouseScroll { dx, dy }) = parse_event(&scroll_str) {
        assert_eq!(dx, 1);
        assert_eq!(dy, -2);
    } else {
        panic!("Failed to parse MouseScroll event");
    }

    let key_str = format_event(&key_ev);
    if let Some(InputEvent::KeyPress { key, pressed }) = parse_event(&key_str) {
        assert_eq!(key, "Key.space");
        assert!(!pressed);
    } else {
        panic!("Failed to parse KeyPress event");
    }

    let stop_str = format_event(&stop_ev);
    if let Some(InputEvent::Stop) = parse_event(&stop_str) {
        // Succeeded
    } else {
        panic!("Failed to parse Stop event");
    }
}

#[test]
fn test_udp_malformed_event_parsing() {
    assert!(parse_event("").is_none());
    assert!(parse_event("mov").is_none());
    assert!(parse_event("mov 100").is_none());
    assert!(parse_event("mov 100 abc").is_none());
    assert!(parse_event("mov abc 100").is_none());
    assert!(parse_event("scrl").is_none());
    assert!(parse_event("scrl 1").is_none());
    assert!(parse_event("scrl abc 2").is_none());
    assert!(parse_event("prsm").is_none());
    assert!(parse_event("prsm true").is_none());
    assert!(parse_event("prsm abc Left").is_none());
    assert!(parse_event("prsk").is_none());
    assert!(parse_event("prsk false").is_none());
    assert!(parse_event("prsk abc Key.space").is_none());
    assert!(parse_event("invalid_action").is_none());
}

#[test]
fn event_texts_are_exact() {
    assert_eq!(format_event(&InputEvent::Move { x: -3, y: 7 }), "mov -3 7");
    assert_eq!(format_event(&InputEvent::MouseScroll { dx: 0, dy: -120 }), "scrl 0 -120");
    assert_eq!(
        format_event(&InputEvent::MouseClick { button: "Button.left".to_string(), pressed: true }),
        "prsm true Button.left"
    );
    match parse_event("prsm true Button.left") {
        Some(InputEvent::MouseClick { button, pressed }) => {
            assert_eq!(button, "left");
            assert!(pressed);
        }
        _ => panic!("expected a click"),
    }
    assert_eq!(format_event(&InputEvent::KeyPress { key: "a b".to_string(), pressed: false }), "prsk false a b");
    assert_eq!(format_event(&InputEvent::Stop), "stp");
}

#[test]
fn parse_keeps_spaces_in_key_names() {
    match parse_event("prsk true a b") {
        Some(InputEvent::KeyPress { key, pressed }) => {
            assert_eq!(key, "a b");
            assert!(pressed);
        }
        _ => panic!("expected a key event"),
    }
}

#[test]
fn parse_rejects_out_of_range_coordinates() {
    assert!(parse_event("mov 2147483648 0").is_none());
    match parse_event("mov -2147483648 2147483647") {
        Some(InputEvent::Move { x, y }) => {
            assert_eq!(x, i32::MIN);
            assert_eq!(y, i32::MAX);
        }
        _ => panic!("expected a move"),
    }
    assert!(parse_event("mov +5 1").is_some());
}

#[test]
fn event_roundtrip_over_packets() {
    let cryptor = UdpCryptor::new(&[5u8; 32], [1, 2, 3, 4]);
    let mut replay = UdpReplayProtector::new();
    let ev = InputEvent::KeyPress { key: "Key.space".to_string(), pressed: true };
    let packet = event_packet(&cryptor, 1, &ev).unwrap();
    match receive_event(&mut replay, &cryptor, &packet) {
        Some(InputEvent::KeyPress { key, pressed }) => {
            assert_eq!(key, "Key.space");
            assert!(pressed);
        }
        _ => panic!("packet did not decode"),
    }
    // The same packet again is a replay.
    assert!(receive_event(&mut replay, &cryptor, &packet).is_none());
}

#[test]
fn short_and_foreign_packets_are_dropped() {
    let cryptor = UdpCryptor::new(&[5u8; 32], [1, 2, 3, 4]);
    let other = UdpCryptor::new(&[6u8; 32], [1, 2, 3, 4]);
    let mut replay = UdpReplayProtector::new();
    assert!(receive_event(&mut replay, &cryptor, &[0u8; 8]).is_none());
    let packet = event_packet(&other, 2, &InputEvent::Stop).unwrap();
    assert!(receive_event(&mut replay, &cryptor, &packet).is_none());
}

#[test]
fn packet_header_is_big_endian_sequence() {
    let cryptor = UdpCryptor::new(&[5u8; 32], [1, 2, 3, 4]);
    let packet = event_packet(&cryptor, 0x0102030405060708, &InputEvent::Stop).unwrap();
    assert_eq!(&packet[..8], &[1, 2, 3, 4, 5, 6, 7, 8]);
    assert_eq!(packet.len(), 8 + 3 + 16);
}

#[test]
fn handshake_packets_are_recognised() {
    let cryptor = UdpCryptor::new(&[8u8; 32], [4, 3, 2, 1]);
    let pulse = handshake_pulse_packet(&cryptor).unwrap();
    let ack = handshake_ack_packet(&cryptor).unwrap();
    assert!(is_handshake_pulse(&cryptor, &pulse));
    assert!(!is_handshake_pulse(&cryptor, &ack));
    assert!(is_handshake_ack(&cryptor, &ack));
    assert!(!is_handshake_ack(&cryptor, &pulse));
    assert!(is_client_pulse("10.0.0.2", "10.0.0.2", &cryptor, &pulse));
    assert!(!is_client_pulse("10.0.0.2", "10.0.0.3", &cryptor, &pulse));
}

#[test]
fn stop_releases_buttons_and_keys() {
    let ops = injections_for(InputEvent::Stop);
    assert_eq!(ops.len(), 6);
    let names: Vec<String> = ops
        .iter()
        .filter_map(|o| match o {
            Injection::ReleaseButton(b) => Some(b.clone()),
            _ => None,
        })
        .collect();
    assert_eq!(names, vec!["left", "right", "middle", "x1", "x2"]);
    assert!(matches!(ops[5], Injection::ReleaseAllKeys));
}

#[test]
fn click_event_becomes_press() {
    let ops = injections_for(InputEvent::MouseClick { button: "left".to_string(), pressed: true });
    assert_eq!(ops.len(), 1);
    assert!(matches!(&ops[0], Injection::PressButton(b) if b == "left"));
    let ops = injections_for(InputEvent::Move { x: 4, y: 5 });
    assert!(matches!(ops[0], Injection::SetPosition { x: 4, y: 5 }));
}
