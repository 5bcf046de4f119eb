use flow::hardware::linux::{
    button_name_to_evdev, evdev_code_to_button, evdev_key_to_name, grab_change, key_name_to_evdev_key, linux_key_step,
    linux_mouse_step, LinuxKeyAction, LinuxMouseAction, ModifierState,
};
use flow::hardware::mac::{
    mac_button_event, mac_motion_event, pasteboard_type, MacButtons,
    get_mac_keycode, keyboard_tap_decision, mac_key_name, mouse_tap_decision, KeyTapAction, KeyboardListenerCallbacks,
    MouseListenerCallbacks, MouseTapAction,
};
use flow::hardware::{
    check_and_consume_ignore_hash, file_uri_list, fulfillment_text, get_screeninfo, push_ignore_hash,
    uses_physical_pixels, FulfillmentPayload, Platform, PromisedClipboard,
};

#[test]
fn test_mac_keyboard_key_name_mapping() {
    assert_eq!(get_mac_keycode("Key.cmd", &[]), Some(55));
    assert_eq!(get_mac_keycode("Key.shift", &[]), Some(56));
    assert_eq!(get_mac_keycode("Key.ctrl", &[]), Some(59));
    assert_eq!(get_mac_keycode("Key.alt", &[]), Some(58));

    assert_eq!(get_mac_keycode("a", &[]), Some(0));
    assert_eq!(get_mac_keycode("'s'", &[]), Some(1));
    assert_eq!(get_mac_keycode(" ", &[]), Some(49));
}

#[test]
fn live_layout_wins_over_us_layout() {
    let mut layout: Vec<Option<char>> = vec![None; 128];
    layout[12] = Some('A');
    layout[40] = Some('a');
    assert_eq!(get_mac_keycode("a", &layout), Some(40));
    assert_eq!(get_mac_keycode("'A'", &layout), Some(40));
    assert_eq!(get_mac_keycode("b", &layout), Some(11));
    assert_eq!(get_mac_keycode("Key.unknown", &layout), None);
    assert_eq!(get_mac_keycode("", &layout), None);
    assert_eq!(get_mac_keycode("''", &layout), Some(39));
}

#[test]
fn mac_key_names_roundtrip() {
    for code in 0u16..200 {
        if let Some(name) = mac_key_name(code) {
            assert_eq!(get_mac_keycode(name, &[]), Some(code));
        }
    }
    assert_eq!(mac_key_name(51), Some("Key.backspace"));
}

#[test]
fn linux_key_names_roundtrip() {
    for code in 0u16..300 {
        let name = evdev_key_to_name(code);
        if let Some(back) = key_name_to_evdev_key(&name) {
            assert_eq!(back, code, "name {}", name);
        }
    }
    assert_eq!(key_name_to_evdev_key("A"), Some(30));
    assert_eq!(key_name_to_evdev_key("Super_R"), Some(126));
    assert_eq!(evdev_key_to_name(30), "a");
    assert_eq!(evdev_key_to_name(183), "KEY_F13");
}

#[test]
fn linux_buttons() {
    assert_eq!(button_name_to_evdev("LEFT"), Some(0x110));
    assert_eq!(button_name_to_evdev("back"), Some(0x113));
    assert_eq!(button_name_to_evdev("Forward"), Some(0x114));
    assert_eq!(button_name_to_evdev("x1"), None);
    assert_eq!(evdev_code_to_button(0x112), Some("Middle".to_string()));
    assert_eq!(evdev_code_to_button(30), None);
}

#[test]
fn linux_listener_steps() {
    let (pos, a) = linux_mouse_step((10, 10), 2, 0, 5);
    assert_eq!(pos, (15, 10));
    assert!(matches!(a, LinuxMouseAction::Move { dx: 5, dy: 0 }));
    let (pos, a) = linux_mouse_step((15, 10), 2, 8, -1);
    assert_eq!(pos, (15, 10));
    assert!(matches!(a, LinuxMouseAction::Scroll { x: 15, y: 10, dx: 0, dy: -1 }));
    let (_, a) = linux_mouse_step((15, 10), 1, 0x110, 1);
    assert!(matches!(a, LinuxMouseAction::Click { x: 15, y: 10, ref button, pressed: true } if button == "Left"));

    let m = ModifierState { ctrl_down: false, alt_down: false };
    let (m, _) = linux_key_step(m, 29, 1);
    let (m, _) = linux_key_step(m, 56, 1);
    let (m, a) = linux_key_step(m, 1, 1);
    assert!(matches!(a, LinuxKeyAction::EmergencyRelease));
    let (m, _) = linux_key_step(m, 29, 0);
    let (_, a) = linux_key_step(m, 1, 1);
    assert!(matches!(a, LinuxKeyAction::Press(ref n) if n == "Escape"));
    assert_eq!(grab_change(true, true, false), Some(true));
    assert_eq!(grab_change(true, false, true), Some(false));
    assert_eq!(grab_change(false, true, false), None);
}

#[test]
fn mac_taps() {
    let mouse = MouseListenerCallbacks {
        on_move: (),
        on_click: (),
        on_scroll: (),
        suppress: true,
        x_center: 960,
        y_center: 540,
        has_move: true,
        override_redirect: Some(true),
    };
    let o = mouse_tap_decision(&mouse, false, 5, (1, 2), (3, 4), 0, (0, 0));
    assert!(o.swallow);
    assert!(matches!(o.action, MouseTapAction::Move { dx: 3, dy: 4 }));
    let o = mouse_tap_decision(&mouse, false, 25, (1, 2), (0, 0), 7, (0, 0));
    assert!(matches!(o.action, MouseTapAction::Click { ref button, pressed: true, .. } if button == "Button.button7"));
    let o = mouse_tap_decision(&mouse, false, 26, (1, 2), (0, 0), 3, (0, 0));
    assert!(matches!(o.action, MouseTapAction::Click { ref button, pressed: false, .. } if button == "Button.x1"));
    let o = mouse_tap_decision(&mouse, false, 0xFFFF_FFFF, (1, 2), (3, 4), 0, (0, 0));
    assert!(!o.swallow && matches!(o.action, MouseTapAction::Nothing));

    let keys = KeyboardListenerCallbacks { on_press: (), on_release: (), suppress: false, override_redirect: None };
    let o = keyboard_tap_decision(&keys, false, 10, 53, 0x0004_0000 | 0x0008_0000, None);
    assert!(matches!(o.action, KeyTapAction::EmergencyRelease));
    let o = keyboard_tap_decision(&keys, false, 10, 0, 0, None);
    assert!(matches!(o.action, KeyTapAction::Nothing));
    let o = keyboard_tap_decision(&keys, true, 10, 0, 0, Some("a".to_string()));
    assert!(matches!(o.action, KeyTapAction::Press(ref n) if n == "'a'"));
    let o = keyboard_tap_decision(&keys, true, 12, 56, 0x0002_0000, None);
    assert!(matches!(o.action, KeyTapAction::Press(ref n) if n == "Key.shift_l"));
    let o = keyboard_tap_decision(&keys, true, 12, 56, 0, None);
    assert!(matches!(o.action, KeyTapAction::Release(ref n) if n == "Key.shift_l"));
    let o = keyboard_tap_decision(&keys, true, 11, 65, 0, None);
    assert!(matches!(o.action, KeyTapAction::Release(ref n) if n == "'A'"));
}

#[test]
fn ignore_queue_keeps_ten_hashes() {
    let mut q: Vec<u64> = Vec::new();
    for h in 0..12u64 {
        push_ignore_hash(&mut q, h);
    }
    assert_eq!(q, (2..12).collect::<Vec<u64>>());
    assert!(!check_and_consume_ignore_hash(&mut q, 0));
    push_ignore_hash(&mut q, 5);
    assert!(check_and_consume_ignore_hash(&mut q, 5));
    assert!(!check_and_consume_ignore_hash(&mut q, 5));
    // Every occurrence is consumed: 5 was in the queue twice.
    assert_eq!(q.len(), 8);
}

#[test]
fn promises_deliver_to_waiting_paste_only() {
    let mut p: PromisedClipboard<fn(String)> = PromisedClipboard::new();
    assert!(p.fulfill_promise("x", FulfillmentPayload::Text("t".to_string())).is_none());
    p.set_promise("x", "text", 10, false);
    assert_eq!(p.active_format("x"), Some("text".to_string()));
    assert_eq!(p.active_format("y"), None);
    assert!(p.fulfill_promise("x", FulfillmentPayload::Text("t".to_string())).is_none());
    assert_eq!(p.begin_request(), Some("x".to_string()));
    assert!(p.fulfill_promise("y", FulfillmentPayload::Text("t".to_string())).is_none());
    assert!(matches!(p.fulfill_promise("x", FulfillmentPayload::Text("t".to_string())), Some(FulfillmentPayload::Text(ref t)) if t == "t"));
    fn cb(_: String) {}
    p.on_request(cb);
}

#[test]
fn platform_facts() {
    assert_eq!(get_screeninfo(), (1920, 1080));
    assert!(!uses_physical_pixels(Platform::MacOs));
    assert!(uses_physical_pixels(Platform::Linux));
    assert!(uses_physical_pixels(Platform::Windows));
}

#[test]
fn clipboard_texts_of_files() {
    let files = vec!["/a".to_string(), "/b c".to_string()];
    assert_eq!(fulfillment_text(&FulfillmentPayload::Files(files.clone())), "/a\n/b c");
    assert_eq!(fulfillment_text(&FulfillmentPayload::Text("x".to_string())), "x");
    assert_eq!(file_uri_list(&files), "file:///a\nfile:///b c");
    assert_eq!(file_uri_list(&[]), "");
}

#[test]
fn mac_simulated_buttons() {
    let mut b = MacButtons { left: false, right: false, middle: false, x1: false, x2: false };
    assert_eq!(mac_motion_event(&b), (5, 0));
    assert_eq!(mac_button_event(&mut b, "Right", true), Some((3, 1)));
    assert_eq!(mac_motion_event(&b), (7, 1));
    assert_eq!(mac_button_event(&mut b, "LEFT", true), Some((1, 0)));
    assert_eq!(mac_motion_event(&b), (6, 0));
    assert_eq!(mac_button_event(&mut b, "button9", false), Some((26, 4)));
    assert_eq!(mac_button_event(&mut b, "wheel", true), None);
    assert!(b.left && b.right && !b.x2);
    assert_eq!(pasteboard_type("files"), Some("NSFilenamesPboardType"));
    assert_eq!(pasteboard_type("image"), None);
}

#[test]
fn mac_pasteboard_polling() {
    let step = flow::hardware::mac::clipboard_poll_step;
    assert_eq!(step(3, 3, -1, false), (3, false));
    assert_eq!(step(3, 4, -1, false), (4, true));
    assert_eq!(step(3, 4, 4, false), (4, false));
    assert_eq!(step(3, 4, -1, true), (3, false));
}

#[test]
fn owner_changes_skip_own_writes() {
    let mut q: Vec<u64> = Vec::new();
    assert!(!flow::hardware::linux::owner_change_notifies(&mut q, "x", true));
    assert!(flow::hardware::linux::owner_change_notifies(&mut q, "", false));
    push_ignore_hash(&mut q, flow::engine::clipboard::hash_clipboard_data("mine"));
    assert!(!flow::hardware::linux::owner_change_notifies(&mut q, "mine", false));
    assert!(flow::hardware::linux::owner_change_notifies(&mut q, "mine", false));
}
