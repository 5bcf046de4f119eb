//! macOS input: the names the event tap gives to keys and buttons, the
//! reverse lookup used to replay a key, and the decisions the event taps
//! make for each captured event.
use vstd::prelude::*;
use crate::text::{chars_of, chars_start_with, push_int_text, int_text, lowercase_of, str_eq, str_to_lowercase, string_of};

verus! {

pub const K_CG_EVENT_LEFT_MOUSE_DOWN: u32 = 1;
pub const K_CG_EVENT_LEFT_MOUSE_UP: u32 = 2;
pub const K_CG_EVENT_RIGHT_MOUSE_DOWN: u32 = 3;
pub const K_CG_EVENT_RIGHT_MOUSE_UP: u32 = 4;
pub const K_CG_EVENT_MOUSE_MOVED: u32 = 5;
pub const K_CG_EVENT_LEFT_MOUSE_DRAGGED: u32 = 6;
pub const K_CG_EVENT_RIGHT_MOUSE_DRAGGED: u32 = 7;
pub const K_CG_EVENT_KEY_DOWN: u32 = 10;
pub const K_CG_EVENT_KEY_UP: u32 = 11;
pub const K_CG_EVENT_FLAGS_CHANGED: u32 = 12;
pub const K_CG_EVENT_SCROLL_WHEEL: u32 = 22;
pub const K_CG_EVENT_OTHER_MOUSE_DOWN: u32 = 25;
pub const K_CG_EVENT_OTHER_MOUSE_UP: u32 = 26;
pub const K_CG_EVENT_OTHER_MOUSE_DRAGGED: u32 = 27;
/// The tap was disabled by a timeout.
pub const K_CG_EVENT_TAP_DISABLED_BY_TIMEOUT: u32 = 0xFFFF_FFFE;
/// The tap was disabled by user input.
pub const K_CG_EVENT_TAP_DISABLED_BY_USER_INPUT: u32 = 0xFFFF_FFFF;

/// The keycode of the Escape key.
pub const MAC_KEYCODE_ESCAPE: u16 = 53;
pub const FLAG_CAPS_LOCK: u64 = 0x0001_0000;
pub const FLAG_SHIFT: u64 = 0x0002_0000;
pub const FLAG_CONTROL: u64 = 0x0004_0000;
pub const FLAG_ALTERNATE: u64 = 0x0008_0000;
pub const FLAG_COMMAND: u64 = 0x0010_0000;

/// The name the listener gives to a key that has one, by macOS keycode.
pub open spec fn mac_named_key(code: u16) -> Option<Seq<char>> {
    if code == 51 {
        Some("Key.backspace"@)
    } else if code == 48 {
        Some("Key.tab"@)
    } else if code == 36 {
        Some("Key.enter"@)
    } else if code == 53 {
        Some("Key.esc"@)
    } else if code == 49 {
        Some("Key.space"@)
    } else if code == 115 {
        Some("Key.home"@)
    } else if code == 119 {
        Some("Key.end"@)
    } else if code == 116 {
        Some("Key.page_up"@)
    } else if code == 121 {
        Some("Key.page_down"@)
    } else if code == 117 {
        Some("Key.delete"@)
    } else if code == 123 {
        Some("Key.left"@)
    } else if code == 124 {
        Some("Key.right"@)
    } else if code == 125 {
        Some("Key.down"@)
    } else if code == 126 {
        Some("Key.up"@)
    } else if code == 55 {
        Some("Key.cmd_l"@)
    } else if code == 54 {
        Some("Key.cmd_r"@)
    } else if code == 56 {
        Some("Key.shift_l"@)
    } else if code == 60 {
        Some("Key.shift_r"@)
    } else if code == 59 {
        Some("Key.ctrl_l"@)
    } else if code == 62 {
        Some("Key.ctrl_r"@)
    } else if code == 58 {
        Some("Key.alt_l"@)
    } else if code == 61 {
        Some("Key.alt_r"@)
    } else if code == 57 {
        Some("Key.caps_lock"@)
    } else if code == 122 {
        Some("Key.f1"@)
    } else if code == 120 {
        Some("Key.f2"@)
    } else if code == 99 {
        Some("Key.f3"@)
    } else if code == 118 {
        Some("Key.f4"@)
    } else if code == 96 {
        Some("Key.f5"@)
    } else if code == 97 {
        Some("Key.f6"@)
    } else if code == 98 {
        Some("Key.f7"@)
    } else if code == 100 {
        Some("Key.f8"@)
    } else if code == 101 {
        Some("Key.f9"@)
    } else if code == 109 {
        Some("Key.f10"@)
    } else if code == 103 {
        Some("Key.f11"@)
    } else if code == 111 {
        Some("Key.f12"@)
    } else {
        None
    }
}

/// The keycode of a key name, the inverse of `mac_named_key` together with
/// the side-less modifier names.
pub open spec fn mac_name_code(name: Seq<char>) -> Option<u16> {
    if name == "Key.backspace"@ {
        Some(51u16)
    } else if name == "Key.tab"@ {
        Some(48u16)
    } else if name == "Key.enter"@ {
        Some(36u16)
    } else if name == "Key.esc"@ {
        Some(53u16)
    } else if name == "Key.space"@ {
        Some(49u16)
    } else if name == "Key.home"@ {
        Some(115u16)
    } else if name == "Key.end"@ {
        Some(119u16)
    } else if name == "Key.page_up"@ {
        Some(116u16)
    } else if name == "Key.page_down"@ {
        Some(121u16)
    } else if name == "Key.delete"@ {
        Some(117u16)
    } else if name == "Key.left"@ {
        Some(123u16)
    } else if name == "Key.right"@ {
        Some(124u16)
    } else if name == "Key.down"@ {
        Some(125u16)
    } else if name == "Key.up"@ {
        Some(126u16)
    } else if name == "Key.cmd_l"@ {
        Some(55u16)
    } else if name == "Key.cmd_r"@ {
        Some(54u16)
    } else if name == "Key.shift_l"@ {
        Some(56u16)
    } else if name == "Key.shift_r"@ {
        Some(60u16)
    } else if name == "Key.ctrl_l"@ {
        Some(59u16)
    } else if name == "Key.ctrl_r"@ {
        Some(62u16)
    } else if name == "Key.alt_l"@ {
        Some(58u16)
    } else if name == "Key.alt_r"@ {
        Some(61u16)
    } else if name == "Key.caps_lock"@ {
        Some(57u16)
    } else if name == "Key.f1"@ {
        Some(122u16)
    } else if name == "Key.f2"@ {
        Some(120u16)
    } else if name == "Key.f3"@ {
        Some(99u16)
    } else if name == "Key.f4"@ {
        Some(118u16)
    } else if name == "Key.f5"@ {
        Some(96u16)
    } else if name == "Key.f6"@ {
        Some(97u16)
    } else if name == "Key.f7"@ {
        Some(98u16)
    } else if name == "Key.f8"@ {
        Some(100u16)
    } else if name == "Key.f9"@ {
        Some(101u16)
    } else if name == "Key.f10"@ {
        Some(109u16)
    } else if name == "Key.f11"@ {
        Some(103u16)
    } else if name == "Key.f12"@ {
        Some(111u16)
    } else if name == "Key.cmd"@ {
        Some(55u16)
    } else if name == "Key.shift"@ {
        Some(56u16)
    } else if name == "Key.ctrl"@ {
        Some(59u16)
    } else if name == "Key.alt"@ {
        Some(58u16)
    } else {
        None
    }
}

/// The keycode of a character on the US layout.
pub open spec fn us_layout_code(c: char) -> Option<u16> {
    if c == 'a' {
        Some(0u16)
    } else if c == 'b' {
        Some(11u16)
    } else if c == 'c' {
        Some(8u16)
    } else if c == 'd' {
        Some(2u16)
    } else if c == 'e' {
        Some(14u16)
    } else if c == 'f' {
        Some(3u16)
    } else if c == 'g' {
        Some(5u16)
    } else if c == 'h' {
        Some(4u16)
    } else if c == 'i' {
        Some(34u16)
    } else if c == 'j' {
        Some(38u16)
    } else if c == 'k' {
        Some(40u16)
    } else if c == 'l' {
        Some(37u16)
    } else if c == 'm' {
        Some(46u16)
    } else if c == 'n' {
        Some(45u16)
    } else if c == 'o' {
        Some(31u16)
    } else if c == 'p' {
        Some(35u16)
    } else if c == 'q' {
        Some(12u16)
    } else if c == 'r' {
        Some(15u16)
    } else if c == 's' {
        Some(1u16)
    } else if c == 't' {
        Some(17u16)
    } else if c == 'u' {
        Some(32u16)
    } else if c == 'v' {
        Some(9u16)
    } else if c == 'w' {
        Some(13u16)
    } else if c == 'x' {
        Some(7u16)
    } else if c == 'y' {
        Some(16u16)
    } else if c == 'z' {
        Some(6u16)
    } else if c == '0' {
        Some(29u16)
    } else if c == '1' {
        Some(18u16)
    } else if c == '2' {
        Some(19u16)
    } else if c == '3' {
        Some(20u16)
    } else if c == '4' {
        Some(21u16)
    } else if c == '5' {
        Some(23u16)
    } else if c == '6' {
        Some(22u16)
    } else if c == '7' {
        Some(26u16)
    } else if c == '8' {
        Some(28u16)
    } else if c == '9' {
        Some(25u16)
    } else if c == ' ' {
        Some(49u16)
    } else if c == '\n' {
        Some(36u16)
    } else if c == '\r' {
        Some(36u16)
    } else if c == '\t' {
        Some(48u16)
    } else if c == '-' {
        Some(27u16)
    } else if c == '=' {
        Some(24u16)
    } else if c == '[' {
        Some(33u16)
    } else if c == ']' {
        Some(30u16)
    } else if c == '\\' {
        Some(42u16)
    } else if c == ';' {
        Some(41u16)
    } else if c == '\'' {
        Some(39u16)
    } else if c == ',' {
        Some(43u16)
    } else if c == '.' {
        Some(47u16)
    } else if c == '/' {
        Some(44u16)
    } else if c == '`' {
        Some(50u16)
    } else {
        None
    }
}

/// The name of the key with keycode `code`, if it has one.
pub fn mac_key_name(code: u16) -> (r: Option<&'static str>)
    ensures
        match mac_named_key(code) {
            Some(n) => r is Some && r->Some_0@ == n,
            None => r is None,
        },
{
    match code {
        51 => Some("Key.backspace"),
        48 => Some("Key.tab"),
        36 => Some("Key.enter"),
        53 => Some("Key.esc"),
        49 => Some("Key.space"),
        115 => Some("Key.home"),
        119 => Some("Key.end"),
        116 => Some("Key.page_up"),
        121 => Some("Key.page_down"),
        117 => Some("Key.delete"),
        123 => Some("Key.left"),
        124 => Some("Key.right"),
        125 => Some("Key.down"),
        126 => Some("Key.up"),
        55 => Some("Key.cmd_l"),
        54 => Some("Key.cmd_r"),
        56 => Some("Key.shift_l"),
        60 => Some("Key.shift_r"),
        59 => Some("Key.ctrl_l"),
        62 => Some("Key.ctrl_r"),
        58 => Some("Key.alt_l"),
        61 => Some("Key.alt_r"),
        57 => Some("Key.caps_lock"),
        122 => Some("Key.f1"),
        120 => Some("Key.f2"),
        99 => Some("Key.f3"),
        118 => Some("Key.f4"),
        96 => Some("Key.f5"),
        97 => Some("Key.f6"),
        98 => Some("Key.f7"),
        100 => Some("Key.f8"),
        101 => Some("Key.f9"),
        109 => Some("Key.f10"),
        103 => Some("Key.f11"),
        111 => Some("Key.f12"),
        _ => None,
    }
}

/// The keycode of key name `name`, if it is one.
pub fn mac_code_of_name(name: &str) -> (r: Option<u16>)
    ensures
        r == mac_name_code(name@),
{
    if str_eq(name, "Key.backspace") {
        return Some(51);
    }
    if str_eq(name, "Key.tab") {
        return Some(48);
    }
    if str_eq(name, "Key.enter") {
        return Some(36);
    }
    if str_eq(name, "Key.esc") {
        return Some(53);
    }
    if str_eq(name, "Key.space") {
        return Some(49);
    }
    if str_eq(name, "Key.home") {
        return Some(115);
    }
    if str_eq(name, "Key.end") {
        return Some(119);
    }
    if str_eq(name, "Key.page_up") {
        return Some(116);
    }
    if str_eq(name, "Key.page_down") {
        return Some(121);
    }
    if str_eq(name, "Key.delete") {
        return Some(117);
    }
    if str_eq(name, "Key.left") {
        return Some(123);
    }
    if str_eq(name, "Key.right") {
        return Some(124);
    }
    if str_eq(name, "Key.down") {
        return Some(125);
    }
    if str_eq(name, "Key.up") {
        return Some(126);
    }
    if str_eq(name, "Key.cmd_l") {
        return Some(55);
    }
    if str_eq(name, "Key.cmd_r") {
        return Some(54);
    }
    if str_eq(name, "Key.shift_l") {
        return Some(56);
    }
    if str_eq(name, "Key.shift_r") {
        return Some(60);
    }
    if str_eq(name, "Key.ctrl_l") {
        return Some(59);
    }
    if str_eq(name, "Key.ctrl_r") {
        return Some(62);
    }
    if str_eq(name, "Key.alt_l") {
        return Some(58);
    }
    if str_eq(name, "Key.alt_r") {
        return Some(61);
    }
    if str_eq(name, "Key.caps_lock") {
        return Some(57);
    }
    if str_eq(name, "Key.f1") {
        return Some(122);
    }
    if str_eq(name, "Key.f2") {
        return Some(120);
    }
    if str_eq(name, "Key.f3") {
        return Some(99);
    }
    if str_eq(name, "Key.f4") {
        return Some(118);
    }
    if str_eq(name, "Key.f5") {
        return Some(96);
    }
    if str_eq(name, "Key.f6") {
        return Some(97);
    }
    if str_eq(name, "Key.f7") {
        return Some(98);
    }
    if str_eq(name, "Key.f8") {
        return Some(100);
    }
    if str_eq(name, "Key.f9") {
        return Some(101);
    }
    if str_eq(name, "Key.f10") {
        return Some(109);
    }
    if str_eq(name, "Key.f11") {
        return Some(103);
    }
    if str_eq(name, "Key.f12") {
        return Some(111);
    }
    if str_eq(name, "Key.cmd") {
        return Some(55);
    }
    if str_eq(name, "Key.shift") {
        return Some(56);
    }
    if str_eq(name, "Key.ctrl") {
        return Some(59);
    }
    if str_eq(name, "Key.alt") {
        return Some(58);
    }
    None
}

/// The keycode of character `c` on the US layout.
pub fn us_layout_keycode(c: char) -> (r: Option<u16>)
    ensures
        r == us_layout_code(c),
{
    match c {
        'a' => Some(0),
        'b' => Some(11),
        'c' => Some(8),
        'd' => Some(2),
        'e' => Some(14),
        'f' => Some(3),
        'g' => Some(5),
        'h' => Some(4),
        'i' => Some(34),
        'j' => Some(38),
        'k' => Some(40),
        'l' => Some(37),
        'm' => Some(46),
        'n' => Some(45),
        'o' => Some(31),
        'p' => Some(35),
        'q' => Some(12),
        'r' => Some(15),
        's' => Some(1),
        't' => Some(17),
        'u' => Some(32),
        'v' => Some(9),
        'w' => Some(13),
        'x' => Some(7),
        'y' => Some(16),
        'z' => Some(6),
        '0' => Some(29),
        '1' => Some(18),
        '2' => Some(19),
        '3' => Some(20),
        '4' => Some(21),
        '5' => Some(23),
        '6' => Some(22),
        '7' => Some(26),
        '8' => Some(28),
        '9' => Some(25),
        ' ' => Some(49),
        '\n' => Some(36),
        '\r' => Some(36),
        '\t' => Some(48),
        '-' => Some(27),
        '=' => Some(24),
        '[' => Some(33),
        ']' => Some(30),
        '\\' => Some(42),
        ';' => Some(41),
        '\'' => Some(39),
        ',' => Some(43),
        '.' => Some(47),
        '/' => Some(44),
        '`' => Some(50),
        _ => None,
    }
}

/// Every key the listener names is found again by its name.
pub proof fn lemma_mac_key_name_roundtrip(code: u16)
    requires
        mac_named_key(code) is Some,
    ensures
        mac_name_code(mac_named_key(code)->Some_0) == Some(code),
{
    reveal_strlit("Key.backspace");
    assert("Key.backspace"@.len() == 13);
    reveal_strlit("Key.tab");
    assert("Key.tab"@.len() == 7);
    reveal_strlit("Key.enter");
    assert("Key.enter"@.len() == 9);
    reveal_strlit("Key.esc");
    assert("Key.esc"@.len() == 7);
    reveal_strlit("Key.space");
    assert("Key.space"@.len() == 9);
    reveal_strlit("Key.home");
    assert("Key.home"@.len() == 8);
    reveal_strlit("Key.end");
    assert("Key.end"@.len() == 7);
    reveal_strlit("Key.page_up");
    assert("Key.page_up"@.len() == 11);
    reveal_strlit("Key.page_down");
    assert("Key.page_down"@.len() == 13);
    reveal_strlit("Key.delete");
    assert("Key.delete"@.len() == 10);
    reveal_strlit("Key.left");
    assert("Key.left"@.len() == 8);
    reveal_strlit("Key.right");
    assert("Key.right"@.len() == 9);
    reveal_strlit("Key.down");
    assert("Key.down"@.len() == 8);
    reveal_strlit("Key.up");
    assert("Key.up"@.len() == 6);
    reveal_strlit("Key.cmd_l");
    assert("Key.cmd_l"@.len() == 9);
    reveal_strlit("Key.cmd_r");
    assert("Key.cmd_r"@.len() == 9);
    reveal_strlit("Key.shift_l");
    assert("Key.shift_l"@.len() == 11);
    reveal_strlit("Key.shift_r");
    assert("Key.shift_r"@.len() == 11);
    reveal_strlit("Key.ctrl_l");
    assert("Key.ctrl_l"@.len() == 10);
    reveal_strlit("Key.ctrl_r");
    assert("Key.ctrl_r"@.len() == 10);
    reveal_strlit("Key.alt_l");
    assert("Key.alt_l"@.len() == 9);
    reveal_strlit("Key.alt_r");
    assert("Key.alt_r"@.len() == 9);
    reveal_strlit("Key.caps_lock");
    assert("Key.caps_lock"@.len() == 13);
    reveal_strlit("Key.f1");
    assert("Key.f1"@.len() == 6);
    reveal_strlit("Key.f2");
    assert("Key.f2"@.len() == 6);
    reveal_strlit("Key.f3");
    assert("Key.f3"@.len() == 6);
    reveal_strlit("Key.f4");
    assert("Key.f4"@.len() == 6);
    reveal_strlit("Key.f5");
    assert("Key.f5"@.len() == 6);
    reveal_strlit("Key.f6");
    assert("Key.f6"@.len() == 6);
    reveal_strlit("Key.f7");
    assert("Key.f7"@.len() == 6);
    reveal_strlit("Key.f8");
    assert("Key.f8"@.len() == 6);
    reveal_strlit("Key.f9");
    assert("Key.f9"@.len() == 6);
    reveal_strlit("Key.f10");
    assert("Key.f10"@.len() == 7);
    reveal_strlit("Key.f11");
    assert("Key.f11"@.len() == 7);
    reveal_strlit("Key.f12");
    assert("Key.f12"@.len() == 7);
    reveal_strlit("Key.cmd");
    assert("Key.cmd"@.len() == 7);
    reveal_strlit("Key.shift");
    assert("Key.shift"@.len() == 9);
    reveal_strlit("Key.ctrl");
    assert("Key.ctrl"@.len() == 8);
    reveal_strlit("Key.alt");
    assert("Key.alt"@.len() == 7);
    if code == 51 {
        assert(mac_name_code("Key.backspace"@) == Some(51u16));
    } else if code == 48 {
        assert(mac_name_code("Key.tab"@) == Some(48u16));
    } else if code == 36 {
        assert(mac_name_code("Key.enter"@) == Some(36u16));
    } else if code == 53 {
        assert("Key.esc"@[4] != "Key.tab"@[4]);
        assert(mac_name_code("Key.esc"@) == Some(53u16));
    } else if code == 49 {
        assert("Key.space"@[4] != "Key.enter"@[4]);
        assert(mac_name_code("Key.space"@) == Some(49u16));
    } else if code == 115 {
        assert(mac_name_code("Key.home"@) == Some(115u16));
    } else if code == 119 {
        assert("Key.end"@[4] != "Key.tab"@[4]);
        assert("Key.end"@[5] != "Key.esc"@[5]);
        assert(mac_name_code("Key.end"@) == Some(119u16));
    } else if code == 116 {
        assert(mac_name_code("Key.page_up"@) == Some(116u16));
    } else if code == 121 {
        assert("Key.page_down"@[4] != "Key.backspace"@[4]);
        assert(mac_name_code("Key.page_down"@) == Some(121u16));
    } else if code == 117 {
        assert(mac_name_code("Key.delete"@) == Some(117u16));
    } else if code == 123 {
        assert("Key.left"@[4] != "Key.home"@[4]);
        assert(mac_name_code("Key.left"@) == Some(123u16));
    } else if code == 124 {
        assert("Key.right"@[4] != "Key.enter"@[4]);
        assert("Key.right"@[4] != "Key.space"@[4]);
        assert(mac_name_code("Key.right"@) == Some(124u16));
    } else if code == 125 {
        assert("Key.down"@[4] != "Key.home"@[4]);
        assert("Key.down"@[4] != "Key.left"@[4]);
        assert(mac_name_code("Key.down"@) == Some(125u16));
    } else if code == 126 {
        assert(mac_name_code("Key.up"@) == Some(126u16));
    } else if code == 55 {
        assert("Key.cmd_l"@[4] != "Key.enter"@[4]);
        assert("Key.cmd_l"@[4] != "Key.space"@[4]);
        assert("Key.cmd_l"@[4] != "Key.right"@[4]);
        assert(mac_name_code("Key.cmd_l"@) == Some(55u16));
    } else if code == 54 {
        assert("Key.cmd_r"@[4] != "Key.enter"@[4]);
        assert("Key.cmd_r"@[4] != "Key.space"@[4]);
        assert("Key.cmd_r"@[4] != "Key.right"@[4]);
        assert("Key.cmd_r"@[8] != "Key.cmd_l"@[8]);
        assert(mac_name_code("Key.cmd_r"@) == Some(54u16));
    } else if code == 56 {
        assert("Key.shift_l"@[4] != "Key.page_up"@[4]);
        assert(mac_name_code("Key.shift_l"@) == Some(56u16));
    } else if code == 60 {
        assert("Key.shift_r"@[4] != "Key.page_up"@[4]);
        assert("Key.shift_r"@[10] != "Key.shift_l"@[10]);
        assert(mac_name_code("Key.shift_r"@) == Some(60u16));
    } else if code == 59 {
        assert("Key.ctrl_l"@[4] != "Key.delete"@[4]);
        assert(mac_name_code("Key.ctrl_l"@) == Some(59u16));
    } else if code == 62 {
        assert("Key.ctrl_r"@[4] != "Key.delete"@[4]);
        assert("Key.ctrl_r"@[9] != "Key.ctrl_l"@[9]);
        assert(mac_name_code("Key.ctrl_r"@) == Some(62u16));
    } else if code == 58 {
        assert("Key.alt_l"@[4] != "Key.enter"@[4]);
        assert("Key.alt_l"@[4] != "Key.space"@[4]);
        assert("Key.alt_l"@[4] != "Key.right"@[4]);
        assert("Key.alt_l"@[4] != "Key.cmd_l"@[4]);
        assert("Key.alt_l"@[4] != "Key.cmd_r"@[4]);
        assert(mac_name_code("Key.alt_l"@) == Some(58u16));
    } else if code == 61 {
        assert("Key.alt_r"@[4] != "Key.enter"@[4]);
        assert("Key.alt_r"@[4] != "Key.space"@[4]);
        assert("Key.alt_r"@[4] != "Key.right"@[4]);
        assert("Key.alt_r"@[4] != "Key.cmd_l"@[4]);
        assert("Key.alt_r"@[4] != "Key.cmd_r"@[4]);
        assert("Key.alt_r"@[8] != "Key.alt_l"@[8]);
        assert(mac_name_code("Key.alt_r"@) == Some(61u16));
    } else if code == 57 {
        assert("Key.caps_lock"@[4] != "Key.backspace"@[4]);
        assert("Key.caps_lock"@[4] != "Key.page_down"@[4]);
        assert(mac_name_code("Key.caps_lock"@) == Some(57u16));
    } else if code == 122 {
        assert("Key.f1"@[4] != "Key.up"@[4]);
        assert(mac_name_code("Key.f1"@) == Some(122u16));
    } else if code == 120 {
        assert("Key.f2"@[4] != "Key.up"@[4]);
        assert("Key.f2"@[5] != "Key.f1"@[5]);
        assert(mac_name_code("Key.f2"@) == Some(120u16));
    } else if code == 99 {
        assert("Key.f3"@[4] != "Key.up"@[4]);
        assert("Key.f3"@[5] != "Key.f1"@[5]);
        assert("Key.f3"@[5] != "Key.f2"@[5]);
        assert(mac_name_code("Key.f3"@) == Some(99u16));
    } else if code == 118 {
        assert("Key.f4"@[4] != "Key.up"@[4]);
        assert("Key.f4"@[5] != "Key.f1"@[5]);
        assert("Key.f4"@[5] != "Key.f2"@[5]);
        assert("Key.f4"@[5] != "Key.f3"@[5]);
        assert(mac_name_code("Key.f4"@) == Some(118u16));
    } else if code == 96 {
        assert("Key.f5"@[4] != "Key.up"@[4]);
        assert("Key.f5"@[5] != "Key.f1"@[5]);
        assert("Key.f5"@[5] != "Key.f2"@[5]);
        assert("Key.f5"@[5] != "Key.f3"@[5]);
        assert("Key.f5"@[5] != "Key.f4"@[5]);
        assert(mac_name_code("Key.f5"@) == Some(96u16));
    } else if code == 97 {
        assert("Key.f6"@[4] != "Key.up"@[4]);
        assert("Key.f6"@[5] != "Key.f1"@[5]);
        assert("Key.f6"@[5] != "Key.f2"@[5]);
        assert("Key.f6"@[5] != "Key.f3"@[5]);
        assert("Key.f6"@[5] != "Key.f4"@[5]);
        assert("Key.f6"@[5] != "Key.f5"@[5]);
        assert(mac_name_code("Key.f6"@) == Some(97u16));
    } else if code == 98 {
        assert("Key.f7"@[4] != "Key.up"@[4]);
        assert("Key.f7"@[5] != "Key.f1"@[5]);
        assert("Key.f7"@[5] != "Key.f2"@[5]);
        assert("Key.f7"@[5] != "Key.f3"@[5]);
        assert("Key.f7"@[5] != "Key.f4"@[5]);
        assert("Key.f7"@[5] != "Key.f5"@[5]);
        assert("Key.f7"@[5] != "Key.f6"@[5]);
        assert(mac_name_code("Key.f7"@) == Some(98u16));
    } else if code == 100 {
        assert("Key.f8"@[4] != "Key.up"@[4]);
        assert("Key.f8"@[5] != "Key.f1"@[5]);
        assert("Key.f8"@[5] != "Key.f2"@[5]);
        assert("Key.f8"@[5] != "Key.f3"@[5]);
        assert("Key.f8"@[5] != "Key.f4"@[5]);
        assert("Key.f8"@[5] != "Key.f5"@[5]);
        assert("Key.f8"@[5] != "Key.f6"@[5]);
        assert("Key.f8"@[5] != "Key.f7"@[5]);
        assert(mac_name_code("Key.f8"@) == Some(100u16));
    } else if code == 101 {
        assert("Key.f9"@[4] != "Key.up"@[4]);
        assert("Key.f9"@[5] != "Key.f1"@[5]);
        assert("Key.f9"@[5] != "Key.f2"@[5]);
        assert("Key.f9"@[5] != "Key.f3"@[5]);
        assert("Key.f9"@[5] != "Key.f4"@[5]);
        assert("Key.f9"@[5] != "Key.f5"@[5]);
        assert("Key.f9"@[5] != "Key.f6"@[5]);
        assert("Key.f9"@[5] != "Key.f7"@[5]);
        assert("Key.f9"@[5] != "Key.f8"@[5]);
        assert(mac_name_code("Key.f9"@) == Some(101u16));
    } else if code == 109 {
        assert("Key.f10"@[4] != "Key.tab"@[4]);
        assert("Key.f10"@[4] != "Key.esc"@[4]);
        assert("Key.f10"@[4] != "Key.end"@[4]);
        assert(mac_name_code("Key.f10"@) == Some(109u16));
    } else if code == 103 {
        assert("Key.f11"@[4] != "Key.tab"@[4]);
        assert("Key.f11"@[4] != "Key.esc"@[4]);
        assert("Key.f11"@[4] != "Key.end"@[4]);
        assert("Key.f11"@[6] != "Key.f10"@[6]);
        assert(mac_name_code("Key.f11"@) == Some(103u16));
    } else if code == 111 {
        assert("Key.f12"@[4] != "Key.tab"@[4]);
        assert("Key.f12"@[4] != "Key.esc"@[4]);
        assert("Key.f12"@[4] != "Key.end"@[4]);
        assert("Key.f12"@[6] != "Key.f10"@[6]);
        assert("Key.f12"@[6] != "Key.f11"@[6]);
        assert(mac_name_code("Key.f12"@) == Some(111u16));
    }
}

/// `c` with ASCII upper-case letters turned to lower case.
pub open spec fn ascii_lower(c: char) -> char {
    if 'A' <= c <= 'Z' {
        ((c as u32) + 32) as char
    } else {
        c
    }
}

fn to_ascii_lower(c: char) -> (r: char)
    ensures
        r == ascii_lower(c),
{
    if 'A' <= c && c <= 'Z' {
        let code: u32 = (c as u32) + 32;
        let b: u8 = code as u8;
        b as char
    } else {
        c
    }
}

/// The last keycode below `n` whose character on the live keyboard layout
/// is `c` once lower-cased.
pub open spec fn layout_code(layout: Seq<Option<char>>, c: char, n: int) -> Option<u16>
    decreases n,
{
    if n <= 0 {
        None
    } else if layout[n - 1] matches Some(d) && ascii_lower(d) == c {
        Some((n - 1) as u16)
    } else {
        layout_code(layout, c, n - 1)
    }
}

/// Whether `s` begins with `p`.
pub open spec fn starts_with(s: Seq<char>, p: Seq<char>) -> bool {
    p.len() <= s.len() && s.take(p.len() as int) == p
}

/// `key` without one pair of enclosing single quotes.
pub open spec fn unquoted(key: Seq<char>) -> Seq<char> {
    if key.len() >= 3 && key[0] == '\'' && key[key.len() - 1] == '\'' {
        key.subrange(1, key.len() - 1)
    } else {
        key
    }
}

/// The keycode that replays key `key`: a named key by its table, a
/// character by the live layout and else by the US layout.
pub open spec fn mac_keycode(key: Seq<char>, layout: Seq<Option<char>>) -> Option<u16> {
    if starts_with(key, "Key."@) {
        mac_name_code(key)
    } else {
        let k = unquoted(key);
        if k.len() == 0 {
            None
        } else {
            let c = ascii_lower(k[0]);
            match layout_code(layout, c, layout.len() as int) {
                Some(code) => Some(code),
                None => us_layout_code(c),
            }
        }
    }
}

/// The keycode that replays key `key`. `layout[code]` is the character the
/// live keyboard layout gives keycode `code`, where it gives exactly one.
pub fn get_mac_keycode(key: &str, layout: &[Option<char>]) -> (r: Option<u16>)
    requires
        layout@.len() <= 0x1_0000,
    ensures
        r == mac_keycode(key@, layout@),
{
    let chars = chars_of(key);
    let prefix = chars_of("Key.");
    if chars_start_with(chars.as_slice(), prefix.as_slice()) {
        return mac_code_of_name(key);
    }
    let n = chars.len();
    let (start, end) = if n >= 3 && chars[0] == '\'' && chars[n - 1] == '\'' {
        (1usize, n - 1)
    } else {
        (0usize, n)
    };
    proof {
        if start == 1 {
            assert(unquoted(key@) == key@.subrange(1, n - 1));
        }
    }
    if start >= end {
        return None;
    }
    let c = to_ascii_lower(chars[start]);
    assert(unquoted(key@)[0] == chars@[start as int]);
    let mut i: usize = layout.len();
    while i > 0
        invariant
            i <= layout@.len() <= 0x1_0000,
            !starts_with(key@, "Key."@),
            unquoted(key@).len() > 0,
            c == ascii_lower(unquoted(key@)[0]),
            layout_code(layout@, c, layout@.len() as int) == layout_code(layout@, c, i as int),
        decreases i,
    {
        match layout[i - 1] {
            Some(d) => {
                if to_ascii_lower(d) == c {
                    return Some((i - 1) as u16);
                }
            },
            None => {},
        }
        i = i - 1;
    }
    us_layout_keycode(c)
}

/// What a mouse event tap does with one captured event.
pub enum MouseTapAction {
    /// Nothing to report.
    Nothing,
    /// Relative motion; the cursor is warped back to the centre.
    Move { dx: i32, dy: i32 },
    Click { x: i32, y: i32, button: String, pressed: bool },
    Scroll { x: i32, y: i32, dx: i32, dy: i32 },
}

pub struct MouseTapOutcome {
    pub action: MouseTapAction,
    /// The event is swallowed instead of reaching the local system.
    pub swallow: bool,
}

/// The callbacks and settings of a mouse listener.
pub struct MouseListenerCallbacks<M, C, S> {
    pub on_move: M,
    pub on_click: C,
    pub on_scroll: S,
    pub suppress: bool,
    pub x_center: i32,
    pub y_center: i32,
    pub has_move: bool,
    pub override_redirect: Option<bool>,
}

/// The callbacks and settings of a keyboard listener.
pub struct KeyboardListenerCallbacks<P, R> {
    pub on_press: P,
    pub on_release: R,
    pub suppress: bool,
    pub override_redirect: Option<bool>,
}

pub open spec fn is_tap_disabled(event_type: u32) -> bool {
    event_type == K_CG_EVENT_TAP_DISABLED_BY_USER_INPUT || event_type == K_CG_EVENT_TAP_DISABLED_BY_TIMEOUT
}

pub open spec fn is_motion(event_type: u32) -> bool {
    event_type == K_CG_EVENT_MOUSE_MOVED || event_type == K_CG_EVENT_LEFT_MOUSE_DRAGGED
        || event_type == K_CG_EVENT_RIGHT_MOUSE_DRAGGED || event_type == K_CG_EVENT_OTHER_MOUSE_DRAGGED
}

pub open spec fn is_button_down(event_type: u32) -> bool {
    event_type == K_CG_EVENT_LEFT_MOUSE_DOWN || event_type == K_CG_EVENT_RIGHT_MOUSE_DOWN
        || event_type == K_CG_EVENT_OTHER_MOUSE_DOWN
}

pub open spec fn is_button_up(event_type: u32) -> bool {
    event_type == K_CG_EVENT_LEFT_MOUSE_UP || event_type == K_CG_EVENT_RIGHT_MOUSE_UP
        || event_type == K_CG_EVENT_OTHER_MOUSE_UP
}

/// The name the listener gives to the button of a click event; other
/// buttons are named by their number.
pub open spec fn mac_button_name(event_type: u32, button_number: i64) -> Seq<char> {
    if event_type == K_CG_EVENT_LEFT_MOUSE_DOWN || event_type == K_CG_EVENT_LEFT_MOUSE_UP {
        "Button.left"@
    } else if event_type == K_CG_EVENT_RIGHT_MOUSE_DOWN || event_type == K_CG_EVENT_RIGHT_MOUSE_UP {
        "Button.right"@
    } else if button_number == 2 {
        "Button.middle"@
    } else if button_number == 3 {
        "Button.x1"@
    } else if button_number == 4 {
        "Button.x2"@
    } else {
        "Button.button"@ + int_text(button_number as int)
    }
}

fn button_name(event_type: u32, button_number: i64) -> (r: String)
    ensures
        r@ == mac_button_name(event_type, button_number),
{
    if event_type == K_CG_EVENT_LEFT_MOUSE_DOWN || event_type == K_CG_EVENT_LEFT_MOUSE_UP {
        crate::text::copy_string_of_str("Button.left")
    } else if event_type == K_CG_EVENT_RIGHT_MOUSE_DOWN || event_type == K_CG_EVENT_RIGHT_MOUSE_UP {
        crate::text::copy_string_of_str("Button.right")
    } else if button_number == 2 {
        crate::text::copy_string_of_str("Button.middle")
    } else if button_number == 3 {
        crate::text::copy_string_of_str("Button.x1")
    } else if button_number == 4 {
        crate::text::copy_string_of_str("Button.x2")
    } else {
        let mut v = chars_of("Button.button");
        push_int_text(&mut v, button_number);
        string_of(v.as_slice())
    }
}

/// Whether input is redirected: the listener's own override, else the
/// global flag.
pub open spec fn effective_redirect(override_redirect: Option<bool>, global_redirecting: bool) -> bool {
    match override_redirect {
        Some(b) => b,
        None => global_redirecting,
    }
}

/// The decision of the mouse event tap for an event of `event_type` at
/// `location`, with motion `delta`, button number `button_number` and
/// scroll deltas `scroll` (horizontal, vertical). Motion is always
/// swallowed while redirecting; clicks and scrolls when the listener
/// suppresses events.
pub fn mouse_tap_decision<M, C, S>(
    callbacks: &MouseListenerCallbacks<M, C, S>,
    global_redirecting: bool,
    event_type: u32,
    location: (i32, i32),
    delta: (i32, i32),
    button_number: i64,
    scroll: (i32, i32),
) -> (r: MouseTapOutcome)
    ensures
        is_tap_disabled(event_type) || !effective_redirect(callbacks.override_redirect, global_redirecting)
            ==> r.action is Nothing && !r.swallow,
        !is_tap_disabled(event_type) && effective_redirect(callbacks.override_redirect, global_redirecting) ==> {
            if is_motion(event_type) {
                &&& r.swallow
                &&& if delta.0 != 0 || delta.1 != 0 {
                    r.action == MouseTapAction::Move { dx: delta.0, dy: delta.1 }
                } else {
                    r.action is Nothing
                }
            } else if is_button_down(event_type) || is_button_up(event_type) {
                &&& r.swallow == callbacks.suppress
                &&& r.action matches MouseTapAction::Click { x, y, button, pressed }
                &&& x == location.0 && y == location.1
                &&& button@ == mac_button_name(event_type, button_number)
                &&& pressed == is_button_down(event_type)
            } else if event_type == K_CG_EVENT_SCROLL_WHEEL {
                &&& r.swallow == callbacks.suppress
                &&& r.action == MouseTapAction::Scroll { x: location.0, y: location.1, dx: scroll.0, dy: scroll.1 }
            } else {
                r.action is Nothing && !r.swallow
            }
        },
{
    let passed = MouseTapOutcome { action: MouseTapAction::Nothing, swallow: false };
    if event_type == K_CG_EVENT_TAP_DISABLED_BY_USER_INPUT || event_type == K_CG_EVENT_TAP_DISABLED_BY_TIMEOUT {
        return passed;
    }
    let redirecting = match callbacks.override_redirect {
        Some(b) => b,
        None => global_redirecting,
    };
    if !redirecting {
        return passed;
    }
    if event_type == K_CG_EVENT_MOUSE_MOVED || event_type == K_CG_EVENT_LEFT_MOUSE_DRAGGED
        || event_type == K_CG_EVENT_RIGHT_MOUSE_DRAGGED || event_type == K_CG_EVENT_OTHER_MOUSE_DRAGGED {
        if delta.0 != 0 || delta.1 != 0 {
            MouseTapOutcome { action: MouseTapAction::Move { dx: delta.0, dy: delta.1 }, swallow: true }
        } else {
            MouseTapOutcome { action: MouseTapAction::Nothing, swallow: true }
        }
    } else if event_type == K_CG_EVENT_LEFT_MOUSE_DOWN || event_type == K_CG_EVENT_LEFT_MOUSE_UP
        || event_type == K_CG_EVENT_RIGHT_MOUSE_DOWN || event_type == K_CG_EVENT_RIGHT_MOUSE_UP
        || event_type == K_CG_EVENT_OTHER_MOUSE_DOWN || event_type == K_CG_EVENT_OTHER_MOUSE_UP {
        let pressed = event_type == K_CG_EVENT_LEFT_MOUSE_DOWN || event_type == K_CG_EVENT_RIGHT_MOUSE_DOWN
            || event_type == K_CG_EVENT_OTHER_MOUSE_DOWN;
        let button = button_name(event_type, button_number);
        MouseTapOutcome {
            action: MouseTapAction::Click { x: location.0, y: location.1, button, pressed },
            swallow: callbacks.suppress,
        }
    } else if event_type == K_CG_EVENT_SCROLL_WHEEL {
        MouseTapOutcome {
            action: MouseTapAction::Scroll { x: location.0, y: location.1, dx: scroll.0, dy: scroll.1 },
            swallow: callbacks.suppress,
        }
    } else {
        passed
    }
}

/// What a keyboard event tap does with one captured event.
pub enum KeyTapAction {
    Nothing,
    /// Ctrl+Alt+Escape: control returns to this machine at once.
    EmergencyRelease,
    Press(String),
    Release(String),
}

pub struct KeyTapOutcome {
    pub action: KeyTapAction,
    pub swallow: bool,
}

/// The name the keyboard listener reports for keycode `code`: its table
/// name, else the quoted character the layout gives it (`layout_char`),
/// else the quoted Latin-1 character of its low byte.
pub open spec fn mac_listener_key_name(code: u16, layout_char: Option<Seq<char>>) -> Seq<char> {
    match mac_named_key(code) {
        Some(n) => n,
        None => match layout_char {
            Some(s) => seq!['\''] + s + seq!['\''],
            None => seq!['\'', ((code % 256) as u8) as char, '\''],
        },
    }
}

/// Every name the listener gives a key from its table begins with `Key.`.
pub proof fn lemma_mac_named_key_prefix(code: u16)
    requires
        mac_named_key(code) is Some,
    ensures
        starts_with(mac_named_key(code)->Some_0, "Key."@),
{
    reveal_strlit("Key.");
    reveal_strlit("Key.backspace");
    reveal_strlit("Key.tab");
    reveal_strlit("Key.enter");
    reveal_strlit("Key.esc");
    reveal_strlit("Key.space");
    reveal_strlit("Key.home");
    reveal_strlit("Key.end");
    reveal_strlit("Key.page_up");
    reveal_strlit("Key.page_down");
    reveal_strlit("Key.delete");
    reveal_strlit("Key.left");
    reveal_strlit("Key.right");
    reveal_strlit("Key.down");
    reveal_strlit("Key.up");
    reveal_strlit("Key.cmd_l");
    reveal_strlit("Key.cmd_r");
    reveal_strlit("Key.shift_l");
    reveal_strlit("Key.shift_r");
    reveal_strlit("Key.ctrl_l");
    reveal_strlit("Key.ctrl_r");
    reveal_strlit("Key.alt_l");
    reveal_strlit("Key.alt_r");
    reveal_strlit("Key.caps_lock");
    reveal_strlit("Key.f1");
    reveal_strlit("Key.f2");
    reveal_strlit("Key.f3");
    reveal_strlit("Key.f4");
    reveal_strlit("Key.f5");
    reveal_strlit("Key.f6");
    reveal_strlit("Key.f7");
    reveal_strlit("Key.f8");
    reveal_strlit("Key.f9");
    reveal_strlit("Key.f10");
    reveal_strlit("Key.f11");
    reveal_strlit("Key.f12");
    let n = mac_named_key(code)->Some_0;
    assert(n.take(4) =~= "Key."@);
}

/// The key names the macOS listener sends for the keys of its table are
/// turned back into the same keycodes, whatever the live layout.
pub proof fn lemma_mac_listener_name_replays(code: u16, layout: Seq<Option<char>>)
    requires
        mac_named_key(code) is Some,
    ensures
        mac_keycode(mac_listener_key_name(code, None), layout) == Some(code),
        forall|c: Option<Seq<char>>| #[trigger] mac_listener_key_name(code, c) == mac_named_key(code)->Some_0,
{
    lemma_mac_named_key_prefix(code);
    lemma_mac_key_name_roundtrip(code);
}

/// Whether the modifier with keycode `code` is down according to `flags`.
pub open spec fn modifier_down(code: u16, flags: u64) -> bool {
    if code == 55 || code == 54 {
        flags & FLAG_COMMAND != 0
    } else if code == 56 || code == 60 {
        flags & FLAG_SHIFT != 0
    } else if code == 59 || code == 62 {
        flags & FLAG_CONTROL != 0
    } else if code == 58 || code == 61 {
        flags & FLAG_ALTERNATE != 0
    } else if code == 57 {
        flags & FLAG_CAPS_LOCK != 0
    } else {
        false
    }
}

/// Whether the event is Escape with Control and Alt held.
pub open spec fn is_emergency_combo(code: u16, flags: u64) -> bool {
    code == MAC_KEYCODE_ESCAPE && flags & FLAG_CONTROL != 0 && flags & FLAG_ALTERNATE != 0
}

fn listener_key_name(code: u16, layout_char: Option<String>) -> (r: String)
    ensures
        r@ == mac_listener_key_name(code, match layout_char {
            Some(s) => Some(s@),
            None => None,
        }),
{
    match mac_key_name(code) {
        Some(n) => crate::text::copy_string_of_str(n),
        None => {
            let mut v: Vec<char> = Vec::new();
            v.push('\'');
            match &layout_char {
                Some(s) => {
                    let c = chars_of(s.as_str());
                    v.extend_from_slice(c.as_slice());
                },
                None => {
                    let low: u8 = (code % 256) as u8;
                    v.push(low as char);
                },
            }
            v.push('\'');
            proof {
                match layout_char {
                    Some(s) => assert(v@ =~= seq!['\''] + s@ + seq!['\'']),
                    None => assert(v@ =~= seq!['\'', ((code % 256) as u8) as char, '\'']),
                }
            }
            string_of(v.as_slice())
        },
    }
}

/// What the keyboard event tap may decide for an event of `event_type`
/// with keycode `code` and modifier `flags`, given the callbacks' override
/// and suppression and whether input is redirected; `layout_char` is the
/// character the live layout gives `code`, if any.
pub open spec fn keyboard_tap_outcome(
    override_redirect: Option<bool>,
    suppress: bool,
    global_redirecting: bool,
    event_type: u32,
    code: u16,
    flags: u64,
    layout_char: Option<Seq<char>>,
    r: KeyTapOutcome,
) -> bool {
    &&& is_tap_disabled(event_type) ==> r.action is Nothing && !r.swallow
    &&& !is_tap_disabled(event_type) && is_emergency_combo(code, flags) ==> r.action is EmergencyRelease
        && !r.swallow
    &&& !is_tap_disabled(event_type) && !is_emergency_combo(code, flags) && !effective_redirect(
        override_redirect,
        global_redirecting,
    ) ==> r.action is Nothing && !r.swallow
    &&& !is_tap_disabled(event_type) && !is_emergency_combo(code, flags) && effective_redirect(
        override_redirect,
        global_redirecting,
    ) ==> {
        let name = mac_listener_key_name(code, layout_char);
        if event_type == K_CG_EVENT_FLAGS_CHANGED {
            &&& r.swallow == suppress
            &&& if modifier_down(code, flags) {
                r.action matches KeyTapAction::Press(n) && n@ == name
            } else {
                r.action matches KeyTapAction::Release(n) && n@ == name
            }
        } else if event_type == K_CG_EVENT_KEY_DOWN {
            &&& r.swallow == suppress
            &&& r.action matches KeyTapAction::Press(n)
            &&& n@ == name
        } else if event_type == K_CG_EVENT_KEY_UP {
            &&& r.swallow == suppress
            &&& r.action matches KeyTapAction::Release(n)
            &&& n@ == name
        } else {
            r.action is Nothing && !r.swallow
        }
    }
}

/// Modifier keys while input is redirected: a flags-changed event for a
/// modifier key reports a press exactly when that modifier's flag is set in
/// the event's flags (Command 0x10_0000 for keycodes 55 and 54, Shift
/// 0x2_0000 for 56 and 60, Control 0x4_0000 for 59 and 62, Option 0x8_0000
/// for 58 and 61, Caps Lock 0x1_0000 for 57), and a release otherwise, under
/// the key's listener name.
pub proof fn lemma_modifier_press_follows_its_flag(
    override_redirect: Option<bool>,
    suppress: bool,
    global_redirecting: bool,
    code: u16,
    flags: u64,
    layout_char: Option<Seq<char>>,
    r: KeyTapOutcome,
)
    requires
        keyboard_tap_outcome(override_redirect, suppress, global_redirecting, 12, code, flags, layout_char, r),
        effective_redirect(override_redirect, global_redirecting),
        code == 55 || code == 54 || code == 56 || code == 60 || code == 59 || code == 62 || code == 58
            || code == 61 || code == 57,
    ensures
        ({
            let bit: u64 = if code == 55 || code == 54 {
                0x0010_0000u64
            } else if code == 56 || code == 60 {
                0x0002_0000u64
            } else if code == 59 || code == 62 {
                0x0004_0000u64
            } else if code == 58 || code == 61 {
                0x0008_0000u64
            } else {
                0x0001_0000u64
            };
            &&& (r.action is Press) == (flags & bit != 0)
            &&& (r.action is Release) == (flags & bit == 0)
            &&& (r.action matches KeyTapAction::Press(n) ==> n@ == mac_listener_key_name(code, layout_char))
            &&& (r.action matches KeyTapAction::Release(n) ==> n@ == mac_listener_key_name(code, layout_char))
            &&& r.swallow == suppress
        }),
{
    assert(!is_tap_disabled(12));
    assert(!is_emergency_combo(code, flags));
}

/// Keys while input is redirected: a key-down event (10) reports a press
/// and a key-up event (11) a release of the key's listener name, swallowed
/// exactly when the callbacks suppress; Escape with Control (0x4_0000) and
/// Option (0x8_0000) held is the emergency release whatever the redirection,
/// and is never swallowed; while input is not redirected nothing else is
/// reported or swallowed.
pub proof fn lemma_key_events_while_redirected(
    override_redirect: Option<bool>,
    suppress: bool,
    global_redirecting: bool,
    event_type: u32,
    code: u16,
    flags: u64,
    layout_char: Option<Seq<char>>,
    r: KeyTapOutcome,
)
    requires
        keyboard_tap_outcome(override_redirect, suppress, global_redirecting, event_type, code, flags, layout_char, r),
    ensures
        ({
            let redirected = match override_redirect {
                Some(b) => b,
                None => global_redirecting,
            };
            let emergency = code == 53 && flags & 0x0004_0000u64 != 0 && flags & 0x0008_0000u64 != 0;
            &&& (event_type == 10 || event_type == 11 || event_type == 12) && emergency ==> (r.action is EmergencyRelease && !r.swallow)
            &&& (event_type == 10 || event_type == 11 || event_type == 12) && !emergency && !redirected ==> (r.action is Nothing && !r.swallow)
            &&& event_type == 10 && !emergency && redirected ==> (r.action matches KeyTapAction::Press(n) && n@ == mac_listener_key_name(code, layout_char) && r.swallow == suppress)
            &&& event_type == 11 && !emergency && redirected ==> (r.action matches KeyTapAction::Release(n) && n@ == mac_listener_key_name(code, layout_char) && r.swallow == suppress)
        }),
{
}

/// The decision of the keyboard event tap for an event of `event_type`
/// with keycode `code` and modifier `flags`; `layout_char` is the character
/// the live layout gives `code`, if any. The emergency combination works
/// whether or not input is redirected and is never swallowed.
pub fn keyboard_tap_decision<P, R>(
    callbacks: &KeyboardListenerCallbacks<P, R>,
    global_redirecting: bool,
    event_type: u32,
    code: u16,
    flags: u64,
    layout_char: Option<String>,
) -> (r: KeyTapOutcome)
    ensures
        keyboard_tap_outcome(
            callbacks.override_redirect,
            callbacks.suppress,
            global_redirecting,
            event_type,
            code,
            flags,
            match layout_char {
                Some(s) => Some(s@),
                None => None,
            },
            r,
        ),
{
    let passed = KeyTapOutcome { action: KeyTapAction::Nothing, swallow: false };
    if event_type == K_CG_EVENT_TAP_DISABLED_BY_USER_INPUT || event_type == K_CG_EVENT_TAP_DISABLED_BY_TIMEOUT {
        return passed;
    }
    let ctrl = flags & FLAG_CONTROL != 0;
    let alt = flags & FLAG_ALTERNATE != 0;
    if code == MAC_KEYCODE_ESCAPE && ctrl && alt {
        return KeyTapOutcome { action: KeyTapAction::EmergencyRelease, swallow: false };
    }
    let redirecting = match callbacks.override_redirect {
        Some(b) => b,
        None => global_redirecting,
    };
    if !redirecting {
        return passed;
    }
    let name = listener_key_name(code, layout_char);
    if event_type == K_CG_EVENT_FLAGS_CHANGED {
        let pressed = if code == 55 || code == 54 {
            flags & FLAG_COMMAND != 0
        } else if code == 56 || code == 60 {
            flags & FLAG_SHIFT != 0
        } else if code == 59 || code == 62 {
            flags & FLAG_CONTROL != 0
        } else if code == 58 || code == 61 {
            flags & FLAG_ALTERNATE != 0
        } else if code == 57 {
            flags & FLAG_CAPS_LOCK != 0
        } else {
            false
        };
        if pressed {
            KeyTapOutcome { action: KeyTapAction::Press(name), swallow: callbacks.suppress }
        } else {
            KeyTapOutcome { action: KeyTapAction::Release(name), swallow: callbacks.suppress }
        }
    } else if event_type == K_CG_EVENT_KEY_DOWN {
        KeyTapOutcome { action: KeyTapAction::Press(name), swallow: callbacks.suppress }
    } else if event_type == K_CG_EVENT_KEY_UP {
        KeyTapOutcome { action: KeyTapAction::Release(name), swallow: callbacks.suppress }
    } else {
        passed
    }
}

/// Which simulated mouse buttons are held.
#[derive(Clone, Copy, Debug, PartialEq, Eq, Structural)]
pub struct MacButtons {
    pub left: bool,
    pub right: bool,
    pub middle: bool,
    pub x1: bool,
    pub x2: bool,
}

pub const K_CG_MOUSE_BUTTON_LEFT: u32 = 0;
pub const K_CG_MOUSE_BUTTON_RIGHT: u32 = 1;
pub const K_CG_MOUSE_BUTTON_CENTER: u32 = 2;

/// The button a simulated press or release of `name` (in any case) acts
/// on: 0 left, 1 right, 2 middle, 3 first extra, 4 second extra.
pub open spec fn mac_button_index(name: Seq<char>) -> Option<u32> {
    let l = lowercase_of(name);
    if l == "left"@ {
        Some(0u32)
    } else if l == "right"@ {
        Some(1u32)
    } else if l == "middle"@ {
        Some(2u32)
    } else if l == "x1"@ || l == "button8"@ {
        Some(3u32)
    } else if l == "x2"@ || l == "button9"@ {
        Some(4u32)
    } else {
        None
    }
}

/// The held buttons after button `index` went down or up.
pub open spec fn buttons_after(b: MacButtons, index: u32, down: bool) -> MacButtons {
    if index == 0 {
        MacButtons { left: down, ..b }
    } else if index == 1 {
        MacButtons { right: down, ..b }
    } else if index == 2 {
        MacButtons { middle: down, ..b }
    } else if index == 3 {
        MacButtons { x1: down, ..b }
    } else {
        MacButtons { x2: down, ..b }
    }
}

/// The event type of a press (`down`) or release of button `index`.
pub open spec fn mac_button_event_type(index: u32, down: bool) -> u32 {
    if index == 0 {
        if down { K_CG_EVENT_LEFT_MOUSE_DOWN } else { K_CG_EVENT_LEFT_MOUSE_UP }
    } else if index == 1 {
        if down { K_CG_EVENT_RIGHT_MOUSE_DOWN } else { K_CG_EVENT_RIGHT_MOUSE_UP }
    } else {
        if down { K_CG_EVENT_OTHER_MOUSE_DOWN } else { K_CG_EVENT_OTHER_MOUSE_UP }
    }
}

/// A simulated press (`down`) or release of button `name`: the event type
/// and button number to post, with the held buttons updated. Unknown names
/// post nothing.
pub fn mac_button_event(buttons: &mut MacButtons, name: &str, down: bool) -> (r: Option<(u32, u32)>)
    ensures
        match mac_button_index(name@) {
            Some(i) => r == Some((mac_button_event_type(i, down), i)) && *final(buttons) == buttons_after(
                *old(buttons),
                i,
                down,
            ),
            None => r is None && *final(buttons) == *old(buttons),
        },
{
    let l = str_to_lowercase(name);
    let l = l.as_str();
    let index: u32 = if str_eq(l, "left") {
        buttons.left = down;
        0
    } else if str_eq(l, "right") {
        buttons.right = down;
        1
    } else if str_eq(l, "middle") {
        buttons.middle = down;
        2
    } else if str_eq(l, "x1") || str_eq(l, "button8") {
        buttons.x1 = down;
        3
    } else if str_eq(l, "x2") || str_eq(l, "button9") {
        buttons.x2 = down;
        4
    } else {
        return None;
    };
    let event_type = if index == 0 {
        if down { K_CG_EVENT_LEFT_MOUSE_DOWN } else { K_CG_EVENT_LEFT_MOUSE_UP }
    } else if index == 1 {
        if down { K_CG_EVENT_RIGHT_MOUSE_DOWN } else { K_CG_EVENT_RIGHT_MOUSE_UP }
    } else {
        if down { K_CG_EVENT_OTHER_MOUSE_DOWN } else { K_CG_EVENT_OTHER_MOUSE_UP }
    };
    Some((event_type, index))
}

/// The event that moves the simulated cursor: a drag of the first held
/// button among left, right and middle, else a plain move.
pub fn mac_motion_event(buttons: &MacButtons) -> (r: (u32, u32))
    ensures
        r == (if buttons.left {
            (K_CG_EVENT_LEFT_MOUSE_DRAGGED, K_CG_MOUSE_BUTTON_LEFT)
        } else if buttons.right {
            (K_CG_EVENT_RIGHT_MOUSE_DRAGGED, K_CG_MOUSE_BUTTON_RIGHT)
        } else if buttons.middle {
            (K_CG_EVENT_OTHER_MOUSE_DRAGGED, K_CG_MOUSE_BUTTON_CENTER)
        } else {
            (K_CG_EVENT_MOUSE_MOVED, K_CG_MOUSE_BUTTON_LEFT)
        }),
{
    if buttons.left {
        (K_CG_EVENT_LEFT_MOUSE_DRAGGED, K_CG_MOUSE_BUTTON_LEFT)
    } else if buttons.right {
        (K_CG_EVENT_RIGHT_MOUSE_DRAGGED, K_CG_MOUSE_BUTTON_RIGHT)
    } else if buttons.middle {
        (K_CG_EVENT_OTHER_MOUSE_DRAGGED, K_CG_MOUSE_BUTTON_CENTER)
    } else {
        (K_CG_EVENT_MOUSE_MOVED, K_CG_MOUSE_BUTTON_LEFT)
    }
}

/// The pasteboard type announced for promised content of a format.
pub open spec fn pasteboard_type_of(format: Seq<char>) -> Option<Seq<char>> {
    if format == "text"@ {
        Some("public.utf8-plain-text"@)
    } else if format == "files"@ {
        Some("NSFilenamesPboardType"@)
    } else {
        None
    }
}

pub fn pasteboard_type(format: &str) -> (r: Option<&'static str>)
    ensures
        match pasteboard_type_of(format@) {
            Some(t) => r is Some && r->Some_0@ == t,
            None => r is None,
        },
{
    if str_eq(format, "text") {
        Some("public.utf8-plain-text")
    } else if str_eq(format, "files") {
        Some("NSFilenamesPboardType")
    } else {
        None
    }
}

/// One poll of the pasteboard's change count by the clipboard listener:
/// while this program is writing the pasteboard nothing is looked at;
/// otherwise a new count is remembered, and it is reported unless it is the
/// count of a promise this program registered (`ignored`). Returns the count
/// to remember and whether to report a change.
pub fn clipboard_poll_step(last: i64, current: i64, ignored: i64, writing: bool) -> (r: (i64, bool))
    ensures
        r == (if writing || current == last {
            (last, false)
        } else {
            (current, current != ignored)
        }),
{
    if writing || current == last {
        (last, false)
    } else {
        (current, current != ignored)
    }
}

} // verus!
