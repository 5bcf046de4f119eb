//! Linux input: the key and button names exchanged with peers and their
//! input event codes, and the per-event decisions of the evdev listeners.
use vstd::prelude::*;
use crate::text::{chars_of, copy_string_of_str, lowercase_of, str_eq, str_to_lowercase};

verus! {

/// Input event types.
pub const EV_KEY: u16 = 0x01;
pub const EV_REL: u16 = 0x02;
/// Relative axes.
pub const REL_X: u16 = 0x00;
pub const REL_Y: u16 = 0x01;
pub const REL_HWHEEL: u16 = 0x06;
pub const REL_WHEEL: u16 = 0x08;
/// Key and button codes the listeners look at.
pub const KEY_ESC: u16 = 1;
pub const KEY_LEFTCTRL: u16 = 29;
pub const KEY_LEFTALT: u16 = 56;
pub const KEY_RIGHTCTRL: u16 = 97;
pub const KEY_RIGHTALT: u16 = 100;
pub const BTN_LEFT: u16 = 0x110;
pub const BTN_RIGHT: u16 = 0x111;
pub const BTN_MIDDLE: u16 = 0x112;
pub const BTN_SIDE: u16 = 0x113;
pub const BTN_EXTRA: u16 = 0x114;

/// The input event code of a one-character key name.
pub open spec fn linux_char_code(c: char) -> Option<u16> {
    if c == 'a' {
        Some(30u16)
    } else if c == 'A' {
        Some(30u16)
    } else if c == 'b' {
        Some(48u16)
    } else if c == 'B' {
        Some(48u16)
    } else if c == 'c' {
        Some(46u16)
    } else if c == 'C' {
        Some(46u16)
    } else if c == 'd' {
        Some(32u16)
    } else if c == 'D' {
        Some(32u16)
    } else if c == 'e' {
        Some(18u16)
    } else if c == 'E' {
        Some(18u16)
    } else if c == 'f' {
        Some(33u16)
    } else if c == 'F' {
        Some(33u16)
    } else if c == 'g' {
        Some(34u16)
    } else if c == 'G' {
        Some(34u16)
    } else if c == 'h' {
        Some(35u16)
    } else if c == 'H' {
        Some(35u16)
    } else if c == 'i' {
        Some(23u16)
    } else if c == 'I' {
        Some(23u16)
    } else if c == 'j' {
        Some(36u16)
    } else if c == 'J' {
        Some(36u16)
    } else if c == 'k' {
        Some(37u16)
    } else if c == 'K' {
        Some(37u16)
    } else if c == 'l' {
        Some(38u16)
    } else if c == 'L' {
        Some(38u16)
    } else if c == 'm' {
        Some(50u16)
    } else if c == 'M' {
        Some(50u16)
    } else if c == 'n' {
        Some(49u16)
    } else if c == 'N' {
        Some(49u16)
    } else if c == 'o' {
        Some(24u16)
    } else if c == 'O' {
        Some(24u16)
    } else if c == 'p' {
        Some(25u16)
    } else if c == 'P' {
        Some(25u16)
    } else if c == 'q' {
        Some(16u16)
    } else if c == 'Q' {
        Some(16u16)
    } else if c == 'r' {
        Some(19u16)
    } else if c == 'R' {
        Some(19u16)
    } else if c == 's' {
        Some(31u16)
    } else if c == 'S' {
        Some(31u16)
    } else if c == 't' {
        Some(20u16)
    } else if c == 'T' {
        Some(20u16)
    } else if c == 'u' {
        Some(22u16)
    } else if c == 'U' {
        Some(22u16)
    } else if c == 'v' {
        Some(47u16)
    } else if c == 'V' {
        Some(47u16)
    } else if c == 'w' {
        Some(17u16)
    } else if c == 'W' {
        Some(17u16)
    } else if c == 'x' {
        Some(45u16)
    } else if c == 'X' {
        Some(45u16)
    } else if c == 'y' {
        Some(21u16)
    } else if c == 'Y' {
        Some(21u16)
    } else if c == 'z' {
        Some(44u16)
    } else if c == 'Z' {
        Some(44u16)
    } else if c == '0' {
        Some(11u16)
    } else if c == '1' {
        Some(2u16)
    } else if c == '2' {
        Some(3u16)
    } else if c == '3' {
        Some(4u16)
    } else if c == '4' {
        Some(5u16)
    } else if c == '5' {
        Some(6u16)
    } else if c == '6' {
        Some(7u16)
    } else if c == '7' {
        Some(8u16)
    } else if c == '8' {
        Some(9u16)
    } else if c == '9' {
        Some(10u16)
    } else if c == ' ' {
        Some(57u16)
    } else if c == '-' {
        Some(12u16)
    } else if c == '_' {
        Some(12u16)
    } else if c == '=' {
        Some(13u16)
    } else if c == '+' {
        Some(13u16)
    } else if c == '[' {
        Some(26u16)
    } else if c == '{' {
        Some(26u16)
    } else if c == ']' {
        Some(27u16)
    } else if c == '}' {
        Some(27u16)
    } else if c == ';' {
        Some(39u16)
    } else if c == ':' {
        Some(39u16)
    } else if c == '\'' {
        Some(40u16)
    } else if c == '"' {
        Some(40u16)
    } else if c == '`' {
        Some(41u16)
    } else if c == '~' {
        Some(41u16)
    } else if c == '\\' {
        Some(43u16)
    } else if c == '|' {
        Some(43u16)
    } else if c == ',' {
        Some(51u16)
    } else if c == '<' {
        Some(51u16)
    } else if c == '.' {
        Some(52u16)
    } else if c == '>' {
        Some(52u16)
    } else if c == '/' {
        Some(53u16)
    } else if c == '?' {
        Some(53u16)
    } else {
        None
    }
}

/// The input event code of a longer key name.
pub open spec fn linux_word_code(name: Seq<char>) -> Option<u16> {
    if name == "Space"@ {
        Some(57u16)
    } else if name == "Enter"@ {
        Some(28u16)
    } else if name == "Return"@ {
        Some(28u16)
    } else if name == "Tab"@ {
        Some(15u16)
    } else if name == "Escape"@ {
        Some(1u16)
    } else if name == "Backspace"@ {
        Some(14u16)
    } else if name == "Delete"@ {
        Some(111u16)
    } else if name == "Shift"@ {
        Some(42u16)
    } else if name == "Shift_L"@ {
        Some(42u16)
    } else if name == "Shift_R"@ {
        Some(54u16)
    } else if name == "Control"@ {
        Some(29u16)
    } else if name == "Control_L"@ {
        Some(29u16)
    } else if name == "Control_R"@ {
        Some(97u16)
    } else if name == "Alt"@ {
        Some(56u16)
    } else if name == "Alt_L"@ {
        Some(56u16)
    } else if name == "Alt_R"@ {
        Some(100u16)
    } else if name == "Meta"@ {
        Some(125u16)
    } else if name == "Meta_L"@ {
        Some(125u16)
    } else if name == "Super"@ {
        Some(125u16)
    } else if name == "Super_L"@ {
        Some(125u16)
    } else if name == "Meta_R"@ {
        Some(126u16)
    } else if name == "Super_R"@ {
        Some(126u16)
    } else if name == "Up"@ {
        Some(103u16)
    } else if name == "Down"@ {
        Some(108u16)
    } else if name == "Left"@ {
        Some(105u16)
    } else if name == "Right"@ {
        Some(106u16)
    } else if name == "Home"@ {
        Some(102u16)
    } else if name == "End"@ {
        Some(107u16)
    } else if name == "PageUp"@ {
        Some(104u16)
    } else if name == "PageDown"@ {
        Some(109u16)
    } else if name == "F1"@ {
        Some(59u16)
    } else if name == "F2"@ {
        Some(60u16)
    } else if name == "F3"@ {
        Some(61u16)
    } else if name == "F4"@ {
        Some(62u16)
    } else if name == "F5"@ {
        Some(63u16)
    } else if name == "F6"@ {
        Some(64u16)
    } else if name == "F7"@ {
        Some(65u16)
    } else if name == "F8"@ {
        Some(66u16)
    } else if name == "F9"@ {
        Some(67u16)
    } else if name == "F10"@ {
        Some(68u16)
    } else if name == "F11"@ {
        Some(87u16)
    } else if name == "F12"@ {
        Some(88u16)
    } else {
        None
    }
}

/// The Linux input event code of key name `name`, as the keyboard
/// simulator accepts it.
pub open spec fn linux_name_code(name: Seq<char>) -> Option<u16> {
    if name.len() == 1 {
        linux_char_code(name[0])
    } else {
        linux_word_code(name)
    }
}

/// The name the keyboard listener gives to a key with a table entry.
pub open spec fn linux_named_key(code: u16) -> Option<Seq<char>> {
    if code == 30 {
        Some("a"@)
    } else if code == 48 {
        Some("b"@)
    } else if code == 46 {
        Some("c"@)
    } else if code == 32 {
        Some("d"@)
    } else if code == 18 {
        Some("e"@)
    } else if code == 33 {
        Some("f"@)
    } else if code == 34 {
        Some("g"@)
    } else if code == 35 {
        Some("h"@)
    } else if code == 23 {
        Some("i"@)
    } else if code == 36 {
        Some("j"@)
    } else if code == 37 {
        Some("k"@)
    } else if code == 38 {
        Some("l"@)
    } else if code == 50 {
        Some("m"@)
    } else if code == 49 {
        Some("n"@)
    } else if code == 24 {
        Some("o"@)
    } else if code == 25 {
        Some("p"@)
    } else if code == 16 {
        Some("q"@)
    } else if code == 19 {
        Some("r"@)
    } else if code == 31 {
        Some("s"@)
    } else if code == 20 {
        Some("t"@)
    } else if code == 22 {
        Some("u"@)
    } else if code == 47 {
        Some("v"@)
    } else if code == 17 {
        Some("w"@)
    } else if code == 45 {
        Some("x"@)
    } else if code == 21 {
        Some("y"@)
    } else if code == 44 {
        Some("z"@)
    } else if code == 11 {
        Some("0"@)
    } else if code == 2 {
        Some("1"@)
    } else if code == 3 {
        Some("2"@)
    } else if code == 4 {
        Some("3"@)
    } else if code == 5 {
        Some("4"@)
    } else if code == 6 {
        Some("5"@)
    } else if code == 7 {
        Some("6"@)
    } else if code == 8 {
        Some("7"@)
    } else if code == 9 {
        Some("8"@)
    } else if code == 10 {
        Some("9"@)
    } else if code == 57 {
        Some("Space"@)
    } else if code == 28 {
        Some("Enter"@)
    } else if code == 15 {
        Some("Tab"@)
    } else if code == 1 {
        Some("Escape"@)
    } else if code == 14 {
        Some("Backspace"@)
    } else if code == 111 {
        Some("Delete"@)
    } else if code == 42 {
        Some("Shift"@)
    } else if code == 54 {
        Some("Shift_R"@)
    } else if code == 29 {
        Some("Control"@)
    } else if code == 97 {
        Some("Control_R"@)
    } else if code == 56 {
        Some("Alt"@)
    } else if code == 100 {
        Some("Alt_R"@)
    } else if code == 125 {
        Some("Meta"@)
    } else if code == 126 {
        Some("Meta_R"@)
    } else if code == 103 {
        Some("Up"@)
    } else if code == 108 {
        Some("Down"@)
    } else if code == 105 {
        Some("Left"@)
    } else if code == 106 {
        Some("Right"@)
    } else if code == 102 {
        Some("Home"@)
    } else if code == 107 {
        Some("End"@)
    } else if code == 104 {
        Some("PageUp"@)
    } else if code == 109 {
        Some("PageDown"@)
    } else if code == 59 {
        Some("F1"@)
    } else if code == 60 {
        Some("F2"@)
    } else if code == 61 {
        Some("F3"@)
    } else if code == 62 {
        Some("F4"@)
    } else if code == 63 {
        Some("F5"@)
    } else if code == 64 {
        Some("F6"@)
    } else if code == 65 {
        Some("F7"@)
    } else if code == 66 {
        Some("F8"@)
    } else if code == 67 {
        Some("F9"@)
    } else if code == 68 {
        Some("F10"@)
    } else if code == 87 {
        Some("F11"@)
    } else if code == 88 {
        Some("F12"@)
    } else if code == 12 {
        Some("-"@)
    } else if code == 13 {
        Some("="@)
    } else if code == 26 {
        Some("["@)
    } else if code == 27 {
        Some("]"@)
    } else if code == 39 {
        Some(";"@)
    } else if code == 40 {
        Some("'"@)
    } else if code == 41 {
        Some("`"@)
    } else if code == 43 {
        Some("\\"@)
    } else if code == 51 {
        Some(","@)
    } else if code == 52 {
        Some("."@)
    } else if code == 53 {
        Some("/"@)
    } else {
        None
    }
}

fn char_key_code(c: char) -> (r: Option<u16>)
    ensures
        r == linux_char_code(c),
{
    match c {
        'a' => Some(30),
        'A' => Some(30),
        'b' => Some(48),
        'B' => Some(48),
        'c' => Some(46),
        'C' => Some(46),
        'd' => Some(32),
        'D' => Some(32),
        'e' => Some(18),
        'E' => Some(18),
        'f' => Some(33),
        'F' => Some(33),
        'g' => Some(34),
        'G' => Some(34),
        'h' => Some(35),
        'H' => Some(35),
        'i' => Some(23),
        'I' => Some(23),
        'j' => Some(36),
        'J' => Some(36),
        'k' => Some(37),
        'K' => Some(37),
        'l' => Some(38),
        'L' => Some(38),
        'm' => Some(50),
        'M' => Some(50),
        'n' => Some(49),
        'N' => Some(49),
        'o' => Some(24),
        'O' => Some(24),
        'p' => Some(25),
        'P' => Some(25),
        'q' => Some(16),
        'Q' => Some(16),
        'r' => Some(19),
        'R' => Some(19),
        's' => Some(31),
        'S' => Some(31),
        't' => Some(20),
        'T' => Some(20),
        'u' => Some(22),
        'U' => Some(22),
        'v' => Some(47),
        'V' => Some(47),
        'w' => Some(17),
        'W' => Some(17),
        'x' => Some(45),
        'X' => Some(45),
        'y' => Some(21),
        'Y' => Some(21),
        'z' => Some(44),
        'Z' => Some(44),
        '0' => Some(11),
        '1' => Some(2),
        '2' => Some(3),
        '3' => Some(4),
        '4' => Some(5),
        '5' => Some(6),
        '6' => Some(7),
        '7' => Some(8),
        '8' => Some(9),
        '9' => Some(10),
        ' ' => Some(57),
        '-' => Some(12),
        '_' => Some(12),
        '=' => Some(13),
        '+' => Some(13),
        '[' => Some(26),
        '{' => Some(26),
        ']' => Some(27),
        '}' => Some(27),
        ';' => Some(39),
        ':' => Some(39),
        '\'' => Some(40),
        '"' => Some(40),
        '`' => Some(41),
        '~' => Some(41),
        '\\' => Some(43),
        '|' => Some(43),
        ',' => Some(51),
        '<' => Some(51),
        '.' => Some(52),
        '>' => Some(52),
        '/' => Some(53),
        '?' => Some(53),
        _ => None,
    }
}

fn word_key_code(name: &str) -> (r: Option<u16>)
    ensures
        r == linux_word_code(name@),
{
    if str_eq(name, "Space") {
        return Some(57);
    }
    if str_eq(name, "Enter") {
        return Some(28);
    }
    if str_eq(name, "Return") {
        return Some(28);
    }
    if str_eq(name, "Tab") {
        return Some(15);
    }
    if str_eq(name, "Escape") {
        return Some(1);
    }
    if str_eq(name, "Backspace") {
        return Some(14);
    }
    if str_eq(name, "Delete") {
        return Some(111);
    }
    if str_eq(name, "Shift") {
        return Some(42);
    }
    if str_eq(name, "Shift_L") {
        return Some(42);
    }
    if str_eq(name, "Shift_R") {
        return Some(54);
    }
    if str_eq(name, "Control") {
        return Some(29);
    }
    if str_eq(name, "Control_L") {
        return Some(29);
    }
    if str_eq(name, "Control_R") {
        return Some(97);
    }
    if str_eq(name, "Alt") {
        return Some(56);
    }
    if str_eq(name, "Alt_L") {
        return Some(56);
    }
    if str_eq(name, "Alt_R") {
        return Some(100);
    }
    if str_eq(name, "Meta") {
        return Some(125);
    }
    if str_eq(name, "Meta_L") {
        return Some(125);
    }
    if str_eq(name, "Super") {
        return Some(125);
    }
    if str_eq(name, "Super_L") {
        return Some(125);
    }
    if str_eq(name, "Meta_R") {
        return Some(126);
    }
    if str_eq(name, "Super_R") {
        return Some(126);
    }
    if str_eq(name, "Up") {
        return Some(103);
    }
    if str_eq(name, "Down") {
        return Some(108);
    }
    if str_eq(name, "Left") {
        return Some(105);
    }
    if str_eq(name, "Right") {
        return Some(106);
    }
    if str_eq(name, "Home") {
        return Some(102);
    }
    if str_eq(name, "End") {
        return Some(107);
    }
    if str_eq(name, "PageUp") {
        return Some(104);
    }
    if str_eq(name, "PageDown") {
        return Some(109);
    }
    if str_eq(name, "F1") {
        return Some(59);
    }
    if str_eq(name, "F2") {
        return Some(60);
    }
    if str_eq(name, "F3") {
        return Some(61);
    }
    if str_eq(name, "F4") {
        return Some(62);
    }
    if str_eq(name, "F5") {
        return Some(63);
    }
    if str_eq(name, "F6") {
        return Some(64);
    }
    if str_eq(name, "F7") {
        return Some(65);
    }
    if str_eq(name, "F8") {
        return Some(66);
    }
    if str_eq(name, "F9") {
        return Some(67);
    }
    if str_eq(name, "F10") {
        return Some(68);
    }
    if str_eq(name, "F11") {
        return Some(87);
    }
    if str_eq(name, "F12") {
        return Some(88);
    }
    None
}

/// The input event code of key name `name`, if the simulator knows it.
pub fn key_name_to_evdev_key(name: &str) -> (r: Option<u16>)
    ensures
        r == linux_name_code(name@),
{
    let chars = chars_of(name);
    if chars.len() == 1 {
        char_key_code(chars[0])
    } else {
        word_key_code(name)
    }
}

fn linux_table_name(code: u16) -> (r: Option<&'static str>)
    ensures
        match linux_named_key(code) {
            Some(n) => r is Some && r->Some_0@ == n,
            None => r is None,
        },
{
    match code {
        30 => Some("a"),
        48 => Some("b"),
        46 => Some("c"),
        32 => Some("d"),
        18 => Some("e"),
        33 => Some("f"),
        34 => Some("g"),
        35 => Some("h"),
        23 => Some("i"),
        36 => Some("j"),
        37 => Some("k"),
        38 => Some("l"),
        50 => Some("m"),
        49 => Some("n"),
        24 => Some("o"),
        25 => Some("p"),
        16 => Some("q"),
        19 => Some("r"),
        31 => Some("s"),
        20 => Some("t"),
        22 => Some("u"),
        47 => Some("v"),
        17 => Some("w"),
        45 => Some("x"),
        21 => Some("y"),
        44 => Some("z"),
        11 => Some("0"),
        2 => Some("1"),
        3 => Some("2"),
        4 => Some("3"),
        5 => Some("4"),
        6 => Some("5"),
        7 => Some("6"),
        8 => Some("7"),
        9 => Some("8"),
        10 => Some("9"),
        57 => Some("Space"),
        28 => Some("Enter"),
        15 => Some("Tab"),
        1 => Some("Escape"),
        14 => Some("Backspace"),
        111 => Some("Delete"),
        42 => Some("Shift"),
        54 => Some("Shift_R"),
        29 => Some("Control"),
        97 => Some("Control_R"),
        56 => Some("Alt"),
        100 => Some("Alt_R"),
        125 => Some("Meta"),
        126 => Some("Meta_R"),
        103 => Some("Up"),
        108 => Some("Down"),
        105 => Some("Left"),
        106 => Some("Right"),
        102 => Some("Home"),
        107 => Some("End"),
        104 => Some("PageUp"),
        109 => Some("PageDown"),
        59 => Some("F1"),
        60 => Some("F2"),
        61 => Some("F3"),
        62 => Some("F4"),
        63 => Some("F5"),
        64 => Some("F6"),
        65 => Some("F7"),
        66 => Some("F8"),
        67 => Some("F9"),
        68 => Some("F10"),
        87 => Some("F11"),
        88 => Some("F12"),
        12 => Some("-"),
        13 => Some("="),
        26 => Some("["),
        27 => Some("]"),
        39 => Some(";"),
        40 => Some("'"),
        41 => Some("`"),
        43 => Some("\\"),
        51 => Some(","),
        52 => Some("."),
        53 => Some("/"),
        _ => None,
    }
}

/// Every key the listener names is found again by its name, so a key
/// captured on one Linux machine is replayed as the same key on another.
pub proof fn lemma_linux_key_name_roundtrip(code: u16)
    requires
        linux_named_key(code) is Some,
    ensures
        linux_name_code(linux_named_key(code)->Some_0) == Some(code),
{
    reveal_strlit("a");
    reveal_strlit("b");
    reveal_strlit("c");
    reveal_strlit("d");
    reveal_strlit("e");
    reveal_strlit("f");
    reveal_strlit("g");
    reveal_strlit("h");
    reveal_strlit("i");
    reveal_strlit("j");
    reveal_strlit("k");
    reveal_strlit("l");
    reveal_strlit("m");
    reveal_strlit("n");
    reveal_strlit("o");
    reveal_strlit("p");
    reveal_strlit("q");
    reveal_strlit("r");
    reveal_strlit("s");
    reveal_strlit("t");
    reveal_strlit("u");
    reveal_strlit("v");
    reveal_strlit("w");
    reveal_strlit("x");
    reveal_strlit("y");
    reveal_strlit("z");
    reveal_strlit("0");
    reveal_strlit("1");
    reveal_strlit("2");
    reveal_strlit("3");
    reveal_strlit("4");
    reveal_strlit("5");
    reveal_strlit("6");
    reveal_strlit("7");
    reveal_strlit("8");
    reveal_strlit("9");
    reveal_strlit("Space");
    reveal_strlit("Enter");
    reveal_strlit("Tab");
    reveal_strlit("Escape");
    reveal_strlit("Backspace");
    reveal_strlit("Delete");
    reveal_strlit("Shift");
    reveal_strlit("Shift_R");
    reveal_strlit("Control");
    reveal_strlit("Control_R");
    reveal_strlit("Alt");
    reveal_strlit("Alt_R");
    reveal_strlit("Meta");
    reveal_strlit("Meta_R");
    reveal_strlit("Up");
    reveal_strlit("Down");
    reveal_strlit("Left");
    reveal_strlit("Right");
    reveal_strlit("Home");
    reveal_strlit("End");
    reveal_strlit("PageUp");
    reveal_strlit("PageDown");
    reveal_strlit("F1");
    reveal_strlit("F2");
    reveal_strlit("F3");
    reveal_strlit("F4");
    reveal_strlit("F5");
    reveal_strlit("F6");
    reveal_strlit("F7");
    reveal_strlit("F8");
    reveal_strlit("F9");
    reveal_strlit("F10");
    reveal_strlit("F11");
    reveal_strlit("F12");
    reveal_strlit("-");
    reveal_strlit("=");
    reveal_strlit("[");
    reveal_strlit("]");
    reveal_strlit(";");
    reveal_strlit("'");
    reveal_strlit("`");
    reveal_strlit("\\");
    reveal_strlit(",");
    reveal_strlit(".");
    reveal_strlit("/");
    reveal_strlit("Return");
    reveal_strlit("Shift_L");
    reveal_strlit("Control_L");
    reveal_strlit("Alt_L");
    reveal_strlit("Meta_L");
    reveal_strlit("Super");
    reveal_strlit("Super_L");
    reveal_strlit("Super_R");
    if code == 30 {
        assert(linux_name_code("a"@) == Some(30u16));
    } else if code == 48 {
        assert(linux_name_code("b"@) == Some(48u16));
    } else if code == 46 {
        assert(linux_name_code("c"@) == Some(46u16));
    } else if code == 32 {
        assert(linux_name_code("d"@) == Some(32u16));
    } else if code == 18 {
        assert(linux_name_code("e"@) == Some(18u16));
    } else if code == 33 {
        assert(linux_name_code("f"@) == Some(33u16));
    } else if code == 34 {
        assert(linux_name_code("g"@) == Some(34u16));
    } else if code == 35 {
        assert(linux_name_code("h"@) == Some(35u16));
    } else if code == 23 {
        assert(linux_name_code("i"@) == Some(23u16));
    } else if code == 36 {
        assert(linux_name_code("j"@) == Some(36u16));
    } else if code == 37 {
        assert(linux_name_code("k"@) == Some(37u16));
    } else if code == 38 {
        assert(linux_name_code("l"@) == Some(38u16));
    } else if code == 50 {
        assert(linux_name_code("m"@) == Some(50u16));
    } else if code == 49 {
        assert(linux_name_code("n"@) == Some(49u16));
    } else if code == 24 {
        assert(linux_name_code("o"@) == Some(24u16));
    } else if code == 25 {
        assert(linux_name_code("p"@) == Some(25u16));
    } else if code == 16 {
        assert(linux_name_code("q"@) == Some(16u16));
    } else if code == 19 {
        assert(linux_name_code("r"@) == Some(19u16));
    } else if code == 31 {
        assert(linux_name_code("s"@) == Some(31u16));
    } else if code == 20 {
        assert(linux_name_code("t"@) == Some(20u16));
    } else if code == 22 {
        assert(linux_name_code("u"@) == Some(22u16));
    } else if code == 47 {
        assert(linux_name_code("v"@) == Some(47u16));
    } else if code == 17 {
        assert(linux_name_code("w"@) == Some(17u16));
    } else if code == 45 {
        assert(linux_name_code("x"@) == Some(45u16));
    } else if code == 21 {
        assert(linux_name_code("y"@) == Some(21u16));
    } else if code == 44 {
        assert(linux_name_code("z"@) == Some(44u16));
    } else if code == 11 {
        assert(linux_name_code("0"@) == Some(11u16));
    } else if code == 2 {
        assert(linux_name_code("1"@) == Some(2u16));
    } else if code == 3 {
        assert(linux_name_code("2"@) == Some(3u16));
    } else if code == 4 {
        assert(linux_name_code("3"@) == Some(4u16));
    } else if code == 5 {
        assert(linux_name_code("4"@) == Some(5u16));
    } else if code == 6 {
        assert(linux_name_code("5"@) == Some(6u16));
    } else if code == 7 {
        assert(linux_name_code("6"@) == Some(7u16));
    } else if code == 8 {
        assert(linux_name_code("7"@) == Some(8u16));
    } else if code == 9 {
        assert(linux_name_code("8"@) == Some(9u16));
    } else if code == 10 {
        assert(linux_name_code("9"@) == Some(10u16));
    } else if code == 57 {
        assert(linux_name_code("Space"@) == Some(57u16));
    } else if code == 28 {
        assert("Enter"@[0] != "Space"@[0]);
        assert(linux_name_code("Enter"@) == Some(28u16));
    } else if code == 15 {
        assert(linux_name_code("Tab"@) == Some(15u16));
    } else if code == 1 {
        assert("Escape"@[0] != "Return"@[0]);
        assert(linux_name_code("Escape"@) == Some(1u16));
    } else if code == 14 {
        assert(linux_name_code("Backspace"@) == Some(14u16));
    } else if code == 111 {
        assert("Delete"@[0] != "Return"@[0]);
        assert("Delete"@[0] != "Escape"@[0]);
        assert(linux_name_code("Delete"@) == Some(111u16));
    } else if code == 42 {
        assert("Shift"@[1] != "Space"@[1]);
        assert("Shift"@[0] != "Enter"@[0]);
        assert(linux_name_code("Shift"@) == Some(42u16));
    } else if code == 54 {
        assert("Shift_R"@[6] != "Shift_L"@[6]);
        assert(linux_name_code("Shift_R"@) == Some(54u16));
    } else if code == 29 {
        assert("Control"@[0] != "Shift_L"@[0]);
        assert("Control"@[0] != "Shift_R"@[0]);
        assert(linux_name_code("Control"@) == Some(29u16));
    } else if code == 97 {
        assert("Control_R"@[0] != "Backspace"@[0]);
        assert("Control_R"@[8] != "Control_L"@[8]);
        assert(linux_name_code("Control_R"@) == Some(97u16));
    } else if code == 56 {
        assert("Alt"@[0] != "Tab"@[0]);
        assert(linux_name_code("Alt"@) == Some(56u16));
    } else if code == 100 {
        assert("Alt_R"@[0] != "Space"@[0]);
        assert("Alt_R"@[0] != "Enter"@[0]);
        assert("Alt_R"@[0] != "Shift"@[0]);
        assert("Alt_R"@[4] != "Alt_L"@[4]);
        assert(linux_name_code("Alt_R"@) == Some(100u16));
    } else if code == 125 {
        assert(linux_name_code("Meta"@) == Some(125u16));
    } else if code == 126 {
        assert("Meta_R"@[0] != "Return"@[0]);
        assert("Meta_R"@[0] != "Escape"@[0]);
        assert("Meta_R"@[0] != "Delete"@[0]);
        assert("Meta_R"@[5] != "Meta_L"@[5]);
        assert(linux_name_code("Meta_R"@) == Some(126u16));
    } else if code == 103 {
        assert(linux_name_code("Up"@) == Some(103u16));
    } else if code == 108 {
        assert("Down"@[0] != "Meta"@[0]);
        assert(linux_name_code("Down"@) == Some(108u16));
    } else if code == 105 {
        assert("Left"@[0] != "Meta"@[0]);
        assert("Left"@[0] != "Down"@[0]);
        assert(linux_name_code("Left"@) == Some(105u16));
    } else if code == 106 {
        assert("Right"@[0] != "Space"@[0]);
        assert("Right"@[0] != "Enter"@[0]);
        assert("Right"@[0] != "Shift"@[0]);
        assert("Right"@[0] != "Alt_L"@[0]);
        assert("Right"@[0] != "Alt_R"@[0]);
        assert("Right"@[0] != "Super"@[0]);
        assert(linux_name_code("Right"@) == Some(106u16));
    } else if code == 102 {
        assert("Home"@[0] != "Meta"@[0]);
        assert("Home"@[0] != "Down"@[0]);
        assert("Home"@[0] != "Left"@[0]);
        assert(linux_name_code("Home"@) == Some(102u16));
    } else if code == 107 {
        assert("End"@[0] != "Tab"@[0]);
        assert("End"@[0] != "Alt"@[0]);
        assert(linux_name_code("End"@) == Some(107u16));
    } else if code == 104 {
        assert("PageUp"@[0] != "Return"@[0]);
        assert("PageUp"@[0] != "Escape"@[0]);
        assert("PageUp"@[0] != "Delete"@[0]);
        assert("PageUp"@[0] != "Meta_L"@[0]);
        assert("PageUp"@[0] != "Meta_R"@[0]);
        assert(linux_name_code("PageUp"@) == Some(104u16));
    } else if code == 109 {
        assert(linux_name_code("PageDown"@) == Some(109u16));
    } else if code == 59 {
        assert("F1"@[0] != "Up"@[0]);
        assert(linux_name_code("F1"@) == Some(59u16));
    } else if code == 60 {
        assert("F2"@[0] != "Up"@[0]);
        assert("F2"@[1] != "F1"@[1]);
        assert(linux_name_code("F2"@) == Some(60u16));
    } else if code == 61 {
        assert("F3"@[0] != "Up"@[0]);
        assert("F3"@[1] != "F1"@[1]);
        assert("F3"@[1] != "F2"@[1]);
        assert(linux_name_code("F3"@) == Some(61u16));
    } else if code == 62 {
        assert("F4"@[0] != "Up"@[0]);
        assert("F4"@[1] != "F1"@[1]);
        assert("F4"@[1] != "F2"@[1]);
        assert("F4"@[1] != "F3"@[1]);
        assert(linux_name_code("F4"@) == Some(62u16));
    } else if code == 63 {
        assert("F5"@[0] != "Up"@[0]);
        assert("F5"@[1] != "F1"@[1]);
        assert("F5"@[1] != "F2"@[1]);
        assert("F5"@[1] != "F3"@[1]);
        assert("F5"@[1] != "F4"@[1]);
        assert(linux_name_code("F5"@) == Some(63u16));
    } else if code == 64 {
        assert("F6"@[0] != "Up"@[0]);
        assert("F6"@[1] != "F1"@[1]);
        assert("F6"@[1] != "F2"@[1]);
        assert("F6"@[1] != "F3"@[1]);
        assert("F6"@[1] != "F4"@[1]);
        assert("F6"@[1] != "F5"@[1]);
        assert(linux_name_code("F6"@) == Some(64u16));
    } else if code == 65 {
        assert("F7"@[0] != "Up"@[0]);
        assert("F7"@[1] != "F1"@[1]);
        assert("F7"@[1] != "F2"@[1]);
        assert("F7"@[1] != "F3"@[1]);
        assert("F7"@[1] != "F4"@[1]);
        assert("F7"@[1] != "F5"@[1]);
        assert("F7"@[1] != "F6"@[1]);
        assert(linux_name_code("F7"@) == Some(65u16));
    } else if code == 66 {
        assert("F8"@[0] != "Up"@[0]);
        assert("F8"@[1] != "F1"@[1]);
        assert("F8"@[1] != "F2"@[1]);
        assert("F8"@[1] != "F3"@[1]);
        assert("F8"@[1] != "F4"@[1]);
        assert("F8"@[1] != "F5"@[1]);
        assert("F8"@[1] != "F6"@[1]);
        assert("F8"@[1] != "F7"@[1]);
        assert(linux_name_code("F8"@) == Some(66u16));
    } else if code == 67 {
        assert("F9"@[0] != "Up"@[0]);
        assert("F9"@[1] != "F1"@[1]);
        assert("F9"@[1] != "F2"@[1]);
        assert("F9"@[1] != "F3"@[1]);
        assert("F9"@[1] != "F4"@[1]);
        assert("F9"@[1] != "F5"@[1]);
        assert("F9"@[1] != "F6"@[1]);
        assert("F9"@[1] != "F7"@[1]);
        assert("F9"@[1] != "F8"@[1]);
        assert(linux_name_code("F9"@) == Some(67u16));
    } else if code == 68 {
        assert("F10"@[0] != "Tab"@[0]);
        assert("F10"@[0] != "Alt"@[0]);
        assert("F10"@[0] != "End"@[0]);
        assert(linux_name_code("F10"@) == Some(68u16));
    } else if code == 87 {
        assert("F11"@[0] != "Tab"@[0]);
        assert("F11"@[0] != "Alt"@[0]);
        assert("F11"@[0] != "End"@[0]);
        assert("F11"@[2] != "F10"@[2]);
        assert(linux_name_code("F11"@) == Some(87u16));
    } else if code == 88 {
        assert("F12"@[0] != "Tab"@[0]);
        assert("F12"@[0] != "Alt"@[0]);
        assert("F12"@[0] != "End"@[0]);
        assert("F12"@[2] != "F10"@[2]);
        assert("F12"@[2] != "F11"@[2]);
        assert(linux_name_code("F12"@) == Some(88u16));
    } else if code == 12 {
        assert(linux_name_code("-"@) == Some(12u16));
    } else if code == 13 {
        assert(linux_name_code("="@) == Some(13u16));
    } else if code == 26 {
        assert(linux_name_code("["@) == Some(26u16));
    } else if code == 27 {
        assert(linux_name_code("]"@) == Some(27u16));
    } else if code == 39 {
        assert(linux_name_code(";"@) == Some(39u16));
    } else if code == 40 {
        assert(linux_name_code("'"@) == Some(40u16));
    } else if code == 41 {
        assert(linux_name_code("`"@) == Some(41u16));
    } else if code == 43 {
        assert(linux_name_code("\\"@) == Some(43u16));
    } else if code == 51 {
        assert(linux_name_code(","@) == Some(51u16));
    } else if code == 52 {
        assert(linux_name_code("."@) == Some(52u16));
    } else if code == 53 {
        assert(linux_name_code("/"@) == Some(53u16));
    }
}

/// The `Debug` text of `evdev::Key` for a code.
pub uninterp spec fn evdev_key_label(code: u16) -> Seq<char>;

/// The `Debug` text of the key with code `code` (`format!("{:?}", Key::new(code))`).
#[verifier::external_body]
fn evdev_key_debug(code: u16) -> (r: String)
    ensures
        r@ == evdev_key_label(code),
{
    format!("{:?}", evdev::Key::new(code))
}

/// The name the keyboard listener reports for the key with code `code`.
pub open spec fn linux_key_name(code: u16) -> Seq<char> {
    match linux_named_key(code) {
        Some(n) => n,
        None => evdev_key_label(code),
    }
}

/// The name the keyboard listener reports for the key with code `code`.
pub fn evdev_key_to_name(code: u16) -> (r: String)
    ensures
        r@ == linux_key_name(code),
{
    match linux_table_name(code) {
        Some(n) => copy_string_of_str(n),
        None => evdev_key_debug(code),
    }
}

/// The button code of a button name, whatever its case.
pub open spec fn linux_button_code(name: Seq<char>) -> Option<u16> {
    let l = lowercase_of(name);
    if l == "left"@ {
        Some(BTN_LEFT)
    } else if l == "right"@ {
        Some(BTN_RIGHT)
    } else if l == "middle"@ {
        Some(BTN_MIDDLE)
    } else if l == "side"@ || l == "back"@ {
        Some(BTN_SIDE)
    } else if l == "extra"@ || l == "forward"@ {
        Some(BTN_EXTRA)
    } else {
        None
    }
}

/// The button code of a button name, if the mouse simulator knows it.
pub fn button_name_to_evdev(name: &str) -> (r: Option<u16>)
    ensures
        r == linux_button_code(name@),
{
    let l = str_to_lowercase(name);
    let l = l.as_str();
    if str_eq(l, "left") {
        Some(BTN_LEFT)
    } else if str_eq(l, "right") {
        Some(BTN_RIGHT)
    } else if str_eq(l, "middle") {
        Some(BTN_MIDDLE)
    } else if str_eq(l, "side") || str_eq(l, "back") {
        Some(BTN_SIDE)
    } else if str_eq(l, "extra") || str_eq(l, "forward") {
        Some(BTN_EXTRA)
    } else {
        None
    }
}

/// The name the mouse listener gives to a button code.
pub open spec fn linux_button_name(code: u16) -> Option<Seq<char>> {
    if code == BTN_LEFT {
        Some("Left"@)
    } else if code == BTN_RIGHT {
        Some("Right"@)
    } else if code == BTN_MIDDLE {
        Some("Middle"@)
    } else if code == BTN_SIDE {
        Some("Side"@)
    } else if code == BTN_EXTRA {
        Some("Extra"@)
    } else {
        None
    }
}

/// The name the mouse listener gives to a button code, if it is a button.
pub fn evdev_code_to_button(code: u16) -> (r: Option<String>)
    ensures
        match linux_button_name(code) {
            Some(n) => r is Some && r->Some_0@ == n,
            None => r is None,
        },
{
    if code == BTN_LEFT {
        Some(copy_string_of_str("Left"))
    } else if code == BTN_RIGHT {
        Some(copy_string_of_str("Right"))
    } else if code == BTN_MIDDLE {
        Some(copy_string_of_str("Middle"))
    } else if code == BTN_SIDE {
        Some(copy_string_of_str("Side"))
    } else if code == BTN_EXTRA {
        Some(copy_string_of_str("Extra"))
    } else {
        None
    }
}

/// Every button the listener names is found again by its name.
pub proof fn lemma_linux_button_roundtrip(code: u16, name: Seq<char>)
    requires
        linux_button_name(code) == Some(name),
        lowercase_of(name) == (if code == BTN_LEFT {
            "left"@
        } else if code == BTN_RIGHT {
            "right"@
        } else if code == BTN_MIDDLE {
            "middle"@
        } else if code == BTN_SIDE {
            "side"@
        } else {
            "extra"@
        }),
    ensures
        linux_button_code(name) == Some(code),
{
    reveal_strlit("left");
    reveal_strlit("right");
    reveal_strlit("middle");
    reveal_strlit("side");
    reveal_strlit("back");
    reveal_strlit("extra");
    reveal_strlit("forward");
    assert("left"@.len() != "right"@.len());
    assert("middle"@.len() != "left"@.len());
    assert("side"@[0] != "left"@[0]);
    assert("extra"@[0] != "right"@[0]);
}

/// What the evdev mouse listener reports for one event.
pub enum LinuxMouseAction {
    Nothing,
    Move { dx: i32, dy: i32 },
    Scroll { x: i32, y: i32, dx: i32, dy: i32 },
    Click { x: i32, y: i32, button: String, pressed: bool },
}

/// Whether the event moves the tracked position past what an `i32` holds.
pub open spec fn mouse_step_overflows(pos: (i32, i32), event_type: u16, code: u16, value: i32) -> bool {
    &&& event_type == EV_REL
    &&& (code == REL_X && !(i32::MIN <= pos.0 + value <= i32::MAX) || code == REL_Y && !(i32::MIN
        <= pos.1 + value <= i32::MAX))
}

/// One event of the evdev mouse listener while input is redirected:
/// relative motion moves the tracked position `pos` and is reported,
/// wheels are reported at `pos`, and button keys are reported as clicks.
pub fn linux_mouse_step(pos: (i32, i32), event_type: u16, code: u16, value: i32) -> (r: ((i32, i32), LinuxMouseAction))
    requires
        !mouse_step_overflows(pos, event_type, code, value),
    ensures
        event_type == EV_REL && (code == REL_X || code == REL_Y) ==> {
            let dx: i32 = if code == REL_X { value } else { 0 };
            let dy: i32 = if code == REL_Y { value } else { 0 };
            &&& r.0.0 == pos.0 + dx && r.0.1 == pos.1 + dy
            &&& r.1 == LinuxMouseAction::Move { dx, dy }
        },
        event_type == EV_REL && (code == REL_WHEEL || code == REL_HWHEEL) ==> {
            let dx: i32 = if code == REL_HWHEEL { value } else { 0 };
            let dy: i32 = if code == REL_WHEEL { value } else { 0 };
            &&& r.0 == pos
            &&& r.1 == LinuxMouseAction::Scroll { x: pos.0, y: pos.1, dx, dy }
        },
        event_type == EV_KEY ==> r.0 == pos && match linux_button_name(code) {
            Some(n) => r.1 matches LinuxMouseAction::Click { x, y, button, pressed } && x == pos.0 && y == pos.1
                && button@ == n && pressed == (value != 0),
            None => r.1 is Nothing,
        },
        !(event_type == EV_REL && (code == REL_X || code == REL_Y || code == REL_WHEEL || code == REL_HWHEEL))
            && event_type != EV_KEY ==> r.0 == pos && r.1 is Nothing,
{
    if event_type == EV_REL {
        if code == REL_X || code == REL_Y {
            let dx: i32 = if code == REL_X { value } else { 0 };
            let dy: i32 = if code == REL_Y { value } else { 0 };
            ((pos.0 + dx, pos.1 + dy), LinuxMouseAction::Move { dx, dy })
        } else if code == REL_WHEEL || code == REL_HWHEEL {
            let dx: i32 = if code == REL_HWHEEL { value } else { 0 };
            let dy: i32 = if code == REL_WHEEL { value } else { 0 };
            (pos, LinuxMouseAction::Scroll { x: pos.0, y: pos.1, dx, dy })
        } else {
            (pos, LinuxMouseAction::Nothing)
        }
    } else if event_type == EV_KEY {
        match evdev_code_to_button(code) {
            Some(button) => (pos, LinuxMouseAction::Click { x: pos.0, y: pos.1, button, pressed: value != 0 }),
            None => (pos, LinuxMouseAction::Nothing),
        }
    } else {
        (pos, LinuxMouseAction::Nothing)
    }
}

/// What the evdev keyboard listener reports for one key event.
pub enum LinuxKeyAction {
    Nothing,
    /// Ctrl+Alt+Escape: control returns to this machine at once.
    EmergencyRelease,
    Press(String),
    Release(String),
}

/// Which modifiers the keyboard listener believes held.
#[derive(Clone, Copy, Debug, PartialEq, Eq, Structural)]
pub struct ModifierState {
    pub ctrl_down: bool,
    pub alt_down: bool,
}

/// The modifiers after a key event with code `code` and value `value`.
pub open spec fn next_modifiers(m: ModifierState, code: u16, value: i32) -> ModifierState {
    if code == KEY_LEFTCTRL || code == KEY_RIGHTCTRL {
        ModifierState { ctrl_down: value != 0, ..m }
    } else if code == KEY_LEFTALT || code == KEY_RIGHTALT {
        ModifierState { alt_down: value != 0, ..m }
    } else {
        m
    }
}

/// The tracked modifiers follow the keys: a Control key (29, 97) event sets
/// Control as held exactly when its value is not 0 (pressed or repeated),
/// an Alt key (56, 100) event does the same for Alt, and any other key
/// leaves both as they were. So Escape (1) pressed after both were pressed,
/// and neither released since, is the emergency release.
pub proof fn lemma_modifiers_follow_keys(m: ModifierState, code: u16, value: i32, esc_value: i32)
    ensures
        next_modifiers(m, code, value).ctrl_down == (if code == 29 || code == 97 {
            value != 0
        } else {
            m.ctrl_down
        }),
        next_modifiers(m, code, value).alt_down == (if code == 56 || code == 100 {
            value != 0
        } else {
            m.alt_down
        }),
        ({
            let after_ctrl = next_modifiers(m, 29, 1);
            let after_both = next_modifiers(after_ctrl, 56, 1);
            let after_esc = next_modifiers(after_both, 1, esc_value);
            after_esc.ctrl_down && after_esc.alt_down
        }),
{
}

/// One key event of the evdev keyboard listener while input is
/// redirected: Escape pressed with Control and Alt held releases control,
/// any other key is reported as pressed (value 1, or 2 for a repeat) or
/// released (value 0).
pub fn linux_key_step(m: ModifierState, code: u16, value: i32) -> (r: (ModifierState, LinuxKeyAction))
    ensures
        r.0 == next_modifiers(m, code, value),
        code == KEY_ESC && value != 0 && r.0.ctrl_down && r.0.alt_down ==> r.1 is EmergencyRelease,
        !(code == KEY_ESC && value != 0 && r.0.ctrl_down && r.0.alt_down) ==> {
            if value == 1 || value == 2 {
                r.1 matches LinuxKeyAction::Press(n) && n@ == linux_key_name(code)
            } else if value == 0 {
                r.1 matches LinuxKeyAction::Release(n) && n@ == linux_key_name(code)
            } else {
                r.1 is Nothing
            }
        },
{
    let is_down = value != 0;
    let mut next = m;
    if code == KEY_LEFTCTRL || code == KEY_RIGHTCTRL {
        next.ctrl_down = is_down;
    } else if code == KEY_LEFTALT || code == KEY_RIGHTALT {
        next.alt_down = is_down;
    }
    if code == KEY_ESC && is_down && next.ctrl_down && next.alt_down {
        return (next, LinuxKeyAction::EmergencyRelease);
    }
    if value == 1 || value == 2 {
        (next, LinuxKeyAction::Press(evdev_key_to_name(code)))
    } else if value == 0 {
        (next, LinuxKeyAction::Release(evdev_key_to_name(code)))
    } else {
        (next, LinuxKeyAction::Nothing)
    }
}

/// Whether a suppressing listener grabs (`Some(true)`) or releases
/// (`Some(false)`) its devices, given whether input should be redirected
/// and whether they are grabbed now.
pub fn grab_change(suppress: bool, should_redirect: bool, grabbed: bool) -> (r: Option<bool>)
    ensures
        r == (if suppress && should_redirect && !grabbed {
            Some(true)
        } else if suppress && !should_redirect && grabbed {
            Some(false)
        } else {
            None::<bool>
        }),
{
    if suppress {
        if should_redirect && !grabbed {
            Some(true)
        } else if !should_redirect && grabbed {
            Some(false)
        } else {
            None
        }
    } else {
        None
    }
}

/// Whether a change of clipboard owner is reported to the clipboard
/// listener's callback: not while this program writes the clipboard, and
/// not for text this program wrote from the network (whose remembered hash
/// is then consumed).
pub fn owner_change_notifies(ignore_queue: &mut Vec<u64>, text: &str, writing: bool) -> (r: bool)
    ensures
        writing ==> !r && final(ignore_queue)@ == old(ignore_queue)@,
        !writing && text@.len() == 0 ==> r && final(ignore_queue)@ == old(ignore_queue)@,
        !writing && text@.len() > 0 ==> {
            let h = crate::engine::clipboard::fx_str_hash(text@, usize::BITS);
            &&& r == !old(ignore_queue)@.contains(h)
            &&& final(ignore_queue)@ == crate::hardware::ignore_consume(old(ignore_queue)@, h)
        },
{
    if writing {
        return false;
    }
    if text.is_empty() {
        return true;
    }
    let h = crate::engine::clipboard::hash_clipboard_data(text);
    !crate::hardware::check_and_consume_ignore_hash(ignore_queue, h)
}

} // verus!
