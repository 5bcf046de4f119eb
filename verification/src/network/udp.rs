//! The textual encoding of input events carried in UDP packets.
use vstd::prelude::*;
use crate::network::protocol::{InputEvent, InputEventView};
use crate::text::{
    bool_text, chars_of, int_text, parse_bool_chars, parse_bool_text, parse_i32_text,
    parse_int_text, push_bool_text, push_int_text, string_of, lemma_digits_of_props,
    lemma_parse_int_text_roundtrip, digits_of, copy_string_of_str, str_eq,
};

use crate::crypto::{
    aead_len_ok, chacha20poly1305_open, chacha20poly1305_seal, packet_nonce, replay_accepts,
    replay_next, u64_be_bytes, u64_from_be, u64_from_be_slice, u64_to_be, lemma_u64_be_roundtrip,
    CryptoError, UdpCryptor, UdpReplayProtector,
};
use vstd::utf8::{valid_utf8, decode_utf8, encode_utf8, encode_utf8_valid_utf8, encode_utf8_decode_utf8};

verus! {

// ---------------------------------------------------------------------------
// Splitting at spaces, as `str::splitn(3, ' ')` does
// ---------------------------------------------------------------------------

pub open spec fn is_first_space(s: Seq<char>, i: int) -> bool {
    0 <= i < s.len() && s[i] == ' ' && forall|j: int| 0 <= j < i ==> s[j] != ' '
}

pub open spec fn has_space(s: Seq<char>) -> bool {
    exists|i: int| 0 <= i < s.len() && s[i] == ' '
}

pub open spec fn space_free(s: Seq<char>) -> bool {
    forall|i: int| 0 <= i < s.len() ==> s[i] != ' '
}

/// Index of the first space of `s` (meaningful when `has_space(s)`).
pub open spec fn first_space(s: Seq<char>) -> int {
    choose|i: int| is_first_space(s, i)
}

/// The pieces `s.splitn(3, ' ')` yields: split at the first space, then the
/// rest at its first space; the third piece keeps any further spaces.
pub open spec fn split3(s: Seq<char>) -> Seq<Seq<char>> {
    if !has_space(s) {
        seq![s]
    } else {
        let i = first_space(s);
        let rest = s.skip(i + 1);
        if !has_space(rest) {
            seq![s.take(i), rest]
        } else {
            let j = first_space(rest);
            seq![s.take(i), rest.take(j), rest.skip(j + 1)]
        }
    }
}

proof fn lemma_first_space_unique(s: Seq<char>, i: int)
    requires
        is_first_space(s, i),
    ensures
        has_space(s),
        first_space(s) == i,
{
    let c = first_space(s);
    assert(is_first_space(s, c));
    if c < i {
        assert(s[c] != ' ');
    } else if c > i {
        assert(s[i] != ' ');
    }
}

proof fn lemma_no_space(s: Seq<char>)
    requires
        space_free(s),
    ensures
        !has_space(s),
{
}

proof fn lemma_first_space_of_join(a: Seq<char>, b: Seq<char>)
    requires
        space_free(a),
    ensures
        has_space(a + seq![' '] + b),
        first_space(a + seq![' '] + b) == a.len(),
        (a + seq![' '] + b).take(a.len() as int) == a,
        (a + seq![' '] + b).skip(a.len() as int + 1) == b,
{
    let s = a + seq![' '] + b;
    assert(s[a.len() as int] == ' ');
    assert forall|j: int| 0 <= j < a.len() implies s[j] != ' ' by {
        assert(s[j] == a[j]);
    }
    lemma_first_space_unique(s, a.len() as int);
    assert(s.take(a.len() as int) =~= a);
    assert(s.skip(a.len() as int + 1) =~= b);
}

// ---------------------------------------------------------------------------
// Removing every "Button." (as `str::replace("Button.", "")` does)
// ---------------------------------------------------------------------------

pub open spec fn button_prefix() -> Seq<char> {
    seq!['B', 'u', 't', 't', 'o', 'n', '.']
}

/// `s` with every occurrence of `Button.` removed, scanning left to right.
pub open spec fn strip_button(s: Seq<char>) -> Seq<char>
    decreases s.len(),
{
    if s.len() == 0 {
        s
    } else if s.len() >= 7 && s.take(7) == button_prefix() {
        strip_button(s.skip(7))
    } else {
        seq![s[0]] + strip_button(s.skip(1))
    }
}

pub open spec fn button_at(s: Seq<char>, i: int) -> bool {
    0 <= i && i + 7 <= s.len() && s.subrange(i, i + 7) == button_prefix()
}

pub open spec fn contains_button(s: Seq<char>) -> bool {
    exists|i: int| #[trigger] button_at(s, i)
}

proof fn lemma_strip_button_identity(s: Seq<char>)
    requires
        !contains_button(s),
    ensures
        strip_button(s) == s,
    decreases s.len(),
{
    if s.len() == 0 {
    } else {
        if s.len() >= 7 && s.take(7) == button_prefix() {
            assert(s.subrange(0, 7) =~= s.take(7));
            assert(button_at(s, 0));
        }
        let t = s.skip(1);
        assert forall|i: int| !#[trigger] button_at(t, i) by {
            if 0 <= i && i + 7 <= t.len() {
                assert(t.subrange(i, i + 7) =~= s.subrange(i + 1, i + 1 + 7));
                assert(!button_at(s, i + 1));
            }
        }
        lemma_strip_button_identity(t);
        assert(seq![s[0]] + t =~= s);
    }
}

fn strip_button_chars(s: &[char]) -> (r: Vec<char>)
    ensures
        r@ == strip_button(s@),
{
    let mut out: Vec<char> = Vec::new();
    let mut i: usize = 0;
    assert(s@.skip(0) =~= s@);
    assert(out@ + strip_button(s@) =~= strip_button(s@));
    while i < s.len()
        invariant
            i <= s.len(),
            strip_button(s@) == out@ + strip_button(s@.skip(i as int)),
        decreases s.len() - i,
    {
        let ghost rest = s@.skip(i as int);
        if s.len() >= 7 && i <= s.len() - 7 && s[i] == 'B' && s[i + 1] == 'u' && s[i + 2] == 't' && s[i + 3] == 't'
            && s[i + 4] == 'o' && s[i + 5] == 'n' && s[i + 6] == '.' {
            proof {
                assert(rest.take(7) =~= button_prefix());
                assert(rest.skip(7) =~= s@.skip(i + 7));
            }
            i = i + 7;
        } else {
            proof {
                assert(!(rest.len() >= 7 && rest.take(7) == button_prefix())) by {
                    if rest.len() >= 7 && rest.take(7) == button_prefix() {
                        assert(rest.take(7)[0] == s[i as int]);
                        assert(rest.take(7)[1] == s[i + 1]);
                        assert(rest.take(7)[2] == s[i + 2]);
                        assert(rest.take(7)[3] == s[i + 3]);
                        assert(rest.take(7)[4] == s[i + 4]);
                        assert(rest.take(7)[5] == s[i + 5]);
                        assert(rest.take(7)[6] == s[i + 6]);
                    }
                }
                assert(rest.skip(1) =~= s@.skip(i + 1));
                assert(rest[0] == s[i as int]);
            }
            out.push(s[i]);
            proof {
                assert(out@ + strip_button(s@.skip(i + 1)) =~= old_out_helper(out@, s[i as int], strip_button(s@.skip(i + 1))));
            }
            i = i + 1;
        }
    }
    assert(s@.skip(s.len() as int) =~= Seq::<char>::empty());
    assert(out@ + Seq::<char>::empty() =~= out@);
    out
}

spec fn old_out_helper(o: Seq<char>, c: char, t: Seq<char>) -> Seq<char> {
    o.drop_last() + (seq![c] + t)
}

// ---------------------------------------------------------------------------
// The event text
// ---------------------------------------------------------------------------

pub open spec fn mov_word() -> Seq<char> {
    seq!['m', 'o', 'v']
}

pub open spec fn scrl_word() -> Seq<char> {
    seq!['s', 'c', 'r', 'l']
}

pub open spec fn prsm_word() -> Seq<char> {
    seq!['p', 'r', 's', 'm']
}

pub open spec fn prsk_word() -> Seq<char> {
    seq!['p', 'r', 's', 'k']
}

pub open spec fn stp_word() -> Seq<char> {
    seq!['s', 't', 'p']
}

pub open spec fn i32_text(x: i32) -> Seq<char> {
    int_text(x as int)
}

pub open spec fn parse_i32(s: Seq<char>) -> Option<int> {
    parse_int_text(s, i32::MIN as int, i32::MAX as int)
}

/// The text of an event: a verb and up to two space-separated arguments.
pub open spec fn event_text(e: InputEventView) -> Seq<char> {
    match e {
        InputEventView::Move { x, y } => mov_word() + seq![' '] + i32_text(x) + seq![' '] + i32_text(y),
        InputEventView::MouseScroll { dx, dy } => scrl_word() + seq![' '] + i32_text(dx) + seq![' ']
            + i32_text(dy),
        InputEventView::MouseClick { button, pressed } => prsm_word() + seq![' '] + bool_text(pressed)
            + seq![' '] + button,
        InputEventView::KeyPress { key, pressed } => prsk_word() + seq![' '] + bool_text(pressed)
            + seq![' '] + key,
        InputEventView::Stop => stp_word(),
    }
}

/// The event a text denotes, if any.
pub open spec fn parse_event_text(s: Seq<char>) -> Option<InputEventView> {
    let parts = split3(s);
    let verb = parts[0];
    if verb == mov_word() && parts.len() == 3 {
        match (parse_i32(parts[1]), parse_i32(parts[2])) {
            (Some(x), Some(y)) => Some(InputEventView::Move { x: x as i32, y: y as i32 }),
            _ => None,
        }
    } else if verb == scrl_word() && parts.len() == 3 {
        match (parse_i32(parts[1]), parse_i32(parts[2])) {
            (Some(dx), Some(dy)) => Some(InputEventView::MouseScroll { dx: dx as i32, dy: dy as i32 }),
            _ => None,
        }
    } else if verb == prsm_word() && parts.len() == 3 {
        match parse_bool_text(parts[1]) {
            Some(p) => Some(InputEventView::MouseClick { button: strip_button(parts[2]), pressed: p }),
            None => None,
        }
    } else if verb == prsk_word() && parts.len() == 3 {
        match parse_bool_text(parts[1]) {
            Some(p) => Some(InputEventView::KeyPress { key: parts[2], pressed: p }),
            None => None,
        }
    } else if verb == stp_word() {
        Some(InputEventView::Stop)
    } else {
        None
    }
}

/// Renders an event as the text sent in a UDP packet, e.g. `mov 10 -3`,
/// `prsm true left`, `prsk false Key.space` or `stp`.
pub fn format_event(event: &InputEvent) -> (r: String)
    ensures
        r@ == event_text(event@),
{
    let mut out: Vec<char> = Vec::new();
    match event {
        InputEvent::Move { x, y } => {
            out.push('m');
            out.push('o');
            out.push('v');
            out.push(' ');
            push_int_text(&mut out, *x as i64);
            out.push(' ');
            push_int_text(&mut out, *y as i64);
        },
        InputEvent::MouseScroll { dx, dy } => {
            out.push('s');
            out.push('c');
            out.push('r');
            out.push('l');
            out.push(' ');
            push_int_text(&mut out, *dx as i64);
            out.push(' ');
            push_int_text(&mut out, *dy as i64);
        },
        InputEvent::MouseClick { button, pressed } => {
            out.push('p');
            out.push('r');
            out.push('s');
            out.push('m');
            out.push(' ');
            push_bool_text(&mut out, *pressed);
            out.push(' ');
            let b = chars_of(button.as_str());
            out.extend_from_slice(b.as_slice());
        },
        InputEvent::KeyPress { key, pressed } => {
            out.push('p');
            out.push('r');
            out.push('s');
            out.push('k');
            out.push(' ');
            push_bool_text(&mut out, *pressed);
            out.push(' ');
            let k = chars_of(key.as_str());
            out.extend_from_slice(k.as_slice());
        },
        InputEvent::Stop => {
            out.push('s');
            out.push('t');
            out.push('p');
        },
    }
    assert(out@ =~= event_text(event@));
    string_of(out.as_slice())
}


fn find_space(s: &[char], start: usize) -> (r: Option<usize>)
    requires
        start <= s.len(),
    ensures
        match r {
            Some(i) => start <= i < s.len() && s@[i as int] == ' ' && forall|j: int|
                start <= j < i ==> s@[j] != ' ',
            None => forall|j: int| start <= j < s.len() ==> s@[j] != ' ',
        },
{
    let mut i = start;
    while i < s.len()
        invariant
            start <= i <= s.len(),
            forall|j: int| start <= j < i ==> s@[j] != ' ',
        decreases s.len() - i,
    {
        if s[i] == ' ' {
            return Some(i);
        }
        i = i + 1;
    }
    None
}

const VERB_NONE: u8 = 0;
const VERB_MOV: u8 = 1;
const VERB_SCRL: u8 = 2;
const VERB_PRSM: u8 = 3;
const VERB_PRSK: u8 = 4;
const VERB_STP: u8 = 5;

fn verb_of(a: &[char]) -> (r: u8)
    ensures
        (r == VERB_MOV) == (a@ == mov_word()),
        (r == VERB_SCRL) == (a@ == scrl_word()),
        (r == VERB_PRSM) == (a@ == prsm_word()),
        (r == VERB_PRSK) == (a@ == prsk_word()),
        (r == VERB_STP) == (a@ == stp_word()),
{
    if a.len() == 3 && a[0] == 'm' && a[1] == 'o' && a[2] == 'v' {
        assert(a@ =~= mov_word());
        VERB_MOV
    } else if a.len() == 4 && a[0] == 's' && a[1] == 'c' && a[2] == 'r' && a[3] == 'l' {
        assert(a@ =~= scrl_word());
        VERB_SCRL
    } else if a.len() == 4 && a[0] == 'p' && a[1] == 'r' && a[2] == 's' && a[3] == 'm' {
        assert(a@ =~= prsm_word());
        VERB_PRSM
    } else if a.len() == 4 && a[0] == 'p' && a[1] == 'r' && a[2] == 's' && a[3] == 'k' {
        assert(a@ =~= prsk_word());
        VERB_PRSK
    } else if a.len() == 3 && a[0] == 's' && a[1] == 't' && a[2] == 'p' {
        assert(a@ =~= stp_word());
        VERB_STP
    } else {
        proof {
            if a@ == mov_word() {
                assert(a@[0] == 'm' && a@[1] == 'o' && a@[2] == 'v');
            }
            if a@ == scrl_word() {
                assert(a@[0] == 's' && a@[1] == 'c' && a@[2] == 'r' && a@[3] == 'l');
            }
            if a@ == prsm_word() {
                assert(a@[0] == 'p' && a@[1] == 'r' && a@[2] == 's' && a@[3] == 'm');
            }
            if a@ == prsk_word() {
                assert(a@[0] == 'p' && a@[1] == 'r' && a@[2] == 's' && a@[3] == 'k');
            }
            if a@ == stp_word() {
                assert(a@[0] == 's' && a@[1] == 't' && a@[2] == 'p');
            }
        }
        VERB_NONE
    }
}

/// Reads an event from its text; `None` when the text names no event or
/// its arguments do not parse. A click's button has every `Button.` removed.
pub fn parse_event(s: &str) -> (r: Option<InputEvent>)
    ensures
        match r {
            Some(e) => parse_event_text(s@) == Some(e@),
            None => parse_event_text(s@) is None,
        },
{
    let cs = chars_of(s);
    let n = cs.len();
    let ghost sv = s@;
    let first = find_space(cs.as_slice(), 0);
    let mut verb_end: usize = n;
    let mut nparts: usize = 1;
    let mut p1s: usize = 0;
    let mut p1e: usize = 0;
    let mut p2s: usize = 0;
    match first {
        None => {
            proof {
                lemma_no_space(sv);
                assert(split3(sv) == seq![sv]);
                assert(sv.subrange(0, n as int) =~= sv);
            }
        },
        Some(i0) => {
            proof {
                lemma_first_space_unique(sv, i0 as int);
            }
            verb_end = i0;
            let second = find_space(cs.as_slice(), i0 + 1);
            let ghost rest = sv.skip(i0 + 1);
            match second {
                None => {
                    proof {
                        assert forall|j: int| 0 <= j < rest.len() implies rest[j] != ' ' by {
                            assert(rest[j] == sv[i0 + 1 + j]);
                        }
                        lemma_no_space(rest);
                        assert(sv.subrange(0, i0 as int) =~= sv.take(i0 as int));
                        assert(sv.subrange(i0 + 1, n as int) =~= rest);
                    }
                    nparts = 2;
                    p1s = i0 + 1;
                    p1e = n;
                },
                Some(i1) => {
                    proof {
                        let k = i1 - i0 - 1;
                        assert forall|j: int| 0 <= j < k implies rest[j] != ' ' by {
                            assert(rest[j] == sv[i0 + 1 + j]);
                        }
                        assert(rest[k] == sv[i1 as int]);
                        lemma_first_space_unique(rest, k);
                        assert(sv.subrange(0, i0 as int) =~= sv.take(i0 as int));
                        assert(sv.subrange(i0 + 1, i1 as int) =~= rest.take(k));
                        assert(sv.subrange(i1 + 1, n as int) =~= rest.skip(k + 1));
                    }
                    nparts = 3;
                    p1s = i0 + 1;
                    p1e = i1;
                    p2s = i1 + 1;
                },
            }
        },
    }
    let ghost parts = split3(sv);
    assert(parts.len() == nparts);
    assert(parts[0] == sv.subrange(0, verb_end as int));
    assert(nparts == 3 ==> parts[1] == sv.subrange(p1s as int, p1e as int) && parts[2] == sv.subrange(
        p2s as int,
        n as int,
    ));
    let verb = verb_of(&cs[0..verb_end]);
    if verb == VERB_MOV && nparts == 3 {
        match (parse_i32_text(&cs[p1s..p1e]), parse_i32_text(&cs[p2s..n])) {
            (Some(x), Some(y)) => Some(InputEvent::Move { x, y }),
            _ => None,
        }
    } else if verb == VERB_SCRL && nparts == 3 {
        match (parse_i32_text(&cs[p1s..p1e]), parse_i32_text(&cs[p2s..n])) {
            (Some(dx), Some(dy)) => Some(InputEvent::MouseScroll { dx, dy }),
            _ => None,
        }
    } else if verb == VERB_PRSM && nparts == 3 {
        match parse_bool_chars(&cs[p1s..p1e]) {
            Some(pressed) => {
                let b = strip_button_chars(&cs[p2s..n]);
                Some(InputEvent::MouseClick { button: string_of(b.as_slice()), pressed })
            },
            None => None,
        }
    } else if verb == VERB_PRSK && nparts == 3 {
        match parse_bool_chars(&cs[p1s..p1e]) {
            Some(pressed) => Some(InputEvent::KeyPress { key: string_of(&cs[p2s..n]), pressed }),
            None => None,
        }
    } else if verb == VERB_STP {
        Some(InputEvent::Stop)
    } else {
        None
    }
}

proof fn lemma_int_text_space_free(x: int)
    ensures
        space_free(int_text(x)),
{
    if x < 0 {
        lemma_digits_of_props((-x) as nat);
        let d = digits_of((-x) as nat);
        assert forall|i: int| 0 <= i < int_text(x).len() implies int_text(x)[i] != ' ' by {
            if i > 0 {
                assert(int_text(x)[i] == d[i - 1]);
            }
        }
    } else {
        lemma_digits_of_props(x as nat);
    }
}

proof fn lemma_two_args(verb: Seq<char>, a: Seq<char>, b: Seq<char>)
    requires
        space_free(verb),
        space_free(a),
    ensures
        split3(verb + seq![' '] + a + seq![' '] + b) == seq![verb, a, b],
{
    let tail = a + seq![' '] + b;
    let s = verb + seq![' '] + a + seq![' '] + b;
    assert(s =~= verb + seq![' '] + tail);
    lemma_first_space_of_join(verb, tail);
    lemma_first_space_of_join(a, b);
    assert(split3(s) =~= seq![verb, a, b]);
}

/// Reading back the text of an event gives the same event, provided a
/// click's button name does not contain `Button.` (which reading strips).
pub proof fn lemma_event_text_roundtrip(e: InputEventView)
    requires
        e matches InputEventView::MouseClick { button, .. } ==> !contains_button(button),
    ensures
        parse_event_text(event_text(e)) == Some(e),
{
    assert(prsm_word()[3] != prsk_word()[3]);
    match e {
        InputEventView::Move { x, y } => {
            lemma_int_text_space_free(x as int);
            lemma_two_args(mov_word(), i32_text(x), i32_text(y));
            lemma_parse_int_text_roundtrip(x as int, i32::MIN as int, i32::MAX as int);
            lemma_parse_int_text_roundtrip(y as int, i32::MIN as int, i32::MAX as int);
        },
        InputEventView::MouseScroll { dx, dy } => {
            lemma_int_text_space_free(dx as int);
            lemma_two_args(scrl_word(), i32_text(dx), i32_text(dy));
            lemma_parse_int_text_roundtrip(dx as int, i32::MIN as int, i32::MAX as int);
            lemma_parse_int_text_roundtrip(dy as int, i32::MIN as int, i32::MAX as int);
        },
        InputEventView::MouseClick { button, pressed } => {
            lemma_two_args(prsm_word(), bool_text(pressed), button);
            lemma_strip_button_identity(button);
        },
        InputEventView::KeyPress { key, pressed } => {
            lemma_two_args(prsk_word(), bool_text(pressed), key);
        },
        InputEventView::Stop => {
            lemma_no_space(stp_word());
        },
    }
}


// ---------------------------------------------------------------------------
// UDP packets: big-endian sequence number, then the sealed payload
// ---------------------------------------------------------------------------

/// `std::str::from_utf8`: succeeds exactly on valid UTF-8 and then denotes
/// the decoded characters.
#[verifier::external_body]
pub(crate) fn str_from_utf8(v: &[u8]) -> (r: Result<&str, std::str::Utf8Error>)
    ensures
        r is Ok <==> valid_utf8(v@),
        r matches Ok(s) ==> s@ == decode_utf8(v@),
{
    std::str::from_utf8(v)
}

#[verifier::external_type_specification]
#[verifier::external_body]
pub struct ExUtf8Error(std::str::Utf8Error);

/// The bytes of packet `seq` carrying `plaintext` under key `key` and salt `salt`.
pub open spec fn sealed_packet(key: Seq<u8>, salt: Seq<u8>, seq: u64, plaintext: Seq<u8>) -> Seq<u8> {
    u64_be_bytes(seq) + chacha20poly1305_seal(key, packet_nonce(salt, seq), plaintext)
}

/// What a packet opens to: its sequence number and payload, when it is
/// longer than the eight-byte header and authenticates.
pub open spec fn opened_packet(key: Seq<u8>, salt: Seq<u8>, packet: Seq<u8>) -> Option<(u64, Seq<u8>)> {
    if packet.len() <= 8 {
        None
    } else {
        let seq = u64_from_be(packet);
        match chacha20poly1305_open(key, packet_nonce(salt, seq), packet.skip(8)) {
            Some(p) => Some((seq, p)),
            None => None,
        }
    }
}

/// Builds packet `seq` carrying `plaintext`.
pub fn seal_packet(cryptor: &UdpCryptor, seq: u64, plaintext: &[u8]) -> (r: Result<Vec<u8>, CryptoError>)
    ensures
        aead_len_ok(plaintext@.len()) <==> r is Ok,
        r matches Ok(p) ==> p@ == sealed_packet(cryptor.key(), cryptor.salt(), seq, plaintext@) && p@.len()
            == plaintext@.len() + 24,
{
    let ciphertext = match cryptor.encrypt(seq, plaintext) {
        Ok(c) => c,
        Err(e) => return Err(e),
    };
    let be = u64_to_be(seq);
    let mut packet: Vec<u8> = Vec::new();
    packet.extend_from_slice(&be);
    packet.extend_from_slice(ciphertext.as_slice());
    assert(packet@ =~= sealed_packet(cryptor.key(), cryptor.salt(), seq, plaintext@));
    Ok(packet)
}

/// Opens a packet: reads its sequence number and decrypts the rest.
pub fn open_packet(cryptor: &UdpCryptor, packet: &[u8]) -> (r: Option<(u64, Vec<u8>)>)
    ensures
        match r {
            Some((seq, p)) => opened_packet(cryptor.key(), cryptor.salt(), packet@) == Some((seq, p@)),
            None => opened_packet(cryptor.key(), cryptor.salt(), packet@) is None,
        },
        forall|seq: u64, p: Seq<u8>|
            packet@.len() > 8 && aead_len_ok(p.len()) && packet@ == #[trigger] sealed_packet(cryptor.key(), cryptor.salt(), seq, p)
                ==> r == Some((seq, r->Some_0.1)) && r->Some_0.1@ == p,
{
    if packet.len() <= 8 {
        return None;
    }
    let seq = u64_from_be_slice(packet);
    let body = &packet[8..packet.len()];
    assert(body@ =~= packet@.skip(8));
    proof {
        assert forall|s: u64, p: Seq<u8>|
            aead_len_ok(p.len()) && packet@ == #[trigger] sealed_packet(cryptor.key(), cryptor.salt(), s, p)
            implies s == seq && body@ == chacha20poly1305_seal(cryptor.key(), packet_nonce(cryptor.salt(), s), p) by {
            lemma_u64_be_roundtrip(s);
            let sp = sealed_packet(cryptor.key(), cryptor.salt(), s, p);
            assert(sp.subrange(0, 8) =~= u64_be_bytes(s));
            assert(u64_from_be(sp) == u64_from_be(u64_be_bytes(s)));
            assert(sp.skip(8) =~= chacha20poly1305_seal(cryptor.key(), packet_nonce(cryptor.salt(), s), p));
        }
    }
    match cryptor.decrypt(seq, body) {
        Ok(p) => Some((seq, p)),
        Err(_) => None,
    }
}



/// The bytes of the event text that goes into a packet.
pub open spec fn event_payload(e: InputEventView) -> Seq<u8> {
    encode_utf8(event_text(e))
}

/// Builds the packet the server sends for `event` as packet number `seq`.
pub fn event_packet(cryptor: &UdpCryptor, seq: u64, event: &InputEvent) -> (r: Result<Vec<u8>, CryptoError>)
    ensures
        aead_len_ok(event_payload(event@).len()) <==> r is Ok,
        r matches Ok(p) ==> p@ == sealed_packet(cryptor.key(), cryptor.salt(), seq, event_payload(event@))
            && p@.len() > 8,
{
    let text = format_event(event);
    let bytes = text.as_str().as_bytes();
    seal_packet(cryptor, seq, bytes)
}

/// Builds the packet for the next event sent to a client whose last
/// packet was numbered `*seq`: the number goes up by one and the packet
/// carries it.
pub fn next_event_packet(cryptor: &UdpCryptor, seq: &mut u64, event: &InputEvent) -> (r: Result<Vec<u8>, CryptoError>)
    requires
        *old(seq) < u64::MAX,
    ensures
        *final(seq) == *old(seq) + 1,
        aead_len_ok(event_payload(event@).len()) <==> r is Ok,
        r matches Ok(p) ==> p@ == sealed_packet(cryptor.key(), cryptor.salt(), *final(seq), event_payload(event@)),
{
    *seq = *seq + 1;
    event_packet(cryptor, *seq, event)
}

/// What the client makes of a packet: nothing when it is too short, when
/// the replay window rejects its sequence number, when it does not
/// authenticate, when it is not UTF-8 or when its text is no event.
pub open spec fn received_event(
    v: crate::crypto::ReplayState,
    key: Seq<u8>,
    salt: Seq<u8>,
    packet: Seq<u8>,
) -> Option<InputEventView> {
    if packet.len() <= 8 {
        None
    } else if !replay_accepts(v, u64_from_be(packet)) {
        None
    } else {
        match chacha20poly1305_open(key, packet_nonce(salt, u64_from_be(packet)), packet.skip(8)) {
            Some(p) => if valid_utf8(p) {
                parse_event_text(decode_utf8(p))
            } else {
                None
            },
            None => None,
        }
    }
}

proof fn lemma_sealed_packet_parts(key: Seq<u8>, salt: Seq<u8>, seq: u64, p: Seq<u8>)
    ensures
        u64_from_be(sealed_packet(key, salt, seq, p)) == seq,
        sealed_packet(key, salt, seq, p).skip(8) == chacha20poly1305_seal(key, packet_nonce(salt, seq), p),
{
    lemma_u64_be_roundtrip(seq);
    let sp = sealed_packet(key, salt, seq, p);
    assert(sp.skip(8) =~= chacha20poly1305_seal(key, packet_nonce(salt, seq), p));
}

/// Handles one packet on the client: checks the sequence number against
/// the replay window, decrypts, and reads the event. The window remembers
/// the sequence number only of a packet that authenticates, so forged
/// datagrams cannot shut genuine packets out. A packet the server built for
/// an event with a fresh sequence number yields that event.
pub fn receive_event(replay: &mut UdpReplayProtector, cryptor: &UdpCryptor, packet: &[u8]) -> (r: Option<
    InputEvent,
>)
    ensures
        final(replay)@ == (if replay_accepts(old(replay)@, u64_from_be(packet@)) && opened_packet(
            cryptor.key(),
            cryptor.salt(),
            packet@,
        ) is Some {
            replay_next(old(replay)@, u64_from_be(packet@))
        } else {
            old(replay)@
        }),
        opened_packet(cryptor.key(), cryptor.salt(), packet@) is None ==> final(replay)@ == old(replay)@,
        r matches Some(e) ==> received_event(old(replay)@, cryptor.key(), cryptor.salt(), packet@) == Some(e@),
        r is None ==> received_event(old(replay)@, cryptor.key(), cryptor.salt(), packet@) is None,
        forall|seq: u64, e: InputEventView|
            packet@.len() > 8 && aead_len_ok(event_payload(e).len()) && replay_accepts(old(replay)@, seq)
                && !(e matches InputEventView::MouseClick { button, .. } && contains_button(button))
                && packet@ == #[trigger] sealed_packet(cryptor.key(), cryptor.salt(), seq, event_payload(e))
                ==> (r is Some && r->Some_0@ == e),
{
    if packet.len() <= 8 {
        return None;
    }
    let seq = u64_from_be_slice(packet);
    let body = &packet[8..packet.len()];
    assert(body@ =~= packet@.skip(8));
    proof {
        assert forall|s: u64, e: InputEventView|
            packet@ == #[trigger] sealed_packet(cryptor.key(), cryptor.salt(), s, event_payload(e))
            implies s == seq && body@ == chacha20poly1305_seal(cryptor.key(), packet_nonce(cryptor.salt(), s), event_payload(e)) by {
            lemma_sealed_packet_parts(cryptor.key(), cryptor.salt(), s, event_payload(e));
        }
    }
    if !replay.accepts(seq) {
        return None;
    }
    let plain = match cryptor.decrypt(seq, body) {
        Ok(p) => {
            replay.is_valid(seq);
            p
        },
        Err(_) => {
            proof {
                assert forall|s: u64, e: InputEventView|
                    packet@.len() > 8 && aead_len_ok(event_payload(e).len())
                        && packet@ == #[trigger] sealed_packet(cryptor.key(), cryptor.salt(), s, event_payload(e))
                    implies false by {
                    lemma_sealed_packet_parts(cryptor.key(), cryptor.salt(), s, event_payload(e));
                    assert(body@ == chacha20poly1305_seal(cryptor.key(), packet_nonce(cryptor.salt(), seq), event_payload(e)));
                }
            }
            return None;
        },
    };
    let text = match str_from_utf8(plain.as_slice()) {
        Ok(t) => t,
        Err(_) => {
            proof {
                assert forall|s: u64, e: InputEventView|
                    packet@.len() > 8 && aead_len_ok(event_payload(e).len())
                        && packet@ == #[trigger] sealed_packet(cryptor.key(), cryptor.salt(), s, event_payload(e))
                    implies false by {
                    lemma_sealed_packet_parts(cryptor.key(), cryptor.salt(), s, event_payload(e));
                    assert(body@ == chacha20poly1305_seal(cryptor.key(), packet_nonce(cryptor.salt(), seq), event_payload(e)));
                    encode_utf8_valid_utf8(event_text(e));
                }
            }
            return None;
        },
    };
    proof {
        assert forall|s: u64, e: InputEventView|
            aead_len_ok(event_payload(e).len()) && !(e matches InputEventView::MouseClick { button, .. } && contains_button(button))
                && packet@ == #[trigger] sealed_packet(cryptor.key(), cryptor.salt(), s, event_payload(e))
            implies text@ == event_text(e) && parse_event_text(text@) == Some(e) by {
            encode_utf8_decode_utf8(event_text(e));
            lemma_event_text_roundtrip(e);
        }
    }
    parse_event(text)
}

/// The payload of a client's handshake pulse.
pub open spec fn pulse_payload() -> Seq<u8> {
    seq![46u8]
}

/// The payload of the server's handshake acknowledgement.
pub open spec fn ack_payload() -> Seq<u8> {
    seq![65u8, 67u8, 75u8]
}

/// The client's handshake pulse: packet 0 carrying `.`.
pub fn handshake_pulse_packet(cryptor: &UdpCryptor) -> (r: Result<Vec<u8>, CryptoError>)
    ensures
        r is Ok,
        r matches Ok(p) ==> p@ == sealed_packet(cryptor.key(), cryptor.salt(), 0, pulse_payload()) && p@.len() > 8,
{
    let payload: Vec<u8> = vec![46u8];
    assert(payload@ =~= pulse_payload());
    seal_packet(cryptor, 0, payload.as_slice())
}

/// The server's acknowledgement: packet 0 carrying `ACK`.
pub fn handshake_ack_packet(cryptor: &UdpCryptor) -> (r: Result<Vec<u8>, CryptoError>)
    ensures
        r is Ok,
        r matches Ok(p) ==> p@ == sealed_packet(cryptor.key(), cryptor.salt(), 0, ack_payload()) && p@.len() > 8,
{
    let payload: Vec<u8> = vec![65u8, 67u8, 75u8];
    assert(payload@ =~= ack_payload());
    seal_packet(cryptor, 0, payload.as_slice())
}

fn opens_to(cryptor: &UdpCryptor, packet: &[u8], expected: &[u8]) -> (r: bool)
    ensures
        r == (opened_packet(cryptor.key(), cryptor.salt(), packet@) matches Some((_, p)) && p == expected@),
        forall|seq: u64|
            packet@.len() > 8 && aead_len_ok(expected@.len()) && packet@ == #[trigger] sealed_packet(cryptor.key(), cryptor.salt(), seq, expected@) ==> r,
{
    match open_packet(cryptor, packet) {
        Some((_, p)) => {
            let mut same = p.len() == expected.len();
            let mut i: usize = 0;
            while same && i < p.len()
                invariant
                    same ==> p@.len() == expected@.len(),
                    i <= p.len(),
                    same ==> forall|j: int| 0 <= j < i ==> p@[j] == expected@[j],
                    !same ==> p@ != expected@,
                decreases p.len() - i,
            {
                if p[i] != expected[i] {
                    same = false;
                }
                i = i + 1;
            }
            assert(same ==> p@ =~= expected@);
            same
        },
        None => false,
    }
}

/// Whether a packet the server received is the client's handshake pulse.
pub fn is_handshake_pulse(cryptor: &UdpCryptor, packet: &[u8]) -> (r: bool)
    ensures
        r == (opened_packet(cryptor.key(), cryptor.salt(), packet@) matches Some((_, p)) && p == pulse_payload()),
{
    let expected: Vec<u8> = vec![46u8];
    assert(expected@ =~= pulse_payload());
    opens_to(cryptor, packet, expected.as_slice())
}

/// Whether a packet the client received is the server's acknowledgement.
pub fn is_handshake_ack(cryptor: &UdpCryptor, packet: &[u8]) -> (r: bool)
    ensures
        r == (opened_packet(cryptor.key(), cryptor.salt(), packet@) matches Some((_, p)) && p == ack_payload()),
{
    let expected: Vec<u8> = vec![65u8, 67u8, 75u8];
    assert(expected@ =~= ack_payload());
    opens_to(cryptor, packet, expected.as_slice())
}

/// Whether a packet the server received during the handshake is the pulse
/// of the expected client: it comes from the client's address and opens to
/// the pulse payload.
pub fn is_client_pulse(client_ip: &str, sender_ip: &str, cryptor: &UdpCryptor, packet: &[u8]) -> (r: bool)
    ensures
        r == (sender_ip@ == client_ip@ && (opened_packet(cryptor.key(), cryptor.salt(), packet@) matches Some((_, p))
            && p == pulse_payload())),
{
    str_eq(sender_ip, client_ip) && is_handshake_pulse(cryptor, packet)
}

/// An input operation of the client's simulated mouse and keyboard.
pub enum Injection {
    SetPosition { x: i32, y: i32 },
    Scroll { dx: i32, dy: i32 },
    PressButton(String),
    ReleaseButton(String),
    PressKey(String),
    ReleaseKey(String),
    /// Releases the modifier keys that could otherwise stay held.
    ReleaseAllKeys,
}

/// The view of an injection: names by their characters.
pub enum InjectionView {
    SetPosition { x: i32, y: i32 },
    Scroll { dx: i32, dy: i32 },
    PressButton(Seq<char>),
    ReleaseButton(Seq<char>),
    PressKey(Seq<char>),
    ReleaseKey(Seq<char>),
    ReleaseAllKeys,
}

impl View for Injection {
    type V = InjectionView;

    open spec fn view(&self) -> InjectionView {
        match self {
            Injection::SetPosition { x, y } => InjectionView::SetPosition { x: *x, y: *y },
            Injection::Scroll { dx, dy } => InjectionView::Scroll { dx: *dx, dy: *dy },
            Injection::PressButton(b) => InjectionView::PressButton(b@),
            Injection::ReleaseButton(b) => InjectionView::ReleaseButton(b@),
            Injection::PressKey(k) => InjectionView::PressKey(k@),
            Injection::ReleaseKey(k) => InjectionView::ReleaseKey(k@),
            Injection::ReleaseAllKeys => InjectionView::ReleaseAllKeys,
        }
    }
}

/// What the client does for an event: move, scroll, press or release what
/// the event names; `Stop` releases every mouse button and the modifiers.
pub open spec fn injections_spec(e: InputEventView) -> Seq<InjectionView> {
    match e {
        InputEventView::Move { x, y } => seq![InjectionView::SetPosition { x, y }],
        InputEventView::MouseScroll { dx, dy } => seq![InjectionView::Scroll { dx, dy }],
        InputEventView::MouseClick { button, pressed } => if pressed {
            seq![InjectionView::PressButton(button)]
        } else {
            seq![InjectionView::ReleaseButton(button)]
        },
        InputEventView::KeyPress { key, pressed } => if pressed {
            seq![InjectionView::PressKey(key)]
        } else {
            seq![InjectionView::ReleaseKey(key)]
        },
        InputEventView::Stop => seq![
            InjectionView::ReleaseButton("left"@),
            InjectionView::ReleaseButton("right"@),
            InjectionView::ReleaseButton("middle"@),
            InjectionView::ReleaseButton("x1"@),
            InjectionView::ReleaseButton("x2"@),
            InjectionView::ReleaseAllKeys,
        ],
    }
}

/// A key or button event is replayed as one injection of that same key or
/// button: a press exactly when the event says pressed, a release exactly
/// when it says released. A release never presses anything.
pub proof fn lemma_injections_follow_pressed(e: InputEventView)
    ensures
        e matches InputEventView::KeyPress { key, pressed } ==> {
            let out = injections_spec(e);
            &&& out.len() == 1
            &&& (out[0] == InjectionView::PressKey(key)) == pressed
            &&& (out[0] == InjectionView::ReleaseKey(key)) == !pressed
        },
        e matches InputEventView::MouseClick { button, pressed } ==> {
            let out = injections_spec(e);
            &&& out.len() == 1
            &&& (out[0] == InjectionView::PressButton(button)) == pressed
            &&& (out[0] == InjectionView::ReleaseButton(button)) == !pressed
        },
        forall|k: int|
            0 <= k < injections_spec(e).len() ==> (#[trigger] injections_spec(e)[k] is PressKey
                || injections_spec(e)[k] is PressButton) ==> (e matches InputEventView::KeyPress { pressed, .. }
                && pressed) || (e matches InputEventView::MouseClick { pressed, .. } && pressed),
        e matches InputEventView::Move { x, y } ==> injections_spec(e) == seq![
            InjectionView::SetPosition { x, y },
        ],
        e matches InputEventView::MouseScroll { dx, dy } ==> injections_spec(e) == seq![
            InjectionView::Scroll { dx, dy },
        ],
        e is Stop ==> {
            let out = injections_spec(e);
            &&& out.last() == InjectionView::ReleaseAllKeys
            &&& forall|b: Seq<char>|
                b == "left"@ || b == "right"@ || b == "middle"@ || b == "x1"@ || b == "x2"@ ==> out.contains(
                    InjectionView::ReleaseButton(b),
                )
            &&& forall|k: int| 0 <= k < out.len() ==> !(#[trigger] out[k] is PressKey) && !(out[k] is PressButton)
        },
{
    if e is Stop {
        let out = injections_spec(e);
        assert(out[0] == InjectionView::ReleaseButton("left"@));
        assert(out[1] == InjectionView::ReleaseButton("right"@));
        assert(out[2] == InjectionView::ReleaseButton("middle"@));
        assert(out[3] == InjectionView::ReleaseButton("x1"@));
        assert(out[4] == InjectionView::ReleaseButton("x2"@));
    }
}

/// The input operations the client performs for `event`, in order.
pub fn injections_for(event: InputEvent) -> (r: Vec<Injection>)
    ensures
        r@.map_values(|i: Injection| i@) == injections_spec(event@),
{
    let ghost e = event@;
    let mut r: Vec<Injection> = Vec::new();
    match event {
        InputEvent::Move { x, y } => r.push(Injection::SetPosition { x, y }),
        InputEvent::MouseScroll { dx, dy } => r.push(Injection::Scroll { dx, dy }),
        InputEvent::MouseClick { button, pressed } => {
            if pressed {
                r.push(Injection::PressButton(button));
            } else {
                r.push(Injection::ReleaseButton(button));
            }
        },
        InputEvent::KeyPress { key, pressed } => {
            if pressed {
                r.push(Injection::PressKey(key));
            } else {
                r.push(Injection::ReleaseKey(key));
            }
        },
        InputEvent::Stop => {
            r.push(Injection::ReleaseButton(copy_string_of_str("left")));
            r.push(Injection::ReleaseButton(copy_string_of_str("right")));
            r.push(Injection::ReleaseButton(copy_string_of_str("middle")));
            r.push(Injection::ReleaseButton(copy_string_of_str("x1")));
            r.push(Injection::ReleaseButton(copy_string_of_str("x2")));
            r.push(Injection::ReleaseAllKeys);
        },
    }
    assert(r@.map_values(|i: Injection| i@) =~= injections_spec(e));
    r
}

} // verus!
