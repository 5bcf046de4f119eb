//! Messages exchanged between peers, and the length-prefixed framing used
//! on the TCP stream.
use vstd::prelude::*;
use crate::text::{digits_of, digits_of_u64, lemma_digits_of_props, parse_int_text, parse_usize_text, all_digits, is_digit};

verus! {

/// One monitor of a machine, in that machine's local coordinates.
#[derive(Debug, Clone)]
pub struct MonitorInfo {
    pub name: String,
    pub local_x: i32,
    pub local_y: i32,
    pub width: i32,
    pub height: i32,
    /// IEEE-754 bit pattern of the monitor's scale factor, carried through unchanged.
    pub scale_factor_bits: u64,
}

/// The plain content of a [`MonitorInfo`].
pub struct MonitorInfoView {
    pub name: Seq<char>,
    pub local_x: i32,
    pub local_y: i32,
    pub width: i32,
    pub height: i32,
    pub scale_factor_bits: u64,
}

impl View for MonitorInfo {
    type V = MonitorInfoView;

    open spec fn view(&self) -> MonitorInfoView {
        MonitorInfoView {
            name: self.name@,
            local_x: self.local_x,
            local_y: self.local_y,
            width: self.width,
            height: self.height,
            scale_factor_bits: self.scale_factor_bits,
        }
    }
}

impl MonitorInfo {
    /// A field-by-field copy.
    pub fn copy(&self) -> (r: MonitorInfo)
        ensures
            r@ == self@,
    {
        MonitorInfo {
            name: crate::text::copy_string(&self.name),
            local_x: self.local_x,
            local_y: self.local_y,
            width: self.width,
            height: self.height,
            scale_factor_bits: self.scale_factor_bits,
        }
    }
}

/// The screen description a client sends after connecting.
#[derive(Debug, Clone)]
pub struct ScreenMetrics {
    pub width: i32,
    pub height: i32,
    pub monitors: Vec<MonitorInfo>,
    pub uses_physical_pixels: bool,
}

/// The plain content of a [`ScreenMetrics`].
pub struct ScreenMetricsView {
    pub width: i32,
    pub height: i32,
    pub monitors: Seq<MonitorInfoView>,
    pub uses_physical_pixels: bool,
}

impl View for ScreenMetrics {
    type V = ScreenMetricsView;

    open spec fn view(&self) -> ScreenMetricsView {
        ScreenMetricsView {
            width: self.width,
            height: self.height,
            monitors: self.monitors@.map_values(|m: MonitorInfo| m@),
            uses_physical_pixels: self.uses_physical_pixels,
        }
    }
}

impl ScreenMetrics {
    /// A field-by-field copy.
    pub fn copy(&self) -> (r: ScreenMetrics)
        ensures
            r@ == self@,
    {
        let mut monitors: Vec<MonitorInfo> = Vec::new();
        let mut i: usize = 0;
        while i < self.monitors.len()
            invariant
                i <= self.monitors@.len(),
                monitors@.len() == i,
                forall|j: int| 0 <= j < i ==> #[trigger] monitors@[j]@ == self.monitors@[j]@,
            decreases self.monitors.len() - i,
        {
            monitors.push(self.monitors[i].copy());
            i = i + 1;
        }
        assert(monitors@.map_values(|m: MonitorInfo| m@) =~= self.monitors@.map_values(|m: MonitorInfo| m@));
        ScreenMetrics {
            width: self.width,
            height: self.height,
            monitors,
            uses_physical_pixels: self.uses_physical_pixels,
        }
    }
}

/// Key material for encrypting UDP input events of one session.
#[derive(Debug, Clone, Copy)]
pub struct UdpSessionConfig {
    pub key: [u8; 32],
    pub salt: [u8; 4],
}

/// A file or directory carried in a clipboard payload.
#[derive(Debug, Clone)]
pub struct ClipboardFile {
    pub is_dir: bool,
    /// Path relative to the root of the copied selection.
    pub name: String,
    pub data: Option<Vec<u8>>,
}

/// Clipboard traffic over TCP.
#[derive(Debug, Clone)]
pub enum ClipboardPayload {
    Text { text: String },
    Files { files: Vec<ClipboardFile> },
    Offer { id: String, size: usize, format: String },
    Request { id: String },
    Chunk { id: String, chunk_index: u64, is_last: bool, data: Vec<u8> },
}

/// An input event sent from the server to the controlled client.
#[derive(Debug, Clone)]
pub enum InputEvent {
    Move { x: i32, y: i32 },
    MouseClick { button: String, pressed: bool },
    MouseScroll { dx: i32, dy: i32 },
    KeyPress { key: String, pressed: bool },
    Stop,
}

/// The mathematical content of an [`InputEvent`].
pub enum InputEventView {
    Move { x: i32, y: i32 },
    MouseClick { button: Seq<char>, pressed: bool },
    MouseScroll { dx: i32, dy: i32 },
    KeyPress { key: Seq<char>, pressed: bool },
    Stop,
}

impl View for InputEvent {
    type V = InputEventView;

    open spec fn view(&self) -> InputEventView {
        match self {
            InputEvent::Move { x, y } => InputEventView::Move { x: *x, y: *y },
            InputEvent::MouseClick { button, pressed } => InputEventView::MouseClick {
                button: button@,
                pressed: *pressed,
            },
            InputEvent::MouseScroll { dx, dy } => InputEventView::MouseScroll { dx: *dx, dy: *dy },
            InputEvent::KeyPress { key, pressed } => InputEventView::KeyPress {
                key: key@,
                pressed: *pressed,
            },
            InputEvent::Stop => InputEventView::Stop,
        }
    }
}


// ---------------------------------------------------------------------------
// Length-prefixed framing
// ---------------------------------------------------------------------------

/// Width of the decimal length header that precedes every TCP message.
pub open spec fn frame_header_width() -> nat {
    10
}

/// `n` written in decimal and left-padded with zeros to at least ten digits,
/// as `format!("{:010}", n)` writes it.
pub open spec fn padded_length_text(n: nat) -> Seq<char> {
    let d = digits_of(n);
    if d.len() >= frame_header_width() {
        d
    } else {
        Seq::new((frame_header_width() - d.len()) as nat, |i: int| '0') + d
    }
}

/// The bytes of an ASCII text.
pub open spec fn ascii_bytes(s: Seq<char>) -> Seq<u8> {
    s.map_values(|c: char| c as u8)
}

/// What goes on the wire for one message: the length header, then the payload.
pub open spec fn framed(payload: Seq<u8>) -> Seq<u8> {
    ascii_bytes(padded_length_text(payload.len())) + payload
}

/// The length a received header announces: the header must be text (all
/// ASCII here, since anything else cannot be a number) that
/// `str::parse::<usize>` accepts.
pub open spec fn parse_frame_header(h: Seq<u8>) -> Option<int> {
    if forall|i: int| 0 <= i < h.len() ==> #[trigger] h[i] < 128 {
        parse_int_text(h.map_values(|b: u8| b as char), 0, usize::MAX as int)
    } else {
        None
    }
}

/// The bytes written before a payload of `len` bytes.
pub fn frame_header(len: usize) -> (r: Vec<u8>)
    ensures
        r@ == ascii_bytes(padded_length_text(len as nat)),
{
    let d = digits_of_u64(len as u64);
    let mut r: Vec<u8> = Vec::new();
    let mut pad: usize = 0;
    let ghost dd = digits_of(len as nat);
    proof {
        lemma_digits_of_props(len as nat);
    }
    let npad: usize = if d.len() >= 10 { 0 } else { 10 - d.len() };
    while pad < npad
        invariant
            pad <= npad,
            npad == (if dd.len() >= 10 { 0 } else { 10 - dd.len() }),
            r@ == ascii_bytes(Seq::new(pad as nat, |i: int| '0')),
        decreases npad - pad,
    {
        r.push(48u8);
        pad = pad + 1;
        assert(r@ =~= ascii_bytes(Seq::new(pad as nat, |i: int| '0')));
    }
    let mut i: usize = 0;
    while i < d.len()
        invariant
            i <= d.len(),
            d@ == dd,
            all_digits(dd),
            r@ == ascii_bytes(Seq::new(npad as nat, |i: int| '0') + dd.take(i as int)),
        decreases d.len() - i,
    {
        let c = d[i];
        assert(is_digit(dd[i as int]));
        r.push(c as u8);
        i = i + 1;
        assert(r@ =~= ascii_bytes(Seq::new(npad as nat, |i: int| '0') + dd.take(i as int)));
    }
    assert(dd.take(d.len() as int) =~= dd);
    assert(npad == 0 ==> Seq::new(npad as nat, |i: int| '0') + dd =~= dd);
    r
}

/// Reads the length a ten-byte header announces.
pub fn parse_frame_len(h: &[u8]) -> (r: Option<usize>)
    ensures
        match r {
            Some(n) => parse_frame_header(h@) == Some(n as int),
            None => parse_frame_header(h@) is None,
        },
{
    let mut cs: Vec<char> = Vec::new();
    let mut i: usize = 0;
    while i < h.len()
        invariant
            i <= h.len(),
            forall|j: int| 0 <= j < i ==> #[trigger] h@[j] < 128,
            cs@ == h@.take(i as int).map_values(|b: u8| b as char),
        decreases h.len() - i,
    {
        if h[i] >= 128 {
            return None;
        }
        cs.push(h[i] as char);
        i = i + 1;
        assert(cs@ =~= h@.take(i as int).map_values(|b: u8| b as char));
    }
    assert(h@.take(h.len() as int) =~= h@);
    parse_usize_text(cs.as_slice())
}

/// A header that `frame_header` wrote is read back as the same length,
/// as long as that length has at most ten digits.
pub proof fn lemma_frame_header_roundtrip(n: usize)
    requires
        n < 10_000_000_000,
    ensures
        padded_length_text(n as nat).len() == frame_header_width(),
        parse_frame_header(ascii_bytes(padded_length_text(n as nat))) == Some(n as int),
{
    let t = padded_length_text(n as nat);
    let d = digits_of(n as nat);
    lemma_digits_of_props(n as nat);
    lemma_digits_len_bound(n as nat);
    let h = ascii_bytes(t);
    assert forall|i: int| 0 <= i < t.len() implies is_digit(#[trigger] t[i]) by {
        if d.len() < 10 && i >= 10 - d.len() {
            assert(t[i] == d[i - (10 - d.len())]);
        }
    }
    assert(h.map_values(|b: u8| b as char) =~= t);
    lemma_digits_value_leading_zeros(d, (10 - d.len()) as nat);
    assert(is_digit(t[0]));
    assert(t.skip(0) =~= t);
}

/// A framed message splits back into its header, which announces the
/// payload's length, and the payload itself.
pub proof fn lemma_framed_roundtrip(payload: Seq<u8>)
    requires
        payload.len() < 10_000_000_000,
        payload.len() <= usize::MAX,
    ensures
        parse_frame_header(framed(payload).take(frame_header_width() as int)) == Some(payload.len() as int),
        framed(payload).skip(frame_header_width() as int) == payload,
{
    let n = payload.len() as usize;
    lemma_frame_header_roundtrip(n);
    let h = ascii_bytes(padded_length_text(n as nat));
    assert(framed(payload).take(10) =~= h);
    assert(framed(payload).skip(10) =~= payload);
}

/// One message as it goes on the wire: the length header, then the payload.
pub fn frame_message(payload: &[u8]) -> (r: Vec<u8>)
    ensures
        r@ == framed(payload@),
{
    let mut r = frame_header(payload.len());
    r.extend_from_slice(payload);
    r
}

proof fn lemma_digits_len_bound(n: nat)
    requires
        n < 10_000_000_000,
    ensures
        digits_of(n).len() <= 10,
    decreases n,
{
    if n >= 10 {
        lemma_digits_len_bound_gen(n);
    }
}

proof fn lemma_digits_len_bound_gen(n: nat)
    ensures
        n < 10_000_000_000 ==> digits_of(n).len() <= 10,
        n < 1_000_000_000 ==> digits_of(n).len() <= 9,
        n < 100_000_000 ==> digits_of(n).len() <= 8,
        n < 10_000_000 ==> digits_of(n).len() <= 7,
        n < 1_000_000 ==> digits_of(n).len() <= 6,
        n < 100_000 ==> digits_of(n).len() <= 5,
        n < 10_000 ==> digits_of(n).len() <= 4,
        n < 1_000 ==> digits_of(n).len() <= 3,
        n < 100 ==> digits_of(n).len() <= 2,
        digits_of(n).len() >= 1,
    decreases n,
{
    if n >= 10 {
        lemma_digits_len_bound_gen(n / 10);
    }
}

proof fn lemma_digits_value_leading_zeros(d: Seq<char>, k: nat)
    requires
        all_digits(d),
    ensures
        crate::text::digits_value(Seq::new(k, |i: int| '0') + d) == crate::text::digits_value(d),
    decreases d.len(),
{
    let z = Seq::new(k, |i: int| '0');
    if d.len() == 0 {
        assert(z + d =~= z);
        lemma_zeros_value(k);
    } else {
        assert((z + d).drop_last() =~= z + d.drop_last());
        lemma_digits_value_leading_zeros(d.drop_last(), k);
    }
}

proof fn lemma_zeros_value(k: nat)
    ensures
        crate::text::digits_value(Seq::new(k, |i: int| '0')) == 0,
    decreases k,
{
    if k > 0 {
        assert(Seq::new(k, |i: int| '0').drop_last() =~= Seq::new((k - 1) as nat, |i: int| '0'));
        lemma_zeros_value((k - 1) as nat);
    }
}


// ---------------------------------------------------------------------------
// Stream input/output
// ---------------------------------------------------------------------------

#[verifier::external_type_specification]
#[verifier::external_body]
pub struct ExIoError(std::io::Error);

/// `Read::read_exact`: fills the whole buffer from the stream or fails; the
/// buffer keeps its length either way. What is read depends on the stream.
#[verifier::external_body]
fn read_exact_into<R: std::io::Read>(stream: &mut R, buf: &mut [u8]) -> (r: Result<(), std::io::Error>)
    ensures
        final(buf)@.len() == old(buf)@.len(),
{
    stream.read_exact(buf)
}

/// `Write::write_all`: writes every byte of `bytes` to the stream or fails.
#[verifier::external_body]
fn write_all_bytes<W: std::io::Write>(stream: &mut W, bytes: &[u8]) -> (r: Result<(), std::io::Error>) {
    stream.write_all(bytes)
}

/// `Write::flush`.
#[verifier::external_body]
fn flush_stream<W: std::io::Write>(stream: &mut W) -> (r: Result<(), std::io::Error>) {
    stream.flush()
}

/// Whether `e.kind()` is `std::io::ErrorKind::InvalidData`.
pub uninterp spec fn is_invalid_data(e: std::io::Error) -> bool;

/// `std::io::Error::new` with kind `InvalidData`: the error's `kind()` is
/// the kind it was made with.
#[verifier::external_body]
fn invalid_data_error() -> (r: std::io::Error)
    ensures
        is_invalid_data(r),
{
    std::io::Error::new(std::io::ErrorKind::InvalidData, "invalid frame length header")
}

/// Reads exactly `n` bytes.
pub fn recv_exactly<R: std::io::Read>(stream: &mut R, n: usize) -> (r: Result<Vec<u8>, std::io::Error>)
    ensures
        r matches Ok(v) ==> v@.len() == n,
{
    let mut buf: Vec<u8> = Vec::new();
    let mut i: usize = 0;
    while i < n
        invariant
            i <= n,
            buf@.len() == i,
        decreases n - i,
    {
        buf.push(0u8);
        i = i + 1;
    }
    match read_exact_into(stream, buf.as_mut_slice()) {
        Ok(()) => Ok(buf),
        Err(e) => Err(e),
    }
}

/// Sends one message: the ten-digit length header, then the payload (as
/// `frame_message` lays them out), then a flush.
pub fn true_send<W: std::io::Write>(stream: &mut W, payload: &[u8]) -> (r: Result<(), std::io::Error>) {
    let message = frame_message(payload);
    match write_all_bytes(stream, message.as_slice()) {
        Ok(()) => {},
        Err(e) => return Err(e),
    }
    flush_stream(stream)
}

/// The payload length a received header announces; a header that is not
/// a decimal length is an `InvalidData` error.
pub fn frame_payload_len(header: &[u8]) -> (r: Result<usize, std::io::Error>)
    ensures
        r is Ok <==> parse_frame_header(header@) is Some,
        r matches Ok(n) ==> parse_frame_header(header@) == Some(n as int),
        r matches Err(e) ==> is_invalid_data(e),
{
    match parse_frame_len(header) {
        Some(n) => Ok(n),
        None => Err(invalid_data_error()),
    }
}

/// Receives one message: a ten-byte length header, then that many bytes.
/// A header that is not a decimal length is an `InvalidData` error
/// (`frame_payload_len`); a stream that ends early or fails gives the
/// stream's own error.
pub fn true_recv<R: std::io::Read>(stream: &mut R) -> (r: Result<Vec<u8>, std::io::Error>)
    ensures
        r matches Ok(v) ==> exists|h: Seq<u8>| h.len() == frame_header_width() && #[trigger] parse_frame_header(h) == Some(v@.len() as int),
{
    let header = match recv_exactly(stream, 10) {
        Ok(h) => h,
        Err(e) => return Err(e),
    };
    let len = match frame_payload_len(header.as_slice()) {
        Ok(n) => n,
        Err(e) => return Err(e),
    };
    let data = match recv_exactly(stream, len) {
        Ok(d) => d,
        Err(e) => return Err(e),
    };
    assert(parse_frame_header(header@) == Some(data@.len() as int));
    Ok(data)
}

} // verus!
