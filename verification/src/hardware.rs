//! Platform-independent pieces of the hardware layer: the queue of clipboard
//! hashes that must not echo back over the network, and the bookkeeping of a
//! clipboard "promise" whose payload arrives over the network on demand.
pub mod linux;
pub mod mac;

use vstd::prelude::*;
use crate::text::{chars_of, copy_string, copy_string_of_str, str_eq, string_of};

verus! {

/// How many recently written clipboard hashes are remembered.
pub const IGNORE_QUEUE_CAPACITY: usize = 10;

/// The queue after `hash` was remembered: appended, and the oldest entry
/// dropped once the queue holds more than its capacity.
pub open spec fn ignore_push(queue: Seq<u64>, hash: u64) -> Seq<u64> {
    let q = queue.push(hash);
    if q.len() > IGNORE_QUEUE_CAPACITY {
        q.drop_first()
    } else {
        q
    }
}

/// The queue after every occurrence of `hash` was consumed.
pub open spec fn ignore_consume(queue: Seq<u64>, hash: u64) -> Seq<u64> {
    queue.filter(other_than(hash))
}

/// Holds of every hash but `hash`.
pub open spec fn other_than(hash: u64) -> spec_fn(u64) -> bool {
    |h: u64| h != hash
}

/// Remembers `hash` as written by this program, so that the clipboard
/// listener does not send it back to the peer it came from.
pub fn push_ignore_hash(queue: &mut Vec<u64>, hash: u64)
    ensures
        final(queue)@ == ignore_push(old(queue)@, hash),
{
    queue.push(hash);
    if queue.len() > IGNORE_QUEUE_CAPACITY {
        queue.remove(0);
        assert(queue@ =~= old(queue)@.push(hash).drop_first());
    }
}

/// Whether `hash` was remembered; every occurrence of it is forgotten.
pub fn check_and_consume_ignore_hash(queue: &mut Vec<u64>, hash: u64) -> (r: bool)
    ensures
        r == old(queue)@.contains(hash),
        final(queue)@ == ignore_consume(old(queue)@, hash),
{
    let ghost pred = other_than(hash);
    let mut kept: Vec<u64> = Vec::new();
    let mut found = false;
    let mut i: usize = 0;
    while i < queue.len()
        invariant
            i <= queue@.len(),
            pred == other_than(hash),
            kept@ == queue@.take(i as int).filter(pred),
            found == queue@.take(i as int).contains(hash),
        decreases queue.len() - i,
    {
        let h = queue[i];
        proof {
            let t0 = queue@.take(i as int);
            let t1 = queue@.take(i as int + 1);
            assert(t1 =~= t0.push(h));
            t0.lemma_filter_push(h, pred);
            if found {
                let j = choose|j: int| 0 <= j < t0.len() && #[trigger] t0[j] == hash;
                assert(t1[j] == hash);
            }
            assert(t1[i as int] == h);
            if t1.contains(hash) && h != hash {
                let j = choose|j: int| 0 <= j < t1.len() && #[trigger] t1[j] == hash;
                assert(t0[j] == hash);
            }
        }
        if h == hash {
            found = true;
        } else {
            kept.push(h);
        }
        i = i + 1;
    }
    proof {
        assert(queue@.take(queue@.len() as int) =~= queue@);
    }
    *queue = kept;
    found
}

/// A queue that was remembered to hold `hash` reports it exactly once:
/// the first check consumes it, the next one finds nothing.
pub proof fn lemma_ignore_hash_consumed_once(queue: Seq<u64>, hash: u64)
    ensures
        ignore_push(queue, hash).contains(hash),
        !ignore_consume(ignore_push(queue, hash), hash).contains(hash),
{
    let q = queue.push(hash);
    assert(q[q.len() - 1] == hash);
    if q.len() > IGNORE_QUEUE_CAPACITY {
        assert(q.drop_first()[q.len() - 2] == hash);
    }
    let p = ignore_push(queue, hash);
    p.filter_lemma(other_than(hash));
}

/// The queue never grows beyond its capacity.
pub proof fn lemma_ignore_queue_bounded(queue: Seq<u64>, hash: u64)
    requires
        queue.len() <= IGNORE_QUEUE_CAPACITY,
    ensures
        ignore_push(queue, hash).len() <= IGNORE_QUEUE_CAPACITY,
{
}

/// What the network delivers to fulfil a clipboard promise.
#[derive(Clone, Debug)]
pub enum FulfillmentPayload {
    Text(String),
    Files(Vec<String>),
}

/// The clipboard content that was announced but not yet transferred.
pub struct PromiseContext {
    pub uuid: String,
    pub format: String,
    pub size: usize,
    /// Whether a paste is waiting for the payload.
    pub awaiting_payload: bool,
}

pub struct PromiseView {
    pub uuid: Seq<char>,
    pub format: Seq<char>,
    pub size: usize,
    pub awaiting_payload: bool,
}

impl View for PromiseContext {
    type V = PromiseView;

    open spec fn view(&self) -> PromiseView {
        PromiseView { uuid: self.uuid@, format: self.format@, size: self.size, awaiting_payload: self.awaiting_payload }
    }
}

/// The view of an optional promise.
pub open spec fn promise_view(p: Option<PromiseContext>) -> Option<PromiseView> {
    match p {
        Some(c) => Some(c@),
        None => None,
    }
}

/// The format of the active promise, when it is the one named `id`.
pub fn get_active_promise_format(active: &Option<PromiseContext>, id: &str) -> (r: Option<String>)
    ensures
        match active {
            Some(c) => if c.uuid@ == id@ { r is Some && r->Some_0@ == c.format@ } else { r is None },
            None => r is None,
        },
{
    match active {
        Some(c) => {
            if str_eq(c.uuid.as_str(), id) {
                Some(copy_string(&c.format))
            } else {
                None
            }
        },
        None => None,
    }
}

/// The announced clipboard content and the callback that asks the network
/// for it when some application pastes.
pub struct PromisedClipboard<F> {
    active: Option<PromiseContext>,
    request_callback: Option<F>,
}

impl<F: Fn(String) + Send + Sync + 'static> PromisedClipboard<F> {
    pub closed spec fn active_promise(&self) -> Option<PromiseView> {
        promise_view(self.active)
    }

    pub closed spec fn callback(&self) -> Option<F> {
        self.request_callback
    }

    /// The announced content, if any.
    pub fn active(&self) -> (r: &Option<PromiseContext>)
        ensures
            promise_view(*r) == self.active_promise(),
    {
        &self.active
    }

    /// The registered request callback, if any.
    pub fn request_callback(&self) -> (r: &Option<F>)
        ensures
            *r == self.callback(),
    {
        &self.request_callback
    }

    /// Nothing announced, no callback.
    pub fn new() -> (r: Self)
        ensures
            r.active_promise() is None,
            r.callback() is None,
    {
        PromisedClipboard { active: None, request_callback: None }
    }

    /// Announces content `id` of the given format and size. Where the
    /// platform hands over a receiver for the payload at once, the promise
    /// waits for it from the start (`awaiting_payload`).
    pub fn set_promise(&mut self, id: &str, format: &str, size: usize, awaiting_payload: bool)
        ensures
            final(self).active_promise() == Some(
                PromiseView { uuid: id@, format: format@, size, awaiting_payload },
            ),
            final(self).callback() == old(self).callback(),
    {
        self.active = Some(PromiseContext {
            uuid: copy_string_of_str(id),
            format: copy_string_of_str(format),
            size,
            awaiting_payload,
        });
    }

    /// Registers the callback that requests the payload of a promise.
    pub fn on_request(&mut self, callback: F)
        ensures
            final(self).callback() == Some(callback),
            final(self).active_promise() == old(self).active_promise(),
    {
        self.request_callback = Some(callback);
    }

    /// An application pastes the announced content: the promise now waits
    /// for its payload, and the id to request is returned. Nothing happens
    /// without an active promise.
    pub fn begin_request(&mut self) -> (r: Option<String>)
        ensures
            match old(self).active_promise() {
                Some(p) => r is Some && r->Some_0@ == p.uuid
                    && final(self).active_promise() == Some(PromiseView { awaiting_payload: true, ..p }),
                None => r is None && final(self).active_promise() is None,
            },
            final(self).callback() == old(self).callback(),
    {
        match &mut self.active {
            Some(c) => {
                c.awaiting_payload = true;
                Some(copy_string(&c.uuid))
            },
            None => None,
        }
    }

    /// The payload to hand to the waiting paste, when `id` is the active
    /// promise and a paste waits for it; otherwise nothing is delivered.
    pub fn fulfill_promise(&self, id: &str, payload: FulfillmentPayload) -> (r: Option<FulfillmentPayload>)
        ensures
            r is Some <==> (self.active_promise() matches Some(p) && p.uuid == id@ && p.awaiting_payload),
            r matches Some(q) ==> q == payload,
    {
        match &self.active {
            Some(c) => {
                if str_eq(c.uuid.as_str(), id) && c.awaiting_payload {
                    Some(payload)
                } else {
                    None
                }
            },
            None => None,
        }
    }

    /// The format of the active promise, when it is the one named `id`.
    pub fn active_format(&self, id: &str) -> (r: Option<String>)
        ensures
            match self.active_promise() {
                Some(p) => if p.uuid == id@ { r is Some && r->Some_0@ == p.format } else { r is None },
                None => r is None,
            },
    {
        get_active_promise_format(&self.active, id)
    }
}

/// Lines joined with `\n` between them (`[&str]::join("\n")`).
pub open spec fn joined_lines(lines: Seq<Seq<char>>) -> Seq<char>
    decreases lines.len(),
{
    if lines.len() == 0 {
        Seq::empty()
    } else if lines.len() == 1 {
        lines[0]
    } else {
        joined_lines(lines.drop_last()) + seq!['\n'] + lines.last()
    }
}

/// The views of a vector of strings.
pub open spec fn string_views(v: Seq<String>) -> Seq<Seq<char>> {
    v.map_values(|s: String| s@)
}

/// Joins `lines` with `\n` between them.
pub fn join_lines(lines: &[String]) -> (r: String)
    ensures
        r@ == joined_lines(string_views(lines@)),
{
    let ghost vs = string_views(lines@);
    let mut out: Vec<char> = Vec::new();
    let mut i: usize = 0;
    while i < lines.len()
        invariant
            i <= lines@.len(),
            vs == string_views(lines@),
            out@ == joined_lines(vs.take(i as int)),
        decreases lines.len() - i,
    {
        let ghost before = out@;
        if i > 0 {
            out.push('\n');
        }
        let c = chars_of(lines[i].as_str());
        out.extend_from_slice(c.as_slice());
        proof {
            let t = vs.take(i as int + 1);
            assert(t.drop_last() =~= vs.take(i as int));
            assert(t.last() == lines@[i as int]@);
            if i == 0 {
                assert(out@ =~= joined_lines(t));
            } else {
                assert(out@ =~= joined_lines(t));
            }
        }
        i = i + 1;
    }
    assert(vs.take(lines@.len() as int) =~= vs);
    string_of(out.as_slice())
}

/// The clipboard text a fulfilled promise leaves: the text itself, or the
/// file paths one per line.
pub open spec fn fulfilled_text(p: FulfillmentPayload) -> Seq<char> {
    match p {
        FulfillmentPayload::Text(t) => t@,
        FulfillmentPayload::Files(fs) => joined_lines(string_views(fs@)),
    }
}

/// The clipboard text a fulfilled promise leaves, to be remembered as
/// written by this program.
pub fn fulfillment_text(payload: &FulfillmentPayload) -> (r: String)
    ensures
        r@ == fulfilled_text(*payload),
{
    match payload {
        FulfillmentPayload::Text(t) => copy_string(t),
        FulfillmentPayload::Files(fs) => join_lines(fs.as_slice()),
    }
}

/// The `file://` URI of each path.
pub open spec fn file_uris(paths: Seq<Seq<char>>) -> Seq<Seq<char>> {
    paths.map_values(|p: Seq<char>| "file://"@ + p)
}

/// The text clipboard managers without a file type get for a file list:
/// one `file://` URI per line.
pub fn file_uri_list(paths: &[String]) -> (r: String)
    ensures
        r@ == joined_lines(file_uris(string_views(paths@))),
{
    let mut uris: Vec<String> = Vec::new();
    let mut i: usize = 0;
    while i < paths.len()
        invariant
            i <= paths@.len(),
            uris@.len() == i,
            string_views(uris@) == file_uris(string_views(paths@)).take(i as int),
        decreases paths.len() - i,
    {
        let mut v = chars_of("file://");
        let c = chars_of(paths[i].as_str());
        v.extend_from_slice(c.as_slice());
        assert(v@ == "file://"@ + paths@[i as int]@);
        let u = string_of(v.as_slice());
        let ghost before = uris@;
        uris.push(u);
        proof {
            assert(uris@[i as int]@ == "file://"@ + paths@[i as int]@);
            assert(string_views(uris@) =~= string_views(before).push("file://"@ + paths@[i as int]@));
            assert(file_uris(string_views(paths@)).take(i as int + 1) =~= file_uris(string_views(paths@)).take(
                i as int,
            ).push("file://"@ + paths@[i as int]@));
        }
        i = i + 1;
    }
    assert(file_uris(string_views(paths@)).take(paths@.len() as int) =~= file_uris(string_views(paths@)));
    join_lines(uris.as_slice())
}

/// The screen size assumed where no display can be queried.
pub fn get_screeninfo() -> (r: (i32, i32))
    ensures
        r == (1920i32, 1080i32),
{
    (1920, 1080)
}

/// The operating systems the input layer runs on.
#[derive(Clone, Copy, Debug, PartialEq, Eq, Structural)]
pub enum Platform {
    MacOs,
    Linux,
    Windows,
}

/// Whether the platform reports monitor geometry in physical pixels
/// (macOS reports logical points).
pub fn uses_physical_pixels(platform: Platform) -> (r: bool)
    ensures
        r == (platform != Platform::MacOs),
{
    match platform {
        Platform::MacOs => false,
        _ => true,
    }
}

} // verus!
