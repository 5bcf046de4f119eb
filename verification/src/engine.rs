//! The engine's decisions: workspace geometry, edge tracking and clipboard
//! streaming.

pub mod clipboard;
pub mod layout;
pub mod tracker;

use vstd::prelude::*;
use crate::config::{MonitorLayout, MonitorLayoutView};
use crate::network::protocol::{ClipboardPayload, MonitorInfo, MonitorInfoView};
use crate::text::{chars_of, copy_string, copy_string_of_str, str_eq, string_of};

verus! {

/// Large local clipboard content, announced to peers and sent on request.
pub struct OfferedData {
    pub id: String,
    pub format: String,
    pub data: String,
}

/// Clipboard content being received in chunks.
pub struct ClipboardAccumulator {
    pub id: String,
    pub format: String,
    pub size: usize,
    pub buffer: Vec<u8>,
}

pub struct AccumulatorView {
    pub id: Seq<char>,
    pub format: Seq<char>,
    pub size: usize,
    pub buffer: Seq<u8>,
}

impl View for ClipboardAccumulator {
    type V = AccumulatorView;

    open spec fn view(&self) -> AccumulatorView {
        AccumulatorView { id: self.id@, format: self.format@, size: self.size, buffer: self.buffer@ }
    }
}

/// The view of an optional accumulator.
pub open spec fn accumulator_view(a: Option<ClipboardAccumulator>) -> Option<AccumulatorView> {
    match a {
        Some(x) => Some(x@),
        None => None,
    }
}

/// Whether announced content `offered` is the content `id` a peer asks for.
pub fn offered_matches(offered: &Option<OfferedData>, id: &str) -> (r: bool)
    ensures
        r == (offered matches Some(o) && o.id@ == id@),
{
    match offered {
        Some(o) => str_eq(o.id.as_str(), id),
        None => false,
    }
}

/// Whether the disconnect of connection `conn_id` of a client ends its
/// session: a client without a recorded connection is cleaned up, one with
/// a newer connection is kept.
pub fn should_remove_client(recorded_connection: Option<u64>, conn_id: u64) -> (r: bool)
    ensures
        r == match recorded_connection {
            Some(c) => c == conn_id,
            None => true,
        },
{
    match recorded_connection {
        Some(c) => c == conn_id,
        None => true,
    }
}

/// The id of monitor `name` of host `host`: the two joined by `_`.
pub open spec fn monitor_id_of(host: Seq<char>, name: Seq<char>) -> Seq<char> {
    host + seq!['_'] + name
}

pub fn make_monitor_id(host: &str, name: &str) -> (r: String)
    ensures
        r@ == monitor_id_of(host@, name@),
{
    let mut v = chars_of(host);
    v.push('_');
    let n = chars_of(name);
    v.extend_from_slice(n.as_slice());
    assert(v@ =~= monitor_id_of(host@, name@));
    string_of(v.as_slice())
}

/// The right edge of the rightmost of `ls`, or 0 when there is none.
pub open spec fn rightmost_edge(ls: Seq<MonitorLayoutView>) -> int
    decreases ls.len(),
{
    if ls.len() == 0 {
        0
    } else {
        let rest = rightmost_edge(ls.drop_last());
        let e = ls.last().x + ls.last().width;
        if ls.len() == 1 || e > rest {
            e
        } else {
            rest
        }
    }
}

/// The views of a slice of layouts.
pub open spec fn layout_views(ls: Seq<MonitorLayout>) -> Seq<MonitorLayoutView> {
    ls.map_values(|l: MonitorLayout| l@)
}

/// Where a newly seen client monitor goes: 50 pixels right of the rightmost
/// monitor of the workspace.
pub fn new_monitor_x(layouts: &[MonitorLayout]) -> (r: i32)
    requires
        forall|i: int| 0 <= i < layouts@.len() ==> i32::MIN <= #[trigger] layouts@[i].x + layouts@[i].width <= i32::MAX,
        rightmost_edge(layout_views(layouts@)) + 50 <= i32::MAX,
    ensures
        r == rightmost_edge(layout_views(layouts@)) + 50,
{
    let ghost vs = layout_views(layouts@);
    let mut best: i32 = 0;
    let mut i: usize = 0;
    while i < layouts.len()
        invariant
            i <= layouts@.len(),
            vs == layout_views(layouts@),
            forall|j: int| 0 <= j < layouts@.len() ==> i32::MIN <= #[trigger] layouts@[j].x + layouts@[j].width <= i32::MAX,
            best == rightmost_edge(vs.take(i as int)),
        decreases layouts.len() - i,
    {
        let e: i32 = layouts[i].x + layouts[i].width;
        proof {
            assert(vs.take(i as int + 1).drop_last() =~= vs.take(i as int));
            assert(vs.take(i as int + 1).last() == layouts@[i as int]@);
        }
        if i == 0 || e > best {
            best = e;
        }
        i = i + 1;
    }
    assert(vs.take(layouts@.len() as int) =~= vs);
    best + 50
}

/// The position a monitor of this machine keeps in the workspace: the one
/// stored under its id, else its own local position.
pub open spec fn restored_position(ls: Seq<MonitorLayoutView>, monitor_id: Seq<char>, local: (i32, i32)) -> (i32, i32)
    decreases ls.len(),
{
    if ls.len() == 0 {
        local
    } else if ls[0].monitor_id == monitor_id {
        (ls[0].x, ls[0].y)
    } else {
        restored_position(ls.drop_first(), monitor_id, local)
    }
}

pub fn restore_position(layouts: &[MonitorLayout], monitor_id: &str, local: (i32, i32)) -> (r: (i32, i32))
    ensures
        r == restored_position(layout_views(layouts@), monitor_id@, local),
{
    let ghost vs = layout_views(layouts@);
    assert(vs.skip(0) =~= vs);
    let mut i: usize = 0;
    while i < layouts.len()
        invariant
            i <= layouts@.len(),
            vs == layout_views(layouts@),
            restored_position(vs, monitor_id@, local) == restored_position(vs.skip(i as int), monitor_id@, local),
        decreases layouts.len() - i,
    {
        assert(vs.skip(i as int)[0] == layouts@[i as int]@);
        assert(vs.skip(i as int).drop_first() =~= vs.skip(i as int + 1));
        if str_eq(layouts[i].monitor_id.as_str(), monitor_id) {
            return (layouts[i].x, layouts[i].y);
        }
        i = i + 1;
    }
    assert(vs.skip(i as int).len() == 0);
    local
}

/// The first layout stored under `monitor_id`, if any.
pub open spec fn stored_layout(ls: Seq<MonitorLayoutView>, monitor_id: Seq<char>) -> Option<MonitorLayoutView>
    decreases ls.len(),
{
    if ls.len() == 0 {
        None
    } else if ls[0].monitor_id == monitor_id {
        Some(ls[0])
    } else {
        stored_layout(ls.drop_first(), monitor_id)
    }
}

/// A stored layout brought up to date with what the client reports of the
/// monitor: its place in the workspace stays, its size, scale and local
/// position are the reported ones.
pub open spec fn refreshed_layout(l: MonitorLayoutView, m: MonitorInfoView) -> MonitorLayoutView {
    MonitorLayoutView {
        width: m.width,
        height: m.height,
        scale_factor_bits: m.scale_factor_bits,
        local_x: m.local_x,
        local_y: m.local_y,
        ..l
    }
}

/// The layout of a monitor of client `host` seen for the first time,
/// placed at `x` on the top row.
pub open spec fn new_client_layout(host: Seq<char>, m: MonitorInfoView, x: int) -> MonitorLayoutView {
    MonitorLayoutView {
        monitor_id: monitor_id_of(host, m.name),
        host,
        monitor_name: m.name,
        x: x as i32,
        y: 0,
        width: m.width,
        height: m.height,
        scale_factor_bits: m.scale_factor_bits,
        local_x: m.local_x,
        local_y: m.local_y,
    }
}

/// The layout to store for monitor `m` of client `ip` when it connects,
/// given the stored `layouts`: the stored one refreshed, or a new one 50
/// pixels right of the rightmost monitor.
pub fn merged_monitor_layout(ip: &str, m: &MonitorInfo, layouts: &[MonitorLayout]) -> (r: MonitorLayout)
    requires
        stored_layout(layout_views(layouts@), monitor_id_of(ip@, m.name@)) is None ==> {
            &&& forall|i: int| 0 <= i < layouts@.len() ==> i32::MIN <= #[trigger] layouts@[i].x + layouts@[i].width <= i32::MAX
            &&& rightmost_edge(layout_views(layouts@)) + 50 <= i32::MAX
        },
    ensures
        r@ == match stored_layout(layout_views(layouts@), monitor_id_of(ip@, m.name@)) {
            Some(l) => refreshed_layout(l, m@),
            None => new_client_layout(ip@, m@, rightmost_edge(layout_views(layouts@)) + 50),
        },
{
    let ghost vs = layout_views(layouts@);
    let id = make_monitor_id(ip, m.name.as_str());
    assert(vs.skip(0) =~= vs);
    let mut i: usize = 0;
    while i < layouts.len()
        invariant
            i <= layouts@.len(),
            vs == layout_views(layouts@),
            id@ == monitor_id_of(ip@, m.name@),
            stored_layout(vs, id@) == stored_layout(vs.skip(i as int), id@),
        decreases layouts.len() - i,
    {
        assert(vs.skip(i as int)[0] == layouts@[i as int]@);
        assert(vs.skip(i as int).drop_first() =~= vs.skip(i as int + 1));
        if str_eq(layouts[i].monitor_id.as_str(), id.as_str()) {
            let l = &layouts[i];
            assert(stored_layout(vs, id@) == Some(layouts@[i as int]@));
            let r = MonitorLayout {
                monitor_id: copy_string(&l.monitor_id),
                host: copy_string(&l.host),
                monitor_name: copy_string(&l.monitor_name),
                x: l.x,
                y: l.y,
                width: m.width,
                height: m.height,
                scale_factor_bits: m.scale_factor_bits,
                local_x: m.local_x,
                local_y: m.local_y,
            };
            assert(r@ == refreshed_layout(l@, m@));
            return r;
        }
        i = i + 1;
    }
    assert(vs.skip(i as int).len() == 0);
    let x = new_monitor_x(layouts);
    MonitorLayout {
        monitor_id: id,
        host: copy_string_of_str(ip),
        monitor_name: copy_string(&m.name),
        x,
        y: 0,
        width: m.width,
        height: m.height,
        scale_factor_bits: m.scale_factor_bits,
        local_x: m.local_x,
        local_y: m.local_y,
    }
}

/// What a machine does with clipboard traffic from a peer.
pub enum ClipboardRoute {
    /// Write text or files to the local clipboard; the written content is
    /// then remembered so that it does not echo back.
    WriteClipboard,
    /// Announce the offered content locally as a promise.
    Promise,
    /// Stream the content this machine offered.
    Serve,
    /// Add the chunk to the content being received.
    Accumulate,
    /// Nothing to do here.
    Ignore,
}

pub struct RoutedClipboard {
    pub route: ClipboardRoute,
    /// The server passes requests and chunks on to its other clients.
    pub forward: bool,
}

/// Routes a clipboard payload received by the server (`is_server`) or by a
/// client, given the content this machine currently offers.
pub fn route_clipboard(payload: &ClipboardPayload, offered: &Option<OfferedData>, is_server: bool) -> (r: RoutedClipboard)
    ensures
        match payload {
            ClipboardPayload::Text { .. } | ClipboardPayload::Files { .. } => r.route is WriteClipboard && !r.forward,
            ClipboardPayload::Offer { .. } => r.route is Promise && !r.forward,
            ClipboardPayload::Request { id } => r.forward == is_server && if offered matches Some(o) && o.id@ == id@ {
                r.route is Serve
            } else {
                r.route is Ignore
            },
            ClipboardPayload::Chunk { .. } => r.route is Accumulate && r.forward == is_server,
        },
{
    match payload {
        ClipboardPayload::Text { .. } | ClipboardPayload::Files { .. } => RoutedClipboard {
            route: ClipboardRoute::WriteClipboard,
            forward: false,
        },
        ClipboardPayload::Offer { .. } => RoutedClipboard { route: ClipboardRoute::Promise, forward: false },
        ClipboardPayload::Request { id } => {
            let route = if offered_matches(offered, id.as_str()) {
                ClipboardRoute::Serve
            } else {
                ClipboardRoute::Ignore
            };
            RoutedClipboard { route, forward: is_server }
        },
        ClipboardPayload::Chunk { .. } => RoutedClipboard { route: ClipboardRoute::Accumulate, forward: is_server },
    }
}

} // verus!
