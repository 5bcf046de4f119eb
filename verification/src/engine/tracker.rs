//! Decisions of the server's edge tracker: when the cursor at the edge of
//! the server's screen enters a client screen, and how relative motion
//! redirected to a client moves the virtual cursor across the workspace.
use vstd::prelude::*;
use crate::config::{MonitorLayout, MonitorLayoutView, main_host, is_main_host};
use crate::engine::layout::{
    client_contains, clamp_int, find_client_monitor_containing, find_closest_client_monitor,
    fits_i32, layout_contains, layout_contains_exec, distance2,
};
use crate::network::protocol::{MonitorInfo, MonitorInfoView};
use crate::text::{str_eq, string_of, chars_of, copy_string};

verus! {

/// Whether the local point lies on local monitor `m`.
pub open spec fn info_contains(m: MonitorInfoView, x: int, y: int) -> bool {
    m.local_x <= x < m.local_x + m.width && m.local_y <= y < m.local_y + m.height
}

pub open spec fn main_display_name() -> Seq<char> {
    seq!['M', 'a', 'i', 'n', ' ', 'D', 'i', 's', 'p', 'l', 'a', 'y']
}

/// Bit pattern of the scale factor 1.0.
pub open spec fn unit_scale_bits() -> u64 {
    0x3FF0_0000_0000_0000u64
}

/// The server monitor under the cursor: the first local monitor that
/// contains it, else the first monitor, else a 1920x1080 "Main Display".
pub open spec fn active_monitor_spec(x: int, y: int, mons: Seq<MonitorInfoView>) -> MonitorInfoView {
    if exists|i: int| 0 <= i < mons.len() && info_contains(#[trigger] mons[i], x, y) {
        let i = choose|i: int|
            0 <= i < mons.len() && info_contains(mons[i], x, y) && forall|j: int|
                0 <= j < i ==> !info_contains(#[trigger] mons[j], x, y);
        mons[i]
    } else if mons.len() > 0 {
        mons[0]
    } else {
        MonitorInfoView {
            name: main_display_name(),
            local_x: 0,
            local_y: 0,
            width: 1920,
            height: 1080,
            scale_factor_bits: unit_scale_bits(),
        }
    }
}

fn info_contains_exec(m: &MonitorInfo, x: i32, y: i32) -> (r: bool)
    ensures
        r == info_contains(m@, x as int, y as int),
{
    (x as i64) >= m.local_x as i64 && (x as i64) < m.local_x as i64 + m.width as i64 && (y as i64)
        >= m.local_y as i64 && (y as i64) < m.local_y as i64 + m.height as i64
}

/// The server monitor the cursor at local `pos` is on.
pub fn locate_active_monitor(pos: (i32, i32), local_mons: &[MonitorInfo]) -> (r: MonitorInfo)
    ensures
        r@ == active_monitor_spec(pos.0 as int, pos.1 as int, local_mons@.map_values(|m: MonitorInfo| m@)),
{
    let ghost mons = local_mons@.map_values(|m: MonitorInfo| m@);
    let mut i: usize = 0;
    while i < local_mons.len()
        invariant
            i <= local_mons.len(),
            mons == local_mons@.map_values(|m: MonitorInfo| m@),
            forall|j: int| 0 <= j < i ==> !info_contains(#[trigger] mons[j], pos.0 as int, pos.1 as int),
        decreases local_mons.len() - i,
    {
        if info_contains_exec(&local_mons[i], pos.0, pos.1) {
            proof {
                let c = choose|k: int|
                    0 <= k < mons.len() && info_contains(mons[k], pos.0 as int, pos.1 as int) && forall|j: int|
                        0 <= j < k ==> !info_contains(#[trigger] mons[j], pos.0 as int, pos.1 as int);
                assert(mons[i as int] == local_mons@[i as int]@);
                assert(0 <= i < mons.len() && info_contains(mons[i as int], pos.0 as int, pos.1 as int) && forall|j: int|
                    0 <= j < i ==> !info_contains(#[trigger] mons[j], pos.0 as int, pos.1 as int));
                if c < i {
                } else if c > i {
                    assert(!info_contains(mons[i as int], pos.0 as int, pos.1 as int));
                }
            }
            return local_mons[i].copy();
        }
        i = i + 1;
    }
    if local_mons.len() > 0 {
        assert(mons[0] == local_mons@[0]@);
        local_mons[0].copy()
    } else {
        let name: Vec<char> = vec!['M', 'a', 'i', 'n', ' ', 'D', 'i', 's', 'p', 'l', 'a', 'y'];
        assert(name@ =~= main_display_name());
        MonitorInfo {
            name: string_of(name.as_slice()),
            local_x: 0,
            local_y: 0,
            width: 1920,
            height: 1080,
            scale_factor_bits: 0x3FF0_0000_0000_0000u64,
        }
    }
}

/// Where a server monitor sits in the workspace: its stored placement
/// (host `main`, same monitor name), else its local rectangle with id
/// `main_<name>`.
pub open spec fn host_layout_spec(active: MonitorInfoView, layouts: Seq<MonitorLayoutView>) -> MonitorLayoutView {
    if exists|i: int| 0 <= i < layouts.len() && #[trigger] layouts[i].host == main_host() && layouts[i].monitor_name == active.name {
        let i = choose|i: int|
            0 <= i < layouts.len() && layouts[i].host == main_host() && layouts[i].monitor_name == active.name
                && forall|j: int|
                0 <= j < i ==> !(#[trigger] layouts[j].host == main_host() && layouts[j].monitor_name == active.name);
        layouts[i]
    } else {
        MonitorLayoutView {
            monitor_id: seq!['m', 'a', 'i', 'n', '_'] + active.name,
            host: main_host(),
            monitor_name: active.name,
            x: active.local_x,
            y: active.local_y,
            width: active.width,
            height: active.height,
            scale_factor_bits: active.scale_factor_bits,
            local_x: active.local_x,
            local_y: active.local_y,
        }
    }
}

/// The stored placement of server monitor `active`.
pub fn host_layout(active: &MonitorInfo, layouts: &[MonitorLayout]) -> (r: MonitorLayout)
    ensures
        r@ == host_layout_spec(active@, layouts@.map_values(|m: MonitorLayout| m@)),
{
    let ghost ls = layouts@.map_values(|m: MonitorLayout| m@);
    let mut i: usize = 0;
    while i < layouts.len()
        invariant
            i <= layouts.len(),
            ls == layouts@.map_values(|m: MonitorLayout| m@),
            forall|j: int| 0 <= j < i ==> !(#[trigger] ls[j].host == main_host() && ls[j].monitor_name == active@.name),
        decreases layouts.len() - i,
    {
        let l = &layouts[i];
        if is_main_host(l.host.as_str()) && str_eq(l.monitor_name.as_str(), active.name.as_str()) {
            proof {
                assert(ls[i as int] == layouts@[i as int]@);
                let c = choose|k: int|
                    0 <= k < ls.len() && ls[k].host == main_host() && ls[k].monitor_name == active@.name
                        && forall|j: int|
                        0 <= j < k ==> !(#[trigger] ls[j].host == main_host() && ls[j].monitor_name == active@.name);
                assert(0 <= i < ls.len() && ls[i as int].host == main_host() && ls[i as int].monitor_name == active@.name
                    && forall|j: int|
                    0 <= j < i ==> !(#[trigger] ls[j].host == main_host() && ls[j].monitor_name == active@.name));
                if c > i {
                    assert(!(ls[i as int].host == main_host() && ls[i as int].monitor_name == active@.name));
                }
            }
            return l.copy();
        }
        i = i + 1;
    }
    let mut id: Vec<char> = vec!['m', 'a', 'i', 'n', '_'];
    let n = chars_of(active.name.as_str());
    id.extend_from_slice(n.as_slice());
    assert(id@ =~= seq!['m', 'a', 'i', 'n', '_'] + active.name@);
    let host: Vec<char> = vec!['m', 'a', 'i', 'n'];
    assert(host@ =~= main_host());
    assert(!exists|i: int| 0 <= i < ls.len() && #[trigger] ls[i].host == main_host() && ls[i].monitor_name == active@.name);
    MonitorLayout {
        monitor_id: string_of(id.as_slice()),
        host: string_of(host.as_slice()),
        monitor_name: copy_string(&active.name),
        x: active.local_x,
        y: active.local_y,
        width: active.width,
        height: active.height,
        scale_factor_bits: active.scale_factor_bits,
        local_x: active.local_x,
        local_y: active.local_y,
    }
}

/// Whether the cursor at local `(x, y)` is within 5 pixels of an edge of
/// the rectangle at `(rx, ry)` of size `w` by `h`.
pub open spec fn near_edge(x: int, y: int, rx: int, ry: int, w: int, h: int) -> bool {
    x < rx + 5 || x > rx + w - 5 || y < ry + 5 || y > ry + h - 5
}

/// The global point just beyond the edge the cursor touches: 8 pixels left
/// of, right of, above or below the monitor's placement (checked in that
/// order), keeping the other coordinate.
pub open spec fn edge_probe_spec(x: int, y: int, active: MonitorInfoView, db: MonitorLayoutView, gx: int, gy: int) -> Option<(int, int)> {
    if x < active.local_x + 5 {
        Some((db.x - 8, gy))
    } else if x > active.local_x + active.width - 5 {
        Some((db.x + db.width + 8, gy))
    } else if y < active.local_y + 5 {
        Some((gx, db.y - 8))
    } else if y > active.local_y + active.height - 5 {
        Some((gx, db.y + db.height + 8))
    } else {
        None
    }
}

/// What one step of host-side tracking decides.
pub struct HostTrackingStep {
    /// The cursor's global position.
    pub global: (i32, i32),
    /// The client monitor to enter and the global position to enter it at.
    pub enter: Option<(MonitorLayout, (i32, i32))>,
}

fn checked_i32(v: i64) -> (r: Option<i32>)
    ensures
        match r {
            Some(x) => x == v,
            None => !fits_i32(v as int),
        },
{
    if v >= i32::MIN as i64 && v <= i32::MAX as i64 {
        Some(v as i32)
    } else {
        None
    }
}

/// What one step of edge tracking may return for the cursor at local `pos`
/// on server monitors `mons`, with stored placements `dbs` and enterable
/// client monitors `valid`.
pub open spec fn host_step_outcome(
    pos: (i32, i32),
    mons: Seq<MonitorInfoView>,
    dbs: Seq<MonitorLayoutView>,
    valid: Seq<MonitorLayoutView>,
    any_peer_connected: bool,
    in_cooldown: bool,
    r: Option<HostTrackingStep>,
) -> bool {
    let active = active_monitor_spec(pos.0 as int, pos.1 as int, mons);
    let db = host_layout_spec(active, dbs);
    let gx = db.x + (pos.0 - active.local_x);
    let gy = db.y + (pos.1 - active.local_y);
    let probe = edge_probe_spec(pos.0 as int, pos.1 as int, active, db, gx, gy);
    match r {
        Some(step) => {
            &&& step.global.0 == gx && step.global.1 == gy
            &&& (in_cooldown || !any_peer_connected || probe is None) ==> step.enter is None
            &&& (step.enter matches Some((m, p)) ==> probe == Some((p.0 as int, p.1 as int)) && exists|i: int|
                0 <= i < valid.len() && m@ == valid[i] && client_contains(valid[i], p.0 as int, p.1 as int)
                    && forall|j: int| 0 <= j < i ==> !client_contains(#[trigger] valid[j], p.0 as int, p.1 as int))
            &&& (!in_cooldown && any_peer_connected && probe is Some && fits_i32(probe->Some_0.0) && fits_i32(
                probe->Some_0.1,
            ) && step.enter is None) ==> forall|i: int|
                0 <= i < valid.len() ==> !client_contains(#[trigger] valid[i], probe->Some_0.0, probe->Some_0.1)
        },
        None => !(fits_i32(gx) && fits_i32(gy)) || (!in_cooldown && any_peer_connected && probe is Some && !(
        fits_i32(probe->Some_0.0) && fits_i32(probe->Some_0.1))),
    }
}

/// Touching the left edge: when the cursor is within 5 pixels of the left
/// edge of the server monitor it is on, a peer is connected and no cooldown
/// runs, the point probed is 8 pixels left of that monitor's placement at
/// the cursor's global height. The first client monitor containing that
/// point is entered there; whenever anything is entered, it is there.
pub proof fn lemma_left_edge_enters_client_beyond(
    pos: (i32, i32),
    mons: Seq<MonitorInfoView>,
    dbs: Seq<MonitorLayoutView>,
    valid: Seq<MonitorLayoutView>,
    r: Option<HostTrackingStep>,
    i: int,
)
    requires
        host_step_outcome(pos, mons, dbs, valid, true, false, r),
        ({
            let active = active_monitor_spec(pos.0 as int, pos.1 as int, mons);
            let db = host_layout_spec(active, dbs);
            let gx = db.x + (pos.0 - active.local_x);
            let gy = db.y + (pos.1 - active.local_y);
            &&& pos.0 < active.local_x + 5
            &&& fits_i32(gx) && fits_i32(gy) && fits_i32(db.x - 8)
        }),
    ensures
        ({
            let active = active_monitor_spec(pos.0 as int, pos.1 as int, mons);
            let db = host_layout_spec(active, dbs);
            let gy = db.y + (pos.1 - active.local_y);
            &&& r is Some
            &&& (r->Some_0.enter matches Some((m, p)) ==> p.0 == db.x - 8 && p.1 == gy)
            &&& (0 <= i < valid.len() && client_contains(valid[i], db.x - 8, gy) && (forall|j: int|
                0 <= j < i ==> !client_contains(#[trigger] valid[j], db.x - 8, gy))) ==> (r->Some_0.enter matches Some(
                (m, p),
            ) && m@ == valid[i])
        }),
{
    let active = active_monitor_spec(pos.0 as int, pos.1 as int, mons);
    let db = host_layout_spec(active, dbs);
    let gy = db.y + (pos.1 - active.local_y);
    if 0 <= i < valid.len() && client_contains(valid[i], db.x - 8, gy) && (forall|j: int|
        0 <= j < i ==> !client_contains(#[trigger] valid[j], db.x - 8, gy)) {
        let step = r->Some_0;
        if step.enter is None {
            assert(!client_contains(valid[i], db.x - 8, gy));
        }
        let (m, p) = step.enter->Some_0;
        let k = choose|k: int|
            0 <= k < valid.len() && m@ == valid[k] && client_contains(valid[k], p.0 as int, p.1 as int) && forall|
                j: int,
            | 0 <= j < k ==> !client_contains(#[trigger] valid[j], p.0 as int, p.1 as int);
        if k < i {
            assert(!client_contains(valid[k], db.x - 8, gy));
        } else if k > i {
            assert(!client_contains(valid[i], p.0 as int, p.1 as int));
        }
    }
}

/// The edge a cursor at local `(x, y)` on monitor `active` touches decides
/// the point probed beyond it, checked left, right, top, bottom: 8 pixels
/// past that edge of the monitor's placement `db`, at the cursor's global
/// height (left, right) or width position (top, bottom).
pub proof fn lemma_any_edge_enters_client_beyond(
    pos: (i32, i32),
    mons: Seq<MonitorInfoView>,
    dbs: Seq<MonitorLayoutView>,
    valid: Seq<MonitorLayoutView>,
    any_peer_connected: bool,
    in_cooldown: bool,
    r: Option<HostTrackingStep>,
)
    requires
        host_step_outcome(pos, mons, dbs, valid, any_peer_connected, in_cooldown, r),
    ensures
        ({
            let a = active_monitor_spec(pos.0 as int, pos.1 as int, mons);
            let db = host_layout_spec(a, dbs);
            let gx = db.x + (pos.0 - a.local_x);
            let gy = db.y + (pos.1 - a.local_y);
            let left = pos.0 < a.local_x + 5;
            let right = !left && pos.0 > a.local_x + a.width - 5;
            let top = !left && !right && pos.1 < a.local_y + 5;
            let bottom = !left && !right && !top && pos.1 > a.local_y + a.height - 5;
            &&& (r matches Some(step) ==> step.global.0 == gx && step.global.1 == gy)
            &&& (fits_i32(gx) && fits_i32(gy) && (in_cooldown || !any_peer_connected)) ==> (r matches Some(step)
                && step.enter is None)
            &&& (!left && !right && !top && !bottom && fits_i32(gx) && fits_i32(gy)) ==> (r matches Some(step)
                && step.enter is None)
            &&& r matches Some(step) ==> (step.enter matches Some((m, p)) ==> {
                &&& any_peer_connected && !in_cooldown
                &&& left ==> p.0 == db.x - 8 && p.1 == gy
                &&& right ==> p.0 == db.x + db.width + 8 && p.1 == gy
                &&& top ==> p.0 == gx && p.1 == db.y - 8
                &&& bottom ==> p.0 == gx && p.1 == db.y + db.height + 8
                &&& client_contains(m@, p.0 as int, p.1 as int)
            })
        }),
{
    if let Some(step) = r {
        if let Some((m, p)) = step.enter {
            let k = choose|k: int|
                0 <= k < valid.len() && m@ == valid[k] && client_contains(valid[k], p.0 as int, p.1 as int) && forall|
                    j: int,
                | 0 <= j < k ==> !client_contains(#[trigger] valid[j], p.0 as int, p.1 as int);
        }
    }
}

/// One step of edge tracking while the server has control. The cursor at
/// local `pos` is mapped to global coordinates through the placement of the
/// monitor it is on. Unless the last return to the host was too recent or
/// no client is fully connected, touching an edge of that monitor enters
/// the first client monitor containing the point just beyond the edge.
/// `None` when a coordinate leaves the `i32` range.
pub fn host_tracking_step(
    pos: (i32, i32),
    local_mons: &[MonitorInfo],
    db_layouts: &[MonitorLayout],
    valid_layouts: &[MonitorLayout],
    any_peer_connected: bool,
    in_cooldown: bool,
) -> (r: Option<HostTrackingStep>)
    ensures
        host_step_outcome(
            pos,
            local_mons@.map_values(|m: MonitorInfo| m@),
            db_layouts@.map_values(|m: MonitorLayout| m@),
            valid_layouts@.map_values(|m: MonitorLayout| m@),
            any_peer_connected,
            in_cooldown,
            r,
        ),
{
    let active = locate_active_monitor(pos, local_mons);
    let db = host_layout(&active, db_layouts);
    let gx64 = db.x as i64 + (pos.0 as i64 - active.local_x as i64);
    let gy64 = db.y as i64 + (pos.1 as i64 - active.local_y as i64);
    let gx = match checked_i32(gx64) {
        Some(v) => v,
        None => return None,
    };
    let gy = match checked_i32(gy64) {
        Some(v) => v,
        None => return None,
    };
    if in_cooldown || !any_peer_connected {
        return Some(HostTrackingStep { global: (gx, gy), enter: None });
    }
    let x = pos.0 as i64;
    let y = pos.1 as i64;
    let probe: Option<(i64, i64)> = if x < active.local_x as i64 + 5 {
        Some((db.x as i64 - 8, gy as i64))
    } else if x > active.local_x as i64 + active.width as i64 - 5 {
        Some((db.x as i64 + db.width as i64 + 8, gy as i64))
    } else if y < active.local_y as i64 + 5 {
        Some((gx as i64, db.y as i64 - 8))
    } else if y > active.local_y as i64 + active.height as i64 - 5 {
        Some((gx as i64, db.y as i64 + db.height as i64 + 8))
    } else {
        None
    };
    match probe {
        None => Some(HostTrackingStep { global: (gx, gy), enter: None }),
        Some((px64, py64)) => {
            let px = match checked_i32(px64) {
                Some(v) => v,
                None => return None,
            };
            let py = match checked_i32(py64) {
                Some(v) => v,
                None => return None,
            };
            let ghost vs = valid_layouts@.map_values(|m: MonitorLayout| m@);
            match find_client_monitor_containing(px, py, valid_layouts) {
                Some(target) => {
                    proof {
                        let i = choose|i: int|
                            0 <= i < valid_layouts@.len() && target@ == valid_layouts@[i]@ && client_contains(
                                valid_layouts@[i]@,
                                px as int,
                                py as int,
                            ) && forall|j: int|
                                0 <= j < i ==> !client_contains(#[trigger] valid_layouts@[j]@, px as int, py as int);
                        assert(vs[i] == valid_layouts@[i]@);
                        assert forall|j: int| 0 <= j < i implies !client_contains(#[trigger] vs[j], px as int, py as int) by {
                            assert(vs[j] == valid_layouts@[j]@);
                        }
                    }
                    Some(HostTrackingStep { global: (gx, gy), enter: Some((target, (px, py))) })
                },
                None => {
                    proof {
                        assert forall|i: int| 0 <= i < vs.len() implies !client_contains(#[trigger] vs[i], px as int, py as int) by {
                            assert(vs[i] == valid_layouts@[i]@);
                        }
                    }
                    Some(HostTrackingStep { global: (gx, gy), enter: None })
                },
            }
        },
    }
}


/// Index of the first monitor that contains the global point.
pub open spec fn first_containing(ms: Seq<MonitorLayoutView>, gx: int, gy: int) -> Option<int> {
    if exists|i: int| 0 <= i < ms.len() && layout_contains(#[trigger] ms[i], gx, gy) {
        Some(
            choose|i: int|
                0 <= i < ms.len() && layout_contains(ms[i], gx, gy) && forall|j: int|
                    0 <= j < i ==> !layout_contains(#[trigger] ms[j], gx, gy),
        )
    } else {
        None
    }
}

fn find_containing(gx: i32, gy: i32, ms: &[MonitorLayout]) -> (r: Option<usize>)
    ensures
        r matches Some(i) ==> i < ms@.len() && first_containing(ms@.map_values(|m: MonitorLayout| m@), gx as int, gy as int) == Some(i as int),
        r is None ==> first_containing(ms@.map_values(|m: MonitorLayout| m@), gx as int, gy as int) is None,
{
    let ghost v = ms@.map_values(|m: MonitorLayout| m@);
    let mut i: usize = 0;
    while i < ms.len()
        invariant
            i <= ms.len(),
            v == ms@.map_values(|m: MonitorLayout| m@),
            forall|j: int| 0 <= j < i ==> !layout_contains(#[trigger] v[j], gx as int, gy as int),
        decreases ms.len() - i,
    {
        if layout_contains_exec(&ms[i], gx, gy) {
            proof {
                assert(v[i as int] == ms@[i as int]@);
                let c = choose|k: int|
                    0 <= k < v.len() && layout_contains(v[k], gx as int, gy as int) && forall|j: int|
                        0 <= j < k ==> !layout_contains(#[trigger] v[j], gx as int, gy as int);
                assert(0 <= i < v.len() && layout_contains(v[i as int], gx as int, gy as int) && forall|j: int|
                    0 <= j < i ==> !layout_contains(#[trigger] v[j], gx as int, gy as int));
                if c > i {
                    assert(!layout_contains(v[i as int], gx as int, gy as int));
                }
            }
            return Some(i);
        }
        i = i + 1;
    }
    None
}

/// Where the server cursor lands when control returns to monitor `mon`:
/// the point's local position, moved 12 pixels inside when it is within 5
/// pixels of an edge, so that the edge does not trigger again at once.
pub open spec fn return_warp_spec(mon: MonitorLayoutView, gx: int, gy: int) -> (int, int) {
    let lx = mon.local_x + (gx - mon.x);
    let ly = mon.local_y + (gy - mon.y);
    let wx = if lx <= mon.local_x + 5 {
        mon.local_x + 12
    } else if lx >= mon.local_x + mon.width - 5 {
        mon.local_x + mon.width - 12
    } else {
        lx
    };
    let wy = if ly <= mon.local_y + 5 {
        mon.local_y + 12
    } else if ly >= mon.local_y + mon.height - 5 {
        mon.local_y + mon.height - 12
    } else {
        ly
    };
    (wx, wy)
}

/// After a return to a host monitor at least 17 pixels wide and high, the
/// cursor is not within 5 pixels of any of that monitor's edges, so edge
/// tracking does not send it straight back.
pub proof fn lemma_return_warp_clear_of_edges(mon: MonitorLayoutView, gx: int, gy: int)
    requires
        mon.width >= 17,
        mon.height >= 17,
    ensures
        !near_edge(
            return_warp_spec(mon, gx, gy).0,
            return_warp_spec(mon, gx, gy).1,
            mon.local_x as int,
            mon.local_y as int,
            mon.width as int,
            mon.height as int,
        ),
{
}

fn return_warp(mon: &MonitorLayout, gx: i32, gy: i32) -> (r: Option<(i32, i32)>)
    ensures
        match r {
            Some(w) => return_warp_spec(mon@, gx as int, gy as int) == (w.0 as int, w.1 as int),
            None => !(fits_i32(return_warp_spec(mon@, gx as int, gy as int).0) && fits_i32(return_warp_spec(mon@, gx as int, gy as int).1)),
        },
{
    let lx = mon.local_x as i64 + (gx as i64 - mon.x as i64);
    let ly = mon.local_y as i64 + (gy as i64 - mon.y as i64);
    let wx = if lx <= mon.local_x as i64 + 5 {
        mon.local_x as i64 + 12
    } else if lx >= mon.local_x as i64 + mon.width as i64 - 5 {
        mon.local_x as i64 + mon.width as i64 - 12
    } else {
        lx
    };
    let wy = if ly <= mon.local_y as i64 + 5 {
        mon.local_y as i64 + 12
    } else if ly >= mon.local_y as i64 + mon.height as i64 - 5 {
        mon.local_y as i64 + mon.height as i64 - 12
    } else {
        ly
    };
    match (checked_i32(wx), checked_i32(wy)) {
        (Some(x), Some(y)) => Some((x, y)),
        _ => None,
    }
}

/// What redirected relative motion does.
pub enum MoveDecision {
    /// The cursor reached a server monitor: stop the client and put the
    /// server cursor at this local position.
    ReturnToHost { warp: (i32, i32) },
    /// The cursor reached a monitor of another client: switch to it.
    SwitchClient { target: MonitorLayout },
    /// The cursor moved on a monitor of the controlled client.
    MoveWithin { target: MonitorLayout },
    /// The cursor left every monitor: it is held on the first nearest
    /// monitor of the controlled client.
    Clamped { target: MonitorLayout },
    /// The cursor left every monitor and the controlled client has none.
    Stay,
}

/// The outcome of one redirected motion: what to do, and the cursor's new
/// global position.
pub struct MoveStep {
    pub decision: MoveDecision,
    pub global: (i32, i32),
}

/// The required outcome when the cursor at `(gx, gy)` is on monitor `mon`.
pub open spec fn on_monitor_outcome(r: Option<MoveStep>, curr: Seq<char>, gx: int, gy: int, mon: MonitorLayoutView) -> bool {
    if mon.host == main_host() {
        match r {
            Some(step) => {
                &&& step.global.0 == gx
                &&& step.global.1 == gy
                &&& step.decision matches MoveDecision::ReturnToHost { warp }
                &&& return_warp_spec(mon, gx, gy) == (warp.0 as int, warp.1 as int)
            },
            None => !(fits_i32(return_warp_spec(mon, gx, gy).0) && fits_i32(return_warp_spec(mon, gx, gy).1)),
        }
    } else if mon.host != curr {
        &&& r matches Some(step)
        &&& step.global.0 == gx
        &&& step.global.1 == gy
        &&& step.decision matches MoveDecision::SwitchClient { target }
        &&& target@ == mon
    } else {
        &&& r matches Some(step)
        &&& step.global.0 == gx
        &&& step.global.1 == gy
        &&& step.decision matches MoveDecision::MoveWithin { target }
        &&& target@ == mon
    }
}

/// Monitor `k` is the first of the monitors of `host` nearest to `(gx, gy)`:
/// none of them is nearer, and every one before it is farther.
pub open spec fn is_first_nearest(ms: Seq<MonitorLayoutView>, host: Seq<char>, gx: int, gy: int, k: int) -> bool {
    &&& 0 <= k < ms.len()
    &&& ms[k].host == host
    &&& forall|j: int| 0 <= j < ms.len() && #[trigger] ms[j].host == host ==> distance2(ms[k], gx, gy) <= distance2(ms[j], gx, gy)
    &&& forall|j: int| 0 <= j < k && #[trigger] ms[j].host == host ==> distance2(ms[k], gx, gy) < distance2(ms[j], gx, gy)
}

/// The required outcome when the cursor at `(gx, gy)` is on no monitor:
/// it is held on the first nearest monitor of `curr`.
pub open spec fn off_monitor_outcome(r: Option<MoveStep>, curr: Seq<char>, gx: int, gy: int, ms: Seq<MonitorLayoutView>) -> bool {
    if exists|i: int| 0 <= i < ms.len() && #[trigger] ms[i].host == curr {
        match r {
            Some(step) => {
                &&& step.decision matches MoveDecision::Clamped { target }
                &&& exists|k: int| #[trigger] is_first_nearest(ms, curr, gx, gy, k) && target@ == ms[k]
                &&& step.global.0 == clamp_int(gx, target@.x as int, target@.x + target@.width - 1)
                &&& step.global.1 == clamp_int(gy, target@.y as int, target@.y + target@.height - 1)
            },
            None => exists|k: int| #[trigger] is_first_nearest(ms, curr, gx, gy, k) && !(ms[k].width >= 1
                && ms[k].height >= 1 && fits_i32(ms[k].x + ms[k].width - 1) && fits_i32(ms[k].y + ms[k].height - 1)),
        }
    } else {
        &&& r matches Some(step)
        &&& step.decision is Stay
        &&& step.global.0 == gx
        &&& step.global.1 == gy
    }
}

fn move_onto(curr: &str, gx: i32, gy: i32, mon: &MonitorLayout) -> (r: Option<MoveStep>)
    ensures
        on_monitor_outcome(r, curr@, gx as int, gy as int, mon@),
{
    if is_main_host(mon.host.as_str()) {
        match return_warp(mon, gx, gy) {
            Some(w) => Some(MoveStep { decision: MoveDecision::ReturnToHost { warp: w }, global: (gx, gy) }),
            None => None,
        }
    } else if !str_eq(mon.host.as_str(), curr) {
        Some(MoveStep { decision: MoveDecision::SwitchClient { target: mon.copy() }, global: (gx, gy) })
    } else {
        Some(MoveStep { decision: MoveDecision::MoveWithin { target: mon.copy() }, global: (gx, gy) })
    }
}

fn hold_on_nearest(curr: &str, gx: i32, gy: i32, monitors: &[MonitorLayout]) -> (r: Option<MoveStep>)
    ensures
        off_monitor_outcome(r, curr@, gx as int, gy as int, monitors@.map_values(|m: MonitorLayout| m@)),
{
    let ghost ms = monitors@.map_values(|m: MonitorLayout| m@);
    match find_closest_client_monitor(gx, gy, curr, monitors) {
        Some(pm) => {
            proof {
                let k = choose|k: int| 0 <= k < monitors@.len() && pm@ == monitors@[k]@ && monitors@[k]@.host == curr@
                    && (forall|j: int| 0 <= j < monitors@.len() && #[trigger] monitors@[j]@.host == curr@
                        ==> distance2(monitors@[k]@, gx as int, gy as int) <= distance2(monitors@[j]@, gx as int, gy as int))
                    && (forall|j: int| 0 <= j < k && #[trigger] monitors@[j]@.host == curr@
                        ==> distance2(monitors@[k]@, gx as int, gy as int) < distance2(monitors@[j]@, gx as int, gy as int));
                assert(ms[k] == monitors@[k]@);
                assert forall|j: int| 0 <= j < ms.len() && #[trigger] ms[j].host == curr@ implies
                    distance2(pm@, gx as int, gy as int) <= distance2(ms[j], gx as int, gy as int) by {
                    assert(ms[j] == monitors@[j]@);
                }
                assert forall|j: int| 0 <= j < k && #[trigger] ms[j].host == curr@ implies
                    distance2(ms[k], gx as int, gy as int) < distance2(ms[j], gx as int, gy as int) by {
                    assert(ms[j] == monitors@[j]@);
                }
                assert(is_first_nearest(ms, curr@, gx as int, gy as int, k));
            }
            if pm.width >= 1 && pm.height >= 1 && (pm.x as i64 + pm.width as i64 - 1) <= i32::MAX as i64
                && (pm.y as i64 + pm.height as i64 - 1) <= i32::MAX as i64 {
                let c = crate::engine::layout::clamp_to_monitor(gx, gy, &pm);
                Some(MoveStep { decision: MoveDecision::Clamped { target: pm }, global: c })
            } else {
                None
            }
        },
        None => {
            proof {
                assert forall|i: int| 0 <= i < ms.len() implies ms[i].host != curr@ by {
                    assert(ms[i] == monitors@[i]@);
                }
            }
            Some(MoveStep { decision: MoveDecision::Stay, global: (gx, gy) })
        },
    }
}

/// What one redirected motion `(dx, dy)` from `global` may return while
/// client `curr` is controlled, over the workspace monitors `ms`.
pub open spec fn redirected_move_outcome(
    curr: Seq<char>,
    global: (i32, i32),
    dx: i32,
    dy: i32,
    ms: Seq<MonitorLayoutView>,
    r: Option<MoveStep>,
) -> bool {
    let gx = global.0 + dx;
    let gy = global.1 + dy;
    if !(fits_i32(gx) && fits_i32(gy)) {
        r is None
    } else {
        match first_containing(ms, gx, gy) {
            Some(i) => on_monitor_outcome(r, curr, gx, gy, ms[i]),
            None => off_monitor_outcome(r, curr, gx, gy, ms),
        }
    }
}

proof fn lemma_first_containing_is(ms: Seq<MonitorLayoutView>, gx: int, gy: int, i: int)
    requires
        0 <= i < ms.len(),
        layout_contains(ms[i], gx, gy),
        forall|j: int| 0 <= j < i ==> !layout_contains(#[trigger] ms[j], gx, gy),
    ensures
        first_containing(ms, gx, gy) == Some(i),
{
    let c = choose|c: int|
        0 <= c < ms.len() && layout_contains(ms[c], gx, gy) && forall|j: int|
            0 <= j < c ==> !layout_contains(#[trigger] ms[j], gx, gy);
    if c < i {
        assert(!layout_contains(ms[c], gx, gy));
    } else if c > i {
        assert(!layout_contains(ms[i], gx, gy));
    }
}

/// Where redirected motion lands decides what happens: on a server monitor
/// control returns to the server, on a monitor of the controlled client the
/// cursor moves within it; in both cases and on a switch the cursor is where
/// it landed. Off every monitor it is held on a monitor of the controlled
/// client, or stays where it is when that client has none.
pub proof fn lemma_landing_decides_the_move(
    curr: Seq<char>,
    global: (i32, i32),
    dx: i32,
    dy: i32,
    ms: Seq<MonitorLayoutView>,
    r: Option<MoveStep>,
    i: int,
)
    requires
        redirected_move_outcome(curr, global, dx, dy, ms, r),
    ensures
        ({
            let gx = global.0 + dx;
            let gy = global.1 + dy;
            &&& !(fits_i32(gx) && fits_i32(gy)) ==> r is None
            &&& (fits_i32(gx) && fits_i32(gy) && 0 <= i < ms.len() && layout_contains(ms[i], gx, gy) && (forall|
                j: int,
            | 0 <= j < i ==> !layout_contains(#[trigger] ms[j], gx, gy))) ==> {
                &&& ms[i].host == curr && curr != main_host() ==> (r matches Some(step) && (step.decision matches MoveDecision::MoveWithin { target } && target@ == ms[i]) && step.global.0 == gx && step.global.1 == gy)
                &&& ms[i].host == main_host() ==> (r matches Some(step) ==> (step.decision is ReturnToHost
                    && step.global.0 == gx && step.global.1 == gy))
            }
            &&& (fits_i32(gx) && fits_i32(gy) && forall|j: int| 0 <= j < ms.len() ==> !layout_contains(
                #[trigger] ms[j],
                gx,
                gy,
            )) ==> (r matches Some(step) ==> (step.decision is Stay || (step.decision matches MoveDecision::Clamped { target } && target@.host == curr)))
        }),
{
    let gx = global.0 + dx;
    let gy = global.1 + dy;
    if fits_i32(gx) && fits_i32(gy) && 0 <= i < ms.len() && layout_contains(ms[i], gx, gy) && (forall|j: int|
        0 <= j < i ==> !layout_contains(#[trigger] ms[j], gx, gy)) {
        lemma_first_containing_is(ms, gx, gy, i);
    }
    if fits_i32(gx) && fits_i32(gy) && forall|j: int| 0 <= j < ms.len() ==> !layout_contains(#[trigger] ms[j], gx, gy) {
        assert(first_containing(ms, gx, gy) is None);
        if let Some(step) = r {
            if let MoveDecision::Clamped { target } = step.decision {
                let k = choose|k: int| #[trigger] is_first_nearest(ms, curr, gx, gy, k) && target@ == ms[k];
            }
        }
    }
}

/// Crossing onto another client: when the moved cursor first lands on a
/// monitor whose host is neither the server nor the controlled client,
/// control switches to that monitor (and its host) with the cursor where it
/// landed; a move within is only ever onto a monitor of the controlled
/// client, and a switch only ever to another client.
pub proof fn lemma_crossing_to_another_client_switches(
    curr: Seq<char>,
    global: (i32, i32),
    dx: i32,
    dy: i32,
    ms: Seq<MonitorLayoutView>,
    r: Option<MoveStep>,
    i: int,
)
    requires
        redirected_move_outcome(curr, global, dx, dy, ms, r),
    ensures
        ({
            let gx = global.0 + dx;
            let gy = global.1 + dy;
            (fits_i32(gx) && fits_i32(gy) && 0 <= i < ms.len() && layout_contains(ms[i], gx, gy) && (forall|j: int|
                0 <= j < i ==> !layout_contains(#[trigger] ms[j], gx, gy)) && ms[i].host != main_host()
                && ms[i].host != curr) ==> {
                &&& r matches Some(step)
                &&& (step.decision matches MoveDecision::SwitchClient { target } && target@ == ms[i])
                &&& step.global.0 == gx && step.global.1 == gy
            }
        }),
        r matches Some(step) ==> (step.decision matches MoveDecision::MoveWithin { target } ==> target@.host
            == curr),
        r matches Some(step) ==> (step.decision matches MoveDecision::SwitchClient { target } ==> target@.host
            != curr && target@.host != main_host()),
{
    let gx = global.0 + dx;
    let gy = global.1 + dy;
    if fits_i32(gx) && fits_i32(gy) && 0 <= i < ms.len() && layout_contains(ms[i], gx, gy) && (forall|j: int|
        0 <= j < i ==> !layout_contains(#[trigger] ms[j], gx, gy)) {
        lemma_first_containing_is(ms, gx, gy, i);
    }
    if fits_i32(gx) && fits_i32(gy) {
        match first_containing(ms, gx, gy) {
            Some(k) => {
                let c = choose|c: int|
                    0 <= c < ms.len() && layout_contains(ms[c], gx, gy) && forall|j: int|
                        0 <= j < c ==> !layout_contains(#[trigger] ms[j], gx, gy);
                assert(k == c);
            },
            None => {},
        }
    }
}

/// Handles a relative motion `(dx, dy)` while client `curr` is controlled
/// and the virtual cursor is at `global`: onto a server monitor returns
/// control to the server, onto another client's monitor switches to that
/// client, and off every monitor holds the cursor on the first nearest
/// monitor of `curr`. `None` when a coordinate leaves the `i32` range, or
/// when that monitor is empty.
pub fn redirected_move_step(curr: &str, global: (i32, i32), dx: i32, dy: i32, monitors: &[MonitorLayout]) -> (r: Option<MoveStep>)
    ensures
        redirected_move_outcome(curr@, global, dx, dy, monitors@.map_values(|m: MonitorLayout| m@), r),
{
    let ghost ms = monitors@.map_values(|m: MonitorLayout| m@);
    let gx = match checked_i32(global.0 as i64 + dx as i64) {
        Some(v) => v,
        None => return None,
    };
    let gy = match checked_i32(global.1 as i64 + dy as i64) {
        Some(v) => v,
        None => return None,
    };
    match find_containing(gx, gy, monitors) {
        Some(i) => {
            assert(ms[i as int] == monitors@[i as int]@);
            move_onto(curr, gx, gy, &monitors[i])
        },
        None => hold_on_nearest(curr, gx, gy, monitors),
    }
}

/// Whether a monitor belongs to the server or to a fully connected peer.
pub open spec fn is_reachable(m: MonitorLayoutView, connected: Seq<Seq<char>>) -> bool {
    m.host == main_host() || connected.contains(m.host)
}

/// The monitors the tracker may move onto: the server's own and those of
/// fully connected peers, in their stored order.
pub fn reachable_layouts(layouts: &[MonitorLayout], connected: &[String]) -> (r: Vec<MonitorLayout>)
    ensures
        r@.map_values(|m: MonitorLayout| m@) == layouts@.map_values(|m: MonitorLayout| m@).filter(
            |m: MonitorLayoutView| is_reachable(m, connected@.map_values(|s: String| s@)),
        ),
{
    let ghost conn = connected@.map_values(|s: String| s@);
    let ghost pred = |m: MonitorLayoutView| is_reachable(m, conn);
    let ghost vs = layouts@.map_values(|m: MonitorLayout| m@);
    let mut r: Vec<MonitorLayout> = Vec::new();
    let mut i: usize = 0;
    while i < layouts.len()
        invariant
            i <= layouts@.len(),
            conn == connected@.map_values(|s: String| s@),
            pred == (|m: MonitorLayoutView| is_reachable(m, conn)),
            vs == layouts@.map_values(|m: MonitorLayout| m@),
            r@.map_values(|m: MonitorLayout| m@) == vs.take(i as int).filter(pred),
        decreases layouts.len() - i,
    {
        let m = &layouts[i];
        let mut keep = is_main_host(m.host.as_str());
        let mut j: usize = 0;
        while !keep && j < connected.len()
            invariant
                j <= connected@.len(),
                conn == connected@.map_values(|s: String| s@),
                keep ==> is_reachable(m@, conn),
                !keep ==> m@.host != main_host() && forall|t: int| 0 <= t < j ==> conn[t] != m@.host,
            decreases connected.len() - j,
        {
            if str_eq(connected[j].as_str(), m.host.as_str()) {
                keep = true;
                assert(conn[j as int] == m@.host);
            }
            j = j + 1;
        }
        proof {
            assert(vs.take(i as int + 1) =~= vs.take(i as int).push(m@));
            vs.take(i as int).lemma_filter_push(m@, pred);
            if !keep {
                assert(!conn.contains(m@.host));
            }
        }
        if keep {
            let ghost before = r@;
            r.push(m.copy());
            assert(r@.map_values(|x: MonitorLayout| x@) =~= before.map_values(|x: MonitorLayout| x@).push(m@));
        }
        i = i + 1;
    }
    assert(vs.take(layouts@.len() as int) =~= vs);
    r
}

} // verus!
