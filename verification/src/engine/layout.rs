//! Geometry of the shared workspace: projecting between a machine's local
//! coordinates and global coordinates, and finding monitors.
use vstd::prelude::*;
use crate::config::{MonitorLayout, MonitorLayoutView, main_host, is_main_host};
use crate::network::protocol::MonitorInfo;
use crate::text::str_eq;

verus! {

/// Whether the global point `(gx, gy)` lies on monitor `m`.
pub open spec fn layout_contains(m: MonitorLayoutView, gx: int, gy: int) -> bool {
    m.x <= gx < m.x + m.width && m.y <= gy < m.y + m.height
}

/// A client monitor holding the point: one whose host is not `main`.
pub open spec fn client_contains(m: MonitorLayoutView, gx: int, gy: int) -> bool {
    m.host != main_host() && layout_contains(m, gx, gy)
}

pub open spec fn fits_i32(v: int) -> bool {
    i32::MIN <= v <= i32::MAX
}

/// Projects a local server coordinate `(lx, ly)` on `active_mon` to global
/// workspace coordinates through that monitor's placement `db_mon`.
pub fn project_local_to_global(lx: i32, ly: i32, db_mon: &MonitorLayout, active_mon: &MonitorInfo) -> (r: (
    i32,
    i32,
))
    requires
        fits_i32(lx - active_mon.local_x),
        fits_i32(ly - active_mon.local_y),
        fits_i32(db_mon.x + (lx - active_mon.local_x)),
        fits_i32(db_mon.y + (ly - active_mon.local_y)),
    ensures
        r.0 == db_mon.x + (lx - active_mon.local_x),
        r.1 == db_mon.y + (ly - active_mon.local_y),
{
    let gx = db_mon.x + (lx - active_mon.local_x);
    let gy = db_mon.y + (ly - active_mon.local_y);
    (gx, gy)
}

pub open spec fn clamp_int(v: int, lo: int, hi: int) -> int {
    if v < lo {
        lo
    } else if v > hi {
        hi
    } else {
        v
    }
}

/// Snaps global coordinates `(gx, gy)` to the closest position within the
/// bounds of `monitor`.
pub fn clamp_to_monitor(gx: i32, gy: i32, monitor: &MonitorLayout) -> (r: (i32, i32))
    requires
        monitor.width >= 1,
        monitor.height >= 1,
        fits_i32(monitor.x + monitor.width - 1),
        fits_i32(monitor.y + monitor.height - 1),
    ensures
        r.0 == clamp_int(gx as int, monitor.x as int, monitor.x + monitor.width - 1),
        r.1 == clamp_int(gy as int, monitor.y as int, monitor.y + monitor.height - 1),
        layout_contains(monitor@, r.0 as int, r.1 as int),
{
    let x_hi = monitor.x + (monitor.width - 1);
    let y_hi = monitor.y + (monitor.height - 1);
    let cx = if gx < monitor.x {
        monitor.x
    } else if gx > x_hi {
        x_hi
    } else {
        gx
    };
    let cy = if gy < monitor.y {
        monitor.y
    } else if gy > y_hi {
        y_hi
    } else {
        gy
    };
    (cx, cy)
}

pub fn layout_contains_exec(m: &MonitorLayout, gx: i32, gy: i32) -> (r: bool)
    ensures
        r == layout_contains(m@, gx as int, gy as int),
{
    let x = m.x as i64;
    let y = m.y as i64;
    (gx as i64) >= x && (gx as i64) < x + m.width as i64 && (gy as i64) >= y && (gy as i64) < y
        + m.height as i64
}

/// Finds the first client monitor (host other than `main`) that contains
/// the global coordinate.
pub fn find_client_monitor_containing(gx: i32, gy: i32, layouts: &[MonitorLayout]) -> (r: Option<
    MonitorLayout,
>)
    ensures
        match r {
            Some(l) => exists|i: int|
                0 <= i < layouts@.len() && l@ == layouts@[i]@ && client_contains(layouts@[i]@, gx as int, gy as int)
                    && forall|j: int| 0 <= j < i ==> !client_contains(#[trigger] layouts@[j]@, gx as int, gy as int),
            None => forall|i: int| 0 <= i < layouts@.len() ==> !client_contains(#[trigger] layouts@[i]@, gx as int, gy as int),
        },
{
    let mut i: usize = 0;
    while i < layouts.len()
        invariant
            i <= layouts.len(),
            forall|j: int| 0 <= j < i ==> !client_contains(#[trigger] layouts@[j]@, gx as int, gy as int),
        decreases layouts.len() - i,
    {
        let lay = &layouts[i];
        if !is_main_host(lay.host.as_str()) && layout_contains_exec(lay, gx, gy) {
            let r = lay.copy();
            assert(client_contains(layouts@[i as int]@, gx as int, gy as int));
            return Some(r);
        }
        i = i + 1;
    }
    None
}

/// Squared distance from the point to the nearest point of `m`.
pub open spec fn distance2(m: MonitorLayoutView, gx: int, gy: int) -> int {
    let dx = crate::engine::layout::max3(m.x - gx, 0, gx - (m.x + m.width - 1));
    let dy = crate::engine::layout::max3(m.y - gy, 0, gy - (m.y + m.height - 1));
    dx * dx + dy * dy
}

pub open spec fn max3(a: int, b: int, c: int) -> int {
    let m = if a > b { a } else { b };
    if m > c { m } else { c }
}

fn distance2_exec(m: &MonitorLayout, gx: i32, gy: i32) -> (r: u128)
    ensures
        r == distance2(m@, gx as int, gy as int),
{
    let a = m.x as i64 - gx as i64;
    let c = gx as i64 - (m.x as i64 + m.width as i64 - 1);
    let mut dx: i64 = if a > 0 { a } else { 0 };
    if c > dx {
        dx = c;
    }
    let a2 = m.y as i64 - gy as i64;
    let c2 = gy as i64 - (m.y as i64 + m.height as i64 - 1);
    let mut dy: i64 = if a2 > 0 { a2 } else { 0 };
    if c2 > dy {
        dy = c2;
    }
    assert(0 <= dx < 0x1_0000_0000_0);
    assert(0 <= dy < 0x1_0000_0000_0);
    let ux = dx as u128;
    let uy = dy as u128;
    assert(ux * ux < 0x1_0000_0000_0000_0000_0000_0000) by (nonlinear_arith)
        requires
            ux < 0x1_0000_0000_0,
    ;
    assert(uy * uy < 0x1_0000_0000_0000_0000_0000_0000) by (nonlinear_arith)
        requires
            uy < 0x1_0000_0000_0,
    ;
    ux * ux + uy * uy
}

/// Of the monitors of `host`, the one nearest to the global point (the first
/// of equally near ones).
pub fn find_closest_client_monitor(gx: i32, gy: i32, host: &str, monitors: &[MonitorLayout]) -> (r: Option<
    MonitorLayout,
>)
    ensures
        match r {
            Some(l) => exists|i: int|
                0 <= i < monitors@.len() && l@ == monitors@[i]@ && monitors@[i]@.host == host@ && (forall|j: int|
                    0 <= j < monitors@.len() && #[trigger] monitors@[j]@.host == host@ ==> distance2(monitors@[i]@, gx as int, gy as int)
                        <= distance2(monitors@[j]@, gx as int, gy as int)) && (forall|j: int|
                    0 <= j < i && #[trigger] monitors@[j]@.host == host@ ==> distance2(monitors@[i]@, gx as int, gy as int)
                        < distance2(monitors@[j]@, gx as int, gy as int)),
            None => forall|i: int| 0 <= i < monitors@.len() ==> #[trigger] monitors@[i]@.host != host@,
        },
{
    let mut best: Option<usize> = None;
    let mut best_d: u128 = 0;
    let mut i: usize = 0;
    while i < monitors.len()
        invariant
            i <= monitors.len(),
            match best {
                None => forall|j: int| 0 <= j < i ==> #[trigger] monitors@[j]@.host != host@,
                Some(b) => b < i && monitors@[b as int]@.host == host@ && best_d == distance2(monitors@[b as int]@, gx as int, gy as int)
                    && (forall|j: int| 0 <= j < i && #[trigger] monitors@[j]@.host == host@ ==> best_d <= distance2(monitors@[j]@, gx as int, gy as int))
                    && (forall|j: int| 0 <= j < b && #[trigger] monitors@[j]@.host == host@ ==> best_d < distance2(monitors@[j]@, gx as int, gy as int)),
            },
        decreases monitors.len() - i,
    {
        let m = &monitors[i];
        if str_eq(m.host.as_str(), host) {
            let d = distance2_exec(m, gx, gy);
            match best {
                None => {
                    best = Some(i);
                    best_d = d;
                },
                Some(b) => {
                    if d < best_d {
                        best = Some(i);
                        best_d = d;
                    }
                },
            }
        }
        i = i + 1;
    }
    match best {
        None => None,
        Some(b) => Some(monitors[b].copy()),
    }
}

} // verus!
