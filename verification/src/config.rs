//! Persistent settings and screen arrangement records.
use vstd::prelude::*;
use crate::text::copy_string;

verus! {

/// `pc` value of a machine that owns the keyboard and mouse.
pub const PC_SERVER: i32 = 1;
/// `pc` value of a machine that is controlled remotely.
pub const PC_CLIENT: i32 = 0;
pub const ENCRYPTION_ON: i32 = 1;
pub const ENCRYPTION_OFF: i32 = 0;

/// The user's settings: server address, password, role and encryption flag.
#[derive(Debug, Clone)]
pub struct SettingsData {
    pub ip: String,
    pub password: String,
    pub pc: i32,
    pub encryption: i32,
}

/// Which screens are attached to each side of a screen.
#[derive(Debug, Clone)]
pub struct ScreenAttachments {
    pub address: String,
    pub top: Option<String>,
    pub right: Option<String>,
    pub bottom: Option<String>,
    pub left: Option<String>,
}

/// The settings used when none are stored: an unconfigured server without encryption.
pub fn default_settings() -> (r: SettingsData)
    ensures
        r.ip@.len() == 0,
        r.password@.len() == 0,
        r.pc == PC_SERVER,
        r.encryption == ENCRYPTION_OFF,
{
    SettingsData { ip: String::new(), password: String::new(), pc: PC_SERVER, encryption: ENCRYPTION_OFF }
}

/// A monitor placed in the shared global workspace.
#[derive(Debug, Clone)]
pub struct MonitorLayout {
    pub monitor_id: String,
    /// `main` for the server's own monitors, otherwise the client's address.
    pub host: String,
    pub monitor_name: String,
    pub x: i32,
    pub y: i32,
    pub width: i32,
    pub height: i32,
    /// IEEE-754 bit pattern of the monitor's scale factor, carried through unchanged.
    pub scale_factor_bits: u64,
    pub local_x: i32,
    pub local_y: i32,
}

/// The plain content of a [`MonitorLayout`].
pub struct MonitorLayoutView {
    pub monitor_id: Seq<char>,
    pub host: Seq<char>,
    pub monitor_name: Seq<char>,
    pub x: i32,
    pub y: i32,
    pub width: i32,
    pub height: i32,
    pub scale_factor_bits: u64,
    pub local_x: i32,
    pub local_y: i32,
}

impl View for MonitorLayout {
    type V = MonitorLayoutView;

    open spec fn view(&self) -> MonitorLayoutView {
        MonitorLayoutView {
            monitor_id: self.monitor_id@,
            host: self.host@,
            monitor_name: self.monitor_name@,
            x: self.x,
            y: self.y,
            width: self.width,
            height: self.height,
            scale_factor_bits: self.scale_factor_bits,
            local_x: self.local_x,
            local_y: self.local_y,
        }
    }
}

impl MonitorLayout {
    /// A field-by-field copy.
    pub fn copy(&self) -> (r: MonitorLayout)
        ensures
            r@ == self@,
    {
        MonitorLayout {
            monitor_id: copy_string(&self.monitor_id),
            host: copy_string(&self.host),
            monitor_name: copy_string(&self.monitor_name),
            x: self.x,
            y: self.y,
            width: self.width,
            height: self.height,
            scale_factor_bits: self.scale_factor_bits,
            local_x: self.local_x,
            local_y: self.local_y,
        }
    }
}

/// The host name of the server's own monitors.
pub open spec fn main_host() -> Seq<char> {
    seq!['m', 'a', 'i', 'n']
}

/// Whether a host name is `main`.
pub fn is_main_host(host: &str) -> (r: bool)
    ensures
        r == (host@ == main_host()),
{
    let c = crate::text::chars_of(host);
    let r = c.len() == 4 && c[0] == 'm' && c[1] == 'a' && c[2] == 'i' && c[3] == 'n';
    assert(r ==> c@ =~= main_host());
    proof {
        if c@ == main_host() {
            assert(c@[0] == 'm' && c@[1] == 'a' && c@[2] == 'i' && c@[3] == 'n');
        }
    }
    r
}

} // verus!
