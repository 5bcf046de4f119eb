//! The peer and input-control state machine: which peers are connected,
//! which one (if any) receives the local keyboard and mouse, and the
//! invariants that keep redirection safe.
use vstd::prelude::*;
use crate::config::MonitorLayout;
use crate::crypto::UdpCryptor;
use crate::network::protocol::{ScreenMetrics, ScreenMetricsView};
use crate::text::{bool_text, chars_of, copy_string, copy_string_of_str, digits_of, digits_of_u64, push_bool_text, str_eq, string_of};

verus! {

/// A peer waiting for the user to trust (or not) its certificate.
pub struct PendingTrust {
    pub ip: String,
    pub fingerprint: String,
    /// The peer presented a fingerprint other than the one trusted before.
    pub is_mismatch: bool,
    /// The connection is still waiting for the user's answer.
    pub awaiting_answer: bool,
}

pub struct PendingTrustView {
    pub ip: Seq<char>,
    pub fingerprint: Seq<char>,
    pub is_mismatch: bool,
    pub awaiting_answer: bool,
}

impl View for PendingTrust {
    type V = PendingTrustView;

    open spec fn view(&self) -> PendingTrustView {
        PendingTrustView {
            ip: self.ip@,
            fingerprint: self.fingerprint@,
            is_mismatch: self.is_mismatch,
            awaiting_answer: self.awaiting_answer,
        }
    }
}

impl PendingTrust {
    pub fn copy(&self) -> (r: PendingTrust)
        ensures
            r@ == self@,
    {
        PendingTrust {
            ip: copy_string(&self.ip),
            fingerprint: copy_string(&self.fingerprint),
            is_mismatch: self.is_mismatch,
            awaiting_answer: self.awaiting_answer,
        }
    }
}

/// Where the connection with a peer stands.
pub enum PeerState {
    Connecting,
    PendingTrustApproval(PendingTrust),
    TlsEstablished,
    UdpHandshaking,
    /// TCP and the verified UDP channel are both up.
    FullyConnected { metrics: ScreenMetrics, udp_addr: String, cryptor: UdpCryptor, connection_id: u64 },
    Disconnected,
}

pub enum PeerStateView {
    Connecting,
    PendingTrustApproval(PendingTrustView),
    TlsEstablished,
    UdpHandshaking,
    /// `key` and `salt` are those of the session's cryptor.
    FullyConnected {
        metrics: ScreenMetricsView,
        udp_addr: Seq<char>,
        key: Seq<u8>,
        salt: Seq<u8>,
        connection_id: u64,
    },
    Disconnected,
}

impl View for PeerState {
    type V = PeerStateView;

    open spec fn view(&self) -> PeerStateView {
        match self {
            PeerState::Connecting => PeerStateView::Connecting,
            PeerState::PendingTrustApproval(p) => PeerStateView::PendingTrustApproval(p@),
            PeerState::TlsEstablished => PeerStateView::TlsEstablished,
            PeerState::UdpHandshaking => PeerStateView::UdpHandshaking,
            PeerState::FullyConnected { metrics, udp_addr, cryptor, connection_id } => PeerStateView::FullyConnected {
                metrics: metrics@,
                udp_addr: udp_addr@,
                key: cryptor.key(),
                salt: cryptor.salt(),
                connection_id: *connection_id,
            },
            PeerState::Disconnected => PeerStateView::Disconnected,
        }
    }
}

impl PeerState {
    pub fn copy(&self) -> (r: PeerState)
        ensures
            r@ == self@,
    {
        match self {
            PeerState::Connecting => PeerState::Connecting,
            PeerState::PendingTrustApproval(p) => PeerState::PendingTrustApproval(p.copy()),
            PeerState::TlsEstablished => PeerState::TlsEstablished,
            PeerState::UdpHandshaking => PeerState::UdpHandshaking,
            PeerState::FullyConnected { metrics, udp_addr, cryptor, connection_id } => PeerState::FullyConnected {
                metrics: metrics.copy(),
                udp_addr: copy_string(udp_addr),
                cryptor: cryptor.copy(),
                connection_id: *connection_id,
            },
            PeerState::Disconnected => PeerState::Disconnected,
        }
    }

    /// How the state reads in logs.
    pub fn describe(&self) -> (r: String)
        ensures
            r@ == peer_state_text(self@),
    {
        match self {
            PeerState::Connecting => copy_string_of_str("Connecting"),
            PeerState::PendingTrustApproval(p) => {
                let mut v = chars_of("PendingTrustApproval(ip=");
                v.extend_from_slice(chars_of(p.ip.as_str()).as_slice());
                v.extend_from_slice(chars_of(", mismatch=").as_slice());
                push_bool_text(&mut v, p.is_mismatch);
                v.push(')');
                string_of(v.as_slice())
            },
            PeerState::TlsEstablished => copy_string_of_str("TlsEstablished"),
            PeerState::UdpHandshaking => copy_string_of_str("UdpHandshaking"),
            PeerState::FullyConnected { udp_addr, connection_id, .. } => {
                let mut v = chars_of("FullyConnected(udp=");
                v.extend_from_slice(chars_of(udp_addr.as_str()).as_slice());
                v.extend_from_slice(chars_of(", conn_id=").as_slice());
                v.extend_from_slice(digits_of_u64(*connection_id).as_slice());
                v.push(')');
                string_of(v.as_slice())
            },
            PeerState::Disconnected => copy_string_of_str("Disconnected"),
        }
    }

    pub fn is_fully_connected(&self) -> (r: bool)
        ensures
            r == (self@ is FullyConnected),
    {
        match self {
            PeerState::FullyConnected { .. } => true,
            _ => false,
        }
    }
}

/// How a peer state reads in logs.
pub open spec fn peer_state_text(v: PeerStateView) -> Seq<char> {
    match v {
        PeerStateView::Connecting => "Connecting"@,
        PeerStateView::PendingTrustApproval(p) => "PendingTrustApproval(ip="@ + p.ip + ", mismatch="@ + bool_text(
            p.is_mismatch,
        ) + seq![')'],
        PeerStateView::TlsEstablished => "TlsEstablished"@,
        PeerStateView::UdpHandshaking => "UdpHandshaking"@,
        PeerStateView::FullyConnected { udp_addr, connection_id, .. } => "FullyConnected(udp="@ + udp_addr
            + ", conn_id="@ + digits_of(connection_id as nat) + seq![')'],
        PeerStateView::Disconnected => "Disconnected"@,
    }
}

/// Who receives the local keyboard and mouse.
#[derive(Debug)]
pub enum InputControlState {
    Local,
    Redirected { target_ip: String, return_pos: (i32, i32) },
}

pub enum InputView {
    Local,
    Redirected { target_ip: Seq<char>, return_pos: (i32, i32) },
}

impl View for InputControlState {
    type V = InputView;

    open spec fn view(&self) -> InputView {
        match self {
            InputControlState::Local => InputView::Local,
            InputControlState::Redirected { target_ip, return_pos } => InputView::Redirected {
                target_ip: target_ip@,
                return_pos: *return_pos,
            },
        }
    }
}

impl InputControlState {
    pub fn copy(&self) -> (r: InputControlState)
        ensures
            r@ == self@,
    {
        match self {
            InputControlState::Local => InputControlState::Local,
            InputControlState::Redirected { target_ip, return_pos } => InputControlState::Redirected {
                target_ip: copy_string(target_ip),
                return_pos: *return_pos,
            },
        }
    }
}

/// Whether input is redirected to `ip`.
pub open spec fn redirected_to(input: InputView, ip: Seq<char>) -> bool {
    input matches InputView::Redirected { target_ip, .. } && target_ip == ip
}

/// The peers, their connection states, who controls input, the active
/// monitor layouts and a version number that changes with the topology.
pub struct StateManager {
    peers: Vec<(String, PeerState)>,
    input_state: InputControlState,
    active_monitors: Vec<MonitorLayout>,
    topology_version: u64,
    redirecting: bool,
    emergency_release_requested: bool,
}

impl StateManager {
    /// The state of each known peer, by address.
    pub closed spec fn peers(&self) -> Map<Seq<char>, PeerStateView> {
        Map::new(
            |k: Seq<char>| exists|i: int| 0 <= i < self.peers@.len() && self.peers@[i].0@ == k,
            |k: Seq<char>|
                self.peers@[choose|i: int| 0 <= i < self.peers@.len() && self.peers@[i].0@ == k].1@,
        )
    }

    /// The addresses of the known peers, in the order they first appeared.
    pub closed spec fn peer_order(&self) -> Seq<Seq<char>> {
        self.peers@.map_values(|e: (String, PeerState)| e.0@)
    }

    pub closed spec fn input(&self) -> InputView {
        self.input_state@
    }

    pub closed spec fn version(&self) -> u64 {
        self.topology_version
    }

    /// Whether local input is being captured and redirected.
    pub closed spec fn is_redirecting(&self) -> bool {
        self.redirecting
    }

    /// Whether an emergency release is waiting to be noticed by the tracker.
    pub closed spec fn release_requested(&self) -> bool {
        self.emergency_release_requested
    }

    pub closed spec fn monitors(&self) -> Seq<MonitorLayout> {
        self.active_monitors@
    }

    /// Addresses are unique, and input is captured exactly while it is
    /// redirected to some peer.
    pub closed spec fn wf(&self) -> bool {
        &&& forall|i: int, j: int|
            0 <= i < self.peers@.len() && 0 <= j < self.peers@.len() && i != j ==> #[trigger] self.peers@[i].0@
                != #[trigger] self.peers@[j].0@
        &&& self.redirecting == (self.input_state@ is Redirected)
    }

    proof fn lemma_lookup(&self, i: int)
        requires
            self.wf(),
            0 <= i < self.peers@.len(),
        ensures
            self.peers().contains_key(self.peers@[i].0@),
            self.peers()[self.peers@[i].0@] == self.peers@[i].1@,
    {
        let k = self.peers@[i].0@;
        assert(exists|j: int| 0 <= j < self.peers@.len() && self.peers@[j].0@ == k);
        let c = choose|j: int| 0 <= j < self.peers@.len() && self.peers@[j].0@ == k;
        if c != i {
            assert(self.peers@[c].0@ != self.peers@[i].0@);
        }
    }

    proof fn lemma_order(&self)
        ensures
            self.peer_order().len() == self.peers@.len(),
            forall|i: int| 0 <= i < self.peers@.len() ==> #[trigger] self.peer_order()[i] == self.peers@[i].0@,
    {
    }

    /// An empty state: no peers, input local, version 1.
    pub fn new() -> (r: Self)
        ensures
            r.wf(),
            r.peers() == Map::<Seq<char>, PeerStateView>::empty(),
            r.input() == InputView::Local,
            r.version() == 1,
            !r.is_redirecting(),
            !r.release_requested(),
            r.monitors().len() == 0,
    {
        let r = StateManager {
            peers: Vec::new(),
            input_state: InputControlState::Local,
            active_monitors: Vec::new(),
            topology_version: 1,
            redirecting: false,
            emergency_release_requested: false,
        };
        assert(r.peers() =~= Map::<Seq<char>, PeerStateView>::empty());
        r
    }

    fn find(&self, ip: &str) -> (r: Option<usize>)
        requires
            self.wf(),
        ensures
            match r {
                Some(i) => i < self.peers@.len() && self.peers@[i as int].0@ == ip@,
                None => !self.peers().contains_key(ip@),
            },
    {
        let mut i: usize = 0;
        while i < self.peers.len()
            invariant
                i <= self.peers@.len(),
                forall|j: int| 0 <= j < i ==> self.peers@[j].0@ != ip@,
            decreases self.peers.len() - i,
        {
            if str_eq(self.peers[i].0.as_str(), ip) {
                return Some(i);
            }
            i = i + 1;
        }
        None
    }

    pub fn topology_version(&self) -> (r: u64)
        ensures
            r == self.version(),
    {
        self.topology_version
    }

    /// Marks the topology as changed.
    pub fn notify_topology_changed(&mut self)
        requires
            old(self).wf(),
        ensures
            final(self).wf(),
            final(self).version() == old(self).version().wrapping_add(1),
            final(self).peers() == old(self).peers(),
            final(self).peer_order() == old(self).peer_order(),
            final(self).input() == old(self).input(),
            final(self).is_redirecting() == old(self).is_redirecting(),
            final(self).release_requested() == old(self).release_requested(),
            final(self).monitors() == old(self).monitors(),
    {
        self.topology_version = self.topology_version.wrapping_add(1);
    }

    /// The state of peer `ip`, if known.
    pub fn get_peer_state(&self, ip: &str) -> (r: Option<PeerState>)
        requires
            self.wf(),
        ensures
            match r {
                Some(s) => self.peers().contains_key(ip@) && self.peers()[ip@] == s@,
                None => !self.peers().contains_key(ip@),
            },
    {
        match self.find(ip) {
            Some(i) => {
                proof {
                    self.lemma_lookup(i as int);
                }
                Some(self.peers[i].1.copy())
            },
            None => None,
        }
    }

    /// Whether peer `ip` is fully connected.
    pub fn is_peer_fully_connected(&self, ip: &str) -> (r: bool)
        requires
            self.wf(),
        ensures
            r == (self.peers().contains_key(ip@) && self.peers()[ip@] is FullyConnected),
    {
        match self.find(ip) {
            Some(i) => {
                proof {
                    self.lemma_lookup(i as int);
                }
                self.peers[i].1.is_fully_connected()
            },
            None => false,
        }
    }

    /// Records the new state of peer `ip` and bumps the topology version.
    /// A peer that disconnects while it receives the redirected input causes
    /// an emergency release; the result tells whether one happened.
    pub fn set_peer_state(&mut self, ip: &str, new_state: PeerState) -> (released: bool)
        requires
            old(self).wf(),
        ensures
            final(self).wf(),
            final(self).peers() == old(self).peers().insert(ip@, new_state@),
            final(self).version() == old(self).version().wrapping_add(1),
            released == (new_state@ is Disconnected && redirected_to(old(self).input(), ip@)),
            released ==> final(self).input() == InputView::Local && final(self).release_requested()
                && !final(self).is_redirecting(),
            !released ==> final(self).input() == old(self).input() && final(self).release_requested()
                == old(self).release_requested() && final(self).is_redirecting() == old(self).is_redirecting(),
            final(self).monitors() == old(self).monitors(),
    {
        let is_disconnect = match &new_state {
            PeerState::Disconnected => true,
            _ => false,
        };
        self.put_peer(ip, new_state);
        self.topology_version = self.topology_version.wrapping_add(1);
        if is_disconnect && self.is_redirected_to(ip) {
            self.emergency_release();
            true
        } else {
            false
        }
    }

    fn put_peer(&mut self, ip: &str, new_state: PeerState)
        requires
            old(self).wf(),
        ensures
            final(self).wf(),
            final(self).peers() == old(self).peers().insert(ip@, new_state@),
            final(self).input() == old(self).input(),
            final(self).version() == old(self).version(),
            final(self).release_requested() == old(self).release_requested(),
            final(self).is_redirecting() == old(self).is_redirecting(),
            final(self).monitors() == old(self).monitors(),
            old(self).peers().contains_key(ip@) ==> final(self).peer_order() == old(self).peer_order(),
            !old(self).peers().contains_key(ip@) ==> final(self).peer_order() == old(self).peer_order().push(ip@),
    {
        match self.find(ip) {
            Some(i) => {
                let key = copy_string(&self.peers[i].0);
                let ghost old_peers = self.peers@;
                self.peers.set(i, (key, new_state));
                assert(self.peer_order() =~= old(self).peer_order());
                proof {
                    assert forall|a: int, b: int|
                        0 <= a < self.peers@.len() && 0 <= b < self.peers@.len() && a != b implies #[trigger] self.peers@[a].0@
                            != #[trigger] self.peers@[b].0@ by {
                        assert(old_peers[a].0@ != old_peers[b].0@);
                    }
                    assert forall|k: Seq<char>| #[trigger] self.peers().contains_key(k) == old(self).peers().insert(ip@, new_state@).contains_key(k) by {
                        if exists|j: int| 0 <= j < old_peers.len() && old_peers[j].0@ == k {
                            let j = choose|j: int| 0 <= j < old_peers.len() && old_peers[j].0@ == k;
                            assert(self.peers@[j].0@ == k);
                        }
                        if exists|j: int| 0 <= j < self.peers@.len() && self.peers@[j].0@ == k {
                            let j = choose|j: int| 0 <= j < self.peers@.len() && self.peers@[j].0@ == k;
                            assert(old_peers[j].0@ == k);
                        }
                    }
                    assert forall|k: Seq<char>| self.peers().contains_key(k) implies #[trigger] self.peers()[k]
                        == old(self).peers().insert(ip@, new_state@)[k] by {
                        let j = choose|j: int| 0 <= j < self.peers@.len() && self.peers@[j].0@ == k;
                        self.lemma_lookup(j);
                        if j != i {
                            old(self).lemma_lookup(j);
                        }
                    }
                    assert(self.peers() =~= old(self).peers().insert(ip@, new_state@));
                }
            },
            None => {
                let ghost old_peers = self.peers@;
                self.peers.push((copy_string_of_str(ip), new_state));
                assert(self.peer_order() =~= old(self).peer_order().push(ip@));
                proof {
                    let n = old_peers.len() as int;
                    assert forall|a: int, b: int|
                        0 <= a < self.peers@.len() && 0 <= b < self.peers@.len() && a != b implies #[trigger] self.peers@[a].0@
                            != #[trigger] self.peers@[b].0@ by {
                        if a < n && b < n {
                            assert(old_peers[a].0@ != old_peers[b].0@);
                        } else if a == n {
                            assert(old_peers[b].0@ != ip@);
                        } else {
                            assert(old_peers[a].0@ != ip@);
                        }
                    }
                    assert forall|k: Seq<char>| #[trigger] self.peers().contains_key(k) == old(self).peers().insert(ip@, new_state@).contains_key(k) by {
                        if exists|j: int| 0 <= j < old_peers.len() && old_peers[j].0@ == k {
                            let j = choose|j: int| 0 <= j < old_peers.len() && old_peers[j].0@ == k;
                            assert(self.peers@[j].0@ == k);
                        }
                        if k == ip@ {
                            assert(self.peers@[n].0@ == k);
                        }
                    }
                    assert forall|k: Seq<char>| self.peers().contains_key(k) implies #[trigger] self.peers()[k]
                        == old(self).peers().insert(ip@, new_state@)[k] by {
                        let j = choose|j: int| 0 <= j < self.peers@.len() && self.peers@[j].0@ == k;
                        self.lemma_lookup(j);
                        if j < n {
                            old(self).lemma_lookup(j);
                        }
                    }
                    assert(self.peers() =~= old(self).peers().insert(ip@, new_state@));
                }
            },
        }
    }

    fn is_redirected_to(&self, ip: &str) -> (r: bool)
        ensures
            r == redirected_to(self.input(), ip@),
    {
        match &self.input_state {
            InputControlState::Redirected { target_ip, .. } => str_eq(target_ip.as_str(), ip),
            _ => false,
        }
    }

    /// Returns control to the local machine because something went wrong:
    /// input becomes local, capture stops, and the tracker is told to stop
    /// the client. Returns the peer that had control, if any.
    pub fn emergency_release(&mut self) -> (r: Option<String>)
        requires
            old(self).wf(),
        ensures
            final(self).wf(),
            final(self).input() == InputView::Local,
            !final(self).is_redirecting(),
            final(self).release_requested(),
            match old(self).input() {
                InputView::Redirected { target_ip, .. } => r is Some && r->Some_0@ == target_ip,
                InputView::Local => r is None,
            },
            final(self).peers() == old(self).peers(),
            final(self).peer_order() == old(self).peer_order(),
            final(self).version() == old(self).version(),
            final(self).monitors() == old(self).monitors(),
    {
        let prev = match &self.input_state {
            InputControlState::Redirected { target_ip, .. } => Some(copy_string(target_ip)),
            InputControlState::Local => None,
        };
        self.input_state = InputControlState::Local;
        self.redirecting = false;
        self.emergency_release_requested = true;
        prev
    }

    /// Consumes a pending emergency release request, reporting whether there was one.
    pub fn take_release_request(&mut self) -> (r: bool)
        requires
            old(self).wf(),
        ensures
            final(self).wf(),
            r == old(self).release_requested(),
            !final(self).release_requested(),
            final(self).peers() == old(self).peers(),
            final(self).peer_order() == old(self).peer_order(),
            final(self).input() == old(self).input(),
            final(self).version() == old(self).version(),
            final(self).monitors() == old(self).monitors(),
    {
        let r = self.emergency_release_requested;
        self.emergency_release_requested = false;
        r
    }

    /// Who receives the local input.
    pub fn get_input_state(&self) -> (r: InputControlState)
        ensures
            r@ == self.input(),
    {
        self.input_state.copy()
    }

    /// Redirects input to `target_ip`, entering at global `enter_pos`. Only a
    /// fully connected peer can receive input; otherwise nothing changes.
    pub fn request_transition(&mut self, target_ip: &str, enter_pos: (i32, i32)) -> (r: bool)
        requires
            old(self).wf(),
        ensures
            final(self).wf(),
            r == (old(self).peers().contains_key(target_ip@) && old(self).peers()[target_ip@] is FullyConnected),
            r ==> final(self).input() == (InputView::Redirected { target_ip: target_ip@, return_pos: enter_pos })
                && final(self).is_redirecting(),
            !r ==> final(self).input() == old(self).input() && final(self).is_redirecting() == old(self).is_redirecting(),
            final(self).peers() == old(self).peers(),
            final(self).peer_order() == old(self).peer_order(),
            final(self).version() == old(self).version(),
            final(self).release_requested() == old(self).release_requested(),
            final(self).monitors() == old(self).monitors(),
    {
        if !self.is_peer_fully_connected(target_ip) {
            return false;
        }
        self.input_state = InputControlState::Redirected { target_ip: copy_string_of_str(target_ip), return_pos: enter_pos };
        self.redirecting = true;
        true
    }

    /// Returns control to the local machine.
    pub fn transition_to_local(&mut self)
        requires
            old(self).wf(),
        ensures
            final(self).wf(),
            final(self).input() == InputView::Local,
            !final(self).is_redirecting(),
            final(self).peers() == old(self).peers(),
            final(self).peer_order() == old(self).peer_order(),
            final(self).version() == old(self).version(),
            final(self).release_requested() == old(self).release_requested(),
            final(self).monitors() == old(self).monitors(),
    {
        self.input_state = InputControlState::Local;
        self.redirecting = false;
    }

    /// Replaces the active monitor layouts and bumps the topology version.
    pub fn update_active_monitors(&mut self, layouts: Vec<MonitorLayout>)
        requires
            old(self).wf(),
        ensures
            final(self).wf(),
            final(self).monitors() == layouts@,
            final(self).version() == old(self).version().wrapping_add(1),
            final(self).peers() == old(self).peers(),
            final(self).peer_order() == old(self).peer_order(),
            final(self).input() == old(self).input(),
            final(self).is_redirecting() == old(self).is_redirecting(),
            final(self).release_requested() == old(self).release_requested(),
    {
        self.active_monitors = layouts;
        self.topology_version = self.topology_version.wrapping_add(1);
    }

    /// The addresses of the fully connected peers, in the order they first appeared.
    pub open spec fn fully_connected_peers(&self) -> Seq<Seq<char>> {
        self.peer_order().filter_map(connected_entry(self.peers()))
    }

    /// The open trust requests, in the order their peers first appeared.
    pub open spec fn pending_trusts(&self) -> Seq<PendingTrustView> {
        self.peer_order().filter_map(pending_entry(self.peers()))
    }

    /// Forgets peer `ip` and bumps the topology version. Removing the peer
    /// that receives the redirected input causes an emergency release; the
    /// result tells whether one happened.
    pub fn remove_peer(&mut self, ip: &str) -> (released: bool)
        requires
            old(self).wf(),
        ensures
            final(self).wf(),
            final(self).peers() == old(self).peers().remove(ip@),
            old(self).peers().contains_key(ip@) ==> exists|i: int|
                0 <= i < old(self).peer_order().len() && old(self).peer_order()[i] == ip@ && final(self).peer_order()
                    == old(self).peer_order().remove(i),
            !old(self).peers().contains_key(ip@) ==> final(self).peer_order() == old(self).peer_order(),
            final(self).version() == old(self).version().wrapping_add(1),
            released == redirected_to(old(self).input(), ip@),
            released ==> final(self).input() == InputView::Local && final(self).release_requested()
                && !final(self).is_redirecting(),
            !released ==> final(self).input() == old(self).input() && final(self).release_requested()
                == old(self).release_requested() && final(self).is_redirecting() == old(self).is_redirecting(),
            final(self).monitors() == old(self).monitors(),
    {
        match self.find(ip) {
            Some(i) => {
                let ghost old_peers = self.peers@;
                self.peers.remove(i);
                proof {
                    let ii = i as int;
                    assert forall|a: int, b: int|
                        0 <= a < self.peers@.len() && 0 <= b < self.peers@.len() && a != b implies #[trigger] self.peers@[a].0@
                            != #[trigger] self.peers@[b].0@ by {
                        let oa = if a < ii { a } else { a + 1 };
                        let ob = if b < ii { b } else { b + 1 };
                        assert(self.peers@[a] == old_peers[oa]);
                        assert(self.peers@[b] == old_peers[ob]);
                        assert(old_peers[oa].0@ != old_peers[ob].0@);
                    }
                    assert forall|k: Seq<char>| #[trigger] self.peers().contains_key(k) == old(self).peers().remove(ip@).contains_key(k) by {
                        if exists|j: int| 0 <= j < old_peers.len() && old_peers[j].0@ == k {
                            let j = choose|j: int| 0 <= j < old_peers.len() && old_peers[j].0@ == k;
                            if j < ii {
                                assert(self.peers@[j] == old_peers[j]);
                            } else if j > ii {
                                assert(self.peers@[j - 1] == old_peers[j]);
                            }
                        }
                        if exists|j: int| 0 <= j < self.peers@.len() && self.peers@[j].0@ == k {
                            let j = choose|j: int| 0 <= j < self.peers@.len() && self.peers@[j].0@ == k;
                            let oj = if j < ii { j } else { j + 1 };
                            assert(self.peers@[j] == old_peers[oj]);
                            assert(old_peers[oj].0@ != old_peers[ii].0@);
                        }
                    }
                    assert forall|k: Seq<char>| self.peers().contains_key(k) implies #[trigger] self.peers()[k]
                        == old(self).peers().remove(ip@)[k] by {
                        let j = choose|j: int| 0 <= j < self.peers@.len() && self.peers@[j].0@ == k;
                        let oj = if j < ii { j } else { j + 1 };
                        assert(self.peers@[j] == old_peers[oj]);
                        self.lemma_lookup(j);
                        old(self).lemma_lookup(oj);
                    }
                    assert(self.peers() =~= old(self).peers().remove(ip@));
                    assert(self.peer_order() =~= old(self).peer_order().remove(ii));
                    assert(old(self).peer_order()[ii] == ip@);
                }
            },
            None => {
                assert(self.peers() =~= old(self).peers().remove(ip@));
            },
        }
        self.topology_version = self.topology_version.wrapping_add(1);
        if self.is_redirected_to(ip) {
            self.emergency_release();
            true
        } else {
            false
        }
    }

    /// The addresses of the fully connected peers.
    pub fn get_fully_connected_peers(&self) -> (r: Vec<String>)
        requires
            self.wf(),
        ensures
            r@.len() == self.fully_connected_peers().len(),
            forall|i: int| 0 <= i < r@.len() ==> #[trigger] r@[i]@ == self.fully_connected_peers()[i],
    {
        let mut r: Vec<String> = Vec::new();
        let mut i: usize = 0;
        let ghost f = connected_entry(self.peers());
        while i < self.peers.len()
            invariant
                self.wf(),
                f == connected_entry(self.peers()),
                i <= self.peers@.len(),
                r@.len() == self.peer_order().take(i as int).filter_map(f).len(),
                forall|j: int| 0 <= j < r@.len() ==> #[trigger] r@[j]@ == self.peer_order().take(i as int).filter_map(f)[j],
            decreases self.peers.len() - i,
        {
            proof {
                self.lemma_order();
                self.lemma_lookup(i as int);
                self.peer_order().lemma_filter_map_take_succ(f, i as int);
            }
            if self.peers[i].1.is_fully_connected() {
                r.push(copy_string(&self.peers[i].0));
            }
            i = i + 1;
        }
        proof {
            self.lemma_order();
            assert(self.peer_order().take(self.peers@.len() as int) =~= self.peer_order());
        }
        r
    }

    /// Whether some peer is fully connected.
    pub fn has_any_connected_peer(&self) -> (r: bool)
        requires
            self.wf(),
        ensures
            r == exists|k: Seq<char>| #[trigger] self.peers().contains_key(k) && self.peers()[k] is FullyConnected,
    {
        let mut i: usize = 0;
        while i < self.peers.len()
            invariant
                self.wf(),
                i <= self.peers@.len(),
                forall|j: int| 0 <= j < i ==> !(#[trigger] self.peers@[j].1@ is FullyConnected),
            decreases self.peers.len() - i,
        {
            if self.peers[i].1.is_fully_connected() {
                proof {
                    self.lemma_lookup(i as int);
                }
                return true;
            }
            i = i + 1;
        }
        proof {
            assert forall|k: Seq<char>| #[trigger] self.peers().contains_key(k) implies !(self.peers()[k] is FullyConnected) by {
                let j = choose|j: int| 0 <= j < self.peers@.len() && self.peers@[j].0@ == k;
                self.lemma_lookup(j);
            }
        }
        false
    }

    /// The open trust requests.
    pub fn get_pending_trusts(&self) -> (r: Vec<PendingTrust>)
        requires
            self.wf(),
        ensures
            r@.len() == self.pending_trusts().len(),
            forall|i: int| 0 <= i < r@.len() ==> #[trigger] r@[i]@ == self.pending_trusts()[i],
    {
        let mut r: Vec<PendingTrust> = Vec::new();
        let mut i: usize = 0;
        let ghost f = pending_entry(self.peers());
        while i < self.peers.len()
            invariant
                self.wf(),
                f == pending_entry(self.peers()),
                i <= self.peers@.len(),
                r@.len() == self.peer_order().take(i as int).filter_map(f).len(),
                forall|j: int| 0 <= j < r@.len() ==> #[trigger] r@[j]@ == self.peer_order().take(i as int).filter_map(f)[j],
            decreases self.peers.len() - i,
        {
            proof {
                self.lemma_order();
                self.lemma_lookup(i as int);
                self.peer_order().lemma_filter_map_take_succ(f, i as int);
            }
            match &self.peers[i].1 {
                PeerState::PendingTrustApproval(req) => {
                    r.push(req.copy());
                },
                _ => {},
            }
            i = i + 1;
        }
        proof {
            self.lemma_order();
            assert(self.peer_order().take(self.peers@.len() as int) =~= self.peer_order());
        }
        r
    }

    /// The open trust request of `ip`, if its answer is still awaited.
    fn awaited_request(&self, ip: &str) -> (r: Option<PendingTrust>)
        requires
            self.wf(),
        ensures
            r is Some == awaits_trust_answer(self.peers(), ip@),
            r matches Some(p) ==> self.peers()[ip@] == PeerStateView::PendingTrustApproval(p@),
    {
        match self.find(ip) {
            Some(i) => {
                proof {
                    self.lemma_lookup(i as int);
                }
                match &self.peers[i].1 {
                    PeerState::PendingTrustApproval(req) => {
                        if req.awaiting_answer {
                            Some(req.copy())
                        } else {
                            None
                        }
                    },
                    _ => None,
                }
            },
            None => None,
        }
    }

    /// The user trusts peer `ip`. When its connection waits for that answer,
    /// the answer is handed over (the result is `true`) and the request is
    /// marked as answered; the peer's state is otherwise left to the connection.
    pub fn approve_trust(&mut self, ip: &str) -> (r: bool)
        requires
            old(self).wf(),
        ensures
            final(self).wf(),
            r == awaits_trust_answer(old(self).peers(), ip@),
            final(self).peers() == answered(old(self).peers(), ip@),
            final(self).input() == old(self).input(),
            final(self).is_redirecting() == old(self).is_redirecting(),
            final(self).version() == old(self).version(),
            final(self).release_requested() == old(self).release_requested(),
            final(self).monitors() == old(self).monitors(),
    {
        match self.awaited_request(ip) {
            Some(req) => {
                let done = PendingTrust {
                    ip: req.ip,
                    fingerprint: req.fingerprint,
                    is_mismatch: req.is_mismatch,
                    awaiting_answer: false,
                };
                self.put_peer(ip, PeerState::PendingTrustApproval(done));
                true
            },
            None => false,
        }
    }

    /// The user does not trust peer `ip`. When its connection waits for that
    /// answer, the refusal is handed over (the result is `true`); either way
    /// the peer is marked disconnected.
    pub fn reject_trust(&mut self, ip: &str) -> (r: bool)
        requires
            old(self).wf(),
        ensures
            final(self).wf(),
            r == awaits_trust_answer(old(self).peers(), ip@),
            final(self).peers() == old(self).peers().insert(ip@, PeerStateView::Disconnected),
            final(self).input() == old(self).input(),
            final(self).is_redirecting() == old(self).is_redirecting(),
            final(self).version() == old(self).version(),
            final(self).release_requested() == old(self).release_requested(),
            final(self).monitors() == old(self).monitors(),
    {
        let r = self.awaited_request(ip).is_some();
        self.put_peer(ip, PeerState::Disconnected);
        r
    }

    /// Copies of the active monitor layouts.
    pub fn get_active_monitors(&self) -> (r: Vec<MonitorLayout>)
        ensures
            r@.len() == self.monitors().len(),
            forall|i: int| 0 <= i < r@.len() ==> #[trigger] r@[i]@ == self.monitors()[i]@,
    {
        let mut r: Vec<MonitorLayout> = Vec::new();
        let mut i: usize = 0;
        while i < self.active_monitors.len()
            invariant
                i <= self.active_monitors@.len(),
                r@.len() == i,
                forall|j: int| 0 <= j < i ==> #[trigger] r@[j]@ == self.active_monitors@[j]@,
            decreases self.active_monitors.len() - i,
        {
            r.push(self.active_monitors[i].copy());
            i = i + 1;
        }
        r
    }
}

impl Default for StateManager {
    fn default() -> (r: Self)
        ensures
            r.wf(),
            r.peers() == Map::<Seq<char>, PeerStateView>::empty(),
            r.input() == InputView::Local,
            r.version() == 1,
            !r.is_redirecting(),
            !r.release_requested(),
            r.monitors().len() == 0,
    {
        Self::new()
    }
}

/// Keeps the address of a fully connected peer.
pub open spec fn connected_entry(peers: Map<Seq<char>, PeerStateView>) -> spec_fn(Seq<char>) -> Option<Seq<char>> {
    |k: Seq<char>| if peers[k] is FullyConnected { Some(k) } else { None }
}

/// Keeps the trust request of a peer waiting for approval.
pub open spec fn pending_entry(peers: Map<Seq<char>, PeerStateView>) -> spec_fn(Seq<char>) -> Option<PendingTrustView> {
    |k: Seq<char>|
        match peers[k] {
            PeerStateView::PendingTrustApproval(p) => Some(p),
            _ => None,
        }
}

/// Whether peer `ip` waits for the user's answer to a trust request.
pub open spec fn awaits_trust_answer(peers: Map<Seq<char>, PeerStateView>, ip: Seq<char>) -> bool {
    &&& peers.contains_key(ip)
    &&& peers[ip] matches PeerStateView::PendingTrustApproval(p)
    &&& p.awaiting_answer
}

/// `peers` after the open trust request of `ip`, if any, has been answered.
pub open spec fn answered(peers: Map<Seq<char>, PeerStateView>, ip: Seq<char>) -> Map<Seq<char>, PeerStateView> {
    if awaits_trust_answer(peers, ip) {
        peers.insert(
            ip,
            PeerStateView::PendingTrustApproval(PendingTrustView { awaiting_answer: false, ..peers[ip]->PendingTrustApproval_0 }),
        )
    } else {
        peers
    }
}

/// After the user refused a peer, a transition to it is refused until it
/// connects again: its state is no longer fully connected.
pub proof fn lemma_rejected_peer_takes_no_input(peers: Map<Seq<char>, PeerStateView>, ip: Seq<char>)
    ensures
        !(peers.insert(ip, PeerStateView::Disconnected).contains_key(ip) && peers.insert(
            ip,
            PeerStateView::Disconnected,
        )[ip] is FullyConnected),
{
}

/// A removed peer is unknown, so a transition to it is refused.
pub proof fn lemma_removed_peer_takes_no_input(peers: Map<Seq<char>, PeerStateView>, ip: Seq<char>)
    ensures
        !peers.remove(ip).contains_key(ip),
{
}

/// A trust request is answered at most once: once answered, it no longer
/// waits for an answer.
pub proof fn lemma_trust_answered_once(peers: Map<Seq<char>, PeerStateView>, ip: Seq<char>)
    ensures
        !awaits_trust_answer(answered(peers, ip), ip),
{
}

} // verus!
