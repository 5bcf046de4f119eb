//! Trust on first use: the decisions of the certificate verifiers on both
//! ends of a TLS connection. The lookup of stored fingerprints and the wait
//! for the user's answer happen outside; these functions decide what each
//! result means and record it in the peer state.
use vstd::prelude::*;
use crate::crypto::{colon_hex, compute_fingerprint, sha256};
use crate::state::{PeerState, PeerStateView, PendingTrust, PendingTrustView, StateManager};
use crate::text::{copy_string_of_str, str_eq};

verus! {

/// A certificate the user is asked to trust, with the channel that carries
/// the answer back to the waiting connection.
pub struct PendingTrustRequest<T> {
    pub ip: String,
    pub fingerprint: String,
    pub tx: T,
}

/// The certificates waiting for the user's decision, in the order they
/// were asked about.
pub struct PendingTrusts<T> {
    requests: Vec<PendingTrustRequest<T>>,
}

impl<T> PendingTrusts<T> {
    /// The peer address and fingerprint of each waiting request.
    pub closed spec fn entries(&self) -> Seq<(Seq<char>, Seq<char>)> {
        self.requests@.map_values(|r: PendingTrustRequest<T>| (r.ip@, r.fingerprint@))
    }

    pub fn new() -> (r: Self)
        ensures
            r.entries() == Seq::<(Seq<char>, Seq<char>)>::empty(),
    {
        let r = Self { requests: Vec::new() };
        assert(r.entries() =~= Seq::<(Seq<char>, Seq<char>)>::empty());
        r
    }

    pub fn len(&self) -> (r: usize)
        ensures
            r == self.entries().len(),
    {
        self.requests.len()
    }

    /// Adds a request at the end.
    pub fn push(&mut self, request: PendingTrustRequest<T>)
        ensures
            final(self).entries() == old(self).entries().push((request.ip@, request.fingerprint@)),
    {
        self.requests.push(request);
        assert(self.entries() =~= old(self).entries().push((request.ip@, request.fingerprint@)));
    }
}

/// Verifies the server's certificate on the client side.
pub struct TofuServerVerifier<P> {
    pub server_ip: String,
    pub pending_trusts: P,
}

impl<P> TofuServerVerifier<P> {
    pub fn new(server_ip: String, pending_trusts: P) -> (r: Self)
        ensures
            r.server_ip@ == server_ip@,
            r.pending_trusts == pending_trusts,
    {
        Self { server_ip, pending_trusts }
    }
}

/// Verifies a client's certificate on the server side.
pub struct TofuClientVerifier<P> {
    pub client_ip: String,
    pub pending_trusts: P,
}

impl<P> TofuClientVerifier<P> {
    pub fn new(client_ip: String, pending_trusts: P) -> (r: Self)
        ensures
            r.client_ip@ == client_ip@,
            r.pending_trusts == pending_trusts,
    {
        Self { client_ip, pending_trusts }
    }
}

/// What the store of trusted fingerprints says about a peer.
pub enum TrustLookup {
    Trusted(String),
    Unknown,
    /// The store could not be read.
    Failed,
}

/// The first decision about a presented certificate.
pub enum TrustDecision {
    /// The fingerprint is the one trusted before.
    Accept,
    /// The user must decide; `is_mismatch` warns that another fingerprint
    /// was trusted before.
    Prompt { is_mismatch: bool },
}

/// The fingerprint the store trusts for a peer, if it could tell.
pub open spec fn stored_fingerprint(lookup: TrustLookup) -> Option<Seq<char>> {
    match lookup {
        TrustLookup::Trusted(fp) => Some(fp@),
        _ => None,
    }
}

/// The first decision about fingerprint `fp` when `stored` is trusted for
/// the peer: accept the same one, otherwise ask, warning when another one
/// was trusted.
pub open spec fn trust_decision_for(stored: Option<Seq<char>>, fp: Seq<char>) -> TrustDecision {
    match stored {
        Some(s) => if s == fp {
            TrustDecision::Accept
        } else {
            TrustDecision::Prompt { is_mismatch: true }
        },
        None => TrustDecision::Prompt { is_mismatch: false },
    }
}

/// Trust on first use from first look to the user's answer: with `stored`
/// the fingerprint trusted before for a peer (if any) and `fp` the one it
/// presents, the user is asked exactly when `stored` is not `fp`, warned of
/// a mismatch exactly when another fingerprint was trusted, and the
/// connection is accepted exactly when `stored` is `fp` or the user accepts.
pub proof fn lemma_trust_on_first_use(stored: Option<Seq<char>>, fp: Seq<char>, answer: TrustAnswer)
    ensures
        trust_decision_for(stored, fp) is Accept <==> stored == Some(fp),
        trust_decision_for(stored, fp) matches TrustDecision::Prompt { is_mismatch } ==> is_mismatch == stored
            is Some,
        (trust_decision_for(stored, fp) is Accept || answer is Accepted) <==> (stored == Some(fp)
            || answer is Accepted),
{
}

/// The fingerprint the peer presents: that of its certificate.
pub open spec fn presented_fingerprint(cert_der: Seq<u8>) -> Seq<char> {
    colon_hex(sha256(cert_der))
}

/// Decides about a certificate with fingerprint `fingerprint` from peer
/// `ip` given what the store says, and records it: an accepted peer has its
/// TLS session established, otherwise the peer waits for the user's answer.
pub fn begin_trust_check(state: &mut StateManager, ip: &str, fingerprint: &str, lookup: &TrustLookup) -> (r: TrustDecision)
    requires
        old(state).wf(),
    ensures
        final(state).wf(),
        r == trust_decision_for(stored_fingerprint(*lookup), fingerprint@),
        r is Accept ==> final(state).peers() == old(state).peers().insert(ip@, PeerStateView::TlsEstablished),
        r matches TrustDecision::Prompt { is_mismatch } ==> final(state).peers() == old(state).peers().insert(
            ip@,
            PeerStateView::PendingTrustApproval(
                PendingTrustView { ip: ip@, fingerprint: fingerprint@, is_mismatch, awaiting_answer: true },
            ),
        ),
        final(state).input() == old(state).input(),
        final(state).monitors() == old(state).monitors(),
{
    let decision = match lookup {
        TrustLookup::Trusted(fp) => {
            if str_eq(fp.as_str(), fingerprint) {
                TrustDecision::Accept
            } else {
                TrustDecision::Prompt { is_mismatch: true }
            }
        },
        _ => TrustDecision::Prompt { is_mismatch: false },
    };
    match decision {
        TrustDecision::Accept => {
            state.set_peer_state(ip, PeerState::TlsEstablished);
        },
        TrustDecision::Prompt { is_mismatch } => {
            let pending = PendingTrust {
                ip: copy_string_of_str(ip),
                fingerprint: copy_string_of_str(fingerprint),
                is_mismatch,
                awaiting_answer: true,
            };
            state.set_peer_state(ip, PeerState::PendingTrustApproval(pending));
        },
    }
    decision
}

/// How the wait for the user's answer ended.
pub enum TrustAnswer {
    Accepted,
    Rejected,
    TimedOut,
}

/// Records the user's answer about peer `ip`: an accepted certificate
/// establishes the session (and its fingerprint is to be stored), a refused
/// or unanswered one disconnects the peer. Returns whether the certificate
/// is accepted.
pub fn finish_trust_check(state: &mut StateManager, ip: &str, answer: TrustAnswer) -> (accepted: bool)
    requires
        old(state).wf(),
    ensures
        final(state).wf(),
        accepted == (answer is Accepted),
        accepted ==> final(state).peers() == old(state).peers().insert(ip@, PeerStateView::TlsEstablished),
        !accepted ==> final(state).peers() == old(state).peers().insert(ip@, PeerStateView::Disconnected),
        final(state).monitors() == old(state).monitors(),
{
    match answer {
        TrustAnswer::Accepted => {
            state.set_peer_state(ip, PeerState::TlsEstablished);
            true
        },
        _ => {
            state.set_peer_state(ip, PeerState::Disconnected);
            false
        },
    }
}

/// Takes the first look at the certificate `cert_der` presented by peer
/// `ip`: decides with `begin_trust_check` on its fingerprint, and when the
/// user must decide, adds the request (answered through `tx`) to `pending`.
pub fn request_trust<T>(
    state: &mut StateManager,
    pending: &mut PendingTrusts<T>,
    ip: &str,
    cert_der: &[u8],
    lookup: &TrustLookup,
    tx: T,
) -> (r: TrustDecision)
    requires
        old(state).wf(),
    ensures
        final(state).wf(),
        r == trust_decision_for(stored_fingerprint(*lookup), presented_fingerprint(cert_der@)),
        r is Accept ==> final(pending).entries() == old(pending).entries() && final(state).peers() == old(
            state,
        ).peers().insert(ip@, PeerStateView::TlsEstablished),
        r matches TrustDecision::Prompt { is_mismatch } ==> final(pending).entries() == old(pending).entries().push(
            (ip@, presented_fingerprint(cert_der@)),
        ) && final(state).peers() == old(state).peers().insert(
            ip@,
            PeerStateView::PendingTrustApproval(
                PendingTrustView {
                    ip: ip@,
                    fingerprint: presented_fingerprint(cert_der@),
                    is_mismatch,
                    awaiting_answer: true,
                },
            ),
        ),
        final(state).input() == old(state).input(),
        final(state).monitors() == old(state).monitors(),
{
    let request = trust_request(ip, cert_der, tx);
    let decision = begin_trust_check(state, ip, request.fingerprint.as_str(), lookup);
    match decision {
        TrustDecision::Accept => {},
        TrustDecision::Prompt { .. } => {
            pending.push(request);
        },
    }
    decision
}

/// The fingerprint of a presented certificate and the request that asks
/// the user about it.
pub fn trust_request<T>(ip: &str, cert_der: &[u8], tx: T) -> (r: PendingTrustRequest<T>)
    ensures
        r.ip@ == ip@,
        r.fingerprint@ == presented_fingerprint(cert_der@),
        r.tx == tx,
{
    PendingTrustRequest { ip: copy_string_of_str(ip), fingerprint: compute_fingerprint(cert_der), tx }
}

} // verus!
