//! The keys of the servers that were connected to: trust on first use.
use crate::error::{outcome, ErrorView, RustmoteError};
use crate::path::PathStyle;
use crate::storage::{file_below, file_in};
use crate::text::{
    concat, concat3, decimal, decimal_writes_the_number, is_digit, text_decimal, text_eq,
};
use crate::textmap::TextMap;
use crate::time::Timestamp;
use vstd::prelude::*;

verus! {

/// The name of the file that keeps the keys.
pub const KNOWN_HOSTS_FILE_NAME: &'static str = "known_hosts.toml";

/// The file that keeps the keys, in a directory that may not be there.
pub fn known_hosts_path(
    style: PathStyle,
    config_dir: Result<String, RustmoteError>,
) -> (r: Result<String, RustmoteError>)
    ensures
        outcome(r) == file_in(style, outcome(config_dir), KNOWN_HOSTS_FILE_NAME@),
{
    file_below(style, config_dir, KNOWN_HOSTS_FILE_NAME)
}

/// A server's key.
#[derive(Debug, PartialEq, Eq)]
pub struct HostKey<T = String> {
    /// `SHA256:` and the hash of the key.
    pub fingerprint: T,
    pub key_type: T,
    /// When it was pinned.
    pub first_seen: Timestamp,
}

/// The view of a [`HostKey`].
pub type HostKeyView = HostKey<Seq<char>>;

impl View for HostKey {
    type V = HostKey<Seq<char>>;

    open spec fn view(&self) -> HostKey<Seq<char>> {
        HostKey {
            fingerprint: self.fingerprint@,
            key_type: self.key_type@,
            first_seen: self.first_seen,
        }
    }
}

impl Clone for HostKey {
    fn clone(&self) -> (r: HostKey)
        ensures
            r == *self,
    {
        HostKey {
            fingerprint: self.fingerprint.clone(),
            key_type: self.key_type.clone(),
            first_seen: self.first_seen,
        }
    }
}

/// A key as a server shows it: the hash of the key gets its prefix.
pub open spec fn shown_key(hash: Seq<char>, key_type: Seq<char>, at: Timestamp) -> HostKeyView {
    HostKey { fingerprint: "SHA256:"@ + hash, key_type, first_seen: at }
}

/// The pinned keys, by endpoint.
#[derive(Debug, PartialEq, Eq)]
pub struct KnownHosts {
    pub entries: TextMap<HostKey>,
}

impl View for KnownHosts {
    type V = Map<Seq<char>, HostKeyView>;

    open spec fn view(&self) -> Map<Seq<char>, HostKeyView> {
        self.entries@
    }
}

impl Default for KnownHosts {
    fn default() -> (r: KnownHosts)
        ensures
            r@ == Map::<Seq<char>, HostKeyView>::empty(),
    {
        KnownHosts { entries: TextMap::new() }
    }
}

/// Whether an unknown server's key is pinned.
#[derive(Debug, Clone, Copy, PartialEq, Eq, Structural)]
pub enum TofuPolicy {
    /// It is.
    TrustOnFirstUse,
    /// It is refused.
    Strict,
}

impl Default for TofuPolicy {
    fn default() -> (r: TofuPolicy)
        ensures
            r == TofuPolicy::TrustOnFirstUse,
    {
        TofuPolicy::TrustOnFirstUse
    }
}

/// What a server's key was found to be.
#[derive(Debug, PartialEq, Eq)]
pub enum TofuOutcome<T = String> {
    /// New, and now pinned.
    Pinned,
    /// The pinned one.
    Matched,
    /// Another than the pinned one.
    Mismatch { expected: HostKey<T>, actual_fingerprint: T },
    /// New, and not to be pinned.
    UnknownRejected,
}

/// The view of a [`TofuOutcome`].
pub type TofuView = TofuOutcome<Seq<char>>;

impl View for TofuOutcome {
    type V = TofuOutcome<Seq<char>>;

    open spec fn view(&self) -> TofuOutcome<Seq<char>> {
        match self {
            TofuOutcome::Pinned => TofuOutcome::Pinned,
            TofuOutcome::Matched => TofuOutcome::Matched,
            TofuOutcome::Mismatch { expected, actual_fingerprint } => TofuOutcome::Mismatch {
                expected: expected@,
                actual_fingerprint: actual_fingerprint@,
            },
            TofuOutcome::UnknownRejected => TofuOutcome::UnknownRejected,
        }
    }
}

/// The endpoint of a host and a port.
pub open spec fn endpoint_of(host: Seq<char>, port: u16) -> Seq<char> {
    host + ":"@ + decimal(port as nat)
}

/// What a key shown at an endpoint is found to be, and the pinned keys afterwards.
pub open spec fn tofu(
    known: Map<Seq<char>, HostKeyView>,
    endpoint: Seq<char>,
    observed: HostKeyView,
    policy: TofuPolicy,
) -> (Map<Seq<char>, HostKeyView>, TofuView) {
    if known.dom().contains(endpoint) {
        (
            known,
            if known[endpoint].fingerprint == observed.fingerprint {
                TofuOutcome::Matched
            } else {
                TofuOutcome::Mismatch {
                    expected: known[endpoint],
                    actual_fingerprint: observed.fingerprint,
                }
            },
        )
    } else if policy == TofuPolicy::TrustOnFirstUse {
        (known.insert(endpoint, observed), TofuOutcome::Pinned)
    } else {
        (known, TofuOutcome::UnknownRejected)
    }
}

/// Whether a connection may go on, or why it may not.
pub open spec fn verdict(found: TofuView, host: Seq<char>, port: u16) -> Result<(), ErrorView> {
    match found {
        TofuOutcome::Pinned | TofuOutcome::Matched => Ok(()),
        TofuOutcome::Mismatch { expected, actual_fingerprint } => Err(
            RustmoteError::HostKeyMismatch {
                host,
                port,
                expected: expected.fingerprint,
                actual: actual_fingerprint,
            },
        ),
        TofuOutcome::UnknownRejected => Err(RustmoteError::HostKeyUnknown { host, port }),
    }
}

impl TofuOutcome {
    /// Whether a connection may go on, or why it may not.
    pub fn verdict_for(&self, host: &str, port: u16) -> (r: Result<(), RustmoteError>)
        ensures
            match r {
                Ok(_) => verdict(self@, host@, port) is Ok,
                Err(e) => verdict(self@, host@, port) == Err::<(), ErrorView>(e@),
            },
    {
        match self {
            TofuOutcome::Pinned | TofuOutcome::Matched => Ok(()),
            TofuOutcome::Mismatch { expected, actual_fingerprint } => Err(
                RustmoteError::HostKeyMismatch {
                    host: host.to_owned(),
                    port,
                    expected: expected.fingerprint.clone(),
                    actual: actual_fingerprint.clone(),
                },
            ),
            TofuOutcome::UnknownRejected => Err(
                RustmoteError::HostKeyUnknown { host: host.to_owned(), port },
            ),
        }
    }
}

impl KnownHosts {
    /// The endpoint of a host and a port.
    pub fn endpoint(host: &str, port: u16) -> (r: String)
        ensures
            r@ == endpoint_of(host@, port),
    {
        let number = text_decimal(port as u64);
        concat3(host, ":", number.as_str())
    }

    /// The pinned key of an endpoint.
    pub fn get(&self, host: &str, port: u16) -> (r: Option<&HostKey>)
        ensures
            match r {
                Some(key) => self@.dom().contains(endpoint_of(host@, port)) && key@
                    == self@[endpoint_of(host@, port)],
                None => !self@.dom().contains(endpoint_of(host@, port)),
            },
    {
        self.entries.get(KnownHosts::endpoint(host, port).as_str())
    }

    /// Holds a key that a server shows against the pinned one, and pins it where there is none and
    /// the policy says so.
    pub fn verify_or_pin(
        &mut self,
        host: &str,
        port: u16,
        observed: &HostKey,
        policy: TofuPolicy,
    ) -> (r: TofuOutcome)
        ensures
            (final(self)@, r@) == tofu(
                old(self)@,
                endpoint_of(host@, port),
                observed@,
                policy,
            ),
    {
        let endpoint = KnownHosts::endpoint(host, port);
        match self.entries.get(endpoint.as_str()) {
            Some(existing) => {
                if text_eq(existing.fingerprint.as_str(), observed.fingerprint.as_str()) {
                    TofuOutcome::Matched
                } else {
                    TofuOutcome::Mismatch {
                        expected: existing.clone(),
                        actual_fingerprint: observed.fingerprint.clone(),
                    }
                }
            },
            None => match policy {
                TofuPolicy::TrustOnFirstUse => {
                    self.entries.insert(endpoint, observed.clone());
                    TofuOutcome::Pinned
                },
                TofuPolicy::Strict => TofuOutcome::UnknownRejected,
            },
        }
    }

    /// Judges the key that a server shows while a connection is opened: what it was found to be,
    /// and whether the connection may go on.
    pub fn check_server_key(
        &mut self,
        host: &str,
        port: u16,
        key_hash: &str,
        key_type: &str,
        at: Timestamp,
        policy: TofuPolicy,
    ) -> (r: (TofuOutcome, Result<(), RustmoteError>))
        ensures
            (final(self)@, r.0@) == tofu(
                old(self)@,
                endpoint_of(host@, port),
                shown_key(key_hash@, key_type@, at),
                policy,
            ),
            match r.1 {
                Ok(_) => verdict(r.0@, host@, port) is Ok,
                Err(e) => verdict(r.0@, host@, port) == Err::<(), ErrorView>(e@),
            },
    {
        let observed = HostKey {
            fingerprint: concat("SHA256:", key_hash),
            key_type: key_type.to_owned(),
            first_seen: at,
        };
        let found = self.verify_or_pin(host, port, &observed, policy);
        let verdict = found.verdict_for(host, port);
        (found, verdict)
    }
}

// ---------------------------------------------------------------------------------------------
// What holds of trust on first use
// ---------------------------------------------------------------------------------------------

/// Two hosts, or two ports of one host, never share a pinned key.
pub proof fn endpoints_are_distinct(host: Seq<char>, port: u16, other: Seq<char>, other_port: u16)
    ensures
        endpoint_of(host, port) == endpoint_of(other, other_port) ==> host == other && port
            == other_port,
{
    let a = decimal(port as nat);
    let b = decimal(other_port as nat);
    let s = endpoint_of(host, port);
    let t = endpoint_of(other, other_port);
    decimal_writes_the_number(port as nat);
    decimal_writes_the_number(other_port as nat);
    reveal_strlit(":");
    assert(":"@.len() == 1);
    assert(s.len() == host.len() + 1 + a.len());
    assert(t.len() == other.len() + 1 + b.len());
    assert(s[host.len() as int] == ':');
    assert(t[other.len() as int] == ':');
    if s == t {
        if host.len() < other.len() {
            assert(s[other.len() as int] == a[other.len() - host.len() - 1]);
            assert(is_digit(a[other.len() - host.len() - 1]));
        } else if other.len() < host.len() {
            assert(t[host.len() as int] == b[host.len() - other.len() - 1]);
            assert(is_digit(b[host.len() - other.len() - 1]));
        }
        assert(host =~= s.take(host.len() as int));
        assert(other =~= t.take(other.len() as int));
        assert(a =~= s.skip(host.len() as int + 1));
        assert(b =~= t.skip(other.len() as int + 1));
    }
}

/// A key that was pinned is recognised from then on under any policy, another key at its endpoint
/// is refused, and what is found never changes a key that is pinned, nor any at other endpoints.
pub proof fn pinned_keys_stay(
    known: Map<Seq<char>, HostKeyView>,
    endpoint: Seq<char>,
    first: HostKeyView,
    later: HostKeyView,
    policy: TofuPolicy,
    other: Seq<char>,
)
    requires
        !known.dom().contains(endpoint),
    ensures
        ({
            let (pinned, found) = tofu(known, endpoint, first, TofuPolicy::TrustOnFirstUse);
            let (after, again) = tofu(pinned, endpoint, later, policy);
            &&& found is Pinned
            &&& again is Matched <==> later.fingerprint == first.fingerprint
            &&& again is Matched || (again is Mismatch && verdict(
                again,
                endpoint,
                0,
            ) is Err)
            &&& after == pinned
            &&& other != endpoint ==> (pinned.dom().contains(other) == known.dom().contains(other)
                && (known.dom().contains(other) ==> pinned[other] == known[other]))
        }),
{
}

/// The strict policy pins nothing: an unknown server is refused, and the keys stay as they are.
pub proof fn strict_policy_pins_nothing(
    known: Map<Seq<char>, HostKeyView>,
    endpoint: Seq<char>,
    observed: HostKeyView,
)
    ensures
        tofu(known, endpoint, observed, TofuPolicy::Strict).0 == known,
        !known.dom().contains(endpoint) ==> tofu(
            known,
            endpoint,
            observed,
            TofuPolicy::Strict,
        ).1 is UnknownRejected,
{
}

/// A connection goes on where the key that a server shows is the pinned one of its host and port,
/// or, on first use, where none is pinned there and the policy trusts it. Another key than the
/// pinned one is refused with both fingerprints, and so is an unknown server under the strict
/// policy. Only trust on first use pins a key: the one that was shown, with the time.
pub proof fn servers_are_known_by_their_key(
    known: &mut KnownHosts,
    host: &str,
    port: u16,
    key_hash: &str,
    key_type: &str,
    at: Timestamp,
    policy: TofuPolicy,
    r: (TofuOutcome, Result<(), RustmoteError>),
)
    requires
        call_ensures(
            KnownHosts::check_server_key,
            (known, host, port, key_hash, key_type, at, policy),
            r,
        ),
    ensures
        ({
            let before = old(known)@;
            let after = final(known)@;
            let endpoint = host@ + ":"@ + decimal(port as nat);
            let shown = "SHA256:"@ + key_hash@;
            &&& before.dom().contains(endpoint) ==> {
                &&& after == before
                &&& r.1 is Ok <==> before[endpoint].fingerprint == shown
                &&& r.1 matches Err(e) ==> e@ == (RustmoteError::HostKeyMismatch {
                    host: host@,
                    port,
                    expected: before[endpoint].fingerprint,
                    actual: shown,
                })
                &&& !(r.0 is Pinned)
            }
            &&& !before.dom().contains(endpoint) && policy == TofuPolicy::TrustOnFirstUse ==> {
                &&& r.1 is Ok
                &&& r.0 is Pinned
                &&& after.dom().contains(endpoint)
                &&& after[endpoint].fingerprint == shown
                &&& after[endpoint].key_type == key_type@
                &&& after[endpoint].first_seen == at
                &&& forall|other: Seq<char>|
                    other != endpoint ==> (#[trigger] after.dom().contains(other)
                        == before.dom().contains(other)) && (before.dom().contains(other)
                        ==> after[other] == before[other])
            }
            &&& !before.dom().contains(endpoint) && policy == TofuPolicy::Strict ==> {
                &&& after == before
                &&& r.1 matches Err(e) && e@ == (RustmoteError::<Seq<char>>::HostKeyUnknown {
                    host: host@,
                    port,
                })
            }
        }),
{
}

/// The pinned key of a host and a port is the one that was pinned for them.
pub proof fn pinned_keys_are_found(known: &KnownHosts, host: &str, port: u16, r: Option<&HostKey>)
    requires
        call_ensures(KnownHosts::get, (known, host, port), r),
    ensures
        r is Some <==> known@.dom().contains(host@ + ":"@ + decimal(port as nat)),
        r matches Some(key) ==> key@ == known@[host@ + ":"@ + decimal(port as nat)],
{
}

} // verus!
