//! The machines that are reached through a relay.
use crate::net::IpAddr;
use crate::text::opt_view;
use crate::time::Timestamp;
use vstd::prelude::*;

verus! {

/// A machine that is reached through a relay.
#[derive(Debug, PartialEq, Eq)]
pub struct Target<T = String> {
    /// Its RustDesk id, of nine or ten digits.
    pub id: T,
    /// Where it was last seen in the local network. Nothing relies on it.
    pub ip: Option<IpAddr>,
    /// The name that the user gave it.
    pub label: Option<T>,
    /// The server that it is reached through.
    pub via_server: Option<T>,
    /// When it was last seen in the local network.
    pub last_seen: Option<Timestamp>,
}

/// The view of a [`Target`].
pub type TargetView = Target<Seq<char>>;

impl View for Target {
    type V = Target<Seq<char>>;

    open spec fn view(&self) -> Target<Seq<char>> {
        Target {
            id: self.id@,
            ip: self.ip,
            label: opt_view(self.label),
            via_server: opt_view(self.via_server),
            last_seen: self.last_seen,
        }
    }
}

impl Clone for Target {
    fn clone(&self) -> (r: Target)
        ensures
            r == *self,
    {
        Target {
            id: self.id.clone(),
            ip: self.ip,
            label: self.label.clone(),
            via_server: self.via_server.clone(),
            last_seen: self.last_seen,
        }
    }
}

/// A target of which nothing but its id is known.
pub open spec fn bare_target(id: Seq<char>) -> TargetView {
    Target { id, ip: None, label: None, via_server: None, last_seen: None }
}

impl Target {
    /// A target of which nothing but its id is known.
    pub fn new(id: &str) -> (r: Target)
        ensures
            r@ == bare_target(id@),
    {
        Target { id: id.to_owned(), ip: None, label: None, via_server: None, last_seen: None }
    }
}

} // verus!
