//! Value types shared with the surrounding readiness poller: readiness
//! bit-sets, edge/level registration options, caller tokens, the events the
//! selector produces, and the error kinds of the library.

use vstd::prelude::*;

verus! {

/// A set of readiness kinds: readable, writable, error and hang-up.
#[derive(Clone, Copy, PartialEq, Eq, Structural, Debug)]
pub struct Ready {
    pub readable: bool,
    pub writable: bool,
    pub error: bool,
    pub hup: bool,
}

impl Ready {
    /// The empty readiness set, as a spec-level constant.
    pub open spec fn spec_empty() -> Ready {
        Ready { readable: false, writable: false, error: false, hup: false }
    }

    /// Returns the empty readiness set.
    pub fn empty() -> (r: Ready)
        ensures
            r == Self::spec_empty(),
    {
        Ready { readable: false, writable: false, error: false, hup: false }
    }

    /// Returns the set holding only the readable kind.
    pub fn readable() -> (r: Ready)
        ensures
            r == (Ready { readable: true, writable: false, error: false, hup: false }),
    {
        Ready { readable: true, writable: false, error: false, hup: false }
    }

    /// Returns the set holding only the writable kind.
    pub fn writable() -> (r: Ready)
        ensures
            r == (Ready { readable: false, writable: true, error: false, hup: false }),
    {
        Ready { readable: false, writable: true, error: false, hup: false }
    }

    /// Returns the set holding only the error kind.
    pub fn error() -> (r: Ready)
        ensures
            r == (Ready { readable: false, writable: false, error: true, hup: false }),
    {
        Ready { readable: false, writable: false, error: true, hup: false }
    }

    /// Returns the set holding only the hang-up kind.
    pub fn hup() -> (r: Ready)
        ensures
            r == (Ready { readable: false, writable: false, error: false, hup: true }),
    {
        Ready { readable: false, writable: false, error: false, hup: true }
    }

    /// The union of two readiness sets, as a spec-level function.
    pub open spec fn spec_union(self, other: Ready) -> Ready {
        Ready {
            readable: self.readable || other.readable,
            writable: self.writable || other.writable,
            error: self.error || other.error,
            hup: self.hup || other.hup,
        }
    }

    /// Returns the union of the two readiness sets.
    pub fn union(self, other: Ready) -> (r: Ready)
        ensures
            r == self.spec_union(other),
    {
        Ready {
            readable: self.readable || other.readable,
            writable: self.writable || other.writable,
            error: self.error || other.error,
            hup: self.hup || other.hup,
        }
    }

    /// Whether every kind in `other` is also in `self`, as a spec-level
    /// function.
    pub open spec fn spec_contains(self, other: Ready) -> bool {
        (other.readable ==> self.readable) && (other.writable ==> self.writable)
            && (other.error ==> self.error) && (other.hup ==> self.hup)
    }

    /// Returns whether every kind in `other` is also in `self`.
    pub fn contains(self, other: Ready) -> (r: bool)
        ensures
            r == self.spec_contains(other),
    {
        (!other.readable || self.readable) && (!other.writable || self.writable)
            && (!other.error || self.error) && (!other.hup || self.hup)
    }

    /// Returns whether the readable kind is in the set.
    pub fn is_readable(self) -> (r: bool)
        ensures
            r == self.readable,
    {
        self.readable
    }

    /// Returns whether the writable kind is in the set.
    pub fn is_writable(self) -> (r: bool)
        ensures
            r == self.writable,
    {
        self.writable
    }

    /// Returns whether the error kind is in the set.
    pub fn is_error(self) -> (r: bool)
        ensures
            r == self.error,
    {
        self.error
    }

    /// Returns whether the set is empty.
    pub fn is_empty(self) -> (r: bool)
        ensures
            r == (self == Self::spec_empty()),
    {
        !self.readable && !self.writable && !self.error && !self.hup
    }
}

/// Registration option: edge-triggered when `edge` is set, level-triggered
/// otherwise.  Edge-triggered interest suppresses automatic re-arming of a
/// readiness probe until the caller re-arms it with a re-registration.
#[derive(Clone, Copy, PartialEq, Eq, Structural, Debug)]
pub struct PollOpt {
    pub edge: bool,
}

impl PollOpt {
    /// Returns the edge-triggered option.
    pub fn edge() -> (r: PollOpt)
        ensures
            r == (PollOpt { edge: true }),
    {
        PollOpt { edge: true }
    }

    /// Returns the level-triggered option.
    pub fn level() -> (r: PollOpt)
        ensures
            r == (PollOpt { edge: false }),
    {
        PollOpt { edge: false }
    }

    /// Returns whether the option is edge-triggered.
    pub fn is_edge(self) -> (r: bool)
        ensures
            r == self.edge,
    {
        self.edge
    }
}

/// The caller-chosen tag carried from registration to the events the
/// selector delivers for that handle.
#[derive(Clone, Copy, PartialEq, Eq, Structural, Debug)]
pub struct Token(pub usize);

/// One readiness event surfaced by a poll: the registered token of the
/// handle and the readiness kinds observed for it.
#[derive(Clone, Copy, PartialEq, Eq, Structural, Debug)]
pub struct Event {
    pub token: Token,
    pub readiness: Ready,
}

/// The error kinds the library surfaces.
#[derive(Clone, Copy, PartialEq, Eq, Structural, Debug)]
pub enum Error {
    /// The handle is still associated with a different selector.
    AlreadyAssociated,
    /// No data, connection or readiness is available yet; retry after the
    /// next readiness notification.
    WouldBlock,
    /// A data transfer was attempted before the connect operation
    /// completed.
    NotConnected,
    /// A socket path does not fit the address buffer of the socket address
    /// family.
    InvalidPath,
    /// An operating-system error code, propagated verbatim.
    Os(i32),
}

} // verus!
