//! Plain-value models of the operating-system socket objects the handles
//! wrap: a socket address of the Unix address family, a stream socket and
//! a listening socket.
//!
//! The operating system itself sits outside the library: the surrounding
//! program creates the real sockets and hands their descriptors and
//! addresses in as plain values.  The logic here reads and transforms only
//! those values.

use vstd::prelude::*;
use crate::ready::Error;

verus! {

/// The longest pathname that fits the address buffer of the Unix socket
/// address family.
pub const MAX_SUN_PATH: usize = 108;

/// A socket address: unnamed, or a filesystem pathname of at most
/// [`MAX_SUN_PATH`] bytes.
#[derive(Clone, PartialEq, Eq, Debug)]
pub struct SocketAddr {
    path: Option<Vec<u8>>,
}

impl SocketAddr {
    /// The pathname the address holds, if any.
    pub closed spec fn pathname(&self) -> Option<Seq<u8>> {
        match self.path {
            Some(p) => Some(p@),
            None => None,
        }
    }

    /// A pathname, when present, fits the address buffer.
    pub closed spec fn wf(&self) -> bool {
        match self.path {
            Some(p) => p@.len() <= MAX_SUN_PATH,
            None => true,
        }
    }

    /// Returns the unnamed address.
    pub fn unnamed() -> (a: SocketAddr)
        ensures
            a.pathname() is None,
            a.wf(),
    {
        SocketAddr { path: None }
    }

    /// Turns a pathname into an address.  Fails exactly when the path does
    /// not fit the address buffer.
    pub fn from_path(path: &Vec<u8>) -> (r: Result<SocketAddr, Error>)
        ensures
            path@.len() <= MAX_SUN_PATH ==> (r matches Ok(a) && a.pathname() == Some(path@)
                && a.wf()),
            path@.len() > MAX_SUN_PATH ==> r == Err::<SocketAddr, Error>(Error::InvalidPath),
    {
        if path.len() <= MAX_SUN_PATH {
            Ok(SocketAddr { path: Some(path.clone()) })
        } else {
            Err(Error::InvalidPath)
        }
    }

    /// Returns the pathname the address holds, if any.
    pub fn as_pathname(&self) -> (r: Option<&Vec<u8>>)
        ensures
            match r {
                Some(p) => self.pathname() == Some(p@),
                None => self.pathname() is None,
            },
    {
        match &self.path {
            Some(p) => Some(p),
            None => None,
        }
    }

    /// Returns whether the address is unnamed.
    pub fn is_unnamed(&self) -> (r: bool)
        ensures
            r == (self.pathname() is None),
    {
        self.path.is_none()
    }

    /// Returns a copy of the address.
    pub fn clone_addr(&self) -> (r: SocketAddr)
        ensures
            r.pathname() == self.pathname(),
            r.wf() == self.wf(),
    {
        match &self.path {
            Some(p) => {
                let q = p.clone();
                proof {
                    assert(q@ =~= p@);
                }
                SocketAddr { path: Some(q) }
            },
            None => SocketAddr { path: None },
        }
    }
}

/// The model of one stream socket as the operating system holds it: an
/// opaque descriptor, the two endpoint addresses as far as they are known,
/// the non-blocking flag and the stored socket error, if any.
pub struct UnixStream {
    desc: usize,
    local: SocketAddr,
    peer: Option<SocketAddr>,
    nonblocking: bool,
    pending_error: Option<i32>,
}

impl UnixStream {
    /// The opaque descriptor of the underlying socket.
    pub closed spec fn desc(&self) -> usize {
        self.desc
    }

    /// The local address.
    pub closed spec fn local_spec(&self) -> SocketAddr {
        self.local
    }

    /// The peer address, known once the socket is connected.
    pub closed spec fn peer_spec(&self) -> Option<SocketAddr> {
        self.peer
    }

    /// Whether the socket is in non-blocking mode.
    pub closed spec fn is_nonblocking(&self) -> bool {
        self.nonblocking
    }

    /// The stored socket error, if any.
    pub closed spec fn stored_error(&self) -> Option<i32> {
        self.pending_error
    }

    /// The addresses the socket holds are well-formed.
    pub closed spec fn wf(&self) -> bool {
        self.local.wf() && match self.peer {
            Some(p) => p.wf(),
            None => true,
        }
    }

    /// Wraps a fresh, unconnected socket the surrounding program created,
    /// known only by its descriptor.
    pub fn new(desc: usize) -> (s: UnixStream)
        ensures
            s.desc() == desc,
            s.local_spec().pathname() is None,
            s.peer_spec() is None,
            !s.is_nonblocking(),
            s.stored_error() is None,
            s.wf(),
    {
        UnixStream {
            desc,
            local: SocketAddr::unnamed(),
            peer: None,
            nonblocking: false,
            pending_error: None,
        }
    }

    /// Wraps a socket the surrounding program already connected, with the
    /// two endpoint addresses it reported.
    pub fn connected(desc: usize, local: SocketAddr, peer: SocketAddr) -> (s: UnixStream)
        requires
            local.wf(),
            peer.wf(),
        ensures
            s.desc() == desc,
            s.local_spec() == local,
            s.peer_spec() == Some(peer),
            !s.is_nonblocking(),
            s.stored_error() is None,
            s.wf(),
    {
        UnixStream { desc, local, peer: Some(peer), nonblocking: false, pending_error: None }
    }

    /// Records the non-blocking mode the surrounding program set on the
    /// underlying socket.
    pub fn set_nonblocking(&mut self, v: bool)
        ensures
            final(self).is_nonblocking() == v,
            final(self).desc() == old(self).desc(),
            final(self).local_spec() == old(self).local_spec(),
            final(self).peer_spec() == old(self).peer_spec(),
            final(self).stored_error() == old(self).stored_error(),
            final(self).wf() == old(self).wf(),
    {
        self.nonblocking = v;
    }

    /// Returns the local address.
    pub fn local_addr(&self) -> (r: Result<SocketAddr, Error>)
        ensures
            r matches Ok(a) && a.pathname() == self.local_spec().pathname(),
    {
        Ok(self.local.clone_addr())
    }

    /// Returns the peer address.  Fails exactly while the socket is not
    /// connected.
    pub fn peer_addr(&self) -> (r: Result<SocketAddr, Error>)
        ensures
            match self.peer_spec() {
                Some(p) => r matches Ok(a) && a.pathname() == p.pathname(),
                None => r == Err::<SocketAddr, Error>(Error::NotConnected),
            },
    {
        match &self.peer {
            Some(p) => Ok(p.clone_addr()),
            None => Err(Error::NotConnected),
        }
    }

    /// Records a socket error the surrounding program observed, to be
    /// surfaced by the next `take_error`.
    pub fn set_error(&mut self, code: i32)
        ensures
            final(self).stored_error() == Some(code),
            final(self).desc() == old(self).desc(),
            final(self).local_spec() == old(self).local_spec(),
            final(self).peer_spec() == old(self).peer_spec(),
            final(self).is_nonblocking() == old(self).is_nonblocking(),
            final(self).wf() == old(self).wf(),
    {
        self.pending_error = Some(code);
    }

    /// Returns and clears the stored socket error.
    pub fn take_error(&mut self) -> (r: Result<Option<Error>, Error>)
        ensures
            r == Ok::<Option<Error>, Error>(
                match old(self).stored_error() {
                    Some(code) => Some(Error::Os(code)),
                    None => None,
                },
            ),
            final(self).stored_error() is None,
            final(self).desc() == old(self).desc(),
            final(self).local_spec() == old(self).local_spec(),
            final(self).peer_spec() == old(self).peer_spec(),
            final(self).is_nonblocking() == old(self).is_nonblocking(),
            final(self).wf() == old(self).wf(),
    {
        let r = match self.pending_error {
            Some(code) => Some(Error::Os(code)),
            None => None,
        };
        self.pending_error = None;
        Ok(r)
    }

    /// Returns a model of a second handle to the same underlying socket,
    /// sharing its descriptor and addresses.
    pub fn duplicate(&self) -> (s: UnixStream)
        ensures
            s.desc() == self.desc(),
            s.local_spec().pathname() == self.local_spec().pathname(),
            (s.peer_spec() is Some) == (self.peer_spec() is Some),
            s.peer_spec() matches Some(p) ==> self.peer_spec() matches Some(q) && p.pathname()
                == q.pathname(),
            s.is_nonblocking() == self.is_nonblocking(),
            s.stored_error() is None,
            self.wf() ==> s.wf(),
    {
        UnixStream {
            desc: self.desc,
            local: self.local.clone_addr(),
            peer: match &self.peer {
                Some(p) => Some(p.clone_addr()),
                None => None,
            },
            nonblocking: self.nonblocking,
            pending_error: None,
        }
    }
}

/// The model of one listening socket: an opaque descriptor, the bound
/// address and the stored socket error, if any.
pub struct UnixListener {
    desc: usize,
    local: SocketAddr,
    pending_error: Option<i32>,
}

impl UnixListener {
    /// The opaque descriptor of the underlying socket.
    pub closed spec fn desc(&self) -> usize {
        self.desc
    }

    /// The bound address.
    pub closed spec fn local_spec(&self) -> SocketAddr {
        self.local
    }

    /// The stored socket error, if any.
    pub closed spec fn stored_error(&self) -> Option<i32> {
        self.pending_error
    }

    /// The bound address is well-formed.
    pub closed spec fn wf(&self) -> bool {
        self.local.wf()
    }

    /// Records a socket the surrounding program bound and put into the
    /// listening state, at the given pathname.  Fails exactly when the
    /// path does not fit the address buffer.
    pub fn bind(desc: usize, path: &Vec<u8>) -> (r: Result<UnixListener, Error>)
        ensures
            path@.len() <= MAX_SUN_PATH ==> (r matches Ok(l) && l.desc() == desc
                && l.local_spec().pathname() == Some(path@) && l.stored_error() is None
                && l.wf()),
            path@.len() > MAX_SUN_PATH ==> r == Err::<UnixListener, Error>(Error::InvalidPath),
    {
        let addr = SocketAddr::from_path(path)?;
        Ok(UnixListener { desc, local: addr, pending_error: None })
    }

    /// Returns the bound address.
    pub fn local_addr(&self) -> (r: Result<SocketAddr, Error>)
        ensures
            r matches Ok(a) && a.pathname() == self.local_spec().pathname(),
    {
        Ok(self.local.clone_addr())
    }

    /// Records a socket error the surrounding program observed, to be
    /// surfaced by the next `take_error`.
    pub fn set_error(&mut self, code: i32)
        ensures
            final(self).stored_error() == Some(code),
            final(self).desc() == old(self).desc(),
            final(self).local_spec() == old(self).local_spec(),
            final(self).wf() == old(self).wf(),
    {
        self.pending_error = Some(code);
    }

    /// Returns and clears the stored socket error.
    pub fn take_error(&mut self) -> (r: Result<Option<Error>, Error>)
        ensures
            r == Ok::<Option<Error>, Error>(
                match old(self).stored_error() {
                    Some(code) => Some(Error::Os(code)),
                    None => None,
                },
            ),
            final(self).stored_error() is None,
            final(self).desc() == old(self).desc(),
            final(self).local_spec() == old(self).local_spec(),
            final(self).wf() == old(self).wf(),
    {
        let r = match self.pending_error {
            Some(code) => Some(Error::Os(code)),
            None => None,
        };
        self.pending_error = None;
        Ok(r)
    }

    /// Returns a model of a second handle to the same underlying socket,
    /// sharing its descriptor and bound address.
    pub fn duplicate(&self) -> (l: UnixListener)
        ensures
            l.desc() == self.desc(),
            l.local_spec().pathname() == self.local_spec().pathname(),
            l.stored_error() is None,
            self.wf() ==> l.wf(),
    {
        UnixListener { desc: self.desc, local: self.local.clone_addr(), pending_error: None }
    }
}

} // verus!
