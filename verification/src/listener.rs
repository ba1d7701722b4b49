//! The listener handle: a model listening socket, the selector-identity
//! guard, and the side-table key of its state machine once registered.

use vstd::prelude::*;
use crate::net;
use crate::poll::{associate_step, SelectorId};
use crate::ready::{Error, PollOpt, Ready, Token};
use crate::selector::{
    listener_accept_take, listener_registered, listener_reregistered, slot_closed_step, Selector,
    Slot,
};
use crate::stream::UnixStream;

verus! {

/// A socket server, accepting connections through a completion-based
/// selector.
pub struct UnixListener {
    sys: net::UnixListener,
    selector_id: SelectorId,
    key: Option<usize>,
}

impl UnixListener {
    /// The model of the underlying listening socket.
    pub closed spec fn sys_spec(&self) -> net::UnixListener {
        self.sys
    }

    /// The selector-identity guard.
    pub closed spec fn guard(&self) -> SelectorId {
        self.selector_id
    }

    /// The side-table key of the listener's state machine, once
    /// registered.
    pub closed spec fn key_of(&self) -> Option<usize> {
        self.key
    }

    /// If the handle carries a key for this selector, the key names a live
    /// listener machine in its table.
    pub open spec fn valid_in(&self, sel: Selector) -> bool {
        match self.key_of() {
            None => true,
            Some(k) => self.guard().id() != 0 && (self.guard().id() == sel.spec_id() ==> k
                < sel.slots().len() && (sel.slots()[k as int] matches Slot::Listener(m)
                && !m.closed)),
        }
    }

    /// The handle is registered with this selector: its guard holds the
    /// selector's identity and its key names a live listener machine.
    pub open spec fn registered_in(&self, sel: Selector) -> bool {
        &&& self.key_of() is Some
        &&& self.guard().id() == sel.spec_id()
        &&& self.valid_in(sel)
    }

    /// Records a socket the surrounding program created, bound to the
    /// given pathname and put into the listening state.  Fails exactly
    /// when the path does not fit the socket address buffer.
    pub fn bind(desc: usize, path: &Vec<u8>) -> (r: Result<UnixListener, Error>)
        ensures
            path@.len() <= net::MAX_SUN_PATH ==> (r matches Ok(l) && l.sys_spec().desc() == desc
                && l.sys_spec().local_spec().pathname() == Some(path@) && l.guard().id() == 0
                && l.key_of() is None && l.sys_spec().wf()),
            path@.len() > net::MAX_SUN_PATH ==> r == Err::<UnixListener, Error>(
                Error::InvalidPath,
            ),
    {
        let sock = net::UnixListener::bind(desc, path)?;
        UnixListener::from_std(sock)
    }

    /// Wraps a listening socket the surrounding program configured, ready
    /// to be registered with a selector.
    pub fn from_std(listener: net::UnixListener) -> (r: Result<UnixListener, Error>)
        ensures
            r matches Ok(l) && l.sys_spec() == listener && l.guard().id() == 0
                && l.key_of() is None,
    {
        Ok(UnixListener { sys: listener, selector_id: SelectorId::new(), key: None })
    }

    /// Hands out the oldest accepted, undelivered connection as a stream
    /// ready for registration, together with the peer address, signalling
    /// `WouldBlock` exactly when none is pending.
    pub fn accept(&self, sel: &mut Selector) -> (r: Result<(UnixStream, net::SocketAddr), Error>)
        requires
            old(sel).wf(),
            self.registered_in(*old(sel)),
        ensures
            final(sel).wf(),
            final(sel).spec_id() == old(sel).spec_id(),
            final(sel).pool_bound() == old(sel).pool_bound(),
            final(sel).pool_outstanding() == old(sel).pool_outstanding(),
            final(sel).next_op() == old(sel).next_op(),
            final(sel).slots().len() == old(sel).slots().len(),
            self.registered_in(*final(sel)),
            forall|j: int|
                0 <= j < old(sel).slots().len() && Some(j as usize) != self.key_of() ==> final(sel).slots()[j] == old(sel).slots()[j],
            self.key_of() matches Some(k) && old(sel).slots()[k as int] matches Slot::Listener(
                pre,
            ) && final(sel).slots()[k as int] matches Slot::Listener(post) && {
                &&& listener_accept_take(
                    pre,
                    post,
                    match r {
                        Ok(_) => Ok(pre.pending@.first()),
                        Err(e) => Err(e),
                    },
                )
                &&& r matches Ok((s, a)) ==> {
                    &&& s.sys_spec().desc() == pre.pending@.first().desc()
                    &&& s.sys_spec().is_nonblocking()
                    &&& s.guard().id() == 0
                    &&& s.key_of() is None
                    &&& a.pathname() == match pre.pending@.first().peer_spec() {
                        Some(p) => p.pathname(),
                        None => None,
                    }
                }
            },
    {
        let (sock, addr) = self.accept_std(sel)?;
        let stream = UnixStream::from_stream(sock)?;
        Ok((stream, addr))
    }

    /// Hands out the oldest accepted, undelivered connection as a bare
    /// model socket, not yet put into non-blocking mode, together with the
    /// peer address.
    pub fn accept_std(&self, sel: &mut Selector) -> (r: Result<
        (net::UnixStream, net::SocketAddr),
        Error,
    >)
        requires
            old(sel).wf(),
            self.registered_in(*old(sel)),
        ensures
            final(sel).wf(),
            final(sel).spec_id() == old(sel).spec_id(),
            final(sel).pool_bound() == old(sel).pool_bound(),
            final(sel).pool_outstanding() == old(sel).pool_outstanding(),
            final(sel).next_op() == old(sel).next_op(),
            final(sel).slots().len() == old(sel).slots().len(),
            self.registered_in(*final(sel)),
            forall|j: int|
                0 <= j < old(sel).slots().len() && Some(j as usize) != self.key_of() ==> final(sel).slots()[j] == old(sel).slots()[j],
            self.key_of() matches Some(k) && old(sel).slots()[k as int] matches Slot::Listener(
                pre,
            ) && final(sel).slots()[k as int] matches Slot::Listener(post) && {
                &&& listener_accept_take(
                    pre,
                    post,
                    match r {
                        Ok(_) => Ok(pre.pending@.first()),
                        Err(e) => Err(e),
                    },
                )
                &&& r matches Ok((s, a)) ==> s == pre.pending@.first() && a.pathname() == match pre
                    .pending@.first().peer_spec() {
                    Some(p) => p.pathname(),
                    None => None,
                }
            },
    {
        match self.key {
            Some(k) => {
                let sock = sel.accept_from(k)?;
                let addr = match sock.peer_addr() {
                    Ok(a) => a,
                    Err(_) => net::SocketAddr::unnamed(),
                };
                Ok((sock, addr))
            },
            None => {
                proof {
                    assert(false);
                }
                Err(Error::WouldBlock)
            },
        }
    }

    /// Returns the local address this listener is bound to.
    pub fn local_addr(&self) -> (r: Result<net::SocketAddr, Error>)
        ensures
            r matches Ok(a) && a.pathname() == self.sys_spec().local_spec().pathname(),
    {
        self.sys.local_addr()
    }

    /// Returns an independently owned handle to the same underlying
    /// socket.  The clone carries a snapshot of the selector identity at
    /// clone time and maintains it independently thereafter; it starts
    /// unregistered.
    pub fn try_clone(&self) -> (r: Result<UnixListener, Error>)
        ensures
            r matches Ok(l) && l.guard() == self.guard() && l.key_of() is None
                && l.sys_spec().desc() == self.sys_spec().desc(),
    {
        Ok(UnixListener { sys: self.sys.duplicate(), selector_id: self.selector_id, key: None })
    }

    /// Returns and clears the error stored on the underlying socket.
    pub fn take_error(&mut self) -> (r: Result<Option<Error>, Error>)
        ensures
            r == Ok::<Option<Error>, Error>(
                match old(self).sys_spec().stored_error() {
                    Some(code) => Some(Error::Os(code)),
                    None => None,
                },
            ),
            final(self).sys_spec().stored_error() is None,
            final(self).guard() == old(self).guard(),
            final(self).key_of() == old(self).key_of(),
    {
        self.sys.take_error()
    }

    /// Registers the listener with the selector under `token`.  The
    /// selector-identity guard admits at most one selector per handle:
    /// registering while still bound to a different selector fails with
    /// `AlreadyAssociated` and changes nothing.  A first registration
    /// installs the state machine and issues the accept probe when
    /// readability is observed; registering again with the same selector
    /// adjusts the registration like `reregister`.
    pub fn register(
        &mut self,
        sel: &mut Selector,
        token: Token,
        interest: Ready,
        opts: PollOpt,
    ) -> (r: Result<(), Error>)
        requires
            old(sel).wf(),
            old(self).valid_in(*old(sel)),
            old(sel).slots().len() < usize::MAX,
            old(sel).pool_outstanding() + 1 <= usize::MAX,
            old(sel).next_op() + 1 <= u64::MAX,
        ensures
            final(sel).wf(),
            final(sel).spec_id() == old(sel).spec_id(),
            final(sel).pool_bound() == old(sel).pool_bound(),
            final(sel).pool_outstanding() <= old(sel).pool_outstanding() + 1,
            final(sel).next_op() <= old(sel).next_op() + 1,
            final(self).sys_spec() == old(self).sys_spec(),
            associate_step(
                old(self).guard(),
                old(sel).spec_id(),
                final(self).guard(),
                if r is Ok {
                    Ok(())
                } else {
                    Err(Error::AlreadyAssociated)
                },
            ),
            old(self).guard().id() != 0 && old(self).guard().id() != old(sel).spec_id() ==> (r
                == Err::<(), Error>(Error::AlreadyAssociated) && *final(sel) == *old(sel)
                && final(self).key_of() == old(self).key_of()),
            (old(self).guard().id() == 0 || old(self).guard().id() == old(sel).spec_id()) ==> (r
                == Ok::<(), Error>(()) && final(self).registered_in(*final(sel)) && {
                match old(self).key_of() {
                    None => {
                        &&& final(self).key_of() == Some(old(sel).slots().len() as usize)
                        &&& final(sel).slots().len() == old(sel).slots().len() + 1
                        &&& (forall|j: int|
                            0 <= j < old(sel).slots().len() ==> final(sel).slots()[j] == old(sel).slots()[j])
                        &&& final(sel).slots().last() matches Slot::Listener(m)
                            && listener_registered(m, token, interest, opts, old(sel).next_op())
                    },
                    Some(k) => {
                        &&& final(self).key_of() == Some(k)
                        &&& final(sel).slots().len() == old(sel).slots().len()
                        &&& (forall|j: int|
                            0 <= j < old(sel).slots().len() && j != k ==> final(sel).slots()[j]
                                == old(sel).slots()[j])
                        &&& old(sel).slots()[k as int] matches Slot::Listener(pre) && final(sel).slots()[k as int] matches Slot::Listener(post) && listener_reregistered(
                            pre,
                            post,
                            token,
                            interest,
                            opts,
                            old(sel).next_op(),
                        )
                    },
                }
            }),
    {
        proof {
            crate::selector::lemma_wf_id_nonzero(*sel);
        }
        let sel_id = sel.id();
        self.selector_id.associate_selector(sel_id)?;
        match self.key {
            None => {
                let k = sel.register_listener(token, interest, opts);
                self.key = Some(k);
                Ok(())
            },
            Some(k) => {
                sel.reregister_listener(k, token, interest, opts);
                Ok(())
            },
        }
    }

    /// Adjusts the registration: the new token, interest and option take
    /// effect, and a newly observed idle accept direction gets a fresh
    /// probe — this is how an edge-triggered caller re-arms accepting.
    pub fn reregister(
        &mut self,
        sel: &mut Selector,
        token: Token,
        interest: Ready,
        opts: PollOpt,
    ) -> (r: Result<(), Error>)
        requires
            old(sel).wf(),
            old(self).registered_in(*old(sel)),
            old(sel).pool_outstanding() + 1 <= usize::MAX,
            old(sel).next_op() + 1 <= u64::MAX,
        ensures
            final(sel).wf(),
            final(sel).spec_id() == old(sel).spec_id(),
            final(sel).pool_bound() == old(sel).pool_bound(),
            final(sel).pool_outstanding() <= old(sel).pool_outstanding() + 1,
            final(sel).next_op() == old(sel).next_op() + 1,
            final(sel).slots().len() == old(sel).slots().len(),
            *final(self) == *old(self),
            r == Ok::<(), Error>(()),
            final(self).registered_in(*final(sel)),
            forall|j: int|
                0 <= j < old(sel).slots().len() && Some(j as usize) != old(self).key_of() ==> final(sel).slots()[j] == old(sel).slots()[j],
            old(self).key_of() matches Some(k) && old(sel).slots()[k as int] matches Slot::Listener(
                pre,
            ) && final(sel).slots()[k as int] matches Slot::Listener(post)
                && listener_reregistered(pre, post, token, interest, opts, old(sel).next_op()),
    {
        match self.key {
            Some(k) => {
                sel.reregister_listener(k, token, interest, opts);
                Ok(())
            },
            None => {
                proof {
                    assert(false);
                }
                Err(Error::WouldBlock)
            },
        }
    }

    /// Deregisters the listener: its state machine is closed, a probe in
    /// flight is cancelled and stays until its completion is drained,
    /// pending connections are dropped, and the guard is released so the
    /// handle may associate with any selector again.
    pub fn deregister(&mut self, sel: &mut Selector) -> (r: Result<(), Error>)
        requires
            old(sel).wf(),
            old(self).registered_in(*old(sel)),
        ensures
            final(sel).wf(),
            final(sel).spec_id() == old(sel).spec_id(),
            final(sel).pool_bound() == old(sel).pool_bound(),
            final(sel).pool_outstanding() == old(sel).pool_outstanding(),
            final(sel).next_op() == old(sel).next_op(),
            final(sel).slots().len() == old(sel).slots().len(),
            r == Ok::<(), Error>(()),
            final(self).guard().id() == 0,
            final(self).key_of() is None,
            final(self).sys_spec() == old(self).sys_spec(),
            forall|j: int|
                0 <= j < old(sel).slots().len() && Some(j as usize) != old(self).key_of() ==> final(sel).slots()[j] == old(sel).slots()[j],
            old(self).key_of() matches Some(k) && slot_closed_step(
                old(sel).slots()[k as int],
                final(sel).slots()[k as int],
            ),
    {
        match self.key {
            Some(k) => {
                sel.close_key(k);
                self.key = None;
                self.selector_id.disassociate();
                Ok(())
            },
            None => {
                proof {
                    assert(false);
                }
                Err(Error::WouldBlock)
            },
        }
    }

    /// Consumes the handle, as dropping it does: a registered listener's
    /// state machine is closed, a probe in flight is cancelled and stays
    /// until its completion is drained, and no further event is delivered
    /// for it.
    pub fn close(self, sel: &mut Selector)
        requires
            old(sel).wf(),
            self.valid_in(*old(sel)),
            self.key_of() is Some ==> self.guard().id() == old(sel).spec_id(),
        ensures
            final(sel).wf(),
            final(sel).spec_id() == old(sel).spec_id(),
            final(sel).pool_bound() == old(sel).pool_bound(),
            final(sel).pool_outstanding() == old(sel).pool_outstanding(),
            final(sel).next_op() == old(sel).next_op(),
            final(sel).slots().len() == old(sel).slots().len(),
            forall|j: int|
                0 <= j < old(sel).slots().len() && Some(j as usize) != self.key_of() ==> final(sel).slots()[j] == old(sel).slots()[j],
            self.key_of() matches Some(k) ==> slot_closed_step(
                old(sel).slots()[k as int],
                final(sel).slots()[k as int],
            ),
            self.key_of() is None ==> *final(sel) == *old(sel),
    {
        match self.key {
            Some(k) => {
                sel.close_key(k);
            },
            None => (),
        }
    }
}

} // verus!
