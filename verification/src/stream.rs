//! The stream handle: a model socket, the selector-identity guard, the
//! side-table key of its state machine once registered, and the deferred
//! connect target, if any.

use vstd::prelude::*;
use crate::net;
use crate::poll::{associate_step, SelectorId};
use crate::ready::{Error, PollOpt, Ready, Token};
use crate::selector::{
    read_taken, stream_read_step, stream_registered, stream_reregistered, stream_write_step,
    slot_closed_step, Selector, Slot,
};
use crate::vectored::{buf_views, caps_total_sat, gather, scatter, scatter_spec, total_capacity};

verus! {

/// A non-blocking stream between a local socket and a remote socket,
/// driven by a completion-based selector.
pub struct UnixStream {
    sys: net::UnixStream,
    selector_id: SelectorId,
    key: Option<usize>,
    connect_to: Option<net::SocketAddr>,
}

impl UnixStream {
    /// The model of the underlying socket.
    pub closed spec fn sys_spec(&self) -> net::UnixStream {
        self.sys
    }

    /// The selector-identity guard.
    pub closed spec fn guard(&self) -> SelectorId {
        self.selector_id
    }

    /// The side-table key of the stream's state machine, once registered.
    pub closed spec fn key_of(&self) -> Option<usize> {
        self.key
    }

    /// The deferred connect target, for a stream built by `connect` or
    /// `connect_stream` — the connect operation is issued when the stream
    /// is registered.
    pub closed spec fn connect_target(&self) -> Option<net::SocketAddr> {
        self.connect_to
    }

    /// If the handle carries a key for this selector, the key names a live
    /// stream machine in its table.
    pub open spec fn valid_in(&self, sel: Selector) -> bool {
        match self.key_of() {
            None => true,
            Some(k) => self.guard().id() != 0 && (self.guard().id() == sel.spec_id() ==> k
                < sel.slots().len() && (sel.slots()[k as int] matches Slot::Stream(m)
                && !m.closed)),
        }
    }

    /// The handle is registered with this selector: its guard holds the
    /// selector's identity and its key names a live stream machine.
    pub open spec fn registered_in(&self, sel: Selector) -> bool {
        &&& self.key_of() is Some
        &&& self.guard().id() == sel.spec_id()
        &&& self.valid_in(sel)
    }

    /// The addresses the handle carries are well-formed.
    pub open spec fn wf(&self) -> bool {
        &&& self.sys_spec().wf()
        &&& match self.connect_target() {
            Some(a) => a.wf(),
            None => true,
        }
    }

    /// Wraps a fresh socket and schedules a non-blocking connect to the
    /// given pathname: the connect operation is issued at registration.
    /// Fails exactly when the path does not fit the socket address buffer.
    pub fn connect(sock: net::UnixStream, path: &Vec<u8>) -> (r: Result<UnixStream, Error>)
        requires
            sock.wf(),
        ensures
            path@.len() <= net::MAX_SUN_PATH ==> (r matches Ok(s) && s.sys_spec() == sock
                && s.guard().id() == 0 && s.key_of() is None && (s.connect_target() matches Some(a)
                && a.pathname() == Some(path@)) && s.wf()),
            path@.len() > net::MAX_SUN_PATH ==> r == Err::<UnixStream, Error>(Error::InvalidPath),
    {
        let addr = net::SocketAddr::from_path(path)?;
        UnixStream::connect_stream(sock, &addr)
    }

    /// Wraps a socket the surrounding program configured and schedules a
    /// non-blocking connect to `addr`: the connect operation is issued
    /// when the returned stream is registered.
    pub fn connect_stream(stream: net::UnixStream, addr: &net::SocketAddr) -> (r: Result<
        UnixStream,
        Error,
    >)
        requires
            stream.wf(),
            addr.wf(),
        ensures
            r matches Ok(s) && s.sys_spec() == stream && s.guard().id() == 0
                && s.key_of() is None && (s.connect_target() matches Some(a) && a.pathname()
                == addr.pathname()) && s.wf(),
    {
        Ok(
            UnixStream {
                sys: stream,
                selector_id: SelectorId::new(),
                key: None,
                connect_to: Some(addr.clone_addr()),
            },
        )
    }

    /// Wraps a socket that is already connected by some other means: the
    /// socket is put into non-blocking mode and the returned stream is
    /// ready to be registered.
    pub fn from_stream(stream: net::UnixStream) -> (r: Result<UnixStream, Error>)
        ensures
            r matches Ok(s) && s.guard().id() == 0 && s.key_of() is None
                && s.connect_target() is None && s.sys_spec().is_nonblocking()
                && s.sys_spec().desc() == stream.desc() && s.sys_spec().local_spec()
                == stream.local_spec() && s.sys_spec().peer_spec() == stream.peer_spec() && (
            stream.wf() ==> s.wf()),
    {
        let mut stream = stream;
        stream.set_nonblocking(true);
        Ok(UnixStream { sys: stream, selector_id: SelectorId::new(), key: None, connect_to: None })
    }

    /// The stream was registered with this selector for a deferred
    /// connect, and the connect operation has completed: the connect
    /// target is the peer.
    pub open spec fn peer_known_via(&self, sel: Selector) -> bool {
        &&& self.key_of() matches Some(k)
        &&& self.connect_target() is Some
        &&& self.guard().id() == sel.spec_id()
        &&& self.key_of().unwrap() < sel.slots().len()
        &&& sel.slots()[self.key_of().unwrap() as int] matches Slot::Stream(m) && !m.closed
            && m.conn is Connected
    }

    /// Returns the address of the remote peer: known from the underlying
    /// socket for a stream that was connected or accepted outside, and
    /// from the connect target once the connect operation completed in
    /// `sel`.  Fails with `NotConnected` while neither holds.
    pub fn peer_addr(&self, sel: &Selector) -> (r: Result<net::SocketAddr, Error>)
        ensures
            match self.sys_spec().peer_spec() {
                Some(p) => r matches Ok(a) && a.pathname() == p.pathname(),
                None => if self.peer_known_via(*sel) {
                    r matches Ok(a) && (self.connect_target() matches Some(t) && a.pathname()
                        == t.pathname())
                } else {
                    r == Err::<net::SocketAddr, Error>(Error::NotConnected)
                },
            },
    {
        match self.sys.peer_addr() {
            Ok(a) => Ok(a),
            Err(_) => {
                match (&self.key, &self.connect_to) {
                    (Some(k), Some(target)) => {
                        let k = *k;
                        if self.selector_id.current_id() == sel.id() && k < sel.slot_count()
                            && sel.key_is_connected_stream(k) {
                            Ok(target.clone_addr())
                        } else {
                            Err(Error::NotConnected)
                        }
                    },
                    _ => Err(Error::NotConnected),
                }
            },
        }
    }

    /// Returns the address of the local half of this connection.
    pub fn local_addr(&self) -> (r: Result<net::SocketAddr, Error>)
        ensures
            r matches Ok(a) && a.pathname() == self.sys_spec().local_spec().pathname(),
    {
        self.sys.local_addr()
    }

    /// Returns an independently owned handle to the same underlying
    /// socket.  The clone carries a snapshot of the selector identity at
    /// clone time and maintains it independently thereafter; it starts
    /// unregistered.
    pub fn try_clone(&self) -> (r: Result<UnixStream, Error>)
        ensures
            r matches Ok(s) && s.guard() == self.guard() && s.key_of() is None
                && s.connect_target() is None && s.sys_spec().desc() == self.sys_spec().desc(),
    {
        Ok(
            UnixStream {
                sys: self.sys.duplicate(),
                selector_id: self.selector_id,
                key: None,
                connect_to: None,
            },
        )
    }

    /// Returns and clears the error stored on the underlying socket.
    pub fn take_error(&mut self) -> (r: Result<Option<Error>, Error>)
        ensures
            r == Ok::<Option<Error>, Error>(
                match old(self).sys_spec().stored_error() {
                    Some(code) => Some(Error::Os(code)),
                    None => None,
                },
            ),
            final(self).sys_spec().stored_error() is None,
            final(self).guard() == old(self).guard(),
            final(self).key_of() == old(self).key_of(),
            final(self).connect_target() == old(self).connect_target(),
    {
        self.sys.take_error()
    }

    /// Registers the stream with the selector under `token`.  The
    /// selector-identity guard admits at most one selector per handle:
    /// registering while still bound to a different selector fails with
    /// `AlreadyAssociated` and changes nothing.  A first registration
    /// installs the state machine and issues the deferred connect or one
    /// probe per requested direction; registering again with the same
    /// selector adjusts the registration like `reregister`.
    pub fn register(
        &mut self,
        sel: &mut Selector,
        token: Token,
        interest: Ready,
        opts: PollOpt,
    ) -> (r: Result<(), Error>)
        requires
            old(sel).wf(),
            old(self).valid_in(*old(sel)),
            old(sel).slots().len() < usize::MAX,
            old(sel).pool_outstanding() + 2 <= usize::MAX,
            old(sel).next_op() + 2 <= u64::MAX,
        ensures
            final(sel).wf(),
            final(sel).spec_id() == old(sel).spec_id(),
            final(sel).pool_bound() == old(sel).pool_bound(),
            final(sel).pool_outstanding() <= old(sel).pool_outstanding() + 2,
            final(sel).next_op() <= old(sel).next_op() + 2,
            final(self).sys_spec() == old(self).sys_spec(),
            final(self).connect_target() == old(self).connect_target(),
            associate_step(
                old(self).guard(),
                old(sel).spec_id(),
                final(self).guard(),
                if r is Ok {
                    Ok(())
                } else {
                    Err(Error::AlreadyAssociated)
                },
            ),
            old(self).guard().id() != 0 && old(self).guard().id() != old(sel).spec_id() ==> (r
                == Err::<(), Error>(Error::AlreadyAssociated) && *final(sel) == *old(sel) && final(self).key_of() == old(self).key_of()),
            (old(self).guard().id() == 0 || old(self).guard().id() == old(sel).spec_id()) ==> (r
                == Ok::<(), Error>(()) && final(self).registered_in(*final(sel)) && {
                match old(self).key_of() {
                    None => {
                        &&& final(self).key_of() == Some(old(sel).slots().len() as usize)
                        &&& final(sel).slots().len() == old(sel).slots().len() + 1
                        &&& (forall|j: int|
                            0 <= j < old(sel).slots().len() ==> final(sel).slots()[j] == old(sel).slots()[j])
                        &&& final(sel).slots().last() matches Slot::Stream(m)
                            && stream_registered(
                            m,
                            token,
                            interest,
                            opts,
                            old(self).connect_target() is Some,
                            old(sel).next_op(),
                        )
                    },
                    Some(k) => {
                        &&& final(self).key_of() == Some(k)
                        &&& final(sel).slots().len() == old(sel).slots().len()
                        &&& (forall|j: int|
                            0 <= j < old(sel).slots().len() && j != k ==> final(sel).slots()[j]
                                == old(sel).slots()[j])
                        &&& old(sel).slots()[k as int] matches Slot::Stream(pre) && final(sel).slots()[k as int] matches Slot::Stream(post) && stream_reregistered(
                            pre,
                            post,
                            token,
                            interest,
                            opts,
                            old(sel).next_op(),
                        )
                    },
                }
            }),
    {
        proof {
            crate::selector::lemma_wf_id_nonzero(*sel);
        }
        let sel_id = sel.id();
        self.selector_id.associate_selector(sel_id)?;
        match self.key {
            None => {
                let connecting = self.connect_to.is_some();
                let k = sel.register_stream(token, interest, opts, connecting);
                self.key = Some(k);
                Ok(())
            },
            Some(k) => {
                sel.reregister_stream(k, token, interest, opts);
                Ok(())
            },
        }
    }

    /// Adjusts the registration: the new token, interest and option take
    /// effect, newly observed idle directions of a connected stream get a
    /// fresh probe, and in-flight operations of dropped directions are
    /// left to complete and be discarded without re-arming.
    pub fn reregister(
        &mut self,
        sel: &mut Selector,
        token: Token,
        interest: Ready,
        opts: PollOpt,
    ) -> (r: Result<(), Error>)
        requires
            old(sel).wf(),
            old(self).registered_in(*old(sel)),
            old(sel).pool_outstanding() + 2 <= usize::MAX,
            old(sel).next_op() + 2 <= u64::MAX,
        ensures
            final(sel).wf(),
            final(sel).spec_id() == old(sel).spec_id(),
            final(sel).pool_bound() == old(sel).pool_bound(),
            final(sel).pool_outstanding() <= old(sel).pool_outstanding() + 2,
            final(sel).next_op() == old(sel).next_op() + 2,
            final(sel).slots().len() == old(sel).slots().len(),
            *final(self) == *old(self),
            r == Ok::<(), Error>(()),
            final(self).registered_in(*final(sel)),
            forall|j: int|
                0 <= j < old(sel).slots().len() && Some(j as usize) != old(self).key_of() ==> final(sel).slots()[j] == old(sel).slots()[j],
            old(self).key_of() matches Some(k) && old(sel).slots()[k as int] matches Slot::Stream(
                pre,
            ) && final(sel).slots()[k as int] matches Slot::Stream(post) && stream_reregistered(
                pre,
                post,
                token,
                interest,
                opts,
                old(sel).next_op(),
            ),
    {
        match self.key {
            Some(k) => {
                sel.reregister_stream(k, token, interest, opts);
                Ok(())
            },
            None => {
                proof {
                    assert(false);
                }
                Err(Error::NotConnected)
            },
        }
    }

    /// Deregisters the stream: its state machine is closed, in-flight
    /// operations are cancelled and stay until their completion is
    /// drained, and the guard is released so the handle may associate with
    /// any selector again.
    pub fn deregister(&mut self, sel: &mut Selector) -> (r: Result<(), Error>)
        requires
            old(sel).wf(),
            old(self).registered_in(*old(sel)),
        ensures
            final(sel).wf(),
            final(sel).spec_id() == old(sel).spec_id(),
            final(sel).pool_bound() == old(sel).pool_bound(),
            final(sel).pool_outstanding() == old(sel).pool_outstanding(),
            final(sel).next_op() == old(sel).next_op(),
            final(sel).slots().len() == old(sel).slots().len(),
            r == Ok::<(), Error>(()),
            final(self).guard().id() == 0,
            final(self).key_of() is None,
            final(self).sys_spec() == old(self).sys_spec(),
            final(self).connect_target() == old(self).connect_target(),
            forall|j: int|
                0 <= j < old(sel).slots().len() && Some(j as usize) != old(self).key_of() ==> final(sel).slots()[j] == old(sel).slots()[j],
            old(self).key_of() matches Some(k) && slot_closed_step(
                old(sel).slots()[k as int],
                final(sel).slots()[k as int],
            ),
    {
        match self.key {
            Some(k) => {
                sel.close_key(k);
                self.key = None;
                self.selector_id.disassociate();
                Ok(())
            },
            None => {
                proof {
                    assert(false);
                }
                Err(Error::NotConnected)
            },
        }
    }

    /// Consumes the handle, as dropping it does: a registered stream's
    /// state machine is closed, its in-flight operations are cancelled and
    /// stay until their completion is drained, and no further event is
    /// delivered for it.
    pub fn close(self, sel: &mut Selector)
        requires
            old(sel).wf(),
            self.valid_in(*old(sel)),
            self.key_of() is Some ==> self.guard().id() == old(sel).spec_id(),
        ensures
            final(sel).wf(),
            final(sel).spec_id() == old(sel).spec_id(),
            final(sel).pool_bound() == old(sel).pool_bound(),
            final(sel).pool_outstanding() == old(sel).pool_outstanding(),
            final(sel).next_op() == old(sel).next_op(),
            final(sel).slots().len() == old(sel).slots().len(),
            forall|j: int|
                0 <= j < old(sel).slots().len() && Some(j as usize) != self.key_of() ==> final(sel).slots()[j] == old(sel).slots()[j],
            self.key_of() matches Some(k) ==> slot_closed_step(
                old(sel).slots()[k as int],
                final(sel).slots()[k as int],
            ),
            self.key_of() is None ==> *final(sel) == *old(sel),
    {
        match self.key {
            Some(k) => {
                sel.close_key(k);
            },
            None => (),
        }
    }

    /// Hands out the bytes the selector's read operations delivered for
    /// this stream, in order, up to `max` per call, overwriting `buf`.
    /// Fails with `NotConnected` before the connect operation completes,
    /// with the stored code after a failed connect, and signals
    /// `WouldBlock` while no delivered data is at hand — the probe in
    /// flight will report readiness through a later poll.
    pub fn read(&self, sel: &mut Selector, buf: &mut Vec<u8>, max: usize) -> (r: Result<
        usize,
        Error,
    >)
        requires
            old(sel).wf(),
            self.registered_in(*old(sel)),
            old(sel).pool_outstanding() < usize::MAX,
            old(sel).next_op() < u64::MAX,
        ensures
            final(sel).wf(),
            final(sel).spec_id() == old(sel).spec_id(),
            final(sel).pool_bound() == old(sel).pool_bound(),
            final(sel).pool_outstanding() <= old(sel).pool_outstanding() + 1,
            final(sel).next_op() == old(sel).next_op() + 1,
            final(sel).slots().len() == old(sel).slots().len(),
            self.registered_in(*final(sel)),
            forall|j: int|
                0 <= j < old(sel).slots().len() && Some(j as usize) != self.key_of() ==> final(sel).slots()[j] == old(sel).slots()[j],
            self.key_of() matches Some(k) && old(sel).slots()[k as int] matches Slot::Stream(pre)
                && final(sel).slots()[k as int] matches Slot::Stream(post) && stream_read_step(
                pre,
                post,
                r,
                final(buf)@,
                max,
                old(sel).next_op(),
            ),
    {
        match self.key {
            Some(k) => sel.read_from(k, buf, max),
            None => {
                proof {
                    assert(false);
                }
                Err(Error::NotConnected)
            },
        }
    }

    /// Accepts the whole of `data` for transmission: the bytes are copied
    /// into a pool buffer and a write operation carrying exactly them is
    /// issued.  Fails with `NotConnected` before the connect operation
    /// completes, with the stored code after a failed connect, and signals
    /// `WouldBlock` while the previous write operation is still in flight.
    pub fn write(&self, sel: &mut Selector, data: &Vec<u8>) -> (r: Result<usize, Error>)
        requires
            old(sel).wf(),
            self.registered_in(*old(sel)),
            old(sel).pool_outstanding() < usize::MAX,
            old(sel).next_op() < u64::MAX,
        ensures
            final(sel).wf(),
            final(sel).spec_id() == old(sel).spec_id(),
            final(sel).pool_bound() == old(sel).pool_bound(),
            final(sel).pool_outstanding() <= old(sel).pool_outstanding() + 1,
            final(sel).next_op() == old(sel).next_op() + 1,
            final(sel).slots().len() == old(sel).slots().len(),
            self.registered_in(*final(sel)),
            forall|j: int|
                0 <= j < old(sel).slots().len() && Some(j as usize) != self.key_of() ==> final(sel).slots()[j] == old(sel).slots()[j],
            self.key_of() matches Some(k) && old(sel).slots()[k as int] matches Slot::Stream(pre)
                && final(sel).slots()[k as int] matches Slot::Stream(post) && stream_write_step(
                pre,
                post,
                r,
                data@,
                old(sel).next_op(),
            ),
    {
        match self.key {
            Some(k) => sel.write_to(k, data),
            None => {
                proof {
                    assert(false);
                }
                Err(Error::NotConnected)
            },
        }
    }

    /// Writes a list of buffers all at once: the buffers are gathered in
    /// order into one contiguous transfer, a buffer entirely before the
    /// next, and the whole transfer is accepted as one write operation —
    /// or `WouldBlock` is signalled and nothing is taken.
    pub fn write_bufs(&self, sel: &mut Selector, bufs: &Vec<Vec<u8>>) -> (r: Result<usize, Error>)
        requires
            old(sel).wf(),
            self.registered_in(*old(sel)),
            old(sel).pool_outstanding() < usize::MAX,
            old(sel).next_op() < u64::MAX,
        ensures
            final(sel).wf(),
            final(sel).spec_id() == old(sel).spec_id(),
            final(sel).pool_bound() == old(sel).pool_bound(),
            final(sel).pool_outstanding() <= old(sel).pool_outstanding() + 1,
            final(sel).next_op() == old(sel).next_op() + 1,
            final(sel).slots().len() == old(sel).slots().len(),
            self.registered_in(*final(sel)),
            forall|j: int|
                0 <= j < old(sel).slots().len() && Some(j as usize) != self.key_of() ==> final(sel).slots()[j] == old(sel).slots()[j],
            self.key_of() matches Some(k) && old(sel).slots()[k as int] matches Slot::Stream(pre)
                && final(sel).slots()[k as int] matches Slot::Stream(post) && stream_write_step(
                pre,
                post,
                r,
                buf_views(bufs@).flatten(),
                old(sel).next_op(),
            ),
    {
        let data = gather(bufs);
        self.write(sel, &data)
    }

    /// Reads into a list of buffers all at once: up to the total of the
    /// given capacities is taken from the delivered bytes and scattered
    /// across fresh buffers of those capacities, each filled entirely
    /// before the next.
    pub fn read_bufs(&self, sel: &mut Selector, caps: &Vec<usize>) -> (r: Result<
        Vec<Vec<u8>>,
        Error,
    >)
        requires
            old(sel).wf(),
            self.registered_in(*old(sel)),
            old(sel).pool_outstanding() < usize::MAX,
            old(sel).next_op() < u64::MAX,
        ensures
            final(sel).wf(),
            final(sel).spec_id() == old(sel).spec_id(),
            final(sel).pool_bound() == old(sel).pool_bound(),
            final(sel).pool_outstanding() <= old(sel).pool_outstanding() + 1,
            final(sel).next_op() == old(sel).next_op() + 1,
            final(sel).slots().len() == old(sel).slots().len(),
            self.registered_in(*final(sel)),
            forall|j: int|
                0 <= j < old(sel).slots().len() && Some(j as usize) != self.key_of() ==> final(sel).slots()[j] == old(sel).slots()[j],
            self.key_of() matches Some(k) && old(sel).slots()[k as int] matches Slot::Stream(pre)
                && final(sel).slots()[k as int] matches Slot::Stream(post) && {
                &&& stream_read_step(
                    pre,
                    post,
                    match r {
                        Ok(_) => Ok(read_taken(pre, caps_total_sat(caps@)).len() as usize),
                        Err(e) => Err(e),
                    },
                    read_taken(pre, caps_total_sat(caps@)),
                    caps_total_sat(caps@),
                    old(sel).next_op(),
                )
                &&& r matches Ok(out) ==> buf_views(out@) == scatter_spec(
                    read_taken(pre, caps_total_sat(caps@)),
                    caps@,
                )
            },
    {
        let max = total_capacity(caps);
        let mut data: Vec<u8> = Vec::new();
        let r = self.read(sel, &mut data, max);
        proof {
            let k = self.key_of().unwrap() as int;
            crate::selector::lemma_wf_slot(*old(sel), k);
            match old(sel).slots()[k] {
                Slot::Stream(pre) => {
                    assert(data@ == read_taken(pre, max));
                    assert(r matches Ok(n) ==> n == read_taken(pre, max).len());
                },
                _ => (),
            }
        }
        match r {
            Ok(_) => Ok(scatter(&data, caps)),
            Err(e) => Err(e),
        }
    }

    /// Flushing has no buffered state of its own to push: writes travel as
    /// whole operations.
    pub fn flush(&self) -> (r: Result<(), Error>)
        ensures
            r == Ok::<(), Error>(()),
    {
        Ok(())
    }
}

} // verus!
