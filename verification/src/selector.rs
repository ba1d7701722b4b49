//! The selector: one completion queue's worth of state.  It owns the
//! buffer pool and an explicit side-table from operation keys to the
//! per-socket state machines, hands buffers to the operations the machines
//! issue, drains completion packets into readiness events, and re-arms
//! probes according to the registered level- or edge-triggered interest.

use vstd::prelude::*;
use crate::machine::{
    AcceptState, Completion, CompletionKind, ConnState, ListenerMachine, ReadState, StreamMachine,
    WriteState,
};
use crate::net;
use crate::poll::IdSource;
use crate::pool::BufferPool;
use crate::ready::{Error, Event, PollOpt, Ready, Token};

verus! {

/// Capacity of the buffer handed to a read probe.
pub const READ_BUF_CAP: usize = 65536;

/// Capacity of the buffer that receives the peer address of an accepted
/// connection.
pub const ACCEPT_BUF_CAP: usize = 256;

/// One entry of the selector's side-table.
pub enum Slot {
    /// No state machine owns this key.
    Vacant,
    /// A stream's state machine.
    Stream(StreamMachine),
    /// A listener's state machine.
    Listener(ListenerMachine),
}

impl Slot {
    /// How many operations the slot has in flight.
    pub open spec fn ops(self) -> nat {
        match self {
            Slot::Vacant => 0,
            Slot::Stream(m) => m.ops(),
            Slot::Listener(m) => m.ops(),
        }
    }

    /// How many pool buffers the slot holds.
    pub open spec fn bufs(self) -> nat {
        match self {
            Slot::Vacant => 0,
            Slot::Stream(m) => m.bufs(),
            Slot::Listener(m) => m.bufs(),
        }
    }

    /// Well-formedness of the slot.
    pub open spec fn wf(self) -> bool {
        match self {
            Slot::Vacant => true,
            Slot::Stream(m) => m.wf(),
            Slot::Listener(m) => m.wf(),
        }
    }

    /// Every in-flight operation was issued before `bound`.
    pub open spec fn ops_below(self, bound: u64) -> bool {
        match self {
            Slot::Vacant => true,
            Slot::Stream(m) => m.ops_below(bound),
            Slot::Listener(m) => m.ops_below(bound),
        }
    }
}

/// Total number of pool buffers held by in-flight operations across the
/// table.
pub open spec fn table_bufs(t: Seq<Slot>) -> nat
    decreases t.len(),
{
    if t.len() == 0 {
        0
    } else {
        table_bufs(t.drop_last()) + t.last().bufs()
    }
}

/// Total number of in-flight operations across the table.
pub open spec fn table_ops(t: Seq<Slot>) -> nat
    decreases t.len(),
{
    if t.len() == 0 {
        0
    } else {
        table_ops(t.drop_last()) + t.last().ops()
    }
}

/// Appending a slot adds its counts to the table's totals.
pub proof fn lemma_table_counts_push(t: Seq<Slot>, s: Slot)
    ensures
        table_bufs(t.push(s)) == table_bufs(t) + s.bufs(),
        table_ops(t.push(s)) == table_ops(t) + s.ops(),
{
    assert(t.push(s).drop_last() =~= t);
    assert(t.push(s).last() == s);
}

/// Replacing one slot changes the table's totals by the difference of the
/// slot counts.
pub proof fn lemma_table_counts_update(t: Seq<Slot>, i: int, s: Slot)
    requires
        0 <= i < t.len(),
    ensures
        table_bufs(t.update(i, s)) + t[i].bufs() == table_bufs(t) + s.bufs(),
        table_ops(t.update(i, s)) + t[i].ops() == table_ops(t) + s.ops(),
    decreases t.len(),
{
    if i == t.len() - 1 {
        assert(t.update(i, s).drop_last() =~= t.drop_last());
        assert(t.update(i, s).last() == s);
        assert(t.last() == t[i]);
    } else {
        assert(t.update(i, s).drop_last() =~= t.drop_last().update(i, s));
        assert(t.update(i, s).last() == t.last());
        lemma_table_counts_update(t.drop_last(), i, s);
        assert(t.drop_last()[i] == t[i]);
    }
}

/// Each slot's counts are bounded by the table's totals.
pub proof fn lemma_table_counts_at(t: Seq<Slot>, i: int)
    requires
        0 <= i < t.len(),
    ensures
        t[i].bufs() <= table_bufs(t),
        t[i].ops() <= table_ops(t),
    decreases t.len(),
{
    if i == t.len() - 1 {
        assert(t.last() == t[i]);
    } else {
        lemma_table_counts_at(t.drop_last(), i);
        assert(t.drop_last()[i] == t[i]);
    }
}

/// No slot holds more buffers than it has operations in flight, so the
/// table as a whole does not either.
pub proof fn lemma_table_bufs_le_ops(t: Seq<Slot>)
    ensures
        table_bufs(t) <= table_ops(t),
    decreases t.len(),
{
    if t.len() > 0 {
        lemma_table_bufs_le_ops(t.drop_last());
    }
}

/// One completion queue's worth of state: a process-unique identity, the
/// buffer pool, the side-table of state machines, and the source of
/// operation identities.
pub struct Selector {
    id: usize,
    pool: BufferPool,
    table: Vec<Slot>,
    next_op: u64,
}

impl Selector {
    /// The selector's process-unique identity.
    pub closed spec fn spec_id(&self) -> usize {
        self.id
    }

    /// The side-table of state machines, by key.
    pub closed spec fn slots(&self) -> Seq<Slot> {
        self.table@
    }

    /// The number of buffers the pool currently stores.
    pub closed spec fn pool_size(&self) -> nat {
        self.pool.size()
    }

    /// The bound on the number of buffers the pool stores.
    pub closed spec fn pool_bound(&self) -> usize {
        self.pool.bound()
    }

    /// The number of buffers handed out and not yet returned.
    pub closed spec fn pool_outstanding(&self) -> usize {
        self.pool.outstanding()
    }

    /// The identity the next issued operation receives.
    pub closed spec fn next_op(&self) -> u64 {
        self.next_op
    }

    /// Well-formedness: the identity is non-zero, the pool is well-formed,
    /// every buffer handed out is held by exactly one in-flight operation
    /// in the table, and every slot is well-formed with all its operation
    /// identities below the next one to be issued.
    pub closed spec fn wf(&self) -> bool {
        &&& self.id != 0
        &&& self.pool.wf()
        &&& self.pool.outstanding() == table_bufs(self.table@)
        &&& forall|i: int|
            0 <= i < self.table@.len() ==> (#[trigger] self.table@[i]).wf()
                && self.table@[i].ops_below(self.next_op)
    }

    /// Creates a selector: draws the next process-wide identity and
    /// reserves a pool of `pool_bound` buffers.
    pub fn new(ids: &mut IdSource, pool_bound: usize) -> (s: Selector)
        requires
            old(ids).wf(),
            old(ids).next() < usize::MAX,
        ensures
            final(ids).wf(),
            final(ids).next() == old(ids).next() + 1,
            s.wf(),
            s.spec_id() == old(ids).next(),
            s.spec_id() != 0,
            s.slots().len() == 0,
            s.pool_size() == 0,
            s.pool_bound() == pool_bound,
            s.pool_outstanding() == 0,
            s.next_op() == 0,
    {
        let id = ids.allocate();
        Selector { id, pool: BufferPool::new(pool_bound), table: Vec::new(), next_op: 0 }
    }

    /// Returns the selector's identity.
    pub fn id(&self) -> (id: usize)
        ensures
            id == self.spec_id(),
    {
        self.id
    }

    /// Returns the number of side-table entries.
    pub fn slot_count(&self) -> (n: usize)
        ensures
            n == self.slots().len(),
    {
        self.table.len()
    }

    /// Returns the identity the next issued operation will receive.  The
    /// driver that performs the operations against the kernel reads it to
    /// know which identities the probes it owes work for carry.
    pub fn next_operation(&self) -> (n: u64)
        ensures
            n == self.next_op(),
    {
        self.next_op
    }

    /// Returns whether the slot at `key` holds a live stream whose
    /// connect operation completed.
    pub fn key_is_connected_stream(&self, key: usize) -> (r: bool)
        requires
            key < self.slots().len(),
        ensures
            r == (self.slots()[key as int] matches Slot::Stream(m) && !m.closed
                && m.conn is Connected),
    {
        match &self.table[key] {
            Slot::Stream(m) => !m.closed && matches!(m.conn, ConnState::Connected),
            _ => false,
        }
    }
}

/// A read probe freshly issued with operation identity `op`: its buffer is
/// empty, ready for the kernel to fill.
pub open spec fn fresh_read_probe(r: ReadState, op: u64) -> bool {
    r matches ReadState::Probing { op_id, buf } && op_id == op && buf.wf() && buf@.len() == 0
}

/// A zero-length write probe freshly issued with operation identity `op`.
pub open spec fn fresh_write_probe(w: WriteState, op: u64) -> bool {
    w matches WriteState::Writing { op_id, buf } && op_id == op && buf.wf() && buf@.len() == 0
}

/// An accept probe freshly issued with operation identity `op`.
pub open spec fn fresh_accept_probe(a: AcceptState, op: u64) -> bool {
    a matches AcceptState::Probing { op_id, buf } && op_id == op && buf.wf() && buf@.len() == 0
}

/// The machine a stream registration installs: for a deferred connect, the
/// connect operation is issued; otherwise one probe per requested
/// direction.
pub open spec fn stream_registered(
    m: StreamMachine,
    token: Token,
    interest: Ready,
    opt: PollOpt,
    connecting: bool,
    fresh: u64,
) -> bool {
    &&& m.token == token
    &&& m.interest == interest
    &&& m.opt == opt
    &&& !m.closed
    &&& if connecting {
        &&& m.conn == (ConnState::Connecting { op_id: fresh })
        &&& m.read is Idle
        &&& m.write is Idle
    } else {
        &&& m.conn is Connected
        &&& if interest.readable {
            fresh_read_probe(m.read, fresh)
        } else {
            m.read is Idle
        }
        &&& if interest.writable {
            fresh_write_probe(m.write, (fresh + 1) as u64)
        } else {
            m.write is Idle
        }
    }
}

/// The machine a listener registration installs: an accept probe when the
/// caller asked to observe readability.
pub open spec fn listener_registered(
    m: ListenerMachine,
    token: Token,
    interest: Ready,
    opt: PollOpt,
    fresh: u64,
) -> bool {
    &&& m.token == token
    &&& m.interest == interest
    &&& m.opt == opt
    &&& !m.closed
    &&& m.pending@.len() == 0
    &&& if interest.readable {
        fresh_accept_probe(m.accept, fresh)
    } else {
        m.accept is Idle
    }
}

/// What a stream re-registration does: adopt the new token, interest and
/// option; issue a fresh probe for each newly observed direction that is
/// idle on a connected stream; leave every in-flight operation and every
/// undelivered result untouched.
pub open spec fn stream_reregistered(
    pre: StreamMachine,
    post: StreamMachine,
    token: Token,
    interest: Ready,
    opt: PollOpt,
    fresh: u64,
) -> bool {
    &&& post.token == token
    &&& post.interest == interest
    &&& post.opt == opt
    &&& post.closed == pre.closed
    &&& post.conn == pre.conn
    &&& if interest.readable && pre.read is Idle && pre.conn is Connected {
        fresh_read_probe(post.read, fresh)
    } else {
        post.read == pre.read
    }
    &&& if interest.writable && pre.write is Idle && pre.conn is Connected {
        fresh_write_probe(post.write, (fresh + 1) as u64)
    } else {
        post.write == pre.write
    }
}

/// What a listener re-registration does.
pub open spec fn listener_reregistered(
    pre: ListenerMachine,
    post: ListenerMachine,
    token: Token,
    interest: Ready,
    opt: PollOpt,
    fresh: u64,
) -> bool {
    &&& post.token == token
    &&& post.interest == interest
    &&& post.opt == opt
    &&& post.closed == pre.closed
    &&& post.pending == pre.pending
    &&& if interest.readable && pre.accept is Idle {
        fresh_accept_probe(post.accept, fresh)
    } else {
        post.accept == pre.accept
    }
}

/// What closing a slot does: the machine is marked closed, undelivered
/// results and pending connections are dropped, in-flight operations stay
/// to be drained, and the slot is reclaimed as soon as none remains.
pub open spec fn slot_closed_step(pre: Slot, post: Slot) -> bool {
    match pre {
        Slot::Vacant => post == Slot::Vacant,
        Slot::Stream(m) => {
            let m2 = StreamMachine {
                closed: true,
                read: if m.read is Probing {
                    m.read
                } else {
                    ReadState::Idle
                },
                write: if m.write is Writing {
                    m.write
                } else {
                    WriteState::Idle
                },
                ..m
            };
            if m2.ops() == 0 {
                post == Slot::Vacant
            } else {
                post == Slot::Stream(m2)
            }
        },
        Slot::Listener(m) => {
            if m.accept.ops() == 0 {
                post == Slot::Vacant
            } else {
                post matches Slot::Listener(l) && l.token == m.token && l.interest == m.interest
                    && l.opt == m.opt && l.closed && l.pending@.len() == 0 && l.accept == m.accept
            }
        },
    }
}

/// Readiness reported by a read completion: readable, plus hang-up when
/// the kernel delivered no bytes.
pub open spec fn read_readiness(data: Seq<u8>) -> Ready {
    Ready { readable: true, writable: false, error: false, hup: data.len() == 0 }
}

/// Readiness holding only the readable kind.
pub open spec fn readable_only() -> Ready {
    Ready { readable: true, writable: false, error: false, hup: false }
}

/// Readiness holding only the writable kind.
pub open spec fn writable_only() -> Ready {
    Ready { readable: false, writable: true, error: false, hup: false }
}

/// Readiness holding only the error kind.
pub open spec fn error_only() -> Ready {
    Ready { readable: false, writable: false, error: true, hup: false }
}

/// The events one completion produced: none, or exactly one.
pub open spec fn opt_ev(e: Option<Event>) -> Seq<Event> {
    match e {
        Some(e) => seq![e],
        None => Seq::<Event>::empty(),
    }
}

/// A closed stream machine, reclaimed once its last in-flight operation
/// drained.
pub open spec fn seal_stream(m: StreamMachine) -> Slot {
    if m.ops() == 0 {
        Slot::Vacant
    } else {
        Slot::Stream(m)
    }
}

/// How one completion packet advances a closed stream: the matching
/// cancelled operation is drained, its buffer returns to the pool, no
/// event is produced, and the slot is reclaimed once no operation remains.
pub open spec fn stream_drain_step(
    m: StreamMachine,
    op_id: u64,
    kind: CompletionKind,
    post: Slot,
    ev: Seq<Event>,
) -> bool {
    &&& ev == Seq::<Event>::empty()
    &&& {
        let m2 = match kind {
            CompletionKind::Read { .. } => if m.read matches ReadState::Probing { op_id: my, .. }
                && my == op_id {
                StreamMachine { read: ReadState::Idle, ..m }
            } else {
                m
            },
            CompletionKind::Write => if m.write matches WriteState::Writing { op_id: my, .. }
                && my == op_id {
                StreamMachine { write: WriteState::Idle, ..m }
            } else {
                m
            },
            CompletionKind::Connect { error } => if m.conn matches ConnState::Connecting {
                op_id: my,
            } && my == op_id {
                StreamMachine {
                    conn: match error {
                        None => ConnState::Connected,
                        Some(code) => ConnState::Failed { code },
                    },
                    ..m
                }
            } else {
                m
            },
            CompletionKind::Accept { .. } => m,
        };
        post == seal_stream(m2)
    }
}

/// How one completion packet advances a live stream.
///
/// A packet advances the machine only when it matches the in-flight
/// operation of its kind, by operation identity: any other packet is
/// stale and leaves the machine untouched without an event.  A matching
/// read or write completion produces exactly one event when the caller
/// observes that direction, and is discarded silently otherwise; a
/// matching connect completion connects the stream, reports writability,
/// and starts the read probe when reads are observed.
pub open spec fn stream_step(
    m: StreamMachine,
    op_id: u64,
    kind: CompletionKind,
    fresh: u64,
    post: Slot,
    ev: Seq<Event>,
) -> bool {
    if m.closed {
        stream_drain_step(m, op_id, kind, post, ev)
    } else {
        match kind {
            CompletionKind::Read { data } => if m.read matches ReadState::Probing {
                op_id: my,
                ..
            } && my == op_id {
                if m.interest.readable {
                    &&& post == Slot::Stream(
                        StreamMachine { read: ReadState::Ready { data, pos: 0 }, ..m },
                    )
                    &&& ev == seq![
                        Event { token: m.token, readiness: read_readiness(data@) },
                    ]
                } else {
                    &&& post == Slot::Stream(StreamMachine { read: ReadState::Idle, ..m })
                    &&& ev == Seq::<Event>::empty()
                }
            } else {
                post == Slot::Stream(m) && ev == Seq::<Event>::empty()
            },
            CompletionKind::Write => if m.write matches WriteState::Writing { op_id: my, .. }
                && my == op_id {
                if m.interest.writable {
                    &&& post == Slot::Stream(StreamMachine { write: WriteState::Ready, ..m })
                    &&& ev == seq![Event { token: m.token, readiness: writable_only() }]
                } else {
                    &&& post == Slot::Stream(StreamMachine { write: WriteState::Idle, ..m })
                    &&& ev == Seq::<Event>::empty()
                }
            } else {
                post == Slot::Stream(m) && ev == Seq::<Event>::empty()
            },
            CompletionKind::Connect { error } => if m.conn matches ConnState::Connecting {
                op_id: my,
            } && my == op_id {
                match error {
                    None => {
                        &&& post matches Slot::Stream(m2) && m2.token == m.token && m2.interest
                            == m.interest && m2.opt == m.opt && !m2.closed && m2.conn is Connected
                            && (if m.interest.readable {
                            fresh_read_probe(m2.read, fresh)
                        } else {
                            m2.read is Idle
                        }) && m2.write == (if m.interest.writable {
                            WriteState::Ready
                        } else {
                            WriteState::Idle
                        })
                        &&& ev == if m.interest.writable {
                            seq![Event { token: m.token, readiness: writable_only() }]
                        } else {
                            Seq::<Event>::empty()
                        }
                    },
                    Some(code) => {
                        &&& post == Slot::Stream(
                            StreamMachine { conn: ConnState::Failed { code }, ..m },
                        )
                        &&& ev == seq![Event { token: m.token, readiness: error_only() }]
                    },
                }
            } else {
                post == Slot::Stream(m) && ev == Seq::<Event>::empty()
            },
            CompletionKind::Accept { .. } => post == Slot::Stream(m) && ev
                == Seq::<Event>::empty(),
        }
    }
}

/// How one completion packet advances a listener.
///
/// A matching accept completion on a live listener that observes
/// readability queues the accepted connection, produces exactly one
/// readable event, and — for level-triggered interest — immediately
/// re-arms a fresh accept probe so back-to-back connections are not
/// missed; edge-triggered interest leaves re-arming to the caller's next
/// re-registration.  Stale packets change nothing; a closed listener only
/// drains its cancelled probe and is then reclaimed.
pub open spec fn listener_step(
    m: ListenerMachine,
    op_id: u64,
    kind: CompletionKind,
    fresh: u64,
    post: Slot,
    ev: Seq<Event>,
) -> bool {
    if m.closed {
        &&& ev == Seq::<Event>::empty()
        &&& if (kind matches CompletionKind::Accept { .. }) && (m.accept
            matches AcceptState::Probing { op_id: my, .. } && my == op_id) {
            post == Slot::Vacant
        } else {
            post == Slot::Listener(m)
        }
    } else {
        match kind {
            CompletionKind::Accept { stream } => if m.accept matches AcceptState::Probing {
                op_id: my,
                ..
            } && my == op_id {
                if m.interest.readable {
                    &&& post matches Slot::Listener(m2) && m2.token == m.token && m2.interest
                        == m.interest && m2.opt == m.opt && !m2.closed && m2.pending@
                        == m.pending@.push(stream) && (if m.opt.edge {
                        m2.accept is Idle
                    } else {
                        fresh_accept_probe(m2.accept, fresh)
                    })
                    &&& ev == seq![Event { token: m.token, readiness: readable_only() }]
                } else {
                    &&& post == Slot::Listener(ListenerMachine { accept: AcceptState::Idle, ..m })
                    &&& ev == Seq::<Event>::empty()
                }
            } else {
                post == Slot::Listener(m) && ev == Seq::<Event>::empty()
            },
            _ => post == Slot::Listener(m) && ev == Seq::<Event>::empty(),
        }
    }
}

/// How one completion packet advances the slot that owns it.
pub open spec fn completion_step(
    pre: Slot,
    op_id: u64,
    kind: CompletionKind,
    fresh: u64,
    post: Slot,
    ev: Seq<Event>,
) -> bool {
    match pre {
        Slot::Vacant => post == Slot::Vacant && ev == Seq::<Event>::empty(),
        Slot::Stream(m) => stream_step(m, op_id, kind, fresh, post, ev),
        Slot::Listener(m) => listener_step(m, op_id, kind, fresh, post, ev),
    }
}

/// How one completion packet advances the whole side-table: the slot its
/// key names advances by one [`completion_step`], every other slot is
/// untouched, and a key naming no slot changes nothing.
pub open spec fn drain_step(
    pre: Seq<Slot>,
    pre_op: u64,
    c: Completion,
    post: Seq<Slot>,
    post_op: u64,
    ev: Seq<Event>,
) -> bool {
    &&& post_op == pre_op + 1
    &&& if c.key < pre.len() {
        &&& post.len() == pre.len()
        &&& forall|j: int| 0 <= j < pre.len() && j != c.key ==> post[j] == pre[j]
        &&& completion_step(pre[c.key as int], c.op_id, c.kind, pre_op, post[c.key as int], ev)
    } else {
        post == pre && ev == Seq::<Event>::empty()
    }
}

/// A chain of intermediate side-tables under a drain: `states[i]` is the
/// table before the `i`-th packet, `states[i + 1]` the table after it, and
/// `evs[i]` the events that packet produced.
pub open spec fn drain_chain(
    states: Seq<Seq<Slot>>,
    pre_op: u64,
    cs: Seq<Completion>,
    evs: Seq<Seq<Event>>,
) -> bool {
    &&& states.len() == cs.len() + 1
    &&& evs.len() == cs.len()
    &&& forall|i: int|
        0 <= i < cs.len() ==> drain_step(
            states[i],
            (pre_op + i) as u64,
            #[trigger] cs[i],
            states[i + 1],
            (pre_op + i + 1) as u64,
            evs[i],
        )
}

/// How a sequence of completion packets, drained in order, advances the
/// side-table: some chain of single-packet steps leads from `pre` to
/// `post` and produces exactly the events `ev`, in order.
pub open spec fn drain_trace(
    pre: Seq<Slot>,
    pre_op: u64,
    cs: Seq<Completion>,
    post: Seq<Slot>,
    post_op: u64,
    ev: Seq<Event>,
) -> bool {
    &&& post_op == pre_op + cs.len()
    &&& exists|states: Seq<Seq<Slot>>, evs: Seq<Seq<Event>>|
        {
            &&& #[trigger] drain_chain(states, pre_op, cs, evs)
            &&& states.first() == pre
            &&& states.last() == post
            &&& ev == evs.flatten()
        }
}

/// What reading from a stream does.  Before the connect operation
/// completes, reading fails with `NotConnected`; after a failed connect,
/// with the stored code.  On a connected stream, delivered bytes are
/// handed out in order, up to `max` per call; when the delivered data is
/// exhausted the probe is re-armed for level-triggered interest and left
/// idle otherwise, so an edge-triggered caller re-arms by re-registering.
/// With no delivered data at hand, reading signals `WouldBlock`.
pub open spec fn stream_read_step(
    pre: StreamMachine,
    post: StreamMachine,
    r: Result<usize, Error>,
    out: Seq<u8>,
    max: usize,
    fresh: u64,
) -> bool {
    match pre.conn {
        ConnState::Connecting { .. } => post == pre && r == Err::<usize, Error>(
            Error::NotConnected,
        ) && out == Seq::<u8>::empty(),
        ConnState::Failed { code } => post == pre && r == Err::<usize, Error>(Error::Os(code))
            && out == Seq::<u8>::empty(),
        ConnState::Connected => match pre.read {
            ReadState::Ready { data, pos } => {
                let avail = data@.len() - pos;
                let n = if max <= avail {
                    max as int
                } else {
                    avail
                };
                &&& r == Ok::<usize, Error>(n as usize)
                &&& out == data@.subrange(pos as int, pos + n)
                &&& post.token == pre.token
                &&& post.interest == pre.interest
                &&& post.opt == pre.opt
                &&& post.conn == pre.conn
                &&& post.write == pre.write
                &&& post.closed == pre.closed
                &&& if pos + n == data@.len() {
                    if pre.interest.readable && !pre.opt.edge {
                        fresh_read_probe(post.read, fresh)
                    } else {
                        post.read is Idle
                    }
                } else {
                    post.read == (ReadState::Ready { data, pos: (pos + n) as usize })
                }
            },
            _ => post == pre && r == Err::<usize, Error>(Error::WouldBlock) && out
                == Seq::<u8>::empty(),
        },
    }
}

/// What writing to a stream does.  Before the connect operation completes,
/// writing fails with `NotConnected`; after a failed connect, with the
/// stored code.  While a write operation is in flight, writing signals
/// `WouldBlock`; otherwise the whole of `data` is copied into a pool
/// buffer and a write operation carrying exactly those bytes is issued.
pub open spec fn stream_write_step(
    pre: StreamMachine,
    post: StreamMachine,
    r: Result<usize, Error>,
    data: Seq<u8>,
    fresh: u64,
) -> bool {
    match pre.conn {
        ConnState::Connecting { .. } => post == pre && r == Err::<usize, Error>(
            Error::NotConnected,
        ),
        ConnState::Failed { code } => post == pre && r == Err::<usize, Error>(Error::Os(code)),
        ConnState::Connected => match pre.write {
            WriteState::Writing { .. } => post == pre && r == Err::<usize, Error>(
                Error::WouldBlock,
            ),
            _ => {
                &&& r == Ok::<usize, Error>(data.len() as usize)
                &&& post.token == pre.token
                &&& post.interest == pre.interest
                &&& post.opt == pre.opt
                &&& post.conn == pre.conn
                &&& post.read == pre.read
                &&& post.closed == pre.closed
                &&& post.write matches WriteState::Writing { op_id, buf } && op_id == fresh
                    && buf.wf() && buf@ == data
            },
        },
    }
}

/// The bytes one read call takes from a stream: the next `max` delivered
/// bytes, or all that remain, and none when none are at hand.
pub open spec fn read_taken(pre: StreamMachine, max: usize) -> Seq<u8> {
    match pre.read {
        ReadState::Ready { data, pos } => {
            if pre.conn is Connected {
                let avail = data@.len() - pos;
                let n = if max <= avail {
                    max as int
                } else {
                    avail
                };
                data@.subrange(pos as int, pos + n)
            } else {
                Seq::<u8>::empty()
            }
        },
        _ => Seq::<u8>::empty(),
    }
}

/// What taking an accepted connection from a listener does: the oldest
/// undelivered connection is handed out, and `WouldBlock` is signalled
/// exactly when none is pending.
pub open spec fn listener_accept_take(
    pre: ListenerMachine,
    post: ListenerMachine,
    r: Result<net::UnixStream, Error>,
) -> bool {
    &&& post.token == pre.token
    &&& post.interest == pre.interest
    &&& post.opt == pre.opt
    &&& post.accept == pre.accept
    &&& post.closed == pre.closed
    &&& if pre.pending@.len() > 0 {
        &&& r matches Ok(s) && s == pre.pending@[0]
        &&& post.pending@ == pre.pending@.skip(1)
    } else {
        &&& r matches Err(e) && e == Error::WouldBlock
        &&& post.pending@ == pre.pending@
    }
}

/// A well-formed selector's identity is non-zero.
pub proof fn lemma_wf_id_nonzero(sel: Selector)
    requires
        sel.wf(),
    ensures
        sel.spec_id() != 0,
{
}

/// Every slot of a well-formed selector is well-formed, with all its
/// operation identities below the next one to be issued.
pub proof fn lemma_wf_slot(sel: Selector, k: int)
    requires
        sel.wf(),
        0 <= k < sel.slots().len(),
    ensures
        sel.slots()[k].wf(),
        sel.slots()[k].ops_below(sel.next_op()),
{
}

/// Monotonicity of the operation-identity bound.
pub proof fn lemma_slot_ops_below_mono(s: Slot, a: u64, b: u64)
    requires
        s.ops_below(a),
        a <= b,
    ensures
        s.ops_below(b),
{
}

/// Advances a stream machine by one completion packet, moving buffers
/// between the machine and the pool as the operations demand.
fn step_stream(
    pool: &mut BufferPool,
    m: StreamMachine,
    op_id: u64,
    kind: CompletionKind,
    fresh: u64,
) -> (r: (Slot, Option<Event>))
    requires
        old(pool).wf(),
        old(pool).outstanding() >= m.bufs(),
        old(pool).outstanding() < usize::MAX,
        m.wf(),
        m.ops_below(fresh),
        fresh < u64::MAX,
    ensures
        final(pool).wf(),
        final(pool).bound() == old(pool).bound(),
        final(pool).outstanding() + m.bufs() == old(pool).outstanding() + r.0.bufs(),
        final(pool).outstanding() <= old(pool).outstanding() + 1,
        r.0.wf(),
        r.0.ops_below((fresh + 1) as u64),
        stream_step(m, op_id, kind, fresh, r.0, opt_ev(r.1)),
{
    let StreamMachine { token, interest, opt, conn, read, write, closed } = m;
    if closed {
        let (read2, write2, conn2) = match kind {
            CompletionKind::Read { data: _ } => {
                match read {
                    ReadState::Probing { op_id: my, buf } => {
                        if my == op_id {
                            pool.put(buf);
                            (ReadState::Idle, write, conn)
                        } else {
                            (ReadState::Probing { op_id: my, buf }, write, conn)
                        }
                    },
                    r => (r, write, conn),
                }
            },
            CompletionKind::Write => {
                match write {
                    WriteState::Writing { op_id: my, buf } => {
                        if my == op_id {
                            pool.put(buf);
                            (read, WriteState::Idle, conn)
                        } else {
                            (read, WriteState::Writing { op_id: my, buf }, conn)
                        }
                    },
                    w => (read, w, conn),
                }
            },
            CompletionKind::Connect { error } => {
                match conn {
                    ConnState::Connecting { op_id: my } => {
                        if my == op_id {
                            let conn2 = match error {
                                None => ConnState::Connected,
                                Some(code) => ConnState::Failed { code },
                            };
                            (read, write, conn2)
                        } else {
                            (read, write, ConnState::Connecting { op_id: my })
                        }
                    },
                    c => (read, write, c),
                }
            },
            CompletionKind::Accept { .. } => (read, write, conn),
        };
        let live = matches!(read2, ReadState::Probing { .. }) || matches!(
            write2,
            WriteState::Writing { .. },
        ) || matches!(conn2, ConnState::Connecting { .. });
        let m2 = StreamMachine {
            token,
            interest,
            opt,
            conn: conn2,
            read: read2,
            write: write2,
            closed,
        };
        if live {
            (Slot::Stream(m2), None)
        } else {
            (Slot::Vacant, None)
        }
    } else {
        match kind {
            CompletionKind::Read { data } => {
                match read {
                    ReadState::Probing { op_id: my, buf } => {
                        if my == op_id {
                            pool.put(buf);
                            if interest.is_readable() {
                                let hup = data.len() == 0;
                                let m2 = StreamMachine {
                                    token,
                                    interest,
                                    opt,
                                    conn,
                                    read: ReadState::Ready { data, pos: 0 },
                                    write,
                                    closed,
                                };
                                let e = Event {
                                    token,
                                    readiness: Ready {
                                        readable: true,
                                        writable: false,
                                        error: false,
                                        hup,
                                    },
                                };
                                (Slot::Stream(m2), Some(e))
                            } else {
                                let m2 = StreamMachine {
                                    token,
                                    interest,
                                    opt,
                                    conn,
                                    read: ReadState::Idle,
                                    write,
                                    closed,
                                };
                                (Slot::Stream(m2), None)
                            }
                        } else {
                            let m2 = StreamMachine {
                                token,
                                interest,
                                opt,
                                conn,
                                read: ReadState::Probing { op_id: my, buf },
                                write,
                                closed,
                            };
                            (Slot::Stream(m2), None)
                        }
                    },
                    r => {
                        let m2 = StreamMachine {
                            token,
                            interest,
                            opt,
                            conn,
                            read: r,
                            write,
                            closed,
                        };
                        (Slot::Stream(m2), None)
                    },
                }
            },
            CompletionKind::Write => {
                match write {
                    WriteState::Writing { op_id: my, buf } => {
                        if my == op_id {
                            pool.put(buf);
                            let write2 = if interest.is_writable() {
                                WriteState::Ready
                            } else {
                                WriteState::Idle
                            };
                            let ev = if interest.is_writable() {
                                Some(
                                    Event {
                                        token,
                                        readiness: Ready {
                                            readable: false,
                                            writable: true,
                                            error: false,
                                            hup: false,
                                        },
                                    },
                                )
                            } else {
                                None
                            };
                            let m2 = StreamMachine {
                                token,
                                interest,
                                opt,
                                conn,
                                read,
                                write: write2,
                                closed,
                            };
                            (Slot::Stream(m2), ev)
                        } else {
                            let m2 = StreamMachine {
                                token,
                                interest,
                                opt,
                                conn,
                                read,
                                write: WriteState::Writing { op_id: my, buf },
                                closed,
                            };
                            (Slot::Stream(m2), None)
                        }
                    },
                    w => {
                        let m2 = StreamMachine {
                            token,
                            interest,
                            opt,
                            conn,
                            read,
                            write: w,
                            closed,
                        };
                        (Slot::Stream(m2), None)
                    },
                }
            },
            CompletionKind::Connect { error } => {
                match conn {
                    ConnState::Connecting { op_id: my } => {
                        if my == op_id {
                            match error {
                                None => {
                                    let read2 = if interest.is_readable() {
                                        ReadState::Probing {
                                            op_id: fresh,
                                            buf: pool.get(READ_BUF_CAP),
                                        }
                                    } else {
                                        ReadState::Idle
                                    };
                                    let write2 = if interest.is_writable() {
                                        WriteState::Ready
                                    } else {
                                        WriteState::Idle
                                    };
                                    let ev = if interest.is_writable() {
                                        Some(
                                            Event {
                                                token,
                                                readiness: Ready {
                                                    readable: false,
                                                    writable: true,
                                                    error: false,
                                                    hup: false,
                                                },
                                            },
                                        )
                                    } else {
                                        None
                                    };
                                    let m2 = StreamMachine {
                                        token,
                                        interest,
                                        opt,
                                        conn: ConnState::Connected,
                                        read: read2,
                                        write: write2,
                                        closed,
                                    };
                                    (Slot::Stream(m2), ev)
                                },
                                Some(code) => {
                                    let m2 = StreamMachine {
                                        token,
                                        interest,
                                        opt,
                                        conn: ConnState::Failed { code },
                                        read,
                                        write,
                                        closed,
                                    };
                                    let e = Event {
                                        token,
                                        readiness: Ready {
                                            readable: false,
                                            writable: false,
                                            error: true,
                                            hup: false,
                                        },
                                    };
                                    (Slot::Stream(m2), Some(e))
                                },
                            }
                        } else {
                            let m2 = StreamMachine {
                                token,
                                interest,
                                opt,
                                conn: ConnState::Connecting { op_id: my },
                                read,
                                write,
                                closed,
                            };
                            (Slot::Stream(m2), None)
                        }
                    },
                    c => {
                        let m2 = StreamMachine {
                            token,
                            interest,
                            opt,
                            conn: c,
                            read,
                            write,
                            closed,
                        };
                        (Slot::Stream(m2), None)
                    },
                }
            },
            CompletionKind::Accept { .. } => {
                let m2 = StreamMachine { token, interest, opt, conn, read, write, closed };
                (Slot::Stream(m2), None)
            },
        }
    }
}

/// Advances a listener machine by one completion packet.
fn step_listener(
    pool: &mut BufferPool,
    m: ListenerMachine,
    op_id: u64,
    kind: CompletionKind,
    fresh: u64,
) -> (r: (Slot, Option<Event>))
    requires
        old(pool).wf(),
        old(pool).outstanding() >= m.bufs(),
        old(pool).outstanding() < usize::MAX,
        m.wf(),
        m.ops_below(fresh),
        fresh < u64::MAX,
    ensures
        final(pool).wf(),
        final(pool).bound() == old(pool).bound(),
        final(pool).outstanding() + m.bufs() == old(pool).outstanding() + r.0.bufs(),
        final(pool).outstanding() <= old(pool).outstanding() + 1,
        r.0.wf(),
        r.0.ops_below((fresh + 1) as u64),
        listener_step(m, op_id, kind, fresh, r.0, opt_ev(r.1)),
{
    let ListenerMachine { token, interest, opt, accept, mut pending, closed } = m;
    match kind {
        CompletionKind::Accept { stream } => {
            match accept {
                AcceptState::Probing { op_id: my, buf } => {
                    if my == op_id {
                        pool.put(buf);
                        if closed {
                            (Slot::Vacant, None)
                        } else if interest.is_readable() {
                            pending.push(stream);
                            let accept2 = if opt.is_edge() {
                                AcceptState::Idle
                            } else {
                                AcceptState::Probing {
                                    op_id: fresh,
                                    buf: pool.get(ACCEPT_BUF_CAP),
                                }
                            };
                            let m2 = ListenerMachine {
                                token,
                                interest,
                                opt,
                                accept: accept2,
                                pending,
                                closed,
                            };
                            let e = Event {
                                token,
                                readiness: Ready {
                                    readable: true,
                                    writable: false,
                                    error: false,
                                    hup: false,
                                },
                            };
                            (Slot::Listener(m2), Some(e))
                        } else {
                            let m2 = ListenerMachine {
                                token,
                                interest,
                                opt,
                                accept: AcceptState::Idle,
                                pending,
                                closed,
                            };
                            (Slot::Listener(m2), None)
                        }
                    } else {
                        let m2 = ListenerMachine {
                            token,
                            interest,
                            opt,
                            accept: AcceptState::Probing { op_id: my, buf },
                            pending,
                            closed,
                        };
                        (Slot::Listener(m2), None)
                    }
                },
                a => {
                    let m2 = ListenerMachine { token, interest, opt, accept: a, pending, closed };
                    (Slot::Listener(m2), None)
                },
            }
        },
        _ => {
            let m2 = ListenerMachine { token, interest, opt, accept, pending, closed };
            (Slot::Listener(m2), None)
        },
    }
}

/// Takes the slot at `i` out of the table, leaving `Vacant` in its place.
fn take_slot(table: &mut Vec<Slot>, i: usize) -> (s: Slot)
    requires
        i < old(table)@.len(),
    ensures
        s == old(table)@[i as int],
        final(table)@ == old(table)@.update(i as int, Slot::Vacant),
{
    let r = &mut table[i];
    let mut s = Slot::Vacant;
    core::mem::swap(r, &mut s);
    s
}

impl Selector {
    /// Installs the state machine of a newly registered stream and issues
    /// its first operations: the deferred connect, or one probe per
    /// requested direction.  Returns the stream's side-table key.
    pub fn register_stream(
        &mut self,
        token: Token,
        interest: Ready,
        opt: PollOpt,
        connecting: bool,
    ) -> (key: usize)
        requires
            old(self).wf(),
            old(self).slots().len() < usize::MAX,
            old(self).pool_outstanding() + 2 <= usize::MAX,
            old(self).next_op() + 2 <= u64::MAX,
        ensures
            final(self).wf(),
            final(self).spec_id() == old(self).spec_id(),
            final(self).pool_bound() == old(self).pool_bound(),
            final(self).pool_outstanding() <= old(self).pool_outstanding() + 2,
            final(self).next_op() == old(self).next_op() + 2,
            key == old(self).slots().len(),
            final(self).slots().len() == old(self).slots().len() + 1,
            forall|j: int|
                0 <= j < old(self).slots().len() ==> final(self).slots()[j] == old(self).slots()[j],
            final(self).slots()[key as int] matches Slot::Stream(m) && stream_registered(
                m,
                token,
                interest,
                opt,
                connecting,
                old(self).next_op(),
            ),
    {
        let fresh = self.next_op;
        self.next_op = self.next_op + 2;
        let m = if connecting {
            StreamMachine {
                token,
                interest,
                opt,
                conn: ConnState::Connecting { op_id: fresh },
                read: ReadState::Idle,
                write: WriteState::Idle,
                closed: false,
            }
        } else {
            let read = if interest.is_readable() {
                ReadState::Probing { op_id: fresh, buf: self.pool.get(READ_BUF_CAP) }
            } else {
                ReadState::Idle
            };
            let write = if interest.is_writable() {
                WriteState::Writing { op_id: fresh + 1, buf: self.pool.get(0) }
            } else {
                WriteState::Idle
            };
            StreamMachine {
                token,
                interest,
                opt,
                conn: ConnState::Connected,
                read,
                write,
                closed: false,
            }
        };
        let key = self.table.len();
        let slot = Slot::Stream(m);
        proof {
            lemma_table_counts_push(self.table@, slot);
            assert forall|i: int| 0 <= i < self.table@.len() implies (#[trigger] self.table@[i]).ops_below(self.next_op) by {
                lemma_slot_ops_below_mono(self.table@[i], old(self).next_op(), self.next_op);
            }
        }
        self.table.push(slot);
        key
    }

    /// Installs the state machine of a newly registered listener and, when
    /// readability is observed, issues its first accept probe.  Returns
    /// the listener's side-table key.
    pub fn register_listener(&mut self, token: Token, interest: Ready, opt: PollOpt) -> (key:
        usize)
        requires
            old(self).wf(),
            old(self).slots().len() < usize::MAX,
            old(self).pool_outstanding() + 1 <= usize::MAX,
            old(self).next_op() + 1 <= u64::MAX,
        ensures
            final(self).wf(),
            final(self).spec_id() == old(self).spec_id(),
            final(self).pool_bound() == old(self).pool_bound(),
            final(self).pool_outstanding() <= old(self).pool_outstanding() + 1,
            final(self).next_op() == old(self).next_op() + 1,
            key == old(self).slots().len(),
            final(self).slots().len() == old(self).slots().len() + 1,
            forall|j: int|
                0 <= j < old(self).slots().len() ==> final(self).slots()[j] == old(self).slots()[j],
            final(self).slots()[key as int] matches Slot::Listener(m) && listener_registered(
                m,
                token,
                interest,
                opt,
                old(self).next_op(),
            ),
    {
        let fresh = self.next_op;
        self.next_op = self.next_op + 1;
        let accept = if interest.is_readable() {
            AcceptState::Probing { op_id: fresh, buf: self.pool.get(ACCEPT_BUF_CAP) }
        } else {
            AcceptState::Idle
        };
        let m = ListenerMachine { token, interest, opt, accept, pending: Vec::new(), closed: false };
        let key = self.table.len();
        let slot = Slot::Listener(m);
        proof {
            lemma_table_counts_push(self.table@, slot);
            assert forall|i: int| 0 <= i < self.table@.len() implies (#[trigger] self.table@[i]).ops_below(self.next_op) by {
                lemma_slot_ops_below_mono(self.table@[i], old(self).next_op(), self.next_op);
            }
        }
        self.table.push(slot);
        key
    }

    /// Adjusts a registered stream's token, interest and option.  Newly
    /// observed idle directions of a connected stream get a fresh probe;
    /// in-flight operations of dropped directions are left to complete and
    /// be discarded without re-arming.
    pub fn reregister_stream(
        &mut self,
        key: usize,
        token: Token,
        interest: Ready,
        opt: PollOpt,
    )
        requires
            old(self).wf(),
            key < old(self).slots().len(),
            old(self).slots()[key as int] matches Slot::Stream(m) && !m.closed,
            old(self).pool_outstanding() + 2 <= usize::MAX,
            old(self).next_op() + 2 <= u64::MAX,
        ensures
            final(self).wf(),
            final(self).spec_id() == old(self).spec_id(),
            final(self).pool_bound() == old(self).pool_bound(),
            final(self).pool_outstanding() <= old(self).pool_outstanding() + 2,
            final(self).next_op() == old(self).next_op() + 2,
            final(self).slots().len() == old(self).slots().len(),
            forall|j: int|
                0 <= j < old(self).slots().len() && j != key ==> final(self).slots()[j] == old(
                    self,
                ).slots()[j],
            old(self).slots()[key as int] matches Slot::Stream(pre) && final(self).slots()[key as int] matches Slot::Stream(post) && stream_reregistered(
                pre,
                post,
                token,
                interest,
                opt,
                old(self).next_op(),
            ),
    {
        let fresh = self.next_op;
        self.next_op = self.next_op + 2;
        let ghost t0 = self.table@;
        let slot = take_slot(&mut self.table, key);
        match slot {
            Slot::Stream(m) => {
                let StreamMachine { token: _, interest: _, opt: _, conn, read, write, closed } = m;
                let connected = matches!(conn, ConnState::Connected);
                let read2 = match read {
                    ReadState::Idle => {
                        if interest.is_readable() && connected {
                            ReadState::Probing { op_id: fresh, buf: self.pool.get(READ_BUF_CAP) }
                        } else {
                            ReadState::Idle
                        }
                    },
                    r => r,
                };
                let write2 = match write {
                    WriteState::Idle => {
                        if interest.is_writable() && connected {
                            WriteState::Writing { op_id: fresh + 1, buf: self.pool.get(0) }
                        } else {
                            WriteState::Idle
                        }
                    },
                    w => w,
                };
                let m2 = StreamMachine {
                    token,
                    interest,
                    opt,
                    conn,
                    read: read2,
                    write: write2,
                    closed,
                };
                let slot2 = Slot::Stream(m2);
                proof {
                    lemma_table_counts_update(t0, key as int, Slot::Vacant);
                    lemma_table_counts_update(self.table@, key as int, slot2);
                    lemma_table_counts_at(t0, key as int);
                    assert forall|i: int|
                        0 <= i < self.table@.len() implies (#[trigger] self.table@[i]).ops_below(
                        self.next_op,
                    ) by {
                        lemma_slot_ops_below_mono(self.table@[i], old(self).next_op(), self.next_op);
                    }
                }
                self.table.set(key, slot2);
            },
            _ => {
                proof {
                    assert(false);
                }
            },
        }
    }

    /// Adjusts a registered listener's token, interest and option.  A
    /// newly observed idle accept direction gets a fresh probe.
    pub fn reregister_listener(
        &mut self,
        key: usize,
        token: Token,
        interest: Ready,
        opt: PollOpt,
    )
        requires
            old(self).wf(),
            key < old(self).slots().len(),
            old(self).slots()[key as int] matches Slot::Listener(m) && !m.closed,
            old(self).pool_outstanding() + 1 <= usize::MAX,
            old(self).next_op() + 1 <= u64::MAX,
        ensures
            final(self).wf(),
            final(self).spec_id() == old(self).spec_id(),
            final(self).pool_bound() == old(self).pool_bound(),
            final(self).pool_outstanding() <= old(self).pool_outstanding() + 1,
            final(self).next_op() == old(self).next_op() + 1,
            final(self).slots().len() == old(self).slots().len(),
            forall|j: int|
                0 <= j < old(self).slots().len() && j != key ==> final(self).slots()[j] == old(
                    self,
                ).slots()[j],
            old(self).slots()[key as int] matches Slot::Listener(pre) && final(self).slots()[key as int] matches Slot::Listener(post) && listener_reregistered(
                pre,
                post,
                token,
                interest,
                opt,
                old(self).next_op(),
            ),
    {
        let fresh = self.next_op;
        self.next_op = self.next_op + 1;
        let ghost t0 = self.table@;
        let slot = take_slot(&mut self.table, key);
        match slot {
            Slot::Listener(m) => {
                let ListenerMachine { token: _, interest: _, opt: _, accept, pending, closed } = m;
                let accept2 = match accept {
                    AcceptState::Idle => {
                        if interest.is_readable() {
                            AcceptState::Probing { op_id: fresh, buf: self.pool.get(ACCEPT_BUF_CAP) }
                        } else {
                            AcceptState::Idle
                        }
                    },
                    a => a,
                };
                let m2 = ListenerMachine { token, interest, opt, accept: accept2, pending, closed };
                let slot2 = Slot::Listener(m2);
                proof {
                    lemma_table_counts_update(t0, key as int, Slot::Vacant);
                    lemma_table_counts_update(self.table@, key as int, slot2);
                    lemma_table_counts_at(t0, key as int);
                    assert forall|i: int|
                        0 <= i < self.table@.len() implies (#[trigger] self.table@[i]).ops_below(
                        self.next_op,
                    ) by {
                        lemma_slot_ops_below_mono(self.table@[i], old(self).next_op(), self.next_op);
                    }
                }
                self.table.set(key, slot2);
            },
            _ => {
                proof {
                    assert(false);
                }
            },
        }
    }

    /// Drains one completion packet: routes it by key to the owning state
    /// machine, advances that machine by exactly one
    /// [`completion_step`], and appends the events that step produced —
    /// at most one.  A packet whose key names no slot, or whose operation
    /// identity matches no in-flight operation, changes nothing and
    /// produces no event.
    pub fn handle_completion(&mut self, c: Completion, events: &mut Vec<Event>)
        requires
            old(self).wf(),
            old(self).pool_outstanding() < usize::MAX,
            old(self).next_op() < u64::MAX,
        ensures
            final(self).wf(),
            final(self).spec_id() == old(self).spec_id(),
            final(self).pool_bound() == old(self).pool_bound(),
            final(self).pool_outstanding() <= old(self).pool_outstanding() + 1,
            final(self).next_op() == old(self).next_op() + 1,
            final(self).slots().len() == old(self).slots().len(),
            final(self).pool_outstanding() <= old(self).pool_outstanding() + 1,
            final(events)@.len() >= old(events)@.len(),
            final(events)@.subrange(0, old(events)@.len() as int) == old(events)@,
            c.key < old(self).slots().len() ==> (forall|j: int|
                0 <= j < old(self).slots().len() && j != c.key ==> final(self).slots()[j] == old(
                    self,
                ).slots()[j]) && completion_step(
                old(self).slots()[c.key as int],
                c.op_id,
                c.kind,
                old(self).next_op(),
                final(self).slots()[c.key as int],
                final(events)@.skip(old(events)@.len() as int),
            ),
            c.key >= old(self).slots().len() ==> final(self).slots() == old(self).slots()
                && final(events)@ == old(events)@,
    {
        let fresh = self.next_op;
        self.next_op = fresh + 1;
        proof {
            assert forall|i: int|
                0 <= i < self.table@.len() implies (#[trigger] self.table@[i]).ops_below(
                self.next_op,
            ) by {
                lemma_slot_ops_below_mono(self.table@[i], fresh, self.next_op);
            }
        }
        let Completion { key, op_id, kind } = c;
        if key >= self.table.len() {
            return ;
        }
        let ghost t0 = self.table@;
        proof {
            lemma_table_counts_at(t0, key as int);
        }
        let slot = take_slot(&mut self.table, key);
        let (slot2, ev) = match slot {
            Slot::Vacant => (Slot::Vacant, None),
            Slot::Stream(m) => step_stream(&mut self.pool, m, op_id, kind, fresh),
            Slot::Listener(m) => step_listener(&mut self.pool, m, op_id, kind, fresh),
        };
        proof {
            lemma_table_counts_update(t0, key as int, Slot::Vacant);
            lemma_table_counts_update(self.table@, key as int, slot2);
            assert forall|i: int|
                0 <= i < t0.len() && i != key implies (#[trigger] t0[i]).ops_below(
                self.next_op,
            ) by {
                lemma_slot_ops_below_mono(t0[i], fresh, self.next_op);
            }
        }
        self.table.set(key, slot2);
        match ev {
            Some(e) => events.push(e),
            None => (),
        }
        proof {
            assert(events@.skip(old(events)@.len() as int) =~= opt_ev(ev));
            assert(events@.subrange(0, old(events)@.len() as int) =~= old(events)@);
        }
    }

    /// Drains a batch of completion packets in order, appending the
    /// readiness events they produce to `events`, and returns how many
    /// events were produced.  The batch is what the surrounding program
    /// took from the kernel's completion queue, in kernel-decided order;
    /// draining it advances the side-table by exactly the corresponding
    /// [`drain_trace`].
    pub fn poll(&mut self, completions: Vec<Completion>, events: &mut Vec<Event>) -> (n: usize)
        requires
            old(self).wf(),
            old(self).pool_outstanding() + completions@.len() <= usize::MAX,
            old(self).next_op() + completions@.len() <= u64::MAX,
        ensures
            final(self).wf(),
            final(self).spec_id() == old(self).spec_id(),
            final(self).pool_bound() == old(self).pool_bound(),
            final(self).slots().len() == old(self).slots().len(),
            final(self).pool_outstanding() <= old(self).pool_outstanding() + completions@.len(),
            final(self).next_op() == old(self).next_op() + completions@.len(),
            final(events)@.len() >= old(events)@.len(),
            final(events)@.subrange(0, old(events)@.len() as int) == old(events)@,
            n as int == final(events)@.len() - old(events)@.len(),
            drain_trace(
                old(self).slots(),
                old(self).next_op(),
                completions@,
                final(self).slots(),
                final(self).next_op(),
                final(events)@.skip(old(events)@.len() as int),
            ),
    {
        let ghost pre_slots = self.slots();
        let ghost pre_op = self.next_op();
        let ghost pre_id = self.spec_id();
        let ghost pre_bound = self.pool_bound();
        let ghost pre_out = self.pool_outstanding();
        let ghost ev_base = events@;
        let ghost cs0 = completions@;
        let mut completions = completions;
        let start = events.len();
        let total = completions.len();
        let ghost mut states: Seq<Seq<Slot>> = seq![pre_slots];
        let ghost mut evss: Seq<Seq<Event>> = Seq::<Seq<Event>>::empty();
        proof {
            assert(events@.skip(ev_base.len() as int) =~= Seq::<Event>::empty());
            assert(cs0.take(0) =~= Seq::<Completion>::empty());
            assert(completions@ =~= cs0.skip(0));
            assert(evss.flatten() =~= Seq::<Event>::empty());
        }
        let mut i: usize = 0;
        while i < total
            invariant
                self.wf(),
                self.spec_id() == pre_id,
                self.pool_bound() == pre_bound,
                self.slots().len() == pre_slots.len(),
                i <= total,
                total == cs0.len(),
                completions@ =~= cs0.skip(i as int),
                self.next_op() == pre_op + i,
                self.pool_outstanding() <= pre_out + i,
                pre_out + total <= usize::MAX,
                pre_op + total <= u64::MAX,
                events@.len() >= ev_base.len(),
                events@.subrange(0, ev_base.len() as int) == ev_base,
                start == ev_base.len(),
                states.len() == i + 1,
                evss.len() == i as int,
                states.first() == pre_slots,
                states.last() == self.slots(),
                events@.skip(ev_base.len() as int) == evss.flatten(),
                drain_chain(states, pre_op, cs0.take(i as int), evss),
            decreases total - i,
        {
            let ghost mid_slots = self.slots();
            let ghost mid_op = self.next_op();
            let ghost ev_mid = events@;
            let c = completions.remove(0);
            let ghost gc = c;
            proof {
                assert(c == cs0[i as int]);
                assert(completions@ =~= cs0.skip(i as int + 1));
            }
            self.handle_completion(c, events);
            proof {
                let ghost old_states = states;
                let ghost old_evss = evss;
                let evs2 = events@.skip(ev_mid.len() as int);
                assert(events@.subrange(0, ev_mid.len() as int) == ev_mid);
                assert(events@.subrange(0, ev_base.len() as int) =~= ev_base);
                if gc.key >= mid_slots.len() {
                    assert(events@.skip(ev_mid.len() as int) =~= Seq::<Event>::empty());
                }
                assert(drain_step(mid_slots, mid_op, gc, self.slots(), self.next_op(), evs2));
                states = states.push(self.slots());
                evss = evss.push(evs2);
                old_evss.lemma_flatten_push(evs2);
                assert(events@.skip(ev_base.len() as int) =~= old_evss.flatten() + evs2);
                let cs1 = cs0.take(i as int + 1);
                assert(cs1.len() == i + 1);
                assert forall|j: int| 0 <= j < cs1.len() implies drain_step(
                    states[j],
                    (pre_op + j) as u64,
                    #[trigger] cs1[j],
                    states[j + 1],
                    (pre_op + j + 1) as u64,
                    evss[j],
                ) by {
                    if j < i as int {
                        assert(cs1[j] == cs0.take(i as int)[j]);
                        assert(states[j] == old_states[j]);
                        assert(states[j + 1] == old_states[j + 1]);
                        assert(evss[j] == old_evss[j]);
                        assert(drain_chain(old_states, pre_op, cs0.take(i as int), old_evss));
                    } else {
                        assert(j == i as int);
                        assert(cs1[j] == gc);
                        assert(states[j] == mid_slots);
                        assert(states[j + 1] == self.slots());
                        assert(evss[j] == evs2);
                    }
                }
                assert(drain_chain(states, pre_op, cs1, evss));
            }
            i = i + 1;
        }
        proof {
            assert(cs0.take(total as int) =~= cs0);
            assert(drain_chain(states, pre_op, cs0, evss));
            assert(states.first() == pre_slots);
            assert(states.last() == self.slots());
            assert(events@.skip(ev_base.len() as int) == evss.flatten());
        }
        events.len() - start
    }

    /// Closes the slot at `key`: used by deregistration and by dropping a
    /// handle.  In-flight operations are cancelled and stay until their
    /// completion is drained; undelivered results are dropped; the slot is
    /// reclaimed once no operation remains.
    pub fn close_key(&mut self, key: usize)
        requires
            old(self).wf(),
            key < old(self).slots().len(),
        ensures
            final(self).wf(),
            final(self).spec_id() == old(self).spec_id(),
            final(self).pool_bound() == old(self).pool_bound(),
            final(self).pool_outstanding() == old(self).pool_outstanding(),
            final(self).next_op() == old(self).next_op(),
            final(self).slots().len() == old(self).slots().len(),
            forall|j: int|
                0 <= j < old(self).slots().len() && j != key ==> final(self).slots()[j] == old(
                    self,
                ).slots()[j],
            slot_closed_step(old(self).slots()[key as int], final(self).slots()[key as int]),
    {
        let ghost t0 = self.table@;
        let slot = take_slot(&mut self.table, key);
        let slot2 = match slot {
            Slot::Vacant => Slot::Vacant,
            Slot::Stream(m) => {
                let StreamMachine { token, interest, opt, conn, read, write, closed: _ } = m;
                let read2 = match read {
                    r @ ReadState::Probing { .. } => r,
                    _ => ReadState::Idle,
                };
                let write2 = match write {
                    w @ WriteState::Writing { .. } => w,
                    _ => WriteState::Idle,
                };
                let live = matches!(read2, ReadState::Probing { .. }) || matches!(
                    write2,
                    WriteState::Writing { .. },
                ) || matches!(conn, ConnState::Connecting { .. });
                if live {
                    Slot::Stream(
                        StreamMachine {
                            token,
                            interest,
                            opt,
                            conn,
                            read: read2,
                            write: write2,
                            closed: true,
                        },
                    )
                } else {
                    Slot::Vacant
                }
            },
            Slot::Listener(m) => {
                let ListenerMachine { token, interest, opt, accept, pending: _, closed: _ } = m;
                if matches!(accept, AcceptState::Probing { .. }) {
                    Slot::Listener(
                        ListenerMachine {
                            token,
                            interest,
                            opt,
                            accept,
                            pending: Vec::new(),
                            closed: true,
                        },
                    )
                } else {
                    Slot::Vacant
                }
            },
        };
        proof {
            lemma_table_counts_update(t0, key as int, Slot::Vacant);
            lemma_table_counts_update(self.table@, key as int, slot2);
            lemma_table_counts_at(t0, key as int);
        }
        self.table.set(key, slot2);
    }
}

impl Selector {
    /// Reads up to `max` delivered bytes from the stream at `key` into
    /// `buf`, which is overwritten.  The outcome and the state change are
    /// exactly one [`stream_read_step`].
    pub fn read_from(&mut self, key: usize, buf: &mut Vec<u8>, max: usize) -> (r: Result<
        usize,
        Error,
    >)
        requires
            old(self).wf(),
            key < old(self).slots().len(),
            old(self).slots()[key as int] matches Slot::Stream(m) && !m.closed,
            old(self).pool_outstanding() < usize::MAX,
            old(self).next_op() < u64::MAX,
        ensures
            final(self).wf(),
            final(self).spec_id() == old(self).spec_id(),
            final(self).pool_bound() == old(self).pool_bound(),
            final(self).pool_outstanding() <= old(self).pool_outstanding() + 1,
            final(self).slots().len() == old(self).slots().len(),
            final(self).next_op() == old(self).next_op() + 1,
            forall|j: int|
                0 <= j < old(self).slots().len() && j != key ==> final(self).slots()[j] == old(
                    self,
                ).slots()[j],
            old(self).slots()[key as int] matches Slot::Stream(pre) && final(self).slots()[
                key as int] matches Slot::Stream(post) && stream_read_step(
                pre,
                post,
                r,
                final(buf)@,
                max,
                old(self).next_op(),
            ),
    {
        let fresh = self.next_op;
        self.next_op = fresh + 1;
        proof {
            assert forall|i: int|
                0 <= i < self.table@.len() implies (#[trigger] self.table@[i]).ops_below(
                self.next_op,
            ) by {
                lemma_slot_ops_below_mono(self.table@[i], fresh, self.next_op);
            }
        }
        buf.clear();
        let ghost t0 = self.table@;
        proof {
            lemma_table_counts_at(t0, key as int);
        }
        let slot = take_slot(&mut self.table, key);
        let (slot2, r): (Slot, Result<usize, Error>) = match slot {
            Slot::Stream(m) => {
                let StreamMachine { token, interest, opt, conn, read, write, closed } = m;
                match conn {
                    ConnState::Connecting { op_id } => {
                        let m2 = StreamMachine {
                            token,
                            interest,
                            opt,
                            conn: ConnState::Connecting { op_id },
                            read,
                            write,
                            closed,
                        };
                        (Slot::Stream(m2), Err(Error::NotConnected))
                    },
                    ConnState::Failed { code } => {
                        let m2 = StreamMachine {
                            token,
                            interest,
                            opt,
                            conn: ConnState::Failed { code },
                            read,
                            write,
                            closed,
                        };
                        (Slot::Stream(m2), Err(Error::Os(code)))
                    },
                    ConnState::Connected => {
                        match read {
                            ReadState::Ready { data, pos } => {
                                let avail = data.len() - pos;
                                let n = if max <= avail {
                                    max
                                } else {
                                    avail
                                };
                                let mut i: usize = 0;
                                while i < n
                                    invariant
                                        i <= n,
                                        pos + n <= data@.len(),
                                        data@.len() <= usize::MAX,
                                        buf@ == data@.subrange(pos as int, pos + i),
                                    decreases n - i,
                                {
                                    buf.push(data[pos + i]);
                                    proof {
                                        assert(buf@ =~= data@.subrange(pos as int, pos + i + 1));
                                    }
                                    i = i + 1;
                                }
                                let read2 = if pos + n == data.len() {
                                    if interest.is_readable() && !opt.is_edge() {
                                        ReadState::Probing {
                                            op_id: fresh,
                                            buf: self.pool.get(READ_BUF_CAP),
                                        }
                                    } else {
                                        ReadState::Idle
                                    }
                                } else {
                                    ReadState::Ready { data, pos: pos + n }
                                };
                                let m2 = StreamMachine {
                                    token,
                                    interest,
                                    opt,
                                    conn: ConnState::Connected,
                                    read: read2,
                                    write,
                                    closed,
                                };
                                (Slot::Stream(m2), Ok(n))
                            },
                            rd => {
                                let m2 = StreamMachine {
                                    token,
                                    interest,
                                    opt,
                                    conn: ConnState::Connected,
                                    read: rd,
                                    write,
                                    closed,
                                };
                                (Slot::Stream(m2), Err(Error::WouldBlock))
                            },
                        }
                    },
                }
            },
            _ => {
                proof {
                    assert(false);
                }
                (Slot::Vacant, Err(Error::WouldBlock))
            },
        };
        proof {
            lemma_table_counts_update(t0, key as int, Slot::Vacant);
            lemma_table_counts_update(self.table@, key as int, slot2);
        }
        self.table.set(key, slot2);
        r
    }

    /// Copies the whole of `data` into a pool buffer and issues a write
    /// operation carrying exactly those bytes, unless one is already in
    /// flight.  The outcome and the state change are exactly one
    /// [`stream_write_step`].
    pub fn write_to(&mut self, key: usize, data: &Vec<u8>) -> (r: Result<usize, Error>)
        requires
            old(self).wf(),
            key < old(self).slots().len(),
            old(self).slots()[key as int] matches Slot::Stream(m) && !m.closed,
            old(self).pool_outstanding() < usize::MAX,
            old(self).next_op() < u64::MAX,
        ensures
            final(self).wf(),
            final(self).spec_id() == old(self).spec_id(),
            final(self).pool_bound() == old(self).pool_bound(),
            final(self).pool_outstanding() <= old(self).pool_outstanding() + 1,
            final(self).slots().len() == old(self).slots().len(),
            final(self).next_op() == old(self).next_op() + 1,
            forall|j: int|
                0 <= j < old(self).slots().len() && j != key ==> final(self).slots()[j] == old(
                    self,
                ).slots()[j],
            old(self).slots()[key as int] matches Slot::Stream(pre) && final(self).slots()[
                key as int] matches Slot::Stream(post) && stream_write_step(
                pre,
                post,
                r,
                data@,
                old(self).next_op(),
            ),
    {
        let fresh = self.next_op;
        self.next_op = fresh + 1;
        proof {
            assert forall|i: int|
                0 <= i < self.table@.len() implies (#[trigger] self.table@[i]).ops_below(
                self.next_op,
            ) by {
                lemma_slot_ops_below_mono(self.table@[i], fresh, self.next_op);
            }
        }
        let ghost t0 = self.table@;
        proof {
            lemma_table_counts_at(t0, key as int);
        }
        let slot = take_slot(&mut self.table, key);
        let (slot2, r): (Slot, Result<usize, Error>) = match slot {
            Slot::Stream(m) => {
                let StreamMachine { token, interest, opt, conn, read, write, closed } = m;
                match conn {
                    ConnState::Connecting { op_id } => {
                        let m2 = StreamMachine {
                            token,
                            interest,
                            opt,
                            conn: ConnState::Connecting { op_id },
                            read,
                            write,
                            closed,
                        };
                        (Slot::Stream(m2), Err(Error::NotConnected))
                    },
                    ConnState::Failed { code } => {
                        let m2 = StreamMachine {
                            token,
                            interest,
                            opt,
                            conn: ConnState::Failed { code },
                            read,
                            write,
                            closed,
                        };
                        (Slot::Stream(m2), Err(Error::Os(code)))
                    },
                    ConnState::Connected => {
                        match write {
                            WriteState::Writing { op_id, buf } => {
                                let m2 = StreamMachine {
                                    token,
                                    interest,
                                    opt,
                                    conn: ConnState::Connected,
                                    read,
                                    write: WriteState::Writing { op_id, buf },
                                    closed,
                                };
                                (Slot::Stream(m2), Err(Error::WouldBlock))
                            },
                            _ => {
                                let mut b = self.pool.get(data.len());
                                b.load(data);
                                let m2 = StreamMachine {
                                    token,
                                    interest,
                                    opt,
                                    conn: ConnState::Connected,
                                    read,
                                    write: WriteState::Writing { op_id: fresh, buf: b },
                                    closed,
                                };
                                (Slot::Stream(m2), Ok(data.len()))
                            },
                        }
                    },
                }
            },
            _ => {
                proof {
                    assert(false);
                }
                (Slot::Vacant, Err(Error::WouldBlock))
            },
        };
        proof {
            lemma_table_counts_update(t0, key as int, Slot::Vacant);
            lemma_table_counts_update(self.table@, key as int, slot2);
        }
        self.table.set(key, slot2);
        r
    }

    /// Takes the oldest accepted, undelivered connection from the listener
    /// at `key`, signalling `WouldBlock` exactly when none is pending.
    /// The outcome and the state change are exactly one
    /// [`listener_accept_take`].
    pub fn accept_from(&mut self, key: usize) -> (r: Result<net::UnixStream, Error>)
        requires
            old(self).wf(),
            key < old(self).slots().len(),
            old(self).slots()[key as int] matches Slot::Listener(m) && !m.closed,
        ensures
            final(self).wf(),
            final(self).spec_id() == old(self).spec_id(),
            final(self).pool_bound() == old(self).pool_bound(),
            final(self).slots().len() == old(self).slots().len(),
            final(self).next_op() == old(self).next_op(),
            final(self).pool_outstanding() == old(self).pool_outstanding(),
            forall|j: int|
                0 <= j < old(self).slots().len() && j != key ==> final(self).slots()[j] == old(
                    self,
                ).slots()[j],
            old(self).slots()[key as int] matches Slot::Listener(pre) && final(self).slots()[
                key as int] matches Slot::Listener(post) && listener_accept_take(pre, post, r),
    {
        let ghost t0 = self.table@;
        let slot = take_slot(&mut self.table, key);
        let (slot2, r): (Slot, Result<net::UnixStream, Error>) = match slot {
            Slot::Listener(m) => {
                let ListenerMachine { token, interest, opt, accept, mut pending, closed } = m;
                let r = if pending.len() > 0 {
                    Ok(pending.remove(0))
                } else {
                    Err(Error::WouldBlock)
                };
                let m2 = ListenerMachine { token, interest, opt, accept, pending, closed };
                (Slot::Listener(m2), r)
            },
            _ => {
                proof {
                    assert(false);
                }
                (Slot::Vacant, Err(Error::WouldBlock))
            },
        };
        proof {
            lemma_table_counts_update(t0, key as int, Slot::Vacant);
            lemma_table_counts_update(self.table@, key as int, slot2);
        }
        self.table.set(key, slot2);
        r
    }
}

/// Law (buffer-pool discipline): in every reachable selector state — the
/// states every sequence of registrations, reads, writes and drains keeps
/// well-formed — the buffers handed out of the pool and not yet returned
/// never exceed the number of operations concurrently in flight, and the
/// pool never stores more buffers than its configured bound.
pub proof fn lemma_pool_discipline(sel: Selector)
    requires
        sel.wf(),
    ensures
        sel.pool_outstanding() <= table_ops(sel.slots()),
        table_ops(sel.slots()) == 0 ==> sel.pool_outstanding() == 0,
        sel.pool_size() <= sel.pool_bound(),
{
    lemma_table_bufs_le_ops(sel.slots());
    crate::pool::lemma_pool_size_bound(sel.pool);
}

/// Law (one event per read completion): a read completion matching the
/// probe in flight on a live stream that observes reads produces exactly
/// one event, carrying the stream's token and readable readiness, and
/// leaves no read operation in flight.
pub proof fn lemma_read_completion_one_event(
    m: StreamMachine,
    op_id: u64,
    kind: CompletionKind,
    fresh: u64,
    post: Slot,
    ev: Seq<Event>,
)
    requires
        stream_step(m, op_id, kind, fresh, post, ev),
        !m.closed,
        m.interest.readable,
        kind is Read,
        m.read matches ReadState::Probing { op_id: my, .. } && my == op_id,
    ensures
        ev.len() == 1,
        ev[0].token == m.token,
        ev[0].readiness.readable,
        post matches Slot::Stream(m2) && m2.read is Ready && m2.opt == m.opt && m2.token
            == m.token && m2.interest == m.interest,
{
}

/// Law (no second delivery without a probe): a read completion that
/// matches no read operation in flight — as after a delivery, when the
/// direction rests until the data is drained and, under edge-triggered
/// interest, until the caller re-arms by re-registering — changes a live
/// stream in no way and produces no event.  A second readiness event for
/// the same direction therefore cannot arise until a new probe is issued.
pub proof fn lemma_stale_read_silent(
    m: StreamMachine,
    op_id: u64,
    kind: CompletionKind,
    fresh: u64,
    post: Slot,
    ev: Seq<Event>,
)
    requires
        stream_step(m, op_id, kind, fresh, post, ev),
        !m.closed,
        kind is Read,
        !(m.read matches ReadState::Probing { op_id: my, .. } && my == op_id),
    ensures
        post == Slot::Stream(m),
        ev == Seq::<Event>::empty(),
{
}

/// Law (edge-triggered re-arm): draining the delivered data of an
/// edge-triggered stream leaves the read direction idle, with no probe
/// re-armed; the re-registration that observes reads then issues the
/// fresh probe.  Only after that re-arm can a read completion be matched
/// and a second readable event be produced.
pub proof fn lemma_edge_rearm_via_reregister(
    pre: StreamMachine,
    mid: StreamMachine,
    r: Result<usize, Error>,
    out: Seq<u8>,
    max: usize,
    fresh1: u64,
    post: StreamMachine,
    token: Token,
    interest: Ready,
    opt: PollOpt,
    fresh2: u64,
)
    requires
        stream_read_step(pre, mid, r, out, max, fresh1),
        pre.conn is Connected,
        pre.opt.edge,
        pre.read matches ReadState::Ready { data, pos } && max >= data@.len() - pos,
        stream_reregistered(mid, post, token, interest, opt, fresh2),
        interest.readable,
    ensures
        mid.read is Idle,
        fresh_read_probe(post.read, fresh2),
{
}

/// A slot left behind by a dropped or deregistered handle: closed and
/// draining, or already reclaimed.
pub open spec fn slot_dormant(s: Slot) -> bool {
    match s {
        Slot::Vacant => true,
        Slot::Stream(m) => m.closed,
        Slot::Listener(m) => m.closed,
    }
}

/// Law (dropped handles stay silent, one packet): a completion packet
/// routed to a dormant slot produces no event and leaves the slot
/// dormant.
pub proof fn lemma_dormant_slot_silent(
    pre: Slot,
    op_id: u64,
    kind: CompletionKind,
    fresh: u64,
    post: Slot,
    ev: Seq<Event>,
)
    requires
        completion_step(pre, op_id, kind, fresh, post, ev),
        slot_dormant(pre),
    ensures
        ev == Seq::<Event>::empty(),
        slot_dormant(post),
{
}

/// A chain's suffix is a chain.
pub proof fn lemma_chain_suffix(
    states: Seq<Seq<Slot>>,
    pre_op: u64,
    cs: Seq<Completion>,
    evs: Seq<Seq<Event>>,
)
    requires
        drain_chain(states, pre_op, cs, evs),
        cs.len() > 0,
        pre_op + cs.len() <= u64::MAX,
    ensures
        drain_chain(states.skip(1), (pre_op + 1) as u64, cs.skip(1), evs.skip(1)),
{
    assert forall|i: int| 0 <= i < cs.skip(1).len() implies drain_step(
        states.skip(1)[i],
        (((pre_op + 1) as u64) + i) as u64,
        #[trigger] cs.skip(1)[i],
        states.skip(1)[i + 1],
        (((pre_op + 1) as u64) + i + 1) as u64,
        evs.skip(1)[i],
    ) by {
        assert(cs.skip(1)[i] == cs[i + 1]);
        assert(states.skip(1)[i] == states[i + 1]);
        assert(states.skip(1)[i + 1] == states[i + 2]);
        assert(evs.skip(1)[i] == evs[i + 1]);
        assert(drain_step(
            states[i + 1],
            (pre_op + (i + 1)) as u64,
            cs[i + 1],
            states[i + 2],
            (pre_op + (i + 1) + 1) as u64,
            evs[i + 1],
        ));
    }
}

/// Law (dropped handles stay silent): over a whole drain whose packets
/// are all routed to a slot that was dormant before the drain — as after
/// dropping a stream with a read probe in flight — no event at all is
/// produced.  Polling after a drop neither fails nor delivers an event
/// referencing the dropped registration.
pub proof fn lemma_dropped_key_silent(
    states: Seq<Seq<Slot>>,
    pre_op: u64,
    cs: Seq<Completion>,
    evs: Seq<Seq<Event>>,
    key: usize,
)
    requires
        drain_chain(states, pre_op, cs, evs),
        pre_op + cs.len() <= u64::MAX,
        key < states.first().len(),
        slot_dormant(states.first()[key as int]),
        forall|i: int| 0 <= i < cs.len() ==> (#[trigger] cs[i]).key == key,
    ensures
        evs.flatten() == Seq::<Event>::empty(),
    decreases cs.len(),
{
    if cs.len() == 0 {
        assert(evs.flatten() =~= Seq::<Event>::empty());
    } else {
        assert(drain_step(states[0], pre_op, cs[0], states[1], (pre_op + 1) as u64, evs[0]));
        assert(states.first() == states[0]);
        lemma_dormant_slot_silent(
            states[0][key as int],
            cs[0].op_id,
            cs[0].kind,
            pre_op,
            states[1][key as int],
            evs[0],
        );
        lemma_chain_suffix(states, pre_op, cs, evs);
        assert(states.skip(1).first() == states[1]);
        lemma_dropped_key_silent(states.skip(1), (pre_op + 1) as u64, cs.skip(1), evs.skip(1), key);
        assert(evs.first() == evs[0]);
        assert(evs.drop_first() =~= evs.skip(1));
        assert(evs.flatten() =~= Seq::<Event>::empty());
    }
}

/// A live level-triggered listener that observes readability, with its
/// accept probe in flight, registered under `tok`.
pub open spec fn accepting_level_listener(s: Slot, tok: Token) -> bool {
    s matches Slot::Listener(m) && !m.closed && m.interest.readable && !m.opt.edge && m.token
        == tok && m.accept is Probing
}

/// The identity of the accept probe in flight.
pub open spec fn probe_id_of(s: Slot) -> u64 {
    match s {
        Slot::Listener(m) => match m.accept {
            AcceptState::Probing { op_id, .. } => op_id,
            _ => 0,
        },
        _ => 0,
    }
}

/// How many accepted connections the slot holds undelivered.
pub open spec fn pending_count(s: Slot) -> nat {
    match s {
        Slot::Listener(m) => m.pending@.len(),
        _ => 0,
    }
}

/// Law (level-triggered accepts, one event each): successive accepted
/// connections, each arriving as an accept completion matching the probe
/// then in flight on a level-triggered listener, produce exactly one
/// readiness event each — carrying the listener's token and readable
/// readiness — and leave the listener re-armed with its pending queue
/// grown by their number: no accept notification is missed or
/// duplicated.
pub proof fn lemma_level_listener_accepts(
    states: Seq<Seq<Slot>>,
    pre_op: u64,
    cs: Seq<Completion>,
    evs: Seq<Seq<Event>>,
    key: usize,
    tok: Token,
)
    requires
        drain_chain(states, pre_op, cs, evs),
        pre_op + cs.len() <= u64::MAX,
        key < states.first().len(),
        accepting_level_listener(states.first()[key as int], tok),
        forall|i: int|
            0 <= i < cs.len() ==> {
                &&& (#[trigger] cs[i]).key == key
                &&& cs[i].kind is Accept
                &&& cs[i].op_id == probe_id_of(states[i][key as int])
            },
    ensures
        evs.flatten().len() == cs.len(),
        forall|i: int|
            0 <= i < evs.len() ==> (#[trigger] evs[i]) == seq![
                Event { token: tok, readiness: readable_only() },
            ],
        accepting_level_listener(states.last()[key as int], tok),
        pending_count(states.last()[key as int]) == pending_count(states.first()[key as int])
            + cs.len(),
    decreases cs.len(),
{
    if cs.len() == 0 {
        assert(states.last() == states.first());
        assert(evs.flatten() =~= Seq::<Event>::empty());
    } else {
        assert(drain_step(states[0], pre_op, cs[0], states[1], (pre_op + 1) as u64, evs[0]));
        assert(states.first() == states[0]);
        assert(cs[0].op_id == probe_id_of(states[0][key as int]));
        assert(evs[0] == seq![Event { token: tok, readiness: readable_only() }]);
        assert(accepting_level_listener(states[1][key as int], tok));
        assert(pending_count(states[1][key as int]) == pending_count(states[0][key as int]) + 1);
        lemma_chain_suffix(states, pre_op, cs, evs);
        assert(states.skip(1).first() == states[1]);
        assert forall|i: int|
            0 <= i < cs.skip(1).len() implies {
                &&& (#[trigger] cs.skip(1)[i]).key == key
                &&& cs.skip(1)[i].kind is Accept
                &&& cs.skip(1)[i].op_id == probe_id_of(states.skip(1)[i][key as int])
            } by {
            assert(cs.skip(1)[i] == cs[i + 1]);
            assert(states.skip(1)[i] == states[i + 1]);
        }
        lemma_level_listener_accepts(
            states.skip(1),
            (pre_op + 1) as u64,
            cs.skip(1),
            evs.skip(1),
            key,
            tok,
        );
        assert(states.skip(1).last() == states.last());
        assert(evs.first() == evs[0]);
        assert(evs.drop_first() =~= evs.skip(1));
        assert(evs.flatten() =~= evs[0] + evs.skip(1).flatten());
        assert forall|i: int|
            0 <= i < evs.len() implies (#[trigger] evs[i]) == seq![
                Event { token: tok, readiness: readable_only() },
            ] by {
            if i > 0 {
                assert(evs.skip(1)[i - 1] == evs[i]);
            }
        }
    }
}

} // verus!
