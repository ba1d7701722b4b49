//! Per-socket overlapped-operation state machines, and the completion
//! packets the kernel posts for the operations they issue.
//!
//! Each stream tracks one state per direction and one connection state; a
//! listener tracks one accept state.  At most one operation is in flight
//! per direction per handle, and every in-flight read, write or accept
//! operation owns exactly one buffer from the selector's pool until its
//! completion is observed.

use vstd::prelude::*;
use crate::net;
use crate::pool::Buffer;
use crate::ready::{PollOpt, Ready, Token};

verus! {

/// The read direction of a stream.
pub enum ReadState {
    /// No operation in flight and no undelivered data.
    Idle,
    /// A read operation is in flight; its record owns a pool buffer the
    /// kernel fills.
    Probing { op_id: u64, buf: Buffer },
    /// A read completed: `data` holds what the kernel delivered, of which
    /// the first `pos` bytes were already handed to the caller.
    Ready { data: Vec<u8>, pos: usize },
}

/// The write direction of a stream.
pub enum WriteState {
    /// No operation in flight and writability not yet observed.
    Idle,
    /// A write operation is in flight; its record owns the pool buffer
    /// that carries the bytes being transmitted.
    Writing { op_id: u64, buf: Buffer },
    /// The last write operation completed: the stream is writable.
    Ready,
}

/// The connection state of a stream.
pub enum ConnState {
    /// A connect operation is in flight.
    Connecting { op_id: u64 },
    /// The stream is connected.
    Connected,
    /// The connect operation failed with an operating-system error code.
    Failed { code: i32 },
}

/// The accept state of a listener.
pub enum AcceptState {
    /// No accept operation in flight.
    Idle,
    /// An accept operation is in flight; its record owns the pool buffer
    /// that receives the peer address.
    Probing { op_id: u64, buf: Buffer },
}

/// The state machine of one registered stream.
pub struct StreamMachine {
    /// The caller's tag, carried into every event for this stream.
    pub token: Token,
    /// The directions the caller asked to observe.
    pub interest: Ready,
    /// Edge- or level-triggered delivery.
    pub opt: PollOpt,
    /// The connection state.
    pub conn: ConnState,
    /// The read direction.
    pub read: ReadState,
    /// The write direction.
    pub write: WriteState,
    /// Set once the handle deregistered or dropped: in-flight operations
    /// are cancelled and only drained, and no further event is delivered.
    pub closed: bool,
}

/// The state machine of one registered listener.
pub struct ListenerMachine {
    /// The caller's tag, carried into every event for this listener.
    pub token: Token,
    /// The interest the caller asked to observe; accepts need `readable`.
    pub interest: Ready,
    /// Edge- or level-triggered delivery.
    pub opt: PollOpt,
    /// The accept probe.
    pub accept: AcceptState,
    /// Accepted connections not yet handed to the caller, oldest first.
    pub pending: Vec<net::UnixStream>,
    /// Set once the handle deregistered or dropped.
    pub closed: bool,
}

/// What one completion packet reports.
pub enum CompletionKind {
    /// A read operation finished: the bytes the kernel placed into the
    /// operation's buffer.  Empty means the peer hung up.
    Read { data: Vec<u8> },
    /// A write operation finished: its buffer was transmitted.
    Write,
    /// An accept operation finished: the newly connected socket.
    Accept { stream: net::UnixStream },
    /// A connect operation finished; `error` carries the
    /// operating-system error code if it failed.
    Connect { error: Option<i32> },
}

/// One packet drained from the kernel's completion queue: the side-table
/// key of the owning state machine, the identity of the operation it
/// terminates, and the outcome.
pub struct Completion {
    pub key: usize,
    pub op_id: u64,
    pub kind: CompletionKind,
}

impl ReadState {
    /// How many in-flight operations the state holds.
    pub open spec fn ops(self) -> nat {
        match self {
            ReadState::Probing { .. } => 1,
            _ => 0,
        }
    }

    /// How many pool buffers the state holds.
    pub open spec fn bufs(self) -> nat {
        self.ops()
    }

    /// In-flight buffers are well-formed and empty; delivered data is
    /// consumed at most once.
    pub open spec fn wf(self) -> bool {
        match self {
            ReadState::Idle => true,
            ReadState::Probing { buf, .. } => buf.wf() && buf@.len() == 0,
            ReadState::Ready { data, pos } => pos <= data@.len(),
        }
    }

    /// Every in-flight operation was issued before `bound`.
    pub open spec fn ops_below(self, bound: u64) -> bool {
        match self {
            ReadState::Probing { op_id, .. } => op_id < bound,
            _ => true,
        }
    }
}

impl WriteState {
    /// How many in-flight operations the state holds.
    pub open spec fn ops(self) -> nat {
        match self {
            WriteState::Writing { .. } => 1,
            _ => 0,
        }
    }

    /// How many pool buffers the state holds.
    pub open spec fn bufs(self) -> nat {
        self.ops()
    }

    /// In-flight buffers are well-formed.
    pub open spec fn wf(self) -> bool {
        match self {
            WriteState::Writing { buf, .. } => buf.wf(),
            _ => true,
        }
    }

    /// Every in-flight operation was issued before `bound`.
    pub open spec fn ops_below(self, bound: u64) -> bool {
        match self {
            WriteState::Writing { op_id, .. } => op_id < bound,
            _ => true,
        }
    }
}

impl ConnState {
    /// How many in-flight operations the state holds.  A connect operation
    /// carries no buffer.
    pub open spec fn ops(self) -> nat {
        match self {
            ConnState::Connecting { .. } => 1,
            _ => 0,
        }
    }

    /// Every in-flight operation was issued before `bound`.
    pub open spec fn ops_below(self, bound: u64) -> bool {
        match self {
            ConnState::Connecting { op_id } => op_id < bound,
            _ => true,
        }
    }
}

impl AcceptState {
    /// How many in-flight operations the state holds.
    pub open spec fn ops(self) -> nat {
        match self {
            AcceptState::Probing { .. } => 1,
            _ => 0,
        }
    }

    /// How many pool buffers the state holds.
    pub open spec fn bufs(self) -> nat {
        self.ops()
    }

    /// In-flight buffers are well-formed and empty.
    pub open spec fn wf(self) -> bool {
        match self {
            AcceptState::Probing { buf, .. } => buf.wf() && buf@.len() == 0,
            _ => true,
        }
    }

    /// Every in-flight operation was issued before `bound`.
    pub open spec fn ops_below(self, bound: u64) -> bool {
        match self {
            AcceptState::Probing { op_id, .. } => op_id < bound,
            _ => true,
        }
    }
}

impl StreamMachine {
    /// How many operations the machine has in flight.
    pub open spec fn ops(self) -> nat {
        self.read.ops() + self.write.ops() + self.conn.ops()
    }

    /// How many pool buffers the machine holds.
    pub open spec fn bufs(self) -> nat {
        self.read.bufs() + self.write.bufs()
    }

    /// Well-formedness of the machine.  Before the connect operation
    /// completes, neither direction probes; a closed machine holds no
    /// delivered data.
    pub open spec fn wf(self) -> bool {
        &&& self.read.wf()
        &&& self.write.wf()
        &&& self.conn is Connecting ==> self.read is Idle && self.write is Idle
        &&& self.closed ==> !(self.read is Ready) && !(self.write is Ready)
    }

    /// Every in-flight operation was issued before `bound`.
    pub open spec fn ops_below(self, bound: u64) -> bool {
        self.read.ops_below(bound) && self.write.ops_below(bound) && self.conn.ops_below(bound)
    }
}

impl ListenerMachine {
    /// How many operations the machine has in flight.
    pub open spec fn ops(self) -> nat {
        self.accept.ops()
    }

    /// How many pool buffers the machine holds.
    pub open spec fn bufs(self) -> nat {
        self.accept.bufs()
    }

    /// Well-formedness of the machine: a closed machine keeps no
    /// undelivered connection.
    pub open spec fn wf(self) -> bool {
        &&& self.accept.wf()
        &&& self.closed ==> self.pending@.len() == 0
    }

    /// Every in-flight operation was issued before `bound`.
    pub open spec fn ops_below(self, bound: u64) -> bool {
        self.accept.ops_below(bound)
    }
}

} // verus!
