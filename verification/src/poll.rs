//! The selector-identity guard carried by every handle, and the allocator
//! of process-scoped selector identities.
//!
//! Identity `0` means "not associated with any selector"; the allocator
//! therefore starts at `1` and never produces `0`.

use vstd::prelude::*;
use crate::ready::Error;

verus! {

/// Associates an I/O handle with at most one selector for its registered
/// lifetime.  Once the guard holds a non-zero identity, association with a
/// different identity fails; re-association with the same identity is a
/// no-op success.  Cloning a handle copies the current identity snapshot;
/// the copies evolve independently thereafter.
#[derive(Clone, Copy, PartialEq, Eq, Structural, Debug)]
pub struct SelectorId {
    id: usize,
}

impl SelectorId {
    /// The identity currently held: `0` while unassociated.
    pub closed spec fn id(&self) -> usize {
        self.id
    }

    /// Returns the identity currently held: `0` while unassociated.
    pub fn current_id(&self) -> (id: usize)
        ensures
            id == self.id(),
    {
        self.id
    }

    /// Returns an unassociated guard.
    pub fn new() -> (s: SelectorId)
        ensures
            s.id() == 0,
    {
        SelectorId { id: 0 }
    }

    /// Binds the guard to the selector with identity `selector_id`, unless
    /// it is already bound to a different one.
    pub fn associate_selector(&mut self, selector_id: usize) -> (r: Result<(), Error>)
        requires
            selector_id != 0,
        ensures
            associate_step(*old(self), selector_id, *final(self), r),
    {
        if self.id != 0 && self.id != selector_id {
            Err(Error::AlreadyAssociated)
        } else {
            self.id = selector_id;
            Ok(())
        }
    }

    /// Unbinds the guard, so the handle may later associate with any
    /// selector again.
    pub fn disassociate(&mut self)
        ensures
            final(self).id() == 0,
    {
        self.id = 0;
    }
}

/// Law: once a guard is bound to selector `a`, binding it to a different
/// selector `b` fails with `AlreadyAssociated` and leaves the binding
/// unchanged, while binding it to `a` again is a no-op success.
pub proof fn lemma_guard_single_selector(g: SelectorId, a: usize, b: usize)
    requires
        g.id() == a,
        a != 0,
        b != 0,
        a != b,
    ensures
        forall|g2: SelectorId, r: Result<(), Error>|
            associate_step(g, b, g2, r) ==> r == Err::<(), Error>(Error::AlreadyAssociated)
                && g2.id() == a,
        forall|g2: SelectorId, r: Result<(), Error>|
            associate_step(g, a, g2, r) ==> r == Ok::<(), Error>(()) && g2.id() == a,
{
}

/// The relation `associate_selector` establishes between the guard before
/// the call, the identity offered, the guard after the call and the
/// result.
pub open spec fn associate_step(
    before: SelectorId,
    selector_id: usize,
    after: SelectorId,
    r: Result<(), Error>,
) -> bool {
    if before.id() != 0 && before.id() != selector_id {
        r == Err::<(), Error>(Error::AlreadyAssociated) && after.id() == before.id()
    } else {
        r == Ok::<(), Error>(()) && after.id() == selector_id
    }
}

/// Allocates process-scoped selector identities: non-zero, monotonically
/// increasing, never reused.
pub struct IdSource {
    next: usize,
}

impl IdSource {
    /// The identity the next allocation returns.
    pub closed spec fn next(&self) -> usize {
        self.next
    }

    /// The source never reaches zero.
    pub closed spec fn wf(&self) -> bool {
        self.next >= 1
    }

    /// Returns a source whose first identity is `1`.
    pub fn new() -> (s: IdSource)
        ensures
            s.wf(),
            s.next() == 1,
    {
        IdSource { next: 1 }
    }

    /// Hands out the next identity.  Identities are non-zero and strictly
    /// increasing, so no identity is ever reused.
    pub fn allocate(&mut self) -> (id: usize)
        requires
            old(self).wf(),
            old(self).next() < usize::MAX,
        ensures
            final(self).wf(),
            id == old(self).next(),
            id != 0,
            final(self).next() == old(self).next() + 1,
    {
        let id = self.next;
        self.next = self.next + 1;
        id
    }
}

} // verus!
