//! The handle table: a registry from opaque handles to resources.

use crate::error::BridgeError;
use std::collections::HashMap;
use vstd::prelude::*;

verus! {

broadcast use vstd::std_specs::hash::group_hash_axioms;

/// An opaque token naming a resource in one table. Only equality means
/// anything on it, and it means nothing in another table.
pub type Handle = u64;

/// A registry that issues a fresh handle for every resource put into it.
///
/// Handles start at 1 and are issued in increasing order; a handle that has
/// been removed is never issued again. The view is the map from the live
/// handles to their resources.
pub struct HandleTable<R> {
    entries: HashMap<Handle, R>,
    next: Handle,
}

impl<R> View for HandleTable<R> {
    type V = Map<Handle, R>;

    closed spec fn view(&self) -> Map<Handle, R> {
        self.entries@
    }
}

impl<R> HandleTable<R> {
    /// Every live handle is nonzero and was issued before `next_handle`.
    pub closed spec fn wf(&self) -> bool {
        &&& self.next >= 1
        &&& forall|h: Handle| #[trigger] self.entries@.contains_key(h) ==> 1 <= h < self.next
    }

    /// The handle that the next `insert` returns.
    pub closed spec fn next_handle(&self) -> Handle {
        self.next
    }

    /// Whether a handle is left to issue.
    pub open spec fn spec_has_spare(&self) -> bool {
        self.next_handle() < u64::MAX
    }

    /// In a well-formed table no live handle is zero and none has yet to be
    /// issued.
    pub proof fn law_live_handles_were_issued(&self, handle: Handle)
        requires
            self.wf(),
            self@.contains_key(handle),
        ensures
            1 <= handle < self.next_handle(),
    {
    }

    /// An empty table whose first handle is 1.
    pub fn new() -> (t: Self)
        ensures
            t.wf(),
            t@ == Map::<Handle, R>::empty(),
            t.next_handle() == 1,
    {
        HandleTable { entries: HashMap::new(), next: 1 }
    }

    #[verifier::when_used_as_spec(spec_has_spare)]
    pub fn has_spare(&self) -> (b: bool)
        ensures
            b == self.spec_has_spare(),
    {
        self.next < u64::MAX
    }

    /// Registers `resource` under a handle that this table has never issued
    /// before, and returns the handle.
    pub fn insert(&mut self, resource: R) -> (handle: Handle)
        requires
            old(self).wf(),
            old(self).has_spare(),
        ensures
            final(self).wf(),
            handle != 0,
            handle == old(self).next_handle(),
            !old(self)@.contains_key(handle),
            final(self)@ == old(self)@.insert(handle, resource),
            final(self).next_handle() == handle + 1,
    {
        let handle = self.next;
        self.next = handle + 1;
        self.entries.insert(handle, resource);
        handle
    }

    /// Whether `handle` names a live resource.
    pub fn contains(&self, handle: Handle) -> (b: bool)
        ensures
            b == self@.contains_key(handle),
    {
        self.entries.contains_key(&handle)
    }

    /// The resource that `handle` names, or `UnknownHandle` if it names
    /// none.
    pub fn get(&self, handle: Handle) -> (r: Result<&R, BridgeError>)
        ensures
            match r {
                Ok(resource) => self@.contains_key(handle) && *resource == self@[handle],
                Err(e) => !self@.contains_key(handle) && e == BridgeError::UnknownHandle,
            },
    {
        match self.entries.get(&handle) {
            Some(resource) => Ok(resource),
            None => Err(BridgeError::UnknownHandle),
        }
    }

    /// Takes the resource that `handle` names out of the table. The handle
    /// is dead from then on: a second removal reports `UnknownHandle`.
    pub fn remove(&mut self, handle: Handle) -> (r: Result<R, BridgeError>)
        requires
            old(self).wf(),
        ensures
            final(self).wf(),
            final(self).next_handle() == old(self).next_handle(),
            match r {
                Ok(resource) => {
                    &&& old(self)@.contains_key(handle)
                    &&& resource == old(self)@[handle]
                    &&& final(self)@ == old(self)@.remove(handle)
                },
                Err(e) => {
                    &&& !old(self)@.contains_key(handle)
                    &&& e == BridgeError::UnknownHandle
                    &&& final(self)@ == old(self)@
                },
            },
    {
        match self.entries.remove(&handle) {
            Some(resource) => Ok(resource),
            None => {
                assert(self.entries@ =~= old(self).entries@);
                Err(BridgeError::UnknownHandle)
            },
        }
    }
}

} // verus!
