//! Scoped access to a worker's state.
//!
//! A worker owns its bridge outright, so taking hold of it is an ordinary
//! borrow: it cannot be contended, and there is nothing to wait or retry
//! for. These two functions run a callback for the length of such a borrow.

use vstd::prelude::*;

verus! {

/// Runs `callback` on `item` borrowed for reading, and returns what the
/// callback returns.
pub fn borrow_loop<T, F, X>(item: &T, callback: F) -> (out: X) where F: FnOnce(&T) -> X
    requires
        callback.requires((item,)),
    ensures
        callback.ensures((item,), out),
{
    callback(item)
}

/// Runs `callback` on `item` borrowed for writing, and returns what the
/// callback returns. `item` is left as the callback left it.
pub fn borrow_loop_mut<T, F, X>(item: &mut T, callback: F) -> (out: X) where
    F: FnOnce(&mut T) -> X,

    requires
        forall|held: &mut T| *held == *old(item) ==> callback.requires((held,)),
    ensures
        exists|held: &mut T|
            *held == *old(item) && *final(held) == *final(item) && callback.ensures(
                (held,),
                out,
            ),
{
    callback(item)
}

} // verus!
