//! The live-reload channel's bookkeeping: who is subscribed to change
//! notifications, and which page the control panel serves.
//!
//! The caller owns the sockets. It keeps one address per subscriber here
//! and sends each changed path to every address in [`ReloadServer::sessions`].

use std::collections::HashMap;
use vstd::prelude::*;

verus! {

broadcast use vstd::std_specs::hash::group_hash_axioms;

/// Draws a session id from `rand::random`, the thread-local generator of
/// the `rand` crate. Nothing is claimed of the number drawn.
#[verifier::external_body]
fn random_id() -> usize {
    rand::random::<usize>()
}

/// The subscribers of the live-reload channel, each under its session id.
///
/// `A` is whatever the caller needs to reach a subscriber. The view is the
/// map from session ids to addresses.
pub struct ReloadServer<A> {
    sessions: HashMap<usize, A>,
}

impl<A> View for ReloadServer<A> {
    type V = Map<usize, A>;

    closed spec fn view(&self) -> Map<usize, A> {
        self.sessions@
    }
}

impl<A> ReloadServer<A> {
    /// A channel without subscribers.
    pub fn new() -> (server: Self)
        ensures
            server@ == Map::<usize, A>::empty(),
    {
        ReloadServer { sessions: HashMap::new() }
    }

    /// Subscribes `addr` under the session id `id`. A subscriber that held
    /// the id before is replaced and handed back.
    pub fn register(&mut self, id: usize, addr: A) -> (replaced: Option<A>)
        ensures
            final(self)@ == old(self)@.insert(id, addr),
            replaced == if old(self)@.contains_key(id) {
                Some(old(self)@[id])
            } else {
                None
            },
    {
        self.sessions.insert(id, addr)
    }

    /// Subscribes `addr` under a session id drawn at random, and returns
    /// the id.
    pub fn connect(&mut self, addr: A) -> (id: usize)
        ensures
            final(self)@ == old(self)@.insert(id, addr),
    {
        let id = random_id();
        let _ = self.register(id, addr);
        id
    }

    /// Ends the session `id` and hands back its address, if there was such
    /// a session.
    pub fn disconnect(&mut self, id: usize) -> (gone: Option<A>)
        ensures
            final(self)@ == old(self)@.remove(id),
            gone == if old(self)@.contains_key(id) {
                Some(old(self)@[id])
            } else {
                None
            },
    {
        self.sessions.remove(&id)
    }

    /// The subscribers to notify.
    pub fn sessions(&self) -> (sessions: &HashMap<usize, A>)
        ensures
            sessions@ == self@,
    {
        &self.sessions
    }
}

/// The page of the control panel that answers a request for `filename`:
/// the file itself, or `index.html` where no file is named.
pub fn page_for(filename: String) -> (page: String)
    ensures
        page@ == if filename@.len() == 0 {
            "index.html"@
        } else {
            filename@
        },
{
    if filename.as_str().is_empty() {
        "index.html".to_string()
    } else {
        filename
    }
}

} // verus!
