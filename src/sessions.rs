use vstd::prelude::*;

use std::collections::HashMap;

verus! {

broadcast use vstd::std_specs::hash::group_hash_axioms;

/// An opaque session identifier: the 128-bit value of a session cookie's id.
pub type SessionId = i128;

/// Which message each session is currently authoring.
///
/// A session has at most one binding. Absence of a binding means the session
/// may not publish keystrokes.
pub struct SessionMap {
    bindings: HashMap<SessionId, u32>,
}

impl View for SessionMap {
    type V = Map<SessionId, u32>;

    closed spec fn view(&self) -> Map<SessionId, u32> {
        self.bindings@
    }
}

impl SessionMap {
    /// A map with no bindings.
    pub fn new() -> (r: SessionMap)
        ensures
            r@ == Map::<SessionId, u32>::empty(),
    {
        SessionMap { bindings: HashMap::new() }
    }

    /// Binds `session` to `message_id`, replacing any earlier binding.
    pub fn bind(&mut self, session: SessionId, message_id: u32)
        ensures
            final(self)@ == old(self)@.insert(session, message_id),
    {
        self.bindings.insert(session, message_id);
    }

    /// The message that `session` is authoring, if any.
    pub fn lookup(&self, session: SessionId) -> (r: Option<u32>)
        ensures
            r == (if self@.contains_key(session) {
                Some(self@[session])
            } else {
                None::<u32>
            }),
    {
        match self.bindings.get(&session) {
            Some(id) => Some(*id),
            None => None,
        }
    }

    /// Removes the binding of `session`, if there is one.
    pub fn clear(&mut self, session: SessionId)
        ensures
            final(self)@ == old(self)@.remove(session),
    {
        self.bindings.remove(&session);
    }
}

} // verus!
