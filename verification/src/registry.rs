use std::collections::HashMap;
use vstd::prelude::*;
use vstd::std_specs::iter::IteratorSpec;

verus! {

broadcast use vstd::std_specs::hash::group_hash_axioms;

/// The open connections of one kind (video viewers, state listeners), each
/// under a number that no earlier connection of the registry has had.
/// `S` is what the server keeps to send to the connection.
pub struct ConnectionRegistry<S> {
    next_id: u32,
    conns: HashMap<u32, S>,
}

impl<S> View for ConnectionRegistry<S> {
    type V = Map<u32, S>;

    /// The open connections, by number.
    closed spec fn view(&self) -> Map<u32, S> {
        self.conns@
    }
}

impl<S> ConnectionRegistry<S> {
    /// The number that the next connection will get.
    pub closed spec fn next(self) -> u32 {
        self.next_id
    }

    #[verifier::type_invariant]
    spec fn inv(self) -> bool {
        forall|id: u32| #[trigger] self.conns@.contains_key(id) ==> id < self.next_id
    }

    /// A registry with no connection, whose first connection gets number 0.
    pub fn new() -> (r: Self)
        ensures
            r@ == Map::<u32, S>::empty(),
            r.next() == 0,
    {
        ConnectionRegistry { next_id: 0, conns: HashMap::new() }
    }

    /// The number that the next connection will get.
    /// Every open connection has a number below it.
    pub fn next_id(&self) -> (id: u32)
        ensures
            id == self.next(),
            forall|k: u32| #[trigger] self@.contains_key(k) ==> k < id,
    {
        proof {
            use_type_invariant(self);
        }
        self.next_id
    }

    /// Adds a connection under the next number and returns that number.
    pub fn register(&mut self, sender: S) -> (id: u32)
        requires
            old(self).next() < u32::MAX,
        ensures
            id == old(self).next(),
            !old(self)@.contains_key(id),
            final(self)@ == old(self)@.insert(id, sender),
            final(self).next() == old(self).next() + 1,
    {
        proof {
            use_type_invariant(&*self);
        }
        let id = self.next_id;
        let mut conns = HashMap::new();
        std::mem::swap(&mut conns, &mut self.conns);
        conns.insert(id, sender);
        *self = ConnectionRegistry { next_id: id + 1, conns };
        id
    }

    /// Removes the connection with number `id`, if it is open, and returns
    /// what was kept for it. The next number does not change.
    pub fn remove(&mut self, id: u32) -> (removed: Option<S>)
        ensures
            final(self)@ == old(self)@.remove(id),
            final(self).next() == old(self).next(),
            match removed {
                Some(s) => old(self)@.contains_key(id) && s == old(self)@[id],
                None => !old(self)@.contains_key(id),
            },
    {
        proof {
            use_type_invariant(&*self);
        }
        let next_id = self.next_id;
        let mut conns = HashMap::new();
        std::mem::swap(&mut conns, &mut self.conns);
        let removed = conns.remove(&id);
        *self = ConnectionRegistry { next_id, conns };
        removed
    }

    /// What is kept for the connection with number `id`, if it is open.
    pub fn get(&self, id: u32) -> (sender: Option<&S>)
        ensures
            match sender {
                Some(s) => self@.contains_key(id) && *s == self@[id],
                None => !self@.contains_key(id),
            },
    {
        self.conns.get(&id)
    }

    /// The number of open connections.
    pub fn len(&self) -> (n: usize)
        ensures
            n == self@.len(),
    {
        self.conns.len()
    }

    /// The numbers of all open connections, each once, in no particular order.
    pub fn ids(&self) -> (ids: Vec<u32>)
        ensures
            ids@.to_set() == self@.dom(),
            ids@.no_duplicates(),
    {
        let ghost keys = vstd::std_specs::hash::spec_keys_iter(&self.conns).remaining().unref();
        let mut ids: Vec<u32> = Vec::new();
        for k in it: self.conns.keys()
            invariant
                it.seq().unref() == keys,
                ids@ == keys.take(it.index()),
        {
            ids.push(*k);
            assert(ids@ =~= keys.take(it.index() + 1));
        }
        assert(ids@ =~= keys);
        ids
    }
}

/// A connection that joins and then leaves the registry leaves the set of
/// open connections as it was; only the next number has moved on.
pub proof fn law_register_then_remove<S>(
    before: ConnectionRegistry<S>,
    joined: ConnectionRegistry<S>,
    left: ConnectionRegistry<S>,
    id: u32,
    sender: S,
)
    requires
        !before@.contains_key(id),
        joined@ == before@.insert(id, sender),
        left@ == joined@.remove(id),
    ensures
        left@ == before@,
{
    assert(left@ =~= before@);
}

} // verus!
