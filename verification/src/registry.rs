//! The connection registry: the one piece of state shared between
//! connections.  It maps a connection identity to its session and its
//! queue of outbound lines, and every mutation goes through this
//! narrow interface, never through raw map access.

use std::collections::HashMap;

use vstd::prelude::*;

use crate::session::{Session, SpecSession};

verus! {

/// The mathematical value of one registered connection.
#[verifier::ext_equal]
pub struct SpecConnection {
    pub session: SpecSession,
    pub outbox: Seq<Seq<char>>,
}

/// One registered connection: its session and the lines queued for
/// delivery to it.
pub struct Connection {
    pub session: Session,
    pub outbox: Vec<String>,
}

impl View for Connection {
    type V = SpecConnection;

    open spec fn view(&self) -> SpecConnection {
        SpecConnection {
            session: self.session@,
            outbox: self.outbox@.map_values(|s: String| s@),
        }
    }
}

/// The process-wide map from connection identity to connection.
/// Keys are unique per live connection; an entry is inserted at
/// accept time and removed exactly once.
pub struct Registry {
    peers: HashMap<u64, Connection>,
}

impl View for Registry {
    type V = Map<u64, SpecConnection>;

    closed spec fn view(&self) -> Map<u64, SpecConnection> {
        Map::new(|k: u64| self.peers@.contains_key(k), |k: u64| self.peers@[k]@)
    }
}

impl Registry {
    /// An empty registry.
    pub fn new() -> (r: Registry)
        ensures
            r@ == Map::<u64, SpecConnection>::empty(),
    {
        let r = Registry { peers: HashMap::new() };
        proof {
            assert(r@ =~= Map::<u64, SpecConnection>::empty());
        }
        r
    }

    /// Whether a connection is registered under `id`.
    pub fn contains(&self, id: u64) -> (b: bool)
        ensures
            b == self@.contains_key(id),
    {
        proof {
            broadcast use vstd::std_specs::hash::group_hash_axioms;

        }
        self.peers.contains_key(&id)
    }

    /// Borrows the connection registered under `id`, if any.
    pub fn get(&self, id: u64) -> (r: Option<&Connection>)
        ensures
            match r {
                Some(c) => self@.contains_key(id) && c@ == self@[id],
                None => !self@.contains_key(id),
            },
    {
        proof {
            broadcast use vstd::std_specs::hash::group_hash_axioms;

        }
        self.peers.get(&id)
    }

    /// Registers a connection under `id`, replacing any earlier entry.
    pub fn insert(&mut self, id: u64, conn: Connection)
        ensures
            final(self)@ == old(self)@.insert(id, conn@),
    {
        proof {
            broadcast use vstd::std_specs::hash::group_hash_axioms;

        }
        self.peers.insert(id, conn);
        proof {
            assert(self@ =~= old(self)@.insert(id, conn@));
        }
    }

    /// Removes the entry under `id`; reports whether one was there.
    /// Removing an absent entry is a no-op, so removal is idempotent.
    pub fn remove(&mut self, id: u64) -> (had: bool)
        ensures
            final(self)@ == old(self)@.remove(id),
            had == old(self)@.contains_key(id),
    {
        proof {
            broadcast use vstd::std_specs::hash::group_hash_axioms;

        }
        let r = self.peers.remove(&id);
        proof {
            assert(self@ =~= old(self)@.remove(id));
        }
        r.is_some()
    }

    /// Takes the connection registered under `id` out of the map.
    pub fn take(&mut self, id: u64) -> (r: Option<Connection>)
        ensures
            match r {
                Some(c) => old(self)@.contains_key(id) && c@ == old(self)@[id] && final(self)@
                    == old(self)@.remove(id),
                None => !old(self)@.contains_key(id) && final(self)@ == old(self)@,
            },
    {
        proof {
            broadcast use vstd::std_specs::hash::group_hash_axioms;

        }
        let r = self.peers.remove(&id);
        proof {
            if r is Some {
                assert(self@ =~= old(self)@.remove(id));
            } else {
                assert(self@ =~= old(self)@);
            }
        }
        r
    }

    /// Queues one line for delivery to the addressed connection and
    /// to it alone; reports whether the connection was known.
    pub fn send(&mut self, id: u64, line: String) -> (ok: bool)
        ensures
            ok == old(self)@.contains_key(id),
            ok ==> final(self)@ == old(self)@.insert(
                id,
                SpecConnection {
                    session: old(self)@[id].session,
                    outbox: old(self)@[id].outbox.push(line@),
                },
            ),
            !ok ==> final(self)@ == old(self)@,
    {
        proof {
            broadcast use vstd::std_specs::hash::group_hash_axioms;

        }
        match self.peers.remove(&id) {
            Some(mut c) => {
                let ghost oldc = c@;
                c.outbox.push(line);
                proof {
                    assert(c@.outbox =~= oldc.outbox.push(line@));
                }
                self.peers.insert(id, c);
                proof {
                    assert(self@ =~= old(self)@.insert(
                        id,
                        SpecConnection {
                            session: old(self)@[id].session,
                            outbox: old(self)@[id].outbox.push(line@),
                        },
                    ));
                }
                true
            },
            None => {
                proof {
                    assert(self@ =~= old(self)@);
                }
                false
            },
        }
    }

    /// Hands out everything queued for `id`, leaving its queue empty.
    pub fn take_outbox(&mut self, id: u64) -> (r: Vec<String>)
        ensures
            old(self)@.contains_key(id) ==> r@.map_values(|s: String| s@) == old(
                self,
            )@[id].outbox && final(self)@ == old(self)@.insert(
                id,
                SpecConnection { session: old(self)@[id].session, outbox: Seq::empty() },
            ),
            !old(self)@.contains_key(id) ==> r@.len() == 0 && final(self)@ == old(self)@,
    {
        proof {
            broadcast use vstd::std_specs::hash::group_hash_axioms;

        }
        match self.peers.remove(&id) {
            Some(mut c) => {
                let out = c.outbox;
                c.outbox = Vec::new();
                proof {
                    assert(c@.outbox =~= Seq::<Seq<char>>::empty());
                }
                self.peers.insert(id, c);
                proof {
                    assert(self@ =~= old(self)@.insert(
                        id,
                        SpecConnection { session: old(self)@[id].session, outbox: Seq::empty() },
                    ));
                }
                out
            },
            None => {
                proof {
                    assert(self@ =~= old(self)@);
                }
                Vec::new()
            },
        }
    }
}

} // verus!
