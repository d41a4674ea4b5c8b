//! The table of live connections, at most one per peer.
use vstd::prelude::*;

use crate::Did;

verus! {

/// Where a connection is in its life. A closed connection leaves the table.
#[derive(Clone, Copy, Debug, PartialEq, Eq, Structural)]
pub enum ConnectionState {
    Connecting,
    Connected,
}

/// A transport slot to one peer; `handle` names it to the transport.
#[derive(Clone, Copy, Debug, PartialEq, Eq, Structural)]
pub struct Connection {
    pub peer: Did,
    pub handle: u64,
    pub state: ConnectionState,
}

/// The live connections, at most one per peer.
pub struct ConnectionTable {
    entries: Vec<Connection>,
    contents: Ghost<Map<Did, Connection>>,
}

impl View for ConnectionTable {
    type V = Map<Did, Connection>;

    closed spec fn view(&self) -> Map<Did, Connection> {
        self.contents@
    }
}

impl ConnectionTable {
    /// The entries and the map agree, and no peer has two entries.
    pub closed spec fn wf(&self) -> bool {
        &&& forall|i: int|
            0 <= i < self.entries@.len() ==> #[trigger] self.contents@.contains_key(
                self.entries@[i].peer,
            ) && self.contents@[self.entries@[i].peer] == self.entries@[i]
        &&& forall|d: Did|
            #[trigger] self.contents@.contains_key(d) ==> exists|i: int|
                0 <= i < self.entries@.len() && self.entries@[i].peer == d
        &&& forall|i: int, j: int|
            0 <= i < j < self.entries@.len() ==> self.entries@[i].peer != self.entries@[j].peer
    }

    pub fn new() -> (r: ConnectionTable)
        ensures
            r.wf(),
            r@ == Map::<Did, Connection>::empty(),
    {
        ConnectionTable { entries: Vec::new(), contents: Ghost(Map::empty()) }
    }

    fn position(&self, peer: Did) -> (r: Option<usize>)
        requires
            self.wf(),
        ensures
            r matches Some(i) ==> i < self.entries@.len() && self.entries@[i as int].peer == peer,
            r is None ==> !self@.contains_key(peer),
    {
        let mut i: usize = 0;
        while i < self.entries.len()
            invariant
                self.wf(),
                i <= self.entries@.len(),
                forall|j: int| 0 <= j < i ==> self.entries@[j].peer != peer,
            decreases self.entries@.len() - i,
        {
            if self.entries[i].peer == peer {
                return Some(i);
            }
            i = i + 1;
        }
        None
    }

    /// The connection to `peer`, if one is live.
    pub fn get_connection(&self, peer: Did) -> (r: Option<Connection>)
        requires
            self.wf(),
        ensures
            r is Some <==> self@.contains_key(peer),
            r matches Some(c) ==> c == self@[peer],
    {
        match self.position(peer) {
            Some(i) => Some(self.entries[i]),
            None => None,
        }
    }

    /// Every live connection, each once.
    pub fn get_connections(&self) -> (r: Vec<Connection>)
        requires
            self.wf(),
        ensures
            forall|i: int| 0 <= i < r@.len() ==> self@.contains_key(r@[i].peer) && self@[r@[i].peer] == r@[i],
            forall|d: Did| self@.contains_key(d) ==> exists|i: int| 0 <= i < r@.len() && r@[i].peer == d,
            forall|i: int, j: int| 0 <= i < j < r@.len() ==> r@[i].peer != r@[j].peer,
    {
        let mut r: Vec<Connection> = Vec::new();
        let mut i: usize = 0;
        while i < self.entries.len()
            invariant
                i <= self.entries@.len(),
                r@ == self.entries@.subrange(0, i as int),
            decreases self.entries@.len() - i,
        {
            r.push(self.entries[i]);
            i = i + 1;
            assert(r@ =~= self.entries@.subrange(0, i as int));
        }
        assert(r@ =~= self.entries@);
        r
    }

    /// The peers of every live connection, each once.
    pub fn get_connection_ids(&self) -> (r: Vec<Did>)
        requires
            self.wf(),
        ensures
            forall|i: int| 0 <= i < r@.len() ==> self@.contains_key(r@[i]),
            forall|d: Did| self@.contains_key(d) ==> exists|i: int| 0 <= i < r@.len() && r@[i] == d,
            forall|i: int, j: int| 0 <= i < j < r@.len() ==> r@[i] != r@[j],
    {
        let mut r: Vec<Did> = Vec::new();
        let mut i: usize = 0;
        while i < self.entries.len()
            invariant
                i <= self.entries@.len(),
                r@.len() == i,
                forall|j: int| 0 <= j < i ==> r@[j] == self.entries@[j].peer,
            decreases self.entries@.len() - i,
        {
            r.push(self.entries[i].peer);
            i = i + 1;
        }
        assert forall|d: Did| self@.contains_key(d) implies exists|i: int|
            0 <= i < r@.len() && r@[i] == d by {
            let k = choose|k: int| 0 <= k < self.entries@.len() && self.entries@[k].peer == d;
            assert(r@[k] == d);
        }
        r
    }

    /// Make `conn` the live connection to its peer; the connection it
    /// replaces, if any, is returned for the transport to close.
    pub fn insert_connection(&mut self, conn: Connection) -> (r: Option<Connection>)
        requires
            old(self).wf(),
        ensures
            final(self).wf(),
            final(self)@ == old(self)@.insert(conn.peer, conn),
            r is Some <==> old(self)@.contains_key(conn.peer),
            r matches Some(c) ==> c == old(self)@[conn.peer],
    {
        match self.position(conn.peer) {
            Some(i) => {
                let prev = self.entries[i];
                self.entries.set(i, conn);
                self.contents = Ghost(self.contents@.insert(conn.peer, conn));
                proof {
                    let oe = old(self).entries@;
                    assert(old(self).contents@.contains_key(oe[i as int].peer));
                    assert forall|j: int| 0 <= j < self.entries@.len() implies #[trigger] self.contents@.contains_key(
                        self.entries@[j].peer,
                    ) && self.contents@[self.entries@[j].peer] == self.entries@[j] by {
                        if j != i {
                            assert(self.entries@[j] == oe[j]);
                            assert(old(self).contents@.contains_key(oe[j].peer));
                        }
                    }
                    assert forall|a: int, b: int|
                        0 <= a < b < self.entries@.len() implies self.entries@[a].peer
                        != self.entries@[b].peer by {
                        assert(self.entries@[a].peer == oe[a].peer);
                        assert(self.entries@[b].peer == oe[b].peer);
                    }
                    assert forall|d: Did| #[trigger] self.contents@.contains_key(d) implies exists|
                        k: int,
                    | 0 <= k < self.entries@.len() && self.entries@[k].peer == d by {
                        if d != conn.peer {
                            let k = choose|k: int|
                                0 <= k < old(self).entries@.len() && old(self).entries@[k].peer
                                    == d;
                            assert(self.entries@[k].peer == d);
                        } else {
                            assert(self.entries@[i as int].peer == d);
                        }
                    }
                }
                Some(prev)
            },
            None => {
                self.entries.push(conn);
                self.contents = Ghost(self.contents@.insert(conn.peer, conn));
                proof {
                    let n = self.entries@.len() - 1;
                    let oe = old(self).entries@;
                    assert(self.entries@[n] == conn);
                    assert forall|j: int| 0 <= j < self.entries@.len() implies #[trigger] self.contents@.contains_key(
                        self.entries@[j].peer,
                    ) && self.contents@[self.entries@[j].peer] == self.entries@[j] by {
                        if j != n {
                            assert(self.entries@[j] == oe[j]);
                            assert(old(self).contents@.contains_key(oe[j].peer));
                        }
                    }
                    assert forall|a: int, b: int|
                        0 <= a < b < self.entries@.len() implies self.entries@[a].peer
                        != self.entries@[b].peer by {
                        assert(self.entries@[a] == oe[a]);
                        assert(old(self).contents@.contains_key(oe[a].peer));
                        if b < n {
                            assert(self.entries@[b] == oe[b]);
                        }
                    }
                    assert forall|d: Did| #[trigger] self.contents@.contains_key(d) implies exists|
                        k: int,
                    | 0 <= k < self.entries@.len() && self.entries@[k].peer == d by {
                        if d != conn.peer {
                            let k = choose|k: int|
                                0 <= k < old(self).entries@.len() && old(self).entries@[k].peer
                                    == d;
                            assert(self.entries@[k].peer == d);
                        } else {
                            assert(self.entries@[n].peer == d);
                        }
                    }
                }
                None
            },
        }
    }

    /// Drop the connection to `peer`; the one removed, if any, is returned.
    pub fn remove_connection(&mut self, peer: Did) -> (r: Option<Connection>)
        requires
            old(self).wf(),
        ensures
            final(self).wf(),
            final(self)@ == old(self)@.remove(peer),
            r is Some <==> old(self)@.contains_key(peer),
            r matches Some(c) ==> c == old(self)@[peer],
    {
        match self.position(peer) {
            Some(i) => {
                let prev = self.entries.remove(i);
                self.contents = Ghost(self.contents@.remove(peer));
                proof {
                    let oe = old(self).entries@;
                    assert(old(self).contents@.contains_key(oe[i as int].peer));
                    assert(self.entries@ =~= oe.subrange(0, i as int) + oe.subrange(
                        i as int + 1,
                        oe.len() as int,
                    ));
                    assert forall|j: int| 0 <= j < self.entries@.len() implies #[trigger] self.contents@.contains_key(
                        self.entries@[j].peer,
                    ) && self.contents@[self.entries@[j].peer] == self.entries@[j] by {
                        if j < i {
                            assert(self.entries@[j] == oe[j]);
                        } else {
                            assert(self.entries@[j] == oe[j + 1]);
                        }
                    }
                    assert forall|d: Did| #[trigger] self.contents@.contains_key(d) implies exists|
                        k: int,
                    | 0 <= k < self.entries@.len() && self.entries@[k].peer == d by {
                        let k = choose|k: int| 0 <= k < oe.len() && oe[k].peer == d;
                        if k < i {
                            assert(self.entries@[k].peer == d);
                        } else {
                            assert(k != i);
                            assert(self.entries@[k - 1].peer == d);
                        }
                    }
                    assert forall|a: int, b: int|
                        0 <= a < b < self.entries@.len() implies self.entries@[a].peer
                        != self.entries@[b].peer by {
                        let a0 = if a < i { a } else { a + 1 };
                        let b0 = if b < i { b } else { b + 1 };
                        assert(self.entries@[a] == oe[a0]);
                        assert(self.entries@[b] == oe[b0]);
                    }
                }
                Some(prev)
            },
            None => {
                assert(self.contents@.remove(peer) =~= self.contents@);
                None
            },
        }
    }
}

} // verus!
