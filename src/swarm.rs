//! The swarm: the table of live connections keyed by peer, and the
//! decisions of inbound dispatch and outbound sending.
use vstd::prelude::*;

use crate::envelope::Envelope;
use crate::table::Connection;
use crate::table::ConnectionTable;
use crate::ring::lookup_step;
use crate::ring::Lookup;
use crate::ring::PeerRing;
use crate::Did;

verus! {

/// Why a swarm operation was refused.
#[derive(Clone, Copy, Debug, PartialEq, Eq, Structural)]
pub enum SwarmError {
    /// A callback is registered already.
    CallbackAlreadySet,
}

/// What becomes of an inbound envelope.
#[derive(Clone, Copy, Debug, PartialEq, Eq, Structural)]
pub enum Dispatch {
    /// Its signature did not verify: it is dropped, and this is reported.
    VerificationFailed,
    /// The application's validation refused it: it is dropped.
    Refused,
    /// It is addressed to this node.
    Deliver,
    /// It goes on, unchanged, to this peer.
    Relay(Did),
}

/// How an envelope leaves this node.
#[derive(Clone, Copy, Debug, PartialEq, Eq, Structural)]
pub enum SendPlan {
    /// Over this live connection.
    Use(Connection),
    /// Over a fresh connection to this peer, to be established first.
    Connect(Did),
}

/// The peer an envelope for `dest` goes to next: `dest` itself when it is
/// connected, else the node that the ring's lookup step names, unless that
/// is this node, which has no better route than `dest` itself.
pub open spec fn next_hop_of(table: Map<Did, Connection>, dht: PeerRing, dest: Did) -> Did {
    if table.contains_key(dest) {
        dest
    } else {
        let d = match lookup_step(dht, dest) {
            Lookup::Found(d) => d,
            Lookup::Forward(d) => d,
        };
        if d == dht.did {
            dest
        } else {
            d
        }
    }
}

/// Sending to `hop` uses its live connection, or establishes a new one.
pub open spec fn plan_for(table: Map<Did, Connection>, hop: Did) -> SendPlan {
    if table.contains_key(hop) {
        SendPlan::Use(table[hop])
    } else {
        SendPlan::Connect(hop)
    }
}

/// What becomes of an envelope that arrives at a node with identifier
/// `me`, given whether its signature verified and whether the application
/// accepted it.
pub open spec fn dispatch_of(
    table: Map<Did, Connection>,
    dht: PeerRing,
    me: Did,
    destination: Did,
    signature_ok: bool,
    accepted: bool,
) -> Dispatch {
    if !signature_ok {
        Dispatch::VerificationFailed
    } else if !accepted {
        Dispatch::Refused
    } else if destination == me {
        Dispatch::Deliver
    } else {
        Dispatch::Relay(next_hop_of(table, dht, destination))
    }
}

/// Once the connection to `x` is gone, the table has no entry for `x`, a
/// send to `x` establishes a fresh connection, and no send uses a
/// connection to `x`.
pub proof fn lemma_closed_connection_not_reused(table: Map<Did, Connection>, x: Did, hop: Did)
    requires
        forall|d: Did| table.contains_key(d) ==> table[d].peer == d,
    ensures
        !table.remove(x).contains_key(x),
        plan_for(table.remove(x), x) == SendPlan::Connect(x),
        plan_for(table.remove(x), hop) matches SendPlan::Use(c) ==> c.peer == hop && c.peer != x,
{
}

/// A node of the overlay: its ring, its connections and the application's
/// callback.
pub struct Swarm<C> {
    pub did: Did,
    pub dht: PeerRing,
    pub transport: ConnectionTable,
    pub callback: Option<C>,
}

impl<C> Swarm<C> {
    /// The table is well formed, keyed by each connection's peer, and the
    /// ring is this node's.
    pub open spec fn wf(&self) -> bool {
        &&& self.transport.wf()
        &&& forall|d: Did| self.transport@.contains_key(d) ==> self.transport@[d].peer == d
        &&& self.dht.did == self.did
    }

    /// A node with no connections, no known peers, no callback, and a
    /// finger table of `k` entries.
    pub fn new(did: Did, k: usize) -> (r: Swarm<C>)
        requires
            k <= 64,
        ensures
            r.wf(),
            r.did == did,
            r.transport@ == Map::<Did, Connection>::empty(),
            r.dht.successor is None,
            r.dht.predecessor is None,
            r.dht.finger@.len() == k,
            r.callback is None,
    {
        Swarm { did, dht: PeerRing::new(did, k), transport: ConnectionTable::new(), callback: None }
    }

    pub fn did(&self) -> (r: Did)
        ensures
            r == self.did,
    {
        self.did
    }

    /// Register the application's callback; there is at most one.
    pub fn set_callback(&mut self, cb: C) -> (r: Result<(), SwarmError>)
        ensures
            old(self).callback is Some ==> r == Err::<(), SwarmError>(SwarmError::CallbackAlreadySet)
                && final(self).callback == old(self).callback,
            old(self).callback is None ==> r is Ok && final(self).callback == Some(cb),
            final(self).did == old(self).did,
            final(self).dht == old(self).dht,
            final(self).transport == old(self).transport,
    {
        if self.callback.is_some() {
            Err(SwarmError::CallbackAlreadySet)
        } else {
            self.callback = Some(cb);
            Ok(())
        }
    }

    /// Record a connection to its peer, replacing any earlier one, which is
    /// returned for the transport to close.
    pub fn add_connection(&mut self, conn: Connection) -> (r: Option<Connection>)
        requires
            old(self).wf(),
        ensures
            final(self).wf(),
            final(self).transport@ == old(self).transport@.insert(conn.peer, conn),
            r is Some <==> old(self).transport@.contains_key(conn.peer),
            r matches Some(c) ==> c == old(self).transport@[conn.peer],
            final(self).did == old(self).did,
            final(self).dht == old(self).dht,
            final(self).callback == old(self).callback,
    {
        self.transport.insert_connection(conn)
    }

    /// The connection to `peer` has closed: it leaves the table.
    pub fn close_connection(&mut self, peer: Did) -> (r: Option<Connection>)
        requires
            old(self).wf(),
        ensures
            final(self).wf(),
            final(self).transport@ == old(self).transport@.remove(peer),
            r is Some <==> old(self).transport@.contains_key(peer),
            r matches Some(c) ==> c == old(self).transport@[peer],
            final(self).did == old(self).did,
            final(self).dht == old(self).dht,
            final(self).callback == old(self).callback,
    {
        self.transport.remove_connection(peer)
    }

    /// The peer an envelope for `dest` goes to next.
    pub fn next_hop(&self, dest: Did) -> (r: Did)
        requires
            self.wf(),
        ensures
            r == next_hop_of(self.transport@, self.dht, dest),
    {
        if self.transport.get_connection(dest).is_some() {
            dest
        } else {
            let d = match self.dht.find_successor(dest) {
                Lookup::Found(d) => d,
                Lookup::Forward(d) => d,
            };
            if d == self.dht.did {
                dest
            } else {
                d
            }
        }
    }

    /// How an envelope for `dest` leaves this node.
    pub fn send_plan(&self, dest: Did) -> (r: SendPlan)
        requires
            self.wf(),
        ensures
            r == plan_for(self.transport@, next_hop_of(self.transport@, self.dht, dest)),
    {
        let hop = self.next_hop(dest);
        match self.transport.get_connection(hop) {
            Some(c) => SendPlan::Use(c),
            None => SendPlan::Connect(hop),
        }
    }

    /// What becomes of an inbound envelope, given whether its signature
    /// verified under its signer's key and whether the application's
    /// validation accepted it.
    pub fn dispatch(&self, env: &Envelope, signature_ok: bool, accepted: bool) -> (r: Dispatch)
        requires
            self.wf(),
        ensures
            r == dispatch_of(
                self.transport@,
                self.dht,
                self.did,
                env.destination,
                signature_ok,
                accepted,
            ),
    {
        if !signature_ok {
            Dispatch::VerificationFailed
        } else if !accepted {
            Dispatch::Refused
        } else if env.destination == self.did {
            Dispatch::Deliver
        } else {
            Dispatch::Relay(self.next_hop(env.destination))
        }
    }
}

} // verus!
