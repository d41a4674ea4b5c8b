use bns_core::envelope::Envelope;
use bns_core::swarm::Dispatch;
use bns_core::swarm::SendPlan;
use bns_core::swarm::Swarm;
use bns_core::swarm::SwarmError;
use bns_core::table::Connection;
use bns_core::table::ConnectionState;
use bns_core::table::ConnectionTable;

fn conn(peer: u64, handle: u64) -> Connection {
    Connection { peer, handle, state: ConnectionState::Connected }
}

#[test]
fn callback_is_set_once() {
    let mut s: Swarm<&str> = Swarm::new(1, 3);
    assert_eq!(s.did(), 1);
    assert_eq!(s.set_callback("first"), Ok(()));
    assert_eq!(s.set_callback("second"), Err(SwarmError::CallbackAlreadySet));
    assert_eq!(s.callback, Some("first"));
}

#[test]
fn connection_table_holds_one_per_peer() {
    let mut t = ConnectionTable::new();
    assert_eq!(t.insert_connection(conn(5, 1)), None);
    assert_eq!(t.insert_connection(conn(9, 2)), None);
    assert_eq!(t.insert_connection(conn(5, 3)), Some(conn(5, 1)));
    assert_eq!(t.get_connection(5), Some(conn(5, 3)));
    assert_eq!(t.get_connections().len(), 2);
    let mut ids = t.get_connection_ids();
    ids.sort();
    assert_eq!(ids, vec![5, 9]);
    assert_eq!(t.remove_connection(9), Some(conn(9, 2)));
    assert_eq!(t.remove_connection(9), None);
    assert_eq!(t.get_connection_ids(), vec![5]);
}

#[test]
fn closed_connection_is_not_reused() {
    let mut s: Swarm<()> = Swarm::new(1, 0);
    s.add_connection(conn(7, 11));
    assert_eq!(s.send_plan(7), SendPlan::Use(conn(7, 11)));
    assert_eq!(s.close_connection(7), Some(conn(7, 11)));
    assert_eq!(s.transport.get_connection(7), None);
    assert_eq!(s.send_plan(7), SendPlan::Connect(7));
}

#[test]
fn inbound_verdicts() {
    let s: Swarm<()> = Swarm::new(30, 0);
    let env = Envelope { payload: vec![1, 2], signer: 10, destination: 30, signature: vec![9] };
    assert_eq!(s.dispatch(&env, false, true), Dispatch::VerificationFailed);
    assert_eq!(s.dispatch(&env, true, false), Dispatch::Refused);
    assert_eq!(s.dispatch(&env, true, true), Dispatch::Deliver);
}

#[test]
fn relay_through_middle_node() {
    let (a, b, c) = (10u64, 20u64, 30u64);
    let mut na: Swarm<()> = Swarm::new(a, 1);
    let mut nb: Swarm<()> = Swarm::new(b, 1);
    let mut nc: Swarm<()> = Swarm::new(c, 1);
    na.dht.join(b);
    nb.dht.join(c);
    nc.dht.join(a);
    na.add_connection(conn(b, 1));
    nb.add_connection(conn(a, 2));
    nb.add_connection(conn(c, 3));
    nc.add_connection(conn(b, 4));

    let env = Envelope { payload: b"hello".to_vec(), signer: a, destination: c, signature: vec![7, 7] };
    assert_eq!(na.send_plan(c), SendPlan::Use(conn(b, 1)));
    let at_b = env.clone();
    assert_eq!(nb.dispatch(&at_b, true, true), Dispatch::Relay(c));
    assert_eq!(nb.send_plan(c), SendPlan::Use(conn(c, 3)));
    let at_c = at_b.clone();
    assert_eq!(nc.dispatch(&at_c, true, true), Dispatch::Deliver);
    assert_eq!(at_c, env);
    assert_eq!(at_c.signer, a);
    assert_eq!(at_c.destination, c);
}

#[test]
fn next_hop_prefers_direct_connection() {
    let mut s: Swarm<()> = Swarm::new(10, 0);
    s.dht.join(20);
    assert_eq!(s.next_hop(50), 20);
    s.add_connection(conn(50, 1));
    assert_eq!(s.next_hop(50), 50);
    assert_eq!(s.next_hop(15), 20);
}
