use bns_core::channel::Channel;
use bns_core::channel::CbChannel;
use bns_core::channel::Events;

#[test]
fn events_arrive_in_send_order() {
    let ch = CbChannel::new(16);
    for i in 0..10 {
        ch.send(Events::SendMsg(format!("m{}", i))).unwrap();
    }
    for i in 0..10 {
        assert_eq!(ch.recv(), Ok(Events::SendMsg(format!("m{}", i))));
    }
    assert_eq!(ch.try_recv(), None);
}

#[test]
fn every_variant_passes() {
    let ch = CbChannel::new(4);
    ch.send(Events::Null).unwrap();
    ch.send(Events::ConnectFailed).unwrap();
    ch.send(Events::ReceiveMsg("x".to_string())).unwrap();
    assert_eq!(ch.recv(), Ok(Events::Null));
    assert_eq!(ch.recv(), Ok(Events::ConnectFailed));
    assert_eq!(ch.recv(), Ok(Events::ReceiveMsg("x".to_string())));
}

#[test]
fn idle_channels_deliver_nothing() {
    let a = CbChannel::new(1);
    let b = CbChannel::new(1);
    assert_eq!(a.try_recv(), None);
    assert_eq!(b.try_recv(), None);
}

#[test]
fn cloned_ends_share_one_queue() {
    let ch = CbChannel::new(8);
    let tx = ch.sender();
    let rx = ch.receiver();
    tx.send(Events::SendMsg("a".to_string())).unwrap();
    ch.send(Events::SendMsg("b".to_string())).unwrap();
    assert_eq!(rx.recv(), Ok(Events::SendMsg("a".to_string())));
    assert_eq!(ch.recv(), Ok(Events::SendMsg("b".to_string())));
    assert!(rx.try_recv().is_err());
    assert_eq!(ch.try_recv(), None);
}

#[test]
fn capacity_is_what_was_asked() {
    assert_eq!(CbChannel::new(16).capacity(), 16);
    assert_eq!(CbChannel::new(1).capacity(), 1);
    assert_eq!(CbChannel::new(0).capacity(), 0);
}

#[test]
fn clone_shares_the_channel() {
    let ch = CbChannel::new(4);
    let other = ch.clone();
    assert_eq!(other.capacity(), 4);
    other.send(Events::SendMsg("from clone".to_string())).unwrap();
    assert_eq!(ch.recv(), Ok(Events::SendMsg("from clone".to_string())));
    assert_eq!(other.try_recv(), None);
}

#[test]
fn handles_reach_the_channel() {
    let ch = CbChannel::new(2);
    let tx = ch.sender();
    let rx = ch.receiver();
    assert_eq!(tx.capacity(), Some(2));
    assert!(tx.same_channel(&ch.sender()));
    assert!(rx.same_channel(&ch.receiver()));
    ch.handler(Events::Null);
    assert_eq!(ch.try_recv(), None);
}
