//! A bounded, duplex event conduit between a connection's I/O and the
//! swarm's dispatch, backed by a crossbeam channel.
use vstd::prelude::*;

verus! {

/// Events carried between transport I/O and protocol dispatch.
#[derive(Debug, Clone, PartialEq, Eq)]
pub enum Events {
    Null,
    ConnectFailed,
    SendMsg(String),
    ReceiveMsg(String),
}

/// Why a channel operation did not go through.
#[derive(Debug, Clone, PartialEq, Eq)]
pub enum ChannelError {
    /// Every receiver is gone; the event that could not be sent comes back.
    Closed(Events),
    /// The channel is empty and every sender is gone.
    Disconnected,
}

/// The largest capacity a channel is created with. Its slots, each well
/// under 128 bytes, are allocated up front, and one allocation may hold at
/// most `isize::MAX` bytes.
pub const MAX_CAPACITY: usize = usize::MAX / 128;

#[verifier::external_type_specification]
#[verifier::external_body]
#[verifier::reject_recursive_types(T)]
pub struct ExSender<T>(crossbeam_channel::Sender<T>);

#[verifier::external_type_specification]
#[verifier::external_body]
#[verifier::reject_recursive_types(T)]
pub struct ExReceiver<T>(crossbeam_channel::Receiver<T>);

/// The channel that a sending handle belongs to.
pub uninterp spec fn sender_channel(s: crossbeam_channel::Sender<Events>) -> nat;

/// The channel that a receiving handle belongs to.
pub uninterp spec fn receiver_channel(r: crossbeam_channel::Receiver<Events>) -> nat;

/// The capacity of the channel that a sending handle belongs to, if bounded.
pub uninterp spec fn sender_capacity(s: crossbeam_channel::Sender<Events>) -> Option<usize>;

/// Relies on crossbeam_channel::bounded: a sender and a receiver on one new
/// channel of capacity `cap` (it panics only on a capacity too large to
/// allocate).
#[verifier::external_body]
fn cb_bounded(cap: usize) -> (r: (crossbeam_channel::Sender<Events>, crossbeam_channel::Receiver<Events>))
    requires
        cap <= MAX_CAPACITY,
    ensures
        sender_channel(r.0) == receiver_channel(r.1),
        sender_capacity(r.0) == Some(cap),
{
    crossbeam_channel::bounded(cap)
}

/// Relies on crossbeam_channel::Sender::clone: another handle on the same channel.
#[verifier::external_body]
fn cb_sender_clone(s: &crossbeam_channel::Sender<Events>) -> (r: crossbeam_channel::Sender<Events>)
    ensures
        sender_channel(r) == sender_channel(*s),
        sender_capacity(r) == sender_capacity(*s),
{
    s.clone()
}

/// Relies on crossbeam_channel::Receiver::clone: another handle on the same channel.
#[verifier::external_body]
fn cb_receiver_clone(r: &crossbeam_channel::Receiver<Events>) -> (r2: crossbeam_channel::Receiver<Events>)
    ensures
        receiver_channel(r2) == receiver_channel(*r),
{
    r.clone()
}

/// Relies on crossbeam_channel::Sender::capacity: the capacity of a bounded channel.
#[verifier::external_body]
fn cb_capacity(s: &crossbeam_channel::Sender<Events>) -> (r: Option<usize>)
    ensures
        r == sender_capacity(*s),
{
    s.capacity()
}

/// Relies on crossbeam_channel::Sender::send: it blocks until the event is
/// queued, and fails only once every receiver is gone. `keep` is a receiver
/// of the same channel, alive for the whole call, so the send succeeds.
#[verifier::external_body]
fn cb_send(s: &crossbeam_channel::Sender<Events>, keep: &crossbeam_channel::Receiver<Events>, e: Events) -> (r: Result<(), Events>)
    requires
        sender_channel(*s) == receiver_channel(*keep),
    ensures
        r is Ok,
{
    match s.send(e) {
        Ok(()) => Ok(()),
        Err(err) => Err(err.0),
    }
}

/// Relies on crossbeam_channel::Receiver::recv: it blocks until an event
/// arrives, and fails only once the channel is empty and every sender is
/// gone. `keep` is a sender of the same channel, alive for the whole call,
/// so the receive succeeds.
#[verifier::external_body]
fn cb_recv(r: &crossbeam_channel::Receiver<Events>, keep: &crossbeam_channel::Sender<Events>) -> (res: Result<Events, ()>)
    requires
        sender_channel(*keep) == receiver_channel(*r),
    ensures
        res is Ok,
{
    match r.recv() {
        Ok(e) => Ok(e),
        Err(_) => Err(()),
    }
}

/// Relies on crossbeam_channel::Receiver::try_recv: the next event if one
/// is queued, without waiting.
#[verifier::external_body]
fn cb_try_recv(r: &crossbeam_channel::Receiver<Events>) -> (res: Option<Events>) {
    r.try_recv().ok()
}

/// A duplex event conduit with cloneable sending and receiving ends.
pub trait Channel: Sized {
    type Sender;
    type Receiver;

    /// The number of events the channel holds before a send waits.
    spec fn capacity(&self) -> nat;

    fn new(buffer: usize) -> (r: Self)
        requires
            buffer <= MAX_CAPACITY,
        ensures
            r.capacity() == buffer,
    ;

    fn sender(&self) -> Self::Sender;

    fn receiver(&self) -> Self::Receiver;

    fn send(&self, e: Events) -> (r: Result<(), ChannelError>)
        ensures
            r matches Err(err) ==> err == ChannelError::Closed(e),
    ;

    fn recv(&self) -> (r: Result<Events, ChannelError>)
        ensures
            r matches Err(err) ==> err == ChannelError::Disconnected,
    ;

    /// A hook that consumes an event for its side effects alone; by
    /// default it does nothing.
    fn handler(&self, e: Events) {
    }
}

/// A channel over crossbeam's bounded queue. It holds both ends, so it is
/// never closed while it lives. Clones of its ends compete for events: each
/// event is received once.
#[derive(Debug)]
pub struct CbChannel {
    sender: crossbeam_channel::Sender<Events>,
    receiver: crossbeam_channel::Receiver<Events>,
}

impl CbChannel {
    /// Both ends are on one bounded channel.
    #[verifier::type_invariant]
    spec fn ends_match(&self) -> bool {
        &&& sender_channel(self.sender) == receiver_channel(self.receiver)
        &&& sender_capacity(self.sender) is Some
    }

    /// The channel both ends belong to.
    pub closed spec fn channel(&self) -> nat {
        sender_channel(self.sender)
    }

    /// The number of events the channel holds before a send waits.
    pub fn capacity(&self) -> (r: usize)
        ensures
            r == Channel::capacity(self),
    {
        proof {
            use_type_invariant(self);
        }
        match cb_capacity(&self.sender) {
            Some(c) => c,
            None => 0,
        }
    }

    /// The next queued event, if there is one, without waiting. What is
    /// queued depends on every handle of the channel, so nothing is said of
    /// the result.
    pub fn try_recv(&self) -> (r: Option<Events>) {
        cb_try_recv(&self.receiver)
    }
}

impl Clone for CbChannel {
    /// Another pair of handles on the same channel.
    fn clone(&self) -> (r: Self)
        ensures
            r.channel() == self.channel(),
            Channel::capacity(&r) == Channel::capacity(self),
    {
        proof {
            use_type_invariant(self);
        }
        CbChannel { sender: cb_sender_clone(&self.sender), receiver: cb_receiver_clone(&self.receiver) }
    }
}

impl Channel for CbChannel {
    type Sender = crossbeam_channel::Sender<Events>;
    type Receiver = crossbeam_channel::Receiver<Events>;

    closed spec fn capacity(&self) -> nat {
        match sender_capacity(self.sender) {
            Some(c) => c as nat,
            None => 0,
        }
    }

    fn new(buffer: usize) -> (r: Self) {
        let (tx, rx) = cb_bounded(buffer);
        CbChannel { sender: tx, receiver: rx }
    }

    /// A sending handle on this channel.
    fn sender(&self) -> (r: Self::Sender)
        ensures
            sender_channel(r) == self.channel(),
    {
        cb_sender_clone(&self.sender)
    }

    /// A receiving handle on this channel.
    fn receiver(&self) -> (r: Self::Receiver)
        ensures
            receiver_channel(r) == self.channel(),
    {
        proof {
            use_type_invariant(self);
        }
        cb_receiver_clone(&self.receiver)
    }

    /// Queue `e`, waiting while the channel is full; the channel's own
    /// receiver keeps it open, so this succeeds.
    fn send(&self, e: Events) -> (r: Result<(), ChannelError>)
        ensures
            r is Ok,
    {
        proof {
            use_type_invariant(self);
        }
        match cb_send(&self.sender, &self.receiver, e) {
            Ok(()) => Ok(()),
            Err(back) => Err(ChannelError::Closed(back)),
        }
    }

    /// The oldest queued event, waiting for one; the channel's own sender
    /// keeps it open, so this succeeds.
    fn recv(&self) -> (r: Result<Events, ChannelError>)
        ensures
            r is Ok,
    {
        proof {
            use_type_invariant(self);
        }
        match cb_recv(&self.receiver, &self.sender) {
            Ok(e) => Ok(e),
            Err(()) => Err(ChannelError::Disconnected),
        }
    }
}

} // verus!
