//! The channels that messages travel on: one queue for each client, one broadcast channel for
//! each topic, and a record of what was handed to them.
use bytes::Bytes;
use tokio::sync::broadcast;
use tokio::sync::mpsc;
use vstd::prelude::*;

verus! {

/// Declares `bytes::Bytes`, a shared byte string.
#[verifier::external_type_specification]
#[verifier::external_body]
pub struct ExBytes(bytes::Bytes);

/// Declares `tokio::sync::mpsc::Sender`, the sending end of a bounded queue. The model does not
/// tell the sending ends of one queue apart.
#[verifier::external_type_specification]
#[verifier::external_body]
#[verifier::reject_recursive_types(T)]
pub struct ExQueueSender<T>(tokio::sync::mpsc::Sender<T>);

/// Declares `tokio::sync::mpsc::Receiver`, the receiving end of a bounded queue.
#[verifier::external_type_specification]
#[verifier::external_body]
#[verifier::reject_recursive_types(T)]
pub struct ExQueueReceiver<T>(tokio::sync::mpsc::Receiver<T>);

/// Declares `tokio::sync::broadcast::Sender`, the sending end of a broadcast channel. The model
/// does not tell the sending ends of one channel apart.
#[verifier::external_type_specification]
#[verifier::external_body]
#[verifier::reject_recursive_types(T)]
pub struct ExBroadcastSender<T>(tokio::sync::broadcast::Sender<T>);

/// Declares `tokio::sync::broadcast::Receiver`, a subscription to a broadcast channel.
#[verifier::external_type_specification]
#[verifier::external_body]
#[verifier::reject_recursive_types(T)]
pub struct ExBroadcastReceiver<T>(tokio::sync::broadcast::Receiver<T>);

/// What a client's queue carries.
#[derive(Debug)]
pub enum OutboundMessage {
    /// An encoded server event.
    Binary(Bytes),
    /// The answer to a ping of the websocket protocol.
    Pong(Vec<u8>),
    /// The end of the connection.
    Close { code: u16, reason: &'static str },
}

/// What an outgoing message holds.
#[verifier::ext_equal]
pub enum OutboundModel {
    Binary(Seq<u8>),
    Pong(Seq<u8>),
    Close { code: u16, reason: Seq<char> },
}

impl View for OutboundMessage {
    type V = OutboundModel;

    open spec fn view(&self) -> OutboundModel {
        match *self {
            OutboundMessage::Binary(bytes) => OutboundModel::Binary(bytes_of(bytes)),
            OutboundMessage::Pong(payload) => OutboundModel::Pong(payload@),
            OutboundMessage::Close { code, reason } => OutboundModel::Close {
                code,
                reason: reason@,
            },
        }
    }
}

/// A frame of the websocket protocol, as the server writes it.
#[derive(Debug)]
pub enum WsFrame {
    Binary(Vec<u8>),
    Ping(Vec<u8>),
    Pong(Vec<u8>),
    Close { code: u16, reason: String },
}

/// What a frame holds.
#[verifier::ext_equal]
pub enum WsFrameModel {
    Binary(Seq<u8>),
    Ping(Seq<u8>),
    Pong(Seq<u8>),
    Close { code: u16, reason: Seq<char> },
}

impl View for WsFrame {
    type V = WsFrameModel;

    open spec fn view(&self) -> WsFrameModel {
        match *self {
            WsFrame::Binary(bytes) => WsFrameModel::Binary(bytes@),
            WsFrame::Ping(payload) => WsFrameModel::Ping(payload@),
            WsFrame::Pong(payload) => WsFrameModel::Pong(payload@),
            WsFrame::Close { code, reason } => WsFrameModel::Close { code, reason: reason@ },
        }
    }
}

impl OutboundModel {
    /// The frame that carries the message.
    pub open spec fn frame(self) -> WsFrameModel {
        match self {
            OutboundModel::Binary(bytes) => WsFrameModel::Binary(bytes),
            OutboundModel::Pong(payload) => WsFrameModel::Pong(payload),
            OutboundModel::Close { code, reason } => WsFrameModel::Close { code, reason },
        }
    }
}

impl OutboundMessage {
    /// The frame that carries the message.
    pub fn into_ws_message(self) -> (r: WsFrame)
        ensures
            r@ == self@.frame(),
            match (self, r) {
                (OutboundMessage::Binary(bytes), WsFrame::Binary(written)) => written@ == bytes_of(
                    bytes,
                ),
                (OutboundMessage::Pong(payload), WsFrame::Pong(written)) => written@ == payload@,
                (
                    OutboundMessage::Close { code, reason },
                    WsFrame::Close { code: written, reason: words },
                ) => written == code && words@ == reason@,
                _ => false,
            },
    {
        match self {
            OutboundMessage::Binary(bytes) => WsFrame::Binary(bytes_to_vec(&bytes)),
            OutboundMessage::Pong(payload) => WsFrame::Pong(payload),
            OutboundMessage::Close { code, reason } => WsFrame::Close {
                code,
                reason: reason.to_owned(),
            },
        }
    }
}

/// What came of offering a message to a queue.
#[derive(Clone, Copy, Debug, PartialEq, Eq, Structural)]
pub enum SendOutcome {
    /// The queue took it.
    Sent,
    /// The queue was full.
    Full,
    /// Nobody reads the queue any more.
    Closed,
}

/// One thing done to a channel.
#[allow(inconsistent_fields)]
pub enum Delivery {
    /// A new queue for a client.
    QueueOpened { queue: mpsc::Sender<OutboundMessage> },
    /// A new channel for a topic.
    ChannelOpened { channel: broadcast::Sender<Bytes> },
    /// A message offered to a client's queue, and what came of it.
    Queued { queue: mpsc::Sender<OutboundMessage>, message: OutboundModel, outcome: SendOutcome },
    /// A new subscription to a topic's channel.
    Subscribed { channel: broadcast::Sender<Bytes> },
    /// A message sent on a topic's channel, and how many subscribers it had then.
    Broadcast { channel: broadcast::Sender<Bytes>, message: Seq<u8>, receivers: usize },
}

/// Whether the record shows that `queue` was opened.
pub open spec fn queue_known(
    log: Seq<Delivery>,
    queue: mpsc::Sender<OutboundMessage>,
) -> bool {
    log.contains(Delivery::QueueOpened { queue })
}

/// Whether the record shows that `channel` was opened.
pub open spec fn channel_known(log: Seq<Delivery>, channel: broadcast::Sender<Bytes>) -> bool {
    log.contains(Delivery::ChannelOpened { channel })
}

/// What was sent, in this order, on the channel of the subscription that the record shows at
/// `place`, since the subscription was made.
pub open spec fn heard(log: Seq<Delivery>, place: int) -> Seq<Seq<u8>>
    decreases log.len(),
{
    if place < 0 || log.len() <= place + 1 {
        Seq::empty()
    } else {
        let earlier = heard(log.drop_last(), place);
        match log.last() {
            Delivery::Broadcast { channel, message, .. } => if log[place] == (
            Delivery::Subscribed { channel }) {
                earlier.push(message)
            } else {
                earlier
            },
            _ => earlier,
        }
    }
}

/// A subscription hears nothing of what was done before it: what it hears depends on the record
/// from its own place on alone.
pub proof fn law_subscription_hears_no_past(log: Seq<Delivery>, place: int)
    requires
        0 <= place < log.len(),
    ensures
        heard(log, place) == heard(log.skip(place), 0),
    decreases log.len(),
{
    if log.len() > place + 1 {
        law_subscription_hears_no_past(log.drop_last(), place);
        assert(log.drop_last().skip(place) =~= log.skip(place).drop_last());
        assert(log.skip(place)[0] == log[place]);
        assert(log.skip(place).last() == log.last());
    } else {
        assert(log.skip(place).len() == 1);
    }
}

/// What a subscription has heard, it has heard for good: what is done later can only add to it.
pub proof fn law_hearing_grows(log: Seq<Delivery>, later: Seq<Delivery>, place: int)
    requires
        0 <= place < log.len(),
    ensures
        heard(log, place).is_prefix_of(heard(log + later, place)),
    decreases later.len(),
{
    if later.len() > 0 {
        law_hearing_grows(log, later.drop_last(), place);
        assert((log + later).drop_last() =~= log + later.drop_last());
    } else {
        assert(log + later =~= log);
    }
}

/// The record of what was done to the channels of one server, oldest first. It exists in proofs
/// only.
pub struct Deliveries {
    log: Ghost<Seq<Delivery>>,
}

impl View for Deliveries {
    type V = Seq<Delivery>;

    closed spec fn view(&self) -> Seq<Delivery> {
        self.log@
    }
}

impl Deliveries {
    /// An empty record.
    pub(crate) fn new() -> (r: Deliveries)
        ensures
            r@ == Seq::<Delivery>::empty(),
    {
        Deliveries { log: Ghost(Seq::empty()) }
    }
}

/// The bytes that a `Bytes` holds.
pub uninterp spec fn bytes_of(b: Bytes) -> Seq<u8>;

/// The queue that a receiving end reads.
pub uninterp spec fn queue_read_by(r: mpsc::Receiver<OutboundMessage>) -> mpsc::Sender<
    OutboundMessage,
>;

/// The capacity that a queue was made with.
pub uninterp spec fn queue_capacity(s: mpsc::Sender<OutboundMessage>) -> usize;

/// The channel that a subscription is to.
pub uninterp spec fn source_of(r: broadcast::Receiver<Bytes>) -> broadcast::Sender<Bytes>;

/// The capacity that a channel was made with.
pub uninterp spec fn channel_capacity(s: broadcast::Sender<Bytes>) -> usize;

/// Calls `Bytes::from` on a vector. Claimed: the bytes are the vector's.
#[verifier::external_body]
pub(crate) fn bytes_from(v: Vec<u8>) -> (r: Bytes)
    ensures
        bytes_of(r) == v@,
{
    Bytes::from(v)
}

/// Calls `to_vec` on the slice that a `Bytes` dereferences to. Claimed: the vector holds its
/// bytes.
#[verifier::external_body]
pub(crate) fn bytes_to_vec(b: &Bytes) -> (r: Vec<u8>)
    ensures
        r@ == bytes_of(*b),
{
    b.to_vec()
}

/// The clone of a `tokio::sync::mpsc::Sender`. Claimed: it feeds the same queue.
pub assume_specification<T>[ <tokio::sync::mpsc::Sender<T> as Clone>::clone ](
    s: &tokio::sync::mpsc::Sender<T>,
) -> (r: tokio::sync::mpsc::Sender<T>)
    ensures
        r == *s,
;

/// The clone of a `tokio::sync::broadcast::Sender`. Claimed: it feeds the same channel.
pub assume_specification<T>[ <tokio::sync::broadcast::Sender<T> as Clone>::clone ](
    s: &tokio::sync::broadcast::Sender<T>,
) -> (r: tokio::sync::broadcast::Sender<T>)
    ensures
        r == *s,
;

/// Calls `tokio::sync::mpsc::Sender::try_send`, which returns at once. Claimed: this message, and
/// no other, is offered to this queue, and no other. What comes of it depends on how full the
/// queue is and on whether it is still read, which is left open.
#[verifier::external_body]
pub(crate) fn try_send(
    deliveries: &mut Deliveries,
    queue: &mpsc::Sender<OutboundMessage>,
    message: OutboundMessage,
) -> (r: SendOutcome)
    ensures
        final(deliveries)@ == old(deliveries)@.push(
            Delivery::Queued { queue: *queue, message: message@, outcome: r },
        ),
{
    match queue.try_send(message) {
        Ok(()) => SendOutcome::Sent,
        Err(mpsc::error::TrySendError::Full(_)) => SendOutcome::Full,
        Err(mpsc::error::TrySendError::Closed(_)) => SendOutcome::Closed,
    }
}

/// Calls `tokio::sync::mpsc::channel`. Claimed: the queue is a new one, made with that capacity, and
/// the two ends are its own. The call panics on a capacity of zero, or of more than an eighth of the
/// range.
#[verifier::external_body]
pub(crate) fn new_queue(deliveries: &mut Deliveries, capacity: usize) -> (r: (
    mpsc::Sender<OutboundMessage>,
    mpsc::Receiver<OutboundMessage>,
))
    requires
        0 < capacity <= usize::MAX / 8,
    ensures
        !queue_known(old(deliveries)@, r.0),
        final(deliveries)@ == old(deliveries)@.push(Delivery::QueueOpened { queue: r.0 }),
        queue_capacity(r.0) == capacity,
        queue_read_by(r.1) == r.0,
{
    mpsc::channel(capacity)
}

/// Calls `tokio::sync::broadcast::channel` and keeps the sending end. Claimed: the channel is a new
/// one, made with that capacity. The call panics on a capacity of zero, or of more than half the
/// range.
#[verifier::external_body]
pub(crate) fn new_channel(deliveries: &mut Deliveries, capacity: usize) -> (r: broadcast::Sender<
    Bytes,
>)
    requires
        0 < capacity <= usize::MAX / 2,
    ensures
        !channel_known(old(deliveries)@, r),
        final(deliveries)@ == old(deliveries)@.push(Delivery::ChannelOpened { channel: r }),
        channel_capacity(r) == capacity,
{
    broadcast::channel(capacity).0
}

/// Calls `tokio::sync::broadcast::Sender::send`. Claimed: this message, and no other, is sent on
/// this channel, and no other. The number that comes back, that of the subscribers, depends on
/// who has subscribed and not gone, which is left open; it is 0 where there is none.
#[verifier::external_body]
pub(crate) fn broadcast_send(
    deliveries: &mut Deliveries,
    channel: &broadcast::Sender<Bytes>,
    message: Bytes,
) -> (r: usize)
    ensures
        final(deliveries)@ == old(deliveries)@.push(
            Delivery::Broadcast { channel: *channel, message: bytes_of(message), receivers: r },
        ),
{
    channel.send(message).unwrap_or(0)
}

/// Calls `tokio::sync::broadcast::Sender::subscribe`. Claimed: the subscription is to this
/// channel, and is made now.
#[verifier::external_body]
pub(crate) fn subscribe_to(
    deliveries: &mut Deliveries,
    channel: &broadcast::Sender<Bytes>,
) -> (r: broadcast::Receiver<Bytes>)
    ensures
        source_of(r) == *channel,
        final(deliveries)@ == old(deliveries)@.push(Delivery::Subscribed { channel: *channel }),
{
    channel.subscribe()
}

/// A message is written as a frame of its own kind that carries what the message does, byte for byte.
pub proof fn law_frames_carry_their_message(message: OutboundModel)
    ensures
        message matches OutboundModel::Binary(bytes) ==> message.frame() == WsFrameModel::Binary(
            bytes,
        ),
        message matches OutboundModel::Pong(payload) ==> message.frame() == WsFrameModel::Pong(
            payload,
        ),
        message matches OutboundModel::Close { code, reason } ==> message.frame()
            == (WsFrameModel::Close { code, reason }),
{
}

/// What is sent on a channel is heard on every subscription to it that was made before, after all that
/// was sent on it before, and on no other; nothing else that is done is heard.
pub proof fn law_what_is_sent_is_heard(log: Seq<Delivery>, done: Delivery, place: int)
    requires
        0 <= place < log.len(),
    ensures
        ({
            let after = log.push(done);
            &&& done is Broadcast && log[place] == (Delivery::Subscribed {
                channel: done->Broadcast_channel,
            }) ==> heard(after, place) == heard(log, place).push(done->Broadcast_message)
            &&& !(done is Broadcast) ==> heard(after, place) == heard(log, place)
            &&& done is Broadcast && log[place] != (Delivery::Subscribed {
                channel: done->Broadcast_channel,
            }) ==> heard(after, place) == heard(log, place)
            &&& heard(after, log.len() as int) == Seq::<Seq<u8>>::empty()
        }),
{
    let after = log.push(done);
    assert(after.drop_last() =~= log);
    assert(after[place] == log[place]);
}

/// Messages and frames are viewed as they are, with nothing left out.
pub proof fn law_messages_are_viewed_whole(message: OutboundMessage, frame: WsFrame)
    ensures
        message matches OutboundMessage::Binary(bytes) ==> message@ == OutboundModel::Binary(
            bytes_of(bytes),
        ),
        message matches OutboundMessage::Pong(payload) ==> message@ == OutboundModel::Pong(payload@),
        message matches OutboundMessage::Close { code, reason } ==> message@ == (
        OutboundModel::Close { code, reason: reason@ }),
        frame matches WsFrame::Binary(bytes) ==> frame@ == WsFrameModel::Binary(bytes@),
        frame matches WsFrame::Ping(payload) ==> frame@ == WsFrameModel::Ping(payload@),
        frame matches WsFrame::Pong(payload) ==> frame@ == WsFrameModel::Pong(payload@),
        frame matches WsFrame::Close { code, reason } ==> frame@ == (WsFrameModel::Close {
            code,
            reason: reason@,
        }),
{
}

} // verus!
