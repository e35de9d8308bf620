//! The course of one connection: its beginning, the steps of the three tasks that serve it, and
//! its end.
use bytes::Bytes;
use serde_json::Value;
use tokio::sync::broadcast;
use tokio::sync::mpsc;
use vstd::prelude::*;
use vstd::utf8::encode_utf8;

use crate::auth::AuthIdentity;
use crate::auth::IdentityModel;
use crate::bucket::after_requests;
use crate::bucket::at_least_one;
use crate::bucket::elapsed;
use crate::bucket::in_order;
use crate::bucket::last_time;
use crate::bucket::law_new_bucket_passes_its_burst;
use crate::bucket::law_rate_is_bounded;
use crate::bucket::law_used_up_bucket_earns_its_rate;
use crate::bucket::let_through;
use crate::bucket::RateLimiter;
use crate::bucket::TokenBucket;
use crate::bucket::TOKEN;
use crate::channel::bytes_from;
use crate::channel::heard;
use crate::channel::queue_capacity;
use crate::channel::queue_known;
use crate::channel::queue_read_by;
use crate::channel::source_of;
use crate::channel::Delivery;
use crate::channel::OutboundMessage;
use crate::channel::OutboundModel;
use crate::channel::SendOutcome;
use crate::config::bounded_nanos;
use crate::config::duration_nanos;
use crate::config::nanos;
use crate::config::Config;
use crate::json::json_tree;
use crate::json::msgpack_tree;
use crate::members::member_names;
use crate::members::unmarked;
use crate::metrics::Metrics;
use crate::protocol::encode_server_event;
use crate::protocol::event_of_text;
use crate::protocol::event_of_tree;
use crate::protocol::gives_twice;
use crate::protocol::ClientEventModel;
use crate::protocol::EncodeError;
use crate::protocol::ServerEvent;
use crate::protocol::ServerEventModel;
use crate::msgpack::lemma_utf8_len;
use crate::server::error_event;
use crate::server::handle_binary;
use crate::server::handle_text;
use crate::server::send_encoded;
use crate::server::send_error;
use crate::server::Fate;
use crate::server::Form;
use crate::server::Session;
use crate::server::SessionModel;
use crate::state::tenant_topic;
use crate::state::topic_key;
use crate::state::AppState;
use crate::state::StateModel;
use crate::topic::extract_topic;
use crate::topic::extracted;
use crate::topic::law_clients_see_their_topic;
use crate::topic::normalize_topic;
use crate::topic::normalized;

verus! {

/// The close code for a client that kept to the protocol.
pub const CLOSE_NORMAL: u16 = 1000;

/// The close code for a client that did not.
pub const CLOSE_POLICY: u16 = 1008;

/// The two ends that a new connection reads from.
pub struct Inbox {
    /// Messages for this client.
    pub queue: mpsc::Receiver<OutboundMessage>,
    /// Messages on the topic.
    pub topic: broadcast::Receiver<Bytes>,
}

impl IdentityModel {
    /// The session of a client.
    pub open spec fn session(
        self,
        topic: Seq<char>,
        connection_id: u64,
        queue: mpsc::Sender<OutboundMessage>,
    ) -> SessionModel {
        SessionModel {
            topic_key: topic_key(self.tenant_id, normalized(topic)),
            tenant_id: self.tenant_id,
            client_id: self.client_id,
            connection_id,
            queue,
        }
    }
}

impl SessionModel {
    /// The event that greets the client.
    pub open spec fn greeting(self) -> ServerEventModel {
        ServerEventModel::Ready { topic: extracted(self.topic_key), client_id: self.client_id }
    }
}

impl StateModel {
    /// The state after a client was let in and made known, before it is greeted.
    pub open spec fn after_open(
        self,
        session: SessionModel,
        channel: broadcast::Sender<Bytes>,
    ) -> StateModel {
        let accepted = self.counting(self.metrics.after_accept());
        let subscribed = accepted.recording(
            Delivery::QueueOpened { queue: session.queue },
        ).after_subscribe(session.topic_key, channel);
        StateModel {
            next_connection_id: self.next_connection_id.wrapping_add(1),
            ..subscribed.after_register(
                session.client_id,
                session.tenant_id,
                session.connection_id,
                session.queue,
            )
        }
    }

    /// The state after a client was greeted, where its greeting can be encoded.
    pub open spec fn after_greeting(
        self,
        session: SessionModel,
        outcome: SendOutcome,
    ) -> StateModel {
        if session.greeting().texts_fit() {
            self.after_send(session.queue, session.greeting().frame(), outcome)
        } else {
            self
        }
    }

    /// The state after a connection ended.
    pub open spec fn after_end(self, session: SessionModel) -> StateModel {
        let forgotten = self.after_unregister(
            session.client_id,
            session.tenant_id,
            session.connection_id,
        );
        forgotten.counting(self.metrics.after_close())
    }
}

/// Begins a connection: makes its queue, subscribes it, numbers it, makes it known and greets it.
/// Where the greeting cannot be encoded, the connection stays known.
pub fn open_session(state: &mut AppState, identity: AuthIdentity, topic: &str) -> (r: (
    Session,
    Inbox,
    Result<(), EncodeError>,
))
    requires
        old(state)@.config.opens_channels(),
        old(state)@.config.opens_queues(),
    ensures
        r.0@ == identity@.session(topic@, old(state)@.next_connection_id, r.0.queue),
        r.0.client_id@ == identity.client_id@,
        r.0.tenant_id@ == identity.tenant_id@,
        r.0.topic_key@ == identity.tenant_id@ + seq![':'] + normalized(topic@),
        r.0.connection_id == old(state)@.next_connection_id,
        !queue_known(old(state)@.deliveries, r.0.queue),
        queue_capacity(r.0.queue) == old(state)@.config.client_queue_capacity,
        queue_read_by(r.1.queue) == r.0.queue,
        old(state)@.channel_for(r.0@.topic_key, source_of(r.1.topic)),
        exists|outcome: SendOutcome|
            final(state)@ == #[trigger] old(state)@.after_open(
                r.0@,
                source_of(r.1.topic),
            ).after_greeting(r.0@, outcome),
        r.2 == (if r.0@.greeting().texts_fit() {
            Ok::<(), EncodeError>(())
        } else {
            Err::<(), EncodeError>(EncodeError::TextTooLong)
        }),
        old(state)@.wf() ==> final(state)@.wf(),
{
    let name = normalize_topic(topic);
    let key = tenant_topic(identity.tenant_id.as_str(), name.as_str());
    state.metrics.connection_accepted();
    let (queue, queue_end) = state.open_queue();
    let ghost queued = state@;
    let topic_end = state.subscribe(key.as_str());
    proof {
        lemma_queue_is_no_channel(old(state)@, queued, key@, queue, source_of(topic_end));
    }
    let connection_id: u64 = state.next_connection_id();
    state.register_client(
        identity.client_id.clone(),
        identity.tenant_id.clone(),
        connection_id,
        queue.clone(),
    );
    let session = Session {
        topic_key: key,
        tenant_id: identity.tenant_id,
        client_id: identity.client_id,
        connection_id,
        queue,
    };
    let inbox = Inbox { queue: queue_end, topic: topic_end };
    let ghost opened = state@;
    assert(opened == old(state)@.after_open(session@, source_of(topic_end)));
    let greeting = ServerEvent::Ready {
        topic: extract_topic(session.topic_key.as_str()),
        client_id: session.client_id.as_str(),
    };
    assert(greeting@ == session@.greeting());
    match encode_server_event(&greeting) {
        Ok(frame) => {
            let _ = send_encoded(&session.queue, bytes_from(frame), state);
            let ghost outcome = choose|outcome: SendOutcome|
                state@ == #[trigger] opened.after_send(session.queue, frame@, outcome);
            assert(state@ == opened.after_greeting(session@, outcome));
            (session, inbox, Ok(()))
        },
        Err(e) => {
            assert(state@ == opened.after_greeting(session@, SendOutcome::Closed));
            (session, inbox, Err(e))
        },
    }
}

/// A channel that was not known before a queue was opened is not known after it.
proof fn lemma_queue_is_no_channel(
    before: StateModel,
    queued: StateModel,
    key: Seq<char>,
    queue: mpsc::Sender<OutboundMessage>,
    channel: broadcast::Sender<Bytes>,
)
    requires
        queued == before.counting(queued.metrics).recording(Delivery::QueueOpened { queue }),
        queued.channel_for(key, channel),
    ensures
        before.channel_for(key, channel),
{
    let opened = Delivery::ChannelOpened { channel };
    if before.deliveries.contains(opened) {
        let i = choose|i: int| 0 <= i < before.deliveries.len() && before.deliveries[i] == opened;
        assert(queued.deliveries[i] == opened);
        assert(queued.deliveries.contains(opened));
    }
}

/// Ends a connection.
pub fn close_session(state: &mut AppState, session: &Session)
    ensures
        final(state)@ == old(state)@.after_end(session@),
        old(state)@.wf() ==> final(state)@.wf(),
{
    state.unregister_client(
        session.client_id.as_str(),
        session.tenant_id.as_str(),
        session.connection_id,
    );
    state.metrics.connection_closed();
}

/// How long a connection may be silent, and when it was last heard of. Times are in nanoseconds.
#[derive(Clone, Copy, Debug)]
pub struct IdleClock {
    pub limit: u64,
    pub last: u64,
}

impl IdleClock {
    /// The clock of a connection that begins.
    pub fn new(limit: u64, now: u64) -> (r: IdleClock)
        ensures
            r == (IdleClock { limit, last: now }),
    {
        IdleClock { limit, last: now }
    }

    /// Notes that something came in.
    pub fn note(&mut self, now: u64)
        ensures
            *final(self) == (IdleClock { limit: old(self).limit, last: now }),
    {
        self.last = now;
    }

    /// Whether nothing has come in for as long as a connection may be silent.
    pub open spec fn ran_out(self, now: u64) -> bool {
        elapsed(self.last, now) >= self.limit
    }

    /// How much longer the connection may be silent. None where it has been for too long.
    pub fn remaining(&self, now: u64) -> (r: Option<u64>)
        ensures
            r == (if self.ran_out(now) {
                None
            } else {
                Some((self.limit - elapsed(self.last, now)) as u64)
            }),
    {
        let silent: u64 = now.saturating_sub(self.last);
        if silent >= self.limit {
            None
        } else {
            Some(self.limit - silent)
        }
    }
}

impl AppState {
    /// The limiter of the messages of a connection that begins.
    pub fn message_limiter(&self, now: u64) -> (r: RateLimiter)
        ensures
            r.bucket == self@.config.message_bucket(now),
            r.bucket == TokenBucket::full(
                self.config.max_messages_per_second,
                self.config.message_burst,
                now,
            ),
            r.bucket.wf(),
    {
        RateLimiter::new(self.config.max_messages_per_second, self.config.message_burst, now)
    }

    /// The clock of a connection that begins.
    pub fn idle_clock(&self, now: u64) -> (r: IdleClock)
        ensures
            r == (IdleClock { limit: bounded_nanos(self@.config.idle_timeout), last: now }),
    {
        IdleClock::new(nanos(&self.config.idle_timeout), now)
    }
}

impl Config {
    /// What a connection may send that begins at `now`.
    pub open spec fn message_bucket(self, now: u64) -> TokenBucket {
        TokenBucket::full(self.max_messages_per_second, self.message_burst, now)
    }
}

/// Of the messages of one connection, no more are let through than the configured burst and what
/// accrues at the configured rate between its beginning and the last one: `burst + rate * seconds`.
pub proof fn law_client_rate_is_bounded(config: Config, start: u64, times: Seq<u64>)
    requires
        in_order(start, times),
    ensures
        let_through(config.message_bucket(start), times) * TOKEN <= at_least_one(
            config.message_burst,
        ) * TOKEN + (last_time(start, times) - start) * at_least_one(
            config.max_messages_per_second,
        ),
{
    law_rate_is_bounded(config.max_messages_per_second, config.message_burst, start, times);
}

/// A connection that was last heard of at `last` has been silent for too long once the configured
/// time is up, and not before.
pub proof fn law_idle_time_is_as_configured(config: Config, last: u64, now: u64)
    requires
        0 <= now - last < u64::MAX,
    ensures
        (IdleClock { limit: bounded_nanos(config.idle_timeout), last }).ran_out(now) <==> now - last
            >= duration_nanos(config.idle_timeout),
{
}

/// What a connection's reader comes upon.
#[derive(Debug)]
pub enum Incoming {
    Text(String),
    Binary(Vec<u8>),
    Ping(Vec<u8>),
    Pong,
    /// The client closed the connection, or its stream ended.
    Close,
    /// The connection broke.
    Failed,
    /// Nothing came for as long as a connection may be silent.
    Idle,
}

/// What came in.
#[verifier::ext_equal]
pub enum IncomingModel {
    Text(Seq<char>),
    Binary(Seq<u8>),
    Ping(Seq<u8>),
    Pong,
    Close,
    Failed,
    Idle,
}

impl View for Incoming {
    type V = IncomingModel;

    open spec fn view(&self) -> IncomingModel {
        match *self {
            Incoming::Text(text) => IncomingModel::Text(text@),
            Incoming::Binary(raw) => IncomingModel::Binary(raw@),
            Incoming::Ping(payload) => IncomingModel::Ping(payload@),
            Incoming::Pong => IncomingModel::Pong,
            Incoming::Close => IncomingModel::Close,
            Incoming::Failed => IncomingModel::Failed,
            Incoming::Idle => IncomingModel::Idle,
        }
    }
}

/// Why a task of a connection gave up.
#[derive(Clone, Copy, Debug, PartialEq, Eq, Structural)]
pub enum TaskFault {
    /// The connection broke.
    Socket,
    /// A ping could not be written.
    Ping,
    /// A message could not be written.
    Message,
    /// The client's queue took no more.
    Queue,
}

/// What a task of a connection does next.
#[derive(Clone, Copy, Debug, PartialEq, Eq, Structural)]
pub enum Step {
    Continue,
    Stop,
    Fail(TaskFault),
}

impl TaskFault {
    /// The fault in words.
    pub open spec fn spec_message(self) -> Seq<char> {
        match self {
            TaskFault::Socket => "websocket connection failed"@,
            TaskFault::Ping => "failed to send websocket ping"@,
            TaskFault::Message => "failed to send websocket message"@,
            TaskFault::Queue => "client send queue is full or closed"@,
        }
    }

    /// The fault in words.
    pub fn message(&self) -> (r: &'static str)
        ensures
            r@ == self.spec_message(),
    {
        match self {
            TaskFault::Socket => "websocket connection failed",
            TaskFault::Ping => "failed to send websocket ping",
            TaskFault::Message => "failed to send websocket message",
            TaskFault::Queue => "client send queue is full or closed",
        }
    }
}

impl StateModel {
    /// Whether offering a message to a queue may lead to `after`.
    pub open spec fn offered(
        self,
        after: StateModel,
        queue: mpsc::Sender<OutboundMessage>,
        message: OutboundModel,
    ) -> bool {
        exists|outcome: SendOutcome|
            after == #[trigger] self.recording(Delivery::Queued { queue, message, outcome })
    }

    /// Whether telling a client of an error may lead to `after`.
    pub open spec fn told(
        self,
        after: StateModel,
        queue: mpsc::Sender<OutboundMessage>,
        code: Seq<char>,
        message: Seq<char>,
    ) -> bool {
        exists|outcome: SendOutcome|
            after == #[trigger] self.after_error(queue, code, message, outcome)
    }

    /// The state after one more message that broke the protocol.
    pub open spec fn after_breach(self) -> StateModel {
        self.counting(self.metrics.after_protocol_error())
    }

    /// Whether telling a client that it sends too fast, and closing its connection, may lead to
    /// `after`.
    pub open spec fn closed_as_noisy(
        self,
        after: StateModel,
        queue: mpsc::Sender<OutboundMessage>,
    ) -> bool {
        exists|warned: StateModel|
            {
                &&& #[trigger] self.told(
                    warned,
                    queue,
                    "rate_limited"@,
                    "message rate limit exceeded"@,
                )
                &&& warned.offered(
                    after,
                    queue,
                    OutboundModel::Close { code: CLOSE_POLICY, reason: "rate limit exceeded"@ },
                )
            }
    }

    /// Whether what a client sent may lead to `after` and to `step`. A client that sends too fast
    /// is told so and its connection is closed; a message that is too large, or that its tenant
    /// may not send now, is answered with an error; any other is handled.
    pub open spec fn payload_handled(
        self,
        after: StateModel,
        step: Step,
        session: SessionModel,
        allowed: bool,
        too_large: bool,
        form: Form,
        event: Option<ClientEventModel>,
        now: u64,
    ) -> bool {
        let counted = self.counting(self.metrics.after_message_in());
        let charged = counted.after_tenant_message(session.tenant_id, now);
        if !allowed {
            &&& step == Step::Stop
            &&& counted.after_breach().closed_as_noisy(after, session.queue)
        } else if too_large {
            &&& step == Step::Continue
            &&& counted.after_breach().told(
                after,
                session.queue,
                "message_too_large"@,
                "text message exceeds configured limit"@,
            )
        } else if !self.tenant_rate_lets_through(session.tenant_id, now) {
            &&& step == Step::Continue
            &&& charged.counting(charged.metrics.after_tenant_rate_rejection()).told(
                after,
                session.queue,
                "tenant_rate_limited"@,
                "tenant message rate exceeded"@,
            )
        } else {
            &&& step == Step::Continue
            &&& charged.message_handled(after, session, form, event)
        }
    }

    /// Whether what a reader came upon may lead to `after` and to `step`.
    pub open spec fn incoming_handled(
        self,
        after: StateModel,
        step: Step,
        session: SessionModel,
        allowed: bool,
        incoming: IncomingModel,
        now: u64,
    ) -> bool {
        match incoming {
            IncomingModel::Text(text) => self.payload_handled(
                after,
                step,
                session,
                allowed,
                encode_utf8(text).len() > self.config.max_text_bytes,
                Form::Text,
                event_of_text(text),
                now,
            ),
            IncomingModel::Binary(raw) => self.payload_handled(
                after,
                step,
                session,
                allowed,
                false,
                Form::Binary,
                event_of_tree(msgpack_tree(raw)),
                now,
            ),
            IncomingModel::Ping(payload) => {
                &&& step == Step::Continue
                &&& self.offered(after, session.queue, OutboundModel::Pong(payload))
            },
            IncomingModel::Pong => step == Step::Continue && after == self,
            IncomingModel::Close => step == Step::Stop && after == self,
            IncomingModel::Failed => step == Step::Fail(TaskFault::Socket) && after == self,
            IncomingModel::Idle => {
                &&& step == Step::Stop
                &&& self.offered(
                    after,
                    session.queue,
                    OutboundModel::Close { code: CLOSE_NORMAL, reason: "idle timeout"@ },
                )
            },
        }
    }
}

/// Refuses a message of a client that sends too fast, and closes its connection.
fn close_noisy(state: &mut AppState, session: &Session)
    ensures
        old(state)@.after_breach().closed_as_noisy(final(state)@, session.queue),
        old(state)@.wf() ==> final(state)@.wf(),
{
    state.metrics.protocol_error();
    assert(state@ == old(state)@.after_breach());
    send_error(&session.queue, "rate_limited", "message rate limit exceeded", state);
    let ghost warned = state@;
    assert(old(state)@.after_breach().told(
        warned,
        session.queue,
        "rate_limited"@,
        "message rate limit exceeded"@,
    ));
    let closing = OutboundMessage::Close { code: CLOSE_POLICY, reason: "rate limit exceeded" };
    let _ = state.offer(&session.queue, closing);
    assert(warned.offered(
        state@,
        session.queue,
        OutboundModel::Close { code: CLOSE_POLICY, reason: "rate limit exceeded"@ },
    ));
}

/// Counts a message of a client's tenant, and refuses it where the tenant may not send it now.
fn charge_tenant(state: &mut AppState, session: &Session, now: u64) -> (r: bool)
    ensures
        r == old(state)@.tenant_rate_lets_through(session@.tenant_id, now),
        ({
            let charged = old(state)@.after_tenant_message(session@.tenant_id, now);
            if r {
                final(state)@ == charged
            } else {
                charged.counting(charged.metrics.after_tenant_rate_rejection()).told(
                    final(state)@,
                    session.queue,
                    "tenant_rate_limited"@,
                    "tenant message rate exceeded"@,
                )
            }
        }),
        final(state)@.config == old(state)@.config,
        old(state)@.wf() ==> final(state)@.wf(),
{
    if state.check_tenant_rate(session.tenant_id.as_str(), now) {
        return true;
    }
    let ghost charged = state@;
    state.metrics.tenant_rate_rejected();
    assert(state@ == charged.counting(charged.metrics.after_tenant_rate_rejection()));
    send_error(
        &session.queue,
        "tenant_rate_limited",
        "tenant message rate exceeded",
        state,
    );
    false
}

/// Takes a text message.
fn take_text(
    state: &mut AppState,
    session: &Session,
    limiter: &mut RateLimiter,
    text: &str,
    now: u64,
) -> (r: Step)
    requires
        old(state)@.config.opens_channels(),
    ensures
        old(state)@.payload_handled(
            final(state)@,
            r,
            session@,
            old(limiter).bucket.lets_through(now),
            encode_utf8(text@).len() > old(state)@.config.max_text_bytes,
            Form::Text,
            event_of_text(text@),
            now,
        ),
        final(limiter).bucket == old(limiter).bucket.after_request(now),
        old(limiter).bucket.wf() ==> final(limiter).bucket.wf(),
        old(state)@.wf() ==> final(state)@.wf(),
{
    state.metrics.message_in();
    let ghost counted = state@;
    assert(counted == old(state)@.counting(old(state)@.metrics.after_message_in()));
    assert(counted.tenant_bucket(session@.tenant_id, now) == old(state)@.tenant_bucket(
        session@.tenant_id,
        now,
    ));
    if !limiter.allow(now) {
        close_noisy(state, session);
        return Step::Stop;
    }
    if text.as_bytes().len() > state.config.max_text_bytes {
        state.metrics.protocol_error();
        assert(state@ == counted.after_breach());
        send_error(
            &session.queue,
            "message_too_large",
            "text message exceeds configured limit",
            state,
        );
        return Step::Continue;
    }
    if charge_tenant(state, session, now) {
        handle_text(state, session, text);
    }
    Step::Continue
}

/// Takes a binary message.
fn take_binary(
    state: &mut AppState,
    session: &Session,
    limiter: &mut RateLimiter,
    raw: &[u8],
    now: u64,
) -> (r: Step)
    requires
        old(state)@.config.opens_channels(),
    ensures
        old(state)@.payload_handled(
            final(state)@,
            r,
            session@,
            old(limiter).bucket.lets_through(now),
            false,
            Form::Binary,
            event_of_tree(msgpack_tree(raw@)),
            now,
        ),
        final(limiter).bucket == old(limiter).bucket.after_request(now),
        old(limiter).bucket.wf() ==> final(limiter).bucket.wf(),
        old(state)@.wf() ==> final(state)@.wf(),
{
    state.metrics.message_in();
    let ghost counted = state@;
    assert(counted == old(state)@.counting(old(state)@.metrics.after_message_in()));
    assert(counted.tenant_bucket(session@.tenant_id, now) == old(state)@.tenant_bucket(
        session@.tenant_id,
        now,
    ));
    if !limiter.allow(now) {
        close_noisy(state, session);
        return Step::Stop;
    }
    if charge_tenant(state, session, now) {
        handle_binary(state, session, raw);
    }
    Step::Continue
}

/// What the reader of a connection does with what it came upon.
pub fn reader_step(
    state: &mut AppState,
    session: &Session,
    limiter: &mut RateLimiter,
    incoming: Incoming,
    now: u64,
) -> (r: Step)
    requires
        incoming is Text || incoming is Binary ==> old(state)@.config.opens_channels(),
    ensures
        old(state)@.incoming_handled(
            final(state)@,
            r,
            session@,
            old(limiter).bucket.lets_through(now),
            incoming@,
            now,
        ),
        final(limiter).bucket == (if incoming is Text || incoming is Binary {
            old(limiter).bucket.after_request(now)
        } else {
            old(limiter).bucket
        }),
        old(limiter).bucket.wf() ==> final(limiter).bucket.wf(),
        old(state)@.wf() ==> final(state)@.wf(),
{
    match incoming {
        Incoming::Text(text) => take_text(state, session, limiter, text.as_str(), now),
        Incoming::Binary(raw) => take_binary(state, session, limiter, raw.as_slice(), now),
        Incoming::Ping(payload) => {
            let _ = state.offer(&session.queue, OutboundMessage::Pong(payload));
            Step::Continue
        },
        Incoming::Pong => Step::Continue,
        Incoming::Close => Step::Stop,
        Incoming::Failed => Step::Fail(TaskFault::Socket),
        Incoming::Idle => {
            let closing = OutboundMessage::Close { code: CLOSE_NORMAL, reason: "idle timeout" };
            let _ = state.offer(&session.queue, closing);
            Step::Stop
        },
    }
}

/// An error whose code and message are of ordinary length can always be encoded.
pub proof fn lemma_short_errors_fit(code: Seq<char>, message: Seq<char>)
    requires
        code.len() <= 1000,
        message.len() <= 1000,
    ensures
        error_event(code, message).texts_fit(),
{
    lemma_utf8_len(code);
    lemma_utf8_len(message);
}

/// A client that sends too fast is told so, and its connection is closed: two messages are offered
/// to its queue, the second one the end of the connection, and nothing else is sent. Its message
/// counts as one that came in and as one that broke the protocol.
pub proof fn law_noisy_client_is_closed(
    before: StateModel,
    after: StateModel,
    step: Step,
    session: SessionModel,
    incoming: IncomingModel,
    now: u64,
)
    requires
        before.incoming_handled(after, step, session, false, incoming, now),
        incoming is Text || incoming is Binary,
    ensures
        step == Step::Stop,
        exists|reply: SendOutcome, close: SendOutcome|
            after.deliveries == before.deliveries.push(
                #[trigger] queued_error(
                    session.queue,
                    "rate_limited"@,
                    "message rate limit exceeded"@,
                    reply,
                ),
            ).push(
                #[trigger] queued_close(
                    session.queue,
                    CLOSE_POLICY,
                    "rate limit exceeded"@,
                    close,
                ),
            ),
        after.metrics.messages_in == before.metrics.messages_in.wrapping_add(1),
        after.metrics.protocol_errors == before.metrics.protocol_errors.wrapping_add(1),
        after.topics == before.topics,
        after.clients == before.clients,
{
    reveal_strlit("rate_limited");
    reveal_strlit("message rate limit exceeded");
    lemma_short_errors_fit("rate_limited"@, "message rate limit exceeded"@);
    let counted = before.counting(before.metrics.after_message_in()).after_breach();
    let warned = choose|warned: StateModel|
        {
            &&& #[trigger] counted.told(
                warned,
                session.queue,
                "rate_limited"@,
                "message rate limit exceeded"@,
            )
            &&& warned.offered(
                after,
                session.queue,
                OutboundModel::Close { code: CLOSE_POLICY, reason: "rate limit exceeded"@ },
            )
        };
    let reply = choose|outcome: SendOutcome|
        warned == #[trigger] counted.after_error(
            session.queue,
            "rate_limited"@,
            "message rate limit exceeded"@,
            outcome,
        );
    let closing = OutboundModel::Close { code: CLOSE_POLICY, reason: "rate limit exceeded"@ };
    let close = choose|outcome: SendOutcome|
        after == #[trigger] warned.recording(
            Delivery::Queued { queue: session.queue, message: closing, outcome },
        );
    assert(warned.deliveries == before.deliveries.push(
        queued_error(
            session.queue,
            "rate_limited"@,
            "message rate limit exceeded"@,
            reply,
        ),
    ));
    assert(after.deliveries == warned.deliveries.push(
        queued_close(session.queue, CLOSE_POLICY, "rate limit exceeded"@, close),
    ));
}

/// An error, offered to a client.
pub open spec fn queued_error(
    queue: mpsc::Sender<OutboundMessage>,
    code: Seq<char>,
    message: Seq<char>,
    outcome: SendOutcome,
) -> Delivery {
    Delivery::Queued {
        queue,
        message: OutboundModel::Binary(error_event(code, message).frame()),
        outcome,
    }
}

/// The end of a connection, offered to a client.
pub open spec fn queued_close(
    queue: mpsc::Sender<OutboundMessage>,
    code: u16,
    reason: Seq<char>,
    outcome: SendOutcome,
) -> Delivery {
    Delivery::Queued { queue, message: OutboundModel::Close { code, reason }, outcome }
}

/// A message that a tenant may not send now is answered with an error and goes nowhere else, and the
/// connection stays open.
pub proof fn law_tenant_rate_keeps_connection(
    before: StateModel,
    after: StateModel,
    step: Step,
    session: SessionModel,
    incoming: IncomingModel,
    now: u64,
)
    requires
        before.incoming_handled(after, step, session, true, incoming, now),
        match incoming {
            IncomingModel::Text(text) => encode_utf8(text).len() <= before.config.max_text_bytes,
            IncomingModel::Binary(_) => true,
            _ => false,
        },
        !before.tenant_rate_lets_through(session.tenant_id, now),
    ensures
        step == Step::Continue,
        exists|reply: SendOutcome|
            after.deliveries == before.deliveries.push(
                #[trigger] queued_error(
                    session.queue,
                    "tenant_rate_limited"@,
                    "tenant message rate exceeded"@,
                    reply,
                ),
            ),
        after.topics == before.topics,
        after.clients == before.clients,
{
    reveal_strlit("tenant_rate_limited");
    reveal_strlit("tenant message rate exceeded");
    lemma_short_errors_fit("tenant_rate_limited"@, "tenant message rate exceeded"@);
    let counted = before.counting(before.metrics.after_message_in());
    let charged = counted.after_tenant_message(session.tenant_id, now);
    let refused = charged.counting(charged.metrics.after_tenant_rate_rejection());
    let reply = choose|outcome: SendOutcome|
        after == #[trigger] refused.after_error(
            session.queue,
            "tenant_rate_limited"@,
            "tenant message rate exceeded"@,
            outcome,
        );
    assert(after.deliveries == before.deliveries.push(
        queued_error(
            session.queue,
            "tenant_rate_limited"@,
            "tenant message rate exceeded"@,
            reply,
        ),
    ));
}

/// A direct message to a client that its tenant does not have, whoever else has it, reaches nobody:
/// the sender is told that there is no such client, and nothing else is sent.
pub proof fn law_absent_client_is_reported(
    before: StateModel,
    session: SessionModel,
    event: ClientEventModel,
    frame: Seq<u8>,
    fate: Fate,
)
    requires
        event matches ClientEventModel::Direct { to, .. } && !before.clients.contains_key(
            (session.tenant_id, to),
        ),
    ensures
        before.after_event(session, event, Ok(frame), fate).deliveries == before.deliveries.push(
            queued_error(
                session.queue,
                "client_not_found"@,
                "target client is not online"@,
                fate.reply,
            ),
        ),
{
    reveal_strlit("client_not_found");
    reveal_strlit("target client is not online");
    lemma_short_errors_fit("client_not_found"@, "target client is not online"@);
}

/// A publication goes out once, on the channel that the subscribers of its topic read, as a message
/// that names the topic, the sender, the request and the payload.
pub proof fn law_publication_reaches_its_topic(
    before: StateModel,
    session: SessionModel,
    topic: Option<Seq<char>>,
    request_id: Option<Seq<char>>,
    payload: Value,
    encoded: Result<Seq<u8>, EncodeError>,
    fate: Fate,
)
    requires
        before.event_possible(
            session,
            ClientEventModel::Publish { topic, request_id, payload },
            encoded,
            fate,
        ),
        encoded is Ok,
        before.topics.contains_key(session.target(topic)),
    ensures
        before.after_event(
            session,
            ClientEventModel::Publish { topic, request_id, payload },
            encoded,
            fate,
        ).deliveries == before.deliveries.push(
            Delivery::Broadcast {
                channel: before.topics[session.target(topic)],
                message: (ServerEventModel::Message {
                    topic: extracted(session.target(topic)),
                    from: session.client_id,
                    request_id,
                    payload,
                }).frame(),
                receivers: fate.receivers,
            },
        ),
{
}

/// A direct message to a client that is connected in the tenant is offered to that client's queue;
/// where it is taken, nothing else is sent.
pub proof fn law_direct_message_reaches_its_client(
    before: StateModel,
    session: SessionModel,
    to: Seq<char>,
    request_id: Option<Seq<char>>,
    payload: Value,
    encoded: Result<Seq<u8>, EncodeError>,
    fate: Fate,
)
    requires
        before.event_possible(
            session,
            ClientEventModel::Direct { to, request_id, payload },
            encoded,
            fate,
        ),
        encoded is Ok,
        before.clients.contains_key((session.tenant_id, to)),
        fate.direct == SendOutcome::Sent,
    ensures
        before.after_event(
            session,
            ClientEventModel::Direct { to, request_id, payload },
            encoded,
            fate,
        ).deliveries == before.deliveries.push(
            Delivery::Queued {
                queue: before.clients[(session.tenant_id, to)].sender,
                message: OutboundModel::Binary(
                    (ServerEventModel::DirectMessage {
                        from: session.client_id,
                        to,
                        request_id,
                        payload,
                    }).frame(),
                ),
                outcome: fate.direct,
            },
        ),
{
}

/// A client that has just connected is found under its tenant and its id, by its own queue, and its
/// topic has the channel that it reads.
pub proof fn law_new_session_is_reachable(
    before: StateModel,
    session: SessionModel,
    channel: broadcast::Sender<Bytes>,
    outcome: SendOutcome,
)
    requires
        before.channel_for(session.topic_key, channel),
    ensures
        ({
            let after = before.after_open(session, channel).after_greeting(session, outcome);
            &&& after.clients.contains_key((session.tenant_id, session.client_id))
            &&& after.clients[(session.tenant_id, session.client_id)].sender == session.queue
            &&& after.topics.contains_key(session.topic_key)
            &&& after.topics[session.topic_key] == channel
        }),
{
}

/// A ping comes back to the client that sent it, and to nobody else, as a pong with the same request
/// id and the same payload.
pub proof fn law_ping_is_echoed(
    before: StateModel,
    session: SessionModel,
    request_id: Option<Seq<char>>,
    payload: Option<Value>,
    encoded: Result<Seq<u8>, EncodeError>,
    fate: Fate,
)
    requires
        ({
            let event = ClientEventModel::Ping { request_id, payload };
            &&& before.event_possible(session, event, encoded, fate)
            &&& encoded is Ok
        }),
    ensures
        before.after_event(
            session,
            ClientEventModel::Ping { request_id, payload },
            encoded,
            fate,
        ).deliveries == before.deliveries.push(
            Delivery::Queued {
                queue: session.queue,
                message: OutboundModel::Binary(
                    (ServerEventModel::Pong { request_id, payload }).frame(),
                ),
                outcome: fate.reply,
            },
        ),
{
}

/// A connection that was silent for too long ends: its client is sent the end of the connection and
/// nothing else, and once the connection is closed the client cannot be reached any more. Who
/// writes to it is told that it is not there.
pub proof fn law_silent_connection_ends(
    before: StateModel,
    after: StateModel,
    step: Step,
    session: SessionModel,
    allowed: bool,
    now: u64,
    sender: SessionModel,
    request_id: Option<Seq<char>>,
    payload: Value,
    frame: Seq<u8>,
    fate: Fate,
)
    requires
        before.incoming_handled(after, step, session, allowed, IncomingModel::Idle, now),
        before.clients.contains_key((session.tenant_id, session.client_id)) ==> before.clients[(
            session.tenant_id,
            session.client_id,
        )].connection_id == session.connection_id,
        sender.tenant_id == session.tenant_id,
    ensures
        step == Step::Stop,
        exists|close: SendOutcome|
            after.deliveries == before.deliveries.push(
                #[trigger] queued_close(session.queue, CLOSE_NORMAL, "idle timeout"@, close),
            ),
        ({
            let ended = after.after_end(session);
            let event = ClientEventModel::Direct { to: session.client_id, request_id, payload };
            &&& !ended.clients.contains_key((session.tenant_id, session.client_id))
            &&& ended.after_event(sender, event, Ok(frame), fate).deliveries
                == ended.deliveries.push(
                queued_error(
                    sender.queue,
                    "client_not_found"@,
                    "target client is not online"@,
                    fate.reply,
                ),
            )
        }),
{
    let closing = OutboundModel::Close { code: CLOSE_NORMAL, reason: "idle timeout"@ };
    let close = choose|outcome: SendOutcome|
        after == #[trigger] before.recording(
            Delivery::Queued { queue: session.queue, message: closing, outcome },
        );
    assert(after.deliveries == before.deliveries.push(
        queued_close(session.queue, CLOSE_NORMAL, "idle timeout"@, close),
    ));
    law_absent_client_is_reported(
        after.after_end(session),
        sender,
        ClientEventModel::Direct { to: session.client_id, request_id, payload },
        frame,
        fate,
    );
}

/// How a message that is an event came makes no difference to what becomes of it.
proof fn lemma_form_makes_no_difference(
    before: StateModel,
    after: StateModel,
    session: SessionModel,
    one: Form,
    other: Form,
    event: ClientEventModel,
)
    requires
        before.message_handled(after, session, one, Some(event)),
    ensures
        before.message_handled(after, session, other, Some(event)),
{
    let (encoded, fate) = choose|encoded: Result<Seq<u8>, EncodeError>, fate: Fate|
        {
            &&& before.message_possible(session, Some(event), encoded, fate)
            &&& after == #[trigger] before.after_message(session, one, Some(event), encoded, fate)
        };
    assert(after == before.after_message(session, other, Some(event), encoded, fate));
}

/// An event that comes as JSON text, and one that comes as MessagePack, are the same event where
/// they are the same tree and the text gives nothing twice and marks nothing, and the same becomes
/// of them, where the text is not too long.
pub proof fn law_forms_are_handled_alike(
    before: StateModel,
    after: StateModel,
    step: Step,
    session: SessionModel,
    allowed: bool,
    text: Seq<char>,
    raw: Seq<u8>,
    event: ClientEventModel,
    now: u64,
)
    requires
        json_tree(text) == msgpack_tree(raw),
        event_of_tree(json_tree(text)) == Some(event),
        !gives_twice(member_names(text), event),
        unmarked(text) == text,
        encode_utf8(text).len() <= before.config.max_text_bytes,
    ensures
        event_of_text(text) == Some(event),
        event_of_tree(msgpack_tree(raw)) == Some(event),
        before.incoming_handled(
            after,
            step,
            session,
            allowed,
            IncomingModel::Text(text),
            now,
        ) <==> before.incoming_handled(
            after,
            step,
            session,
            allowed,
            IncomingModel::Binary(raw),
            now,
        ),
{
    let charged = before.counting(before.metrics.after_message_in()).after_tenant_message(
        session.tenant_id,
        now,
    );
    if charged.message_handled(after, session, Form::Text, Some(event)) {
        lemma_form_makes_no_difference(
            charged,
            after,
            session,
            Form::Text,
            Form::Binary,
            event,
        );
    }
    if charged.message_handled(after, session, Form::Binary, Some(event)) {
        lemma_form_makes_no_difference(
            charged,
            after,
            session,
            Form::Binary,
            Form::Text,
            event,
        );
    }
}

/// A message that is no event is counted as a breach of the protocol and answered with an error
/// that tells the form it came in; nothing else is sent.
pub proof fn law_unreadable_message_is_answered(
    before: StateModel,
    after: StateModel,
    session: SessionModel,
    form: Form,
)
    requires
        before.message_handled(after, session, form, None),
    ensures
        exists|reply: SendOutcome|
            after.deliveries == before.deliveries.push(
                #[trigger] queued_error(
                    session.queue,
                    form.fault_code(),
                    form.fault_message(),
                    reply,
                ),
            ),
        after.metrics.protocol_errors == before.metrics.protocol_errors.wrapping_add(1),
        after.topics == before.topics,
        after.clients == before.clients,
{
    reveal_strlit("invalid_json");
    reveal_strlit("invalid_msgpack");
    reveal_strlit("message must match the websocket JSON protocol");
    reveal_strlit("binary message must match the websocket MessagePack protocol");
    lemma_short_errors_fit(form.fault_code(), form.fault_message());
    let (encoded, fate) = choose|encoded: Result<Seq<u8>, EncodeError>, fate: Fate|
        {
            &&& before.message_possible(session, None, encoded, fate)
            &&& after == #[trigger] before.after_message(session, form, None, encoded, fate)
        };
    assert(after.deliveries == before.deliveries.push(
        queued_error(session.queue, form.fault_code(), form.fault_message(), fate.reply),
    ));
}

/// A client that has just connected has a subscription of its own, which has heard nothing yet.
pub proof fn law_new_session_hears_from_now_on(
    before: StateModel,
    session: SessionModel,
    channel: broadcast::Sender<Bytes>,
    outcome: SendOutcome,
)
    ensures
        ({
            let log = before.after_open(session, channel).after_greeting(
                session,
                outcome,
            ).deliveries;
            exists|place: int|
                {
                    &&& before.deliveries.len() <= place < log.len()
                    &&& log[place] == (Delivery::Subscribed { channel })
                    &&& (#[trigger] heard(log, place)) == Seq::<Seq<u8>>::empty()
                }
        }),
{
    let opened = before.after_open(session, channel);
    let log = opened.after_greeting(session, outcome).deliveries;
    let place = opened.deliveries.len() - 1;
    assert(heard(opened.deliveries, place) == Seq::<Seq<u8>>::empty());
    if session.greeting().texts_fit() {
        assert(log.drop_last() =~= opened.deliveries);
    }
    assert(log[place] == (Delivery::Subscribed { channel }));
    assert(heard(log, place) == Seq::<Seq<u8>>::empty());
}

/// A client that was not connected before is not connected after its connection has ended, and no
/// other client is affected; the count of open connections is what it was.
pub proof fn law_end_undoes_start(
    before: StateModel,
    session: SessionModel,
    channel: broadcast::Sender<Bytes>,
    outcome: SendOutcome,
)
    requires
        !before.clients.contains_key((session.tenant_id, session.client_id)),
    ensures
        ({
            let after = before.after_open(session, channel).after_greeting(
                session,
                outcome,
            ).after_end(session);
            &&& after.clients == before.clients
            &&& after.metrics.active_connections == before.metrics.active_connections
            &&& after.slots == before.slots
            &&& after.tenants == before.tenants
            &&& after.ip_limiter == before.ip_limiter
        }),
{
    let after = before.after_open(session, channel).after_greeting(session, outcome).after_end(
        session,
    );
    assert(after.clients =~= before.clients);
}

/// Whether a delivery stays within a session's tenant: it is for the session's own queue, for the
/// queue of a client of the tenant, or for a topic of the tenant.
pub open spec fn within_tenant(
    before: StateModel,
    session: SessionModel,
    delivery: Delivery,
) -> bool {
    match delivery {
        Delivery::Queued { queue, .. } => {
            ||| queue == session.queue
            ||| exists|client: Seq<char>|
                {
                    &&& #[trigger] before.clients.contains_key((session.tenant_id, client))
                    &&& before.clients[(session.tenant_id, client)].sender == queue
                }
        },
        Delivery::ChannelOpened { channel } => tenant_channel(before, session.tenant_id, channel),
        Delivery::Broadcast { channel, .. } => tenant_channel(before, session.tenant_id, channel),
        Delivery::QueueOpened { .. } => false,
        Delivery::Subscribed { .. } => false,
    }
}

/// Whether a channel is that of a topic of a tenant, or becomes it.
pub open spec fn tenant_channel(
    before: StateModel,
    tenant: Seq<char>,
    channel: broadcast::Sender<Bytes>,
) -> bool {
    exists|topic: Seq<char>| before.channel_for(#[trigger] topic_key(tenant, topic), channel)
}

/// Whatever event a client sends, what is sent on account of it stays within its tenant.
pub proof fn law_events_stay_in_their_tenant(
    before: StateModel,
    session: SessionModel,
    event: ClientEventModel,
    encoded: Result<Seq<u8>, EncodeError>,
    fate: Fate,
    topic: Seq<char>,
    i: int,
)
    requires
        before.event_possible(session, event, encoded, fate),
        session.topic_key == topic_key(session.tenant_id, topic),
        before.deliveries.len() <= i < before.after_event(
            session,
            event,
            encoded,
            fate,
        ).deliveries.len(),
    ensures
        before.deliveries.is_prefix_of(
            before.after_event(session, event, encoded, fate).deliveries,
        ),
        within_tenant(
            before,
            session,
            before.after_event(session, event, encoded, fate).deliveries[i],
        ),
{
    let after = before.after_event(session, event, encoded, fate);
    match event {
        ClientEventModel::Publish { topic: named, .. } => {
            if encoded is Ok {
                let name = match named {
                    Some(named) => normalized(named),
                    None => topic,
                };
                assert(session.target(named) == topic_key(session.tenant_id, name));
                assert(tenant_channel(before, session.tenant_id, fate.channel));
            }
        },
        ClientEventModel::Direct { to, .. } => {
            if before.clients.contains_key((session.tenant_id, to)) {
                assert(before.clients.contains_key((session.tenant_id, to)));
            }
        },
        ClientEventModel::Ping { .. } => {},
    }
}

/// A connection that begins may send its whole configured burst at once, one message at least, and no
/// more than that.
pub proof fn law_new_client_may_send_its_burst(config: Config, start: u64, times: Seq<u64>)
    requires
        forall|i: int| 0 <= i < times.len() ==> times[i] == start,
    ensures
        ({
            let most: nat = if config.message_burst == 0 {
                1
            } else {
                config.message_burst as nat
            };
            let_through(config.message_bucket(start), times) == (if times.len() <= most {
                times.len()
            } else {
                most
            })
        }),
{
    law_new_bucket_passes_its_burst(
        config.max_messages_per_second,
        config.message_burst,
        start,
        times,
    );
}

/// A connection that has used up its burst earns the configured rate, one message a second at least, up
/// to its burst: so many messages pass later, and no more.
pub proof fn law_client_earns_its_rate(
    config: Config,
    start: u64,
    first: Seq<u64>,
    later: u64,
    times: Seq<u64>,
)
    requires
        forall|i: int| 0 <= i < first.len() ==> first[i] == start,
        first.len() >= 1,
        first.len() >= config.message_burst,
        start <= later,
        forall|i: int| 0 <= i < times.len() ==> times[i] == later,
    ensures
        ({
            let most: int = if config.message_burst == 0 {
                1
            } else {
                config.message_burst as int
            };
            let rate: int = if config.max_messages_per_second == 0 {
                1
            } else {
                config.max_messages_per_second as int
            };
            let earned: int = ((later - start) * rate) / 1_000_000_000;
            let owed: int = if earned <= most {
                earned
            } else {
                most
            };
            let_through(after_requests(config.message_bucket(start), first), times) == (
            if times.len() <= owed {
                times.len() as int
            } else {
                owed
            })
        }),
{
    law_used_up_bucket_earns_its_rate(
        config.max_messages_per_second,
        config.message_burst,
        start,
        first,
        later,
        times,
    );
}

/// A publication that names a topic goes where those of the tenant subscribe who connect with that name,
/// and one that names none goes where its own connection subscribed. Names are told apart by what is
/// left of them without white space around them and slashes before them.
pub proof fn law_named_topic_is_the_subscribers_topic(
    session: SessionModel,
    identity: IdentityModel,
    topic: Seq<char>,
    connection_id: u64,
    queue: mpsc::Sender<OutboundMessage>,
)
    requires
        identity.tenant_id == session.tenant_id,
    ensures
        session.target(Some(topic)) == identity.session(topic, connection_id, queue).topic_key,
        session.target(Some(topic)) == session.tenant_id + seq![':'] + normalized(topic),
        session.target(None) == session.topic_key,
{
}

/// The session of a client is its own: its tenant, its id, its number, its queue.
pub proof fn law_sessions_are_their_clients(
    identity: IdentityModel,
    topic: Seq<char>,
    connection_id: u64,
    queue: mpsc::Sender<OutboundMessage>,
)
    ensures
        ({
            let session = identity.session(topic, connection_id, queue);
            &&& session.tenant_id == identity.tenant_id
            &&& session.client_id == identity.client_id
            &&& session.connection_id == connection_id
            &&& session.queue == queue
            &&& session.topic_key == identity.tenant_id + seq![':'] + normalized(topic)
        }),
{
}

/// A greeting tells the client its own id and the name of its topic, without the tenant's id, where that
/// holds no colon.
pub proof fn law_greeting_tells_topic_and_client(
    identity: IdentityModel,
    topic: Seq<char>,
    connection_id: u64,
    queue: mpsc::Sender<OutboundMessage>,
)
    requires
        !identity.tenant_id.contains(':'),
    ensures
        identity.session(topic, connection_id, queue).greeting() == (ServerEventModel::Ready {
            topic: normalized(topic),
            client_id: identity.client_id,
        }),
{
    law_clients_see_their_topic(identity.tenant_id, normalized(topic));
}

/// A publication that names a topic is heard by whoever of the tenant connected with that name before
/// it: as the next message on that subscription, once, with the sender, the request id and the
/// payload that it came with, under the name that the subscriber was greeted with.
pub proof fn law_named_publication_is_heard(
    before: StateModel,
    session: SessionModel,
    identity: IdentityModel,
    topic: Seq<char>,
    subscriber: SessionModel,
    place: int,
    request_id: Option<Seq<char>>,
    payload: Value,
    encoded: Result<Seq<u8>, EncodeError>,
    fate: Fate,
)
    requires
        identity.tenant_id == session.tenant_id,
        subscriber == identity.session(topic, subscriber.connection_id, subscriber.queue),
        0 <= place < before.deliveries.len(),
        before.topics.contains_key(subscriber.topic_key),
        before.deliveries[place] == (Delivery::Subscribed {
            channel: before.topics[subscriber.topic_key],
        }),
        before.event_possible(
            session,
            ClientEventModel::Publish { topic: Some(topic), request_id, payload },
            encoded,
            fate,
        ),
        encoded is Ok,
    ensures
        ({
            let after = before.after_event(
                session,
                ClientEventModel::Publish { topic: Some(topic), request_id, payload },
                encoded,
                fate,
            );
            heard(after.deliveries, place) == heard(before.deliveries, place).push(
                (ServerEventModel::Message {
                    topic: subscriber.greeting()->Ready_topic,
                    from: session.client_id,
                    request_id,
                    payload,
                }).frame(),
            )
        }),
{
    let after = before.after_event(
        session,
        ClientEventModel::Publish { topic: Some(topic), request_id, payload },
        encoded,
        fate,
    );
    assert(session.target(Some(topic)) == subscriber.topic_key);
    assert(after.deliveries.drop_last() =~= before.deliveries);
}

/// A publication without a topic is heard by whoever subscribed to the topic of its own connection.
pub proof fn law_plain_publication_is_heard(
    before: StateModel,
    session: SessionModel,
    place: int,
    request_id: Option<Seq<char>>,
    payload: Value,
    encoded: Result<Seq<u8>, EncodeError>,
    fate: Fate,
)
    requires
        0 <= place < before.deliveries.len(),
        before.topics.contains_key(session.topic_key),
        before.deliveries[place] == (Delivery::Subscribed {
            channel: before.topics[session.topic_key],
        }),
        before.event_possible(
            session,
            ClientEventModel::Publish { topic: None, request_id, payload },
            encoded,
            fate,
        ),
        encoded is Ok,
    ensures
        ({
            let after = before.after_event(
                session,
                ClientEventModel::Publish { topic: None, request_id, payload },
                encoded,
                fate,
            );
            heard(after.deliveries, place) == heard(before.deliveries, place).push(
                (ServerEventModel::Message {
                    topic: session.greeting()->Ready_topic,
                    from: session.client_id,
                    request_id,
                    payload,
                }).frame(),
            )
        }),
{
    let after = before.after_event(
        session,
        ClientEventModel::Publish { topic: None, request_id, payload },
        encoded,
        fate,
    );
    assert(after.deliveries.drop_last() =~= before.deliveries);
}

/// A publication that somebody hears changes no counter; one that nobody hears counts as dropped, once.
pub proof fn law_unheard_publications_are_dropped(
    before: StateModel,
    session: SessionModel,
    event: ClientEventModel,
    frame: Seq<u8>,
    fate: Fate,
)
    requires
        event is Publish,
    ensures
        ({
            let after = before.after_event(session, event, Ok(frame), fate);
            &&& fate.receivers > 0 ==> after.metrics == before.metrics
            &&& fate.receivers == 0 ==> after.metrics == (Metrics {
                dropped_messages: before.metrics.dropped_messages.wrapping_add(1),
                ..before.metrics
            })
        }),
{
}

/// A direct message that its addressee takes changes no counter. One that it does not take, or that has
/// no addressee, counts as dropped, and its sender is told that there is no such client.
pub proof fn law_undelivered_messages_are_reported(
    before: StateModel,
    session: SessionModel,
    to: Seq<char>,
    request_id: Option<Seq<char>>,
    payload: Value,
    frame: Seq<u8>,
    fate: Fate,
)
    ensures
        ({
            let event = ClientEventModel::Direct { to, request_id, payload };
            let after = before.after_event(session, event, Ok(frame), fate);
            let known = before.clients.contains_key((session.tenant_id, to));
            let offer = Delivery::Queued {
                queue: before.clients[(session.tenant_id, to)].sender,
                message: OutboundModel::Binary(frame),
                outcome: fate.direct,
            };
            let report = queued_error(
                session.queue,
                "client_not_found"@,
                "target client is not online"@,
                fate.reply,
            );
            &&& known && fate.direct == SendOutcome::Sent ==> after.metrics == before.metrics
                && after.deliveries == before.deliveries.push(offer)
            &&& known && fate.direct != SendOutcome::Sent ==> after.deliveries
                == before.deliveries.push(offer).push(report)
            &&& !known ==> after.deliveries == before.deliveries.push(report)
            &&& !known || fate.direct != SendOutcome::Sent ==> after.metrics == (Metrics {
                dropped_messages: before.metrics.dropped_messages.wrapping_add(
                    1,
                ).wrapping_add(
                    if fate.reply == SendOutcome::Sent {
                        0
                    } else {
                        1
                    },
                ),
                ..before.metrics
            })
        }),
{
    reveal_strlit("client_not_found");
    reveal_strlit("target client is not online");
    lemma_short_errors_fit("client_not_found"@, "target client is not online"@);
}

/// Where what an event calls for cannot be encoded, nobody but its sender hears of it: the sender is told
/// so. A publication or a direct message counts as a breach of the protocol then, a ping does not.
pub proof fn law_failed_events_are_reported(
    before: StateModel,
    session: SessionModel,
    event: ClientEventModel,
    e: EncodeError,
    fate: Fate,
)
    ensures
        ({
            let after = before.after_event(session, event, Err(e), fate);
            let message = match event {
                ClientEventModel::Publish { .. } => "failed to encode message"@,
                ClientEventModel::Direct { .. } => "failed to encode direct message"@,
                ClientEventModel::Ping { .. } => "failed to encode pong"@,
            };
            &&& after.deliveries == before.deliveries.push(
                queued_error(session.queue, "encode_failed"@, message, fate.reply),
            )
            &&& event is Ping ==> after.metrics.protocol_errors == before.metrics.protocol_errors
            &&& !(event is Ping) ==> after.metrics.protocol_errors
                == before.metrics.protocol_errors.wrapping_add(1)
            &&& fate.reply == SendOutcome::Sent ==> after.metrics.dropped_messages
                == before.metrics.dropped_messages
        }),
{
    reveal_strlit("encode_failed");
    reveal_strlit("failed to encode message");
    reveal_strlit("failed to encode direct message");
    reveal_strlit("failed to encode pong");
    lemma_short_errors_fit("encode_failed"@, "failed to encode message"@);
    lemma_short_errors_fit("encode_failed"@, "failed to encode direct message"@);
    lemma_short_errors_fit("encode_failed"@, "failed to encode pong"@);
}

/// An event changes nothing but counters, the record of deliveries and, where a publication is the first
/// on its topic, the channel of that one topic.
pub proof fn law_events_change_nothing_else(
    before: StateModel,
    session: SessionModel,
    event: ClientEventModel,
    encoded: Result<Seq<u8>, EncodeError>,
    fate: Fate,
    key: Seq<char>,
)
    ensures
        ({
            let after = before.after_event(session, event, encoded, fate);
            &&& after == StateModel {
                metrics: after.metrics,
                deliveries: after.deliveries,
                topics: after.topics,
                ..before
            }
            &&& before.topics.contains_key(key) ==> after.topics.contains_key(key)
                && after.topics[key] == before.topics[key]
            &&& !(event is Publish) ==> after.topics == before.topics
            &&& before.deliveries.is_prefix_of(after.deliveries)
            &&& after.metrics.messages_in == before.metrics.messages_in
            &&& after.metrics.messages_out == before.metrics.messages_out
        }),
{
}

/// A message that its connection and its tenant may send, and that is not too long, is counted as one
/// that came in, charged to the tenant once, and handled for what it is; the connection goes on.
pub proof fn law_ordinary_messages_are_handled(
    before: StateModel,
    after: StateModel,
    step: Step,
    session: SessionModel,
    incoming: IncomingModel,
    now: u64,
)
    requires
        before.incoming_handled(after, step, session, true, incoming, now),
        incoming matches IncomingModel::Text(text) ==> encode_utf8(text).len()
            <= before.config.max_text_bytes,
        incoming is Text || incoming is Binary,
        before.tenant_rate_lets_through(session.tenant_id, now),
    ensures
        step == Step::Continue,
        ({
            let charged = before.after_tenant_message(session.tenant_id, now);
            let taken = StateModel {
                metrics: Metrics {
                    messages_in: before.metrics.messages_in.wrapping_add(1),
                    ..before.metrics
                },
                ..charged
            };
            &&& incoming matches IncomingModel::Text(text) ==> taken.message_handled(
                after,
                session,
                Form::Text,
                event_of_text(text),
            )
            &&& incoming matches IncomingModel::Binary(raw) ==> taken.message_handled(
                after,
                session,
                Form::Binary,
                event_of_tree(msgpack_tree(raw)),
            )
        }),
{
    let counted = before.counting(before.metrics.after_message_in());
    assert(counted.tenant_bucket(session.tenant_id, now) == before.tenant_bucket(
        session.tenant_id,
        now,
    ));
    assert(counted.after_tenant_message(session.tenant_id, now) == (StateModel {
        metrics: Metrics {
            messages_in: before.metrics.messages_in.wrapping_add(1),
            ..before.metrics
        },
        ..before.after_tenant_message(session.tenant_id, now)
    }));
}

/// A text that is longer than the server allows, in bytes, is answered with an error and goes nowhere
/// else: it counts as a breach of the protocol, is not charged to the tenant, and the connection
/// goes on.
pub proof fn law_long_texts_are_refused(
    before: StateModel,
    after: StateModel,
    step: Step,
    session: SessionModel,
    text: Seq<char>,
    now: u64,
)
    requires
        before.incoming_handled(after, step, session, true, IncomingModel::Text(text), now),
        encode_utf8(text).len() > before.config.max_text_bytes,
    ensures
        step == Step::Continue,
        exists|reply: SendOutcome|
            after.deliveries == before.deliveries.push(
                #[trigger] queued_error(
                    session.queue,
                    "message_too_large"@,
                    "text message exceeds configured limit"@,
                    reply,
                ),
            ),
        after.metrics.messages_in == before.metrics.messages_in.wrapping_add(1),
        after.metrics.protocol_errors == before.metrics.protocol_errors.wrapping_add(1),
        after == (StateModel {
            metrics: after.metrics,
            deliveries: after.deliveries,
            ..before
        }),
{
    reveal_strlit("message_too_large");
    reveal_strlit("text message exceeds configured limit");
    lemma_short_errors_fit("message_too_large"@, "text message exceeds configured limit"@);
    let counted = before.counting(before.metrics.after_message_in()).after_breach();
    let reply = choose|outcome: SendOutcome|
        after == #[trigger] counted.after_error(
            session.queue,
            "message_too_large"@,
            "text message exceeds configured limit"@,
            outcome,
        );
    assert(after.deliveries == before.deliveries.push(
        queued_error(
            session.queue,
            "message_too_large"@,
            "text message exceeds configured limit"@,
            reply,
        ),
    ));
}

/// A message of a connection that sends too fast is not charged to its tenant, and nothing changes but
/// counters and the record.
pub proof fn law_noisy_messages_are_not_charged(
    before: StateModel,
    after: StateModel,
    step: Step,
    session: SessionModel,
    incoming: IncomingModel,
    now: u64,
)
    requires
        before.incoming_handled(after, step, session, false, incoming, now),
        incoming is Text || incoming is Binary,
    ensures
        after == (StateModel {
            metrics: after.metrics,
            deliveries: after.deliveries,
            ..before
        }),
{
    let counted = before.counting(before.metrics.after_message_in()).after_breach();
    let warned = choose|warned: StateModel|
        {
            &&& #[trigger] counted.told(
                warned,
                session.queue,
                "rate_limited"@,
                "message rate limit exceeded"@,
            )
            &&& warned.offered(
                after,
                session.queue,
                OutboundModel::Close { code: CLOSE_POLICY, reason: "rate limit exceeded"@ },
            )
        };
}

/// A ping of the socket is answered with a pong of the same bytes, and nothing else; a pong is taken
/// silently. Both let the connection go on, whatever its rate. The end of the stream ends it, and a
/// broken one fails it, and nothing is sent then.
pub proof fn law_control_frames_are_answered(
    before: StateModel,
    after: StateModel,
    step: Step,
    session: SessionModel,
    allowed: bool,
    incoming: IncomingModel,
    now: u64,
)
    requires
        before.incoming_handled(after, step, session, allowed, incoming, now),
    ensures
        incoming matches IncomingModel::Ping(payload) ==> step == Step::Continue && exists|
            outcome: SendOutcome,
        |
            after == #[trigger] before.recording(
                Delivery::Queued {
                    queue: session.queue,
                    message: OutboundModel::Pong(payload),
                    outcome,
                },
            ),
        incoming is Pong ==> step == Step::Continue && after == before,
        incoming is Close ==> step == Step::Stop && after == before,
        incoming is Failed ==> step == Step::Fail(TaskFault::Socket) && after == before,
{
}

/// A message that cannot be read is answered in the words for its form.
pub proof fn law_unreadable_messages_are_answered_by_form(
    before: StateModel,
    after: StateModel,
    session: SessionModel,
    form: Form,
)
    requires
        before.message_handled(after, session, form, None),
    ensures
        form == Form::Text ==> exists|reply: SendOutcome|
            after.deliveries == before.deliveries.push(
                #[trigger] queued_error(
                    session.queue,
                    "invalid_json"@,
                    "message must match the websocket JSON protocol"@,
                    reply,
                ),
            ),
        form == Form::Binary ==> exists|reply: SendOutcome|
            after.deliveries == before.deliveries.push(
                #[trigger] queued_error(
                    session.queue,
                    "invalid_msgpack"@,
                    "binary message must match the websocket MessagePack protocol"@,
                    reply,
                ),
            ),
{
    law_unreadable_message_is_answered(before, after, session, form);
}

/// A connection that begins is counted as accepted and as open, takes the next number and leaves the
/// following one for the next, and is known by its tenant and its id; nothing else is known that was
/// not before. Its greeting is offered to its own queue, once.
pub proof fn law_beginning_is_one_connection(
    before: StateModel,
    session: SessionModel,
    channel: broadcast::Sender<Bytes>,
    outcome: SendOutcome,
    key: (Seq<char>, Seq<char>),
    topic: Seq<char>,
)
    requires
        session.client_id.len() <= 0x3fff_ffff,
        session.topic_key.len() <= 0x3fff_ffff,
    ensures
        ({
            let opened = before.after_open(session, channel);
            let after = opened.after_greeting(session, outcome);
            &&& after.next_connection_id == before.next_connection_id.wrapping_add(1)
            &&& after.metrics.accepted_connections
                == before.metrics.accepted_connections.wrapping_add(1)
            &&& after.metrics.active_connections == before.metrics.active_connections.wrapping_add(1)
            &&& after.metrics.messages_in == before.metrics.messages_in
            &&& after.metrics.protocol_errors == before.metrics.protocol_errors
            &&& outcome == SendOutcome::Sent ==> after.metrics.dropped_messages
                == before.metrics.dropped_messages
            &&& after.clients.contains_key((session.tenant_id, session.client_id))
            &&& after.clients[(session.tenant_id, session.client_id)].connection_id
                == session.connection_id
            &&& key != (session.tenant_id, session.client_id) ==> (after.clients.contains_key(key)
                <==> before.clients.contains_key(key)) && after.clients[key] == before.clients[key]
            &&& topic != session.topic_key ==> (after.topics.contains_key(topic)
                <==> before.topics.contains_key(topic)) && after.topics[topic]
                == before.topics[topic]
            &&& after.deliveries == opened.deliveries.push(
                Delivery::Queued {
                    queue: session.queue,
                    message: OutboundModel::Binary(session.greeting().frame()),
                    outcome,
                },
            )
            &&& after.tenants == before.tenants
            &&& after.slots == before.slots
            &&& after.ip_limiter == before.ip_limiter
            &&& after.config == before.config
        }),
{
    lemma_utf8_len(session.client_id);
    let key = session.topic_key;
    let name = extracted(key);
    assert(name.len() <= key.len()) by {
        if key.contains(':') {
            key.index_of_first_ensures(':');
        }
    }
    lemma_utf8_len(name);
}

/// A connection that ends is no longer counted as open, and its client is forgotten where the connection
/// is its last one. Nothing else changes.
pub proof fn law_end_is_one_connection(
    before: StateModel,
    session: SessionModel,
    key: (Seq<char>, Seq<char>),
)
    ensures
        ({
            let after = before.after_end(session);
            let own = (session.tenant_id, session.client_id);
            &&& after.metrics == (Metrics {
                active_connections: before.metrics.active_connections.wrapping_sub(1),
                ..before.metrics
            })
            &&& after.clients.contains_key(key) <==> before.clients.contains_key(key) && !(key == own
                && before.clients[own].connection_id == session.connection_id)
            &&& after.clients.contains_key(key) ==> after.clients[key] == before.clients[key]
            &&& after == StateModel { metrics: after.metrics, clients: after.clients, ..before }
        }),
{
}

/// A message that is offered to a client is recorded with what came of it, and counts as dropped where it
/// was not taken.
pub proof fn law_offers_are_counted(
    before: StateModel,
    queue: mpsc::Sender<OutboundMessage>,
    frame: Seq<u8>,
    outcome: SendOutcome,
)
    ensures
        ({
            let after = before.after_send(queue, frame, outcome);
            &&& after.deliveries == before.deliveries.push(
                Delivery::Queued { queue, message: OutboundModel::Binary(frame), outcome },
            )
            &&& after.metrics == (Metrics {
                dropped_messages: if outcome == SendOutcome::Sent {
                    before.metrics.dropped_messages
                } else {
                    before.metrics.dropped_messages.wrapping_add(1)
                },
                ..before.metrics
            })
            &&& after == StateModel {
                metrics: after.metrics,
                deliveries: after.deliveries,
                ..before
            }
        }),
{
}

/// A session, and what came in on it, is viewed as it is, with nothing left out.
pub proof fn law_sessions_are_viewed_whole(session: Session, incoming: Incoming)
    ensures
        session@ == (SessionModel {
            topic_key: session.topic_key@,
            tenant_id: session.tenant_id@,
            client_id: session.client_id@,
            connection_id: session.connection_id,
            queue: session.queue,
        }),
        incoming matches Incoming::Text(text) ==> incoming@ == IncomingModel::Text(text@),
        incoming matches Incoming::Binary(raw) ==> incoming@ == IncomingModel::Binary(raw@),
        incoming matches Incoming::Ping(payload) ==> incoming@ == IncomingModel::Ping(payload@),
        incoming is Pong <==> incoming@ is Pong,
        incoming is Close <==> incoming@ is Close,
        incoming is Failed <==> incoming@ is Failed,
        incoming is Idle <==> incoming@ is Idle,
{
}

/// A message that its tenant may not send now counts as one that came in and as one that the tenant's rate
/// refused, not as a breach of the protocol, and is charged to the tenant as any other.
pub proof fn law_tenant_rate_refusals_are_counted(
    before: StateModel,
    after: StateModel,
    step: Step,
    session: SessionModel,
    incoming: IncomingModel,
    now: u64,
)
    requires
        before.incoming_handled(after, step, session, true, incoming, now),
        incoming matches IncomingModel::Text(text) ==> encode_utf8(text).len()
            <= before.config.max_text_bytes,
        incoming is Text || incoming is Binary,
        !before.tenant_rate_lets_through(session.tenant_id, now),
    ensures
        after.metrics.messages_in == before.metrics.messages_in.wrapping_add(1),
        after.metrics.tenant_rate_rejections == before.metrics.tenant_rate_rejections.wrapping_add(
            1,
        ),
        after.metrics.protocol_errors == before.metrics.protocol_errors,
        after.tenants == before.after_tenant_message(session.tenant_id, now).tenants,
        after == (StateModel {
            metrics: after.metrics,
            deliveries: after.deliveries,
            tenants: after.tenants,
            ..before
        }),
{
    let counted = before.counting(before.metrics.after_message_in());
    assert(counted.tenant_bucket(session.tenant_id, now) == before.tenant_bucket(
        session.tenant_id,
        now,
    ));
    let charged = counted.after_tenant_message(session.tenant_id, now);
    let refused = charged.counting(charged.metrics.after_tenant_rate_rejection());
    let reply = choose|outcome: SendOutcome|
        after == #[trigger] refused.after_error(
            session.queue,
            "tenant_rate_limited"@,
            "tenant message rate exceeded"@,
            outcome,
        );
}

} // verus!
