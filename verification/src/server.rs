//! What the server does with what its clients send.
use bytes::Bytes;
use serde_json::Value;
use tokio::sync::broadcast;
use tokio::sync::mpsc;
use vstd::prelude::*;

use crate::channel::bytes_from;
use crate::channel::bytes_of;
use crate::channel::channel_capacity;
use crate::channel::channel_known;
use crate::channel::Delivery;
use crate::channel::OutboundMessage;
use crate::channel::OutboundModel;
use crate::channel::SendOutcome;
use crate::json::msgpack_tree;
use crate::json::text_view;
use crate::msgpack::law_texts_fit_up_to_four_gibibytes;
use crate::msgpack::slice_view;
use crate::protocol::encode_server_event;
use crate::protocol::encoded_view;
use crate::protocol::event_of_text;
use crate::protocol::event_of_tree;
use crate::protocol::parse_client_event;
use crate::protocol::parse_client_event_binary;
use crate::protocol::ClientEvent;
use crate::protocol::ClientEventModel;
use crate::protocol::EncodeError;
use crate::protocol::ServerEvent;
use crate::protocol::ServerEventModel;
use crate::state::tenant_topic;
use crate::state::topic_key;
use crate::state::AppState;
use crate::state::StateModel;
use crate::topic::extract_topic;
use crate::topic::extracted;
use crate::topic::law_clients_see_their_topic;
use crate::topic::normalize_topic;
use crate::topic::normalized;

verus! {

/// One open connection.
pub struct Session {
    /// The key of the topic that the client subscribed to.
    pub topic_key: String,
    pub tenant_id: String,
    pub client_id: String,
    pub connection_id: u64,
    /// The queue of messages for the client.
    pub queue: mpsc::Sender<OutboundMessage>,
}

/// What a session is.
#[verifier::ext_equal]
pub struct SessionModel {
    pub topic_key: Seq<char>,
    pub tenant_id: Seq<char>,
    pub client_id: Seq<char>,
    pub connection_id: u64,
    pub queue: mpsc::Sender<OutboundMessage>,
}

impl View for Session {
    type V = SessionModel;

    open spec fn view(&self) -> SessionModel {
        SessionModel {
            topic_key: self.topic_key@,
            tenant_id: self.tenant_id@,
            client_id: self.client_id@,
            connection_id: self.connection_id,
            queue: self.queue,
        }
    }
}

/// What the channels made of the messages that one step handed to them.
pub struct Fate {
    /// The channel of the topic that was published on.
    pub channel: broadcast::Sender<Bytes>,
    /// How many subscribers it had.
    pub receivers: usize,
    /// What came of offering a direct message to its addressee.
    pub direct: SendOutcome,
    /// What came of offering an answer to the client.
    pub reply: SendOutcome,
}

/// How a client's message came.
#[derive(Clone, Copy, Debug, PartialEq, Eq, Structural)]
pub enum Form {
    Text,
    Binary,
}

impl Form {
    /// The error code for a message that cannot be read.
    pub open spec fn fault_code(self) -> Seq<char> {
        match self {
            Form::Text => "invalid_json"@,
            Form::Binary => "invalid_msgpack"@,
        }
    }

    /// The error message for a message that cannot be read.
    pub open spec fn fault_message(self) -> Seq<char> {
        match self {
            Form::Text => "message must match the websocket JSON protocol"@,
            Form::Binary => "binary message must match the websocket MessagePack protocol"@,
        }
    }
}

impl SessionModel {
    /// The key of the topic that a publication goes to.
    pub open spec fn target(self, topic: Option<Seq<char>>) -> Seq<char> {
        match topic {
            Some(topic) => topic_key(self.tenant_id, normalized(topic)),
            None => self.topic_key,
        }
    }

    /// What is sent on account of a client's event.
    pub open spec fn outcome_of(self, event: ClientEventModel) -> ServerEventModel {
        match event {
            ClientEventModel::Publish { topic, request_id, payload } => ServerEventModel::Message {
                topic: extracted(self.target(topic)),
                from: self.client_id,
                request_id,
                payload,
            },
            ClientEventModel::Direct { to, request_id, payload } => {
                ServerEventModel::DirectMessage { from: self.client_id, to, request_id, payload }
            },
            ClientEventModel::Ping { request_id, payload } => ServerEventModel::Pong {
                request_id,
                payload,
            },
        }
    }
}

/// The error message for an event whose outcome cannot be encoded.
pub open spec fn encode_fault(event: ClientEventModel) -> Seq<char> {
    match event {
        ClientEventModel::Publish { .. } => "failed to encode message"@,
        ClientEventModel::Direct { .. } => "failed to encode direct message"@,
        ClientEventModel::Ping { .. } => "failed to encode pong"@,
    }
}

/// An error.
pub open spec fn error_event(code: Seq<char>, message: Seq<char>) -> ServerEventModel {
    ServerEventModel::Error { code, message }
}

impl StateModel {
    /// The state after an encoded event was offered to a client. One that is not taken counts as
    /// dropped.
    pub open spec fn after_send(
        self,
        queue: mpsc::Sender<OutboundMessage>,
        frame: Seq<u8>,
        outcome: SendOutcome,
    ) -> StateModel {
        let offered = self.recording(
            Delivery::Queued { queue, message: OutboundModel::Binary(frame), outcome },
        );
        if outcome == SendOutcome::Sent {
            offered
        } else {
            offered.counting(self.metrics.after_drop())
        }
    }

    /// The state after a client was told of an error.
    pub open spec fn after_error(
        self,
        queue: mpsc::Sender<OutboundMessage>,
        code: Seq<char>,
        message: Seq<char>,
        outcome: SendOutcome,
    ) -> StateModel {
        if error_event(code, message).texts_fit() {
            self.after_send(queue, error_event(code, message).frame(), outcome)
        } else {
            self
        }
    }

    /// Whether handing on what a client's event calls for may come to this.
    pub open spec fn fate_possible(
        self,
        session: SessionModel,
        event: ClientEventModel,
        encoded: Result<Seq<u8>, EncodeError>,
        fate: Fate,
    ) -> bool {
        event matches ClientEventModel::Publish { topic, .. } ==> encoded is Ok
            ==> self.channel_for(session.target(topic), fate.channel)
    }

    /// Whether encoding what a client's event calls for, and handing it on, may come to this.
    pub open spec fn event_possible(
        self,
        session: SessionModel,
        event: ClientEventModel,
        encoded: Result<Seq<u8>, EncodeError>,
        fate: Fate,
    ) -> bool {
        &&& session.outcome_of(event).may_encode(encoded)
        &&& self.fate_possible(session, event, encoded, fate)
    }

    /// The state after a client's event was handled.
    pub open spec fn after_event(
        self,
        session: SessionModel,
        event: ClientEventModel,
        encoded: Result<Seq<u8>, EncodeError>,
        fate: Fate,
    ) -> StateModel {
        match event {
            ClientEventModel::Publish { topic, .. } => match encoded {
                Ok(frame) => {
                    let sent = self.after_publish(
                        session.target(topic),
                        fate.channel,
                        frame,
                        fate.receivers,
                    );
                    if fate.receivers == 0 {
                        sent.counting(self.metrics.after_drop())
                    } else {
                        sent
                    }
                },
                Err(_) => self.counting(self.metrics.after_protocol_error()).after_error(
                    session.queue,
                    "encode_failed"@,
                    encode_fault(event),
                    fate.reply,
                ),
            },
            ClientEventModel::Direct { to, .. } => match encoded {
                Ok(frame) => {
                    let offered = self.after_direct(to, session.tenant_id, frame, fate.direct);
                    if self.clients.contains_key((session.tenant_id, to)) && fate.direct
                        == SendOutcome::Sent {
                        offered
                    } else {
                        offered.counting(self.metrics.after_drop()).after_error(
                            session.queue,
                            "client_not_found"@,
                            "target client is not online"@,
                            fate.reply,
                        )
                    }
                },
                Err(_) => self.counting(self.metrics.after_protocol_error()).after_error(
                    session.queue,
                    "encode_failed"@,
                    encode_fault(event),
                    fate.reply,
                ),
            },
            ClientEventModel::Ping { .. } => match encoded {
                Ok(frame) => self.after_send(session.queue, frame, fate.reply),
                Err(_) => self.after_error(
                    session.queue,
                    "encode_failed"@,
                    encode_fault(event),
                    fate.reply,
                ),
            },
        }
    }

    /// As `event_possible`, for a message that may not be an event.
    pub open spec fn message_possible(
        self,
        session: SessionModel,
        event: Option<ClientEventModel>,
        encoded: Result<Seq<u8>, EncodeError>,
        fate: Fate,
    ) -> bool {
        event matches Some(event) ==> self.event_possible(session, event, encoded, fate)
    }

    /// The state after a client's message was handled, whether or not it is an event.
    pub open spec fn after_message(
        self,
        session: SessionModel,
        form: Form,
        event: Option<ClientEventModel>,
        encoded: Result<Seq<u8>, EncodeError>,
        fate: Fate,
    ) -> StateModel {
        match event {
            Some(event) => self.after_event(session, event, encoded, fate),
            None => self.counting(self.metrics.after_protocol_error()).after_error(
                session.queue,
                form.fault_code(),
                form.fault_message(),
                fate.reply,
            ),
        }
    }
}

impl StateModel {
    /// Whether handling a client's event may lead to `after`, where encoding what it calls for
    /// came to `encoded`.
    pub open spec fn dispatched(
        self,
        after: StateModel,
        session: SessionModel,
        event: ClientEventModel,
        encoded: Result<Seq<u8>, EncodeError>,
    ) -> bool {
        exists|fate: Fate|
            {
                &&& self.fate_possible(session, event, encoded, fate)
                &&& after == #[trigger] self.after_event(session, event, encoded, fate)
            }
    }

    /// Whether handling a client's event may lead to `after`.
    pub open spec fn event_handled(
        self,
        after: StateModel,
        session: SessionModel,
        event: ClientEventModel,
    ) -> bool {
        exists|encoded: Result<Seq<u8>, EncodeError>, fate: Fate|
            {
                &&& self.event_possible(session, event, encoded, fate)
                &&& after == #[trigger] self.after_event(session, event, encoded, fate)
            }
    }

    /// Whether handling a client's message may lead to `after`.
    pub open spec fn message_handled(
        self,
        after: StateModel,
        session: SessionModel,
        form: Form,
        event: Option<ClientEventModel>,
    ) -> bool {
        exists|encoded: Result<Seq<u8>, EncodeError>, fate: Fate|
            {
                &&& self.message_possible(session, event, encoded, fate)
                &&& after == #[trigger] self.after_message(session, form, event, encoded, fate)
            }
    }
}

/// A fate in which nothing of note happened but an answer.
pub open spec fn only_reply(reply: SendOutcome) -> Fate {
    Fate { channel: arbitrary(), receivers: 0, direct: reply, reply }
}

/// Offers an encoded event to a client. One that is not taken counts as dropped.
pub fn send_encoded(
    client_tx: &mpsc::Sender<OutboundMessage>,
    message: Bytes,
    state: &mut AppState,
) -> (r: bool)
    ensures
        exists|outcome: SendOutcome|
            {
                &&& final(state)@ == #[trigger] old(state)@.after_send(
                    *client_tx,
                    bytes_of(message),
                    outcome,
                )
                &&& r == (outcome == SendOutcome::Sent)
            },
        old(state)@.wf() ==> final(state)@.wf(),
{
    let outcome = state.offer(client_tx, OutboundMessage::Binary(message));
    match outcome {
        SendOutcome::Sent => {
            assert(state@ == old(state)@.after_send(*client_tx, bytes_of(message), outcome));
            true
        },
        _ => {
            state.metrics.message_dropped();
            assert(state@ == old(state)@.after_send(*client_tx, bytes_of(message), outcome));
            false
        },
    }
}

/// Tells a client of an error.
pub fn send_error(
    client_tx: &mpsc::Sender<OutboundMessage>,
    code: &str,
    message: &str,
    state: &mut AppState,
)
    ensures
        exists|outcome: SendOutcome|
            final(state)@ == #[trigger] old(state)@.after_error(
                *client_tx,
                code@,
                message@,
                outcome,
            ),
        old(state)@.wf() ==> final(state)@.wf(),
{
    let event = ServerEvent::Error { code, message };
    match encode_server_event(&event) {
        Ok(encoded) => {
            let _ = send_encoded(client_tx, bytes_from(encoded), state);
            let ghost outcome = choose|outcome: SendOutcome|
                state@ == #[trigger] old(state)@.after_send(
                    *client_tx,
                    event@.frame(),
                    outcome,
                );
            assert(state@ == old(state)@.after_error(*client_tx, code@, message@, outcome));
        },
        Err(_) => {
            assert(state@ == old(state)@.after_error(
                *client_tx,
                code@,
                message@,
                SendOutcome::Closed,
            ));
        },
    }
}

/// The slice of an optional text.
pub(crate) fn text_slice(s: &Option<String>) -> (r: Option<&str>)
    ensures
        slice_view(r) == text_view(*s),
{
    match s {
        Some(s) => Some(s.as_str()),
        None => None,
    }
}

/// Encodes what a client's event calls for.
pub fn encode_outcome(session: &Session, event: &ClientEvent) -> (r: Result<Vec<u8>, EncodeError>)
    ensures
        session@.outcome_of(event@).may_encode(encoded_view(r)),
{
    match event {
        ClientEvent::Publish { topic, request_id, payload } => {
            let key = publish_target(session, topic);
            let message = ServerEvent::Message {
                topic: extract_topic(key.as_str()),
                from: session.client_id.as_str(),
                request_id: text_slice(request_id),
                payload,
            };
            assert(message@ == session@.outcome_of(event@));
            encode_server_event(&message)
        },
        ClientEvent::Direct { to, request_id, payload } => {
            let message = ServerEvent::DirectMessage {
                from: session.client_id.as_str(),
                to: to.as_str(),
                request_id: text_slice(request_id),
                payload,
            };
            assert(message@ == session@.outcome_of(event@));
            encode_server_event(&message)
        },
        ClientEvent::Ping { request_id, payload } => {
            let echoed = match payload {
                Some(payload) => Some(payload),
                None => None,
            };
            let message = ServerEvent::Pong {
                request_id: text_slice(request_id),
                payload: echoed,
            };
            assert(message@ == session@.outcome_of(event@));
            encode_server_event(&message)
        },
    }
}

/// The key of the topic that a publication goes to.
fn publish_target(session: &Session, topic: &Option<String>) -> (r: String)
    ensures
        r@ == session@.target(text_view(*topic)),
{
    match topic {
        Some(topic) => tenant_topic(session.tenant_id.as_str(), normalize_topic(topic).as_str()),
        None => session.topic_key.clone(),
    }
}

/// Handles an event that a client sent.
pub fn handle_client_event(state: &mut AppState, session: &Session, event: ClientEvent)
    requires
        event@ is Publish ==> old(state)@.config.opens_channels(),
    ensures
        old(state)@.event_handled(final(state)@, session@, event@),
        old(state)@.wf() ==> final(state)@.wf(),
{
    let encoded = encode_outcome(session, &event);
    let ghost came_to = encoded_view(encoded);
    dispatch_event(state, session, &event, encoded);
    let ghost fate = choose|fate: Fate|
        {
            &&& old(state)@.fate_possible(session@, event@, came_to, fate)
            &&& state@ == #[trigger] old(state)@.after_event(session@, event@, came_to, fate)
        };
    assert(old(state)@.event_possible(session@, event@, came_to, fate));
}

/// Handles an event that a client sent, where encoding what it calls for came to `encoded`.
pub fn dispatch_event(
    state: &mut AppState,
    session: &Session,
    event: &ClientEvent,
    encoded: Result<Vec<u8>, EncodeError>,
)
    requires
        event@ is Publish && encoded is Ok ==> old(state)@.config.opens_channels(),
    ensures
        old(state)@.dispatched(final(state)@, session@, event@, encoded_view(encoded)),
        old(state)@.wf() ==> final(state)@.wf(),
{
    let ghost came_to = encoded_view(encoded);
    match encoded {
        Err(_) => {
            let ghost mut counted = old(state)@;
            match event {
                ClientEvent::Publish { .. } => {
                    state.metrics.protocol_error();
                    proof {
                        counted = old(state)@.counting(old(state)@.metrics.after_protocol_error());
                        assert(state@ == counted);
                    }
                    send_error(&session.queue, "encode_failed", "failed to encode message", state);
                },
                ClientEvent::Direct { .. } => {
                    state.metrics.protocol_error();
                    proof {
                        counted = old(state)@.counting(old(state)@.metrics.after_protocol_error());
                        assert(state@ == counted);
                    }
                    send_error(
                        &session.queue,
                        "encode_failed",
                        "failed to encode direct message",
                        state,
                    );
                },
                ClientEvent::Ping { .. } => {
                    send_error(&session.queue, "encode_failed", "failed to encode pong", state);
                },
            }
            let ghost reply = choose|reply: SendOutcome|
                state@ == #[trigger] counted.after_error(
                    session.queue,
                    "encode_failed"@,
                    encode_fault(event@),
                    reply,
                );
            assert(state@ == old(state)@.after_event(
                session@,
                event@,
                came_to,
                only_reply(reply),
            ));
        },
        Ok(frame) => match event {
            ClientEvent::Publish { topic, .. } => {
                let key = publish_target(session, topic);
                let receivers: usize = state.publish(key.as_str(), bytes_from(frame));
                let ghost sent = state@;
                let ghost channel = choose|channel: broadcast::Sender<Bytes>|
                    {
                        &&& old(state)@.channel_for(key@, channel)
                        &&& sent == #[trigger] old(state)@.after_publish(
                            key@,
                            channel,
                            frame@,
                            receivers,
                        )
                    };
                if receivers == 0 {
                    state.metrics.message_dropped();
                }
                let ghost fate = Fate { channel, receivers, ..only_reply(SendOutcome::Sent) };
                assert(old(state)@.fate_possible(session@, event@, came_to, fate));
                assert(state@ == old(state)@.after_event(session@, event@, came_to, fate));
            },
            ClientEvent::Direct { to, .. } => {
                let sent = state.send_to_client(
                    to.as_str(),
                    session.tenant_id.as_str(),
                    bytes_from(frame),
                );
                let ghost offered = state@;
                let ghost direct = choose|outcome: SendOutcome|
                    {
                        &&& offered == #[trigger] old(state)@.after_direct(
                            to@,
                            session.tenant_id@,
                            frame@,
                            outcome,
                        )
                        &&& sent == (old(state)@.clients.contains_key((session.tenant_id@, to@))
                            && outcome == SendOutcome::Sent)
                    };
                if sent {
                    let ghost fate = Fate { direct, ..only_reply(SendOutcome::Sent) };
                    assert(state@ == old(state)@.after_event(session@, event@, came_to, fate));
                } else {
                    state.metrics.message_dropped();
                    let ghost counted = state@;
                    send_error(
                        &session.queue,
                        "client_not_found",
                        "target client is not online",
                        state,
                    );
                    let ghost reply = choose|reply: SendOutcome|
                        state@ == #[trigger] counted.after_error(
                            session.queue,
                            "client_not_found"@,
                            "target client is not online"@,
                            reply,
                        );
                    let ghost fate = Fate { direct, ..only_reply(reply) };
                    assert(counted == offered.counting(old(state)@.metrics.after_drop()));
                    assert(state@ == old(state)@.after_event(session@, event@, came_to, fate));
                }
            },
            ClientEvent::Ping { .. } => {
                let _ = send_encoded(&session.queue, bytes_from(frame), state);
                let ghost reply = choose|outcome: SendOutcome|
                    state@ == #[trigger] old(state)@.after_send(session.queue, frame@, outcome);
                assert(state@ == old(state)@.after_event(
                    session@,
                    event@,
                    came_to,
                    only_reply(reply),
                ));
            },
        },
    }
}

/// To handle a message that is an event is to handle the event.
proof fn lemma_event_is_message(
    before: StateModel,
    after: StateModel,
    session: SessionModel,
    form: Form,
    event: ClientEventModel,
)
    requires
        before.event_handled(after, session, event),
    ensures
        before.message_handled(after, session, form, Some(event)),
{
    let (encoded, fate) = choose|encoded: Result<Seq<u8>, EncodeError>, fate: Fate|
        {
            &&& before.event_possible(session, event, encoded, fate)
            &&& after == #[trigger] before.after_event(session, event, encoded, fate)
        };
    assert(after == before.after_message(session, form, Some(event), encoded, fate));
}

/// Whether a message is a publication.
pub open spec fn publishes(event: Option<ClientEventModel>) -> bool {
    event matches Some(event) && event is Publish
}

/// Handles a text message.
pub fn handle_text(state: &mut AppState, session: &Session, text: &str)
    requires
        publishes(event_of_text(text@)) ==> old(state)@.config.opens_channels(),
    ensures
        old(state)@.message_handled(
            final(state)@,
            session@,
            Form::Text,
            event_of_text(text@),
        ),
        old(state)@.wf() ==> final(state)@.wf(),
{
    match parse_client_event(text) {
        Ok(event) => {
            handle_client_event(state, session, event);
            proof {
                lemma_event_is_message(old(state)@, state@, session@, Form::Text, event@);
            }
        },
        Err(_) => {
            refuse_message(state, session, Form::Text);
        },
    }
}

/// Handles a binary message.
pub fn handle_binary(state: &mut AppState, session: &Session, raw: &[u8])
    requires
        publishes(event_of_tree(msgpack_tree(raw@))) ==> old(state)@.config.opens_channels(),
    ensures
        old(state)@.message_handled(
            final(state)@,
            session@,
            Form::Binary,
            event_of_tree(msgpack_tree(raw@)),
        ),
        old(state)@.wf() ==> final(state)@.wf(),
{
    match parse_client_event_binary(raw) {
        Ok(event) => {
            handle_client_event(state, session, event);
            proof {
                lemma_event_is_message(old(state)@, state@, session@, Form::Binary, event@);
            }
        },
        Err(_) => {
            refuse_message(state, session, Form::Binary);
        },
    }
}

/// Answers a message that cannot be read.
fn refuse_message(state: &mut AppState, session: &Session, form: Form)
    ensures
        old(state)@.message_handled(final(state)@, session@, form, None),
        old(state)@.wf() ==> final(state)@.wf(),
{
    state.metrics.protocol_error();
    let ghost counted = state@;
    match form {
        Form::Text => send_error(
            &session.queue,
            "invalid_json",
            "message must match the websocket JSON protocol",
            state,
        ),
        Form::Binary => send_error(
            &session.queue,
            "invalid_msgpack",
            "binary message must match the websocket MessagePack protocol",
            state,
        ),
    }
    let ghost reply = choose|reply: SendOutcome|
        state@ == #[trigger] counted.after_error(
            session.queue,
            form.fault_code(),
            form.fault_message(),
            reply,
        );
    assert(counted == old(state)@.counting(old(state)@.metrics.after_protocol_error()));
    assert(old(state)@.message_possible(session@, None, Ok(seq![]), only_reply(reply)));
    assert(state@ == old(state)@.after_message(
        session@,
        form,
        None,
        Ok(seq![]),
        only_reply(reply),
    ));
}

/// What becomes of a message that is an event is what becomes of the event, in whatever form it came.
pub proof fn law_messages_are_their_events(
    before: StateModel,
    after: StateModel,
    session: SessionModel,
    form: Form,
    event: ClientEventModel,
)
    ensures
        before.message_handled(after, session, form, Some(event)) <==> before.event_handled(
            after,
            session,
            event,
        ),
{
    if before.event_handled(after, session, event) {
        lemma_event_is_message(before, after, session, form, event);
    }
    if before.message_handled(after, session, form, Some(event)) {
        let (encoded, fate) = choose|encoded: Result<Seq<u8>, EncodeError>, fate: Fate|
            {
                &&& before.message_possible(session, Some(event), encoded, fate)
                &&& after == #[trigger] before.after_message(
                    session,
                    form,
                    Some(event),
                    encoded,
                    fate,
                )
            };
        assert(after == before.after_event(session, event, encoded, fate));
    }
}

/// What a client's event calls for carries what the event does: the request id and the payload as they
/// came, from the client itself, to whom the client names, or under the name of the topic that it
/// goes to.
pub proof fn law_outcomes_carry_their_event(
    session: SessionModel,
    text: Seq<char>,
    request_id: Option<Seq<char>>,
    payload: Value,
)
    requires
        !session.tenant_id.contains(':'),
    ensures
        session.outcome_of(
            ClientEventModel::Publish { topic: Some(text), request_id, payload },
        ) == (ServerEventModel::Message {
            topic: normalized(text),
            from: session.client_id,
            request_id,
            payload,
        }),
        session.outcome_of(ClientEventModel::Direct { to: text, request_id, payload }) == (
        ServerEventModel::DirectMessage {
            from: session.client_id,
            to: text,
            request_id,
            payload,
        }),
        session.outcome_of(ClientEventModel::Ping { request_id, payload: Some(payload) }) == (
        ServerEventModel::Pong { request_id, payload: Some(payload) }),
        session.outcome_of(ClientEventModel::Ping { request_id, payload: None }) == (
        ServerEventModel::Pong { request_id, payload: None }),
{
    law_clients_see_their_topic(session.tenant_id, normalized(text));
}

/// A client is told of an error in its own words: one error, with that code and that message, on that
/// client's queue. It counts as dropped where it is not taken.
pub proof fn law_errors_are_told(
    before: StateModel,
    queue: mpsc::Sender<OutboundMessage>,
    code: Seq<char>,
    message: Seq<char>,
    outcome: SendOutcome,
)
    requires
        code.len() <= 0x3fff_ffff,
        message.len() <= 0x3fff_ffff,
    ensures
        ({
            let after = before.after_error(queue, code, message, outcome);
            &&& after.deliveries == before.deliveries.push(
                Delivery::Queued {
                    queue,
                    message: OutboundModel::Binary(
                        (ServerEventModel::Error { code, message }).frame(),
                    ),
                    outcome,
                },
            )
            &&& after.metrics.dropped_messages == (if outcome == SendOutcome::Sent {
                before.metrics.dropped_messages
            } else {
                before.metrics.dropped_messages.wrapping_add(1)
            })
            &&& after == StateModel {
                deliveries: after.deliveries,
                metrics: after.metrics,
                ..before
            }
        }),
{
    law_texts_fit_up_to_four_gibibytes(code);
    law_texts_fit_up_to_four_gibibytes(message);
}

/// An event is handled by encoding what it calls for, from this session and in this state, and by handing
/// on what that came to. A publication that was encoded goes on the channel of the topic that it is
/// for, or on a new one of the configured capacity where the topic has none.
pub proof fn law_events_are_handled_for_their_sender(
    before: StateModel,
    after: StateModel,
    session: SessionModel,
    event: ClientEventModel,
)
    requires
        before.event_handled(after, session, event),
    ensures
        exists|encoded: Result<Seq<u8>, EncodeError>, fate: Fate|
            {
                &&& session.outcome_of(event).may_encode(encoded)
                &&& after == #[trigger] before.after_event(session, event, encoded, fate)
                &&& event matches ClientEventModel::Publish { topic, .. } ==> encoded is Ok ==> {
                    let key = match topic {
                        Some(topic) => session.tenant_id + seq![':'] + normalized(topic),
                        None => session.topic_key,
                    };
                    if before.topics.contains_key(key) {
                        fate.channel == before.topics[key]
                    } else {
                        !channel_known(before.deliveries, fate.channel) && channel_capacity(
                            fate.channel,
                        ) == before.config.topic_channel_capacity
                    }
                }
            },
        before.deliveries.is_prefix_of(after.deliveries),
{
    let (encoded, fate) = choose|encoded: Result<Seq<u8>, EncodeError>, fate: Fate|
        {
            &&& before.event_possible(session, event, encoded, fate)
            &&& after == #[trigger] before.after_event(session, event, encoded, fate)
        };
    assert(after == before.after_event(session, event, encoded, fate));
}

/// What becomes of an event does not depend on how its outcome was encoded but through what that came to.
pub proof fn law_dispatch_follows_the_encoding(
    before: StateModel,
    after: StateModel,
    session: SessionModel,
    event: ClientEventModel,
    encoded: Result<Seq<u8>, EncodeError>,
)
    requires
        session.outcome_of(event).may_encode(encoded),
        before.dispatched(after, session, event, encoded),
    ensures
        before.event_handled(after, session, event),
{
    let fate = choose|fate: Fate|
        {
            &&& before.fate_possible(session, event, encoded, fate)
            &&& after == #[trigger] before.after_event(session, event, encoded, fate)
        };
    assert(before.event_possible(session, event, encoded, fate));
}

} // verus!
