//! The messages between client and server: what a client may send, what the server answers, and
//! the bytes of either.
use serde_json::Value;
use vstd::prelude::*;
use vstd::utf8::encode_utf8;

use crate::json::json_model;
use crate::json::json_element;
use crate::json::json_member;
use crate::json::json_tree;
use crate::json::member;
use crate::json::msgpack_tree;
use crate::json::msgpack_value;
use crate::json::optional_text;
use crate::json::pack_value;
use crate::json::parse_json;
use crate::json::parse_msgpack;
use crate::json::read_json_element;
use crate::json::read_json_member;
use crate::json::read_optional_text;
use crate::json::text_view;
use crate::json::JsonModel;
use crate::members::is_repeated;
use crate::members::member_names;
use crate::members::read_member_names;
use crate::members::repeats;
use crate::members::unmarked;
use crate::members::without_marker;
use crate::msgpack::fits;
use crate::msgpack::law_optional_strings_are_self_delimiting;
use crate::msgpack::law_strings_are_self_delimiting;
use crate::msgpack::law_texts_fit_up_to_four_gibibytes;
use crate::msgpack::lemma_utf8_len;
use crate::msgpack::optional_fits;
use crate::msgpack::pack_optional_str;
use crate::msgpack::pack_str;
use crate::msgpack::push_optional_str;
use crate::msgpack::push_str;
use crate::msgpack::slice_view;
use crate::msgpack::NIL;
use crate::text::same_text;

verus! {

/// What a client may send.
#[derive(Debug)]
#[allow(inconsistent_fields)]
pub enum ClientEvent {
    /// A message for a topic, for the topic of the connection where none is named.
    Publish { topic: Option<String>, request_id: Option<String>, payload: Value },
    /// A message for one client.
    Direct { to: String, request_id: Option<String>, payload: Value },
    /// A sign of life, to be echoed.
    Ping { request_id: Option<String>, payload: Option<Value> },
}

/// What a client event says.
#[verifier::ext_equal]
#[allow(inconsistent_fields)]
pub enum ClientEventModel {
    Publish { topic: Option<Seq<char>>, request_id: Option<Seq<char>>, payload: Value },
    Direct { to: Seq<char>, request_id: Option<Seq<char>>, payload: Value },
    Ping { request_id: Option<Seq<char>>, payload: Option<Value> },
}

impl View for ClientEvent {
    type V = ClientEventModel;

    open spec fn view(&self) -> ClientEventModel {
        match *self {
            ClientEvent::Publish { topic, request_id, payload } => ClientEventModel::Publish {
                topic: text_view(topic),
                request_id: text_view(request_id),
                payload,
            },
            ClientEvent::Direct { to, request_id, payload } => ClientEventModel::Direct {
                to: to@,
                request_id: text_view(request_id),
                payload,
            },
            ClientEvent::Ping { request_id, payload } => ClientEventModel::Ping {
                request_id: text_view(request_id),
                payload,
            },
        }
    }
}

/// What the server sends.
#[derive(Debug)]
#[allow(inconsistent_fields)]
pub enum ServerEvent<'a> {
    /// The connection is open.
    Ready { topic: &'a str, client_id: &'a str },
    /// Somebody published on a topic.
    Message { topic: &'a str, from: &'a str, request_id: Option<&'a str>, payload: &'a Value },
    /// Somebody wrote to this client.
    DirectMessage { from: &'a str, to: &'a str, request_id: Option<&'a str>, payload: &'a Value },
    /// The echo of a ping.
    Pong { request_id: Option<&'a str>, payload: Option<&'a Value> },
    /// A request failed.
    Error { code: &'a str, message: &'a str },
}

/// What a server event says.
#[verifier::ext_equal]
#[allow(inconsistent_fields)]
pub enum ServerEventModel {
    Ready { topic: Seq<char>, client_id: Seq<char> },
    Message {
        topic: Seq<char>,
        from: Seq<char>,
        request_id: Option<Seq<char>>,
        payload: Value,
    },
    DirectMessage {
        from: Seq<char>,
        to: Seq<char>,
        request_id: Option<Seq<char>>,
        payload: Value,
    },
    Pong { request_id: Option<Seq<char>>, payload: Option<Value> },
    Error { code: Seq<char>, message: Seq<char> },
}

/// The tree behind an optional reference.
pub open spec fn value_view(v: Option<&Value>) -> Option<Value> {
    match v {
        Some(v) => Some(*v),
        None => None,
    }
}

impl<'a> View for ServerEvent<'a> {
    type V = ServerEventModel;

    open spec fn view(&self) -> ServerEventModel {
        match *self {
            ServerEvent::Ready { topic, client_id } => ServerEventModel::Ready {
                topic: topic@,
                client_id: client_id@,
            },
            ServerEvent::Message { topic, from, request_id, payload } => ServerEventModel::Message {
                topic: topic@,
                from: from@,
                request_id: slice_view(request_id),
                payload: *payload,
            },
            ServerEvent::DirectMessage { from, to, request_id, payload } => {
                ServerEventModel::DirectMessage {
                    from: from@,
                    to: to@,
                    request_id: slice_view(request_id),
                    payload: *payload,
                }
            },
            ServerEvent::Pong { request_id, payload } => ServerEventModel::Pong {
                request_id: slice_view(request_id),
                payload: value_view(payload),
            },
            ServerEvent::Error { code, message } => ServerEventModel::Error {
                code: code@,
                message: message@,
            },
        }
    }
}

/// Why a server event has no frame.
#[derive(Debug)]
pub enum EncodeError {
    /// A text in it is longer than MessagePack allows.
    TextTooLong,
    /// Its payload could not be encoded, for this reason.
    Payload(rmp_serde::encode::Error),
}

/// Why bytes from a client are no event.
#[derive(Clone, Copy, Debug, PartialEq, Eq, Structural)]
pub enum ParseError {
    /// A text message is not JSON of the right shape.
    InvalidJson,
    /// A binary message is not MessagePack of the right shape.
    InvalidMsgpack,
}

impl ServerEventModel {
    /// Every text in the event is short enough to be encoded.
    pub open spec fn texts_fit(self) -> bool {
        match self {
            ServerEventModel::Ready { topic, client_id } => fits(topic) && fits(client_id),
            ServerEventModel::Message { topic, from, request_id, .. } => fits(topic) && fits(from)
                && optional_fits(request_id),
            ServerEventModel::DirectMessage { from, to, request_id, .. } => fits(from) && fits(to)
                && optional_fits(request_id),
            ServerEventModel::Pong { request_id, .. } => optional_fits(request_id),
            ServerEventModel::Error { code, message } => fits(code) && fits(message),
        }
    }

    /// The payload of the event.
    pub open spec fn payload(self) -> Option<Value> {
        match self {
            ServerEventModel::Message { payload, .. } => Some(payload),
            ServerEventModel::DirectMessage { payload, .. } => Some(payload),
            ServerEventModel::Pong { payload, .. } => payload,
            _ => None,
        }
    }

    /// The bytes of the payload: `NIL` for one that is left out.
    pub open spec fn packed_payload(self) -> Seq<u8> {
        match self.payload() {
            Some(v) => msgpack_value(v),
            None => seq![NIL],
        }
    }

    /// The bytes of the event: a MessagePack map whose first entry, `kind`, tells the variant,
    /// and whose other entries are the fields in their order.
    pub open spec fn frame(self) -> Seq<u8> {
        self.frame_with(self.packed_payload())
    }

    /// The bytes of the event where `packed` stands for its payload.
    pub open spec fn frame_with(self, packed: Seq<u8>) -> Seq<u8> {
        match self {
            ServerEventModel::Ready { topic, client_id } => {
                seq![0x83u8] + pack_str("kind"@) + pack_str("ready"@) + pack_str("topic"@)
                    + pack_str(topic) + pack_str("client_id"@) + pack_str(client_id)
            },
            ServerEventModel::Message { topic, from, request_id, .. } => {
                seq![0x85u8] + pack_str("kind"@) + pack_str("message"@) + pack_str("topic"@)
                    + pack_str(topic) + pack_str("from"@) + pack_str(from) + pack_str(
                    "request_id"@,
                ) + pack_optional_str(request_id) + pack_str("payload"@) + packed
            },
            ServerEventModel::DirectMessage { from, to, request_id, .. } => {
                seq![0x85u8] + pack_str("kind"@) + pack_str("direct_message"@) + pack_str("from"@)
                    + pack_str(from) + pack_str("to"@) + pack_str(to) + pack_str("request_id"@)
                    + pack_optional_str(request_id) + pack_str("payload"@) + packed
            },
            ServerEventModel::Pong { request_id, .. } => {
                seq![0x83u8] + pack_str("kind"@) + pack_str("pong"@) + pack_str("request_id"@)
                    + pack_optional_str(request_id) + pack_str("payload"@) + packed
            },
            ServerEventModel::Error { code, message } => {
                seq![0x83u8] + pack_str("kind"@) + pack_str("error"@) + pack_str("code"@)
                    + pack_str(code) + pack_str("message"@) + pack_str(message)
            },
        }
    }
}

/// What encoding an event came to.
pub open spec fn encoded_view(r: Result<Vec<u8>, EncodeError>) -> Result<Seq<u8>, EncodeError> {
    match r {
        Ok(bytes) => Ok(bytes@),
        Err(e) => Err(e),
    }
}

impl ServerEventModel {
    /// Whether encoding the event may come to this: to its frame, where its texts fit; to a fault
    /// of the payload only where it has one.
    pub open spec fn may_encode(self, encoded: Result<Seq<u8>, EncodeError>) -> bool {
        match encoded {
            Ok(bytes) => self.texts_fit() && bytes == self.frame(),
            Err(EncodeError::TextTooLong) => !self.texts_fit(),
            Err(EncodeError::Payload(_)) => self.texts_fit() && self.payload() is Some,
        }
    }

    /// What encoding the event comes to, where its payload was packed to `packed`, or could not
    /// be.
    pub open spec fn assembled(
        self,
        packed: Result<Seq<u8>, rmp_serde::encode::Error>,
    ) -> Result<Seq<u8>, EncodeError> {
        if !self.texts_fit() {
            Err(EncodeError::TextTooLong)
        } else {
            match packed {
                Ok(packed) => Ok(self.frame_with(packed)),
                Err(e) => Err(EncodeError::Payload(e)),
            }
        }
    }
}

/// What packing a payload came to.
pub open spec fn packed_view(packed: Result<Vec<u8>, rmp_serde::encode::Error>) -> Result<
    Seq<u8>,
    rmp_serde::encode::Error,
> {
    match packed {
        Ok(packed) => Ok(packed@),
        Err(e) => Err(e),
    }
}

/// Appends a name of the protocol. Its names are a few characters long.
fn push_name(out: &mut Vec<u8>, name: &str)
    requires
        name@.len() <= 64,
    ensures
        final(out)@ == old(out)@ + pack_str(name@),
{
    proof {
        lemma_utf8_len(name@);
    }
    let _ = push_str(out, name);
}

/// Packs the payload of an event: `NIL` where it has none.
fn pack_payload(payload: Option<&Value>) -> (r: Result<Vec<u8>, rmp_serde::encode::Error>)
    ensures
        r matches Ok(bytes) ==> bytes@ == (match payload {
            Some(v) => msgpack_value(*v),
            None => seq![NIL],
        }),
        payload is None ==> r is Ok,
{
    match payload {
        Some(v) => pack_value(v),
        None => {
            let mut bytes: Vec<u8> = Vec::new();
            bytes.push(NIL);
            assert(bytes@ =~= seq![NIL]);
            Ok(bytes)
        },
    }
}

/// The frame of a server event.
pub fn encode_server_event(event: &ServerEvent<'_>) -> (r: Result<Vec<u8>, EncodeError>)
    ensures
        event@.may_encode(encoded_view(r)),
{
    let payload = match event {
        ServerEvent::Message { payload, .. } => Some(*payload),
        ServerEvent::DirectMessage { payload, .. } => Some(*payload),
        ServerEvent::Pong { payload, .. } => *payload,
        _ => None,
    };
    assert(value_view(payload) == event@.payload());
    assemble_event(event, pack_payload(payload))
}

/// The frame of a server event, where its payload was packed to `packed`, or could not be.
pub fn assemble_event(
    event: &ServerEvent<'_>,
    packed: Result<Vec<u8>, rmp_serde::encode::Error>,
) -> (r: Result<Vec<u8>, EncodeError>)
    ensures
        encoded_view(r) == event@.assembled(packed_view(packed)),
{
    proof {
        reveal_strlit("kind");
        reveal_strlit("ready");
        reveal_strlit("message");
        reveal_strlit("direct_message");
        reveal_strlit("pong");
        reveal_strlit("error");
        reveal_strlit("topic");
        reveal_strlit("client_id");
        reveal_strlit("from");
        reveal_strlit("to");
        reveal_strlit("request_id");
        reveal_strlit("payload");
        reveal_strlit("code");
    }
    let none: Vec<u8> = Vec::new();
    let tail: &[u8] = match &packed {
        Ok(packed) => packed.as_slice(),
        Err(_) => none.as_slice(),
    };
    let mut out: Vec<u8> = Vec::new();
    match event {
        ServerEvent::Ready { topic, client_id } => {
            out.push(0x83);
            push_name(&mut out, "kind");
            push_name(&mut out, "ready");
            push_name(&mut out, "topic");
            if !push_str(&mut out, topic) {
                return Err(EncodeError::TextTooLong);
            }
            push_name(&mut out, "client_id");
            if !push_str(&mut out, client_id) {
                return Err(EncodeError::TextTooLong);
            }
        },
        ServerEvent::Message { topic, from, request_id, .. } => {
            out.push(0x85);
            push_name(&mut out, "kind");
            push_name(&mut out, "message");
            push_name(&mut out, "topic");
            if !push_str(&mut out, topic) {
                return Err(EncodeError::TextTooLong);
            }
            push_name(&mut out, "from");
            if !push_str(&mut out, from) {
                return Err(EncodeError::TextTooLong);
            }
            push_name(&mut out, "request_id");
            if !push_optional_str(&mut out, *request_id) {
                return Err(EncodeError::TextTooLong);
            }
            push_name(&mut out, "payload");
            out.extend_from_slice(tail);
        },
        ServerEvent::DirectMessage { from, to, request_id, .. } => {
            out.push(0x85);
            push_name(&mut out, "kind");
            push_name(&mut out, "direct_message");
            push_name(&mut out, "from");
            if !push_str(&mut out, from) {
                return Err(EncodeError::TextTooLong);
            }
            push_name(&mut out, "to");
            if !push_str(&mut out, to) {
                return Err(EncodeError::TextTooLong);
            }
            push_name(&mut out, "request_id");
            if !push_optional_str(&mut out, *request_id) {
                return Err(EncodeError::TextTooLong);
            }
            push_name(&mut out, "payload");
            out.extend_from_slice(tail);
        },
        ServerEvent::Pong { request_id, .. } => {
            out.push(0x83);
            push_name(&mut out, "kind");
            push_name(&mut out, "pong");
            push_name(&mut out, "request_id");
            if !push_optional_str(&mut out, *request_id) {
                return Err(EncodeError::TextTooLong);
            }
            push_name(&mut out, "payload");
            out.extend_from_slice(tail);
        },
        ServerEvent::Error { code, message } => {
            out.push(0x83);
            push_name(&mut out, "kind");
            push_name(&mut out, "error");
            push_name(&mut out, "code");
            if !push_str(&mut out, code) {
                return Err(EncodeError::TextTooLong);
            }
            push_name(&mut out, "message");
            if !push_str(&mut out, message) {
                return Err(EncodeError::TextTooLong);
            }
        },
    }
    assert(out@ =~= event@.frame_with(tail@));
    match packed {
        Ok(_) => Ok(out),
        Err(e) => Err(EncodeError::Payload(e)),
    }
}

/// A field of an event that came as a tree: the member of that name, or, where the tree is an
/// array, the element at that place.
pub open spec fn event_field(v: Value, name: Seq<char>, place: int) -> Option<Value> {
    match json_model(v).elements() {
        Some(elements) => if place < elements.len() {
            Some(elements[place])
        } else {
            None
        },
        None => json_model(v).member(name),
    }
}

/// An event that came as an array has this many elements, its kind among them.
pub open spec fn has_places(v: Value, places: int) -> bool {
    json_model(v).elements() matches Some(elements) ==> elements.len() == places
}

/// A payload that may be missing: none where it is absent or `null`.
pub open spec fn optional_value(v: Option<Value>) -> Option<Value> {
    match v {
        Some(v) => if json_model(v) is Null {
            None
        } else {
            Some(v)
        },
        None => None,
    }
}

/// The text of a field that has to be one.
pub open spec fn required_text(v: Option<Value>) -> Option<Seq<char>> {
    match v {
        Some(v) => json_model(v).text(),
        None => None,
    }
}

/// The event that a tree stands for. Its `kind` names the variant; fields that the variant does
/// not have are ignored.
pub open spec fn client_event_of(v: Value) -> Option<ClientEventModel> {
    match required_text(event_field(v, "kind"@, 0)) {
        None => None,
        Some(kind) => if kind == "publish"@ {
            publish_of(v)
        } else if kind == "direct"@ {
            direct_of(v)
        } else if kind == "ping"@ {
            ping_of(v)
        } else {
            None
        },
    }
}

/// The publication that a tree stands for: a payload, and perhaps a topic and a request id.
pub open spec fn publish_of(v: Value) -> Option<ClientEventModel> {
    let topic = optional_text(event_field(v, "topic"@, 1));
    let request_id = optional_text(event_field(v, "request_id"@, 2));
    let payload = event_field(v, "payload"@, 3);
    if has_places(v, 4) && topic is Some && request_id is Some && payload is Some {
        Some(
            ClientEventModel::Publish {
                topic: topic->0,
                request_id: request_id->0,
                payload: payload->0,
            },
        )
    } else {
        None
    }
}

/// The direct message that a tree stands for: an addressee, a payload, and perhaps a request id.
pub open spec fn direct_of(v: Value) -> Option<ClientEventModel> {
    let to = required_text(event_field(v, "to"@, 1));
    let request_id = optional_text(event_field(v, "request_id"@, 2));
    let payload = event_field(v, "payload"@, 3);
    if has_places(v, 4) && to is Some && request_id is Some && payload is Some {
        Some(
            ClientEventModel::Direct {
                to: to->0,
                request_id: request_id->0,
                payload: payload->0,
            },
        )
    } else {
        None
    }
}

/// The ping that a tree stands for: perhaps a request id, perhaps a payload.
pub open spec fn ping_of(v: Value) -> Option<ClientEventModel> {
    let request_id = optional_text(event_field(v, "request_id"@, 1));
    let payload = event_field(v, "payload"@, 2);
    if has_places(v, 3) && request_id is Some {
        Some(
            ClientEventModel::Ping {
                request_id: request_id->0,
                payload: optional_value(payload),
            },
        )
    } else {
        None
    }
}

/// The view of an optional event.
pub open spec fn event_view(e: Option<ClientEvent>) -> Option<ClientEventModel> {
    match e {
        Some(e) => Some(e@),
        None => None,
    }
}

fn field_of<'a>(v: &'a Value, name: &str, place: usize) -> (r: Option<&'a Value>)
    ensures
        value_view(r) == event_field(*v, name@, place as int),
{
    match v.as_array() {
        Some(elements) => {
            if place < elements.len() {
                Some(&elements[place])
            } else {
                None
            }
        },
        None => member(v, name),
    }
}

fn places_are(v: &Value, places: usize) -> (r: bool)
    ensures
        r == has_places(*v, places as int),
{
    match v.as_array() {
        Some(elements) => elements.len() == places,
        None => true,
    }
}

fn read_publish(v: &Value) -> (r: Option<ClientEvent>)
    ensures
        event_view(r) == publish_of(*v),
{
    if !places_are(v, 4) {
        return None;
    }
    let topic = read_optional_text(field_of(v, "topic", 1));
    let request_id = read_optional_text(field_of(v, "request_id", 2));
    let payload = field_of(v, "payload", 3);
    match (topic, request_id, payload) {
        (Some(topic), Some(request_id), Some(payload)) => Some(
            ClientEvent::Publish { topic, request_id, payload: payload.clone() },
        ),
        _ => None,
    }
}

fn read_direct(v: &Value) -> (r: Option<ClientEvent>)
    ensures
        event_view(r) == direct_of(*v),
{
    if !places_are(v, 4) {
        return None;
    }
    let to = match field_of(v, "to", 1) {
        Some(to) => to.as_str(),
        None => None,
    };
    let request_id = read_optional_text(field_of(v, "request_id", 2));
    let payload = field_of(v, "payload", 3);
    match (to, request_id, payload) {
        (Some(to), Some(request_id), Some(payload)) => Some(
            ClientEvent::Direct { to: to.to_owned(), request_id, payload: payload.clone() },
        ),
        _ => None,
    }
}

fn read_ping(v: &Value) -> (r: Option<ClientEvent>)
    ensures
        event_view(r) == ping_of(*v),
{
    if !places_are(v, 3) {
        return None;
    }
    let payload = match field_of(v, "payload", 2) {
        Some(payload) => {
            if payload.is_null() {
                None
            } else {
                Some(payload.clone())
            }
        },
        None => None,
    };
    match read_optional_text(field_of(v, "request_id", 1)) {
        Some(request_id) => Some(ClientEvent::Ping { request_id, payload }),
        None => None,
    }
}

/// Reads a client event from a tree.
pub fn client_event_from_value(v: &Value) -> (r: Option<ClientEvent>)
    ensures
        event_view(r) == client_event_of(*v),
{
    let kind = match field_of(v, "kind", 0) {
        Some(kind) => kind.as_str(),
        None => None,
    };
    match kind {
        None => None,
        Some(kind) => {
            if same_text(kind, "publish") {
                read_publish(v)
            } else if same_text(kind, "direct") {
                read_direct(v)
            } else if same_text(kind, "ping") {
                read_ping(v)
            } else {
                None
            }
        },
    }
}

/// The event that a parse came to, where it came to a tree and the tree is an event.
pub open spec fn event_of_tree(v: Option<Value>) -> Option<ClientEventModel> {
    match v {
        Some(v) => client_event_of(v),
        None => None,
    }
}

/// Whether the names of a text's members hold one of the event's fields, or its kind, twice.
pub open spec fn gives_twice(names: Seq<Option<Seq<char>>>, event: ClientEventModel) -> bool {
    ||| repeats(names, "kind"@)
    ||| repeats(names, "request_id"@)
    ||| repeats(names, "payload"@)
    ||| event is Publish && repeats(names, "topic"@)
    ||| event is Direct && repeats(names, "to"@)
}

/// The place of the payload in an event that comes as an array.
pub open spec fn payload_place(event: ClientEventModel) -> usize {
    match event {
        ClientEventModel::Publish { .. } => 3,
        ClientEventModel::Direct { .. } => 3,
        ClientEventModel::Ping { .. } => 2,
    }
}

/// The tree that the text of an event's payload stands for, by itself. The payload has a name, or, in
/// an array, a place.
pub open spec fn own_payload(raw: Seq<char>, place: usize) -> Option<Value> {
    let text = match json_member(raw, "payload"@) {
        Some(text) => text,
        None => match json_element(raw, place) {
            Some(text) => text,
            None => None,
        },
    };
    match text {
        Some(text) => json_tree(text),
        None => None,
    }
}

/// The event whose payload is the tree that the payload's own text stands for. An event without a
/// payload stays as it is.
pub open spec fn with_own_payload(raw: Seq<char>, event: ClientEventModel) -> Option<
    ClientEventModel,
> {
    match (event, own_payload(raw, payload_place(event))) {
        (ClientEventModel::Ping { payload: None, .. }, _) => Some(event),
        (ClientEventModel::Ping { request_id, .. }, Some(payload)) => Some(
            ClientEventModel::Ping { request_id, payload: Some(payload) },
        ),
        (ClientEventModel::Publish { topic, request_id, .. }, Some(payload)) => Some(
            ClientEventModel::Publish { topic, request_id, payload },
        ),
        (ClientEventModel::Direct { to, request_id, .. }, Some(payload)) => Some(
            ClientEventModel::Direct { to, request_id, payload },
        ),
        (_, None) => None,
    }
}

/// The event that a text stands for: JSON of the right shape that gives nothing twice. Its payload is
/// whatever tree the payload's text stands for; everywhere else an object is just an object, whatever
/// its members are called.
pub open spec fn event_of_text(raw: Seq<char>) -> Option<ClientEventModel> {
    match event_of_tree(json_tree(unmarked(raw))) {
        Some(event) => if gives_twice(member_names(raw), event) {
            None
        } else if unmarked(raw) == raw {
            Some(event)
        } else {
            with_own_payload(raw, event)
        },
        None => None,
    }
}

/// Reads the tree that the text of an event's payload stands for.
fn read_own_payload(raw: &str, place: usize) -> (r: Option<Value>)
    ensures
        r == own_payload(raw@, place),
{
    let text = match read_json_member(raw, "payload") {
        Ok(text) => text,
        Err(_) => match read_json_element(raw, place) {
            Ok(text) => text,
            Err(_) => None,
        },
    };
    match text {
        Some(text) => match parse_json(text.as_str()) {
            Ok(v) => Some(v),
            Err(_) => None,
        },
        None => None,
    }
}

/// Gives an event the payload that its text stands for.
fn reread_payload(raw: &str, event: ClientEvent) -> (r: Option<ClientEvent>)
    ensures
        event_view(r) == with_own_payload(raw@, event@),
{
    match event {
        ClientEvent::Publish { topic, request_id, .. } => match read_own_payload(raw, 3) {
            Some(payload) => Some(ClientEvent::Publish { topic, request_id, payload }),
            None => None,
        },
        ClientEvent::Direct { to, request_id, .. } => match read_own_payload(raw, 3) {
            Some(payload) => Some(ClientEvent::Direct { to, request_id, payload }),
            None => None,
        },
        ClientEvent::Ping { request_id, payload: None } => Some(
            ClientEvent::Ping { request_id, payload: None },
        ),
        ClientEvent::Ping { request_id, payload: Some(_) } => match read_own_payload(raw, 2) {
            Some(own) => Some(ClientEvent::Ping { request_id, payload: Some(own) }),
            None => None,
        },
    }
}

/// Reads a text message.
pub fn parse_client_event(raw: &str) -> (r: Result<ClientEvent, ParseError>)
    ensures
        match r {
            Ok(event) => event_of_text(raw@) == Some(event@),
            Err(e) => event_of_text(raw@) is None && e == ParseError::InvalidJson,
        },
{
    let plain = without_marker(raw);
    let event = match parse_json(plain.as_str()) {
        Ok(v) => match client_event_from_value(&v) {
            Some(event) => event,
            None => {
                return Err(ParseError::InvalidJson);
            },
        },
        Err(_) => {
            return Err(ParseError::InvalidJson);
        },
    };
    let names = read_member_names(raw);
    let own = match &event {
        ClientEvent::Publish { .. } => is_repeated(&names, "topic"),
        ClientEvent::Direct { .. } => is_repeated(&names, "to"),
        ClientEvent::Ping { .. } => false,
    };
    if own || is_repeated(&names, "kind") || is_repeated(&names, "request_id") || is_repeated(
        &names,
        "payload",
    ) {
        return Err(ParseError::InvalidJson);
    }
    if same_text(plain.as_str(), raw) {
        return Ok(event);
    }
    match reread_payload(raw, event) {
        Some(event) => Ok(event),
        None => Err(ParseError::InvalidJson),
    }
}

/// Reads a binary message.
pub fn parse_client_event_binary(raw: &[u8]) -> (r: Result<ClientEvent, ParseError>)
    ensures
        match r {
            Ok(event) => event_of_tree(msgpack_tree(raw@)) == Some(event@),
            Err(e) => event_of_tree(msgpack_tree(raw@)) is None && e == ParseError::InvalidMsgpack,
        },
{
    match parse_msgpack(raw) {
        Ok(v) => match client_event_from_value(&v) {
            Some(event) => Ok(event),
            None => Err(ParseError::InvalidMsgpack),
        },
        Err(_) => Err(ParseError::InvalidMsgpack),
    }
}

impl ServerEventModel {
    /// The name of the variant, as the frame gives it.
    pub open spec fn kind(self) -> Seq<char> {
        match self {
            ServerEventModel::Ready { .. } => "ready"@,
            ServerEventModel::Message { .. } => "message"@,
            ServerEventModel::DirectMessage { .. } => "direct_message"@,
            ServerEventModel::Pong { .. } => "pong"@,
            ServerEventModel::Error { .. } => "error"@,
        }
    }

    /// What follows the kind in the frame.
    spec fn fields(self) -> Seq<u8> {
        let packed = self.packed_payload();
        match self {
            ServerEventModel::Ready { topic, client_id } => {
                pack_str("topic"@) + (pack_str(topic) + (pack_str("client_id"@) + (pack_str(
                    client_id,
                ) + seq![])))
            },
            ServerEventModel::Message { topic, from, request_id, .. } => {
                pack_str("topic"@) + (pack_str(topic) + (pack_str("from"@) + (pack_str(from) + (
                pack_str("request_id"@) + (pack_optional_str(request_id) + (pack_str("payload"@)
                    + packed))))))
            },
            ServerEventModel::DirectMessage { from, to, request_id, .. } => {
                pack_str("from"@) + (pack_str(from) + (pack_str("to"@) + (pack_str(to) + (pack_str(
                    "request_id"@,
                ) + (pack_optional_str(request_id) + (pack_str("payload"@) + packed))))))
            },
            ServerEventModel::Pong { request_id, .. } => {
                pack_str("request_id"@) + (pack_optional_str(request_id) + (pack_str("payload"@)
                    + packed))
            },
            ServerEventModel::Error { code, message } => {
                pack_str("code"@) + (pack_str(code) + (pack_str("message"@) + (pack_str(message)
                    + seq![])))
            },
        }
    }

    proof fn lemma_frame_parts(self)
        ensures
            self.frame().skip(1) == pack_str("kind"@) + (pack_str(self.kind()) + self.fields()),
    {
        let packed = self.packed_payload();
        let key = pack_str("kind"@);
        let kind = pack_str(self.kind());
        match self {
            ServerEventModel::Ready { topic, client_id } => lemma_regroup_short(
                0x83,
                key,
                kind,
                pack_str("topic"@),
                pack_str(topic),
                pack_str("client_id"@),
                pack_str(client_id),
            ),
            ServerEventModel::Message { topic, from, request_id, .. } => lemma_regroup_long(
                0x85,
                key,
                kind,
                pack_str("topic"@),
                pack_str(topic),
                pack_str("from"@),
                pack_str(from),
                pack_str("request_id"@),
                pack_optional_str(request_id),
                pack_str("payload"@),
                packed,
            ),
            ServerEventModel::DirectMessage { from, to, request_id, .. } => lemma_regroup_long(
                0x85,
                key,
                kind,
                pack_str("from"@),
                pack_str(from),
                pack_str("to"@),
                pack_str(to),
                pack_str("request_id"@),
                pack_optional_str(request_id),
                pack_str("payload"@),
                packed,
            ),
            ServerEventModel::Pong { request_id, .. } => {
                lemma_regroup_short(
                    0x83,
                    key,
                    kind,
                    pack_str("request_id"@),
                    pack_optional_str(request_id),
                    pack_str("payload"@),
                    packed,
                );
                assert(packed + seq![] =~= packed);
            },
            ServerEventModel::Error { code, message } => lemma_regroup_short(
                0x83,
                key,
                kind,
                pack_str("code"@),
                pack_str(code),
                pack_str("message"@),
                pack_str(message),
            ),
        }
    }

    /// Whether two events are of one kind, with the same texts and the same bytes for a payload.
    pub open spec fn alike(self, other: ServerEventModel) -> bool {
        match (self, other) {
            (
                ServerEventModel::Ready { topic, client_id },
                ServerEventModel::Ready { topic: other_topic, client_id: other_client },
            ) => topic == other_topic && client_id == other_client,
            (
                ServerEventModel::Message { topic, from, request_id, .. },
                ServerEventModel::Message {
                    topic: other_topic,
                    from: other_from,
                    request_id: other_id,
                    ..
                },
            ) => topic == other_topic && from == other_from && request_id == other_id
                && self.packed_payload() == other.packed_payload(),
            (
                ServerEventModel::DirectMessage { from, to, request_id, .. },
                ServerEventModel::DirectMessage {
                    from: other_from,
                    to: other_to,
                    request_id: other_id,
                    ..
                },
            ) => from == other_from && to == other_to && request_id == other_id
                && self.packed_payload() == other.packed_payload(),
            (
                ServerEventModel::Pong { request_id, .. },
                ServerEventModel::Pong { request_id: other_id, .. },
            ) => request_id == other_id && self.packed_payload() == other.packed_payload(),
            (
                ServerEventModel::Error { code, message },
                ServerEventModel::Error { code: other_code, message: other_message },
            ) => code == other_code && message == other_message,
            _ => false,
        }
    }
}

proof fn lemma_regroup_short(
    head: u8,
    a: Seq<u8>,
    b: Seq<u8>,
    c: Seq<u8>,
    d: Seq<u8>,
    e: Seq<u8>,
    f: Seq<u8>,
)
    ensures
        (seq![head] + a + b + c + d + e + f).skip(1) == a + (b + (c + (d + (e + (f + seq![]))))),
{
    assert((seq![head] + a + b + c + d + e + f).skip(1) =~= a + (b + (c + (d + (e + (f
        + seq![]))))));
}

proof fn lemma_regroup_long(
    head: u8,
    a: Seq<u8>,
    b: Seq<u8>,
    c: Seq<u8>,
    d: Seq<u8>,
    e: Seq<u8>,
    f: Seq<u8>,
    g: Seq<u8>,
    h: Seq<u8>,
    i: Seq<u8>,
    j: Seq<u8>,
)
    ensures
        (seq![head] + a + b + c + d + e + f + g + h + i + j).skip(1) == a + (b + (c + (d + (e + (f
            + (g + (h + (i + j)))))))),
{
    let front = seq![head] + a + b + c + d + e;
    assert(front + f + g + h + i + j =~= front + (f + (g + (h + (i + j)))));
    lemma_regroup_short(head, a, b, c, d, e, f + (g + (h + (i + j))));
    assert((f + (g + (h + (i + j)))) + seq![] =~= f + (g + (h + (i + j))));
}

/// The names of the protocol are short enough to be encoded, and no two kinds share one.
proof fn lemma_names()
    ensures
        fits("kind"@) && fits("topic"@) && fits("client_id"@) && fits("from"@) && fits("to"@),
        fits("request_id"@) && fits("payload"@) && fits("code"@) && fits("message"@),
        fits("ready"@) && fits("direct_message"@) && fits("pong"@) && fits("error"@),
        "ready"@ != "message"@ && "ready"@ != "direct_message"@ && "ready"@ != "pong"@,
        "ready"@ != "error"@ && "message"@ != "direct_message"@ && "message"@ != "pong"@,
        "message"@ != "error"@ && "direct_message"@ != "pong"@ && "direct_message"@ != "error"@,
        "pong"@ != "error"@,
{
    reveal_strlit("kind");
    reveal_strlit("topic");
    reveal_strlit("client_id");
    reveal_strlit("from");
    reveal_strlit("to");
    reveal_strlit("request_id");
    reveal_strlit("payload");
    reveal_strlit("code");
    reveal_strlit("message");
    reveal_strlit("ready");
    reveal_strlit("direct_message");
    reveal_strlit("pong");
    reveal_strlit("error");
    lemma_utf8_len("kind"@);
    lemma_utf8_len("topic"@);
    lemma_utf8_len("client_id"@);
    lemma_utf8_len("from"@);
    lemma_utf8_len("to"@);
    lemma_utf8_len("request_id"@);
    lemma_utf8_len("payload"@);
    lemma_utf8_len("code"@);
    lemma_utf8_len("message"@);
    lemma_utf8_len("ready"@);
    lemma_utf8_len("direct_message"@);
    lemma_utf8_len("pong"@);
    lemma_utf8_len("error"@);
    assert("ready"@[0] == 'r' && "error"@[0] == 'e');
}

/// A named text field tells where it ends.
proof fn lemma_field(name: Seq<char>, a: Seq<char>, b: Seq<char>, x: Seq<u8>, y: Seq<u8>)
    requires
        fits(name),
        fits(a),
        fits(b),
        pack_str(name) + (pack_str(a) + x) == pack_str(name) + (pack_str(b) + y),
    ensures
        a == b,
        x == y,
{
    law_strings_are_self_delimiting(name, name, pack_str(a) + x, pack_str(b) + y);
    law_strings_are_self_delimiting(a, b, x, y);
}

/// A named optional text field, and a named payload behind it, tell where they end.
proof fn lemma_tail(a: Option<Seq<char>>, b: Option<Seq<char>>, x: Seq<u8>, y: Seq<u8>)
    requires
        optional_fits(a),
        optional_fits(b),
        pack_str("request_id"@) + (pack_optional_str(a) + (pack_str("payload"@) + x)) == pack_str(
            "request_id"@,
        ) + (pack_optional_str(b) + (pack_str("payload"@) + y)),
    ensures
        a == b,
        x == y,
{
    lemma_names();
    law_strings_are_self_delimiting(
        "request_id"@,
        "request_id"@,
        pack_optional_str(a) + (pack_str("payload"@) + x),
        pack_optional_str(b) + (pack_str("payload"@) + y),
    );
    law_optional_strings_are_self_delimiting(
        a,
        b,
        pack_str("payload"@) + x,
        pack_str("payload"@) + y,
    );
    law_strings_are_self_delimiting("payload"@, "payload"@, x, y);
}

/// A frame tells which event it carries: two events have the same frame only where they are of one
/// kind, say the same in every text, and have the same bytes for a payload.
pub proof fn law_frame_tells_event(a: ServerEventModel, b: ServerEventModel)
    requires
        a.texts_fit(),
        b.texts_fit(),
        a.frame() == b.frame(),
    ensures
        a.alike(b),
{
    a.lemma_frame_parts();
    b.lemma_frame_parts();
    lemma_names();
    lemma_field("kind"@, a.kind(), b.kind(), a.fields(), b.fields());
    let x = a.packed_payload();
    let y = b.packed_payload();
    match (a, b) {
        (
            ServerEventModel::Ready { topic, client_id },
            ServerEventModel::Ready { topic: topic_b, client_id: client_b },
        ) => {
            lemma_field(
                "topic"@,
                topic,
                topic_b,
                pack_str("client_id"@) + (pack_str(client_id) + seq![]),
                pack_str("client_id"@) + (pack_str(client_b) + seq![]),
            );
            lemma_field("client_id"@, client_id, client_b, seq![], seq![]);
        },
        (
            ServerEventModel::Message { topic, from, request_id, .. },
            ServerEventModel::Message { topic: topic_b, from: from_b, request_id: id_b, .. },
        ) => {
            let tail = pack_str("request_id"@) + (pack_optional_str(request_id) + (pack_str(
                "payload"@,
            ) + x));
            let tail_b = pack_str("request_id"@) + (pack_optional_str(id_b) + (pack_str("payload"@)
                + y));
            lemma_field(
                "topic"@,
                topic,
                topic_b,
                pack_str("from"@) + (pack_str(from) + tail),
                pack_str("from"@) + (pack_str(from_b) + tail_b),
            );
            lemma_field("from"@, from, from_b, tail, tail_b);
            lemma_tail(request_id, id_b, x, y);
        },
        (
            ServerEventModel::DirectMessage { from, to, request_id, .. },
            ServerEventModel::DirectMessage { from: from_b, to: to_b, request_id: id_b, .. },
        ) => {
            let tail = pack_str("request_id"@) + (pack_optional_str(request_id) + (pack_str(
                "payload"@,
            ) + x));
            let tail_b = pack_str("request_id"@) + (pack_optional_str(id_b) + (pack_str("payload"@)
                + y));
            lemma_field(
                "from"@,
                from,
                from_b,
                pack_str("to"@) + (pack_str(to) + tail),
                pack_str("to"@) + (pack_str(to_b) + tail_b),
            );
            lemma_field("to"@, to, to_b, tail, tail_b);
            lemma_tail(request_id, id_b, x, y);
        },
        (
            ServerEventModel::Pong { request_id, .. },
            ServerEventModel::Pong { request_id: id_b, .. },
        ) => lemma_tail(request_id, id_b, x, y),
        (
            ServerEventModel::Error { code, message },
            ServerEventModel::Error { code: code_b, message: message_b },
        ) => {
            lemma_field(
                "code"@,
                code,
                code_b,
                pack_str("message"@) + (pack_str(message) + seq![]),
                pack_str("message"@) + (pack_str(message_b) + seq![]),
            );
            lemma_field("message"@, message, message_b, seq![], seq![]);
        },
        _ => {},
    }
}

/// Whether an object gives this text under a name: as a text, or, where it is none, by having no such
/// member or `null` for one.
pub open spec fn gives_text(
    members: Map<Seq<char>, Value>,
    name: Seq<char>,
    text: Option<Seq<char>>,
) -> bool {
    match text {
        Some(text) => members.contains_key(name) && json_model(members[name]) == JsonModel::Text(
            text,
        ),
        None => !members.contains_key(name) || json_model(members[name]) == JsonModel::Null,
    }
}

/// Whether a tree is this text, or `null` where there is none.
pub open spec fn is_text(v: Value, text: Option<Seq<char>>) -> bool {
    json_model(v) == match text {
        Some(text) => JsonModel::Text(text),
        None => JsonModel::Null,
    }
}

/// An object of the kind `publish` with a payload, whatever the payload is, is a publication with that
/// payload and with the topic and the request id that the object gives. What else it holds does not
/// matter.
pub proof fn law_publications_are_read(
    v: Value,
    members: Map<Seq<char>, Value>,
    topic: Option<Seq<char>>,
    request_id: Option<Seq<char>>,
)
    requires
        json_model(v) == JsonModel::Object(members),
        gives_text(members, "kind"@, Some("publish"@)),
        gives_text(members, "topic"@, topic),
        gives_text(members, "request_id"@, request_id),
        members.contains_key("payload"@),
    ensures
        event_of_tree(Some(v)) == Some(
            ClientEventModel::Publish { topic, request_id, payload: members["payload"@] },
        ),
{
}

/// An object of the kind `direct` with an addressee and a payload, whatever the payload is, is a direct
/// message to that addressee with that payload and with the request id that the object gives.
pub proof fn law_direct_messages_are_read(
    v: Value,
    members: Map<Seq<char>, Value>,
    to: Seq<char>,
    request_id: Option<Seq<char>>,
)
    requires
        json_model(v) == JsonModel::Object(members),
        gives_text(members, "kind"@, Some("direct"@)),
        gives_text(members, "to"@, Some(to)),
        gives_text(members, "request_id"@, request_id),
        members.contains_key("payload"@),
    ensures
        event_of_tree(Some(v)) == Some(
            ClientEventModel::Direct { to, request_id, payload: members["payload"@] },
        ),
{
    lemma_kinds_differ();
}

/// An object of the kind `ping` is a ping with the request id that it gives and with its payload, where
/// it has one that is not `null`.
pub proof fn law_pings_are_read(
    v: Value,
    members: Map<Seq<char>, Value>,
    request_id: Option<Seq<char>>,
)
    requires
        json_model(v) == JsonModel::Object(members),
        gives_text(members, "kind"@, Some("ping"@)),
        gives_text(members, "request_id"@, request_id),
    ensures
        event_of_tree(Some(v)) == Some(
            ClientEventModel::Ping {
                request_id,
                payload: if members.contains_key("payload"@) && json_model(members["payload"@])
                    != JsonModel::Null {
                    Some(members["payload"@])
                } else {
                    None
                },
            },
        ),
{
    lemma_kinds_differ();
}

proof fn lemma_kinds_differ()
    ensures
        "publish"@ != "direct"@,
        "publish"@ != "ping"@,
        "direct"@ != "ping"@,
{
    reveal_strlit("publish");
    reveal_strlit("direct");
    reveal_strlit("ping");
    assert("publish"@.len() == 7 && "direct"@.len() == 6 && "ping"@.len() == 4);
}

/// An object is an event only where it says so: its kind is one of the three, a publication and a direct
/// message have a payload, a direct message has an addressee, and topic and request id are texts,
/// `null` or left out.
pub proof fn law_nothing_else_is_read(v: Value, members: Map<Seq<char>, Value>)
    requires
        json_model(v) == JsonModel::Object(members),
        event_of_tree(Some(v)) is Some,
    ensures
        ({
            let event = event_of_tree(Some(v))->0;
            &&& event is Publish ==> gives_text(members, "kind"@, Some("publish"@))
            &&& event is Direct ==> gives_text(members, "kind"@, Some("direct"@))
            &&& event is Ping ==> gives_text(members, "kind"@, Some("ping"@))
            &&& event matches ClientEventModel::Publish { topic, request_id, .. } ==> gives_text(
                members,
                "topic"@,
                topic,
            ) && gives_text(members, "request_id"@, request_id) && members.contains_key("payload"@)
            &&& event matches ClientEventModel::Direct { to, request_id, .. } ==> gives_text(
                members,
                "to"@,
                Some(to),
            ) && gives_text(members, "request_id"@, request_id) && members.contains_key("payload"@)
            &&& event matches ClientEventModel::Ping { request_id, .. } ==> gives_text(
                members,
                "request_id"@,
                request_id,
            )
        }),
{
}

/// An event may also come as an array of its kind and its fields, all of them and no more, in their
/// order.
pub proof fn law_arrays_are_read_by_place(
    v: Value,
    elements: Seq<Value>,
    text: Option<Seq<char>>,
    request_id: Option<Seq<char>>,
)
    requires
        json_model(v) == JsonModel::Array(elements),
    ensures
        elements.len() == 4 && is_text(elements[0], Some("publish"@)) && is_text(elements[1], text)
            && is_text(elements[2], request_id) ==> event_of_tree(Some(v)) == Some(
            ClientEventModel::Publish { topic: text, request_id, payload: elements[3] },
        ),
        elements.len() == 4 && is_text(elements[0], Some("direct"@)) && is_text(elements[1], text)
            && text is Some && is_text(elements[2], request_id) ==> event_of_tree(Some(v)) == Some(
            ClientEventModel::Direct { to: text->0, request_id, payload: elements[3] },
        ),
        elements.len() == 3 && is_text(elements[0], Some("ping"@)) && is_text(
            elements[1],
            request_id,
        ) ==> event_of_tree(Some(v)) == Some(
            ClientEventModel::Ping {
                request_id,
                payload: if json_model(elements[2]) == JsonModel::Null {
                    None
                } else {
                    Some(elements[2])
                },
            },
        ),
        elements.len() < 3 || elements.len() > 4 ==> event_of_tree(Some(v)) is None,
{
    lemma_kinds_differ();
}

/// What is neither an object nor an array is no event, and neither is what cannot be read.
pub proof fn law_single_values_are_no_events(v: Value)
    requires
        !(json_model(v) is Object),
        !(json_model(v) is Array),
    ensures
        event_of_tree(Some(v)) is None,
        event_of_tree(None) is None,
{
}

/// A text is read as the tree that it stands for, where it names no field twice and marks nothing. Where
/// it names its kind or a field of its event twice, it is no event.
pub proof fn law_texts_are_read_as_their_trees(raw: Seq<char>)
    requires
        unmarked(raw) == raw,
    ensures
        !repeats(member_names(raw), "kind"@) && !repeats(member_names(raw), "topic"@) && !repeats(
            member_names(raw),
            "to"@,
        ) && !repeats(member_names(raw), "request_id"@) && !repeats(
            member_names(raw),
            "payload"@,
        ) ==> event_of_text(raw) == event_of_tree(json_tree(raw)),
        event_of_text(raw) is Some ==> event_of_text(raw) == event_of_tree(json_tree(raw)),
        repeats(member_names(raw), "kind"@) || repeats(member_names(raw), "request_id"@)
            || repeats(member_names(raw), "payload"@) ==> event_of_text(raw) is None,
        repeats(member_names(raw), "topic"@) && event_of_tree(json_tree(raw)) is Some
            && event_of_tree(json_tree(raw))->0 is Publish ==> event_of_text(raw) is None,
        repeats(member_names(raw), "to"@) && event_of_tree(json_tree(raw)) is Some
            && event_of_tree(json_tree(raw))->0 is Direct ==> event_of_text(raw) is None,
{
}

/// A text that marks something is read as if it did not, but for the payload: that is the tree that the
/// payload's own text stands for.
pub proof fn law_marked_texts_keep_their_payload(
    raw: Seq<char>,
    text: Seq<char>,
    payload: Value,
)
    requires
        unmarked(raw) != raw,
        json_member(raw, "payload"@) == Some(Some(text)),
        json_tree(text) == Some(payload),
        event_of_text(raw) is Some,
    ensures
        ({
            let plain = event_of_tree(json_tree(unmarked(raw)))->0;
            let event = event_of_text(raw)->0;
            &&& event_of_tree(json_tree(unmarked(raw))) is Some
            &&& plain matches ClientEventModel::Publish { topic, request_id, .. } ==> event
                == ClientEventModel::Publish { topic, request_id, payload }
            &&& plain matches ClientEventModel::Direct { to, request_id, .. } ==> event
                == ClientEventModel::Direct { to, request_id, payload }
            &&& plain matches ClientEventModel::Ping { request_id, payload: own } ==> event
                == ClientEventModel::Ping {
                request_id,
                payload: if own is Some {
                    Some(payload)
                } else {
                    None
                },
            }
        }),
{
}

/// The entries of a MessagePack map, one after the other: each a name and the bytes of its value.
pub open spec fn entries(fields: Seq<(Seq<char>, Seq<u8>)>) -> Seq<u8>
    decreases fields.len(),
{
    if fields.len() == 0 {
        Seq::empty()
    } else {
        pack_str(fields.first().0) + fields.first().1 + entries(fields.drop_first())
    }
}

/// A MessagePack map of fewer than sixteen entries: its size, in the low half of the first byte, and its
/// entries.
pub open spec fn small_map(fields: Seq<(Seq<char>, Seq<u8>)>) -> Seq<u8> {
    seq![(0x80 + fields.len()) as u8] + entries(fields)
}

/// A greeting is sent as a map that gives its kind, the topic and the client's id under their names.
pub proof fn law_greetings_are_maps(topic: Seq<char>, client_id: Seq<char>)
    ensures
        (ServerEventModel::Ready { topic, client_id }).frame() == small_map(
            seq![
                ("kind"@, pack_str("ready"@)),
                ("topic"@, pack_str(topic)),
                ("client_id"@, pack_str(client_id)),
            ],
        ),
{
    lemma_three_entries(
        ("kind"@, pack_str("ready"@)),
        ("topic"@, pack_str(topic)),
        ("client_id"@, pack_str(client_id)),
    );
}

/// A published message is sent as a map that gives its kind, the topic, who sent it, the request id and
/// the payload under their names.
pub proof fn law_messages_are_maps(
    topic: Seq<char>,
    from: Seq<char>,
    request_id: Option<Seq<char>>,
    payload: Value,
)
    ensures
        (ServerEventModel::Message { topic, from, request_id, payload }).frame() == small_map(
            seq![
                ("kind"@, pack_str("message"@)),
                ("topic"@, pack_str(topic)),
                ("from"@, pack_str(from)),
                ("request_id"@, pack_optional_str(request_id)),
                ("payload"@, msgpack_value(payload)),
            ],
        ),
{
    lemma_five_entries(
        ("kind"@, pack_str("message"@)),
        ("topic"@, pack_str(topic)),
        ("from"@, pack_str(from)),
        ("request_id"@, pack_optional_str(request_id)),
        ("payload"@, msgpack_value(payload)),
    );
}

/// A direct message is sent as a map that gives its kind, who sent it, whom it is for, the request id and
/// the payload under their names.
pub proof fn law_direct_messages_are_maps(
    from: Seq<char>,
    to: Seq<char>,
    request_id: Option<Seq<char>>,
    payload: Value,
)
    ensures
        (ServerEventModel::DirectMessage { from, to, request_id, payload }).frame() == small_map(
            seq![
                ("kind"@, pack_str("direct_message"@)),
                ("from"@, pack_str(from)),
                ("to"@, pack_str(to)),
                ("request_id"@, pack_optional_str(request_id)),
                ("payload"@, msgpack_value(payload)),
            ],
        ),
{
    lemma_five_entries(
        ("kind"@, pack_str("direct_message"@)),
        ("from"@, pack_str(from)),
        ("to"@, pack_str(to)),
        ("request_id"@, pack_optional_str(request_id)),
        ("payload"@, msgpack_value(payload)),
    );
}

/// A pong is sent as a map that gives its kind, the request id and the payload under their names; a
/// payload that is left out is no value.
pub proof fn law_pongs_are_maps(
    request_id: Option<Seq<char>>,
    payload: Option<Value>,
    packed: Seq<u8>,
)
    requires
        payload matches Some(payload) ==> packed == msgpack_value(payload),
        payload is None ==> packed == seq![0xc0u8],
    ensures
        (ServerEventModel::Pong { request_id, payload }).frame() == small_map(
            seq![
                ("kind"@, pack_str("pong"@)),
                ("request_id"@, pack_optional_str(request_id)),
                ("payload"@, packed),
            ],
        ),
{
    assert((ServerEventModel::Pong { request_id, payload }).packed_payload() == packed);
    lemma_three_entries(
        ("kind"@, pack_str("pong"@)),
        ("request_id"@, pack_optional_str(request_id)),
        ("payload"@, packed),
    );
}

/// An error is sent as a map that gives its kind, its code and its message under their names.
pub proof fn law_errors_are_maps(code: Seq<char>, message: Seq<char>)
    ensures
        (ServerEventModel::Error { code, message }).frame() == small_map(
            seq![
                ("kind"@, pack_str("error"@)),
                ("code"@, pack_str(code)),
                ("message"@, pack_str(message)),
            ],
        ),
{
    lemma_three_entries(
        ("kind"@, pack_str("error"@)),
        ("code"@, pack_str(code)),
        ("message"@, pack_str(message)),
    );
}

proof fn lemma_next_entry(fields: Seq<(Seq<char>, Seq<u8>)>)
    requires
        fields.len() > 0,
    ensures
        entries(fields) == pack_str(fields[0].0) + fields[0].1 + entries(fields.drop_first()),
{
}

proof fn lemma_three_entries(
    a: (Seq<char>, Seq<u8>),
    b: (Seq<char>, Seq<u8>),
    c: (Seq<char>, Seq<u8>),
)
    ensures
        small_map(seq![a, b, c]) == seq![0x83u8] + pack_str(a.0) + a.1 + pack_str(b.0) + b.1
            + pack_str(c.0) + c.1,
{
    lemma_next_entry(seq![a, b, c]);
    assert(seq![a, b, c].drop_first() =~= seq![b, c]);
    lemma_next_entry(seq![b, c]);
    assert(seq![b, c].drop_first() =~= seq![c]);
    lemma_next_entry(seq![c]);
    assert(seq![c].drop_first() =~= seq![]);
    assert(entries(seq![]) =~= Seq::<u8>::empty());
    assert(small_map(seq![a, b, c]) =~= seq![0x83u8] + pack_str(a.0) + a.1 + pack_str(b.0) + b.1
        + pack_str(c.0) + c.1);
}

proof fn lemma_five_entries(
    a: (Seq<char>, Seq<u8>),
    b: (Seq<char>, Seq<u8>),
    c: (Seq<char>, Seq<u8>),
    d: (Seq<char>, Seq<u8>),
    e: (Seq<char>, Seq<u8>),
)
    ensures
        small_map(seq![a, b, c, d, e]) == seq![0x85u8] + pack_str(a.0) + a.1 + pack_str(b.0) + b.1
            + pack_str(c.0) + c.1 + pack_str(d.0) + d.1 + pack_str(e.0) + e.1,
{
    lemma_next_entry(seq![a, b, c, d, e]);
    assert(seq![a, b, c, d, e].drop_first() =~= seq![b, c, d, e]);
    lemma_next_entry(seq![b, c, d, e]);
    assert(seq![b, c, d, e].drop_first() =~= seq![c, d, e]);
    lemma_next_entry(seq![c, d, e]);
    assert(seq![c, d, e].drop_first() =~= seq![d, e]);
    lemma_next_entry(seq![d, e]);
    assert(seq![d, e].drop_first() =~= seq![e]);
    lemma_next_entry(seq![e]);
    assert(seq![e].drop_first() =~= seq![]);
    assert(entries(seq![]) =~= Seq::<u8>::empty());
    let p0 = seq![0x85u8];
    let p1 = p0 + pack_str(a.0) + a.1;
    let p2 = p1 + pack_str(b.0) + b.1;
    let p3 = p2 + pack_str(c.0) + c.1;
    let p4 = p3 + pack_str(d.0) + d.1;
    lemma_shift(p0, pack_str(a.0), a.1, entries(seq![b, c, d, e]));
    lemma_shift(p1, pack_str(b.0), b.1, entries(seq![c, d, e]));
    lemma_shift(p2, pack_str(c.0), c.1, entries(seq![d, e]));
    lemma_shift(p3, pack_str(d.0), d.1, entries(seq![e]));
    lemma_shift(p4, pack_str(e.0), e.1, Seq::<u8>::empty());
    assert(p4 + pack_str(e.0) + e.1 + Seq::<u8>::empty() =~= p4 + pack_str(e.0) + e.1);
}

proof fn lemma_shift(front: Seq<u8>, x: Seq<u8>, y: Seq<u8>, rest: Seq<u8>)
    ensures
        front + (x + y + rest) == front + x + y + rest,
{
    assert(front + (x + y + rest) =~= front + x + y + rest);
}

/// The texts that an event is sent with.
pub open spec fn texts_of(event: ServerEventModel) -> Seq<Option<Seq<char>>> {
    match event {
        ServerEventModel::Ready { topic, client_id } => seq![Some(topic), Some(client_id)],
        ServerEventModel::Message { topic, from, request_id, .. } => seq![
            Some(topic),
            Some(from),
            request_id,
        ],
        ServerEventModel::DirectMessage { from, to, request_id, .. } => seq![
            Some(from),
            Some(to),
            request_id,
        ],
        ServerEventModel::Pong { request_id, .. } => seq![request_id],
        ServerEventModel::Error { code, message } => seq![Some(code), Some(message)],
    }
}

/// An event whose texts are of any ordinary length is encoded to its frame, unless its payload fails; one
/// without a payload is in any case. An event with a text of four gibibytes or more never is.
pub proof fn law_events_have_frames(
    event: ServerEventModel,
    encoded: Result<Seq<u8>, EncodeError>,
)
    requires
        event.may_encode(encoded),
    ensures
        encoded matches Ok(bytes) ==> bytes == event.frame(),
        (forall|i: int|
            0 <= i < texts_of(event).len() ==> ((#[trigger] texts_of(event)[i]) matches Some(text)
                ==> text.len() <= 0x3fff_ffff)) ==> encoded is Ok || encoded->Err_0 is Payload,
        (forall|i: int|
            0 <= i < texts_of(event).len() ==> ((#[trigger] texts_of(event)[i]) matches Some(text)
                ==> text.len() <= 0x3fff_ffff)) && (event is Ready || event is Error
            || event matches ServerEventModel::Pong { payload: None, .. }) ==> encoded == Ok::<
            Seq<u8>,
            EncodeError,
        >(event.frame()),
        (exists|i: int|
            0 <= i < texts_of(event).len() && ((#[trigger] texts_of(event)[i]) matches Some(text)
                && encode_utf8(text).len() >= 0x1_0000_0000)) ==> encoded == Err::<
            Seq<u8>,
            EncodeError,
        >(EncodeError::TextTooLong),
{
    let texts = texts_of(event);
    assert forall|i: int| 0 <= i < texts.len() && (#[trigger] texts[i]) is Some implies (
    texts[i]->0.len() <= 0x3fff_ffff ==> fits(texts[i]->0)) && (fits(texts[i]->0) <==> encode_utf8(
        texts[i]->0,
    ).len() < 0x1_0000_0000) by {
        law_texts_fit_up_to_four_gibibytes(texts[i]->0);
    }
    assert(event.texts_fit() <==> forall|i: int|
        0 <= i < texts.len() ==> ((#[trigger] texts[i]) matches Some(text) ==> fits(text))) by {
        assert(texts.len() >= 1 ==> texts[0] == texts[0]);
        assert(texts.len() >= 2 ==> texts[1] == texts[1]);
        assert(texts.len() >= 3 ==> texts[2] == texts[2]);
    }
}

/// The same holds of a text that is an array: its payload is the tree that the element in the payload's
/// place stands for by itself.
pub proof fn law_marked_arrays_keep_their_payload(
    raw: Seq<char>,
    text: Seq<char>,
    payload: Value,
)
    requires
        unmarked(raw) != raw,
        json_member(raw, "payload"@) is None,
        json_tree(text) == Some(payload),
        event_of_text(raw) is Some,
    ensures
        ({
            let plain = event_of_tree(json_tree(unmarked(raw)))->0;
            let event = event_of_text(raw)->0;
            &&& plain matches ClientEventModel::Publish { topic, request_id, .. } ==> (json_element(
                raw,
                3,
            ) == Some(Some(text)) ==> event == ClientEventModel::Publish {
                topic,
                request_id,
                payload,
            })
            &&& plain matches ClientEventModel::Direct { to, request_id, .. } ==> (json_element(
                raw,
                3,
            ) == Some(Some(text)) ==> event == ClientEventModel::Direct { to, request_id, payload })
            &&& plain matches ClientEventModel::Ping { request_id, payload: Some(_) } ==> (
            json_element(raw, 2) == Some(Some(text)) ==> event == ClientEventModel::Ping {
                request_id,
                payload: Some(payload),
            })
        }),
{
}

/// A text that marks something is an event wherever it would be one without the marks, gives nothing
/// twice and has a payload that can be read.
pub proof fn law_marked_texts_are_read(raw: Seq<char>, text: Seq<char>)
    requires
        unmarked(raw) != raw,
        event_of_tree(json_tree(unmarked(raw))) is Some,
        !repeats(member_names(raw), "kind"@),
        !repeats(member_names(raw), "topic"@),
        !repeats(member_names(raw), "to"@),
        !repeats(member_names(raw), "request_id"@),
        !repeats(member_names(raw), "payload"@),
        json_member(raw, "payload"@) == Some(Some(text)),
        json_tree(text) is Some,
    ensures
        event_of_text(raw) is Some,
{
}

/// A client's event is viewed field by field, with nothing left out.
pub proof fn law_client_events_are_viewed_whole(event: ClientEvent)
    ensures
        event matches ClientEvent::Publish { topic, request_id, payload } ==> event@ == (
        ClientEventModel::Publish {
            topic: text_view(topic),
            request_id: text_view(request_id),
            payload,
        }),
        event matches ClientEvent::Direct { to, request_id, payload } ==> event@ == (
        ClientEventModel::Direct { to: to@, request_id: text_view(request_id), payload }),
        event matches ClientEvent::Ping { request_id, payload } ==> event@ == (
        ClientEventModel::Ping { request_id: text_view(request_id), payload }),
{
}

/// A server's event is viewed field by field, with nothing left out.
pub proof fn law_server_events_are_viewed_whole(event: ServerEvent<'_>)
    ensures
        event matches ServerEvent::Ready { topic, client_id } ==> event@ == (
        ServerEventModel::Ready { topic: topic@, client_id: client_id@ }),
        event matches ServerEvent::Message { topic, from, request_id, payload } ==> event@ == (
        ServerEventModel::Message {
            topic: topic@,
            from: from@,
            request_id: slice_view(request_id),
            payload: *payload,
        }),
        event matches ServerEvent::DirectMessage { from, to, request_id, payload } ==> event@ == (
        ServerEventModel::DirectMessage {
            from: from@,
            to: to@,
            request_id: slice_view(request_id),
            payload: *payload,
        }),
        event matches ServerEvent::Pong { request_id, payload } ==> event@ == (
        ServerEventModel::Pong {
            request_id: slice_view(request_id),
            payload: match payload {
                Some(payload) => Some(*payload),
                None => None,
            },
        }),
        event matches ServerEvent::Error { code, message } ==> event@ == (ServerEventModel::Error {
            code: code@,
            message: message@,
        }),
{
}

/// What encoding came to is viewed as it is.
pub proof fn law_encodings_are_viewed_whole(
    encoded: Result<Vec<u8>, EncodeError>,
    packed: Result<Vec<u8>, rmp_serde::encode::Error>,
)
    ensures
        encoded matches Ok(bytes) ==> encoded_view(encoded) == Ok::<Seq<u8>, EncodeError>(bytes@),
        encoded matches Err(e) ==> encoded_view(encoded) == Err::<Seq<u8>, EncodeError>(e),
        packed matches Ok(bytes) ==> packed_view(packed) == Ok::<
            Seq<u8>,
            rmp_serde::encode::Error,
        >(bytes@),
        packed matches Err(e) ==> packed_view(packed) == Err::<Seq<u8>, rmp_serde::encode::Error>(
            e,
        ),
{
}

/// An event whose payload was packed comes to the frame that holds those bytes for the payload: the frame
/// of an event is the one with the bytes of its own payload.
pub proof fn law_assembly_follows_the_packing(
    event: ServerEventModel,
    packed: Seq<u8>,
    e: rmp_serde::encode::Error,
)
    requires
        event.texts_fit(),
    ensures
        event.assembled(Ok(packed)) == Ok::<Seq<u8>, EncodeError>(event.frame_with(packed)),
        event.assembled(Err(e)) == Err::<Seq<u8>, EncodeError>(EncodeError::Payload(e)),
        event.frame() == event.frame_with(
            match event {
                ServerEventModel::Message { payload, .. } => msgpack_value(payload),
                ServerEventModel::DirectMessage { payload, .. } => msgpack_value(payload),
                ServerEventModel::Pong { payload: Some(payload), .. } => msgpack_value(payload),
                _ => seq![0xc0u8],
            },
        ),
{
}

} // verus!
