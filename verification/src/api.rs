//! Publishing and writing to clients over plain HTTP.
use bytes::Bytes;
use serde_json::Value;
use tokio::sync::broadcast;
use tokio::sync::mpsc;
use vstd::prelude::*;
use vstd::string::StringExecFns;

use crate::auth::AuthError;
use crate::auth::AuthIdentity;
use crate::auth::AuthVerifier;
use crate::auth::IdentityModel;
use crate::auth::verdict_view;
use crate::channel::bytes_from;
use crate::channel::heard;
use crate::channel::Delivery;
use crate::channel::OutboundMessage;
use crate::channel::OutboundModel;
use crate::channel::SendOutcome;
use crate::json::text_view;
use crate::metrics::law_messages_out_add_up;
use crate::metrics::Metrics;
use crate::msgpack::slice_view;
use crate::protocol::encode_server_event;
use crate::protocol::encoded_view;
use crate::protocol::EncodeError;
use crate::protocol::ServerEvent;
use crate::protocol::ServerEventModel;
use crate::server::text_slice;
use crate::state::tenant_topic;
use crate::state::topic_key;
use crate::state::AppState;
use crate::state::StateModel;
use crate::text::strip_prefix;
use crate::topic::normalize_topic;
use crate::topic::normalized;

verus! {

/// A request to publish.
pub struct PublishBody {
    pub topic: Option<String>,
    pub request_id: Option<String>,
    pub payload: Value,
}

/// A request to write to a client.
pub struct DirectBody {
    pub to: String,
    pub request_id: Option<String>,
    pub payload: Value,
}

/// What a request is answered.
#[derive(Debug)]
pub enum ApiReply {
    /// Status 200: the message went out to so many subscribers.
    Published { receivers: usize },
    /// Status 200: the message was taken.
    Delivered,
    /// Status 404: there is no such client, or its queue takes no more.
    ClientNotFound,
    /// Status 500: what was to be published could not be encoded.
    PublishFailed,
    /// Status 500: what was to be delivered could not be encoded.
    DeliveryFailed,
    /// The caller is not let in.
    Refused { status: u16, error: String },
}

impl ApiReply {
    /// The status of the answer.
    pub open spec fn spec_status(self) -> u16 {
        match self {
            ApiReply::Published { .. } => 200,
            ApiReply::Delivered => 200,
            ApiReply::ClientNotFound => 404,
            ApiReply::PublishFailed => 500,
            ApiReply::DeliveryFailed => 500,
            ApiReply::Refused { status, .. } => status,
        }
    }

    /// The error that the answer names.
    pub open spec fn spec_error(self) -> Option<Seq<char>> {
        match self {
            ApiReply::Published { .. } => None,
            ApiReply::Delivered => None,
            ApiReply::ClientNotFound => Some("client_not_found"@),
            ApiReply::PublishFailed => Some("encode failed"@),
            ApiReply::DeliveryFailed => Some("encode failed"@),
            ApiReply::Refused { error, .. } => Some(error@),
        }
    }

    /// The status of the answer.
    pub fn status(&self) -> (r: u16)
        ensures
            r == self.spec_status(),
    {
        match self {
            ApiReply::Published { .. } => 200,
            ApiReply::Delivered => 200,
            ApiReply::ClientNotFound => 404,
            ApiReply::PublishFailed => 500,
            ApiReply::DeliveryFailed => 500,
            ApiReply::Refused { status, .. } => *status,
        }
    }

    /// The error that the answer names.
    pub fn error(&self) -> (r: Option<&str>)
        ensures
            slice_view(r) == self.spec_error(),
    {
        match self {
            ApiReply::Published { .. } => None,
            ApiReply::Delivered => None,
            ApiReply::ClientNotFound => Some("client_not_found"),
            ApiReply::PublishFailed => Some("encode failed"),
            ApiReply::DeliveryFailed => Some("encode failed"),
            ApiReply::Refused { error, .. } => Some(error.as_str()),
        }
    }
}

/// The status and the text of an answer that lets nobody in.
pub open spec fn refusal_of(reply: ApiReply) -> Option<(u16, Seq<char>)> {
    match reply {
        ApiReply::Refused { status, error } => Some((status, error@)),
        _ => None,
    }
}

/// The token in an `Authorization` header.
pub open spec fn bearer_token(header: Option<Seq<char>>) -> Option<Seq<char>> {
    match header {
        Some(header) => if "Bearer "@.is_prefix_of(header) {
            Some(header.skip("Bearer "@.len() as int))
        } else {
            None
        },
        None => None,
    }
}

/// The token in an `Authorization` header.
pub fn extract_bearer(header: Option<&str>) -> (r: Option<&str>)
    ensures
        slice_view(r) == bearer_token(slice_view(header)),
{
    match header {
        Some(header) => {
            let rest = strip_prefix(header, "Bearer ");
            proof {
                if let Some(rest) = rest {
                    assert("Bearer "@ =~= header@.take("Bearer "@.len() as int));
                    assert(rest@ =~= header@.skip("Bearer "@.len() as int));
                }
            }
            rest
        },
        None => None,
    }
}

/// What is known of a caller.
pub open spec fn caller_view(r: Result<AuthIdentity, (u16, String)>) -> Result<
    IdentityModel,
    (u16, Seq<char>),
> {
    match r {
        Ok(identity) => Ok(identity@),
        Err((status, error)) => Err((status, error@)),
    }
}

/// What a caller comes to whose token came to this.
pub open spec fn caller_of(verdict: Result<IdentityModel, AuthError>) -> Result<
    IdentityModel,
    (u16, Seq<char>),
> {
    match verdict {
        Ok(identity) => Ok(identity),
        Err(e) => Err((401u16, "invalid token: "@ + e.spec_message() + "\n"@)),
    }
}

/// Whether a caller with a token may come to this.
pub open spec fn may_be_judged(
    verifier: AuthVerifier,
    token: Seq<char>,
    caller: Result<IdentityModel, (u16, Seq<char>)>,
) -> bool {
    exists|verdict: Result<IdentityModel, AuthError>|
        {
            &&& #[trigger] verifier.may_answer(token, verdict)
            &&& caller_of(verdict) == caller
        }
}

/// Whether a caller may come to this.
pub open spec fn may_call(
    auth: Option<AuthVerifier>,
    header: Option<Seq<char>>,
    caller: Result<IdentityModel, (u16, Seq<char>)>,
) -> bool {
    match auth {
        None => caller == Ok::<IdentityModel, (u16, Seq<char>)>(
            IdentityModel { client_id: "api"@, tenant_id: "default"@ },
        ),
        Some(verifier) => match bearer_token(header) {
            None => caller == Err::<IdentityModel, (u16, Seq<char>)>(
                (401u16, "missing Authorization header\n"@),
            ),
            Some(token) => may_be_judged(verifier, token, caller),
        },
    }
}

/// Whether a caller may turn out to be somebody.
pub open spec fn may_be_let_in(auth: Option<AuthVerifier>, header: Option<Seq<char>>) -> bool {
    exists|identity: IdentityModel| #[trigger] may_call(auth, header, Ok(identity))
}

/// Finds out who a caller is whose token came to this.
pub fn judge_caller(verdict: Result<AuthIdentity, AuthError>) -> (r: Result<
    AuthIdentity,
    (u16, String),
>)
    ensures
        caller_view(r) == caller_of(verdict_view(verdict)),
{
    match verdict {
        Ok(identity) => Ok(identity),
        Err(e) => {
            let mut error = "invalid token: ".to_owned();
            error.append(e.message());
            error.append("\n");
            Err((401, error))
        },
    }
}

/// Finds out who a caller is.
pub fn resolve_identity(auth: &Option<AuthVerifier>, header: Option<&str>) -> (r: Result<
    AuthIdentity,
    (u16, String),
>)
    ensures
        may_call(*auth, slice_view(header), caller_view(r)),
{
    match auth {
        Some(verifier) => match extract_bearer(header) {
            Some(token) => {
                let verdict = verifier.verify(token);
                let ghost seen = verdict_view(verdict);
                let caller = judge_caller(verdict);
                assert(verifier.may_answer(token@, seen));
                assert(caller_view(caller) == caller_of(seen));
                assert(may_be_judged(*verifier, token@, caller_view(caller)));
                caller
            },
            None => Err((401, "missing Authorization header\n".to_owned())),
        },
        None => {
            let identity = AuthIdentity {
                client_id: "api".to_owned(),
                tenant_id: "default".to_owned(),
            };
            assert(identity@ == (IdentityModel { client_id: "api"@, tenant_id: "default"@ }));
            Ok(identity)
        },
    }
}

/// The topic that a request names.
pub open spec fn requested_topic(topic: Option<Seq<char>>) -> Seq<char> {
    match topic {
        Some(topic) => topic,
        None => "public"@,
    }
}

impl PublishBody {
    /// What is published on a caller's behalf. The topic reads as the caller wrote it.
    pub open spec fn message(self, identity: IdentityModel) -> ServerEventModel {
        ServerEventModel::Message {
            topic: requested_topic(text_view(self.topic)),
            from: identity.client_id,
            request_id: text_view(self.request_id),
            payload: self.payload,
        }
    }

    /// The key of the topic that is published on.
    pub open spec fn target(self, identity: IdentityModel) -> Seq<char> {
        topic_key(identity.tenant_id, normalized(requested_topic(text_view(self.topic))))
    }
}

impl DirectBody {
    /// What is delivered on a caller's behalf.
    pub open spec fn message(self, identity: IdentityModel) -> ServerEventModel {
        ServerEventModel::DirectMessage {
            from: identity.client_id,
            to: self.to@,
            request_id: text_view(self.request_id),
            payload: self.payload,
        }
    }
}

impl StateModel {
    /// Whether publishing on a caller's behalf may lead to `after` and to `reply`, where encoding
    /// what is to be published came to `encoded`.
    pub open spec fn published_for(
        self,
        after: StateModel,
        reply: ApiReply,
        target: Seq<char>,
        encoded: Result<Seq<u8>, EncodeError>,
    ) -> bool {
        match encoded {
            Ok(frame) => {
                &&& reply is Published
                &&& exists|channel: broadcast::Sender<Bytes>|
                    {
                        &&& self.channel_for(target, channel)
                        &&& after == (#[trigger] self.after_publish(
                            target,
                            channel,
                            frame,
                            reply->receivers,
                        )).counting(
                            if reply->receivers == 0 {
                                self.metrics.after_drop()
                            } else {
                                self.metrics.after_messages_out(reply->receivers as nat)
                            },
                        )
                    }
            },
            Err(_) => reply == ApiReply::PublishFailed && after == self,
        }
    }

    /// Whether delivering on a caller's behalf may lead to `after` and to `reply`, where encoding
    /// what is to be delivered came to `encoded`.
    pub open spec fn delivered_for(
        self,
        after: StateModel,
        reply: ApiReply,
        tenant: Seq<char>,
        to: Seq<char>,
        encoded: Result<Seq<u8>, EncodeError>,
    ) -> bool {
        match encoded {
            Ok(frame) => exists|outcome: SendOutcome|
                {
                    &&& reply == (if self.clients.contains_key((tenant, to)) && outcome
                        == SendOutcome::Sent {
                        ApiReply::Delivered
                    } else {
                        ApiReply::ClientNotFound
                    })
                    &&& after == (#[trigger] self.after_direct(
                        to,
                        tenant,
                        frame,
                        outcome,
                    )).counting(
                        if reply is Delivered {
                            self.metrics.after_message_out()
                        } else {
                            self.metrics.after_drop()
                        },
                    )
                },
            Err(_) => reply == ApiReply::DeliveryFailed && after == self,
        }
    }
}

/// Counts `n` messages as sent.
fn count_messages_out(metrics: &mut Metrics, n: usize)
    ensures
        *final(metrics) == old(metrics).after_messages_out(n as nat),
{
    for i in 0..n
        invariant
            *metrics == old(metrics).after_messages_out(i as nat),
    {
        metrics.message_out();
    }
}

/// Sends what a caller has to publish, where encoding it came to `encoded`.
pub fn publish_encoded(
    state: &mut AppState,
    target: &str,
    encoded: Result<Vec<u8>, EncodeError>,
) -> (r: ApiReply)
    requires
        encoded is Ok ==> old(state)@.config.opens_channels(),
    ensures
        old(state)@.published_for(final(state)@, r, target@, encoded_view(encoded)),
        old(state)@.wf() ==> final(state)@.wf(),
{
    match encoded {
        Ok(frame) => {
            let receivers: usize = state.publish(target, bytes_from(frame));
            if receivers == 0 {
                state.metrics.message_dropped();
            } else {
                count_messages_out(&mut state.metrics, receivers);
            }
            ApiReply::Published { receivers }
        },
        Err(_) => ApiReply::PublishFailed,
    }
}

/// Offers what a caller has for a client, where encoding it came to `encoded`.
pub fn deliver_encoded(
    state: &mut AppState,
    tenant_id: &str,
    to: &str,
    encoded: Result<Vec<u8>, EncodeError>,
) -> (r: ApiReply)
    ensures
        old(state)@.delivered_for(final(state)@, r, tenant_id@, to@, encoded_view(encoded)),
        old(state)@.wf() ==> final(state)@.wf(),
{
    match encoded {
        Ok(frame) => {
            if state.send_to_client(to, tenant_id, bytes_from(frame)) {
                state.metrics.message_out();
                ApiReply::Delivered
            } else {
                state.metrics.message_dropped();
                ApiReply::ClientNotFound
            }
        },
        Err(_) => ApiReply::DeliveryFailed,
    }
}

/// Publishes on behalf of a caller.
pub fn api_publish(state: &mut AppState, authorization: Option<&str>, body: &PublishBody) -> (r:
    ApiReply)
    requires
        may_be_let_in(old(state)@.auth, slice_view(authorization))
            ==> old(state)@.config.opens_channels(),
    ensures
        exists|caller: Result<IdentityModel, (u16, Seq<char>)>|
            {
                &&& #[trigger] may_call(old(state)@.auth, slice_view(authorization), caller)
                &&& match caller {
                    Ok(identity) => exists|encoded: Result<Seq<u8>, EncodeError>|
                        {
                            &&& #[trigger] body.message(identity).may_encode(encoded)
                            &&& old(state)@.published_for(
                                final(state)@,
                                r,
                                body.target(identity),
                                encoded,
                            )
                        },
                    Err((status, error)) => {
                        &&& refusal_of(r) == Some((status, error))
                        &&& final(state)@ == old(state)@
                    },
                }
            },
        old(state)@.wf() ==> final(state)@.wf(),
{
    let identity = match resolve_identity(&state.auth, authorization) {
        Ok(identity) => identity,
        Err((status, error)) => {
            let reply = ApiReply::Refused { status, error };
            assert(may_call(state@.auth, slice_view(authorization), Err((status, error@))));
            return reply;
        },
    };
    assert(may_call(state@.auth, slice_view(authorization), Ok(identity@)));
    let topic = match &body.topic {
        Some(topic) => topic.as_str(),
        None => "public",
    };
    let target = tenant_topic(identity.tenant_id.as_str(), normalize_topic(topic).as_str());
    let event = ServerEvent::Message {
        topic,
        from: identity.client_id.as_str(),
        request_id: text_slice(&body.request_id),
        payload: &body.payload,
    };
    assert(event@ == body.message(identity@));
    let encoded = encode_server_event(&event);
    assert(body.message(identity@).may_encode(encoded_view(encoded)));
    publish_encoded(state, target.as_str(), encoded)
}

/// Writes to a client on behalf of a caller.
pub fn api_direct(state: &mut AppState, authorization: Option<&str>, body: &DirectBody) -> (r:
    ApiReply)
    ensures
        exists|caller: Result<IdentityModel, (u16, Seq<char>)>|
            {
                &&& #[trigger] may_call(old(state)@.auth, slice_view(authorization), caller)
                &&& match caller {
                    Ok(identity) => exists|encoded: Result<Seq<u8>, EncodeError>|
                        {
                            &&& #[trigger] body.message(identity).may_encode(encoded)
                            &&& old(state)@.delivered_for(
                                final(state)@,
                                r,
                                identity.tenant_id,
                                body.to@,
                                encoded,
                            )
                        },
                    Err((status, error)) => {
                        &&& refusal_of(r) == Some((status, error))
                        &&& final(state)@ == old(state)@
                    },
                }
            },
        old(state)@.wf() ==> final(state)@.wf(),
{
    let identity = match resolve_identity(&state.auth, authorization) {
        Ok(identity) => identity,
        Err((status, error)) => {
            let reply = ApiReply::Refused { status, error };
            assert(may_call(state@.auth, slice_view(authorization), Err((status, error@))));
            return reply;
        },
    };
    assert(may_call(state@.auth, slice_view(authorization), Ok(identity@)));
    let event = ServerEvent::DirectMessage {
        from: identity.client_id.as_str(),
        to: body.to.as_str(),
        request_id: text_slice(&body.request_id),
        payload: &body.payload,
    };
    assert(event@ == body.message(identity@));
    let encoded = encode_server_event(&event);
    assert(body.message(identity@).may_encode(encoded_view(encoded)));
    deliver_encoded(state, identity.tenant_id.as_str(), body.to.as_str(), encoded)
}

/// A caller without a token, where tokens are asked for, changes nothing and is told so.
pub proof fn law_api_needs_a_token(
    verifier: AuthVerifier,
    header: Option<Seq<char>>,
    caller: Result<IdentityModel, (u16, Seq<char>)>,
)
    requires
        bearer_token(header) is None,
        may_call(Some(verifier), header, caller),
    ensures
        caller == Err::<IdentityModel, (u16, Seq<char>)>(
            (401u16, "missing Authorization header\n"@),
        ),
{
}

/// What is written after `Bearer` is the token, whatever it is.
pub proof fn law_bearer_token_is_what_follows(token: Seq<char>)
    ensures
        bearer_token(Some("Bearer "@ + token)) == Some(token),
{
    let header = "Bearer "@ + token;
    assert("Bearer "@ =~= header.take("Bearer "@.len() as int));
    assert(header.skip("Bearer "@.len() as int) =~= token);
}

/// What is published on a caller's behalf goes where those of the caller's tenant subscribe who connect
/// with that name, or with `public` where the caller names none.
pub proof fn law_api_topic_is_the_subscribers_topic(
    body: PublishBody,
    identity: IdentityModel,
    subscriber: IdentityModel,
    connection_id: u64,
    queue: mpsc::Sender<OutboundMessage>,
)
    requires
        subscriber.tenant_id == identity.tenant_id,
    ensures
        body.topic matches Some(topic) ==> body.target(identity) == subscriber.session(
            topic@,
            connection_id,
            queue,
        ).topic_key,
        body.topic is None ==> body.target(identity) == subscriber.session(
            "public"@,
            connection_id,
            queue,
        ).topic_key,
{
}

/// What is sent on a caller's behalf says who the caller is, and carries the request id and the payload
/// as they came. A published message names the topic as the caller did; a direct one names its
/// addressee.
pub proof fn law_api_messages_carry_their_request(
    publish: PublishBody,
    direct: DirectBody,
    identity: IdentityModel,
)
    ensures
        publish.message(identity) == (ServerEventModel::Message {
            topic: match publish.topic {
                Some(topic) => topic@,
                None => "public"@,
            },
            from: identity.client_id,
            request_id: text_view(publish.request_id),
            payload: publish.payload,
        }),
        direct.message(identity) == (ServerEventModel::DirectMessage {
            from: identity.client_id,
            to: direct.to@,
            request_id: text_view(direct.request_id),
            payload: direct.payload,
        }),
{
}

/// What is published on a caller's behalf goes out once, and the caller is told how many heard it: so many
/// messages count as sent, or, where nobody heard it, one as dropped.
pub proof fn law_api_publication_is_heard(
    before: StateModel,
    after: StateModel,
    reply: ApiReply,
    target: Seq<char>,
    frame: Seq<u8>,
    place: int,
)
    requires
        before.published_for(after, reply, target, Ok(frame)),
        before.topics.contains_key(target),
        0 <= place < before.deliveries.len(),
        before.deliveries[place] == (Delivery::Subscribed { channel: before.topics[target] }),
    ensures
        reply is Published,
        after.deliveries == before.deliveries.push(
            Delivery::Broadcast {
                channel: before.topics[target],
                message: frame,
                receivers: reply->receivers,
            },
        ),
        heard(after.deliveries, place) == heard(before.deliveries, place).push(frame),
        reply->receivers == 0 ==> after.metrics == (Metrics {
            dropped_messages: before.metrics.dropped_messages.wrapping_add(1),
            ..before.metrics
        }),
        reply->receivers > 0 ==> after.metrics == (Metrics {
            messages_out: ((before.metrics.messages_out + reply->receivers)
                % 0x1_0000_0000_0000_0000) as u64,
            ..before.metrics
        }),
        after == (StateModel {
            deliveries: after.deliveries,
            metrics: after.metrics,
            ..before
        }),
{
    assert(after.deliveries.drop_last() =~= before.deliveries);
    law_messages_out_add_up(before.metrics, reply->receivers as nat);
}

/// What is written to a client on a caller's behalf is offered to that client of the tenant, once. The
/// caller is told that it was delivered where the client takes it, and that there is no such client
/// where it does not or where the tenant has none; it counts as sent or as dropped accordingly.
pub proof fn law_api_direct_message_is_offered(
    before: StateModel,
    after: StateModel,
    reply: ApiReply,
    tenant: Seq<char>,
    to: Seq<char>,
    frame: Seq<u8>,
)
    requires
        before.delivered_for(after, reply, tenant, to, Ok(frame)),
    ensures
        reply is Delivered || reply is ClientNotFound,
        !before.clients.contains_key((tenant, to)) ==> reply is ClientNotFound && after.deliveries
            == before.deliveries,
        before.clients.contains_key((tenant, to)) ==> {
            let offer = after.deliveries.last();
            &&& after.deliveries == before.deliveries.push(offer)
            &&& offer is Queued
            &&& offer->Queued_queue == before.clients[(tenant, to)].sender
            &&& offer->Queued_message == OutboundModel::Binary(frame)
            &&& reply is Delivered <==> offer->outcome == SendOutcome::Sent
        },
        reply is Delivered ==> after.metrics == (Metrics {
            messages_out: before.metrics.messages_out.wrapping_add(1),
            ..before.metrics
        }),
        reply is ClientNotFound ==> after.metrics == (Metrics {
            dropped_messages: before.metrics.dropped_messages.wrapping_add(1),
            ..before.metrics
        }),
        after == (StateModel {
            deliveries: after.deliveries,
            metrics: after.metrics,
            ..before
        }),
{
}

/// What cannot be encoded goes nowhere, and the caller is told so.
pub proof fn law_api_failures_change_nothing(
    before: StateModel,
    after: StateModel,
    reply: ApiReply,
    tenant: Seq<char>,
    name: Seq<char>,
    e: EncodeError,
)
    ensures
        before.published_for(after, reply, name, Err(e)) ==> reply is PublishFailed && after
            == before,
        before.delivered_for(after, reply, tenant, name, Err(e)) ==> reply is DeliveryFailed
            && after == before,
{
}

/// A request that was met is answered 200 and names no error, one for a client that is not there 404, one
/// that could not be encoded 500. A refused caller is answered as it was refused.
pub proof fn law_api_replies_tell_what_happened(reply: ApiReply)
    ensures
        reply is Published || reply is Delivered ==> reply.spec_status() == 200
            && reply.spec_error() is None,
        reply is ClientNotFound ==> reply.spec_status() == 404 && reply.spec_error() == Some(
            "client_not_found"@,
        ),
        reply is PublishFailed || reply is DeliveryFailed ==> reply.spec_status() == 500
            && reply.spec_error() == Some("encode failed"@),
        reply matches ApiReply::Refused { status, error } ==> reply.spec_status() == status
            && reply.spec_error() == Some(error@),
{
}

/// Only a header that begins with `Bearer` and a space holds a token.
pub proof fn law_other_headers_hold_no_token(header: Seq<char>)
    ensures
        bearer_token(Some(header)) matches Some(token) ==> header == "Bearer "@ + token,
        !"Bearer "@.is_prefix_of(header) ==> bearer_token(Some(header)) is None,
        bearer_token(None) is None,
{
    if "Bearer "@.is_prefix_of(header) {
        assert(header =~= "Bearer "@ + header.skip("Bearer "@.len() as int));
    }
}

/// Where no token is asked for, every caller is `api` of the default tenant. Where one is, a caller is
/// whom its token names, or is told why the token does not hold.
pub proof fn law_callers_are_who_their_token_says(
    header: Option<Seq<char>>,
    verifier: AuthVerifier,
    token: Seq<char>,
    caller: Result<IdentityModel, (u16, Seq<char>)>,
)
    ensures
        may_call(None, header, caller) <==> caller == Ok::<IdentityModel, (u16, Seq<char>)>(
            IdentityModel { client_id: "api"@, tenant_id: "default"@ },
        ),
        may_call(Some(verifier), Some("Bearer "@ + token), caller) ==> (match caller {
            Ok(identity) => verifier.may_answer(token, Ok(identity)),
            Err((status, error)) => status == 401 && exists|e: AuthError|
                {
                    &&& #[trigger] verifier.may_answer(token, Err(e))
                    &&& error == "invalid token: "@ + e.spec_message() + "\n"@
                },
        }),
{
    law_bearer_token_is_what_follows(token);
    if may_be_judged(verifier, token, caller) {
        let verdict = choose|verdict: Result<IdentityModel, AuthError>|
            {
                &&& #[trigger] verifier.may_answer(token, verdict)
                &&& caller_of(verdict) == caller
            };
        match verdict {
            Ok(identity) => {
                assert(caller == Ok::<IdentityModel, (u16, Seq<char>)>(identity));
            },
            Err(e) => {
                assert(verifier.may_answer(token, Err(e)));
            },
        }
    }
}

/// What is known of a caller is viewed as it is.
pub proof fn law_callers_are_viewed_whole(caller: Result<AuthIdentity, (u16, String)>)
    ensures
        caller matches Ok(identity) ==> caller_view(caller) == Ok::<
            IdentityModel,
            (u16, Seq<char>),
        >(identity@),
        caller matches Err((status, error)) ==> caller_view(caller) == Err::<
            IdentityModel,
            (u16, Seq<char>),
        >((status, error@)),
{
}

/// A refused caller is answered with the status and the text of its refusal.
pub proof fn law_refusals_are_passed_on(reply: ApiReply, status: u16, error: Seq<char>)
    requires
        refusal_of(reply) == Some((status, error)),
    ensures
        reply is Refused,
        reply.spec_status() == status,
        reply.spec_error() == Some(error),
{
}

} // verus!
