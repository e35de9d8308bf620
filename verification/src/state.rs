//! What the server knows: who is connected, which topics there are, and what is left of every
//! limit.
use bytes::Bytes;
use dashmap::DashMap;
use tokio::sync::broadcast;
use tokio::sync::mpsc;
use vstd::hash_map::StringHashMap;
use vstd::prelude::*;
use vstd::string::StringExecFns;

use crate::auth::configured_decoding;
use crate::auth::AuthVerifier;
use crate::bucket::after_requests;
use crate::bucket::at_least_one;
use crate::bucket::in_order;
use crate::bucket::law_new_bucket_passes_its_burst;
use crate::bucket::law_rate_is_bounded;
use crate::bucket::law_used_up_bucket_earns_its_rate;
use crate::bucket::let_through;
use crate::bucket::TokenBucket;
use crate::bucket::TOKEN;
use crate::channel::broadcast_send;
use crate::channel::bytes_of;
use crate::channel::channel_capacity;
use crate::channel::channel_known;
use crate::channel::heard;
use crate::channel::new_channel;
use crate::channel::new_queue;
use crate::channel::queue_capacity;
use crate::channel::queue_known;
use crate::channel::queue_read_by;
use crate::channel::source_of;
use crate::channel::subscribe_to;
use crate::channel::try_send;
use crate::channel::Deliveries;
use crate::channel::Delivery;
use crate::channel::OutboundMessage;
use crate::channel::OutboundModel;
use crate::channel::SendOutcome;
use crate::config::Config;
use crate::ip_limiter::configured_rules;
use crate::ip_limiter::IpLimiter;
use crate::ip_limiter::IpLimiterModel;
use crate::ip_limiter::IpState;
use crate::json::text_view;
use crate::metrics::Metrics;

verus! {

/// The connection of one client.
pub struct ClientHandle {
    pub connection_id: u64,
    pub sender: mpsc::Sender<OutboundMessage>,
}

impl ClientHandle {
    /// Another handle to the same connection.
    pub fn duplicate(&self) -> (r: ClientHandle)
        ensures
            r == *self,
    {
        ClientHandle { connection_id: self.connection_id, sender: self.sender.clone() }
    }
}

/// What is known of one tenant.
#[derive(Clone, Copy, Debug)]
pub struct TenantState {
    /// Its open connections.
    pub in_use: usize,
    /// The messages that it may still send.
    pub bucket: Option<TokenBucket>,
}

/// A number of connections that may be open at once.
#[derive(Clone, Copy, Debug)]
pub struct Slots {
    pub capacity: usize,
    pub in_use: usize,
}

/// The right to one open connection, to be handed back when it ends.
#[derive(Debug)]
pub struct SlotPermit {
    taken: (),
}

/// The right to one open connection of a tenant, to be handed back when it ends.
#[derive(Debug)]
pub struct TenantPermit {
    pub tenant_id: String,
}

impl Slots {
    /// The slots after one is handed back.
    pub open spec fn after_release(self) -> Slots {
        Slots {
            in_use: if self.in_use > 0 {
                (self.in_use - 1) as usize
            } else {
                0
            },
            ..self
        }
    }

    /// The slots after one is taken.
    pub open spec fn after_acquire(self) -> Slots {
        if self.in_use < self.capacity {
            Slots { in_use: (self.in_use + 1) as usize, ..self }
        } else {
            self
        }
    }

    /// Slots that are all free.
    pub fn new(capacity: usize) -> (r: Slots)
        ensures
            r == (Slots { capacity, in_use: 0 }),
    {
        Slots { capacity, in_use: 0 }
    }

    /// Takes a slot where one is free.
    pub fn try_acquire(&mut self) -> (r: Option<SlotPermit>)
        ensures
            r is Some <==> old(self).in_use < old(self).capacity,
            *final(self) == old(self).after_acquire(),
    {
        if self.in_use < self.capacity {
            self.in_use = self.in_use + 1;
            Some(SlotPermit { taken: () })
        } else {
            None
        }
    }

    /// Hands a slot back.
    pub fn release(&mut self, permit: SlotPermit)
        ensures
            *final(self) == old(self).after_release(),
    {
        if self.in_use > 0 {
            self.in_use = self.in_use - 1;
        }
    }
}

/// What a map of clients holds, by tenant and client.
pub uninterp spec fn clients_of(m: DashMap<(String, String), ClientHandle>) -> Map<
    (Seq<char>, Seq<char>),
    ClientHandle,
>;

/// What a map of topics holds.
pub uninterp spec fn topics_of(m: DashMap<String, broadcast::Sender<Bytes>>) -> Map<
    Seq<char>,
    broadcast::Sender<Bytes>,
>;

/// Calls `DashMap::new`. Claimed: the map is empty.
#[verifier::external_body]
fn new_client_map() -> (r: DashMap<(String, String), ClientHandle>)
    ensures
        clients_of(r).dom() == Set::<(Seq<char>, Seq<char>)>::empty(),
{
    DashMap::new()
}

/// Calls `DashMap::get` and makes another handle of the value. Claimed: it is what the map holds
/// under the key, where it holds anything there.
#[verifier::external_body]
fn client_get(m: &DashMap<(String, String), ClientHandle>, key: &(String, String)) -> (r: Option<
    ClientHandle,
>)
    ensures
        r == (if clients_of(*m).contains_key((key.0@, key.1@)) {
            Some(clients_of(*m)[(key.0@, key.1@)])
        } else {
            None
        }),
{
    m.get(key).map(|handle| handle.duplicate())
}

/// Calls `DashMap::insert`. Claimed: the map then holds the value under the key, and is otherwise
/// as it was.
#[verifier::external_body]
fn client_insert(
    m: &mut DashMap<(String, String), ClientHandle>,
    key: (String, String),
    handle: ClientHandle,
)
    ensures
        clients_of(*final(m)) == clients_of(*old(m)).insert((key.0@, key.1@), handle),
{
    m.insert(key, handle);
}

/// Calls `DashMap::remove`. Claimed: the map then holds nothing under the key, and is otherwise as
/// it was.
#[verifier::external_body]
fn client_remove(m: &mut DashMap<(String, String), ClientHandle>, key: &(String, String))
    ensures
        clients_of(*final(m)) == clients_of(*old(m)).remove((key.0@, key.1@)),
{
    m.remove(key);
}

/// Calls `DashMap::new`. Claimed: the map is empty.
#[verifier::external_body]
fn new_topic_map() -> (r: DashMap<String, broadcast::Sender<Bytes>>)
    ensures
        topics_of(r).dom() == Set::<Seq<char>>::empty(),
{
    DashMap::new()
}

/// Calls `DashMap::get` and clones the value. Claimed: it feeds the channel that the map holds
/// under the key, where it holds any there.
#[verifier::external_body]
fn topic_get(m: &DashMap<String, broadcast::Sender<Bytes>>, key: &str) -> (r: Option<
    broadcast::Sender<Bytes>,
>)
    ensures
        r == (if topics_of(*m).contains_key(key@) {
            Some(topics_of(*m)[key@])
        } else {
            None
        }),
{
    m.get(key).map(|sender| sender.clone())
}

/// Calls `DashMap::insert`. Claimed: the map then holds the value under the key, and is otherwise
/// as it was.
#[verifier::external_body]
fn topic_insert(
    m: &mut DashMap<String, broadcast::Sender<Bytes>>,
    key: String,
    sender: broadcast::Sender<Bytes>,
)
    ensures
        topics_of(*final(m)) == topics_of(*old(m)).insert(key@, sender),
{
    m.insert(key, sender);
}

/// Who is connected, which topics there are, and what the tenants have left.
pub struct Registry {
    topics: DashMap<String, broadcast::Sender<Bytes>>,
    // By tenant and client, so that one client id can exist in several tenants.
    clients: DashMap<(String, String), ClientHandle>,
    tenants: StringHashMap<TenantState>,
    next_connection_id: u64,
    deliveries: Deliveries,
}

/// What a registry holds.
#[verifier::ext_equal]
pub struct RegistryModel {
    pub topics: Map<Seq<char>, broadcast::Sender<Bytes>>,
    pub clients: Map<(Seq<char>, Seq<char>), ClientHandle>,
    pub tenants: Map<Seq<char>, TenantState>,
    pub next_connection_id: u64,
    pub deliveries: Seq<Delivery>,
}

impl View for Registry {
    type V = RegistryModel;

    closed spec fn view(&self) -> RegistryModel {
        RegistryModel {
            topics: topics_of(self.topics),
            clients: clients_of(self.clients),
            tenants: self.tenants@,
            next_connection_id: self.next_connection_id,
            deliveries: self.deliveries@,
        }
    }
}

/// The state of one server.
pub struct AppState {
    pub config: Config,
    pub metrics: Metrics,
    pub connection_limit: Slots,
    pub auth: Option<AuthVerifier>,
    pub ip_limiter: Option<IpLimiter>,
    pub registry: Registry,
}

/// What a server knows.
#[verifier::ext_equal]
pub struct StateModel {
    pub config: Config,
    pub metrics: Metrics,
    pub slots: Slots,
    pub auth: Option<AuthVerifier>,
    pub ip_limiter: Option<IpLimiterModel>,
    pub topics: Map<Seq<char>, broadcast::Sender<Bytes>>,
    pub clients: Map<(Seq<char>, Seq<char>), ClientHandle>,
    pub tenants: Map<Seq<char>, TenantState>,
    pub next_connection_id: u64,
    pub deliveries: Seq<Delivery>,
}

/// What a limiter knows, where there is one.
pub open spec fn limiter_view(limiter: Option<IpLimiter>) -> Option<IpLimiterModel> {
    match limiter {
        Some(limiter) => Some(limiter@),
        None => None,
    }
}

impl View for AppState {
    type V = StateModel;

    open spec fn view(&self) -> StateModel {
        StateModel {
            config: self.config,
            metrics: self.metrics,
            slots: self.connection_limit,
            auth: self.auth,
            ip_limiter: limiter_view(self.ip_limiter),
            topics: self.registry@.topics,
            clients: self.registry@.clients,
            tenants: self.registry@.tenants,
            next_connection_id: self.registry@.next_connection_id,
            deliveries: self.registry@.deliveries,
        }
    }
}

impl Config {
    /// Whether a topic can have a channel of the configured capacity.
    pub open spec fn opens_channels(self) -> bool {
        0 < self.topic_channel_capacity <= usize::MAX / 2
    }

    /// Whether a client can have a queue of the configured capacity.
    pub open spec fn opens_queues(self) -> bool {
        0 < self.client_queue_capacity <= usize::MAX / 8
    }
}

/// No tenant has more connections than it may.
pub open spec fn tenants_within(tenants: Map<Seq<char>, TenantState>, cap: Option<usize>) -> bool {
    cap matches Some(cap) ==> forall|tenant: Seq<char>| #[trigger]
        tenants.contains_key(tenant) ==> tenants[tenant].in_use <= cap
}

/// Each topic has a channel of its own, of the configured capacity.
pub open spec fn topics_sound(
    topics: Map<Seq<char>, broadcast::Sender<Bytes>>,
    deliveries: Seq<Delivery>,
    capacity: usize,
) -> bool {
    &&& forall|key: Seq<char>| #[trigger]
        topics.contains_key(key) ==> channel_known(deliveries, topics[key]) && channel_capacity(
            topics[key],
        ) == capacity
    &&& forall|key: Seq<char>, other: Seq<char>| #[trigger]
        topics.contains_key(key) && #[trigger] topics.contains_key(other) && key != other
            ==> topics[key] != topics[other]
}

/// A longer record keeps topics sound.
pub proof fn lemma_record_grows(
    topics: Map<Seq<char>, broadcast::Sender<Bytes>>,
    before: Seq<Delivery>,
    after: Seq<Delivery>,
    capacity: usize,
)
    requires
        topics_sound(topics, before, capacity),
        before.is_prefix_of(after),
    ensures
        topics_sound(topics, after, capacity),
{
    assert forall|key: Seq<char>| #[trigger] topics.contains_key(key) implies channel_known(
        after,
        topics[key],
    ) by {
        let opened = Delivery::ChannelOpened { channel: topics[key] };
        assert(channel_known(before, topics[key]));
        let i = choose|i: int| 0 <= i < before.len() && before[i] == opened;
        assert(after[i] == opened);
    }
}

impl StateModel {
    /// No limit is overstepped, and each topic has a channel of its own, of the configured
    /// capacity.
    pub open spec fn wf(self) -> bool {
        &&& self.slots.in_use <= self.slots.capacity
        &&& self.ip_limiter matches Some(limiter) ==> limiter.rules.cap_kept(limiter.states)
        &&& tenants_within(self.tenants, self.config.tenant_max_connections)
        &&& topics_sound(self.topics, self.deliveries, self.config.topic_channel_capacity)
    }

    /// What is known of a tenant.
    pub open spec fn tenant(self, tenant: Seq<char>) -> TenantState {
        if self.tenants.contains_key(tenant) {
            self.tenants[tenant]
        } else {
            TenantState { in_use: 0, bucket: None }
        }
    }

    /// The state with other counters.
    pub open spec fn counting(self, metrics: Metrics) -> StateModel {
        StateModel { metrics, ..self }
    }

    /// The state with one more entry in the record.
    pub open spec fn recording(self, delivery: Delivery) -> StateModel {
        StateModel { deliveries: self.deliveries.push(delivery), ..self }
    }

    /// The state with other knowledge of a tenant.
    pub open spec fn with_tenant(self, tenant: Seq<char>, known: TenantState) -> StateModel {
        StateModel { tenants: self.tenants.insert(tenant, known), ..self }
    }

    /// The state after a client connected.
    pub open spec fn after_register(
        self,
        client: Seq<char>,
        tenant: Seq<char>,
        connection_id: u64,
        sender: mpsc::Sender<OutboundMessage>,
    ) -> StateModel {
        StateModel {
            clients: self.clients.insert((tenant, client), ClientHandle { connection_id, sender }),
            ..self
        }
    }

    /// The state after a connection of a client ended: the client is forgotten, unless it has a
    /// newer connection.
    pub open spec fn after_unregister(
        self,
        client: Seq<char>,
        tenant: Seq<char>,
        connection_id: u64,
    ) -> StateModel {
        if self.clients.contains_key((tenant, client)) && self.clients[(
            tenant,
            client,
        )].connection_id == connection_id {
            StateModel { clients: self.clients.remove((tenant, client)), ..self }
        } else {
            self
        }
    }

    /// The state after a message was offered to a client, where it is connected.
    pub open spec fn after_direct(
        self,
        client: Seq<char>,
        tenant: Seq<char>,
        message: Seq<u8>,
        outcome: SendOutcome,
    ) -> StateModel {
        if self.clients.contains_key((tenant, client)) {
            self.recording(
                Delivery::Queued {
                    queue: self.clients[(tenant, client)].sender,
                    message: OutboundModel::Binary(message),
                    outcome,
                },
            )
        } else {
            self
        }
    }

    /// Whether `channel` is the channel of a topic, or can become it: a new one, of the
    /// configured capacity.
    pub open spec fn channel_for(self, key: Seq<char>, channel: broadcast::Sender<Bytes>) -> bool {
        if self.topics.contains_key(key) {
            channel == self.topics[key]
        } else {
            &&& !channel_known(self.deliveries, channel)
            &&& channel_capacity(channel) == self.config.topic_channel_capacity
        }
    }

    /// The state in which the topic has a channel, `channel` where it had none.
    pub open spec fn with_channel(
        self,
        key: Seq<char>,
        channel: broadcast::Sender<Bytes>,
    ) -> StateModel {
        if self.topics.contains_key(key) {
            self
        } else {
            StateModel {
                topics: self.topics.insert(key, channel),
                deliveries: self.deliveries.push(Delivery::ChannelOpened { channel }),
                ..self
            }
        }
    }

    /// The state after a subscription to a topic.
    pub open spec fn after_subscribe(
        self,
        key: Seq<char>,
        channel: broadcast::Sender<Bytes>,
    ) -> StateModel {
        self.with_channel(key, channel).recording(Delivery::Subscribed { channel })
    }

    /// The state after a message was sent on a topic's channel.
    pub open spec fn after_publish(
        self,
        key: Seq<char>,
        channel: broadcast::Sender<Bytes>,
        message: Seq<u8>,
        receivers: usize,
    ) -> StateModel {
        self.with_channel(key, channel).recording(
            Delivery::Broadcast { channel, message, receivers },
        )
    }

    /// The bucket that a tenant's next message draws on, where messages are limited.
    pub open spec fn tenant_bucket(self, tenant: Seq<char>, now: u64) -> Option<TokenBucket> {
        match self.config.tenant_max_messages_per_second {
            None => None,
            Some(rate) => match self.tenant(tenant).bucket {
                Some(bucket) => Some(bucket),
                None => Some(
                    TokenBucket::full(
                        rate,
                        match self.config.tenant_message_burst {
                            Some(burst) => burst,
                            None => rate,
                        },
                        now,
                    ),
                ),
            },
        }
    }

    /// Whether a tenant's message is let through at `now`.
    pub open spec fn tenant_rate_lets_through(self, tenant: Seq<char>, now: u64) -> bool {
        self.tenant_bucket(tenant, now) matches Some(bucket) ==> bucket.lets_through(now)
    }

    /// The state after a tenant's message was counted.
    pub open spec fn after_tenant_message(self, tenant: Seq<char>, now: u64) -> StateModel {
        match self.tenant_bucket(tenant, now) {
            None => self,
            Some(bucket) => self.with_tenant(
                tenant,
                TenantState { bucket: Some(bucket.after_request(now)), ..self.tenant(tenant) },
            ),
        }
    }

    /// Whether a tenant may open no further connection.
    pub open spec fn tenant_full(self, tenant: Seq<char>) -> bool {
        self.config.tenant_max_connections matches Some(cap) && self.tenant(tenant).in_use >= cap
    }

    /// The state after a tenant asked for a connection.
    pub open spec fn after_tenant_acquire(self, tenant: Seq<char>) -> StateModel {
        if self.config.tenant_max_connections is None || self.tenant_full(tenant) {
            self
        } else {
            self.with_tenant(
                tenant,
                TenantState {
                    in_use: (self.tenant(tenant).in_use + 1) as usize,
                    ..self.tenant(tenant)
                },
            )
        }
    }

    /// The state after a connection of a tenant ended.
    pub open spec fn after_tenant_release(self, tenant: Seq<char>) -> StateModel {
        if self.tenant(tenant).in_use > 0 {
            self.with_tenant(
                tenant,
                TenantState {
                    in_use: (self.tenant(tenant).in_use - 1) as usize,
                    ..self.tenant(tenant)
                },
            )
        } else {
            self
        }
    }
}

/// The key of a tenant's topic.
pub open spec fn topic_key(tenant: Seq<char>, topic: Seq<char>) -> Seq<char> {
    tenant + seq![':'] + topic
}

/// The key of a tenant's topic. The tenant's id stands before the topic, so that tenants do not
/// meet; clients never see it.
pub fn tenant_topic(tenant_id: &str, topic: &str) -> (r: String)
    ensures
        r@ == topic_key(tenant_id@, topic@),
        r@ == tenant_id@ + seq![':'] + topic@,
{
    proof {
        reveal_strlit(":");
    }
    let mut key = tenant_id.to_owned();
    key.append(":");
    key.append(topic);
    assert(key@ =~= topic_key(tenant_id@, topic@));
    key
}

impl AppState {
    /// A server to which nobody is connected yet.
    pub fn new(config: Config) -> (r: AppState)
        requires
            config.max_connections <= usize::MAX / 8,
        ensures
            r@.config == config,
            r@.metrics == Metrics::zero(),
            r@.slots == (Slots { capacity: config.max_connections, in_use: 0 }),
            (match r@.auth {
                Some(verifier) => Some(verifier.decoding),
                None => None,
            }) == configured_decoding(
                text_view(config.jwt_secret),
                text_view(config.jwt_public_key),
            ),
            r@.auth matches Some(verifier) ==> text_view(verifier.issuer) == text_view(
                config.jwt_issuer,
            ),
            match r@.ip_limiter {
                Some(limiter) => {
                    &&& configured_rules(
                        config.ip_max_concurrent,
                        config.ip_connection_rate,
                        config.ip_rate_burst,
                    ) == Some(limiter.rules)
                    &&& limiter.states == Map::<(bool, u128), IpState>::empty()
                },
                None => configured_rules(
                    config.ip_max_concurrent,
                    config.ip_connection_rate,
                    config.ip_rate_burst,
                ) is None,
            },
            r@.topics == Map::<Seq<char>, broadcast::Sender<Bytes>>::empty(),
            r@.clients == Map::<(Seq<char>, Seq<char>), ClientHandle>::empty(),
            r@.tenants == Map::<Seq<char>, TenantState>::empty(),
            r@.next_connection_id == 1,
            r@.deliveries == Seq::<Delivery>::empty(),
            r@.wf(),
    {
        let auth = AuthVerifier::from_config(&config);
        let ip_limiter = IpLimiter::from_config(&config);
        AppState {
            connection_limit: Slots::new(config.max_connections),
            auth,
            ip_limiter,
            config,
            metrics: Metrics::default(),
            registry: Registry {
                topics: new_topic_map(),
                clients: new_client_map(),
                tenants: StringHashMap::new(),
                next_connection_id: 1,
                deliveries: Deliveries::new(),
            },
        }
    }

    /// A number for a new connection.
    pub fn next_connection_id(&mut self) -> (r: u64)
        ensures
            r == old(self)@.next_connection_id,
            final(self)@ == (StateModel {
                next_connection_id: r.wrapping_add(1),
                ..old(self)@
            }),
            old(self)@.wf() ==> final(self)@.wf(),
    {
        let id: u64 = self.registry.next_connection_id;
        self.registry.next_connection_id = id.wrapping_add(1);
        id
    }

    /// Makes a client's connection known. One that was known before is replaced.
    pub fn register_client(
        &mut self,
        client_id: String,
        tenant_id: String,
        connection_id: u64,
        sender: mpsc::Sender<OutboundMessage>,
    )
        ensures
            final(self)@ == old(self)@.after_register(
                client_id@,
                tenant_id@,
                connection_id,
                sender,
            ),
            old(self)@.wf() ==> final(self)@.wf(),
    {
        client_insert(
            &mut self.registry.clients,
            (tenant_id, client_id),
            ClientHandle { connection_id, sender },
        );
    }

    /// Forgets a client's connection, unless a newer one has taken its place.
    pub fn unregister_client(&mut self, client_id: &str, tenant_id: &str, connection_id: u64)
        ensures
            final(self)@ == old(self)@.after_unregister(client_id@, tenant_id@, connection_id),
            old(self)@.wf() ==> final(self)@.wf(),
    {
        let key = (tenant_id.to_owned(), client_id.to_owned());
        if let Some(handle) = client_get(&self.registry.clients, &key) {
            if handle.connection_id == connection_id {
                client_remove(&mut self.registry.clients, &key);
            }
        }
    }

    /// Offers a message to a client of a tenant. The same id in another tenant does not count.
    pub fn send_to_client(&mut self, client_id: &str, tenant_id: &str, message: Bytes) -> (r: bool)
        ensures
            exists|outcome: SendOutcome|
                {
                    &&& final(self)@ == #[trigger] old(self)@.after_direct(
                        client_id@,
                        tenant_id@,
                        bytes_of(message),
                        outcome,
                    )
                    &&& r == (old(self)@.clients.contains_key((tenant_id@, client_id@)) && outcome
                        == SendOutcome::Sent)
                },
            old(self)@.wf() ==> final(self)@.wf(),
    {
        let key = (tenant_id.to_owned(), client_id.to_owned());
        match client_get(&self.registry.clients, &key) {
            Some(handle) => {
                let outcome = try_send(
                    &mut self.registry.deliveries,
                    &handle.sender,
                    OutboundMessage::Binary(message),
                );
                assert(self@ == old(self)@.after_direct(
                    client_id@,
                    tenant_id@,
                    bytes_of(message),
                    outcome,
                ));
                proof {
                    old(self)@.lemma_recording_keeps_wf(self@.deliveries.last());
                }
                match outcome {
                    SendOutcome::Sent => true,
                    _ => false,
                }
            },
            None => {
                assert(self@ == old(self)@.after_direct(
                    client_id@,
                    tenant_id@,
                    bytes_of(message),
                    SendOutcome::Closed,
                ));
                false
            },
        }
    }

    /// Offers a message to a queue.
    pub fn offer(
        &mut self,
        queue: &mpsc::Sender<OutboundMessage>,
        message: OutboundMessage,
    ) -> (r: SendOutcome)
        ensures
            final(self)@ == old(self)@.recording(
                Delivery::Queued { queue: *queue, message: message@, outcome: r },
            ),
            old(self)@.wf() ==> final(self)@.wf(),
    {
        let outcome = try_send(&mut self.registry.deliveries, queue, message);
        proof {
            old(self)@.lemma_recording_keeps_wf(self@.deliveries.last());
        }
        outcome
    }

    /// Makes a queue for a client.
    pub fn open_queue(&mut self) -> (r: (
        mpsc::Sender<OutboundMessage>,
        mpsc::Receiver<OutboundMessage>,
    ))
        requires
            old(self)@.config.opens_queues(),
        ensures
            !queue_known(old(self)@.deliveries, r.0),
            queue_capacity(r.0) == old(self)@.config.client_queue_capacity,
            queue_read_by(r.1) == r.0,
            final(self)@ == old(self)@.recording(Delivery::QueueOpened { queue: r.0 }),
            old(self)@.wf() ==> final(self)@.wf(),
    {
        let ends = new_queue(&mut self.registry.deliveries, self.config.client_queue_capacity);
        proof {
            old(self)@.lemma_recording_keeps_wf(self@.deliveries.last());
        }
        ends
    }

    /// Sends a message on a topic's channel, and tells how many subscribers there are.
    pub fn publish(&mut self, topic_key: &str, message: Bytes) -> (r: usize)
        requires
            old(self)@.config.opens_channels(),
        ensures
            exists|channel: broadcast::Sender<Bytes>|
                {
                    &&& old(self)@.channel_for(topic_key@, channel)
                    &&& final(self)@ == #[trigger] old(self)@.after_publish(
                        topic_key@,
                        channel,
                        bytes_of(message),
                        r,
                    )
                },
            old(self)@.wf() ==> final(self)@.wf(),
    {
        let sender = self.topic_sender(topic_key);
        let ghost opened = self@;
        let receivers: usize = broadcast_send(&mut self.registry.deliveries, &sender, message);
        assert(self@ == old(self)@.after_publish(
            topic_key@,
            sender,
            bytes_of(message),
            receivers,
        ));
        proof {
            opened.lemma_recording_keeps_wf(self@.deliveries.last());
        }
        receivers
    }

    /// Subscribes to a topic.
    pub fn subscribe(&mut self, topic_key: &str) -> (r: broadcast::Receiver<Bytes>)
        requires
            old(self)@.config.opens_channels(),
        ensures
            old(self)@.channel_for(topic_key@, source_of(r)),
            final(self)@ == old(self)@.after_subscribe(topic_key@, source_of(r)),
            old(self)@.wf() ==> final(self)@.wf(),
    {
        let sender = self.topic_sender(topic_key);
        let ghost opened = self@;
        let subscription = subscribe_to(&mut self.registry.deliveries, &sender);
        proof {
            opened.lemma_recording_keeps_wf(Delivery::Subscribed { channel: sender });
        }
        subscription
    }

    /// The channel of a topic, a new one where it had none.
    fn topic_sender(&mut self, topic_key: &str) -> (r: broadcast::Sender<Bytes>)
        requires
            old(self)@.config.opens_channels(),
        ensures
            old(self)@.channel_for(topic_key@, r),
            final(self)@ == old(self)@.with_channel(topic_key@, r),
            old(self)@.wf() ==> final(self)@.wf(),
    {
        if let Some(sender) = topic_get(&self.registry.topics, topic_key) {
            return sender;
        }
        let sender = new_channel(
            &mut self.registry.deliveries,
            self.config.topic_channel_capacity,
        );
        topic_insert(&mut self.registry.topics, topic_key.to_owned(), sender.clone());
        proof {
            old(self)@.lemma_new_channel_keeps_wf(topic_key@, sender);
        }
        sender
    }

    /// Asks for a connection of a tenant. None where they are not limited.
    pub fn acquire_tenant_permit(&mut self, tenant_id: &str) -> (r: Option<
        Result<TenantPermit, ()>,
    >)
        ensures
            r is None <==> old(self)@.config.tenant_max_connections is None,
            r matches Some(Ok(permit)) ==> permit.tenant_id@ == tenant_id@,
            r matches Some(Err(_)) <==> old(self)@.tenant_full(tenant_id@),
            final(self)@ == old(self)@.after_tenant_acquire(tenant_id@),
            old(self)@.wf() ==> final(self)@.wf(),
    {
        let cap: usize = match self.config.tenant_max_connections {
            Some(cap) => cap,
            None => return None,
        };
        let known = self.tenant_state(tenant_id);
        if known.in_use >= cap {
            return Some(Err(()));
        }
        let in_use: usize = known.in_use + 1;
        self.registry.tenants.insert(tenant_id.to_owned(), TenantState { in_use, ..known });
        Some(Ok(TenantPermit { tenant_id: tenant_id.to_owned() }))
    }

    /// Hands back a connection of a tenant.
    pub fn release_tenant_permit(&mut self, permit: TenantPermit)
        ensures
            final(self)@ == old(self)@.after_tenant_release(permit.tenant_id@),
            old(self)@.wf() ==> final(self)@.wf(),
    {
        let known = self.tenant_state(permit.tenant_id.as_str());
        if known.in_use > 0 {
            let in_use: usize = known.in_use - 1;
            self.registry.tenants.insert(permit.tenant_id, TenantState { in_use, ..known });
        }
    }

    /// Counts a message of a tenant, and tells whether it is let through.
    pub fn check_tenant_rate(&mut self, tenant_id: &str, now: u64) -> (r: bool)
        ensures
            r == old(self)@.tenant_rate_lets_through(tenant_id@, now),
            final(self)@ == old(self)@.after_tenant_message(tenant_id@, now),
            old(self)@.wf() ==> final(self)@.wf(),
    {
        let rate: u32 = match self.config.tenant_max_messages_per_second {
            Some(rate) => rate,
            None => return true,
        };
        let known = self.tenant_state(tenant_id);
        let mut bucket = match known.bucket {
            Some(bucket) => bucket,
            None => {
                let burst: u32 = match self.config.tenant_message_burst {
                    Some(burst) => burst,
                    None => rate,
                };
                TokenBucket::new(rate, burst, now)
            },
        };
        let admitted = bucket.try_consume(now);
        let counted = TenantState { bucket: Some(bucket), ..known };
        self.registry.tenants.insert(tenant_id.to_owned(), counted);
        admitted
    }

    fn tenant_state(&self, tenant_id: &str) -> (r: TenantState)
        ensures
            r == self@.tenant(tenant_id@),
    {
        match self.registry.tenants.get(tenant_id) {
            Some(known) => *known,
            None => TenantState { in_use: 0, bucket: None },
        }
    }
}

impl StateModel {
    /// One more entry in the record keeps the state sound.
    pub proof fn lemma_recording_keeps_wf(self, delivery: Delivery)
        ensures
            self.wf() ==> self.recording(delivery).wf(),
    {
        if self.wf() {
            lemma_record_grows(
                self.topics,
                self.deliveries,
                self.deliveries.push(delivery),
                self.config.topic_channel_capacity,
            );
        }
    }

    /// Giving a topic a new channel keeps the state sound.
    pub proof fn lemma_new_channel_keeps_wf(self, key: Seq<char>, channel: broadcast::Sender<Bytes>)
        requires
            self.channel_for(key, channel),
        ensures
            self.wf() ==> self.with_channel(key, channel).wf(),
    {
        let after = self.with_channel(key, channel);
        if self.wf() && !self.topics.contains_key(key) {
            let opened = Delivery::ChannelOpened { channel };
            lemma_record_grows(
                self.topics,
                self.deliveries,
                self.deliveries.push(opened),
                self.config.topic_channel_capacity,
            );
            assert(after.deliveries[self.deliveries.len() as int] == opened);
            assert(channel_known(after.deliveries, channel));
        }
    }
}

/// Handing a slot back takes back what taking it did.
pub proof fn law_slot_release_undoes_acquire(slots: Slots)
    requires
        slots.in_use < slots.capacity,
    ensures
        slots.after_acquire().after_release() == slots,
{
}

/// Handing back a tenant's connection takes back what opening it did to the tenant, and leaves the
/// other tenants as they were.
pub proof fn law_tenant_release_undoes_acquire(
    before: StateModel,
    tenant: Seq<char>,
    other: Seq<char>,
)
    requires
        before.config.tenant_max_connections is Some,
        !before.tenant_full(tenant),
    ensures
        before.after_tenant_acquire(tenant).after_tenant_release(tenant).tenant(other)
            == before.tenant(other),
{
}

/// A tenant that has as many connections as it may gets no other until one is handed back, and
/// then it gets one.
pub proof fn law_tenant_cap_reopens(before: StateModel, tenant: Seq<char>, cap: usize)
    requires
        before.wf(),
        before.config.tenant_max_connections == Some(cap),
        before.tenant_full(tenant),
        cap > 0,
    ensures
        before.after_tenant_acquire(tenant) == before,
        !before.after_tenant_release(tenant).tenant_full(tenant),
{
}

/// What one tenant does changes nothing for another: neither whether it may open a connection, nor
/// whether its messages are let through.
pub proof fn law_tenants_are_independent(
    before: StateModel,
    tenant: Seq<char>,
    other: Seq<char>,
    now: u64,
    later: u64,
)
    requires
        tenant != other,
    ensures
        before.after_tenant_acquire(tenant).tenant_full(other) == before.tenant_full(other),
        before.after_tenant_release(tenant).tenant_full(other) == before.tenant_full(other),
        before.after_tenant_message(tenant, now).tenant_full(other) == before.tenant_full(other),
        before.after_tenant_acquire(tenant).tenant_rate_lets_through(other, later)
            == before.tenant_rate_lets_through(other, later),
        before.after_tenant_release(tenant).tenant_rate_lets_through(other, later)
            == before.tenant_rate_lets_through(other, later),
        before.after_tenant_message(tenant, now).tenant_rate_lets_through(other, later)
            == before.tenant_rate_lets_through(other, later),
{
    assert(before.after_tenant_acquire(tenant).tenant(other) == before.tenant(other));
    assert(before.after_tenant_release(tenant).tenant(other) == before.tenant(other));
    assert(before.after_tenant_message(tenant, now).tenant(other) == before.tenant(other));
}

/// The end of a connection takes back what its beginning did, where the client was unknown before.
pub proof fn law_unregister_undoes_register(
    before: StateModel,
    client: Seq<char>,
    tenant: Seq<char>,
    connection_id: u64,
    sender: mpsc::Sender<OutboundMessage>,
)
    requires
        !before.clients.contains_key((tenant, client)),
    ensures
        before.after_register(client, tenant, connection_id, sender).after_unregister(
            client,
            tenant,
            connection_id,
        ) == before,
{
    assert(before.after_register(client, tenant, connection_id, sender).after_unregister(
        client,
        tenant,
        connection_id,
    ).clients =~= before.clients);
}

/// The end of an older connection does not disturb a newer one of the same client.
pub proof fn law_newer_connection_survives(
    before: StateModel,
    client: Seq<char>,
    tenant: Seq<char>,
    newer: u64,
    sender: mpsc::Sender<OutboundMessage>,
    older: u64,
)
    requires
        older != newer,
    ensures
        before.after_register(client, tenant, newer, sender).after_unregister(client, tenant, older)
            == before.after_register(client, tenant, newer, sender),
{
}

/// One client id can be connected in two tenants at once, and each connection is found under its
/// own tenant.
pub proof fn law_client_ids_coexist(
    before: StateModel,
    client: Seq<char>,
    tenant: Seq<char>,
    other: Seq<char>,
    id: u64,
    other_id: u64,
    sender: mpsc::Sender<OutboundMessage>,
    other_sender: mpsc::Sender<OutboundMessage>,
)
    requires
        tenant != other,
    ensures
        ({
            let after = before.after_register(client, tenant, id, sender).after_register(
                client,
                other,
                other_id,
                other_sender,
            );
            &&& after.clients.contains_key((tenant, client))
            &&& after.clients[(tenant, client)].sender == sender
            &&& after.clients.contains_key((other, client))
            &&& after.clients[(other, client)].sender == other_sender
        }),
{
}

/// A direct message depends on the clients of its own tenant alone: whatever clients the other
/// tenants have, the same is offered to the same queues. So a client of another tenant is as one
/// that is not there.
pub proof fn law_direct_messages_stay_in_their_tenant(
    one: StateModel,
    two: StateModel,
    client: Seq<char>,
    tenant: Seq<char>,
    message: Seq<u8>,
    outcome: SendOutcome,
)
    requires
        one.deliveries == two.deliveries,
        forall|c: Seq<char>| #[trigger]
            one.clients.contains_key((tenant, c)) == two.clients.contains_key((tenant, c)),
        forall|c: Seq<char>| #[trigger]
            one.clients.contains_key((tenant, c)) ==> one.clients[(tenant, c)] == two.clients[(
                tenant,
                c,
            )],
    ensures
        one.after_direct(client, tenant, message, outcome).deliveries == two.after_direct(
            client,
            tenant,
            message,
            outcome,
        ).deliveries,
        !one.clients.contains_key((tenant, client)) ==> one.after_direct(
            client,
            tenant,
            message,
            outcome,
        ) == one,
{
    assert(one.clients.contains_key((tenant, client)) == two.clients.contains_key(
        (tenant, client),
    ));
}

/// A message published on one topic goes on a channel that no subscriber of another topic reads,
/// whether that one subscribed before or does so later.
pub proof fn law_publish_reaches_one_topic(
    before: StateModel,
    key: Seq<char>,
    channel: broadcast::Sender<Bytes>,
    message: Seq<u8>,
    receivers: usize,
    other: Seq<char>,
    other_channel: broadcast::Sender<Bytes>,
)
    requires
        before.wf(),
        before.channel_for(key, channel),
        key != other,
        before.after_publish(key, channel, message, receivers).channel_for(other, other_channel),
    ensures
        other_channel != channel,
{
    let opened = before.with_channel(key, channel);
    let after = before.after_publish(key, channel, message, receivers);
    before.lemma_new_channel_keeps_wf(key, channel);
    opened.lemma_recording_keeps_wf(Delivery::Broadcast { channel, message, receivers });
    assert(after.wf());
    assert(after.topics.contains_key(key) && after.topics[key] == channel);
}

/// A subscriber of a topic reads the channel that the next message on that topic goes on.
pub proof fn law_subscribers_read_their_topic(
    before: StateModel,
    key: Seq<char>,
    read: broadcast::Sender<Bytes>,
    written: broadcast::Sender<Bytes>,
)
    requires
        before.channel_for(key, read),
        before.after_subscribe(key, read).channel_for(key, written),
    ensures
        written == read,
{
}

/// A message published on a topic is the last thing that those hear who have subscribed to the topic,
/// after all that they heard before and once; who subscribed to another topic hears nothing of it,
/// and neither does who subscribes after it.
pub proof fn law_publication_is_heard_in_order(
    before: StateModel,
    key: Seq<char>,
    channel: broadcast::Sender<Bytes>,
    message: Seq<u8>,
    receivers: usize,
    place: int,
    late_channel: broadcast::Sender<Bytes>,
)
    requires
        before.channel_for(key, channel),
        0 <= place < before.deliveries.len(),
        before.after_publish(key, channel, message, receivers).channel_for(key, late_channel),
    ensures
        ({
            let after = before.after_publish(key, channel, message, receivers);
            let late = after.after_subscribe(key, late_channel);
            let own = before.deliveries[place] == (Delivery::Subscribed { channel });
            &&& own ==> heard(after.deliveries, place) == heard(before.deliveries, place).push(
                message,
            )
            &&& !own ==> heard(after.deliveries, place) == heard(before.deliveries, place)
            &&& heard(late.deliveries, place) == heard(after.deliveries, place)
            &&& late.deliveries.last() == (Delivery::Subscribed { channel })
            &&& heard(late.deliveries, late.deliveries.len() - 1) == Seq::<Seq<u8>>::empty()
        }),
{
    let opened = before.with_channel(key, channel);
    let after = before.after_publish(key, channel, message, receivers);
    let late = after.after_subscribe(key, late_channel);
    assert(late_channel == channel);
    assert(heard(opened.deliveries, place) == heard(before.deliveries, place)) by {
        if !before.topics.contains_key(key) {
            assert(opened.deliveries.drop_last() =~= before.deliveries);
        }
    }
    assert(opened.deliveries[place] == before.deliveries[place]);
    assert(after.deliveries.drop_last() =~= opened.deliveries);
    assert(after.deliveries[place] == before.deliveries[place]);
    assert(late.deliveries.drop_last() =~= after.deliveries);
}

/// Topics of the same name in different tenants have different keys.
pub proof fn law_same_topic_differs_by_tenant(
    tenant: Seq<char>,
    other: Seq<char>,
    topic: Seq<char>,
)
    requires
        tenant != other,
    ensures
        topic_key(tenant, topic) != topic_key(other, topic),
{
    let key = topic_key(tenant, topic);
    let other_key = topic_key(other, topic);
    if key == other_key {
        assert(key.len() == tenant.len() + 1 + topic.len());
        assert(other_key.len() == other.len() + 1 + topic.len());
        assert(tenant =~= key.take(tenant.len() as int));
        assert(other =~= other_key.take(other.len() as int));
    }
}

/// Two tenants have no topic key in common, whatever the topics, where neither id with a colon
/// behind it begins the other one with a colon behind it.
pub proof fn law_tenant_topics_never_meet(
    tenant: Seq<char>,
    other: Seq<char>,
    topic: Seq<char>,
    other_topic: Seq<char>,
)
    requires
        !(tenant + seq![':']).is_prefix_of(other + seq![':']),
        !(other + seq![':']).is_prefix_of(tenant + seq![':']),
    ensures
        topic_key(tenant, topic) != topic_key(other, other_topic),
{
    let key = topic_key(tenant, topic);
    let other_key = topic_key(other, other_topic);
    let head = tenant + seq![':'];
    let other_head = other + seq![':'];
    if key == other_key {
        assert(key.take(head.len() as int) =~= head);
        assert(other_key.take(other_head.len() as int) =~= other_head);
        if head.len() <= other_head.len() {
            assert(head =~= other_head.take(head.len() as int));
        } else {
            assert(other_head =~= head.take(other_head.len() as int));
        }
    }
}

/// Two different tenants whose ids hold no colon have no topic key in common, whatever the topics.
pub proof fn law_plain_tenants_never_meet(
    tenant: Seq<char>,
    other: Seq<char>,
    topic: Seq<char>,
    other_topic: Seq<char>,
)
    requires
        tenant != other,
        !tenant.contains(':'),
        !other.contains(':'),
    ensures
        topic_key(tenant, topic) != topic_key(other, other_topic),
{
    let head = tenant + seq![':'];
    let other_head = other + seq![':'];
    if head.is_prefix_of(other_head) {
        assert(other_head[tenant.len() as int] == head[tenant.len() as int]);
        if tenant.len() < other.len() {
            assert(other[tenant.len() as int] == ':');
        }
        assert forall|i: int| 0 <= i < tenant.len() implies tenant[i] == other[i] by {
            assert(head[i] == other_head[i]);
        }
        assert(tenant =~= other);
    }
    if other_head.is_prefix_of(head) {
        assert(head[other.len() as int] == other_head[other.len() as int]);
        if other.len() < tenant.len() {
            assert(tenant[other.len() as int] == ':');
        }
        assert forall|i: int| 0 <= i < other.len() implies tenant[i] == other[i] by {
            assert(head[i] == other_head[i]);
        }
        assert(tenant =~= other);
    }
    law_tenant_topics_never_meet(tenant, other, topic, other_topic);
}

/// The number that the connection after `n` others gets.
pub open spec fn nth_connection_id(first: u64, n: nat) -> u64
    decreases n,
{
    if n == 0 {
        first
    } else {
        nth_connection_id(first, (n - 1) as nat).wrapping_add(1)
    }
}

proof fn lemma_nth_connection_id(first: u64, n: nat)
    ensures
        nth_connection_id(first, n) == (first + n) % 0x1_0000_0000_0000_0000,
    decreases n,
{
    if n > 0 {
        lemma_nth_connection_id(first, (n - 1) as nat);
    }
}

/// No two connections get the same number, as long as there are no more of them than numbers.
pub proof fn law_connection_ids_are_distinct(first: u64, i: nat, j: nat)
    requires
        i < j <= i + u64::MAX,
    ensures
        nth_connection_id(first, i) != nth_connection_id(first, j),
{
    lemma_nth_connection_id(first, i);
    lemma_nth_connection_id(first, j);
}

/// The state after messages of a tenant at each of `times`, in that order.
pub open spec fn after_tenant_messages(
    before: StateModel,
    tenant: Seq<char>,
    times: Seq<u64>,
) -> StateModel
    decreases times.len(),
{
    if times.len() == 0 {
        before
    } else {
        after_tenant_messages(before, tenant, times.drop_last()).after_tenant_message(
            tenant,
            times.last(),
        )
    }
}

/// How many of a tenant's messages at `times` are let through.
pub open spec fn tenant_messages_through(
    before: StateModel,
    tenant: Seq<char>,
    times: Seq<u64>,
) -> nat
    decreases times.len(),
{
    if times.len() == 0 {
        0
    } else {
        tenant_messages_through(before, tenant, times.drop_last()) + (if after_tenant_messages(
            before,
            tenant,
            times.drop_last(),
        ).tenant_rate_lets_through(tenant, times.last()) {
            1nat
        } else {
            0nat
        })
    }
}

proof fn lemma_tenant_bucket(
    before: StateModel,
    tenant: Seq<char>,
    rate: u32,
    burst: u32,
    times: Seq<u64>,
)
    requires
        before.config.tenant_max_messages_per_second == Some(rate),
        burst == (match before.config.tenant_message_burst {
            Some(burst) => burst,
            None => rate,
        }),
        before.tenant(tenant).bucket is None,
        times.len() > 0,
    ensures
        ({
            let bucket = TokenBucket::full(rate, burst, times[0]);
            let after = after_tenant_messages(before, tenant, times);
            &&& after.config == before.config
            &&& after.tenant(tenant).bucket == Some(after_requests(bucket, times))
            &&& tenant_messages_through(before, tenant, times) == let_through(bucket, times)
        }),
    decreases times.len(),
{
    let front = times.drop_last();
    let bucket = TokenBucket::full(rate, burst, times[0]);
    if front.len() > 0 {
        lemma_tenant_bucket(before, tenant, rate, burst, front);
        assert(front[0] == times[0]);
    } else {
        assert(after_tenant_messages(before, tenant, front) == before);
        assert(tenant_messages_through(before, tenant, front) == 0);
        assert(after_requests(bucket, front) == bucket);
        assert(let_through(bucket, front) == 0);
    }
    let reached = after_tenant_messages(before, tenant, front);
    assert(reached.tenant_bucket(tenant, times.last()) == Some(after_requests(bucket, front)));
}

/// Of the messages of a tenant, all its connections together, no more are let through than its burst
/// and what accrues between the first one and the last: `burst + rate * seconds`.
pub proof fn law_tenant_rate_is_bounded(
    before: StateModel,
    tenant: Seq<char>,
    rate: u32,
    burst: u32,
    times: Seq<u64>,
)
    requires
        before.config.tenant_max_messages_per_second == Some(rate),
        burst == (match before.config.tenant_message_burst {
            Some(burst) => burst,
            None => rate,
        }),
        before.tenant(tenant).bucket is None,
        times.len() > 0,
        in_order(times[0], times),
    ensures
        tenant_messages_through(before, tenant, times) * TOKEN <= at_least_one(burst) * TOKEN + (
        times.last() - times[0]) * at_least_one(rate),
{
    lemma_tenant_bucket(before, tenant, rate, burst, times);
    law_rate_is_bounded(rate, burst, times[0], times);
}

/// A tenant that has sent nothing yet may send its whole burst at once, one message at least: the
/// configured burst, or the configured rate where none is set. No more than that is let through.
pub proof fn law_new_tenant_may_send_its_burst(
    before: StateModel,
    tenant: Seq<char>,
    rate: u32,
    start: u64,
    times: Seq<u64>,
)
    requires
        before.config.tenant_max_messages_per_second == Some(rate),
        before.tenant(tenant).bucket is None,
        forall|i: int| 0 <= i < times.len() ==> times[i] == start,
    ensures
        ({
            let burst: nat = match before.config.tenant_message_burst {
                Some(burst) => burst as nat,
                None => rate as nat,
            };
            let most: nat = if burst == 0 {
                1
            } else {
                burst
            };
            tenant_messages_through(before, tenant, times) == (if times.len() <= most {
                times.len()
            } else {
                most
            })
        }),
{
    let burst: u32 = match before.config.tenant_message_burst {
        Some(burst) => burst,
        None => rate,
    };
    if times.len() > 0 {
        lemma_tenant_bucket(before, tenant, rate, burst, times);
        law_new_bucket_passes_its_burst(rate, burst, start, times);
    }
}

/// A tenant whose burst is used up earns its configured rate, one message a second at least, up to its
/// burst: so many messages are let through later, and no more.
pub proof fn law_tenant_earns_its_rate(
    before: StateModel,
    tenant: Seq<char>,
    rate: u32,
    burst: u32,
    start: u64,
    first: Seq<u64>,
    later: u64,
)
    requires
        before.config.tenant_max_messages_per_second == Some(rate),
        burst == (match before.config.tenant_message_burst {
            Some(burst) => burst,
            None => rate,
        }),
        before.tenant(tenant).bucket is None,
        forall|i: int| 0 <= i < first.len() ==> first[i] == start,
        first.len() >= 1,
        first.len() >= burst,
        start <= later,
    ensures
        after_tenant_messages(before, tenant, first).tenant_rate_lets_through(tenant, later)
            <==> (later - start) * (if rate == 0 {
            1
        } else {
            rate as int
        }) >= 1_000_000_000,
{
    lemma_tenant_bucket(before, tenant, rate, burst, first);
    assert(first[0] == start);
    let bucket = TokenBucket::full(rate, burst, start);
    let empty = after_requests(bucket, first);
    let once = seq![later];
    law_used_up_bucket_earns_its_rate(rate, burst, start, first, later, once);
    assert(once.drop_last() =~= Seq::<u64>::empty());
    assert(after_requests(empty, once.drop_last()) == empty);
    assert(let_through(empty, once.drop_last()) == 0);
    assert(let_through(empty, once) == if empty.lets_through(later) {
        1nat
    } else {
        0nat
    });
    let earned: int = (later - start) * (if rate == 0 {
        1
    } else {
        rate as int
    });
    assert(earned >= 1_000_000_000 <==> earned / 1_000_000_000 >= 1);
}

/// Where a tenant's messages are not limited, all are let through, and nothing is kept of them.
pub proof fn law_unlimited_tenant_may_send(before: StateModel, tenant: Seq<char>, now: u64)
    requires
        before.config.tenant_max_messages_per_second is None,
    ensures
        before.tenant_rate_lets_through(tenant, now),
        before.after_tenant_message(tenant, now) == before,
{
}

/// A message of a tenant draws on the tenant's own bucket, once, and leaves its connections and
/// everything else as they were.
pub proof fn law_tenant_messages_draw_on_its_bucket(
    before: StateModel,
    tenant: Seq<char>,
    bucket: TokenBucket,
    now: u64,
    other: Seq<char>,
)
    requires
        before.config.tenant_max_messages_per_second is Some,
        before.tenant(tenant).bucket == Some(bucket),
    ensures
        ({
            let after = before.after_tenant_message(tenant, now);
            &&& before.tenant_rate_lets_through(tenant, now) <==> bucket.lets_through(now)
            &&& after.tenant(tenant).bucket == Some(bucket.after_request(now))
            &&& after.tenant(tenant).in_use == before.tenant(tenant).in_use
            &&& other != tenant ==> after.tenant(other) == before.tenant(other)
            &&& after == StateModel { tenants: after.tenants, ..before }
        }),
{
}

/// A tenant gets connections as long as it has fewer than it may, one at a time, and hands them back
/// one at a time. Where they are not limited, it gets as many as it likes.
pub proof fn law_tenant_gets_its_connections(
    before: StateModel,
    tenant: Seq<char>,
    other: Seq<char>,
)
    ensures
        before.config.tenant_max_connections is None ==> !before.tenant_full(tenant)
            && before.after_tenant_acquire(tenant) == before,
        before.config.tenant_max_connections matches Some(cap) ==> {
            let had = before.tenant(tenant).in_use;
            let got = before.after_tenant_acquire(tenant);
            &&& before.tenant_full(tenant) <==> had >= cap
            &&& got.tenant(tenant).in_use == (if had < cap {
                had + 1
            } else {
                had as int
            })
            &&& got.tenant(tenant).bucket == before.tenant(tenant).bucket
            &&& other != tenant ==> got.tenant(other) == before.tenant(other)
        },
        ({
            let had = before.tenant(tenant).in_use;
            let gave = before.after_tenant_release(tenant);
            &&& gave.tenant(tenant).in_use == (if had > 0 {
                had - 1
            } else {
                0
            })
            &&& gave.tenant(tenant).bucket == before.tenant(tenant).bucket
            &&& other != tenant ==> gave.tenant(other) == before.tenant(other)
        }),
{
}

/// A tenant that was never heard of has no connection and has sent nothing; of any other, what is known
/// is what was kept.
pub proof fn law_tenants_start_with_nothing(state: StateModel, tenant: Seq<char>)
    ensures
        !state.tenants.contains_key(tenant) ==> state.tenant(tenant).in_use == 0 && state.tenant(
            tenant,
        ).bucket is None,
        state.tenants.contains_key(tenant) ==> state.tenant(tenant) == state.tenants[tenant],
{
}

/// A slot is taken while there is one, and handed back one at a time.
pub proof fn law_slots_are_taken_one_at_a_time(slots: Slots)
    ensures
        slots.in_use < slots.capacity ==> slots.after_acquire().in_use == slots.in_use + 1,
        slots.in_use >= slots.capacity ==> slots.after_acquire().in_use == slots.in_use,
        slots.in_use > 0 ==> slots.after_release().in_use == slots.in_use - 1,
        slots.in_use == 0 ==> slots.after_release().in_use == 0,
        slots.after_acquire().capacity == slots.capacity,
        slots.after_release().capacity == slots.capacity,
{
}

/// Making a client known makes that one known, by its tenant and its id, and no other; forgetting it
/// forgets that one alone.
pub proof fn law_clients_are_known_one_by_one(
    before: StateModel,
    client: Seq<char>,
    tenant: Seq<char>,
    connection_id: u64,
    sender: mpsc::Sender<OutboundMessage>,
    key: (Seq<char>, Seq<char>),
)
    ensures
        ({
            let known = before.after_register(client, tenant, connection_id, sender);
            &&& known.clients.contains_key((tenant, client))
            &&& known.clients[(tenant, client)].sender == sender
            &&& known.clients[(tenant, client)].connection_id == connection_id
            &&& key != (tenant, client) ==> (known.clients.contains_key(key)
                <==> before.clients.contains_key(key)) && known.clients[key] == before.clients[key]
            &&& known == StateModel { clients: known.clients, ..before }
        }),
        ({
            let gone = before.after_unregister(client, tenant, connection_id);
            let own = before.clients.contains_key((tenant, client)) && before.clients[(
                tenant,
                client,
            )].connection_id == connection_id;
            &&& own ==> !gone.clients.contains_key((tenant, client))
            &&& !own ==> gone == before
            &&& key != (tenant, client) ==> (gone.clients.contains_key(key)
                <==> before.clients.contains_key(key)) && gone.clients[key] == before.clients[key]
            &&& gone == StateModel { clients: gone.clients, ..before }
        }),
{
}

/// A message for a client of a tenant is offered once, to the queue of that client in that tenant, as
/// it is. Where the tenant has no such client, nothing happens.
pub proof fn law_direct_message_is_offered_once(
    before: StateModel,
    client: Seq<char>,
    tenant: Seq<char>,
    message: Seq<u8>,
    outcome: SendOutcome,
)
    ensures
        ({
            let after = before.after_direct(client, tenant, message, outcome);
            &&& before.clients.contains_key((tenant, client)) ==> after.deliveries
                == before.deliveries.push(
                Delivery::Queued {
                    queue: before.clients[(tenant, client)].sender,
                    message: OutboundModel::Binary(message),
                    outcome,
                },
            )
            &&& !before.clients.contains_key((tenant, client)) ==> after == before
            &&& after == StateModel { deliveries: after.deliveries, ..before }
        }),
{
}

/// A message published on a topic goes out once, as it is, on the channel that the topic has from then
/// on. The other topics keep their channels.
pub proof fn law_message_is_published_once(
    before: StateModel,
    key: Seq<char>,
    channel: broadcast::Sender<Bytes>,
    message: Seq<u8>,
    receivers: usize,
    other: Seq<char>,
)
    requires
        before.channel_for(key, channel),
    ensures
        ({
            let after = before.after_publish(key, channel, message, receivers);
            let sent = Delivery::Broadcast { channel, message, receivers };
            &&& before.topics.contains_key(key) ==> before.topics[key] == channel
                && after.deliveries == before.deliveries.push(sent)
            &&& !before.topics.contains_key(key) ==> after.deliveries == before.deliveries.push(
                Delivery::ChannelOpened { channel },
            ).push(sent)
            &&& after.topics.contains_key(key)
            &&& after.topics[key] == channel
            &&& other != key ==> (after.topics.contains_key(other)
                <==> before.topics.contains_key(other)) && after.topics[other]
                == before.topics[other]
            &&& after == StateModel { topics: after.topics, deliveries: after.deliveries, ..before }
        }),
{
}

/// In a sound state no limit is overstepped: not the server's, not that of a tenant, not that of an
/// address. No two topics share a channel.
pub proof fn law_sound_states_keep_their_limits(
    state: StateModel,
    tenant: Seq<char>,
    address: (bool, u128),
    key: Seq<char>,
    other: Seq<char>,
)
    requires
        state.wf(),
    ensures
        state.slots.in_use <= state.slots.capacity,
        state.config.tenant_max_connections matches Some(cap) ==> state.tenant(tenant).in_use
            <= cap,
        state.ip_limiter matches Some(limiter) ==> limiter.rules.max_concurrent matches Some(cap)
            ==> limiter.states.contains_key(address) ==> limiter.states[address].concurrent <= cap,
        state.topics.contains_key(key) && state.topics.contains_key(other) && key != other
            ==> state.topics[key] != state.topics[other],
        state.topics.contains_key(key) ==> channel_capacity(state.topics[key])
            == state.config.topic_channel_capacity,
{
}

/// The key of a topic holds the tenant's id and the topic's name, each whole, with a colon between
/// them. So one tenant's topics never share a key.
pub proof fn law_topic_keys_hold_tenant_and_topic(
    tenant: Seq<char>,
    topic: Seq<char>,
    other: Seq<char>,
)
    ensures
        topic_key(tenant, topic).take(tenant.len() as int) == tenant,
        topic_key(tenant, topic)[tenant.len() as int] == ':',
        topic_key(tenant, topic).skip((tenant.len() + 1) as int) == topic,
        topic_key(tenant, topic) == topic_key(tenant, other) <==> topic == other,
{
    let key = topic_key(tenant, topic);
    assert(key.take(tenant.len() as int) =~= tenant);
    assert(key.skip((tenant.len() + 1) as int) =~= topic);
    assert(topic_key(tenant, other).skip((tenant.len() + 1) as int) =~= other);
}

/// A server is viewed part by part, with nothing left out.
pub proof fn law_servers_are_viewed_whole(state: AppState)
    ensures
        state@.config == state.config,
        state@.metrics == state.metrics,
        state@.slots == state.connection_limit,
        state@.auth == state.auth,
        state.ip_limiter matches Some(limiter) ==> state@.ip_limiter == Some(limiter@),
        state.ip_limiter is None ==> state@.ip_limiter is None,
{
}

} // verus!
