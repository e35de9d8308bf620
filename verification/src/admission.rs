//! Who may connect.
use vstd::prelude::*;
use vstd::string::StrSliceExecFns;

use crate::auth::AuthError;
use crate::auth::AuthIdentity;
use crate::auth::AuthVerifier;
use crate::auth::IdentityModel;
use crate::ip_limiter::ClientIp;
use crate::ip_limiter::IpLimiterModel;
use crate::ip_limiter::IpPermit;
use crate::ip_limiter::IpRejection;
use crate::ip_limiter::law_addresses_are_independent;
use crate::ip_limiter::law_requests_are_counted;
use crate::json::text_view;
use crate::metrics::Metrics;
use crate::state::AppState;
use crate::state::SlotPermit;
use crate::state::StateModel;
use crate::state::TenantPermit;
use crate::text::find_char;
use crate::text::is_white_space;
use crate::text::law_trimming_takes_off_white_space;
use crate::text::trim;
use crate::text::trimmed;

verus! {

/// What a client asks for when it connects.
#[derive(Debug)]
pub struct WsQuery {
    /// The topic, as the client names it.
    pub topic: String,
    /// Who the client says it is. Not looked at where tokens are asked for.
    pub client_id: Option<String>,
    /// The client's token.
    pub token: Option<String>,
    /// The tenant that the client says it belongs to. Not looked at where tokens are asked for.
    pub tenant_id: Option<String>,
}

/// What a query says.
#[verifier::ext_equal]
pub struct WsQueryModel {
    pub topic: Seq<char>,
    pub client_id: Option<Seq<char>>,
    pub token: Option<Seq<char>>,
    pub tenant_id: Option<Seq<char>>,
}

impl View for WsQuery {
    type V = WsQueryModel;

    open spec fn view(&self) -> WsQueryModel {
        WsQueryModel {
            topic: self.topic@,
            client_id: text_view(self.client_id),
            token: text_view(self.token),
            tenant_id: text_view(self.tenant_id),
        }
    }
}

/// Why a connection is refused.
#[derive(Clone, Copy, Debug, PartialEq, Eq, Structural)]
pub enum Refusal {
    /// On account of its address.
    Ip(IpRejection),
    /// The server has as many connections as it may.
    ConnectionLimit,
    /// Its token does not hold.
    InvalidToken,
    /// It brought no token.
    MissingToken,
    /// Its tenant has as many connections as it may.
    TenantLimit,
}

impl Refusal {
    /// The status of the HTTP answer.
    pub open spec fn spec_status(self) -> u16 {
        match self {
            Refusal::Ip(_) => 429,
            Refusal::ConnectionLimit => 503,
            Refusal::InvalidToken => 401,
            Refusal::MissingToken => 401,
            Refusal::TenantLimit => 429,
        }
    }

    /// The text of the HTTP answer.
    pub open spec fn spec_message(self) -> Seq<char> {
        match self {
            Refusal::Ip(IpRejection::RateLimited) => "ip connection rate limit exceeded\n"@,
            Refusal::Ip(IpRejection::ConcurrencyLimited) =>
                "ip concurrent connection limit exceeded\n"@,
            Refusal::ConnectionLimit => "connection limit reached\n"@,
            Refusal::InvalidToken => "invalid token\n"@,
            Refusal::MissingToken => "missing token\n"@,
            Refusal::TenantLimit => "tenant connection limit exceeded\n"@,
        }
    }

    /// The counters after a connection was refused so.
    pub open spec fn counted(self, metrics: Metrics) -> Metrics {
        match self {
            Refusal::Ip(_) => metrics.after_ip_rejection().after_rejection(),
            Refusal::ConnectionLimit => metrics.after_rejection(),
            Refusal::InvalidToken => metrics.after_auth_rejection().after_rejection(),
            Refusal::MissingToken => metrics.after_auth_rejection().after_rejection(),
            Refusal::TenantLimit => metrics.after_tenant_rejection().after_rejection(),
        }
    }

    /// The status of the HTTP answer.
    pub fn status(&self) -> (r: u16)
        ensures
            r == self.spec_status(),
    {
        match self {
            Refusal::Ip(_) => 429,
            Refusal::ConnectionLimit => 503,
            Refusal::InvalidToken => 401,
            Refusal::MissingToken => 401,
            Refusal::TenantLimit => 429,
        }
    }

    /// The text of the HTTP answer.
    pub fn message(&self) -> (r: &'static str)
        ensures
            r@ == self.spec_message(),
    {
        match self {
            Refusal::Ip(IpRejection::RateLimited) => "ip connection rate limit exceeded\n",
            Refusal::Ip(IpRejection::ConcurrencyLimited) =>
                "ip concurrent connection limit exceeded\n",
            Refusal::ConnectionLimit => "connection limit reached\n",
            Refusal::InvalidToken => "invalid token\n",
            Refusal::MissingToken => "missing token\n",
            Refusal::TenantLimit => "tenant connection limit exceeded\n",
        }
    }

    /// Counts a connection that is refused so.
    fn count(&self, metrics: &mut Metrics)
        ensures
            *final(metrics) == self.counted(*old(metrics)),
    {
        match self {
            Refusal::Ip(_) => metrics.ip_rejected(),
            Refusal::ConnectionLimit => {},
            Refusal::InvalidToken => metrics.auth_rejected(),
            Refusal::MissingToken => metrics.auth_rejected(),
            Refusal::TenantLimit => metrics.tenant_rejected(),
        }
        metrics.connection_rejected();
    }
}

/// What stands before the first comma, or the whole text where there is none, without white space
/// around it.
pub open spec fn first_listed(header: Seq<char>) -> Seq<char> {
    trimmed(
        match header.index_of_first(',') {
            Some(i) => header.take(i),
            None => header,
        },
    )
}

/// The text of the first address in an `X-Forwarded-For` header.
pub fn forwarded_address(header: &str) -> (r: &str)
    ensures
        r@ == first_listed(header@),
{
    proof {
        header@.index_of_first_ensures(',');
    }
    match find_char(header, ',') {
        Some(i) => {
            let first = header.substring_char(0, i);
            assert(header@.contains(','));
            assert(first@ =~= header@.take(i as int));
            trim(first)
        },
        None => trim(header),
    }
}

/// The text of the address in an `X-Real-IP` header.
pub fn real_address(header: &str) -> (r: &str)
    ensures
        r@ == trimmed(header@),
{
    trim(header)
}

/// The address that a connection counts for: what the proxy's headers say, where they are trusted
/// and say anything, or else where it comes from. `X-Forwarded-For` comes before `X-Real-IP`.
pub fn resolve_client_ip(
    peer: ClientIp,
    forwarded_for: Option<ClientIp>,
    real_ip: Option<ClientIp>,
    trust_proxy: bool,
) -> (r: ClientIp)
    ensures
        r == (match (trust_proxy, forwarded_for, real_ip) {
            (true, Some(ip), _) => ip,
            (true, None, Some(ip)) => ip,
            _ => peer,
        }),
{
    if trust_proxy {
        if let Some(ip) = forwarded_for {
            return ip;
        }
        if let Some(ip) = real_ip {
            return ip;
        }
    }
    peer
}

/// Who a client is that brings no token to a server that asks for none.
pub open spec fn stated_identity(query: WsQueryModel) -> IdentityModel {
    IdentityModel {
        client_id: match query.client_id {
            Some(client_id) => client_id,
            None => "anonymous"@,
        },
        tenant_id: match query.tenant_id {
            Some(tenant_id) => tenant_id,
            None => "default"@,
        },
    }
}

/// Whether a client may be answered so: with who it is, or with a refusal.
pub open spec fn may_identify(
    auth: Option<AuthVerifier>,
    query: WsQueryModel,
    answer: Result<IdentityModel, Refusal>,
) -> bool {
    match auth {
        None => answer == Ok::<IdentityModel, Refusal>(stated_identity(query)),
        Some(verifier) => match query.token {
            None => answer == Err::<IdentityModel, Refusal>(Refusal::MissingToken),
            Some(token) => may_accept(verifier, token, answer),
        },
    }
}

/// Whether a client that brings a token may be answered so.
pub open spec fn may_accept(
    verifier: AuthVerifier,
    token: Seq<char>,
    answer: Result<IdentityModel, Refusal>,
) -> bool {
    exists|verdict: Result<IdentityModel, AuthError>|
        {
            &&& #[trigger] verifier.may_answer(token, verdict)
            &&& token_answer(verdict) == answer
        }
}

/// What a client is answered whose token came to this.
pub open spec fn token_answer(verdict: Result<IdentityModel, AuthError>) -> Result<
    IdentityModel,
    Refusal,
> {
    match verdict {
        Ok(identity) => Ok(identity),
        Err(_) => Err(Refusal::InvalidToken),
    }
}

/// The view of an answer.
pub open spec fn answer_view(answer: Result<AuthIdentity, Refusal>) -> Result<
    IdentityModel,
    Refusal,
> {
    match answer {
        Ok(identity) => Ok(identity@),
        Err(refusal) => Err(refusal),
    }
}

/// Finds out who a client is.
pub fn identify(auth: &Option<AuthVerifier>, query: &WsQuery) -> (r: Result<AuthIdentity, Refusal>)
    ensures
        may_identify(*auth, query@, answer_view(r)),
        auth is None ==> (r matches Ok(identity) && identity.client_id@ == (
        match query.client_id {
            Some(client_id) => client_id@,
            None => "anonymous"@,
        }) && identity.tenant_id@ == (match query.tenant_id {
            Some(tenant_id) => tenant_id@,
            None => "default"@,
        })),
        auth is Some && query.token is None ==> r == Err::<AuthIdentity, Refusal>(
            Refusal::MissingToken,
        ),
{
    match auth {
        Some(verifier) => match &query.token {
            Some(token) => match verifier.verify(token.as_str()) {
                Ok(identity) => {
                    assert(verifier.may_answer(token@, Ok(identity@)));
                    assert(may_accept(*verifier, token@, Ok(identity@)));
                    Ok(identity)
                },
                Err(e) => {
                    assert(verifier.may_answer(token@, Err(e)));
                    assert(may_accept(*verifier, token@, Err(Refusal::InvalidToken)));
                    Err(Refusal::InvalidToken)
                },
            },
            None => Err(Refusal::MissingToken),
        },
        None => {
            let client_id = match &query.client_id {
                Some(client_id) => client_id.clone(),
                None => "anonymous".to_owned(),
            };
            let tenant_id = match &query.tenant_id {
                Some(tenant_id) => tenant_id.clone(),
                None => "default".to_owned(),
            };
            let identity = AuthIdentity { client_id, tenant_id };
            assert(identity@ == stated_identity(query@));
            Ok(identity)
        },
    }
}

/// What an open connection holds, to be handed back when it ends.
#[derive(Debug)]
pub struct Passes {
    pub slot: SlotPermit,
    pub ip: Option<IpPermit>,
    pub tenant: Option<TenantPermit>,
}

/// A connection that is let in.
#[derive(Debug)]
pub struct Admission {
    pub identity: AuthIdentity,
    /// The topic, as the client names it.
    pub topic: String,
    pub passes: Passes,
}

/// Whether a limiter, where there is one, may answer a request so and become `asked`.
pub open spec fn limiter_asked(
    before: Option<IpLimiterModel>,
    asked: Option<IpLimiterModel>,
    ip: ClientIp,
    now: u64,
    rejection: Option<IpRejection>,
) -> bool {
    match (before, asked) {
        (None, None) => rejection is None,
        (Some(before), Some(asked)) => before.request(asked, ip, now, rejection),
        _ => false,
    }
}

/// A limiter, where there is one, after a connection was handed back.
pub open spec fn limiter_released(
    limiter: Option<IpLimiterModel>,
    ip: ClientIp,
    now: u64,
) -> Option<IpLimiterModel> {
    match limiter {
        Some(limiter) => Some(limiter.after_release(ip, now)),
        None => None,
    }
}

impl StateModel {
    /// The state after a connection was refused.
    pub open spec fn after_refusal(self, refusal: Refusal) -> StateModel {
        self.counting(refusal.counted(self.metrics))
    }

    /// What becomes of a connection, and of the state. The limiter became `asked` and said
    /// `rejection`; who the client is came to `identity`, where it was asked for. First the
    /// address counts, then the server's connections, then who the client is, then the tenant's
    /// connections. Whoever is refused hands back what it had got.
    pub open spec fn after_admission(
        self,
        asked: Option<IpLimiterModel>,
        rejection: Option<IpRejection>,
        identity: Result<IdentityModel, Refusal>,
        ip: ClientIp,
        now: u64,
    ) -> (StateModel, Result<IdentityModel, Refusal>) {
        let knocked = StateModel { ip_limiter: asked, ..self };
        let turned_away = StateModel { ip_limiter: limiter_released(asked, ip, now), ..self };
        if rejection is Some {
            let refusal = Refusal::Ip(rejection->0);
            (knocked.after_refusal(refusal), Err(refusal))
        } else if self.slots.in_use >= self.slots.capacity {
            (turned_away.after_refusal(Refusal::ConnectionLimit), Err(Refusal::ConnectionLimit))
        } else {
            match identity {
                Err(refusal) => (turned_away.after_refusal(refusal), Err(refusal)),
                Ok(identity) => if self.tenant_full(identity.tenant_id) {
                    (turned_away.after_refusal(Refusal::TenantLimit), Err(Refusal::TenantLimit))
                } else {
                    (
                        StateModel {
                            slots: self.slots.after_acquire(),
                            ..knocked.after_tenant_acquire(identity.tenant_id)
                        },
                        Ok(identity),
                    )
                },
            }
        }
    }

    /// The state after a connection handed back what it held.
    pub open spec fn after_departure(
        self,
        ip: Option<ClientIp>,
        tenant: Option<Seq<char>>,
        now: u64,
    ) -> StateModel {
        let slots = self.slots.after_release();
        let ip_limiter = match ip {
            Some(ip) => limiter_released(self.ip_limiter, ip, now),
            None => self.ip_limiter,
        };
        match tenant {
            Some(tenant) => StateModel { slots, ip_limiter, ..self.after_tenant_release(tenant) },
            None => StateModel { slots, ip_limiter, ..self },
        }
    }
}

impl Passes {
    /// The address that the connection counts for.
    pub open spec fn spec_ip(self) -> Option<ClientIp> {
        match self.ip {
            Some(permit) => Some(permit.ip),
            None => None,
        }
    }

    /// The tenant that the connection counts for.
    pub open spec fn spec_tenant(self) -> Option<Seq<char>> {
        match self.tenant {
            Some(permit) => Some(permit.tenant_id@),
            None => None,
        }
    }
}

impl Admission {
    /// Whether the connection holds what a connection from `ip` to this server has to hold.
    pub open spec fn holds(self, state: StateModel, ip: ClientIp) -> bool {
        &&& self.passes.spec_ip() == (if state.ip_limiter is Some {
            Some(ip)
        } else {
            None
        })
        &&& self.passes.spec_tenant() == (if state.config.tenant_max_connections is Some {
            Some(self.identity@.tenant_id)
        } else {
            None
        })
    }
}

/// What was decided on a connection.
pub open spec fn decision_view(r: Result<Admission, Refusal>) -> Result<IdentityModel, Refusal> {
    match r {
        Ok(admission) => Ok(admission.identity@),
        Err(refusal) => Err(refusal),
    }
}

impl AppState {
    /// Decides on a new connection.
    pub fn try_connect(&mut self, query: WsQuery, ip: ClientIp, now: u64) -> (r: Result<
        Admission,
        Refusal,
    >)
        ensures
            exists|
                asked: Option<IpLimiterModel>,
                rejection: Option<IpRejection>,
                identity: Result<IdentityModel, Refusal>,
            |
                {
                    &&& limiter_asked(old(self)@.ip_limiter, asked, ip, now, rejection)
                    &&& rejection is None && old(self)@.slots.in_use < old(self)@.slots.capacity
                        ==> may_identify(old(self)@.auth, query@, identity)
                    &&& (final(self)@, decision_view(r)) == #[trigger] old(self)@.after_admission(
                        asked,
                        rejection,
                        identity,
                        ip,
                        now,
                    )
                },
            r matches Ok(admission) ==> admission.topic@ == query@.topic && admission.holds(
                final(self)@,
                ip,
            ),
            r matches Ok(admission) ==> admission.topic@ == query.topic@,
            r matches Ok(admission) ==> old(self)@.auth is None ==> admission.identity.client_id@ == (
            match query.client_id {
                Some(client_id) => client_id@,
                None => "anonymous"@,
            }),
            r matches Ok(admission) ==> old(self)@.auth is None ==> admission.identity.tenant_id@ == (
            match query.tenant_id {
                Some(tenant_id) => tenant_id@,
                None => "default"@,
            }),
            old(self)@.auth is Some && query.token is None ==> r is Err,
            old(self)@.wf() ==> final(self)@.wf(),
    {
        let ghost unasked = Err::<IdentityModel, Refusal>(Refusal::MissingToken);
        let ip_permit = match self.ask_limiter(ip, now) {
            Ok(permit) => permit,
            Err(reason) => {
                let refusal = Refusal::Ip(reason);
                let ghost asked = self@.ip_limiter;
                refusal.count(&mut self.metrics);
                assert((self@, Err::<IdentityModel, Refusal>(refusal))
                    == old(self)@.after_admission(asked, Some(reason), unasked, ip, now));
                return Err(refusal);
            },
        };
        let ghost asked = self@.ip_limiter;
        let slot = match self.connection_limit.try_acquire() {
            Some(slot) => slot,
            None => {
                self.release_ip(ip_permit, now);
                Refusal::ConnectionLimit.count(&mut self.metrics);
                assert((self@, Err::<IdentityModel, Refusal>(Refusal::ConnectionLimit)) == old(
                    self,
                )@.after_admission(asked, None, unasked, ip, now));
                return Err(Refusal::ConnectionLimit);
            },
        };
        let identity = identify(&self.auth, &query);
        let ghost answer = answer_view(identity);
        let r = self.settle(identity, query.topic, slot, ip_permit, now);
        assert((self@, decision_view(r)) == old(self)@.after_admission(
            asked,
            None,
            answer,
            ip,
            now,
        ));
        r
    }

    /// Decides on a connection that got past the limits on addresses and on all connections, once
    /// it is known who the client is.
    pub fn settle(
        &mut self,
        identity: Result<AuthIdentity, Refusal>,
        topic: String,
        slot: SlotPermit,
        ip_permit: Option<IpPermit>,
        now: u64,
    ) -> (r: Result<Admission, Refusal>)
        ensures
            ({
                let ip = match ip_permit {
                    Some(permit) => Some(permit.ip),
                    None => None,
                };
                let turned_away = old(self)@.after_departure(ip, None, now);
                match answer_view(identity) {
                    Err(refusal) => {
                        &&& decision_view(r) == Err::<IdentityModel, Refusal>(refusal)
                        &&& final(self)@ == turned_away.after_refusal(refusal)
                    },
                    Ok(client) => if old(self)@.tenant_full(client.tenant_id) {
                        &&& decision_view(r) == Err::<IdentityModel, Refusal>(Refusal::TenantLimit)
                        &&& final(self)@ == turned_away.after_refusal(Refusal::TenantLimit)
                    } else {
                        &&& decision_view(r) == Ok::<IdentityModel, Refusal>(client)
                        &&& final(self)@ == old(self)@.after_tenant_acquire(client.tenant_id)
                    },
                }
            }),
            r matches Ok(admission) ==> {
                &&& identity == Ok::<AuthIdentity, Refusal>(admission.identity)
                &&& admission.topic@ == topic@
                &&& admission.passes.ip == ip_permit
                &&& admission.passes.spec_tenant() == (if old(
                    self,
                )@.config.tenant_max_connections is Some {
                    Some(admission.identity@.tenant_id)
                } else {
                    None
                })
            },
            old(self)@.wf() ==> final(self)@.wf(),
    {
        let client = match identity {
            Ok(client) => client,
            Err(refusal) => {
                self.release(Passes { slot, ip: ip_permit, tenant: None }, now);
                refusal.count(&mut self.metrics);
                return Err(refusal);
            },
        };
        let tenant = match self.acquire_tenant_permit(client.tenant_id.as_str()) {
            None => None,
            Some(Ok(permit)) => Some(permit),
            Some(Err(())) => {
                self.release(Passes { slot, ip: ip_permit, tenant: None }, now);
                Refusal::TenantLimit.count(&mut self.metrics);
                return Err(Refusal::TenantLimit);
            },
        };
        Ok(Admission { identity: client, topic, passes: Passes { slot, ip: ip_permit, tenant } })
    }

    /// Hands back what a connection held.
    pub fn release(&mut self, passes: Passes, now: u64)
        ensures
            final(self)@ == old(self)@.after_departure(
                passes.spec_ip(),
                passes.spec_tenant(),
                now,
            ),
            old(self)@.wf() ==> final(self)@.wf(),
    {
        self.connection_limit.release(passes.slot);
        self.release_ip(passes.ip, now);
        if let Some(permit) = passes.tenant {
            self.release_tenant_permit(permit);
        }
    }

    fn release_ip(&mut self, permit: Option<IpPermit>, now: u64)
        ensures
            final(self)@ == (StateModel {
                ip_limiter: match permit {
                    Some(permit) => limiter_released(old(self)@.ip_limiter, permit.ip, now),
                    None => old(self)@.ip_limiter,
                },
                ..old(self)@
            }),
            old(self)@.wf() ==> final(self)@.wf(),
    {
        if let Some(permit) = permit {
            if let Some(limiter) = &mut self.ip_limiter {
                limiter.release(permit, now);
            }
        }
    }

    fn ask_limiter(&mut self, ip: ClientIp, now: u64) -> (r: Result<Option<IpPermit>, IpRejection>)
        ensures
            limiter_asked(
                old(self)@.ip_limiter,
                final(self)@.ip_limiter,
                ip,
                now,
                match r {
                    Ok(_) => None,
                    Err(reason) => Some(reason),
                },
            ),
            r matches Ok(permit) ==> match permit {
                Some(permit) => old(self)@.ip_limiter is Some && permit.ip == ip,
                None => old(self)@.ip_limiter is None,
            },
            final(self)@ == (StateModel { ip_limiter: final(self)@.ip_limiter, ..old(self)@ }),
            old(self)@.wf() ==> final(self)@.wf(),
    {
        match &mut self.ip_limiter {
            Some(limiter) => match limiter.try_acquire(ip, now) {
                Ok(permit) => Ok(Some(permit)),
                Err(reason) => Err(reason),
            },
            None => Ok(None),
        }
    }
}

/// Where tokens are asked for, who a client is depends on its token alone: what else the query says
/// makes no difference.
pub proof fn law_token_overrides_query(
    verifier: AuthVerifier,
    query: WsQueryModel,
    other: WsQueryModel,
    answer: Result<IdentityModel, Refusal>,
)
    requires
        query.token == other.token,
    ensures
        may_identify(Some(verifier), query, answer) == may_identify(Some(verifier), other, answer),
{
}

/// Where tokens are asked for, a client without one is refused, and for no other reason.
pub proof fn law_token_is_needed(
    verifier: AuthVerifier,
    query: WsQueryModel,
    answer: Result<IdentityModel, Refusal>,
)
    requires
        query.token is None,
    ensures
        may_identify(Some(verifier), query, answer) <==> answer == Err::<IdentityModel, Refusal>(
            Refusal::MissingToken,
        ),
{
}

/// Where a key is named that cannot be read, nobody is let in.
pub proof fn law_unreadable_key_lets_nobody_in(
    verifier: AuthVerifier,
    query: WsQueryModel,
    answer: Result<IdentityModel, Refusal>,
)
    requires
        verifier.decoding is Unreadable,
        may_identify(Some(verifier), query, answer),
    ensures
        answer is Err,
{
}

/// A server that has as many connections as it may lets no other in.
pub proof fn law_full_server_refuses(
    before: StateModel,
    asked: Option<IpLimiterModel>,
    rejection: Option<IpRejection>,
    identity: Result<IdentityModel, Refusal>,
    ip: ClientIp,
    now: u64,
)
    requires
        before.slots.in_use >= before.slots.capacity,
    ensures
        before.after_admission(asked, rejection, identity, ip, now).1 is Err,
{
}

/// A tenant that has as many connections as it may gets no other.
pub proof fn law_full_tenant_is_refused(
    before: StateModel,
    asked: Option<IpLimiterModel>,
    rejection: Option<IpRejection>,
    identity: IdentityModel,
    ip: ClientIp,
    now: u64,
)
    requires
        before.tenant_full(identity.tenant_id),
    ensures
        before.after_admission(asked, rejection, Ok(identity), ip, now).1 is Err,
{
}

/// A client that is known is let in where its address, the server and its tenant have room for it.
pub proof fn law_admission_is_owed(
    before: StateModel,
    asked: Option<IpLimiterModel>,
    identity: IdentityModel,
    ip: ClientIp,
    now: u64,
)
    requires
        before.slots.in_use < before.slots.capacity,
        !before.tenant_full(identity.tenant_id),
    ensures
        before.after_admission(asked, None, Ok(identity), ip, now).1 == Ok::<
            IdentityModel,
            Refusal,
        >(identity),
{
}

/// The open connections of an address, none where they are not counted.
pub open spec fn limiter_count(limiter: Option<IpLimiterModel>, ip: ClientIp) -> usize {
    match limiter {
        Some(limiter) => limiter.count(ip),
        None => 0,
    }
}

/// A refusal leaves no trace but in the counters and in what the address has left of its rate: no
/// connection of the server, of a tenant or of an address stays taken. It counts as one refusal.
pub proof fn law_refusal_hands_everything_back(
    before: StateModel,
    asked: Option<IpLimiterModel>,
    rejection: Option<IpRejection>,
    identity: Result<IdentityModel, Refusal>,
    ip: ClientIp,
    now: u64,
    other: ClientIp,
)
    requires
        limiter_asked(before.ip_limiter, asked, ip, now, rejection),
        limiter_count(before.ip_limiter, ip) < usize::MAX,
        before.after_admission(asked, rejection, identity, ip, now).1 is Err,
    ensures
        ({
            let after = before.after_admission(asked, rejection, identity, ip, now).0;
            &&& after == StateModel {
                metrics: after.metrics,
                ip_limiter: after.ip_limiter,
                ..before
            }
            &&& limiter_count(after.ip_limiter, other) == limiter_count(before.ip_limiter, other)
            &&& after.metrics.rejected_connections
                == before.metrics.rejected_connections.wrapping_add(1)
            &&& after.metrics.accepted_connections == before.metrics.accepted_connections
        }),
{
    if before.ip_limiter is Some {
        let limiter = before.ip_limiter->0;
        law_requests_are_counted(limiter, asked->0, ip, now, rejection);
        if other != ip {
            law_addresses_are_independent(limiter, asked->0, ip, now, rejection, other);
        }
    }
}

/// A connection that ends hands back all that letting it in took: the server's slot, its tenant's
/// connection, and its address's.
pub proof fn law_departure_undoes_admission(
    before: StateModel,
    asked: Option<IpLimiterModel>,
    identity: IdentityModel,
    ip: ClientIp,
    now: u64,
    later: u64,
    tenant: Seq<char>,
    other: ClientIp,
)
    requires
        limiter_asked(before.ip_limiter, asked, ip, now, None),
        limiter_count(before.ip_limiter, ip) < usize::MAX,
        before.after_admission(asked, None, Ok(identity), ip, now).1 is Ok,
    ensures
        ({
            let during = before.after_admission(asked, None, Ok(identity), ip, now).0;
            let counted_ip = if before.ip_limiter is Some {
                Some(ip)
            } else {
                None
            };
            let counted_tenant = if before.config.tenant_max_connections is Some {
                Some(identity.tenant_id)
            } else {
                None
            };
            let after = during.after_departure(counted_ip, counted_tenant, later);
            &&& after.slots == before.slots
            &&& after.tenant(tenant) == before.tenant(tenant)
            &&& limiter_count(after.ip_limiter, other) == limiter_count(before.ip_limiter, other)
            &&& after.clients == before.clients
            &&& after.topics == before.topics
        }),
{
    if before.ip_limiter is Some {
        let limiter = before.ip_limiter->0;
        law_requests_are_counted(limiter, asked->0, ip, now, None);
        if other != ip {
            law_addresses_are_independent(limiter, asked->0, ip, now, None, other);
        }
    }
}

/// Where no token is asked for, a client is who its query says it is, and of the tenant that its query
/// names: each of the two is taken as it stands, whatever the other is, and has a default of its own.
pub proof fn law_query_tells_who_a_client_is(
    query: WsQueryModel,
    answer: Result<IdentityModel, Refusal>,
)
    requires
        may_identify(None, query, answer),
    ensures
        answer is Ok,
        query.client_id matches Some(client_id) ==> answer->Ok_0.client_id == client_id,
        query.client_id is None ==> answer->Ok_0.client_id == "anonymous"@,
        query.tenant_id matches Some(tenant_id) ==> answer->Ok_0.tenant_id == tenant_id,
        query.tenant_id is None ==> answer->Ok_0.tenant_id == "default"@,
{
}

/// Where no token is asked for, two clients that name the same tenant belong to the same one, and two
/// that name different tenants do not; neither the token nor the topic makes a difference.
pub proof fn law_named_tenants_are_kept_apart(
    query: WsQueryModel,
    other: WsQueryModel,
    answer: Result<IdentityModel, Refusal>,
    other_answer: Result<IdentityModel, Refusal>,
)
    requires
        may_identify(None, query, answer),
        may_identify(None, other, other_answer),
        query.tenant_id is Some,
        other.tenant_id is Some,
    ensures
        answer->Ok_0.tenant_id == other_answer->Ok_0.tenant_id <==> query.tenant_id
            == other.tenant_id,
        query.client_id == other.client_id ==> answer->Ok_0.client_id
            == other_answer->Ok_0.client_id,
{
}

/// A client that brings a token is who the token says it is, where the token holds, and is refused as
/// one with an invalid token where it does not.
pub proof fn law_token_tells_who_a_client_is(
    verifier: AuthVerifier,
    query: WsQueryModel,
    token: Seq<char>,
    answer: Result<IdentityModel, Refusal>,
)
    requires
        query.token == Some(token),
    ensures
        answer matches Ok(identity) ==> (may_identify(Some(verifier), query, answer)
            <==> verifier.may_answer(token, Ok(identity))),
        may_identify(Some(verifier), query, answer) && answer is Err ==> answer == Err::<
            IdentityModel,
            Refusal,
        >(Refusal::InvalidToken),
        (exists|e: AuthError| verifier.may_answer(token, Err(e))) ==> may_identify(
            Some(verifier),
            query,
            Err(Refusal::InvalidToken),
        ),
{
    if answer is Ok {
        let verdict: Result<IdentityModel, AuthError> = Ok(answer->Ok_0);
        if verifier.may_answer(token, verdict) {
            assert(token_answer(verdict) == answer);
        }
        if may_accept(verifier, token, answer) {
            let seen = choose|seen: Result<IdentityModel, AuthError>|
                {
                    &&& #[trigger] verifier.may_answer(token, seen)
                    &&& token_answer(seen) == answer
                };
            assert(seen == verdict);
        }
    }
    if exists|e: AuthError| verifier.may_answer(token, Err(e)) {
        let e = choose|e: AuthError| verifier.may_answer(token, Err(e));
        assert(verifier.may_answer(token, Err(e)));
    }
}

/// The first thing that speaks against a connection is why it is refused: its address, then the
/// server's connections, then who the client is, then its tenant's connections. Where nothing does,
/// the client is let in as who it is.
pub proof fn law_first_reason_counts(
    before: StateModel,
    asked: Option<IpLimiterModel>,
    rejection: Option<IpRejection>,
    identity: Result<IdentityModel, Refusal>,
    ip: ClientIp,
    now: u64,
)
    ensures
        ({
            let decision = before.after_admission(asked, rejection, identity, ip, now).1;
            let room = before.slots.in_use < before.slots.capacity;
            let tenant_room = identity matches Ok(client) && (
            before.config.tenant_max_connections matches Some(cap) ==> (if before.tenants.contains_key(
                client.tenant_id,
            ) {
                before.tenants[client.tenant_id].in_use < cap
            } else {
                0 < cap
            }));
            &&& rejection matches Some(reason) ==> decision == Err::<IdentityModel, Refusal>(
                Refusal::Ip(reason),
            )
            &&& rejection is None && !room ==> decision == Err::<IdentityModel, Refusal>(
                Refusal::ConnectionLimit,
            )
            &&& rejection is None && room && identity is Err ==> decision == identity
            &&& rejection is None && room && identity is Ok && !tenant_room ==> decision == Err::<
                IdentityModel,
                Refusal,
            >(Refusal::TenantLimit)
            &&& rejection is None && room && tenant_room ==> decision == identity
        }),
{
}

/// A connection that is let in takes one of the server's slots and, where they are counted, one of its
/// tenant's connections. Nothing else changes but what its address's limiter took.
pub proof fn law_admission_takes_one_of_each(
    before: StateModel,
    asked: Option<IpLimiterModel>,
    identity: IdentityModel,
    ip: ClientIp,
    now: u64,
    tenant: Seq<char>,
)
    requires
        before.after_admission(asked, None, Ok(identity), ip, now).1 is Ok,
    ensures
        ({
            let after = before.after_admission(asked, None, Ok(identity), ip, now).0;
            let limited = before.config.tenant_max_connections is Some;
            &&& after.slots.in_use == before.slots.in_use + 1
            &&& after.slots.capacity == before.slots.capacity
            &&& after.ip_limiter == asked
            &&& after.tenant(tenant).in_use == before.tenant(tenant).in_use + (if limited && tenant
                == identity.tenant_id {
                1int
            } else {
                0
            })
            &&& after.tenant(tenant).bucket == before.tenant(tenant).bucket
            &&& after == StateModel {
                slots: after.slots,
                ip_limiter: after.ip_limiter,
                tenants: after.tenants,
                ..before
            }
        }),
{
}

/// Every refusal counts once as one, and once more for its reason: the address, the token or the
/// tenant. No other counter changes.
pub proof fn law_refusals_are_counted_by_reason(refusal: Refusal, metrics: Metrics)
    ensures
        refusal.counted(metrics) == (Metrics {
            rejected_connections: metrics.rejected_connections.wrapping_add(1),
            ip_rejections: if refusal is Ip {
                metrics.ip_rejections.wrapping_add(1)
            } else {
                metrics.ip_rejections
            },
            auth_rejections: if refusal is InvalidToken || refusal is MissingToken {
                metrics.auth_rejections.wrapping_add(1)
            } else {
                metrics.auth_rejections
            },
            tenant_rejections: if refusal is TenantLimit {
                metrics.tenant_rejections.wrapping_add(1)
            } else {
                metrics.tenant_rejections
            },
            ..metrics
        }),
{
}

/// A full server answers 503, a client without a valid token 401, and a client or a tenant that asks
/// for too much 429. Each reason has a text of its own, which ends the line.
pub proof fn law_refusals_tell_their_reason(refusal: Refusal, other: Refusal)
    ensures
        refusal.spec_status() == 503 <==> refusal is ConnectionLimit,
        refusal.spec_status() == 401 <==> refusal is InvalidToken || refusal is MissingToken,
        refusal.spec_status() == 429 <==> refusal is Ip || refusal is TenantLimit,
        refusal.spec_message() == other.spec_message() <==> refusal == other,
        refusal.spec_message().last() == '\n',
{
    reveal_strlit("ip connection rate limit exceeded\n");
    reveal_strlit("ip concurrent connection limit exceeded\n");
    reveal_strlit("connection limit reached\n");
    reveal_strlit("invalid token\n");
    reveal_strlit("missing token\n");
    reveal_strlit("tenant connection limit exceeded\n");
    let a = refusal.spec_message();
    let b = other.spec_message();
    if a == b {
        assert(a.len() == b.len() && a[0] == b[0] && a[3] == b[3]);
    }
}

/// Of a list of addresses the first one counts, without the white space around it, whatever follows
/// its comma.
pub proof fn law_first_address_counts(
    front: Seq<char>,
    address: Seq<char>,
    back: Seq<char>,
    rest: Seq<char>,
)
    requires
        forall|i: int| 0 <= i < front.len() ==> is_white_space(#[trigger] front[i]),
        forall|i: int| 0 <= i < back.len() ==> is_white_space(#[trigger] back[i]),
        address.len() > 0,
        !is_white_space(address.first()),
        !is_white_space(address.last()),
        !address.contains(','),
    ensures
        first_listed(front + address + back) == address,
        first_listed(front + address + back + seq![','] + rest) == address,
        trimmed(front + address + back) == address,
{
    let first = front + address + back;
    let header = first + seq![','] + rest;
    assert forall|i: int| 0 <= i < first.len() implies first[i] != ',' by {
        if i < front.len() {
            assert(first[i] == front[i]);
        } else if i < front.len() + address.len() {
            assert(first[i] == address[i - front.len()]);
            assert(address.contains(address[i - front.len()]));
        } else {
            assert(first[i] == back[i - front.len() - address.len()]);
        }
    }
    law_trimming_takes_off_white_space(front, address, back);
    first.index_of_first_ensures(',');
    header.index_of_first_ensures(',');
    assert(header[first.len() as int] == ',');
    assert(header.contains(','));
    let i = header.index_of_first(',')->0;
    if i < first.len() {
        assert(header[i] == first[i]);
    }
    assert(header.take(i) =~= first);
}

/// Without limits on addresses none is refused on its account.
pub proof fn law_unlimited_addresses_are_let_in(
    asked: Option<IpLimiterModel>,
    ip: ClientIp,
    now: u64,
    rejection: Option<IpRejection>,
)
    requires
        limiter_asked(None, asked, ip, now, rejection),
    ensures
        rejection is None,
        asked is None,
{
}

/// A query is viewed field by field, with nothing left out.
pub proof fn law_queries_are_viewed_whole(query: WsQuery)
    ensures
        query@ == (WsQueryModel {
            topic: query.topic@,
            client_id: text_view(query.client_id),
            token: text_view(query.token),
            tenant_id: text_view(query.tenant_id),
        }),
{
}

/// What a client is answered, and what is decided on it, is viewed as it is.
pub proof fn law_answers_are_viewed_whole(
    answer: Result<AuthIdentity, Refusal>,
    decision: Result<Admission, Refusal>,
)
    ensures
        answer matches Ok(identity) ==> answer_view(answer) == Ok::<IdentityModel, Refusal>(
            identity@,
        ),
        answer matches Err(refusal) ==> answer_view(answer) == Err::<IdentityModel, Refusal>(
            refusal,
        ),
        decision matches Ok(admission) ==> decision_view(decision) == Ok::<IdentityModel, Refusal>(
            admission.identity@,
        ),
        decision matches Err(refusal) ==> decision_view(decision) == Err::<IdentityModel, Refusal>(
            refusal,
        ),
{
}

/// Where addresses are limited, the limiter is asked about this address, at this time.
pub proof fn law_limiter_is_asked_about_the_address(
    before: IpLimiterModel,
    asked: Option<IpLimiterModel>,
    ip: ClientIp,
    now: u64,
    rejection: Option<IpRejection>,
)
    requires
        limiter_asked(Some(before), asked, ip, now, rejection),
    ensures
        asked is Some,
        before.request(asked->0, ip, now, rejection),
{
}

/// A connection that is let in holds what it has to hand back: a connection of its own address where
/// addresses are limited, and one of its own tenant where tenants are.
pub proof fn law_connections_hold_their_own(admission: Admission, state: StateModel, ip: ClientIp)
    requires
        admission.holds(state, ip),
    ensures
        state.ip_limiter is Some ==> (admission.passes.ip matches Some(permit) && permit.ip == ip),
        state.ip_limiter is None ==> admission.passes.ip is None,
        state.config.tenant_max_connections is Some ==> (
        admission.passes.tenant matches Some(permit) && permit.tenant_id@
            == admission.identity.tenant_id@),
        state.config.tenant_max_connections is None ==> admission.passes.tenant is None,
{
}

} // verus!
