//! The limits on connections from one address: how many at once, and how many new ones per
//! second.
use dashmap::DashMap;
use vstd::prelude::*;

use crate::bucket::after_requests;
use crate::bucket::elapsed;
use crate::bucket::law_new_bucket_passes_its_burst;
use crate::bucket::law_requests_are_paid_for;
use crate::bucket::law_used_up_bucket_earns_its_rate;
use crate::bucket::let_through;
use crate::bucket::TokenBucket;
use crate::config::Config;

verus! {

/// Declares `dashmap::DashMap`, a hash map.
#[verifier::external_type_specification]
#[verifier::external_body]
#[verifier::reject_recursive_types(K)]
#[verifier::reject_recursive_types(V)]
#[verifier::reject_recursive_types(S)]
pub struct ExDashMap<K, V, S>(dashmap::DashMap<K, V, S>);

/// The address of a client: its version and its bits.
#[derive(Clone, Copy, Debug, PartialEq, Eq, Structural)]
pub struct ClientIp {
    pub v6: bool,
    pub bits: u128,
}

impl ClientIp {
    /// An IPv4 address.
    pub fn from_v4(bits: u32) -> (r: ClientIp)
        ensures
            r == (ClientIp { v6: false, bits: bits as u128 }),
    {
        ClientIp { v6: false, bits: bits as u128 }
    }

    /// An IPv6 address.
    pub fn from_v6(bits: u128) -> (r: ClientIp)
        ensures
            r == (ClientIp { v6: true, bits }),
    {
        ClientIp { v6: true, bits }
    }

    /// The address as a key.
    pub open spec fn key(self) -> (bool, u128) {
        (self.v6, self.bits)
    }
}

/// How long an address without connections is remembered, in nanoseconds.
pub const IDLE_TTL: u64 = 300_000_000_000;

/// How many addresses are forgotten at one go.
pub const REAP_LIMIT: usize = 64;

/// What is known of one address.
#[derive(Clone, Copy, Debug)]
pub struct IpState {
    /// Its open connections.
    pub concurrent: usize,
    /// The new connections that it may still make.
    pub bucket: TokenBucket,
    /// When a connection of its last began or ended.
    pub last_seen: u64,
}

impl IpState {
    /// Whether the address has no connection and has had none for longer than `IDLE_TTL`.
    pub open spec fn idle(self, now: u64) -> bool {
        self.concurrent == 0 && elapsed(self.last_seen, now) > IDLE_TTL
    }

    /// Whether the address can be forgotten.
    pub fn is_idle(&self, now: u64) -> (r: bool)
        ensures
            r == self.idle(now),
    {
        self.concurrent == 0 && now.saturating_sub(self.last_seen) > IDLE_TTL
    }
}

/// The limits on one address.
#[derive(Clone, Copy, Debug)]
pub struct IpRules {
    /// The most connections at once.
    pub max_concurrent: Option<usize>,
    /// Whether new connections are limited at all.
    pub rate_configured: bool,
    /// New connections per second.
    pub refill_per_second: u32,
    /// New connections at once.
    pub burst: u32,
}

/// Why a connection is refused on account of its address.
#[derive(Clone, Copy, Debug, PartialEq, Eq, Structural)]
pub enum IpRejection {
    /// Too many new connections from this address.
    RateLimited,
    /// Too many connections from this address at once.
    ConcurrencyLimited,
}

/// The right to one connection from an address, to be handed back when the connection ends.
#[derive(Debug)]
pub struct IpPermit {
    /// The address.
    pub ip: ClientIp,
}

/// Keeps count of the connections of each address.
pub struct IpLimiter {
    rules: IpRules,
    states: DashMap<(bool, u128), IpState>,
}

/// What a limiter knows.
#[verifier::ext_equal]
pub struct IpLimiterModel {
    pub rules: IpRules,
    pub states: Map<(bool, u128), IpState>,
}

impl View for IpLimiter {
    type V = IpLimiterModel;

    closed spec fn view(&self) -> IpLimiterModel {
        IpLimiterModel { rules: self.rules, states: ip_states(self.states) }
    }
}

/// What a map of addresses holds.
pub uninterp spec fn ip_states(m: DashMap<(bool, u128), IpState>) -> Map<(bool, u128), IpState>;

/// Calls `DashMap::new`. Claimed: the map is empty.
#[verifier::external_body]
fn new_ip_map() -> (r: DashMap<(bool, u128), IpState>)
    ensures
        ip_states(r).dom() == Set::<(bool, u128)>::empty(),
{
    DashMap::new()
}

/// Calls `DashMap::get` and copies the value out. Claimed: it is what the map holds under the key,
/// where it holds anything there.
#[verifier::external_body]
fn ip_get(m: &DashMap<(bool, u128), IpState>, key: (bool, u128)) -> (r: Option<IpState>)
    ensures
        r == (if ip_states(*m).contains_key(key) {
            Some(ip_states(*m)[key])
        } else {
            None
        }),
{
    m.get(&key).map(|state| *state)
}

/// Calls `DashMap::insert`. Claimed: the map then holds the value under the key, and is otherwise
/// as it was.
#[verifier::external_body]
fn ip_insert(m: &mut DashMap<(bool, u128), IpState>, key: (bool, u128), state: IpState)
    ensures
        ip_states(*final(m)) == ip_states(*old(m)).insert(key, state),
{
    m.insert(key, state);
}

/// Calls `DashMap::remove_if` with the test for idleness. Claimed: the entry is gone where there
/// was one that passes the test, and the map is otherwise as it was.
#[verifier::external_body]
fn ip_remove_if_idle(m: &mut DashMap<(bool, u128), IpState>, key: (bool, u128), now: u64)
    ensures
        ip_states(*final(m)) == (if ip_states(*old(m)).contains_key(key) && ip_states(
            *old(m),
        )[key].idle(now) {
            ip_states(*old(m)).remove(key)
        } else {
            ip_states(*old(m))
        }),
{
    m.remove_if(&key, |_, state| state.is_idle(now));
}

/// Calls `DashMap::iter` and copies the entries out. Claimed: each entry of the map comes once,
/// and nothing else does. In which order they come is left open.
#[verifier::external_body]
fn ip_entries(m: &DashMap<(bool, u128), IpState>) -> (r: Vec<((bool, u128), IpState)>)
    ensures
        forall|i: int|
            0 <= i < r@.len() ==> ip_states(*m).contains_pair((#[trigger] r@[i]).0, r@[i].1),
        forall|i: int, j: int| 0 <= i < j < r@.len() ==> r@[i].0 != r@[j].0,
        forall|key: (bool, u128)| #[trigger]
            ip_states(*m).contains_key(key) ==> exists|i: int|
                0 <= i < r@.len() && (#[trigger] r@[i]).0 == key,
{
    m.iter().map(|entry| (*entry.key(), *entry.value())).collect()
}

/// `after` is `before` without some addresses that were idle: at most `REAP_LIMIT`, and all of
/// them where there were fewer.
pub open spec fn reaped(
    before: Map<(bool, u128), IpState>,
    after: Map<(bool, u128), IpState>,
    now: u64,
) -> bool {
    &&& forall|key: (bool, u128)| #[trigger]
        after.contains_key(key) ==> before.contains_key(key) && after[key] == before[key]
    &&& forall|key: (bool, u128)| #[trigger]
        before.contains_key(key) && !after.contains_key(key) ==> before[key].idle(now)
    &&& exists|victims: Seq<(bool, u128)>|
        {
            &&& #[trigger] victims.no_duplicates()
            &&& victims.len() <= REAP_LIMIT
            &&& forall|key: (bool, u128)|
                before.contains_key(key) && !after.contains_key(key) <==> #[trigger] victims.contains(
                    key,
                )
            &&& victims.len() < REAP_LIMIT ==> forall|key: (bool, u128)| #[trigger]
                after.contains_key(key) ==> !after[key].idle(now)
        }
}

impl IpRules {
    /// An address that was never seen.
    pub open spec fn fresh(self, now: u64) -> IpState {
        IpState {
            concurrent: 0,
            bucket: TokenBucket::full(self.refill_per_second, self.burst, now),
            last_seen: now,
        }
    }

    /// What is known of an address, or would be.
    pub open spec fn state_of(
        self,
        states: Map<(bool, u128), IpState>,
        ip: ClientIp,
        now: u64,
    ) -> IpState {
        if states.contains_key(ip.key()) {
            states[ip.key()]
        } else {
            self.fresh(now)
        }
    }

    /// Whether a new connection is refused, and why. The rate comes first.
    pub open spec fn refusal(self, state: IpState, now: u64) -> Option<IpRejection> {
        if self.rate_configured && !state.bucket.lets_through(now) {
            Some(IpRejection::RateLimited)
        } else if self.max_concurrent matches Some(cap) && state.concurrent >= cap {
            Some(IpRejection::ConcurrencyLimited)
        } else {
            None
        }
    }

    /// What is known of an address after it asked for a connection. Where the rate is limited the
    /// request costs a token, whether or not it is refused after that.
    pub open spec fn after_request(self, state: IpState, now: u64) -> IpState {
        let bucket = if self.rate_configured {
            state.bucket.after_request(now)
        } else {
            state.bucket
        };
        match self.refusal(state, now) {
            Some(_) => IpState { bucket, ..state },
            None => IpState {
                concurrent: state.concurrent.wrapping_add(1),
                bucket,
                last_seen: now,
            },
        }
    }

    /// No address has more connections than it may.
    pub open spec fn cap_kept(self, states: Map<(bool, u128), IpState>) -> bool {
        self.max_concurrent matches Some(cap) ==> forall|key: (bool, u128)| #[trigger]
            states.contains_key(key) ==> states[key].concurrent <= cap
    }
}

impl IpState {
    /// What is known of an address after one of its connections ended.
    pub open spec fn after_release(self, now: u64) -> IpState {
        IpState {
            concurrent: if self.concurrent > 0 {
                (self.concurrent - 1) as usize
            } else {
                0
            },
            last_seen: now,
            ..self
        }
    }
}

impl IpLimiterModel {
    /// The open connections of an address.
    pub open spec fn count(self, ip: ClientIp) -> usize {
        if self.states.contains_key(ip.key()) {
            self.states[ip.key()].concurrent
        } else {
            0
        }
    }

    /// The limiter after a connection from `ip` ended.
    pub open spec fn after_release(self, ip: ClientIp, now: u64) -> IpLimiterModel {
        if self.states.contains_key(ip.key()) {
            IpLimiterModel {
                states: self.states.insert(ip.key(), self.states[ip.key()].after_release(now)),
                ..self
            }
        } else {
            self
        }
    }

    /// `after` is what a request from `ip` makes of `self`, and `refusal` what is answered: some
    /// idle addresses are forgotten, then the request is decided.
    pub open spec fn request(
        self,
        after: IpLimiterModel,
        ip: ClientIp,
        now: u64,
        refusal: Option<IpRejection>,
    ) -> bool {
        exists|kept: Map<(bool, u128), IpState>| #[trigger]
            self.request_with(kept, after, ip, now, refusal)
    }

    /// As `request`, where `kept` is what is left after the forgetting.
    pub open spec fn request_with(
        self,
        kept: Map<(bool, u128), IpState>,
        after: IpLimiterModel,
        ip: ClientIp,
        now: u64,
        refusal: Option<IpRejection>,
    ) -> bool {
        let state = self.rules.state_of(kept, ip, now);
        &&& reaped(self.states, kept, now)
        &&& refusal == self.rules.refusal(state, now)
        &&& after.rules == self.rules
        &&& after.states == kept.insert(ip.key(), self.rules.after_request(state, now))
    }
}

/// The limits that a configuration asks for, where it asks for any. The burst is the rate where
/// none is named.
pub open spec fn configured_rules(
    max_concurrent: Option<usize>,
    rate: Option<u32>,
    burst: Option<u32>,
) -> Option<IpRules> {
    if max_concurrent is None && rate is None {
        None
    } else {
        Some(
            IpRules {
                max_concurrent,
                rate_configured: rate is Some,
                refill_per_second: match rate {
                    Some(rate) => rate,
                    None => 1,
                },
                burst: match (burst, rate) {
                    (Some(burst), _) => burst,
                    (None, Some(rate)) => crate::bucket::at_least_one(rate),
                    (None, None) => 1,
                },
            },
        )
    }
}

/// The refusal in a result, where it is one.
pub open spec fn refusal_in(r: Result<IpPermit, IpRejection>) -> Option<IpRejection> {
    match r {
        Ok(_) => None,
        Err(e) => Some(e),
    }
}

impl IpLimiter {
    /// A limiter, where the configuration asks for one.
    pub fn from_config(config: &Config) -> (r: Option<IpLimiter>)
        ensures
            match r {
                Some(limiter) => {
                    &&& configured_rules(
                        config.ip_max_concurrent,
                        config.ip_connection_rate,
                        config.ip_rate_burst,
                    ) == Some(limiter@.rules)
                    &&& limiter@.states == Map::<(bool, u128), IpState>::empty()
                },
                None => configured_rules(
                    config.ip_max_concurrent,
                    config.ip_connection_rate,
                    config.ip_rate_burst,
                ) is None,
            },
            r is None <==> config.ip_max_concurrent is None && config.ip_connection_rate is None,
            r matches Some(limiter) ==> limiter@.rules.max_concurrent == config.ip_max_concurrent,
    {
        if config.ip_max_concurrent.is_none() && config.ip_connection_rate.is_none() {
            return None;
        }
        let refill_per_second: u32 = match config.ip_connection_rate {
            Some(rate) => rate,
            None => 1,
        };
        let burst: u32 = match config.ip_rate_burst {
            Some(burst) => burst,
            None => if refill_per_second < 1 {
                1
            } else {
                refill_per_second
            },
        };
        let rules = IpRules {
            max_concurrent: config.ip_max_concurrent,
            rate_configured: config.ip_connection_rate.is_some(),
            refill_per_second,
            burst,
        };
        Some(IpLimiter { rules, states: new_ip_map() })
    }

    /// Asks for a connection from `ip`.
    pub fn try_acquire(&mut self, ip: ClientIp, now: u64) -> (r: Result<IpPermit, IpRejection>)
        ensures
            old(self)@.request(final(self)@, ip, now, refusal_in(r)),
            r matches Ok(permit) ==> permit.ip == ip,
            old(self)@.rules.cap_kept(old(self)@.states) ==> final(self)@.rules.cap_kept(
                final(self)@.states,
            ),
    {
        self.reap_idle(now);
        let key = (ip.v6, ip.bits);
        let ghost kept = ip_states(self.states);
        let mut state = match ip_get(&self.states, key) {
            Some(state) => state,
            None => IpState {
                concurrent: 0,
                bucket: TokenBucket::new(self.rules.refill_per_second, self.rules.burst, now),
                last_seen: now,
            },
        };
        assert(state == self.rules.state_of(kept, ip, now));
        if self.rules.rate_configured {
            let mut bucket = state.bucket;
            let admitted = bucket.try_consume(now);
            state.bucket = bucket;
            if !admitted {
                ip_insert(&mut self.states, key, state);
                assert(old(self)@.request_with(
                    kept,
                    self@,
                    ip,
                    now,
                    Some(IpRejection::RateLimited),
                ));
                return Err(IpRejection::RateLimited);
            }
        }
        if let Some(cap) = self.rules.max_concurrent {
            if state.concurrent >= cap {
                ip_insert(&mut self.states, key, state);
                assert(old(self)@.request_with(
                    kept,
                    self@,
                    ip,
                    now,
                    Some(IpRejection::ConcurrencyLimited),
                ));
                return Err(IpRejection::ConcurrencyLimited);
            }
        }
        state.concurrent = state.concurrent.wrapping_add(1);
        state.last_seen = now;
        ip_insert(&mut self.states, key, state);
        assert(old(self)@.request_with(kept, self@, ip, now, None));
        Ok(IpPermit { ip })
    }

    /// Forgets some addresses that have been idle for long.
    fn reap_idle(&mut self, now: u64)
        ensures
            final(self)@.rules == old(self)@.rules,
            reaped(old(self)@.states, final(self)@.states, now),
    {
        let entries = ip_entries(&self.states);
        let mut victims: Vec<(bool, u128)> = Vec::new();
        let ghost before = ip_states(self.states);
        let ghost mut at: Seq<int> = Seq::empty();
        let mut i: usize = 0;
        while i < entries.len() && victims.len() < REAP_LIMIT
            invariant
                i <= entries@.len(),
                before == ip_states(self.states),
                victims@.len() <= REAP_LIMIT,
                forall|j: int|
                    0 <= j < entries@.len() ==> before.contains_pair(
                        (#[trigger] entries@[j]).0,
                        entries@[j].1,
                    ),
                forall|j: int, k: int|
                    0 <= j < k < entries@.len() ==> entries@[j].0 != entries@[k].0,
                victims@.no_duplicates(),
                at.len() == victims@.len(),
                forall|v: int|
                    0 <= v < victims@.len() ==> 0 <= #[trigger] at[v] < i && entries@[at[v]].0
                        == victims@[v] && entries@[at[v]].1.idle(now),
                forall|j: int|
                    0 <= j < i && entries@[j].1.idle(now) ==> victims@.contains(
                        (#[trigger] entries@[j]).0,
                    ),
            decreases entries@.len() - i,
        {
            let (key, state) = entries[i];
            if state.is_idle(now) {
                let ghost chosen = victims@;
                victims.push(key);
                assert forall|j: int|
                    0 <= j < i + 1 && entries@[j].1.idle(now) implies victims@.contains(
                    (#[trigger] entries@[j]).0,
                ) by {
                    if j < i {
                        assert(chosen.contains(entries@[j].0));
                        let v = choose|v: int| 0 <= v < chosen.len() && chosen[v] == entries@[j].0;
                        assert(victims@[v] == entries@[j].0);
                    } else {
                        assert(victims@[chosen.len() as int] == key);
                    }
                }
                assert(!chosen.contains(key)) by {
                    if chosen.contains(key) {
                        let v = choose|v: int| 0 <= v < chosen.len() && chosen[v] == key;
                        assert(0 <= at[v] < i && entries@[at[v]].0 == entries@[i as int].0);
                    }
                }
                proof {
                    at = at.push(i as int);
                }
            }
            i = i + 1;
        }
        assert forall|v: int| 0 <= v < victims@.len() implies before.contains_key(
            #[trigger] victims@[v],
        ) && before[victims@[v]].idle(now) by {
            assert(before.contains_pair(entries@[at[v]].0, entries@[at[v]].1));
        }
        let mut n: usize = 0;
        assert(victims@.take(0) =~= Seq::<(bool, u128)>::empty());
        while n < victims.len()
            invariant
                n <= victims@.len(),
                self.rules == old(self).rules,
                victims@.no_duplicates(),
                forall|v: int|
                    0 <= v < victims@.len() ==> before.contains_key(#[trigger] victims@[v])
                        && before[victims@[v]].idle(now),
                forall|key: (bool, u128)| #[trigger]
                    ip_states(self.states).contains_key(key) <==> before.contains_key(key)
                        && !victims@.take(n as int).contains(key),
                forall|key: (bool, u128)| #[trigger]
                    ip_states(self.states).contains_key(key) ==> ip_states(self.states)[key]
                        == before[key],
            decreases victims@.len() - n,
        {
            let key = victims[n];
            let ghost current = ip_states(self.states);
            assert(!victims@.take(n as int).contains(key)) by {
                if victims@.take(n as int).contains(key) {
                    let v = choose|v: int| 0 <= v < n && victims@.take(n as int)[v] == key;
                    assert(victims@[v] == victims@[n as int]);
                }
            }
            assert(current.contains_key(key));
            ip_remove_if_idle(&mut self.states, key, now);
            assert(victims@.take(n + 1) =~= victims@.take(n as int).push(key));
            assert forall|k: (bool, u128)| #[trigger]
                ip_states(self.states).contains_key(k) <==> before.contains_key(k)
                    && !victims@.take(n + 1).contains(k) by {
                assert(current.contains_key(k) <==> before.contains_key(k)
                    && !victims@.take(n as int).contains(k));
                vstd::seq_lib::lemma_seq_contains_after_push(victims@.take(n as int), key, k);
            }
            n = n + 1;
        }
        assert(victims@.take(n as int) =~= victims@);
        let ghost after = ip_states(self.states);
        assert forall|key: (bool, u128)|
            before.contains_key(key) && !after.contains_key(key) <==> #[trigger] victims@.contains(
                key,
            ) by {
            if victims@.contains(key) {
                let v = choose|v: int| 0 <= v < victims@.len() && victims@[v] == key;
                assert(before.contains_key(victims@[v]));
                assert(!after.contains_key(key));
            }
            if before.contains_key(key) && !after.contains_key(key) {
                assert(victims@.contains(key));
            }
        }
        assert forall|key: (bool, u128)| #[trigger]
            before.contains_key(key) && !after.contains_key(key) implies before[key].idle(now) by {
            assert(victims@.contains(key));
            let v = choose|v: int| 0 <= v < victims@.len() && victims@[v] == key;
            assert(before[victims@[v]].idle(now));
        }
        if victims.len() < REAP_LIMIT {
            assert forall|key: (bool, u128)| #[trigger]
                after.contains_key(key) implies !after[key].idle(now) by {
                let j = choose|j: int| 0 <= j < entries@.len() && (#[trigger] entries@[j]).0 == key;
                assert(before.contains_pair(entries@[j].0, entries@[j].1));
                if after[key].idle(now) {
                    assert(victims@.contains(entries@[j].0));
                }
            }
        }
        assert(reaped(before, after, now));
    }

    /// Hands back the right to a connection.
    pub fn release(&mut self, permit: IpPermit, now: u64)
        ensures
            final(self)@ == old(self)@.after_release(permit.ip, now),
            old(self)@.rules.cap_kept(old(self)@.states) ==> final(self)@.rules.cap_kept(
                final(self)@.states,
            ),
    {
        let key = (permit.ip.v6, permit.ip.bits);
        if let Some(found) = ip_get(&self.states, key) {
            let mut state = found;
            if state.concurrent > 0 {
                state.concurrent = state.concurrent - 1;
            }
            state.last_seen = now;
            ip_insert(&mut self.states, key, state);
        }
    }
}

/// A request that is let in adds one to the count of its address; one that is refused adds none.
pub proof fn law_requests_are_counted(
    before: IpLimiterModel,
    after: IpLimiterModel,
    ip: ClientIp,
    now: u64,
    refusal: Option<IpRejection>,
)
    requires
        before.request(after, ip, now, refusal),
        before.count(ip) < usize::MAX,
    ensures
        after.count(ip) == before.count(ip) + if refusal is None {
            1int
        } else {
            0
        },
{
    let kept = choose|kept: Map<(bool, u128), IpState>|
        before.request_with(kept, after, ip, now, refusal);
    assert(before.rules.state_of(kept, ip, now).concurrent == before.count(ip));
}

/// An address that has as many connections as it may is refused, whatever its rate.
pub proof fn law_full_address_is_refused(
    before: IpLimiterModel,
    after: IpLimiterModel,
    ip: ClientIp,
    now: u64,
    refusal: Option<IpRejection>,
    cap: usize,
)
    requires
        before.request(after, ip, now, refusal),
        before.rules.max_concurrent == Some(cap),
        before.count(ip) >= cap,
    ensures
        refusal is Some,
{
    let kept = choose|kept: Map<(bool, u128), IpState>|
        before.request_with(kept, after, ip, now, refusal);
    assert(before.rules.state_of(kept, ip, now).concurrent == before.count(ip));
}

/// An address that has used up its rate is refused for that reason, whatever its connections.
pub proof fn law_hasty_address_is_refused(
    before: IpLimiterModel,
    after: IpLimiterModel,
    ip: ClientIp,
    now: u64,
    refusal: Option<IpRejection>,
)
    requires
        before.request(after, ip, now, refusal),
        before.rules.rate_configured,
        before.states.contains_key(ip.key()),
        !before.states[ip.key()].idle(now),
        !before.states[ip.key()].bucket.lets_through(now),
    ensures
        refusal == Some(IpRejection::RateLimited),
{
    let kept = choose|kept: Map<(bool, u128), IpState>|
        before.request_with(kept, after, ip, now, refusal);
    assert(kept.contains_key(ip.key()));
}

/// Where only the number of connections is limited, an address below its limit is let in.
pub proof fn law_free_address_is_let_in(
    before: IpLimiterModel,
    after: IpLimiterModel,
    ip: ClientIp,
    now: u64,
    refusal: Option<IpRejection>,
)
    requires
        before.request(after, ip, now, refusal),
        !before.rules.rate_configured,
        before.rules.max_concurrent matches Some(cap) ==> before.count(ip) < cap,
    ensures
        refusal is None,
{
    let kept = choose|kept: Map<(bool, u128), IpState>|
        before.request_with(kept, after, ip, now, refusal);
    assert(before.rules.state_of(kept, ip, now).concurrent == before.count(ip));
}

/// A request from one address leaves the count of every other address as it was, and its bucket
/// too, unless that address was idle and has been forgotten.
pub proof fn law_addresses_are_independent(
    before: IpLimiterModel,
    after: IpLimiterModel,
    ip: ClientIp,
    now: u64,
    refusal: Option<IpRejection>,
    other: ClientIp,
)
    requires
        before.request(after, ip, now, refusal),
        other != ip,
    ensures
        after.count(other) == before.count(other),
        after.states.contains_key(other.key()) ==> before.states.contains_key(other.key())
            && after.states[other.key()] == before.states[other.key()],
        before.states.contains_key(other.key()) && !before.states[other.key()].idle(now)
            ==> after.states.contains_key(other.key()),
{
    let kept = choose|kept: Map<(bool, u128), IpState>|
        before.request_with(kept, after, ip, now, refusal);
    assert(other.key() != ip.key());
    assert(after.states.contains_key(other.key()) == kept.contains_key(other.key()));
}

/// Handing back a connection takes back what letting it in did to the count, and leaves every
/// other address as it was.
pub proof fn law_release_undoes_acquire(
    before: IpLimiterModel,
    after: IpLimiterModel,
    ip: ClientIp,
    now: u64,
    later: u64,
    other: ClientIp,
)
    requires
        before.request(after, ip, now, None),
        before.count(ip) < usize::MAX,
        other != ip,
    ensures
        after.after_release(ip, later).count(ip) == before.count(ip),
        after.after_release(ip, later).count(other) == before.count(other),
{
    law_requests_are_counted(before, after, ip, now, None);
    law_addresses_are_independent(before, after, ip, now, None, other);
}

/// The limits in force are those that were configured: the cap is the one that was set, whatever the
/// rate and the burst are, and new connections are limited where a rate was set. Without either
/// there is no limiter.
pub proof fn law_limits_are_as_configured(
    max_concurrent: Option<usize>,
    rate: Option<u32>,
    burst: Option<u32>,
)
    ensures
        configured_rules(max_concurrent, rate, burst) is None <==> max_concurrent is None
            && rate is None,
        configured_rules(max_concurrent, rate, burst) matches Some(rules)
            ==> rules.max_concurrent == max_concurrent && (rules.rate_configured <==> rate is Some),
{
}

/// The most new connections at once that a configuration lets an address make, one at least: the
/// burst, or the rate where none is set.
pub open spec fn most_at_once(rate: u32, burst: Option<u32>) -> int {
    let asked: int = match burst {
        Some(burst) => burst as int,
        None => rate as int,
    };
    if asked <= 1 {
        1
    } else {
        asked
    }
}

/// A new address may make its whole burst of connections at once, and what it earns later is the
/// configured rate, up to that burst.
pub proof fn law_address_rate_is_as_configured(
    max_concurrent: Option<usize>,
    rate: u32,
    burst: Option<u32>,
    start: u64,
    first: Seq<u64>,
    later: u64,
    times: Seq<u64>,
)
    requires
        forall|i: int| 0 <= i < first.len() ==> first[i] == start,
        first.len() >= most_at_once(rate, burst),
        start <= later,
        forall|i: int| 0 <= i < times.len() ==> times[i] == later,
    ensures
        ({
            let bucket = configured_rules(max_concurrent, Some(rate), burst)->0.fresh(start).bucket;
            let most = most_at_once(rate, burst);
            let earned: int = ((later - start) * (if rate == 0 {
                1
            } else {
                rate as int
            })) / 1_000_000_000;
            let owed: int = if earned <= most {
                earned
            } else {
                most
            };
            &&& let_through(bucket, first) == most
            &&& let_through(after_requests(bucket, first), times) == (if times.len() <= owed {
                times.len() as int
            } else {
                owed
            })
        }),
{
    let rules = configured_rules(max_concurrent, Some(rate), burst)->0;
    law_new_bucket_passes_its_burst(rules.refill_per_second, rules.burst, start, first);
    law_used_up_bucket_earns_its_rate(
        rules.refill_per_second,
        rules.burst,
        start,
        first,
        later,
        times,
    );
}

/// An address that has fewer connections than it may, and a whole token left or earned where new
/// connections are limited, is let in.
pub proof fn law_address_with_room_is_let_in(
    before: IpLimiterModel,
    after: IpLimiterModel,
    ip: ClientIp,
    now: u64,
    refusal: Option<IpRejection>,
)
    requires
        before.request(after, ip, now, refusal),
        before.rules.max_concurrent matches Some(cap) ==> before.count(ip) < cap,
        before.rules.rate_configured && before.states.contains_key((ip.v6, ip.bits)) ==> {
            let bucket = before.states[(ip.v6, ip.bits)].bucket;
            &&& bucket.last_refill <= now
            &&& bucket.tokens + (now - bucket.last_refill) * bucket.refill_per_second
                >= 1_000_000_000
            &&& bucket.capacity >= 1_000_000_000
        },
    ensures
        refusal is None,
{
    let kept = choose|kept: Map<(bool, u128), IpState>|
        before.request_with(kept, after, ip, now, refusal);
    let state = before.rules.state_of(kept, ip, now);
    assert(state.concurrent == before.count(ip));
    if kept.contains_key(ip.key()) {
        law_requests_are_paid_for(state.bucket, now);
    } else {
        law_requests_are_paid_for(before.rules.fresh(now).bucket, now);
        assert((now - now) * before.rules.fresh(now).bucket.refill_per_second == 0)
            by (nonlinear_arith);
    }
}

/// Only what was configured refuses an address: its rate where one is, and then its cap, where one is
/// and the address has reached it.
pub proof fn law_refusals_have_their_reason(
    before: IpLimiterModel,
    after: IpLimiterModel,
    ip: ClientIp,
    now: u64,
    refusal: Option<IpRejection>,
)
    requires
        before.request(after, ip, now, refusal),
    ensures
        refusal == Some(IpRejection::RateLimited) ==> before.rules.rate_configured,
        refusal == Some(IpRejection::ConcurrencyLimited) ==> (
        before.rules.max_concurrent matches Some(cap) && before.count(ip) >= cap),
{
    let kept = choose|kept: Map<(bool, u128), IpState>|
        before.request_with(kept, after, ip, now, refusal);
    assert(before.rules.state_of(kept, ip, now).concurrent == before.count(ip));
}

/// An address is forgotten only where it has no connection, and none of its connections has begun or
/// ended within five minutes. Any other is known as before, whoever asks.
pub proof fn law_addresses_in_use_are_remembered(
    before: IpLimiterModel,
    after: IpLimiterModel,
    ip: ClientIp,
    now: u64,
    refusal: Option<IpRejection>,
    other: ClientIp,
)
    requires
        before.request(after, ip, now, refusal),
        other != ip,
        before.states.contains_key((other.v6, other.bits)),
        before.states[(other.v6, other.bits)].concurrent > 0 || now <= before.states[(
            other.v6,
            other.bits,
        )].last_seen + 300_000_000_000,
    ensures
        after.states.contains_key((other.v6, other.bits)),
        after.states[(other.v6, other.bits)] == before.states[(other.v6, other.bits)],
{
    law_addresses_are_independent(before, after, ip, now, refusal, other);
}

/// Where an address that was never seen asks for connections at one time, over and over, it is let in
/// until it has its cap of connections or has made its burst of requests. After its burst it is
/// told that it is too fast, and before that, at its cap, that it has too many.
pub proof fn law_new_address_gets_what_was_configured(
    models: Seq<IpLimiterModel>,
    refusals: Seq<Option<IpRejection>>,
    ip: ClientIp,
    now: u64,
    cap: Option<usize>,
    rate: Option<u32>,
    burst: Option<u32>,
    i: int,
)
    requires
        models.len() == refusals.len() + 1,
        configured_rules(cap, rate, burst) == Some(models[0].rules),
        !models[0].states.contains_key((ip.v6, ip.bits)),
        forall|k: int|
            0 <= k < refusals.len() ==> (#[trigger] models[k]).request(
                models[k + 1],
                ip,
                now,
                refusals[k],
            ),
        0 <= i < refusals.len(),
        refusals.len() < usize::MAX,
    ensures
        refusals[i] == (if rate matches Some(rate) && i >= most_at_once(rate, burst) {
            Some(IpRejection::RateLimited)
        } else if cap matches Some(cap) && i >= cap {
            Some(IpRejection::ConcurrencyLimited)
        } else {
            None
        }),
        models[i].rules == models[0].rules,
{
    lemma_requests_at_once(models, refusals, ip, now, cap, rate, burst, i);
    lemma_next_request_at_once(models, refusals, ip, now, cap, rate, burst, i);
}

/// What is known of a new address after `i` requests at one time.
spec fn after_so_many(
    model: IpLimiterModel,
    rules: IpRules,
    ip: ClientIp,
    now: u64,
    cap: Option<usize>,
    rate: Option<u32>,
    burst: Option<u32>,
    i: int,
) -> bool {
    let key = (ip.v6, ip.bits);
    &&& model.rules == rules
    &&& i == 0 ==> !model.states.contains_key(key)
    &&& i > 0 ==> {
        let state = model.states[key];
        let most = most_at_once(rate->0, burst);
        let let_by_rate = if rate is Some && i > most {
            most
        } else {
            i
        };
        &&& model.states.contains_key(key)
        &&& state.last_seen == now
        &&& state.concurrent == (if cap matches Some(cap) && let_by_rate >= cap {
            cap->0 as int
        } else {
            let_by_rate
        })
        &&& rate is Some ==> state.bucket.capacity == most * 1_000_000_000
        &&& rate is Some ==> state.bucket.tokens == (most - let_by_rate) * 1_000_000_000
        &&& rate is Some ==> state.bucket.last_refill == now
    }
}

proof fn lemma_requests_at_once(
    models: Seq<IpLimiterModel>,
    refusals: Seq<Option<IpRejection>>,
    ip: ClientIp,
    now: u64,
    cap: Option<usize>,
    rate: Option<u32>,
    burst: Option<u32>,
    i: int,
)
    requires
        models.len() == refusals.len() + 1,
        configured_rules(cap, rate, burst) == Some(models[0].rules),
        !models[0].states.contains_key((ip.v6, ip.bits)),
        forall|k: int|
            0 <= k < refusals.len() ==> (#[trigger] models[k]).request(
                models[k + 1],
                ip,
                now,
                refusals[k],
            ),
        0 <= i <= refusals.len(),
        refusals.len() < usize::MAX,
    ensures
        after_so_many(models[i], models[0].rules, ip, now, cap, rate, burst, i),
    decreases i,
{
    if i > 0 {
        lemma_requests_at_once(models, refusals, ip, now, cap, rate, burst, i - 1);
        lemma_next_request_at_once(models, refusals, ip, now, cap, rate, burst, i - 1);
    }
}

proof fn lemma_next_request_at_once(
    models: Seq<IpLimiterModel>,
    refusals: Seq<Option<IpRejection>>,
    ip: ClientIp,
    now: u64,
    cap: Option<usize>,
    rate: Option<u32>,
    burst: Option<u32>,
    i: int,
)
    requires
        models.len() == refusals.len() + 1,
        configured_rules(cap, rate, burst) == Some(models[0].rules),
        forall|k: int|
            0 <= k < refusals.len() ==> (#[trigger] models[k]).request(
                models[k + 1],
                ip,
                now,
                refusals[k],
            ),
        0 <= i < refusals.len(),
        refusals.len() < usize::MAX,
        after_so_many(models[i], models[0].rules, ip, now, cap, rate, burst, i),
    ensures
        after_so_many(models[i + 1], models[0].rules, ip, now, cap, rate, burst, i + 1),
        refusals[i] == (if rate matches Some(rate) && i >= most_at_once(rate, burst) {
            Some(IpRejection::RateLimited)
        } else if cap matches Some(cap) && i >= cap {
            Some(IpRejection::ConcurrencyLimited)
        } else {
            None
        }),
{
    let rules = models[0].rules;
    let key = (ip.v6, ip.bits);
    let before = models[i];
    let after = models[i + 1];
    assert(before.request(after, ip, now, refusals[i]));
    let kept = choose|kept: Map<(bool, u128), IpState>|
        before.request_with(kept, after, ip, now, refusals[i]);
    let state = rules.state_of(kept, ip, now);
    law_requests_are_paid_for(state.bucket, now);
    if i > 0 {
        assert(!before.states[key].idle(now));
        assert(kept.contains_key(key));
        assert(state == before.states[key]);
    } else {
        assert(!kept.contains_key(key));
        assert(state == rules.fresh(now));
    }
    assert(0int * state.bucket.refill_per_second == 0) by (nonlinear_arith);
    assert(state.last_seen == now);
    assert(after.states[key] == rules.after_request(state, now));
}

/// An address is idle once it has had no connection for more than five minutes, and as long as it has none.
pub proof fn law_idleness_is_five_minutes(state: IpState, now: u64)
    ensures
        state.idle(now) <==> state.concurrent == 0 && now > state.last_seen + 300_000_000_000,
{
}

/// A request has at most sixty-four idle addresses forgotten, and all of them where there are fewer.
pub proof fn law_few_addresses_are_forgotten(
    before: IpLimiterModel,
    after: IpLimiterModel,
    ip: ClientIp,
    now: u64,
    refusal: Option<IpRejection>,
)
    requires
        before.request(after, ip, now, refusal),
    ensures
        exists|victims: Seq<(bool, u128)>|
            {
                &&& #[trigger] victims.no_duplicates()
                &&& victims.len() <= 64
                &&& forall|key: (bool, u128)|
                    key != (ip.v6, ip.bits) ==> (before.states.contains_key(key)
                        && !after.states.contains_key(key) <==> #[trigger] victims.contains(key))
                &&& victims.len() < 64 ==> forall|key: (bool, u128)|
                    key != (ip.v6, ip.bits) && #[trigger] after.states.contains_key(key)
                        ==> after.states[key].concurrent > 0 || now <= after.states[key].last_seen
                        + 300_000_000_000
            },
{
    let kept = choose|kept: Map<(bool, u128), IpState>|
        before.request_with(kept, after, ip, now, refusal);
    let victims = choose|victims: Seq<(bool, u128)>|
        {
            &&& #[trigger] victims.no_duplicates()
            &&& victims.len() <= REAP_LIMIT
            &&& forall|key: (bool, u128)|
                before.states.contains_key(key) && !kept.contains_key(key)
                    <==> #[trigger] victims.contains(key)
            &&& victims.len() < REAP_LIMIT ==> forall|key: (bool, u128)| #[trigger]
                kept.contains_key(key) ==> !kept[key].idle(now)
        };
    assert forall|key: (bool, u128)| key != (ip.v6, ip.bits) implies (before.states.contains_key(key)
        && !after.states.contains_key(key) <==> #[trigger] victims.contains(key)) by {
        assert(after.states.contains_key(key) <==> kept.contains_key(key));
    }
    if victims.len() < 64 {
        assert forall|key: (bool, u128)|
            key != (ip.v6, ip.bits) && #[trigger] after.states.contains_key(
                key,
            ) implies after.states[key].concurrent > 0 || now <= after.states[key].last_seen
            + 300_000_000_000 by {
            assert(kept.contains_key(key));
            assert(after.states[key] == kept[key]);
        }
    }
    assert(victims.no_duplicates());
}

/// When a connection of an address last began or ended is noted; a refused request is not.
pub proof fn law_use_of_an_address_is_noted(
    before: IpLimiterModel,
    after: IpLimiterModel,
    ip: ClientIp,
    now: u64,
    refusal: Option<IpRejection>,
    later: u64,
)
    requires
        before.request(after, ip, now, refusal),
    ensures
        after.states.contains_key((ip.v6, ip.bits)),
        refusal is None ==> after.states[(ip.v6, ip.bits)].last_seen == now,
        refusal is Some && before.states.contains_key((ip.v6, ip.bits))
            && before.states[(ip.v6, ip.bits)].concurrent > 0 ==> after.states[(
            ip.v6,
            ip.bits,
        )].last_seen == before.states[(ip.v6, ip.bits)].last_seen,
        after.after_release(ip, later).states[(ip.v6, ip.bits)].last_seen == later,
        after.after_release(ip, later).states[(ip.v6, ip.bits)].bucket == after.states[(
            ip.v6,
            ip.bits,
        )].bucket,
        after.rules == before.rules,
        after.after_release(ip, later).rules == before.rules,
{
}

/// A request of an address that is limited in new connections is paid for from its own bucket, whether
/// or not it is refused for having too many; where none are limited, the bucket stays as it is.
pub proof fn law_requests_draw_on_their_own_bucket(
    before: IpLimiterModel,
    after: IpLimiterModel,
    ip: ClientIp,
    now: u64,
    refusal: Option<IpRejection>,
)
    requires
        before.request(after, ip, now, refusal),
        before.states.contains_key((ip.v6, ip.bits)),
        before.states[(ip.v6, ip.bits)].concurrent > 0 || now <= before.states[(
            ip.v6,
            ip.bits,
        )].last_seen + 300_000_000_000,
    ensures
        ({
            let had = before.states[(ip.v6, ip.bits)].bucket;
            let has = after.states[(ip.v6, ip.bits)].bucket;
            &&& before.rules.rate_configured ==> has == had.after_request(now)
            &&& !before.rules.rate_configured ==> has == had
            &&& before.rules.rate_configured && !had.lets_through(now) <==> refusal == Some(
                IpRejection::RateLimited,
            )
        }),
{
}

/// The open connections of an address are those that are kept for that very address, or none.
pub proof fn law_addresses_are_counted_one_by_one(limiter: IpLimiterModel, ip: ClientIp)
    ensures
        limiter.states.contains_key((ip.v6, ip.bits)) ==> limiter.count(ip) == limiter.states[(
            ip.v6,
            ip.bits,
        )].concurrent,
        !limiter.states.contains_key((ip.v6, ip.bits)) ==> limiter.count(ip) == 0,
{
}

} // verus!
