//! Token buckets. Credit is kept in billionths of a token and time in nanoseconds, so that a
//! whole number of tokens per second accrues without rounding.
use vstd::prelude::*;

verus! {

/// Billionths of a token in one token, and nanoseconds in one second.
pub const TOKEN: u64 = 1_000_000_000;

/// The larger of `n` and one.
pub open spec fn at_least_one(n: u32) -> u32 {
    if n < 1 {
        1
    } else {
        n
    }
}

/// The nanoseconds from `earlier` to `later`, none where `later` comes first.
pub open spec fn elapsed(earlier: u64, later: u64) -> int {
    if later < earlier {
        0
    } else {
        later - earlier
    }
}

/// A token bucket: it holds at most `capacity`, gains `refill_per_second` tokens a second and
/// gives up one token for each request that it lets through.
#[derive(Clone, Copy, Debug)]
pub struct TokenBucket {
    /// The most credit that the bucket holds, in billionths of a token.
    pub capacity: u64,
    /// The credit at `last_refill`, in billionths of a token.
    pub tokens: u64,
    /// Whole tokens gained per second.
    pub refill_per_second: u32,
    /// When the credit was last brought up to date, in nanoseconds.
    pub last_refill: u64,
}

/// The credit gained over `nanos` nanoseconds, in billionths of a token.
pub fn tokens_to_add(nanos: u64, refill_per_second: u32) -> (r: u128)
    ensures
        r == nanos * refill_per_second,
        r <= 0xffff_ffff_ffff_ffff * 0xffff_ffff,
{
    assert(nanos * refill_per_second <= 0xffff_ffff_ffff_ffff * 0xffff_ffff) by (nonlinear_arith)
        requires
            nanos <= 0xffff_ffff_ffff_ffff,
            refill_per_second <= 0xffff_ffff,
    ;
    (nanos as u128) * (refill_per_second as u128)
}

impl TokenBucket {
    /// A bucket that can always come to hold a whole token, and never holds more than it may.
    pub open spec fn wf(self) -> bool {
        &&& TOKEN <= self.capacity
        &&& self.tokens <= self.capacity
        &&& 1 <= self.refill_per_second
    }

    /// A full bucket.
    pub open spec fn full(refill_per_second: u32, burst: u32, now: u64) -> TokenBucket {
        TokenBucket {
            capacity: (at_least_one(burst) * TOKEN) as u64,
            tokens: (at_least_one(burst) * TOKEN) as u64,
            refill_per_second: at_least_one(refill_per_second),
            last_refill: now,
        }
    }

    /// The credit at `now`: what there was and what has accrued, up to the capacity.
    pub open spec fn credit(self, now: u64) -> int {
        let grown = self.tokens + elapsed(self.last_refill, now) * self.refill_per_second;
        if grown < self.capacity {
            grown
        } else {
            self.capacity as int
        }
    }

    /// The bucket brought up to date.
    pub open spec fn refilled(self, now: u64) -> TokenBucket {
        TokenBucket { tokens: self.credit(now) as u64, last_refill: now, ..self }
    }

    /// Whether a request at `now` is let through.
    pub open spec fn lets_through(self, now: u64) -> bool {
        self.credit(now) >= TOKEN
    }

    /// The bucket after a request at `now`.
    pub open spec fn after_request(self, now: u64) -> TokenBucket {
        if self.lets_through(now) {
            TokenBucket { tokens: (self.credit(now) - TOKEN) as u64, ..self.refilled(now) }
        } else {
            self.refilled(now)
        }
    }

    /// A full bucket for `burst` tokens that gains `refill_per_second` tokens a second; neither
    /// number counts as less than one.
    pub fn new(refill_per_second: u32, burst: u32, now: u64) -> (r: TokenBucket)
        ensures
            r == TokenBucket::full(refill_per_second, burst, now),
            r.wf(),
    {
        let burst: u32 = if burst < 1 { 1 } else { burst };
        let refill_per_second: u32 = if refill_per_second < 1 { 1 } else { refill_per_second };
        let capacity: u64 = (burst as u64) * TOKEN;
        TokenBucket { capacity, tokens: capacity, refill_per_second, last_refill: now }
    }

    /// Takes one token where there is one.
    pub fn try_consume(&mut self, now: u64) -> (r: bool)
        ensures
            r == old(self).lets_through(now),
            *final(self) == old(self).after_request(now),
            old(self).wf() ==> final(self).wf(),
    {
        self.refill(now);
        if self.tokens >= TOKEN {
            self.tokens = self.tokens - TOKEN;
            true
        } else {
            false
        }
    }

    /// Brings the credit up to date.
    pub fn refill(&mut self, now: u64)
        ensures
            *final(self) == old(self).refilled(now),
            0 <= old(self).credit(now) <= old(self).capacity,
            old(self).wf() ==> final(self).wf(),
    {
        let nanos: u64 = now.saturating_sub(self.last_refill);
        let added: u128 = tokens_to_add(nanos, self.refill_per_second);
        let grown: u128 = (self.tokens as u128) + added;
        self.last_refill = now;
        self.tokens = if grown < (self.capacity as u128) { grown as u64 } else { self.capacity };
    }
}

/// The limiter of one connection's messages.
#[derive(Clone, Copy, Debug)]
pub struct RateLimiter {
    /// What the connection may still send.
    pub bucket: TokenBucket,
}

impl RateLimiter {
    /// A limiter that admits `burst` messages at once and `refill_per_second` a second.
    pub fn new(refill_per_second: u32, burst: u32, now: u64) -> (r: RateLimiter)
        ensures
            r.bucket == TokenBucket::full(refill_per_second, burst, now),
            r.bucket.wf(),
    {
        RateLimiter { bucket: TokenBucket::new(refill_per_second, burst, now) }
    }

    /// Whether a message may pass now.
    pub fn allow(&mut self, now: u64) -> (r: bool)
        ensures
            r == old(self).bucket.lets_through(now),
            final(self).bucket == old(self).bucket.after_request(now),
            old(self).bucket.wf() ==> final(self).bucket.wf(),
    {
        self.bucket.try_consume(now)
    }
}

/// The bucket after requests at each of `times`, in that order.
pub open spec fn after_requests(bucket: TokenBucket, times: Seq<u64>) -> TokenBucket
    decreases times.len(),
{
    if times.len() == 0 {
        bucket
    } else {
        after_requests(bucket, times.drop_last()).after_request(times.last())
    }
}

/// How many of the requests at `times` are let through.
pub open spec fn let_through(bucket: TokenBucket, times: Seq<u64>) -> nat
    decreases times.len(),
{
    if times.len() == 0 {
        0
    } else {
        let_through(bucket, times.drop_last()) + (if after_requests(
            bucket,
            times.drop_last(),
        ).lets_through(times.last()) {
            1nat
        } else {
            0nat
        })
    }
}

/// `times` never runs backwards and starts no earlier than `start`.
pub open spec fn in_order(start: u64, times: Seq<u64>) -> bool {
    &&& forall|i: int| 0 <= i < times.len() ==> start <= #[trigger] times[i]
    &&& forall|i: int, j: int| 0 <= i <= j < times.len() ==> times[i] <= times[j]
}

/// The time of the last of `times`, or `start` where there is none.
pub open spec fn last_time(start: u64, times: Seq<u64>) -> u64 {
    if times.len() == 0 {
        start
    } else {
        times.last()
    }
}

/// Over any run of requests, the tokens that were handed out and those still held never exceed
/// what the bucket held at first and what accrued since.
pub proof fn law_credit_is_conserved(bucket: TokenBucket, times: Seq<u64>)
    requires
        bucket.wf(),
        in_order(bucket.last_refill, times),
    ensures
        after_requests(bucket, times).wf(),
        after_requests(bucket, times).capacity == bucket.capacity,
        after_requests(bucket, times).refill_per_second == bucket.refill_per_second,
        after_requests(bucket, times).last_refill == last_time(bucket.last_refill, times),
        let_through(bucket, times) * TOKEN + after_requests(bucket, times).tokens <= bucket.tokens
            + (last_time(bucket.last_refill, times) - bucket.last_refill)
            * bucket.refill_per_second,
    decreases times.len(),
{
    if times.len() > 0 {
        let front = times.drop_last();
        let now = times.last();
        assert(in_order(bucket.last_refill, front)) by {
            assert(forall|i: int| 0 <= i < front.len() ==> front[i] == times[i]);
        }
        law_credit_is_conserved(bucket, front);
        let before = after_requests(bucket, front);
        let rate = bucket.refill_per_second as int;
        let t0 = bucket.last_refill as int;
        let t1 = before.last_refill as int;
        let t2 = now as int;
        assert(t1 <= t2) by {
            if front.len() > 0 {
                assert(front.last() == times[front.len() - 1]);
            }
        }
        assert((t2 - t0) * rate == (t1 - t0) * rate + (t2 - t1) * rate) by (nonlinear_arith);
        assert((t2 - t1) * rate >= 0) by (nonlinear_arith)
            requires
                t1 <= t2,
                rate >= 0,
        ;
        assert(elapsed(before.last_refill, now) * before.refill_per_second == (t2 - t1) * rate);
        assert(0 <= before.credit(now) <= before.tokens + (t2 - t1) * rate);
        let k = let_through(bucket, front);
        if before.lets_through(now) {
            assert(let_through(bucket, times) == k + 1);
            assert((k + 1) * TOKEN == k * TOKEN + TOKEN) by (nonlinear_arith);
        } else {
            assert(let_through(bucket, times) == k);
        }
    }
}

/// A bucket lets through at most its capacity, and what accrues between the first moment and
/// the last: `burst + rate * seconds` requests.
pub proof fn law_rate_is_bounded(refill_per_second: u32, burst: u32, start: u64, times: Seq<u64>)
    requires
        in_order(start, times),
    ensures
        let_through(TokenBucket::full(refill_per_second, burst, start), times) * TOKEN
            <= at_least_one(burst) * TOKEN + (last_time(start, times) - start) * at_least_one(
            refill_per_second,
        ),
{
    let bucket = TokenBucket::full(refill_per_second, burst, start);
    law_credit_is_conserved(bucket, times);
}

/// As many requests as the bucket holds whole tokens pass at one instant, and the next one is
/// refused.
pub proof fn law_burst_passes_at_once(bucket: TokenBucket, times: Seq<u64>)
    requires
        bucket.wf(),
        forall|i: int| 0 <= i < times.len() ==> times[i] == bucket.last_refill,
    ensures
        let_through(bucket, times) == (if times.len() * TOKEN <= bucket.tokens {
            times.len()
        } else {
            (bucket.tokens / TOKEN) as nat
        }),
        after_requests(bucket, times).tokens == bucket.tokens - let_through(bucket, times) * TOKEN,
        after_requests(bucket, times).wf(),
        after_requests(bucket, times).capacity == bucket.capacity,
        after_requests(bucket, times).last_refill == bucket.last_refill,
    decreases times.len(),
{
    if times.len() > 0 {
        let front = times.drop_last();
        assert(forall|i: int| 0 <= i < front.len() ==> front[i] == times[i]);
        law_burst_passes_at_once(bucket, front);
        let before = after_requests(bucket, front);
        assert(times.last() == times[times.len() - 1]);
        assert(elapsed(before.last_refill, times.last()) * before.refill_per_second == 0)
            by (nonlinear_arith)
            requires
                elapsed(before.last_refill, times.last()) == 0,
        ;
        assert(before.credit(times.last()) == before.tokens);
        let t = bucket.tokens as int;
        let k = let_through(bucket, front) as int;
        assert(t == (t / TOKEN as int) * TOKEN + t % (TOKEN as int)) by (nonlinear_arith);
        assert((k + 1) * TOKEN == k * TOKEN + TOKEN) by (nonlinear_arith);
    }
}

/// A request is let through as soon as enough time has passed for one token to accrue.
pub proof fn law_waiting_readmits(bucket: TokenBucket, now: u64)
    requires
        bucket.wf(),
        elapsed(bucket.last_refill, now) * bucket.refill_per_second >= TOKEN,
    ensures
        bucket.lets_through(now),
{
}

/// A refused request costs nothing: the credit is what it would have been without it.
pub proof fn law_refusal_is_free(bucket: TokenBucket, now: u64, later: u64)
    requires
        bucket.wf(),
        bucket.last_refill <= now <= later,
        !bucket.lets_through(now),
    ensures
        bucket.after_request(now).credit(later) == bucket.credit(later),
{
    let rate = bucket.refill_per_second as int;
    let t0 = bucket.last_refill as int;
    let t1 = now as int;
    let t2 = later as int;
    assert((t2 - t0) * rate == (t1 - t0) * rate + (t2 - t1) * rate) by (nonlinear_arith);
    assert((t2 - t1) * rate >= 0) by (nonlinear_arith)
        requires
            t1 <= t2,
            rate >= 0,
    ;
    assert((t1 - t0) * rate >= 0) by (nonlinear_arith)
        requires
            t0 <= t1,
            rate >= 0,
    ;
}

/// What a bucket holds, it held before or has earned since, never more than it may: a request passes
/// where that is a whole token, and costs one.
pub proof fn law_requests_are_paid_for(bucket: TokenBucket, now: u64)
    ensures
        ({
            let waited: int = if bucket.last_refill <= now {
                now - bucket.last_refill
            } else {
                0
            };
            let earned: int = bucket.tokens + waited * bucket.refill_per_second;
            let held: int = if earned <= bucket.capacity {
                earned
            } else {
                bucket.capacity as int
            };
            let after = bucket.after_request(now);
            &&& bucket.lets_through(now) <==> held >= 1_000_000_000
            &&& bucket.lets_through(now) ==> after.tokens == held - 1_000_000_000
            &&& !bucket.lets_through(now) ==> after.tokens == held
            &&& after.capacity == bucket.capacity
            &&& after.refill_per_second == bucket.refill_per_second
            &&& after.last_refill == now
        }),
{
    let waited: int = if bucket.last_refill <= now {
        now - bucket.last_refill
    } else {
        0
    };
    assert(waited * bucket.refill_per_second >= 0) by (nonlinear_arith)
        requires
            waited >= 0,
    ;
}

/// A new bucket lets through as many requests at once as it was made for, one at least, and no more.
pub proof fn law_new_bucket_passes_its_burst(
    refill_per_second: u32,
    burst: u32,
    start: u64,
    times: Seq<u64>,
)
    requires
        forall|i: int| 0 <= i < times.len() ==> times[i] == start,
    ensures
        ({
            let most: nat = if burst == 0 {
                1
            } else {
                burst as nat
            };
            let_through(TokenBucket::full(refill_per_second, burst, start), times) == (if times.len()
                <= most {
                times.len()
            } else {
                most
            })
        }),
{
    let bucket = TokenBucket::full(refill_per_second, burst, start);
    let most: int = if burst == 0 {
        1
    } else {
        burst as int
    };
    law_burst_passes_at_once(bucket, times);
    assert(bucket.tokens == most * 1_000_000_000);
    let n = times.len() as int;
    assert(n <= most <==> n * 1_000_000_000 <= most * 1_000_000_000);
    assert((most * 1_000_000_000) / 1_000_000_000 == most);
}

/// Requests that all come at one time fare as if the bucket had been brought up to date before.
proof fn lemma_refill_comes_first(bucket: TokenBucket, now: u64, times: Seq<u64>)
    requires
        forall|i: int| 0 <= i < times.len() ==> times[i] == now,
        times.len() > 0,
    ensures
        let_through(bucket, times) == let_through(bucket.refilled(now), times),
        after_requests(bucket, times) == after_requests(bucket.refilled(now), times),
    decreases times.len(),
{
    law_requests_are_paid_for(bucket, now);
    law_requests_are_paid_for(bucket.refilled(now), now);
    let waited = elapsed(bucket.last_refill, now);
    assert(waited * bucket.refill_per_second >= 0) by (nonlinear_arith)
        requires
            waited >= 0,
    ;
    assert(elapsed(now, now) * bucket.refill_per_second == 0) by (nonlinear_arith)
        requires
            elapsed(now, now) == 0,
    ;
    assert(bucket.refilled(now).credit(now) == bucket.credit(now));
    assert(times.last() == now);
    let front = times.drop_last();
    assert(forall|i: int| 0 <= i < front.len() ==> front[i] == times[i]);
    if front.len() > 0 {
        lemma_refill_comes_first(bucket, now, front);
    } else {
        assert(after_requests(bucket, front) == bucket);
        assert(after_requests(bucket.refilled(now), front) == bucket.refilled(now));
        assert(let_through(bucket, front) == 0);
        assert(let_through(bucket.refilled(now), front) == 0);
    }
}

/// A bucket that was used up earns its rate, one token a second at least, up to the burst that it was
/// made for: so many requests pass later, and no more.
pub proof fn law_used_up_bucket_earns_its_rate(
    refill_per_second: u32,
    burst: u32,
    start: u64,
    first: Seq<u64>,
    later: u64,
    times: Seq<u64>,
)
    requires
        forall|i: int| 0 <= i < first.len() ==> first[i] == start,
        first.len() >= 1,
        first.len() >= burst,
        start <= later,
        forall|i: int| 0 <= i < times.len() ==> times[i] == later,
    ensures
        ({
            let most: int = if burst == 0 {
                1
            } else {
                burst as int
            };
            let rate: int = if refill_per_second == 0 {
                1
            } else {
                refill_per_second as int
            };
            let earned: int = ((later - start) * rate) / 1_000_000_000;
            let owed: int = if earned <= most {
                earned
            } else {
                most
            };
            let_through(
                after_requests(TokenBucket::full(refill_per_second, burst, start), first),
                times,
            ) == (if times.len() <= owed {
                times.len() as int
            } else {
                owed
            })
        }),
{
    let bucket = TokenBucket::full(refill_per_second, burst, start);
    let most: int = if burst == 0 {
        1
    } else {
        burst as int
    };
    let rate: int = if refill_per_second == 0 {
        1
    } else {
        refill_per_second as int
    };
    law_burst_passes_at_once(bucket, first);
    law_new_bucket_passes_its_burst(refill_per_second, burst, start, first);
    let empty = after_requests(bucket, first);
    assert(empty.tokens == 0);
    lemma_rate_stays(bucket, first);
    assert(empty.refill_per_second == rate);
    assert(empty.capacity == most * 1_000_000_000);
    let grown: int = (later - start) * rate;
    assert(grown >= 0) by (nonlinear_arith)
        requires
            grown == (later - start) * rate,
            start <= later,
            rate >= 1,
    ;
    let full = empty.refilled(later);
    assert(empty.credit(later) == if grown < empty.capacity {
        grown
    } else {
        empty.capacity as int
    });
    if times.len() > 0 {
        lemma_refill_comes_first(empty, later, times);
        law_burst_passes_at_once(full, times);
        assert((most * 1_000_000_000) / 1_000_000_000 == most);
        let n = times.len() as int;
        assert(full.tokens == if grown < most * 1_000_000_000 {
            grown
        } else {
            most * 1_000_000_000
        });
    } else {
        assert(let_through(empty, times) == 0);
    }
}

/// Requests change neither what a bucket may hold nor what it earns.
proof fn lemma_rate_stays(bucket: TokenBucket, times: Seq<u64>)
    ensures
        after_requests(bucket, times).refill_per_second == bucket.refill_per_second,
        after_requests(bucket, times).capacity == bucket.capacity,
    decreases times.len(),
{
    if times.len() > 0 {
        lemma_rate_stays(bucket, times.drop_last());
    }
}

} // verus!
