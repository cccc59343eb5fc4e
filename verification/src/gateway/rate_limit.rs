//! The limit on the rate of remote procedure calls.

use vstd::prelude::*;
use crate::gateway::status::{Code, Status};

verus! {

/// Lets a number of requests through in each window of time. There is one for all services that
/// the limit is for: its requests are shared, so it cannot be copied, and whoever holds it lends
/// it to each of them.
#[derive(Debug, PartialEq, Eq, Structural)]
pub struct GrpcRateLimiter {
    /// How many requests a window lets through.
    pub requests: u64,
    /// The length of a window, in nanoseconds.
    pub window: u128,
    /// When the current window began, in nanoseconds.
    pub window_started: u128,
    /// How many requests the current window still lets through.
    pub remaining: u64,
}

impl GrpcRateLimiter {
    /// No more is left than a window lets through.
    pub open spec fn wf(self) -> bool {
        self.remaining <= self.requests
    }

    /// The limiter for the configured limit, where there is one: a number of requests, and the
    /// length of the window in nanoseconds.
    pub fn from_config(limit: Option<(u64, u128)>, now: u128) -> (limiter: Option<Self>)
        ensures
            limiter == match limit {
                Some((requests, window)) => Some(
                    GrpcRateLimiter { requests, window, window_started: now, remaining: requests },
                ),
                None => None,
            },
            limiter matches Some(l) ==> l.wf(),
    {
        match limit {
            Some((requests, window)) => Some(
                GrpcRateLimiter { requests, window, window_started: now, remaining: requests },
            ),
            None => None,
        }
    }

    /// How long the current window has lasted at `now`.
    pub open spec fn elapsed(self, now: u128) -> int {
        if now < self.window_started {
            0
        } else {
            now - self.window_started
        }
    }

    /// The limiter at `now`: a new window where the current one is over.
    pub open spec fn at(self, now: u128) -> Self {
        if self.elapsed(now) >= self.window {
            GrpcRateLimiter { window_started: now, remaining: self.requests, ..self }
        } else {
            self
        }
    }

    fn roll(&mut self, now: u128)
        ensures
            *final(self) == old(self).at(now),
            old(self).wf() ==> final(self).wf(),
    {
        let elapsed: u128 = if now < self.window_started {
            0
        } else {
            now - self.window_started
        };
        if elapsed >= self.window {
            self.window_started = now;
            self.remaining = self.requests;
        }
    }

    /// The limiter after a request at `now`.
    pub open spec fn after_request(self, now: u128) -> Self {
        let l = self.at(now);
        if l.remaining == 0 {
            l
        } else {
            GrpcRateLimiter { remaining: (l.remaining - 1) as u64, ..l }
        }
    }

    /// Whether a request at `now` is let through; where it is, one fewer is left.
    pub fn allow(&mut self, now: u128) -> (allowed: bool)
        ensures
            allowed == (old(self).at(now).remaining > 0),
            *final(self) == old(self).after_request(now),
            old(self).wf() ==> final(self).wf(),
    {
        self.roll(now);
        if self.remaining == 0 {
            false
        } else {
            self.remaining = self.remaining - 1;
            true
        }
    }

    /// Whether a request at `now` would be let through, without counting one.
    pub fn has_capacity(&mut self, now: u128) -> (yes: bool)
        ensures
            yes == (old(self).at(now).remaining > 0),
            *final(self) == old(self).at(now),
            old(self).wf() ==> final(self).wf(),
    {
        self.roll(now);
        self.remaining > 0
    }

    /// The limiter after requests at the given times.
    pub open spec fn after_requests(self, times: Seq<u128>) -> Self
        decreases times.len(),
    {
        if times.len() == 0 {
            self
        } else {
            self.after_requests(times.drop_last()).after_request(times.last())
        }
    }

    /// How many requests at the given times are let through.
    pub open spec fn granted(self, times: Seq<u128>) -> nat
        decreases times.len(),
    {
        if times.len() == 0 {
            0
        } else {
            let before = self.after_requests(times.drop_last());
            self.granted(times.drop_last()) + if before.at(times.last()).remaining > 0 {
                1nat
            } else {
                0nat
            }
        }
    }
}

/// Within one window, exactly as many requests are let through as were left at its beginning,
/// or all of them where they are fewer.
pub proof fn lemma_window_bounds_requests(limiter: GrpcRateLimiter, times: Seq<u128>)
    requires
        forall|i: int|
            0 <= i < times.len() ==> limiter.elapsed(#[trigger] times[i]) < limiter.window,
    ensures
        limiter.granted(times) == if times.len() <= limiter.remaining {
            times.len()
        } else {
            limiter.remaining as nat
        },
        limiter.after_requests(times) == (GrpcRateLimiter {
            remaining: (limiter.remaining - limiter.granted(times)) as u64,
            ..limiter
        }),
    decreases times.len(),
{
    if times.len() > 0 {
        let before = times.drop_last();
        assert forall|i: int| 0 <= i < before.len() implies limiter.elapsed(#[trigger] before[i])
            < limiter.window by {
            assert(before[i] == times[i]);
        }
        lemma_window_bounds_requests(limiter, before);
        let l = limiter.after_requests(before);
        assert(limiter.elapsed(times[times.len() - 1]) < limiter.window);
        assert(l.at(times.last()) == l);
    }
}

/// Within one window it is the first requests that are let through.
pub proof fn lemma_first_requests_pass(limiter: GrpcRateLimiter, times: Seq<u128>, k: int)
    requires
        0 <= k < times.len(),
        forall|i: int|
            0 <= i < times.len() ==> limiter.elapsed(#[trigger] times[i]) < limiter.window,
    ensures
        limiter.after_requests(times.take(k)).at(times[k]).remaining > 0 <==> k < limiter.remaining,
{
    let before = times.take(k);
    assert forall|i: int| 0 <= i < before.len() implies limiter.elapsed(#[trigger] before[i])
        < limiter.window by {
        assert(before[i] == times[i]);
    }
    lemma_window_bounds_requests(limiter, before);
}

/// The first use once a window is over opens a new one at its own time, which lets as many
/// requests through as any.
pub proof fn lemma_new_window_lets_through(limiter: GrpcRateLimiter, now: u128)
    requires
        limiter.elapsed(now) >= limiter.window,
    ensures
        limiter.at(now) == (GrpcRateLimiter {
            window_started: now,
            remaining: limiter.requests,
            ..limiter
        }),
{
}

/// Asking for capacity counts no request.
pub proof fn lemma_capacity_check_is_free(limiter: GrpcRateLimiter, now: u128)
    ensures
        limiter.at(now).after_request(now) == limiter.after_request(now),
{
}

/// Whether the service behind the limit is to be asked for readiness.
#[derive(Debug, Clone, Copy, PartialEq, Eq, Structural)]
pub enum Readiness {
    /// The limit is reached: ready, to refuse the call at once.
    RateLimited,
    /// The service behind the limit decides.
    AskInner,
}

/// A service behind a limit on the rate of calls. The limiter, where there is a limit, is lent to
/// it for each use.
#[derive(Debug, Clone)]
pub struct GrpcRateLimitService<S> {
    pub inner: S,
    /// Whether the last readiness was given without asking the inner service. The call that
    /// follows must then be refused, even where a new window has begun in between.
    pub rate_limited: bool,
}

impl<S> GrpcRateLimitService<S> {
    pub fn new(inner: S) -> (service: Self)
        ensures
            service == (GrpcRateLimitService { inner, rate_limited: false }),
    {
        GrpcRateLimitService { inner, rate_limited: false }
    }

    /// The service and the limiter after the service was asked for readiness at `now`.
    pub open spec fn polled(self, limiter: Option<GrpcRateLimiter>, now: u128) -> (
        Self,
        Option<GrpcRateLimiter>,
    ) {
        match limiter {
            Some(l) => (
                GrpcRateLimitService { rate_limited: l.at(now).remaining == 0, ..self },
                Some(l.at(now)),
            ),
            None => (GrpcRateLimitService { rate_limited: false, ..self }, None),
        }
    }

    /// Decides at `now` whether the inner service is to be asked for readiness.
    pub fn poll_ready(&mut self, limiter: &mut Option<GrpcRateLimiter>, now: u128) -> (readiness:
        Readiness)
        ensures
            (*final(self), *final(limiter)) == old(self).polled(*old(limiter), now),
            readiness == if old(self).polled(*old(limiter), now).0.rate_limited {
                Readiness::RateLimited
            } else {
                Readiness::AskInner
            },
    {
        let exhausted = match limiter {
            Some(l) => !l.has_capacity(now),
            None => false,
        };
        self.rate_limited = exhausted;
        if exhausted {
            Readiness::RateLimited
        } else {
            Readiness::AskInner
        }
    }

    /// Whether a call at `now` is refused.
    pub open spec fn refuses(self, limiter: Option<GrpcRateLimiter>, now: u128) -> bool {
        self.rate_limited || (limiter matches Some(l) && l.at(now).remaining == 0)
    }

    /// The service and the limiter after a call at `now`.
    pub open spec fn called(self, limiter: Option<GrpcRateLimiter>, now: u128) -> (
        Self,
        Option<GrpcRateLimiter>,
    ) {
        if self.rate_limited {
            (GrpcRateLimitService { rate_limited: false, ..self }, limiter)
        } else {
            (
                self,
                match limiter {
                    Some(l) => Some(l.after_request(now)),
                    None => None,
                },
            )
        }
    }

    /// Decides a call at `now`: none where it goes to the inner service, else the status with
    /// which it is refused.
    pub fn call(&mut self, limiter: &mut Option<GrpcRateLimiter>, now: u128) -> (refusal: Option<
        Status,
    >)
        ensures
            (*final(self), *final(limiter)) == old(self).called(*old(limiter), now),
            refusal is Some <==> old(self).refuses(*old(limiter), now),
            refusal matches Some(status) ==> status.is(
                Code::ResourceExhausted,
                "gRPC rate limit exceeded"@,
            ),
    {
        if self.rate_limited {
            self.rate_limited = false;
            return Some(Status::new(Code::ResourceExhausted, "gRPC rate limit exceeded"));
        }
        let allowed = match limiter {
            Some(l) => l.allow(now),
            None => true,
        };
        if allowed {
            None
        } else {
            Some(Status::new(Code::ResourceExhausted, "gRPC rate limit exceeded"))
        }
    }
}

/// A readiness that was given without asking the inner service is followed by a refusal,
/// whenever the call comes and whatever other services did meanwhile: a service that did not
/// report readiness is never called. That refusal takes no request from the others.
pub proof fn lemma_unasked_service_is_not_called<S>(
    service: GrpcRateLimitService<S>,
    limiter: Option<GrpcRateLimiter>,
    polled_at: u128,
    later: Option<GrpcRateLimiter>,
    called_at: u128,
)
    requires
        service.polled(limiter, polled_at).0.rate_limited,
    ensures
        service.polled(limiter, polled_at).0.refuses(later, called_at),
        service.polled(limiter, polled_at).0.called(later, called_at).1 == later,
{
}

/// What one of the services that share a limiter does.
pub enum LimiterUse {
    /// The service with this number is asked for readiness.
    Poll { service: int, now: u128 },
    /// The service with this number is called.
    Call { service: int, now: u128 },
}

impl LimiterUse {
    /// The number of the service.
    pub open spec fn service(self) -> int {
        match self {
            LimiterUse::Poll { service, .. } => service,
            LimiterUse::Call { service, .. } => service,
        }
    }

    /// When it is done.
    pub open spec fn now(self) -> u128 {
        match self {
            LimiterUse::Poll { now, .. } => now,
            LimiterUse::Call { now, .. } => now,
        }
    }
}

/// Services that share a limiter.
pub struct SharedLimit<S> {
    pub services: Seq<GrpcRateLimitService<S>>,
    pub limiter: GrpcRateLimiter,
}

impl<S> SharedLimit<S> {
    /// The services and the limiter after one use.
    pub open spec fn after_use(self, u: LimiterUse) -> Self {
        let service = self.services[u.service()];
        let (next, limiter) = match u {
            LimiterUse::Poll { now, .. } => service.polled(Some(self.limiter), now),
            LimiterUse::Call { now, .. } => service.called(Some(self.limiter), now),
        };
        SharedLimit {
            services: self.services.update(u.service(), next),
            limiter: limiter->0,
        }
    }

    /// The services and the limiter after uses, one behind the other.
    pub open spec fn after_uses(self, uses: Seq<LimiterUse>) -> Self
        decreases uses.len(),
    {
        if uses.len() == 0 {
            self
        } else {
            self.after_uses(uses.drop_last()).after_use(uses.last())
        }
    }

    /// Whether a use is a call that reaches the inner service.
    pub open spec fn lets_through(self, u: LimiterUse) -> bool {
        u is Call && !self.services[u.service()].refuses(Some(self.limiter), u.now())
    }

    /// How many calls reach an inner service.
    pub open spec fn served(self, uses: Seq<LimiterUse>) -> nat
        decreases uses.len(),
    {
        if uses.len() == 0 {
            0
        } else {
            self.served(uses.drop_last()) + if self.after_uses(uses.drop_last()).lets_through(
                uses.last(),
            ) {
                1nat
            } else {
                0nat
            }
        }
    }
}

/// How many of the uses are calls.
pub open spec fn calls(uses: Seq<LimiterUse>) -> nat
    decreases uses.len(),
{
    if uses.len() == 0 {
        0
    } else {
        calls(uses.drop_last()) + if uses.last() is Call {
            1nat
        } else {
            0nat
        }
    }
}

/// However the calls of the services that share a limiter follow each other within one window, it
/// is the first of them, as many as the window lets through, that reach an inner service.
pub proof fn lemma_services_share_the_window<S>(shared: SharedLimit<S>, uses: Seq<LimiterUse>)
    requires
        forall|i: int|
            0 <= i < shared.services.len() ==> !(#[trigger] shared.services[i]).rate_limited,
        forall|i: int|
            0 <= i < uses.len() ==> 0 <= (#[trigger] uses[i]).service() < shared.services.len()
                && shared.limiter.elapsed(uses[i].now()) < shared.limiter.window,
    ensures
        shared.served(uses) == if calls(uses) <= shared.limiter.remaining {
            calls(uses)
        } else {
            shared.limiter.remaining as nat
        },
        shared.after_uses(uses).limiter == (GrpcRateLimiter {
            remaining: (shared.limiter.remaining - shared.served(uses)) as u64,
            ..shared.limiter
        }),
        forall|k: int|
            0 <= k < uses.len() && (#[trigger] uses[k]) is Call ==> (shared.after_uses(
                uses.take(k),
            ).lets_through(uses[k]) <==> calls(uses.take(k)) < shared.limiter.remaining),
{
    lemma_shared_uses(shared, uses);
    assert forall|k: int| 0 <= k < uses.len() && (#[trigger] uses[k]) is Call implies (
    shared.after_uses(uses.take(k)).lets_through(uses[k]) <==> calls(uses.take(k))
        < shared.limiter.remaining) by {
        let before = uses.take(k);
        assert forall|i: int| 0 <= i < before.len() implies 0 <= (#[trigger] before[i]).service()
            < shared.services.len() && shared.limiter.elapsed(before[i].now())
            < shared.limiter.window by {
            assert(before[i] == uses[i]);
        }
        lemma_shared_uses(shared, before);
    }
}

/// Within one window the limiter loses one request for each call that reaches an inner service,
/// and a service expects to be refused only where none is left.
proof fn lemma_shared_uses<S>(shared: SharedLimit<S>, uses: Seq<LimiterUse>)
    requires
        forall|i: int|
            0 <= i < shared.services.len() ==> !(#[trigger] shared.services[i]).rate_limited,
        forall|i: int|
            0 <= i < uses.len() ==> 0 <= (#[trigger] uses[i]).service() < shared.services.len()
                && shared.limiter.elapsed(uses[i].now()) < shared.limiter.window,
    ensures
        shared.served(uses) == if calls(uses) <= shared.limiter.remaining {
            calls(uses)
        } else {
            shared.limiter.remaining as nat
        },
        shared.after_uses(uses).services.len() == shared.services.len(),
        shared.after_uses(uses).limiter == (GrpcRateLimiter {
            remaining: (shared.limiter.remaining - shared.served(uses)) as u64,
            ..shared.limiter
        }),
        forall|i: int|
            0 <= i < shared.services.len() && (#[trigger] shared.after_uses(
                uses,
            ).services[i]).rate_limited ==> shared.after_uses(uses).limiter.remaining == 0,
    decreases uses.len(),
{
    if uses.len() > 0 {
        let before = uses.drop_last();
        assert forall|i: int| 0 <= i < before.len() implies 0 <= (#[trigger] before[i]).service()
            < shared.services.len() && shared.limiter.elapsed(before[i].now())
            < shared.limiter.window by {
            assert(before[i] == uses[i]);
        }
        lemma_shared_uses(shared, before);
        let now = shared.after_uses(before);
        let u = uses[uses.len() - 1];
        assert(now.limiter.at(u.now()) == now.limiter);
        let after = shared.after_uses(uses);
        assert(after == now.after_use(u));
        assert forall|i: int| 0 <= i < shared.services.len() && (
        #[trigger] after.services[i]).rate_limited implies after.limiter.remaining == 0 by {
            if i != u.service() {
                assert(after.services[i] == now.services[i]);
            }
        }
    }
}

/// In whatever order requests come, each is let through exactly where fewer were let through
/// since its window began than a window allows; a window begins with the first request that comes
/// once the one before has lasted its time.
pub proof fn lemma_requests_are_counted_by_window(limiter: GrpcRateLimiter, now: u128)
    requires
        limiter.wf(),
    ensures
        ({
            let over = now >= limiter.window_started && now - limiter.window_started
                >= limiter.window || limiter.window == 0;
            let after = limiter.after_request(now);
            let left = if over {
                limiter.requests
            } else {
                limiter.remaining
            };
            &&& after.requests == limiter.requests
            &&& after.window == limiter.window
            &&& after.window_started == if over {
                now
            } else {
                limiter.window_started
            }
            &&& left > 0 ==> after.remaining == left - 1
            &&& left == 0 ==> after.remaining == 0
            &&& limiter.at(now).remaining == left
        }),
{
}

/// A service is asked for readiness exactly where a call would be let through; a call that it was
/// asked for goes to it where the window lets it through, and takes one request from the window.
pub proof fn lemma_limited_services<S>(
    service: GrpcRateLimitService<S>,
    limiter: Option<GrpcRateLimiter>,
    now: u128,
)
    ensures
        limiter is None ==> !service.polled(limiter, now).0.rate_limited && service.polled(
            limiter,
            now,
        ).1 is None && service.refuses(limiter, now) == service.rate_limited,
        limiter matches Some(l) ==> {
            &&& service.polled(limiter, now).0.rate_limited <==> l.at(now).remaining == 0
            &&& service.polled(limiter, now).1 == Some(l.at(now))
            &&& !service.rate_limited ==> (service.refuses(limiter, now) <==> l.at(now).remaining
                == 0)
            &&& !service.rate_limited ==> service.called(limiter, now).1 == Some(
                l.after_request(now),
            )
        },
        service.polled(limiter, now).0.inner == service.inner,
        service.called(limiter, now).0.inner == service.inner,
        service.rate_limited ==> service.refuses(limiter, now),
        !service.called(limiter, now).0.rate_limited,
{
}

} // verus!
