//! What the scheduler remembers about each instance between passes.

use std::collections::BTreeMap;
use backoff::backoff::Backoff;
use vstd::prelude::*;
use crate::text::{bytes_equal, copy_bytes};

verus! {

broadcast use {vstd::std_specs::btree::group_btree_axioms, vstd::laws_cmp::group_laws_cmp};

#[verifier::external_type_specification]
#[verifier::external_body]
#[verifier::reject_recursive_types(C)]
pub struct ExExponentialBackoff<C>(backoff::exponential::ExponentialBackoff<C>);

#[verifier::external_type_specification]
#[verifier::external_body]
pub struct ExSystemClock(backoff::SystemClock);

/// The first interval of a retry backoff, in nanoseconds (500 ms).
pub const INITIAL_RETRY_INTERVAL_NANOS: u64 = 500000000;

/// The largest interval of a retry backoff, in nanoseconds (one minute).
pub const MAX_RETRY_INTERVAL_NANOS: u64 = 60000000000;

/// The longest delay a retry backoff gives, in milliseconds: 150% of the
/// largest interval.
pub const MAX_RETRY_DELAY_MILLIS: u64 = 90000;

/// The interval after `i` (nanoseconds): half as long again, rounded down,
/// or the largest interval once `i` reaches two thirds of it.
pub open spec fn next_interval(i: nat) -> nat {
    if i >= 40000000000 {
        MAX_RETRY_INTERVAL_NANOS as nat
    } else {
        i * 3 / 2
    }
}

/// Whether a delay of `d` milliseconds may be drawn at interval `i`
/// (nanoseconds): the delay, in whole milliseconds, lies within 50% of the
/// interval (plus one nanosecond).
pub open spec fn delay_fits(i: nat, d: u64) -> bool {
    &&& i / 2 < d * 1000000 + 1000000
    &&& 2 * (d * 1000000) <= 3 * i + 2
}

/// The exponential backoff that spaces the retries of a failed deployment:
/// the backoff crate's default intervals and no maximum elapsed time, so it
/// never gives up. Its view is its current interval, in nanoseconds.
pub struct RetryBackoff {
    inner: backoff::ExponentialBackoff,
    interval: Ghost<nat>,
}

impl RetryBackoff {
    /// The interval stays between 500 ms and one minute.
    #[verifier::type_invariant]
    spec fn interval_bounded(self) -> bool {
        interval_in_range(self.interval@)
    }
}

impl View for RetryBackoff {
    type V = nat;

    closed spec fn view(&self) -> nat {
        self.interval@
    }
}

/// A fresh retry backoff.
///
/// Trusted: builds `backoff::ExponentialBackoff { max_elapsed_time: None,
/// ..Default::default() }`. Its default starts with an interval of 500 ms
/// (backoff 0.4.0, exponential.rs `Default`, default.rs).
#[verifier::external_body]
fn unbounded_backoff() -> (r: RetryBackoff)
    ensures
        r@ == INITIAL_RETRY_INTERVAL_NANOS,
{
    RetryBackoff {
        inner: backoff::ExponentialBackoff { max_elapsed_time: None, ..Default::default() },
        interval: Ghost(INITIAL_RETRY_INTERVAL_NANOS as nat),
    }
}

/// An independent copy of a retry backoff.
///
/// Trusted: calls `Clone::clone` on `backoff::ExponentialBackoff`, which
/// copies every field but the clock, the current interval included
/// (exponential.rs, `Clone`).
#[verifier::external_body]
fn copy_backoff(b: &RetryBackoff) -> (r: RetryBackoff)
    ensures
        r@ == b@,
{
    RetryBackoff { inner: b.inner.clone(), interval: b.interval }
}

/// The next delay of a retry backoff, in milliseconds.
///
/// Trusted: calls `Backoff::next_backoff` (backoff 0.4.0, exponential.rs).
/// Without a maximum elapsed time it always gives a delay: with `c` the
/// current interval in nanoseconds, it draws `c/2 + random * (c + 1)` with
/// `random` in `[0, 1)`, which lies between `c/2` and `3c/2 + 1`, and keeps
/// the whole nanoseconds; the interval then grows by half, rounded down, up
/// to one minute (once it reaches 40 s it becomes one minute). Which delay
/// within that range is drawn is left unsaid.
#[verifier::external_body]
fn next_backoff_millis(b: &mut RetryBackoff) -> (r: Option<u64>)
    ensures
        r is Some,
        delay_fits(old(b)@, r->0),
        final(b)@ == next_interval(old(b)@),
{
    match b.inner.next_backoff() {
        Some(d) => Some(d.as_millis() as u64),
        None => None,
    }
}

/// The intervals a retry backoff goes through lie between 500 ms and one
/// minute.
pub open spec fn interval_in_range(i: nat) -> bool {
    INITIAL_RETRY_INTERVAL_NANOS <= i <= MAX_RETRY_INTERVAL_NANOS
}

/// A delay drawn at an interval in range lies between 250 ms and 90 s, and
/// the next interval is in range too.
pub proof fn lemma_delay_bounds(i: nat, d: u64)
    requires
        interval_in_range(i),
        delay_fits(i, d),
    ensures
        250 <= d <= MAX_RETRY_DELAY_MILLIS,
        interval_in_range(next_interval(i)),
{
}

impl RetryBackoff {
    /// A fresh backoff at the start of its schedule.
    pub fn new() -> (r: RetryBackoff)
        ensures
            r@ == INITIAL_RETRY_INTERVAL_NANOS,
    {
        unbounded_backoff()
    }

    /// An independent copy, at the same point of its schedule.
    pub fn copy(&self) -> (r: RetryBackoff)
        ensures
            r@ == self@,
    {
        copy_backoff(self)
    }

    /// The next delay, in milliseconds, advancing the schedule by one step:
    /// within 50% of the current interval, which then grows by half up to
    /// one minute.
    pub fn next_delay_millis(&mut self) -> (r: u64)
        ensures
            delay_fits(old(self)@, r),
            final(self)@ == next_interval(old(self)@),
            interval_in_range(old(self)@),
            250 <= r <= MAX_RETRY_DELAY_MILLIS,
    {
        proof {
            use_type_invariant(&*self);
        }
        let ghost i = self@;
        let r = next_backoff_millis(self).unwrap();
        proof {
            lemma_delay_bounds(i, r);
        }
        r
    }
}

/// `now + delay`, or `None` when it does not fit in 64 bits, as
/// `checked_add` gives it.
pub open spec fn retry_deadline(now: u64, delay: u64) -> Option<u64> {
    if now + delay <= u64::MAX {
        Some((now + delay) as u64)
    } else {
        None
    }
}

/// Whether `until` is a deadline that a retry backoff at interval `i` may
/// set at `now`: `now` plus a delay drawn at that interval.
pub open spec fn is_retry_deadline(until: Option<u64>, now: u64, i: nat) -> bool {
    exists|d: u64| delay_fits(i, d) && until == #[trigger] retry_deadline(now, d)
}

/// What the scheduler remembers of an instance.
pub struct StateView {
    /// The instance administrator's address.
    pub admin: Seq<u8>,
    /// The encoding of the last deployment started.
    pub last_deployment: Option<Seq<u8>>,
    /// Why deploying the last deployment failed.
    pub last_error: Option<Seq<char>>,
    /// Until when (milliseconds of a monotonic clock) starts are ignored.
    pub ignore_start_until: Option<u64>,
    /// The current interval of the retry backoff (nanoseconds), when one
    /// runs.
    pub backoff_interval: Option<nat>,
}

/// The state of an instance that nothing has touched yet.
pub open spec fn fresh_state() -> StateView {
    StateView {
        admin: Seq::empty(),
        last_deployment: None,
        last_error: None,
        ignore_start_until: None,
        backoff_interval: None,
    }
}

/// The interval the next retry delay is drawn at: that of the running
/// backoff, or the first one when a fresh backoff starts.
pub open spec fn retry_interval(s: StateView) -> nat {
    match s.backoff_interval {
        Some(i) => i,
        None => INITIAL_RETRY_INTERVAL_NANOS as nat,
    }
}

/// Whether starting `deployment` at `now` is allowed: always for a
/// deployment other than the last one, else once any retry delay is over.
pub open spec fn start_allowed(s: StateView, deployment: Seq<u8>, now: u64) -> bool {
    if s.last_deployment matches Some(d) && d != deployment {
        true
    } else if s.ignore_start_until matches Some(until) && now < until {
        false
    } else {
        true
    }
}

/// Scheduler-side state of an instance.
pub struct InstanceState {
    admin: Vec<u8>,
    last_deployment: Option<Vec<u8>>,
    last_error: Option<String>,
    ignore_start_until: Option<u64>,
    ignore_start_backoff: Option<RetryBackoff>,
}

impl View for InstanceState {
    type V = StateView;

    closed spec fn view(&self) -> StateView {
        StateView {
            admin: self.admin@,
            last_deployment: match self.last_deployment {
                Some(d) => Some(d@),
                None => None,
            },
            last_error: match self.last_error {
                Some(e) => Some(e@),
                None => None,
            },
            ignore_start_until: self.ignore_start_until,
            backoff_interval: match self.ignore_start_backoff {
                Some(b) => Some(b@),
                None => None,
            },
        }
    }
}

impl InstanceState {
    /// The state of an instance that nothing has touched yet.
    pub fn new() -> (r: InstanceState)
        ensures
            r@ == fresh_state(),
    {
        InstanceState {
            admin: Vec::new(),
            last_deployment: None,
            last_error: None,
            ignore_start_until: None,
            ignore_start_backoff: None,
        }
    }

    /// Address of the instance administrator.
    pub fn admin(&self) -> (r: &Vec<u8>)
        ensures
            r@ == self@.admin,
    {
        &self.admin
    }

    /// The error of the last failed deployment, if any.
    pub fn last_error(&self) -> (r: Option<&String>)
        ensures
            match r {
                Some(e) => self@.last_error == Some(e@),
                None => self@.last_error is None,
            },
    {
        match &self.last_error {
            Some(e) => Some(e),
            None => None,
        }
    }

    /// Until when starts of the last deployment are ignored.
    pub fn ignore_start_until(&self) -> (r: Option<u64>)
        ensures
            r == self@.ignore_start_until,
    {
        self.ignore_start_until
    }

    /// An independent copy of this state.
    pub fn copy(&self) -> (r: InstanceState)
        ensures
            r@ == self@,
    {
        InstanceState {
            admin: copy_bytes(self.admin.as_slice()),
            last_deployment: match &self.last_deployment {
                Some(d) => Some(copy_bytes(d.as_slice())),
                None => None,
            },
            last_error: self.last_error.clone(),
            ignore_start_until: self.ignore_start_until,
            ignore_start_backoff: match &self.ignore_start_backoff {
                Some(b) => Some(b.copy()),
                None => None,
            },
        }
    }

    /// Records `deployment` as the last one started, with no error yet.
    pub fn set_last_deployment(&mut self, deployment: &[u8])
        ensures
            final(self)@ == (StateView {
                last_deployment: Some(deployment@),
                last_error: None,
                ..old(self)@
            }),
    {
        self.last_deployment = Some(copy_bytes(deployment));
        self.last_error = None;
    }

    /// Records that deploying failed for `reason`, and ignores starts until
    /// the next delay of the retry backoff (started if none runs) is over.
    pub fn ignore_start(&mut self, reason: String, now: u64)
        ensures
            final(self)@.admin == old(self)@.admin,
            final(self)@.last_deployment == old(self)@.last_deployment,
            final(self)@.last_error == Some(reason@),
            final(self)@.backoff_interval == Some(next_interval(retry_interval(old(self)@))),
            is_retry_deadline(final(self)@.ignore_start_until, now, retry_interval(old(self)@)),
            now + MAX_RETRY_DELAY_MILLIS <= u64::MAX ==> (final(self)@.ignore_start_until matches Some(
                until,
            ) && now < until <= now + MAX_RETRY_DELAY_MILLIS),
    {
        let mut b = match self.ignore_start_backoff.take() {
            Some(b) => b,
            None => RetryBackoff::new(),
        };
        let ghost i = b@;
        let delay = b.next_delay_millis();
        assert(delay_fits(i, delay));
        self.ignore_start_backoff = Some(b);
        self.ignore_start_until = now.checked_add(delay);
        assert(self.ignore_start_until == retry_deadline(now, delay));
        self.last_error = Some(reason);
    }

    /// Whether `deployment` may be started at `now`.
    pub fn should_start(&self, deployment: &[u8], now: u64) -> (r: bool)
        ensures
            r == start_allowed(self@, deployment@, now),
    {
        if let Some(last) = &self.last_deployment {
            if !bytes_equal(deployment, last.as_slice()) {
                return true;
            }
        }
        if let Some(until) = self.ignore_start_until {
            if now < until {
                return false;
            }
        }
        true
    }

    /// Forgets the retry backoff and the last error after a successful
    /// deployment.
    pub fn allow_start(&mut self)
        ensures
            final(self)@ == (StateView {
                last_error: None,
                ignore_start_until: None,
                backoff_interval: None,
                ..old(self)@
            }),
    {
        self.ignore_start_backoff = None;
        self.ignore_start_until = None;
        self.last_error = None;
    }
}


/// What the scheduler remembers, per instance identifier.
pub struct InstanceRegistry {
    instances: BTreeMap<u64, InstanceState>,
}

impl View for InstanceRegistry {
    type V = Map<u64, StateView>;

    closed spec fn view(&self) -> Map<u64, StateView> {
        self.instances@.map_values(|s: InstanceState| s@)
    }
}

/// The state of `id`, or a fresh one.
pub open spec fn state_or_fresh(m: Map<u64, StateView>, id: u64) -> StateView {
    if m.contains_key(id) {
        m[id]
    } else {
        fresh_state()
    }
}

impl InstanceRegistry {
    /// A registry that remembers nothing.
    pub fn new() -> (r: InstanceRegistry)
        ensures
            r@ == Map::<u64, StateView>::empty(),
    {
        let r = InstanceRegistry { instances: BTreeMap::new() };
        assert(r@ =~= Map::<u64, StateView>::empty());
        r
    }

    /// A copy of the state of `id`, if it is known.
    pub fn get_instance(&self, id: u64) -> (r: Option<InstanceState>)
        ensures
            match r {
                Some(s) => self@.contains_key(id) && s@ == self@[id],
                None => !self@.contains_key(id),
            },
    {
        match self.instances.get(&id) {
            Some(s) => Some(s.copy()),
            None => None,
        }
    }

    /// Takes out the state of `id`, or a fresh one.
    fn take(&mut self, id: u64) -> (r: InstanceState)
        ensures
            r@ == state_or_fresh(old(self)@, id),
            final(self)@ == old(self)@.remove(id),
    {
        let r = match self.instances.remove(&id) {
            Some(s) => s,
            None => InstanceState::new(),
        };
        assert(self@ =~= old(self)@.remove(id));
        r
    }

    /// Puts back the state of `id`.
    fn put(&mut self, id: u64, s: InstanceState)
        ensures
            final(self)@ == old(self)@.insert(id, s@),
    {
        self.instances.insert(id, s);
        assert(self@ =~= old(self)@.insert(id, s@));
    }

    /// Records the administrator of `id`.
    pub fn set_admin(&mut self, id: u64, admin: Vec<u8>)
        ensures
            final(self)@ == old(self)@.insert(
                id,
                StateView { admin: admin@, ..state_or_fresh(old(self)@, id) },
            ),
    {
        let mut s = self.take(id);
        s.admin = admin;
        self.put(id, s);
    }

    /// Records `deployment` as the last one started for `id`, with no
    /// error yet.
    pub fn set_last_instance_deployment(&mut self, id: u64, deployment: &[u8])
        ensures
            final(self)@ == old(self)@.insert(
                id,
                StateView {
                    last_deployment: Some(deployment@),
                    last_error: None,
                    ..state_or_fresh(old(self)@, id)
                },
            ),
    {
        let mut s = self.take(id);
        s.set_last_deployment(deployment);
        self.put(id, s);
    }

    /// Records that deploying `id` failed for `reason` at `now`, and ignores
    /// its starts until the next retry delay is over.
    pub fn ignore_instance_start(&mut self, id: u64, reason: String, now: u64)
        ensures
            final(self)@.dom() == old(self)@.dom().insert(id),
            forall|k: u64| k != id && old(self)@.contains_key(k) ==> #[trigger] final(self)@[k]
                == old(self)@[k],
            final(self)@[id].admin == state_or_fresh(old(self)@, id).admin,
            final(self)@[id].last_deployment == state_or_fresh(old(self)@, id).last_deployment,
            final(self)@[id].last_error == Some(reason@),
            final(self)@[id].backoff_interval == Some(
                next_interval(retry_interval(state_or_fresh(old(self)@, id))),
            ),
            is_retry_deadline(
                final(self)@[id].ignore_start_until,
                now,
                retry_interval(state_or_fresh(old(self)@, id)),
            ),
            now + MAX_RETRY_DELAY_MILLIS <= u64::MAX ==> (final(self)@[id].ignore_start_until matches Some(
                until,
            ) && now < until <= now + MAX_RETRY_DELAY_MILLIS),
    {
        let mut s = self.take(id);
        s.ignore_start(reason, now);
        self.put(id, s);
    }

    /// Whether `deployment` may be started for `id` at `now`; an unknown
    /// instance becomes known with a fresh state.
    pub fn should_start_instance(&mut self, id: u64, deployment: &[u8], now: u64) -> (r: bool)
        ensures
            r == start_allowed(state_or_fresh(old(self)@, id), deployment@, now),
            final(self)@ == old(self)@.insert(id, state_or_fresh(old(self)@, id)),
    {
        let s = self.take(id);
        let r = s.should_start(deployment, now);
        self.put(id, s);
        r
    }

    /// After a successful deployment of a known `id`, forgets its retry
    /// backoff and last error.
    pub fn allow_instance_start(&mut self, id: u64)
        ensures
            old(self)@.contains_key(id) ==> final(self)@ == old(self)@.insert(
                id,
                StateView {
                    last_error: None,
                    ignore_start_until: None,
                    backoff_interval: None,
                    ..old(self)@[id]
                },
            ),
            !old(self)@.contains_key(id) ==> final(self)@ == old(self)@,
    {
        if self.instances.contains_key(&id) {
            let mut s = self.take(id);
            s.allow_start();
            self.put(id, s);
        }
    }

    /// Forgets `id`.
    pub fn remove_instance(&mut self, id: u64)
        ensures
            final(self)@ == old(self)@.remove(id),
    {
        let _ = self.take(id);
    }
}

/// Once a deployment has succeeded and its retry state is cleared, any
/// deployment may start at any time.
pub proof fn lemma_allowed_after_success(s: StateView, deployment: Seq<u8>, now: u64)
    ensures
        start_allowed(
            StateView { last_error: None, ignore_start_until: None, backoff_interval: None, ..s },
            deployment,
            now,
        ),
{
}

/// A deployment other than the last one started may always start at once,
/// whatever retry delay runs.
pub proof fn lemma_new_deployment_starts(s: StateView, deployment: Seq<u8>, now: u64)
    requires
        s.last_deployment matches Some(d) && d != deployment,
    ensures
        start_allowed(s, deployment, now),
{
}

/// After a failed start of `deployment`, starting it again is refused
/// exactly until the retry delay is over, and never refused once the delay
/// is over or when none could be computed.
pub proof fn lemma_retry_waits_for_delay(s: StateView, deployment: Seq<u8>, now: u64)
    requires
        s.last_deployment == Some(deployment),
    ensures
        start_allowed(s, deployment, now) == !(s.ignore_start_until matches Some(until) && now
            < until),
{
}

} // verus!
