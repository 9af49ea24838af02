use vstd::prelude::*;

verus! {

/// Consecutive failures after which the breaker trips.
pub const THRESHOLD: usize = 5;

/// How long a tripped breaker stays open, in milliseconds.
pub const COOLDOWN_MILLIS: u64 = 60_000;

/// A failure counter that "opens" after `THRESHOLD` consecutive failures and
/// closes again once `COOLDOWN_MILLIS` have passed since it tripped.
///
/// `tripped_at == 0` means the breaker has not tripped.
pub struct CircuitBreaker {
    consecutive_errors: usize,
    tripped_at: u64,
}

/// The observable state of a breaker: consecutive failures and trip time.
pub struct BreakerState {
    pub consecutive_errors: nat,
    pub tripped_at: nat,
}

impl CircuitBreaker {
    pub closed spec fn errors(&self) -> nat {
        self.consecutive_errors as nat
    }

    pub closed spec fn tripped(&self) -> nat {
        self.tripped_at as nat
    }
}

/// Milliseconds since `tripped` at time `now`, never negative.
pub open spec fn elapsed_since(tripped: nat, now: nat) -> nat {
    if now >= tripped { (now - tripped) as nat } else { 0 }
}

/// Whether a breaker in the given state reports open at `now`.
pub open spec fn open_at(errors: nat, tripped: nat, now: nat) -> bool {
    tripped != 0 && elapsed_since(tripped, now) < COOLDOWN_MILLIS && errors >= THRESHOLD
}

/// The trip time after asking whether the breaker is open at `now`: an
/// expired trip is forgotten.
pub open spec fn tripped_after_check(tripped: nat, now: nat) -> nat {
    if tripped != 0 && elapsed_since(tripped, now) >= COOLDOWN_MILLIS { 0 } else { tripped }
}

/// Milliseconds left before a tripped breaker closes, at `now`.
pub open spec fn retry_after_at(tripped: nat, now: nat) -> nat {
    if tripped == 0 {
        0
    } else if elapsed_since(tripped, now) >= COOLDOWN_MILLIS {
        0
    } else {
        (COOLDOWN_MILLIS - elapsed_since(tripped, now)) as nat
    }
}

/// The trip time after one more failure recorded at `now`.
pub open spec fn tripped_after_failure(errors: nat, tripped: nat, now: nat) -> nat {
    if errors + 1 >= THRESHOLD { now } else { tripped }
}

#[verifier::external_type_specification]
#[verifier::external_body]
pub struct ExSystemTime(std::time::SystemTime);

/// The wall clock, read with `SystemTime::now`. Nothing is stated of it.
#[verifier::external_body]
fn system_now() -> (t: std::time::SystemTime) {
    std::time::SystemTime::now()
}

/// How long after the Unix epoch a time is, with
/// `SystemTime::duration_since`; none for a time before the epoch. Nothing
/// is stated of the duration.
#[verifier::external_body]
fn since_epoch(t: &std::time::SystemTime) -> (d: Option<std::time::Duration>) {
    t.duration_since(std::time::UNIX_EPOCH).ok()
}

/// The whole milliseconds of a duration, with `Duration::as_millis`.
/// Nothing is stated of them.
#[verifier::external_body]
fn duration_millis(d: &std::time::Duration) -> (ms: u128) {
    d.as_millis()
}

/// The wall clock in milliseconds since the Unix epoch (0 before the epoch;
/// kept to its low 64 bits).
fn now_millis() -> (ms: u64) {
    match since_epoch(&system_now()) {
        Some(d) => {
            let ms = duration_millis(&d);
            #[verifier::truncate]
            (ms as u64)
        },
        None => 0,
    }
}

impl CircuitBreaker {
    /// A closed breaker with no recorded failures.
    pub fn new() -> (b: Self)
        ensures
            b.errors() == 0,
            b.tripped() == 0,
    {
        CircuitBreaker { consecutive_errors: 0, tripped_at: 0 }
    }

    /// Number of consecutive failures recorded since the last success.
    pub fn consecutive_errors(&self) -> (n: usize)
        ensures
            n == self.errors(),
    {
        self.consecutive_errors
    }

    /// The time (ms since the epoch) at which the breaker tripped, or 0.
    pub fn tripped_at(&self) -> (t: u64)
        ensures
            t == self.tripped(),
    {
        self.tripped_at
    }

    /// Whether the breaker is open at time `now`; forgets a trip whose
    /// cooldown has run out.
    pub fn is_open_at(&mut self, now: u64) -> (open: bool)
        ensures
            open == open_at(old(self).errors(), old(self).tripped(), now as nat),
            final(self).errors() == old(self).errors(),
            final(self).tripped() == tripped_after_check(old(self).tripped(), now as nat),
    {
        let tripped = self.tripped_at;
        if tripped == 0 {
            return false;
        }
        let elapsed = now.saturating_sub(tripped);
        if elapsed >= COOLDOWN_MILLIS {
            self.tripped_at = 0;
            return false;
        }
        self.consecutive_errors >= THRESHOLD
    }

    /// Whether the breaker is open now (reads the wall clock).
    pub fn is_open(&mut self) -> (open: bool)
        ensures
            final(self).errors() == old(self).errors(),
            exists|now: nat|
                open == open_at(old(self).errors(), old(self).tripped(), now)
                    && final(self).tripped() == tripped_after_check(old(self).tripped(), now),
    {
        let now = now_millis();
        self.is_open_at(now)
    }

    /// Forget all failures: the breaker closes.
    pub fn record_success(&mut self)
        ensures
            final(self).errors() == 0,
            final(self).tripped() == 0,
    {
        self.consecutive_errors = 0;
        self.tripped_at = 0;
    }

    /// Record one more failure at time `now`; the breaker trips once the
    /// count reaches `THRESHOLD`.
    pub fn record_failure_at(&mut self, now: u64)
        requires
            old(self).errors() < usize::MAX,
        ensures
            final(self).errors() == old(self).errors() + 1,
            final(self).tripped() == tripped_after_failure(
                old(self).errors(),
                old(self).tripped(),
                now as nat,
            ),
    {
        let count = self.consecutive_errors + 1;
        self.consecutive_errors = count;
        if count >= THRESHOLD {
            self.tripped_at = now;
        }
    }

    /// Record one more failure now (reads the wall clock).
    pub fn record_failure(&mut self)
        requires
            old(self).errors() < usize::MAX,
        ensures
            final(self).errors() == old(self).errors() + 1,
            exists|now: nat|
                final(self).tripped() == tripped_after_failure(
                    old(self).errors(),
                    old(self).tripped(),
                    now,
                ),
    {
        let now = now_millis();
        self.record_failure_at(now);
    }

    /// Milliseconds until the breaker closes, at time `now`.
    pub fn retry_after_at(&self, now: u64) -> (ms: u64)
        ensures
            ms == retry_after_at(self.tripped(), now as nat),
            ms <= COOLDOWN_MILLIS,
    {
        let tripped = self.tripped_at;
        if tripped == 0 {
            return 0;
        }
        let elapsed = now.saturating_sub(tripped);
        COOLDOWN_MILLIS.saturating_sub(elapsed)
    }

    /// Milliseconds until the breaker closes, now (reads the wall clock).
    pub fn retry_after(&self) -> (ms: u64)
        ensures
            exists|now: nat| ms == retry_after_at(self.tripped(), now),
            ms <= COOLDOWN_MILLIS,
            self.tripped() == 0 ==> ms == 0,
    {
        let now = now_millis();
        self.retry_after_at(now)
    }
}

/// Once `THRESHOLD` consecutive failures have been recorded, the failure
/// recorded at time `now` (after the epoch) trips the breaker, and it reports
/// open at every moment of the following cooldown.
pub proof fn lemma_trips_after_threshold(errors: nat, tripped: nat, now: nat, later: nat)
    requires
        errors + 1 >= THRESHOLD,
        now > 0,
        now <= later < now + COOLDOWN_MILLIS,
    ensures
        open_at(errors + 1, tripped_after_failure(errors, tripped, now), later),
        retry_after_at(tripped_after_failure(errors, tripped, now), later) > 0,
{
}

/// A breaker with fewer than `THRESHOLD` consecutive failures is never open.
pub proof fn lemma_closed_below_threshold(errors: nat, tripped: nat, now: nat)
    requires
        errors < THRESHOLD,
    ensures
        !open_at(errors, tripped, now),
{
}

/// After a success the breaker is closed at every moment and there is
/// nothing to wait for.
pub proof fn lemma_success_closes(now: nat)
    ensures
        !open_at(0, 0, now),
        retry_after_at(0, now) == 0,
{
}

/// Once the cooldown has run out the breaker reports closed, the check
/// forgets the trip, and no wait remains.
pub proof fn lemma_cooldown_expires(errors: nat, tripped: nat, now: nat)
    requires
        now >= tripped + COOLDOWN_MILLIS,
    ensures
        !open_at(errors, tripped, now),
        tripped_after_check(tripped, now) == 0,
        retry_after_at(tripped, now) == 0,
{
}


/// Whether `errors` and `tripped` are the states of a breaker before each
/// failure recorded at the times in `times`, and after the last, as
/// `record_failure_at` leaves them.
pub open spec fn failure_steps(errors: Seq<nat>, tripped: Seq<nat>, times: Seq<nat>) -> bool {
    forall|i: int|
        0 <= i < times.len() ==> errors[i + 1] == errors[i] + 1 && tripped[i + 1] == tripped_after_failure(
            errors[i],
            tripped[i],
            #[trigger] times[i],
        )
}

/// The state after the first `k` failures of a history that starts closed:
/// `k` consecutive errors, tripped at the `k`-th failure's time once `k`
/// reaches `THRESHOLD`.
proof fn lemma_failure_prefix(errors: Seq<nat>, tripped: Seq<nat>, times: Seq<nat>, k: int)
    requires
        errors.len() == times.len() + 1,
        tripped.len() == times.len() + 1,
        errors[0] == 0,
        tripped[0] == 0,
        failure_steps(errors, tripped, times),
        0 <= k <= times.len(),
    ensures
        errors[k] == k,
        tripped[k] == if k >= THRESHOLD { times[k - 1] } else { 0 },
    decreases k,
{
    if k > 0 {
        lemma_failure_prefix(errors, tripped, times, k - 1);
        assert(tripped[k] == tripped_after_failure(errors[k - 1], tripped[k - 1], times[k - 1]));
    }
}

/// A breaker that starts closed (new, or just after a success) and then
/// records `n >= 1` failures, at the times in `times` (the last after the
/// epoch), with the states in between given by `record_failure_at`: at any
/// later moment `now` it is open exactly when `n >= THRESHOLD` and the
/// cooldown since the last failure has not run out, and the wait it reports
/// is what remains of that cooldown (none below the threshold).
pub proof fn lemma_breaker_after_failures(errors: Seq<nat>, tripped: Seq<nat>, times: Seq<nat>, now: nat)
    requires
        errors.len() == times.len() + 1,
        tripped.len() == times.len() + 1,
        errors[0] == 0,
        tripped[0] == 0,
        times.len() >= 1,
        times.last() > 0,
        now >= times.last(),
        failure_steps(errors, tripped, times),
    ensures
        errors.last() == times.len(),
        open_at(errors.last(), tripped.last(), now) == (times.len() >= THRESHOLD && now - times.last()
            < COOLDOWN_MILLIS),
        retry_after_at(tripped.last(), now) == if times.len() >= THRESHOLD && now - times.last()
            < COOLDOWN_MILLIS {
            COOLDOWN_MILLIS - (now - times.last())
        } else {
            0
        },
{
    lemma_failure_prefix(errors, tripped, times, times.len() as int);
}


/// The cooldown does not reset the failure count: once it has run out a
/// check finds the breaker closed and forgets the trip, and the very next
/// failure opens it again.
pub proof fn lemma_reopens_after_cooldown(errors: nat, tripped: nat, now: nat, later: nat)
    requires
        errors >= THRESHOLD,
        tripped > 0,
        now >= tripped + COOLDOWN_MILLIS,
        later >= now,
    ensures
        !open_at(errors, tripped, now),
        tripped_after_check(tripped, now) == 0,
        open_at(errors + 1, tripped_after_failure(errors, tripped_after_check(tripped, now), later), later),
{
}

/// Whenever the breaker reports open, the wait it reports is positive and
/// at most the cooldown.
pub proof fn lemma_open_means_wait(errors: nat, tripped: nat, now: nat)
    requires
        open_at(errors, tripped, now),
    ensures
        0 < retry_after_at(tripped, now) <= COOLDOWN_MILLIS,
{
}

} // verus!
