//! When to send a request again, and how long to wait before.

use vstd::arithmetic::power2::{
    lemma2_to64, lemma2_to64_rest, lemma_pow2_adds, lemma_pow2_strictly_increases,
    lemma_pow2_unfold, pow2,
};
use vstd::prelude::*;

use crate::double::{
    double, double_of, lemma_double_at_least, lemma_double_is_near, lemma_unit, unit_of,
    SIGNIFICANT,
};
use crate::error::{ClientError, ClientErrorView};
use crate::json::view_of;
use crate::time::{since_epoch, Duration, NANOS_PER_MILLI, NANOS_PER_SEC};

verus! {

/// How often a call without options of its own is sent again.
pub const DEFAULT_MAX_RETRIES: u32 = 2;

/// The wait before the first retry, in milliseconds.
pub const BACKOFF_INITIAL_MS: u64 = 200;

/// The longest wait before jitter, in milliseconds.
pub const BACKOFF_MAX_MS: u64 = 16_000;

// ---------------------------------------------------------------------------
// Backoff
// ---------------------------------------------------------------------------

/// The wait before the retry that follows failure number `attempt`, before jitter: it
/// doubles from failure to failure, up to a limit.
pub open spec fn backoff_base_ms(attempt: u32) -> nat {
    let doublings = if attempt == 0 {
        0
    } else {
        (attempt - 1) as nat
    };
    let grown = BACKOFF_INITIAL_MS as nat * pow2(doublings);
    if grown <= BACKOFF_MAX_MS {
        grown
    } else {
        BACKOFF_MAX_MS as nat
    }
}

/// The double nearest to 0.2, in units of two to the minus 55.
pub const DOUBLE_FIFTH: u128 = 7_205_759_403_792_794;

/// The double nearest to 0.9, in units of two to the minus 53.
pub const DOUBLE_NINE_TENTHS: u128 = 8_106_479_329_266_893;

/// Two to the 62.
pub const TWO_62: u128 = 0x4000_0000_0000_0000;

/// Two to the 52.
pub const TWO_52: u128 = 0x10_0000_0000_0000;

/// `noise / 1000` in doubles, in units of two to the minus 62.
pub open spec fn noise_fraction(noise: nat) -> nat {
    double_of(noise * TWO_62 as nat, 1000)
}

/// `0.2 * (noise / 1000)` in doubles, in units of two to the minus 65.
pub open spec fn noise_share(noise: nat) -> nat {
    double_of(DOUBLE_FIFTH as nat * noise_fraction(noise), TWO_52 as nat)
}

/// `0.9 + 0.2 * (noise / 1000)` in doubles, in units of two to the minus 53.
pub open spec fn jitter_factor(noise: nat) -> nat {
    double_of(DOUBLE_NINE_TENTHS as nat * 4096 + noise_share(noise), 4096)
}

/// The wait with jitter: `base * (0.9 + 0.2 * (noise / 1000))` in doubles, in whole
/// milliseconds.
pub open spec fn jittered_ms(base: nat, noise: nat) -> nat {
    double_of(base * jitter_factor(noise), 1) / SIGNIFICANT as nat
}

/// How far the steps on the way to a jittered wait can reach.
proof fn lemma_jitter_steps(base: nat, noise: nat)
    requires
        noise < 1000,
        base <= BACKOFF_MAX_MS,
    ensures
        noise * TWO_62 as nat / 1000 < SIGNIFICANT * 32768,
        noise_fraction(noise) <= TWO_62 as nat,
        DOUBLE_FIFTH as nat * noise_fraction(noise) / (TWO_52 as nat) < SIGNIFICANT * 32768,
        noise_share(noise) <= DOUBLE_FIFTH * 1024 + 1024,
        (DOUBLE_NINE_TENTHS as nat * 4096 + noise_share(noise)) / 4096 < SIGNIFICANT * 32768,
        DOUBLE_NINE_TENTHS <= jitter_factor(noise),
        10 * jitter_factor(noise) <= 11 * SIGNIFICANT + 40,
        base * jitter_factor(noise) < SIGNIFICANT * 32768,
{
    lemma2_to64();
    let n1 = noise * TWO_62 as nat;
    lemma_double_is_near(n1, 1000, 9);
    let fraction = noise_fraction(noise);
    let n2 = DOUBLE_FIFTH as nat * fraction;
    assert(n2 <= DOUBLE_FIFTH as nat * TWO_62 as nat) by (nonlinear_arith)
        requires
            n2 == DOUBLE_FIFTH as nat * fraction,
            fraction <= TWO_62 as nat,
    ;
    lemma_double_is_near(n2, TWO_52 as nat, 10);
    let n3 = DOUBLE_NINE_TENTHS as nat * 4096 + noise_share(noise);
    lemma_double_is_near(n3, 4096, 1);
    if n3 / 4096 < SIGNIFICANT {
        lemma_double_at_least(n3, 4096, DOUBLE_NINE_TENTHS as nat, 1);
    }
    let factor = jitter_factor(noise);
    assert(base * factor <= 16_000 * factor) by (nonlinear_arith)
        requires
            base <= 16_000,
    ;
}

fn base_ms(attempt: u32) -> (r: u64)
    ensures
        r == backoff_base_ms(attempt),
        BACKOFF_INITIAL_MS <= r <= BACKOFF_MAX_MS,
{
    let doublings: u32 = if attempt == 0 {
        0
    } else {
        attempt - 1
    };
    let mut base: u64 = BACKOFF_INITIAL_MS;
    let mut i: u32 = 0;
    proof {
        lemma2_to64();
    }
    while i < doublings && base < BACKOFF_MAX_MS
        invariant
            i <= doublings,
            BACKOFF_INITIAL_MS <= base <= BACKOFF_MAX_MS,
            base == (if BACKOFF_INITIAL_MS as nat * pow2(i as nat) <= BACKOFF_MAX_MS {
                BACKOFF_INITIAL_MS as nat * pow2(i as nat)
            } else {
                BACKOFF_MAX_MS as nat
            }),
        decreases doublings - i,
    {
        proof {
            lemma_pow2_unfold((i + 1) as nat);
        }
        i += 1;
        base = if 2 * base <= BACKOFF_MAX_MS {
            2 * base
        } else {
            BACKOFF_MAX_MS
        };
    }
    proof {
        if i < doublings {
            lemma_pow2_strictly_increases(i as nat, doublings as nat);
        }
    }
    base
}

/// The nanoseconds that jitter is taken from: those beyond the whole seconds of what the
/// clock shows. A clock that stands before 1970 gives none.
pub open spec fn clock_nanos(clock: Option<nat>) -> nat {
    match clock {
        Some(elapsed) => elapsed % (NANOS_PER_SEC as nat),
        None => 0,
    }
}

/// The wait, in nanoseconds, before the retry that follows failure number `attempt`, where
/// the clock shows `clock`.
pub open spec fn delay_at(attempt: u32, clock: Option<nat>) -> nat {
    jittered_ms(backoff_base_ms(attempt), clock_nanos(clock) % 1000) * NANOS_PER_MILLI as nat
}

/// The wait before the retry that follows failure number `attempt`, with jitter taken
/// from `nanos`.
pub fn backoff_delay_at(attempt: u32, nanos: u32) -> (r: Duration)
    ensures
        r@ == jittered_ms(backoff_base_ms(attempt), nanos as nat % 1000) * NANOS_PER_MILLI,
{
    let base = base_ms(attempt);
    let noise: u128 = (nanos % 1000) as u128;
    proof {
        lemma_jitter_steps(base as nat, noise as nat);
        lemma_jitter_within_tenth(attempt, noise as nat);
    }
    let fraction = double(noise * TWO_62, 1000);
    assert(DOUBLE_FIFTH * fraction <= DOUBLE_FIFTH * TWO_62) by (nonlinear_arith)
        requires
            fraction <= TWO_62,
    ;
    let share = double(DOUBLE_FIFTH * fraction, TWO_52);
    let factor = double(DOUBLE_NINE_TENTHS * 4096 + share, 4096);
    let product = double(base as u128 * factor, 1);
    Duration::from_millis((product / SIGNIFICANT) as u64)
}

/// The wait before the retry that follows failure number `attempt`, where the clock shows
/// `clock`: the time since 1970, or nothing for a clock that stands before it.
pub fn backoff_delay_by(attempt: u32, clock: Option<Duration>) -> (r: Duration)
    ensures
        r@ == delay_at(attempt, view_of(clock)),
{
    let nanos: u32 = match clock {
        Some(elapsed) => elapsed.subsec_nanos(),
        None => 0,
    };
    backoff_delay_at(attempt, nanos)
}

/// The wait before the retry that follows failure number `attempt`, with jitter taken
/// from the clock.
pub fn backoff_delay(attempt: u32) -> (r: Duration)
    ensures
        exists|clock: Option<nat>| r@ == #[trigger] delay_at(attempt, clock),
        backoff_base_ms(attempt) * 9 / 10 * NANOS_PER_MILLI <= r@,
        r@ <= backoff_base_ms(attempt) * 11 / 10 * NANOS_PER_MILLI,
{
    let clock = since_epoch();
    proof {
        lemma_jitter_within_tenth(attempt, clock_nanos(view_of(clock)) % 1000);
    }
    backoff_delay_by(attempt, clock)
}

/// Jitter moves a wait by a tenth at most, either way.
pub proof fn lemma_jitter_within_tenth(attempt: u32, noise: nat)
    requires
        noise < 1000,
    ensures
        backoff_base_ms(attempt) * 9 / 10 <= jittered_ms(backoff_base_ms(attempt), noise),
        jittered_ms(backoff_base_ms(attempt), noise) <= backoff_base_ms(attempt) * 11 / 10,
{
    let base = backoff_base_ms(attempt);
    let factor = jitter_factor(noise);
    let n = base * factor;
    lemma2_to64();
    lemma_jitter_steps(base, noise);
    lemma_double_is_near(n, 1, 15);
    let wait = double_of(n, 1);
    assert(10 * wait < (11 * base + 1) * SIGNIFICANT) by (nonlinear_arith)
        requires
            wait <= n + 32768,
            n == base * factor,
            10 * factor <= 11 * SIGNIFICANT + 40,
            base <= 16_000,
    ;
    let ms = wait / SIGNIFICANT as nat;
    assert(10 * ms <= 11 * base) by (nonlinear_arith)
        requires
            ms * SIGNIFICANT <= wait,
            10 * wait < (11 * base + 1) * SIGNIFICANT,
    ;
    let exponent = lemma_unit(n, 15);
    lemma2_to64_rest();
    lemma_pow2_adds(exponent, (53 - exponent) as nat);
    let least = base * 9 / 10;
    let multiple = least * pow2((53 - exponent) as nat);
    assert(multiple * unit_of(n) == least * SIGNIFICANT) by (nonlinear_arith)
        requires
            multiple == least * pow2((53 - exponent) as nat),
            unit_of(n) == pow2(exponent),
            pow2(exponent) * pow2((53 - exponent) as nat) == SIGNIFICANT,
    ;
    assert(least * SIGNIFICANT <= n) by (nonlinear_arith)
        requires
            10 * least <= 9 * base,
            n == base * factor,
            10 * factor >= 9 * SIGNIFICANT,
    ;
    lemma_double_at_least(n, 1, multiple, 15);
    assert(ms >= least) by (nonlinear_arith)
        requires
            wait >= least * SIGNIFICANT,
            wait < ms * SIGNIFICANT + SIGNIFICANT,
    ;
}

/// No wait exceeds the limit by more than a tenth, however many failures came before.
pub proof fn lemma_backoff_is_capped(attempt: u32, noise: nat)
    requires
        noise < 1000,
    ensures
        jittered_ms(backoff_base_ms(attempt), noise) <= BACKOFF_MAX_MS * 11 / 10,
{
    lemma_jitter_within_tenth(attempt, noise);
}

/// A later failure is never waited out for less, jitter aside.
pub proof fn lemma_backoff_grows(earlier: u32, later: u32)
    requires
        earlier <= later,
    ensures
        backoff_base_ms(earlier) <= backoff_base_ms(later),
{
    let a = if earlier == 0 {
        0nat
    } else {
        (earlier - 1) as nat
    };
    let b = if later == 0 {
        0nat
    } else {
        (later - 1) as nat
    };
    if a < b {
        lemma_pow2_strictly_increases(a, b);
    }
    assert(BACKOFF_INITIAL_MS as nat * pow2(a) <= BACKOFF_INITIAL_MS as nat * pow2(b))
        by (nonlinear_arith)
        requires
            pow2(a) <= pow2(b),
    ;
}

// ---------------------------------------------------------------------------
// Retrying
// ---------------------------------------------------------------------------

/// What to do after a failure.
#[derive(Debug)]
pub enum RetryDecision {
    /// Hand the failure to the caller.
    GiveUp,
    /// Wait, then send the request again.
    Wait(Duration),
}

/// The retries of one call: how many it may have, how many it had, and whether it may be
/// repeated without harm.
#[derive(Debug)]
pub struct Retry {
    /// The most retries.
    pub max_retries: u32,
    /// Whether sending the request twice has the effect of sending it once.
    pub idempotent: bool,
    /// The retries so far.
    pub attempt: u32,
}

/// Whether a request may be sent again after a failure.
pub open spec fn may_retry(idempotent: bool, e: ClientErrorView) -> bool {
    if idempotent {
        e.retryable()
    } else {
        e.retryable_non_idempotent()
    }
}

/// Whether an attempt ended in a failure that allows a retry.
pub open spec fn allows_retry(idempotent: bool, outcome: Option<ClientErrorView>) -> bool {
    match outcome {
        Some(e) => may_retry(idempotent, e),
        None => false,
    }
}

impl Retry {
    /// The retries of a call that has not been sent yet.
    pub fn new(max_retries: u32, idempotent: bool) -> (r: Retry)
        ensures
            r == (Retry { max_retries, idempotent, attempt: 0 }),
    {
        Retry { max_retries, idempotent, attempt: 0 }
    }

    /// Whether the call is sent again after the failure `e`.
    pub open spec fn retries(self, e: ClientErrorView) -> bool {
        self.attempt < self.max_retries && may_retry(self.idempotent, e)
    }

    /// The retries after one more.
    pub open spec fn counted(self) -> Retry {
        Retry { attempt: (self.attempt + 1) as u32, ..self }
    }

    /// The retries once all are used up.
    pub open spec fn used_up(self) -> Retry {
        Retry { attempt: self.max_retries, ..self }
    }

    fn goes_on(&mut self, e: &ClientError) -> (r: bool)
        ensures
            r == old(self).retries(e@),
            *final(self) == (if r {
                old(self).counted()
            } else {
                *old(self)
            }),
    {
        let retryable = if self.idempotent {
            e.is_retryable()
        } else {
            e.is_retryable_non_idempotent()
        };
        if self.attempt >= self.max_retries || !retryable {
            return false;
        }
        self.attempt = self.attempt + 1;
        true
    }

    /// Decides what to do after the failure `e`, where the clock shows `clock`. A wait that
    /// the server asked for goes before the backoff.
    pub fn on_error_at(&mut self, e: &ClientError, clock: Option<Duration>) -> (r: RetryDecision)
        ensures
            match r {
                RetryDecision::GiveUp => !old(self).retries(e@) && *final(self) == *old(self),
                RetryDecision::Wait(d) => {
                    &&& old(self).retries(e@)
                    &&& *final(self) == old(self).counted()
                    &&& d@ == wait_after(e@, final(self).attempt, view_of(clock))
                },
            },
    {
        if !self.goes_on(e) {
            return RetryDecision::GiveUp;
        }
        match e.retry_after() {
            Some(wait) => RetryDecision::Wait(wait),
            None => RetryDecision::Wait(backoff_delay_by(self.attempt, clock)),
        }
    }

    /// Decides what to do after the failure `e`, with jitter taken from the clock.
    pub fn on_error(&mut self, e: &ClientError) -> (r: RetryDecision)
        ensures
            match r {
                RetryDecision::GiveUp => !old(self).retries(e@) && *final(self) == *old(self),
                RetryDecision::Wait(d) => {
                    &&& old(self).retries(e@)
                    &&& *final(self) == old(self).counted()
                    &&& exists|clock: Option<nat>|
                        d@ == #[trigger] wait_after(e@, final(self).attempt, clock)
                },
            },
    {
        self.on_error_at(e, since_epoch())
    }
}

/// The wait, in nanoseconds, before the retry that follows the failure `e`, which is failure
/// number `attempt`: what the server asked for, or else the backoff.
pub open spec fn wait_after(e: ClientErrorView, attempt: u32, clock: Option<nat>) -> nat {
    match e.wait() {
        Some(wait) => wait,
        None => delay_at(attempt, clock),
    }
}

/// How often a call is sent when its attempts end as `outcomes` says, with nothing for a
/// success: until a success, or until a failure that is handed to the caller.
pub open spec fn times_sent(retry: Retry, outcomes: Seq<Option<ClientErrorView>>) -> nat
    decreases outcomes.len(),
{
    if outcomes.len() == 0 {
        0
    } else {
        match outcomes[0] {
            Some(e) if retry.retries(e) => 1 + times_sent(retry.counted(), outcomes.skip(1)),
            _ => 1,
        }
    }
}

/// A call is sent once, and again as often as its retries allow, but no more.
pub proof fn lemma_sent_within_bound(retry: Retry, outcomes: Seq<Option<ClientErrorView>>)
    requires
        retry.attempt <= retry.max_retries,
    ensures
        times_sent(retry, outcomes) <= 1 + (retry.max_retries - retry.attempt),
    decreases outcomes.len(),
{
    if outcomes.len() > 0 {
        match outcomes[0] {
            Some(e) => {
                if retry.retries(e) {
                    lemma_sent_within_bound(retry.counted(), outcomes.skip(1));
                }
            },
            None => {},
        }
    }
}

/// A call that keeps failing in a way that allows a retry is sent again until its retries
/// are used up, and the last failure is then handed to the caller.
pub proof fn lemma_sent_until_exhausted(retry: Retry, outcomes: Seq<Option<ClientErrorView>>)
    requires
        retry.attempt <= retry.max_retries,
        outcomes.len() > retry.max_retries - retry.attempt,
        forall|i: int|
            0 <= i <= retry.max_retries - retry.attempt ==> allows_retry(
                retry.idempotent,
                #[trigger] outcomes[i],
            ),
    ensures
        times_sent(retry, outcomes) == 1 + (retry.max_retries - retry.attempt),
        !retry.used_up().retries(outcomes[retry.max_retries - retry.attempt]->0),
    decreases outcomes.len(),
{
    assert(allows_retry(retry.idempotent, outcomes[0]));
    if retry.attempt < retry.max_retries {
        let rest = outcomes.skip(1);
        assert forall|i: int|
            0 <= i <= retry.max_retries - retry.counted().attempt implies allows_retry(
            retry.idempotent,
            #[trigger] rest[i],
        ) by {
            assert(rest[i] == outcomes[i + 1]);
        }
        lemma_sent_until_exhausted(retry.counted(), rest);
    }
}

/// A call is not sent again after a success, nor after a failure that allows no retry.
pub proof fn lemma_not_sent_again(retry: Retry, outcomes: Seq<Option<ClientErrorView>>)
    requires
        outcomes.len() > 0,
        outcomes[0] matches Some(e) ==> !may_retry(retry.idempotent, e),
    ensures
        times_sent(retry, outcomes) == 1,
{
}

/// A call with side effects is sent again only after failures that show that the server
/// refused it or never received it: neither a failure of the server nor a timeout nor a
/// request cut off midway is followed by another attempt.
pub proof fn lemma_side_effects_happen_once(retry: Retry, e: ClientErrorView)
    requires
        !retry.idempotent,
        retry.retries(e),
    ensures
        e is RateLimited || (e matches ClientErrorView::Network(n) && n.connect),
{
}

// ---------------------------------------------------------------------------
// Waits and decisions
// ---------------------------------------------------------------------------

/// The first retry waits 200 milliseconds, and each later one twice as long as the one before,
/// up to 16 seconds.
pub proof fn lemma_backoff_doubles(attempt: u32)
    requires
        0 < attempt < u32::MAX,
    ensures
        backoff_base_ms(0) == 200,
        backoff_base_ms(1) == 200,
        backoff_base_ms((attempt + 1) as u32) == if 2 * backoff_base_ms(attempt) <= 16_000 {
            2 * backoff_base_ms(attempt)
        } else {
            16_000
        },
{
    lemma2_to64();
    lemma_pow2_unfold(attempt as nat);
}

/// Jitter is in proportion to the noise: from nine tenths of the wait, a five-thousandth of it
/// more for each unit of noise, to within a millisecond.
pub proof fn lemma_jitter_follows_the_noise(attempt: u32, noise: nat)
    requires
        noise < 1000,
    ensures
        ({
            let exact = backoff_base_ms(attempt) * (4500 + noise);
            exact - 5000 <= 5000 * jittered_ms(backoff_base_ms(attempt), noise) <= exact
        }),
{
    let base = backoff_base_ms(attempt);
    let factor = jitter_factor(noise);
    lemma2_to64();
    lemma_jitter_steps(base, noise);
    let n1 = noise * TWO_62 as nat;
    lemma_double_is_near(n1, 1000, 9);
    let n2 = DOUBLE_FIFTH as nat * noise_fraction(noise);
    lemma_double_is_near(n2, TWO_52 as nat, 10);
    let n3 = DOUBLE_NINE_TENTHS as nat * 4096 + noise_share(noise);
    lemma_double_is_near(n3, 4096, 1);
    let n4 = base * factor;
    lemma_double_is_near(n4, 1, 15);
    let ideal = (4500 + noise) * SIGNIFICANT as nat;
    assert(ideal - 20_000 <= 5000 * factor <= ideal + 20_000);
    let wait = double_of(n4, 1);
    let ms = wait / SIGNIFICANT as nat;
    let exact = base * (4500 + noise);
    assert(exact * SIGNIFICANT - 16_000 * 20_000 <= 5000 * n4 <= exact * SIGNIFICANT + 16_000
        * 20_000) by (nonlinear_arith)
        requires
            n4 == base * factor,
            exact == base * (4500 + noise),
            ideal == (4500 + noise) * SIGNIFICANT,
            ideal - 20_000 <= 5000 * factor <= ideal + 20_000,
            base <= 16_000,
    ;
    assert(5000 * ms <= exact) by (nonlinear_arith)
        requires
            ms * SIGNIFICANT <= wait,
            5000 * wait < (exact + 1) * SIGNIFICANT,
    ;
    assert(exact - 5000 <= 5000 * ms) by (nonlinear_arith)
        requires
            wait < ms * SIGNIFICANT + SIGNIFICANT,
            5000 * wait > (exact - 1) * SIGNIFICANT,
    ;
}

/// The noise is the last three digits of the nanoseconds that the clock shows, and a clock that
/// stands before 1970 brings none.
pub proof fn lemma_noise_of_the_clock(attempt: u32, elapsed: nat)
    ensures
        delay_at(attempt, Some(elapsed)) == 1_000_000 * jittered_ms(
            backoff_base_ms(attempt),
            elapsed % 1_000_000_000 % 1000,
        ),
        delay_at(attempt, None) == 1_000_000 * jittered_ms(backoff_base_ms(attempt), 0),
{
}

/// A wait that the server asked for goes before the backoff, and is kept as it is.
pub proof fn lemma_server_goes_first(e: ClientErrorView, attempt: u32, clock: Option<nat>)
    ensures
        e.wait() is Some ==> wait_after(e, attempt, clock) == e.wait()->Some_0,
        e.wait() is None ==> wait_after(e, attempt, clock) == delay_at(attempt, clock),
{
}

/// A call is sent again exactly where it has retries left and the failure allows it, and each
/// retry is counted once.
pub proof fn lemma_sent_again_where_allowed(retry: Retry, e: ClientErrorView)
    ensures
        retry.retries(e) <==> retry.attempt < retry.max_retries && (if retry.idempotent {
            e.retryable()
        } else {
            e.retryable_non_idempotent()
        }),
        retry.retries(e) ==> retry.counted().attempt == retry.attempt + 1,
        retry.counted().max_retries == retry.max_retries,
        retry.counted().idempotent == retry.idempotent,
{
}

} // verus!
