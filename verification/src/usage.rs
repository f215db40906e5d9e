//! How much of its quota an account has used.

use vstd::arithmetic::power2::{lemma_pow2_adds, lemma_pow2_pos, lemma_pow2_strictly_increases, pow2};
use vstd::prelude::*;

use crate::json::view_of;

verus! {

// ---------------------------------------------------------------------------
// Percentages
// ---------------------------------------------------------------------------

/// A percentage, held by the bits of an IEEE 754 double.
#[derive(Debug, Clone, Copy, PartialEq, Eq, Structural)]
pub struct Percent {
    pub bits: u64,
}

/// The sign bit.
pub const SIGN_BIT: u64 = 0x8000_0000_0000_0000;

/// The bits of the positive infinity.
pub const INFINITY_BITS: u64 = 0x7FF0_0000_0000_0000;

/// Two to the number of fraction bits.
pub const FRACTION_UNIT: u64 = 0x10_0000_0000_0000;

/// The magnitude of the number that bits below the sign bit stand for, in units of the
/// smallest positive double. The infinity counts as the number that would follow.
pub open spec fn magnitude(bits: nat) -> nat {
    let exponent = bits / FRACTION_UNIT as nat;
    let fraction = bits % FRACTION_UNIT as nat;
    if exponent == 0 {
        fraction
    } else {
        (FRACTION_UNIT as nat + fraction) * pow2((exponent - 1) as nat)
    }
}

impl Percent {
    /// The bits without the sign.
    pub open spec fn unsigned_bits(self) -> nat {
        if self.bits >= SIGN_BIT {
            (self.bits - SIGN_BIT) as nat
        } else {
            self.bits as nat
        }
    }

    /// Whether this is no number at all.
    pub open spec fn is_nan(self) -> bool {
        self.unsigned_bits() > INFINITY_BITS
    }

    /// The number that this stands for, in units of the smallest positive double.
    pub open spec fn value(self) -> int {
        if self.bits >= SIGN_BIT {
            -(magnitude(self.unsigned_bits()) as int)
        } else {
            magnitude(self.unsigned_bits()) as int
        }
    }
}

/// The larger of two percentages. What is no number counts for nothing.
pub open spec fn larger(a: Percent, b: Percent) -> Percent {
    if a.is_nan() {
        b
    } else if b.is_nan() {
        a
    } else if a.value() >= b.value() {
        a
    } else {
        b
    }
}

/// Larger bits stand for a larger magnitude.
proof fn lemma_magnitude_grows(a: nat, b: nat)
    requires
        a < b,
    ensures
        magnitude(a) < magnitude(b),
{
    let unit = FRACTION_UNIT as nat;
    let ea = a / unit;
    let eb = b / unit;
    let fa = a % unit;
    let fb = b % unit;
    assert(a == ea * unit + fa && b == eb * unit + fb && fa < unit && fb < unit) by {
        vstd::arithmetic::div_mod::lemma_fundamental_div_mod(a as int, unit as int);
        vstd::arithmetic::div_mod::lemma_fundamental_div_mod(b as int, unit as int);
    }
    assert(ea <= eb) by {
        vstd::arithmetic::div_mod::lemma_div_is_ordered(a as int, b as int, unit as int);
    }
    if eb == 0 {
    } else if ea == eb {
        let p = pow2((ea - 1) as nat);
        lemma_pow2_pos((ea - 1) as nat);
        assert((unit + fa) * p < (unit + fb) * p) by (nonlinear_arith)
            requires
                fa < fb,
                p > 0,
        ;
    } else {
        let pb = pow2((eb - 1) as nat);
        lemma_pow2_pos((eb - 1) as nat);
        assert((unit + fb) * pb >= unit * pb) by (nonlinear_arith);
        if ea == 0 {
            assert(unit * pb >= unit) by (nonlinear_arith)
                requires
                    pb > 0,
            ;
        } else {
            let pa = pow2((ea - 1) as nat);
            lemma_pow2_pos((ea - 1) as nat);
            lemma_pow2_adds(1, (ea - 1) as nat);
            assert(pow2(1) == 2) by {
                vstd::arithmetic::power2::lemma2_to64();
            }
            assert(pow2(ea) == 2 * pa);
            if ea < eb - 1 {
                lemma_pow2_strictly_increases(ea, (eb - 1) as nat);
            }
            assert(2 * pa <= pb);
            assert((unit + fa) * pa < unit * pb) by (nonlinear_arith)
                requires
                    fa < unit,
                    pa > 0,
                    2 * pa <= pb,
            ;
        }
    }
}

impl Percent {
    fn is_not_a_number(self) -> (r: bool)
        ensures
            r == self.is_nan(),
    {
        if self.bits >= SIGN_BIT {
            self.bits - SIGN_BIT > INFINITY_BITS
        } else {
            self.bits > INFINITY_BITS
        }
    }

    fn at_least(self, other: Percent) -> (r: bool)
        ensures
            r == (self.value() >= other.value()),
    {
        proof {
            let a = self.unsigned_bits();
            let b = other.unsigned_bits();
            if a < b {
                lemma_magnitude_grows(a, b);
            }
            if b < a {
                lemma_magnitude_grows(b, a);
            }
            if 0 < a {
                lemma_magnitude_grows(0, a);
            }
            if 0 < b {
                lemma_magnitude_grows(0, b);
            }
            assert(magnitude(0) == 0);
        }
        if self.bits >= SIGN_BIT {
            if other.bits >= SIGN_BIT {
                self.bits <= other.bits
            } else {
                self.bits == SIGN_BIT && other.bits == 0
            }
        } else {
            other.bits >= SIGN_BIT || self.bits >= other.bits
        }
    }

    /// The larger of two percentages. What is no number counts for nothing.
    pub fn max(self, other: Percent) -> (r: Percent)
        ensures
            r == larger(self, other),
    {
        if self.is_not_a_number() {
            other
        } else if other.is_not_a_number() {
            self
        } else if self.at_least(other) {
            self
        } else {
            other
        }
    }
}

// ---------------------------------------------------------------------------
// Usage
// ---------------------------------------------------------------------------

/// One window over which requests are counted.
#[derive(Debug, Clone, Copy, PartialEq, Eq, Structural)]
pub struct RateWindow {
    /// How much of the quota has been used in this window, from 0 to 100.
    pub used_percent: Percent,
    /// The length of the window in seconds.
    pub limit_window_seconds: u64,
    /// The seconds until the window starts anew.
    pub reset_after_seconds: u64,
    /// When the window starts anew, in seconds since the epoch.
    pub reset_at: i64,
}

/// The state of the rate limit: a short window and a long one.
#[derive(Debug, Clone, Copy, PartialEq, Eq, Structural)]
pub struct RateLimit {
    pub allowed: bool,
    pub limit_reached: bool,
    pub primary_window: Option<RateWindow>,
    pub secondary_window: Option<RateWindow>,
}

/// What an account has used.
#[derive(Debug, Clone)]
pub struct Usage {
    /// The kind of plan, such as `pro`.
    pub plan_type: Option<String>,
    pub rate_limit: Option<RateLimit>,
}

/// The mathematical view of [`Usage`].
pub struct UsageView {
    pub plan_type: Option<Seq<char>>,
    pub rate_limit: Option<RateLimit>,
}

impl View for Usage {
    type V = UsageView;

    open spec fn view(&self) -> UsageView {
        UsageView { plan_type: view_of(self.plan_type), rate_limit: self.rate_limit }
    }
}

/// How much of a window has been used, where there is one.
pub open spec fn used(window: Option<RateWindow>) -> Option<Percent> {
    match window {
        Some(window) => Some(window.used_percent),
        None => None,
    }
}

/// How much has been used in the window in which more has been used.
pub open spec fn most_used(usage: UsageView) -> Option<Percent> {
    match usage.rate_limit {
        Some(limit) => match (used(limit.primary_window), used(limit.secondary_window)) {
            (Some(a), Some(b)) => Some(larger(a, b)),
            (Some(a), None) => Some(a),
            (None, b) => b,
        },
        None => None,
    }
}

impl Usage {
    /// How much has been used in the window in which more has been used.
    pub fn max_used_percent(&self) -> (r: Option<Percent>)
        ensures
            r == most_used(self@),
    {
        let limit = match &self.rate_limit {
            Some(limit) => limit,
            None => {
                return None;
            },
        };
        match (limit.primary_window, limit.secondary_window) {
            (Some(a), Some(b)) => Some(a.used_percent.max(b.used_percent)),
            (Some(a), None) => Some(a.used_percent),
            (None, Some(b)) => Some(b.used_percent),
            (None, None) => None,
        }
    }
}

/// What is reported as used is no less than what has been used in either window, and is
/// what has been used in one of them.
pub proof fn lemma_no_window_has_used_more(usage: UsageView)
    requires
        usage.rate_limit is Some,
    ensures
        ({
            let limit = usage.rate_limit->Some_0;
            let most = most_used(usage);
            &&& most is None <==> limit.primary_window is None && limit.secondary_window is None
            &&& most == used(limit.primary_window) || most == used(limit.secondary_window)
            &&& limit.primary_window is Some && !limit.primary_window->Some_0.used_percent.is_nan()
                ==> most->Some_0.value() >= limit.primary_window->Some_0.used_percent.value()
            &&& limit.secondary_window is Some
                && !limit.secondary_window->Some_0.used_percent.is_nan() ==> most->Some_0.value()
                >= limit.secondary_window->Some_0.used_percent.value()
        }),
{
}

/// Percentages are ordered by their bits, the other way round below zero, and what is no number
/// counts for nothing.
pub proof fn lemma_percentages_are_ordered(a: Percent, b: Percent)
    ensures
        a.is_nan() <==> 0x7FF0_0000_0000_0000 < a.bits < 0x8000_0000_0000_0000 || a.bits
            > 0xFFF0_0000_0000_0000,
        a.bits < b.bits < 0x8000_0000_0000_0000 ==> a.value() < b.value(),
        0x8000_0000_0000_0000 <= a.bits < b.bits ==> a.value() > b.value(),
        a.bits < 0x8000_0000_0000_0000 <= b.bits ==> b.value() <= 0 <= a.value(),
        !a.is_nan() && !b.is_nan() && a.value() < b.value() ==> larger(a, b) == b && larger(b, a)
            == b,
        a.is_nan() ==> larger(a, b) == b,
        !a.is_nan() && b.is_nan() ==> larger(a, b) == a,
{
    let x = a.unsigned_bits();
    let y = b.unsigned_bits();
    if x < y {
        lemma_magnitude_grows(x, y);
    }
}

/// What has been used is what the windows say, and nothing is known without them.
pub proof fn lemma_usage_is_what_the_windows_say(
    plan_type: Option<Seq<char>>,
    limit: RateLimit,
)
    ensures
        ({
            let most = most_used(UsageView { plan_type, rate_limit: Some(limit) });
            match (limit.primary_window, limit.secondary_window) {
                (Some(a), Some(b)) => most == Some(larger(a.used_percent, b.used_percent)),
                (Some(a), None) => most == Some(a.used_percent),
                (None, Some(b)) => most == Some(b.used_percent),
                (None, None) => most is None,
            }
        }),
        most_used(UsageView { plan_type, rate_limit: None }) is None,
{
}

/// A usage is seen as what it is.
pub proof fn lemma_usage_views(usage: Usage)
    ensures
        usage@.plan_type == view_of(usage.plan_type),
        usage@.rate_limit == usage.rate_limit,
{
}

} // verus!
