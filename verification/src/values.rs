//! Output values and the fixed-point scalar used for continuous quantities.

use vstd::prelude::*;

verus! {

/// Lowest output value.
pub const LOW: u16 = 0;

/// Highest output value.
pub const HIGH: u16 = 65535;

/// Number of micro-units in one unit of the fixed-point scalar.
pub const FIXED_SCALE: i64 = 1_000_000;

/// A fixed-point scalar with six decimal places, stored as a count of
/// micro-units. Continuous parameter values, sensor readings and button
/// press durations are carried in this form.
#[derive(Clone, Copy, Debug, PartialEq, Eq, Structural)]
pub struct Fixed {
    pub micros: i64,
}

impl Fixed {
    /// The scalar as a mathematical count of micro-units.
    pub open spec fn as_int(self) -> int {
        self.micros as int
    }

    pub fn from_micros(micros: i64) -> (r: Fixed)
        ensures
            r.micros == micros,
    {
        Fixed { micros }
    }

    /// The scalar 0.0.
    pub fn zero() -> (r: Fixed)
        ensures
            r.micros == 0,
    {
        Fixed { micros: 0 }
    }

    /// The scalar 1.0.
    pub fn one() -> (r: Fixed)
        ensures
            r.micros == FIXED_SCALE,
    {
        Fixed { micros: FIXED_SCALE }
    }
}

/// Linear scaling of `x` from the range `[lo, hi]` into the output range
/// `[0, 65535]`, rounding half away from zero and clamping at the ends.
pub open spec fn spec_map_to_value(lo: int, hi: int, x: int) -> int
    recommends
        lo < hi,
{
    if x <= lo {
        0
    } else if x >= hi {
        65535
    } else {
        ((x - lo) * 131070 + (hi - lo)) / (2 * (hi - lo))
    }
}

/// The scaled value always lies in the output range.
pub proof fn lemma_map_to_value_in_range(lo: int, hi: int, x: int)
    requires
        lo < hi,
    ensures
        0 <= spec_map_to_value(lo, hi, x) <= 65535,
{
    if lo < x < hi {
        let d = x - lo;
        let cap = hi - lo;
        let num = d * 131070 + cap;
        let den = 2 * cap;
        assert(num < 65536 * den && num >= 0 && den > 0) by (nonlinear_arith)
            requires
                0 < d < cap,
                num == d * 131070 + cap,
                den == 2 * cap,
        ;
        vstd::arithmetic::div_mod::lemma_fundamental_div_mod(num, den);
        assert(num / den < 65536 && num / den >= 0) by (nonlinear_arith)
            requires
                den > 0,
                0 <= num < 65536 * den,
                num == den * (num / den) + num % den,
                0 <= num % den < den,
        ;
    }
}

/// Maps `x` from the continuous range `[lower, upper]` onto an output value,
/// clamping outside the range.
pub fn map_to_value(lower: Fixed, upper: Fixed, x: Fixed) -> (r: u16)
    requires
        lower.micros < upper.micros,
    ensures
        r as int == spec_map_to_value(lower.as_int(), upper.as_int(), x.as_int()),
{
    if x.micros <= lower.micros {
        0
    } else if x.micros >= upper.micros {
        65535
    } else {
        let d: u128 = (x.micros as i128 - lower.micros as i128) as u128;
        let cap: u128 = (upper.micros as i128 - lower.micros as i128) as u128;
        let num: u128 = d * 131070 + cap;
        let den: u128 = 2 * cap;
        let q = num / den;
        proof {
            lemma_map_to_value_in_range(lower.as_int(), upper.as_int(), x.as_int());
        }
        q as u16
    }
}

/// Seconds since local midnight for the given wall-clock reading.
pub fn time_of_day_seconds(hour: u32, minute: u32, second: u32) -> (r: u32)
    requires
        hour < 24,
        minute < 60,
        second < 60,
    ensures
        r == hour * 3600 + minute * 60 + second,
        r < 86400,
{
    hour * 3600 + minute * 60 + second
}

/// Relies on `chrono::Local::now` and the `chrono::Timelike` accessors
/// `hour`, `minute` and `second`: the hour is in `0..24` and the minute and
/// second are in `0..60` (a leap second is carried in the nanosecond field,
/// not here).
#[verifier::external_body]
fn local_clock_hms() -> (r: (u32, u32, u32))
    ensures
        r.0 < 24,
        r.1 < 60,
        r.2 < 60,
{
    let t = chrono::Local::now().time();
    (
        chrono::Timelike::hour(&t),
        chrono::Timelike::minute(&t),
        chrono::Timelike::second(&t),
    )
}

/// Seconds since local midnight, read from the local wall clock.
pub fn calculate_time_of_day() -> (r: u32)
    ensures
        r < 86400,
{
    let (h, m, s) = local_clock_hms();
    time_of_day_seconds(h, m, s)
}

} // verus!
