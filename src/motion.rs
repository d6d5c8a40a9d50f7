//! Motion profiles: human-facing response and damping translated into the
//! stiffness and damping constants that the simulator integrates with.
use vstd::prelude::*;

verus! {

/// `(2π)² · 10⁹`, rounded down: turns a response in milliseconds into a stiffness
/// in thousandths of `1/s²` (`k = ω²`, `ω = 2π / response`).
pub const TWO_PI_SQUARED_E9: i64 = 39_478_417_604;

/// `4π · 10⁶`, rounded up: turns a response in milliseconds and a damping fraction
/// in thousandths into a damping coefficient in thousandths of `1/s`
/// (`c = 2ζω`).
pub const FOUR_PI_E6: i64 = 12_566_371;

/// The longest response accepted, in milliseconds. The stiffness is kept in
/// thousandths of `1/s²`: at a one-minute response it is 10, and beyond about
/// 199 s it rounds to 0, a spring without force that never arrives. Longer
/// responses are rejected rather than rounded into that.
pub const MAX_RESPONSE_MS: i64 = 60_000;

/// The largest damping fraction accepted, in thousandths (`ζ = 1000`). It
/// keeps the damping coefficient, and the products formed from it in each
/// step, within the integer widths used; at that damping a spring already
/// takes hours to arrive.
pub const MAX_DAMPING_PERMILLE: i64 = 1_000_000;

/// Stiffness (`ω²`, in thousandths of `1/s²`) for a response in milliseconds.
pub open spec fn stiffness_of(response_ms: int) -> int {
    (TWO_PI_SQUARED_E9 as int) / (response_ms * response_ms)
}

/// Damping coefficient (`2ζω`, in thousandths of `1/s`) for a response in
/// milliseconds and a damping fraction in thousandths, rounded up so that a
/// critically damped motion does not become underdamped by rounding.
pub open spec fn damping_of(response_ms: int, damping_permille: int) -> int {
    (damping_permille * (FOUR_PI_E6 as int) + response_ms * 1000 - 1) / (response_ms * 1000)
}

/// With a damping fraction of at least one, the constants are critically
/// damped or overdamped: `c² ≥ 4000·k` (in the units of `damping_of` and
/// `stiffness_of`, this is `ζ ≥ 1`).
pub proof fn lemma_at_least_critical(response_ms: int, damping_permille: int)
    requires
        1 <= response_ms,
        1000 <= damping_permille,
    ensures
        damping_of(response_ms, damping_permille) * damping_of(response_ms, damping_permille)
            >= 4000 * stiffness_of(response_ms),
{
    let r = response_ms;
    let z = damping_permille;
    let f = FOUR_PI_E6 as int;
    let s = TWO_PI_SQUARED_E9 as int;
    let c = damping_of(r, z);
    let k = stiffness_of(r);
    let n = z * f + r * 1000 - 1;
    assert(c * (r * 1000) >= z * f) by (nonlinear_arith)
        requires r >= 1, c == n / (r * 1000), n == z * f + r * 1000 - 1, z * f >= 0;
    assert(z * f >= 1000 * f) by (nonlinear_arith)
        requires z >= 1000, f >= 0;
    assert(c * r >= f) by (nonlinear_arith)
        requires c * (r * 1000) >= 1000 * f;
    assert(c >= 0) by (nonlinear_arith)
        requires c * r >= f, f > 0, r >= 1;
    assert((c * r) * (c * r) >= f * f) by (nonlinear_arith)
        requires c * r >= f, f >= 0;
    assert(k * (r * r) <= s) by (nonlinear_arith)
        requires r >= 1, k == s / (r * r), s >= 0;
    assert(f * f >= 4000 * s);
    assert(4000 * k * (r * r) <= (c * c) * (r * r)) by (nonlinear_arith)
        requires k * (r * r) <= s, (c * r) * (c * r) >= f * f, f * f >= 4000 * s;
    assert(4000 * k <= c * c) by (nonlinear_arith)
        requires 4000 * k * (r * r) <= (c * c) * (r * r), r >= 1;
}

/// Whether a response and damping fraction describe a usable motion.
pub open spec fn valid_parameters(response_ms: int, damping_permille: int) -> bool {
    &&& 1 <= response_ms <= MAX_RESPONSE_MS
    &&& 0 <= damping_permille <= MAX_DAMPING_PERMILLE
}

/// Why a custom motion was rejected.
#[derive(Clone, Copy, Debug, PartialEq, Eq, Structural)]
pub enum MotionError {
    /// The response is not positive, or longer than `MAX_RESPONSE_MS`.
    InvalidResponse,
    /// The damping fraction is negative, or above `MAX_DAMPING_PERMILLE`.
    InvalidDamping,
}

/// The motion of a spring: a response time and a damping fraction, together
/// with the physical constants derived from them.
///
/// Two motions are equal when their parameters, and so their constants, are.
#[derive(Clone, Copy, Debug, PartialEq, Eq, Structural)]
pub struct SpringMotion {
    response_ms: i64,
    damping_permille: i64,
    stiffness: i64,
    damping: i64,
}

impl SpringMotion {
    #[verifier::type_invariant]
    spec fn inv(self) -> bool {
        &&& valid_parameters(self.response_ms as int, self.damping_permille as int)
        &&& self.stiffness == stiffness_of(self.response_ms as int)
        &&& self.damping == damping_of(self.response_ms as int, self.damping_permille as int)
    }

    /// The response time, in milliseconds.
    pub closed spec fn response_spec(self) -> int {
        self.response_ms as int
    }

    /// The damping fraction, in thousandths.
    pub closed spec fn damping_fraction_spec(self) -> int {
        self.damping_permille as int
    }

    /// The stiffness `ω²`, in thousandths of `1/s²`.
    pub open spec fn stiffness_spec(self) -> int {
        stiffness_of(self.response_spec())
    }

    /// The damping coefficient `2ζω`, in thousandths of `1/s`.
    pub open spec fn damping_spec(self) -> int {
        damping_of(self.response_spec(), self.damping_fraction_spec())
    }

    fn from_parts(response_ms: i64, damping_permille: i64) -> (r: SpringMotion)
        requires
            valid_parameters(response_ms as int, damping_permille as int),
        ensures
            r.response_spec() == response_ms,
            r.damping_fraction_spec() == damping_permille,
    {
        proof {
            let r = response_ms as int;
            let z = damping_permille as int;
            assert(1 <= r * r <= 60_000 * 60_000) by (nonlinear_arith)
                requires 1 <= r <= 60_000;
            assert(0 <= z * (FOUR_PI_E6 as int) <= 1_000_000 * (FOUR_PI_E6 as int)) by (nonlinear_arith)
                requires 0 <= z <= 1_000_000;
        }
        let sq = response_ms * response_ms;
        let stiffness = TWO_PI_SQUARED_E9 / sq;
        let damping = (damping_permille * FOUR_PI_E6 + response_ms * 1000 - 1) / (response_ms
            * 1000);
        SpringMotion { response_ms, damping_permille, stiffness, damping }
    }

    /// A critically damped motion that settles without overshoot:
    /// a response of 300 ms and a damping fraction of 1.
    pub fn smooth() -> (r: SpringMotion)
        ensures
            r.response_spec() == 300,
            r.damping_fraction_spec() == 1000,
    {
        SpringMotion::from_parts(300, 1000)
    }

    /// An underdamped motion that overshoots visibly before settling:
    /// a response of 500 ms and a damping fraction of 0.6.
    pub fn bouncy() -> (r: SpringMotion)
        ensures
            r.response_spec() == 500,
            r.damping_fraction_spec() == 600,
    {
        SpringMotion::from_parts(500, 600)
    }

    /// A motion with an explicit response (milliseconds) and damping fraction
    /// (thousandths; 1000 is critical damping).
    pub fn custom(response_ms: i64, damping_permille: i64) -> (r: Result<SpringMotion, MotionError>)
        ensures
            !(1 <= response_ms <= MAX_RESPONSE_MS) ==> r == Err::<SpringMotion, MotionError>(
                MotionError::InvalidResponse,
            ),
            (1 <= response_ms <= MAX_RESPONSE_MS && !(0 <= damping_permille
                <= MAX_DAMPING_PERMILLE)) ==> r == Err::<SpringMotion, MotionError>(
                MotionError::InvalidDamping,
            ),
            valid_parameters(response_ms as int, damping_permille as int) ==> (r matches Ok(m)
                && m.response_spec() == response_ms && m.damping_fraction_spec()
                == damping_permille),
    {
        if response_ms < 1 || response_ms > MAX_RESPONSE_MS {
            Err(MotionError::InvalidResponse)
        } else if damping_permille < 0 || damping_permille > MAX_DAMPING_PERMILLE {
            Err(MotionError::InvalidDamping)
        } else {
            Ok(SpringMotion::from_parts(response_ms, damping_permille))
        }
    }

    /// The response time, in milliseconds.
    pub fn response_ms(&self) -> (r: i64)
        ensures
            r == self.response_spec(),
    {
        self.response_ms
    }

    /// The damping fraction, in thousandths.
    pub fn damping_fraction(&self) -> (r: i64)
        ensures
            r == self.damping_fraction_spec(),
    {
        self.damping_permille
    }

    /// The stiffness `ω²`, in thousandths of `1/s²`.
    pub fn stiffness(&self) -> (r: i64)
        ensures
            r == self.stiffness_spec(),
            0 <= r <= TWO_PI_SQUARED_E9,
    {
        proof {
            use_type_invariant(self);
            let r = self.response_ms as int;
            let k = TWO_PI_SQUARED_E9 as int;
            assert(r * r >= 1) by (nonlinear_arith)
                requires r >= 1;
            assert(0 <= k / (r * r) <= k) by (nonlinear_arith)
                requires r * r >= 1, k >= 0;
        }
        self.stiffness
    }

    /// The damping coefficient `2ζω`, in thousandths of `1/s`.
    pub fn damping(&self) -> (r: i64)
        ensures
            r == self.damping_spec(),
            0 <= r <= (MAX_DAMPING_PERMILLE * FOUR_PI_E6 + MAX_RESPONSE_MS * 1000) / 1000,
    {
        proof {
            use_type_invariant(self);
            let r = self.response_ms as int;
            let z = self.damping_permille as int;
            let f = FOUR_PI_E6 as int;
            assert(0 <= z * f <= 1_000_000 * f) by (nonlinear_arith)
                requires 0 <= z <= 1_000_000, f >= 0;
            let n = z * f + r * 1000 - 1;
            assert(0 <= n / (r * 1000) <= n / 1000) by (nonlinear_arith)
                requires r >= 1, n >= 0;
            assert(n / 1000 <= (1_000_000 * f + 60_000 * 1000) / 1000) by (nonlinear_arith)
                requires n <= 1_000_000 * f + 60_000 * 1000;
        }
        self.damping
    }
}

impl Default for SpringMotion {
    fn default() -> (r: SpringMotion)
        ensures
            r.response_spec() == 300,
            r.damping_fraction_spec() == 1000,
    {
        SpringMotion::smooth()
    }
}

} // verus!
