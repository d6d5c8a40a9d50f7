//! One millisecond of spring motion for a single component, and for a whole
//! vector of components.
//!
//! Positions are kept in sub-units: `SUBUNITS` of them make one component unit,
//! so that slow motion is not lost to rounding. Velocities are in sub-units
//! per millisecond, that is thousandths of a component unit per second. Each
//! step is a backward-Euler step of `x'' + c·x' + k·(x - target) = 0`, which
//! stays stable for any stiffness, damping and elapsed time.
use vstd::prelude::*;
use crate::animate::{in_range, COMPONENT_LIMIT};

verus! {

/// Sub-units of position in one component unit.
pub const SUBUNITS: i64 = 1_000_000;

/// The largest magnitude of a position, in sub-units.
pub const POSITION_LIMIT: i64 = 1_000_000_000_000_000_000;

/// The largest magnitude of a velocity, in sub-units per millisecond.
pub const SPEED_LIMIT: i64 = 1_000_000_000_000_000_000;

/// The standard tolerance's distance: a component counts as arrived when it
/// is at most this far from its target, in component units.
pub const SETTLE_DISTANCE: i64 = 1000;

/// The standard tolerance's speed: a component counts as at rest when its
/// speed is at most this, in sub-units per millisecond (a thousand component
/// units per second).
pub const SETTLE_SPEED: i64 = 1_000_000;

/// `x` limited to `[-limit, limit]`.
pub open spec fn clamp(x: int, limit: int) -> int {
    if x > limit {
        limit
    } else if x < -limit {
        -limit
    } else {
        x
    }
}

/// Division rounding towards zero, for a positive divisor.
pub open spec fn div_trunc(n: int, d: int) -> int {
    if n >= 0 {
        n / d
    } else {
        -((-n) / d)
    }
}

/// The velocity after one millisecond, for stiffness `k` (thousandths of
/// `1/s²`) and damping `c` (thousandths of `1/s`):
/// `v' = (v - h·k·(p - t)) / (1 + h·c + h²·k)` with `h` one millisecond.
pub open spec fn next_velocity(p: int, v: int, t: int, k: int, c: int) -> int {
    clamp(
        div_trunc(
            1_000_000_000 * v - k * (p - SUBUNITS * t),
            1_000_000_000 + 1000 * c + k,
        ),
        SPEED_LIMIT as int,
    )
}

/// The position after one millisecond at the new velocity `v`.
pub open spec fn next_position(p: int, v: int) -> int {
    clamp(p + v, POSITION_LIMIT as int)
}

/// The position of a component resting at its target `t`.
pub open spec fn rest_position(t: int) -> int {
    SUBUNITS * t
}

/// The component value shown for a position.
pub open spec fn shown(p: int) -> int {
    div_trunc(p, SUBUNITS as int)
}

/// How close to its target, and how slow, a component must be to count as
/// settled.
#[derive(Clone, Copy, Debug, PartialEq, Eq, Structural)]
pub struct Tolerance {
    /// The largest distance from the target, in component units.
    pub distance: i64,
    /// The largest speed, in sub-units per millisecond.
    pub speed: i64,
}

/// A tolerance that positions and velocities can be compared against.
pub open spec fn valid_tolerance(tol: Tolerance) -> bool {
    &&& 0 <= tol.distance <= COMPONENT_LIMIT
    &&& 0 <= tol.speed <= SPEED_LIMIT
}

impl Tolerance {
    /// `SETTLE_DISTANCE` and `SETTLE_SPEED`.
    pub fn standard() -> (r: Tolerance)
        ensures
            r.distance == SETTLE_DISTANCE,
            r.speed == SETTLE_SPEED,
            valid_tolerance(r),
    {
        Tolerance { distance: SETTLE_DISTANCE, speed: SETTLE_SPEED }
    }
}

impl Default for Tolerance {
    fn default() -> (r: Tolerance)
        ensures
            r.distance == SETTLE_DISTANCE,
            r.speed == SETTLE_SPEED,
    {
        Tolerance::standard()
    }
}

/// Whether one component is close enough to its target, and slow enough.
pub open spec fn near(p: int, v: int, t: int, tol: Tolerance) -> bool {
    &&& -SUBUNITS * tol.distance <= p - rest_position(t) <= SUBUNITS * tol.distance
    &&& -tol.speed <= v <= tol.speed
}

/// Positions and velocities lie within their limits.
pub open spec fn bounded(p: Seq<i64>, v: Seq<i64>) -> bool {
    &&& forall|i: int| 0 <= i < p.len() ==> -POSITION_LIMIT <= #[trigger] p[i] <= POSITION_LIMIT
    &&& forall|i: int| 0 <= i < v.len() ==> -SPEED_LIMIT <= #[trigger] v[i] <= SPEED_LIMIT
}

/// Whether every component has arrived and come to rest.
pub open spec fn settled(p: Seq<i64>, v: Seq<i64>, t: Seq<i64>, tol: Tolerance) -> bool {
    forall|i: int|
        0 <= i < t.len() ==> near(#[trigger] p[i] as int, v[i] as int, t[i] as int, tol)
}

/// The positions of components resting at their targets.
pub open spec fn rest_positions(t: Seq<i64>) -> Seq<i64> {
    Seq::new(t.len(), |i: int| rest_position(t[i] as int) as i64)
}

/// All-zero velocities.
pub open spec fn still(n: nat) -> Seq<i64> {
    Seq::new(n, |i: int| 0i64)
}

/// The component values shown for positions.
pub open spec fn shown_all(p: Seq<i64>) -> Seq<i64> {
    Seq::new(p.len(), |i: int| shown(p[i] as int) as i64)
}

/// One millisecond of one component: position and velocity afterwards. A
/// component that has settled snaps onto its target and stops; otherwise it
/// moves under the spring force. Nothing but its own state enters.
pub open spec fn next_state(p: int, v: int, t: int, k: int, c: int, tol: Tolerance) -> (int, int) {
    if near(p, v, t, tol) {
        (rest_position(t), 0)
    } else {
        let w = next_velocity(p, v, t, k, c);
        (next_position(p, w), w)
    }
}

/// One millisecond of every component, each on its own.
pub open spec fn step(p: Seq<i64>, v: Seq<i64>, t: Seq<i64>, k: int, c: int, tol: Tolerance) -> (
    Seq<i64>,
    Seq<i64>,
) {
    (
        Seq::new(
            t.len(),
            |i: int| next_state(p[i] as int, v[i] as int, t[i] as int, k, c, tol).0 as i64,
        ),
        Seq::new(
            t.len(),
            |i: int| next_state(p[i] as int, v[i] as int, t[i] as int, k, c, tol).1 as i64,
        ),
    )
}

/// `n` milliseconds of motion.
pub open spec fn simulate(
    p: Seq<i64>,
    v: Seq<i64>,
    t: Seq<i64>,
    k: int,
    c: int,
    tol: Tolerance,
    n: nat,
) -> (Seq<i64>, Seq<i64>)
    decreases n,
{
    if n == 0 {
        (p, v)
    } else {
        let s = step(p, v, t, k, c, tol);
        simulate(s.0, s.1, t, k, c, tol, (n - 1) as nat)
    }
}

/// Components at rest on their targets are settled, under any tolerance.
pub proof fn lemma_at_rest_settled(t: Seq<i64>, tol: Tolerance)
    requires
        in_range(t),
        valid_tolerance(tol),
    ensures
        settled(rest_positions(t), still(t.len()), t, tol),
{
    assert forall|i: int| 0 <= i < t.len() implies near(
        #[trigger] rest_positions(t)[i] as int,
        still(t.len())[i] as int,
        t[i] as int,
        tol,
    ) by {
        assert(-COMPONENT_LIMIT <= t[i] <= COMPONENT_LIMIT);
    }
}

/// A spring at rest on its target stays there.
pub proof fn lemma_rest_stays(t: Seq<i64>, k: int, c: int, tol: Tolerance, n: nat)
    requires
        in_range(t),
        valid_tolerance(tol),
    ensures
        simulate(rest_positions(t), still(t.len()), t, k, c, tol, n) == (
            rest_positions(t),
            still(t.len()),
        ),
    decreases n,
{
    let s = step(rest_positions(t), still(t.len()), t, k, c, tol);
    assert forall|i: int| 0 <= i < t.len() implies near(
        #[trigger] rest_positions(t)[i] as int,
        still(t.len())[i] as int,
        t[i] as int,
        tol,
    ) by {
        assert(-COMPONENT_LIMIT <= t[i] <= COMPONENT_LIMIT);
    }
    assert(s.0 =~= rest_positions(t));
    assert(s.1 =~= still(t.len()));
    if n > 0 {
        lemma_rest_stays(t, k, c, tol, (n - 1) as nat);
    }
}

/// Components move independently: a component that has the same position,
/// velocity and target in two vectors has the same position and velocity in
/// both after any number of milliseconds, whatever the other components do.
pub proof fn lemma_components_independent(
    p1: Seq<i64>,
    v1: Seq<i64>,
    t1: Seq<i64>,
    p2: Seq<i64>,
    v2: Seq<i64>,
    t2: Seq<i64>,
    k: int,
    c: int,
    tol: Tolerance,
    i: int,
    n: nat,
)
    requires
        p1.len() == t1.len(),
        v1.len() == t1.len(),
        p2.len() == t2.len(),
        v2.len() == t2.len(),
        0 <= i < t1.len(),
        0 <= i < t2.len(),
        p1[i] == p2[i],
        v1[i] == v2[i],
        t1[i] == t2[i],
    ensures
        simulate(p1, v1, t1, k, c, tol, n).0.len() == t1.len(),
        simulate(p1, v1, t1, k, c, tol, n).1.len() == t1.len(),
        simulate(p2, v2, t2, k, c, tol, n).0.len() == t2.len(),
        simulate(p2, v2, t2, k, c, tol, n).1.len() == t2.len(),
        simulate(p1, v1, t1, k, c, tol, n).0[i] == simulate(p2, v2, t2, k, c, tol, n).0[i],
        simulate(p1, v1, t1, k, c, tol, n).1[i] == simulate(p2, v2, t2, k, c, tol, n).1[i],
    decreases n,
{
    if n > 0 {
        let s1 = step(p1, v1, t1, k, c, tol);
        let s2 = step(p2, v2, t2, k, c, tol);
        lemma_components_independent(
            s1.0,
            s1.1,
            t1,
            s2.0,
            s2.1,
            t2,
            k,
            c,
            tol,
            i,
            (n - 1) as nat,
        );
    }
}

/// A component moves towards its target no faster than a critically damped
/// spring would: its velocity points at the target, and
/// `2·10⁶·|v| ≤ c·|distance|`.
pub open spec fn approaching(p: int, v: int, t: int, c: int) -> bool {
    let d = p - rest_position(t);
    ||| (d >= 0 && v <= 0 && 2_000_000 * (-v) <= c * d)
    ||| (d <= 0 && v >= 0 && 2_000_000 * v <= c * (-d))
}

/// Every component is approaching its target.
pub open spec fn all_approaching(p: Seq<i64>, v: Seq<i64>, t: Seq<i64>, c: int) -> bool {
    forall|i: int| 0 <= i < t.len() ==> approaching(#[trigger] p[i] as int, v[i] as int, t[i] as int, c)
}

/// `x` lies between `a` and `b`, both included.
pub open spec fn between(x: int, a: int, b: int) -> bool {
    (a <= x <= b) || (b <= x <= a)
}

proof fn lemma_step_from_above(p: int, v: int, t: int, k: int, c: int)
    requires
        -POSITION_LIMIT <= p <= POSITION_LIMIT,
        -COMPONENT_LIMIT <= t <= COMPONENT_LIMIT,
        0 <= k,
        0 <= c,
        c * c >= 4000 * k,
        p - rest_position(t) >= 0,
        v <= 0,
        2_000_000 * (-v) <= c * (p - rest_position(t)),
    ensures
        approaching(next_position(p, next_velocity(p, v, t, k, c)), next_velocity(p, v, t, k, c), t, c),
        between(next_position(p, next_velocity(p, v, t, k, c)), rest_position(t), p),
{
    let d = p - rest_position(t);
    let den = 1_000_000_000 + 1000 * c + k;
    let x = k * d + 1_000_000_000 * (-v);
    assert(1_000_000_000 * v - k * (p - SUBUNITS * t) == -x) by (nonlinear_arith)
        requires d == p - SUBUNITS * t, x == k * d + 1_000_000_000 * (-v);
    assert(x >= 0) by (nonlinear_arith)
        requires k >= 0, d >= 0, v <= 0, x == k * d + 1_000_000_000 * (-v);
    let q = x / den;
    assert(div_trunc(-x, den) == -q);
    let m = if q > SPEED_LIMIT {
        SPEED_LIMIT as int
    } else {
        q
    };
    assert(next_velocity(p, v, t, k, c) == -m);
    assert(1_000_000_000 * (-v) <= 500 * c * d) by (nonlinear_arith)
        requires 2_000_000 * (-v) <= c * d;
    assert(x <= (k + 500 * c) * d) by (nonlinear_arith)
        requires x == k * d + 1_000_000_000 * (-v), 1_000_000_000 * (-v) <= 500 * c * d;
    assert(q * den <= x) by (nonlinear_arith)
        requires q == x / den, den > 0, x >= 0;
    assert(0 <= q) by (nonlinear_arith)
        requires q == x / den, den > 0, x >= 0;
    assert((k + 500 * c) * d <= den * d) by (nonlinear_arith)
        requires d >= 0, c >= 0, den == 1_000_000_000 + 1000 * c + k;
    assert(q <= d) by (nonlinear_arith)
        requires q * den <= den * d, den > 0;
    assert((k + 500 * c) * (2_000_000 + c) <= c * den) by (nonlinear_arith)
        requires c * c >= 4000 * k, k >= 0, c >= 0, den == 1_000_000_000 + 1000 * c + k;
    assert(q * (2_000_000 + c) * den <= c * d * den) by (nonlinear_arith)
        requires
            q * den <= (k + 500 * c) * d,
            (k + 500 * c) * (2_000_000 + c) <= c * den,
            q >= 0,
            d >= 0,
            c >= 0,
    ;
    assert(q * (2_000_000 + c) <= c * d) by (nonlinear_arith)
        requires q * (2_000_000 + c) * den <= c * d * den, den > 0;
    assert(m * (2_000_000 + c) <= c * d) by (nonlinear_arith)
        requires q * (2_000_000 + c) <= c * d, 0 <= m <= q, c >= 0;
    assert(next_position(p, -m) == p - m);
    assert(2_000_000 * m <= c * (p - m - rest_position(t))) by (nonlinear_arith)
        requires m * (2_000_000 + c) <= c * d, d == p - rest_position(t);
}

proof fn lemma_step_from_below(p: int, v: int, t: int, k: int, c: int)
    requires
        -POSITION_LIMIT <= p <= POSITION_LIMIT,
        -COMPONENT_LIMIT <= t <= COMPONENT_LIMIT,
        0 <= k,
        0 <= c,
        c * c >= 4000 * k,
        p - rest_position(t) <= 0,
        v >= 0,
        2_000_000 * v <= c * (rest_position(t) - p),
    ensures
        approaching(next_position(p, next_velocity(p, v, t, k, c)), next_velocity(p, v, t, k, c), t, c),
        between(next_position(p, next_velocity(p, v, t, k, c)), rest_position(t), p),
{
    let d = rest_position(t) - p;
    let den = 1_000_000_000 + 1000 * c + k;
    let x = k * d + 1_000_000_000 * v;
    assert(1_000_000_000 * v - k * (p - SUBUNITS * t) == x) by (nonlinear_arith)
        requires d == SUBUNITS * t - p, x == k * d + 1_000_000_000 * v;
    assert(x >= 0) by (nonlinear_arith)
        requires k >= 0, d >= 0, v >= 0, x == k * d + 1_000_000_000 * v;
    let q = x / den;
    assert(div_trunc(x, den) == q);
    let m = if q > SPEED_LIMIT {
        SPEED_LIMIT as int
    } else {
        q
    };
    assert(next_velocity(p, v, t, k, c) == m);
    assert(1_000_000_000 * v <= 500 * c * d) by (nonlinear_arith)
        requires 2_000_000 * v <= c * d;
    assert(x <= (k + 500 * c) * d) by (nonlinear_arith)
        requires x == k * d + 1_000_000_000 * v, 1_000_000_000 * v <= 500 * c * d;
    assert(q * den <= x) by (nonlinear_arith)
        requires q == x / den, den > 0, x >= 0;
    assert(0 <= q) by (nonlinear_arith)
        requires q == x / den, den > 0, x >= 0;
    assert((k + 500 * c) * d <= den * d) by (nonlinear_arith)
        requires d >= 0, c >= 0, den == 1_000_000_000 + 1000 * c + k;
    assert(q <= d) by (nonlinear_arith)
        requires q * den <= den * d, den > 0;
    assert((k + 500 * c) * (2_000_000 + c) <= c * den) by (nonlinear_arith)
        requires c * c >= 4000 * k, k >= 0, c >= 0, den == 1_000_000_000 + 1000 * c + k;
    assert(q * (2_000_000 + c) * den <= c * d * den) by (nonlinear_arith)
        requires
            q * den <= (k + 500 * c) * d,
            (k + 500 * c) * (2_000_000 + c) <= c * den,
            q >= 0,
            d >= 0,
            c >= 0,
    ;
    assert(q * (2_000_000 + c) <= c * d) by (nonlinear_arith)
        requires q * (2_000_000 + c) * den <= c * d * den, den > 0;
    assert(m * (2_000_000 + c) <= c * d) by (nonlinear_arith)
        requires q * (2_000_000 + c) <= c * d, 0 <= m <= q, c >= 0;
    assert(next_position(p, m) == p + m);
    assert(2_000_000 * m <= c * (rest_position(t) - (p + m))) by (nonlinear_arith)
        requires m * (2_000_000 + c) <= c * d, d == rest_position(t) - p;
}

/// One millisecond keeps every component approaching its target, and moves
/// each to a position between its target and where it was.
pub proof fn lemma_step_approaches(
    p: Seq<i64>,
    v: Seq<i64>,
    t: Seq<i64>,
    k: int,
    c: int,
    tol: Tolerance,
)
    requires
        p.len() == t.len(),
        v.len() == t.len(),
        in_range(t),
        bounded(p, v),
        0 <= k,
        0 <= c,
        c * c >= 4000 * k,
        all_approaching(p, v, t, c),
    ensures
        step(p, v, t, k, c, tol).0.len() == t.len(),
        step(p, v, t, k, c, tol).1.len() == t.len(),
        bounded(step(p, v, t, k, c, tol).0, step(p, v, t, k, c, tol).1),
        all_approaching(step(p, v, t, k, c, tol).0, step(p, v, t, k, c, tol).1, t, c),
        forall|i: int|
            0 <= i < t.len() ==> between(
                #[trigger] step(p, v, t, k, c, tol).0[i] as int,
                rest_position(t[i] as int),
                p[i] as int,
            ),
{
    let s = step(p, v, t, k, c, tol);
    assert forall|i: int| 0 <= i < t.len() implies {
        &&& approaching(#[trigger] s.0[i] as int, s.1[i] as int, t[i] as int, c)
        &&& between(s.0[i] as int, rest_position(t[i] as int), p[i] as int)
        &&& -POSITION_LIMIT <= s.0[i] <= POSITION_LIMIT
        &&& -SPEED_LIMIT <= s.1[i] <= SPEED_LIMIT
    } by {
        let pi = p[i] as int;
        let vi = v[i] as int;
        let ti = t[i] as int;
        assert(-COMPONENT_LIMIT <= t[i] <= COMPONENT_LIMIT);
        assert(-POSITION_LIMIT <= p[i] <= POSITION_LIMIT);
        assert(-SPEED_LIMIT <= v[i] <= SPEED_LIMIT);
        if !near(pi, vi, ti, tol) {
            assert(approaching(pi, vi, ti, c));
            if pi - rest_position(ti) >= 0 && vi <= 0 && 2_000_000 * (-vi) <= c * (pi
                - rest_position(ti)) {
                lemma_step_from_above(pi, vi, ti, k, c);
            } else {
                lemma_step_from_below(pi, vi, ti, k, c);
            }
        }
    }
    assert(bounded(s.0, s.1));
}

/// Critically damped and overdamped motion never passes the target: starting
/// with every component approaching its target (for instance at rest), after
/// any number of milliseconds each component still approaches it, and the
/// next millisecond moves it to a position between the target and where it
/// was, so that it moves monotonically towards the target.
pub proof fn lemma_no_overshoot(
    p: Seq<i64>,
    v: Seq<i64>,
    t: Seq<i64>,
    k: int,
    c: int,
    tol: Tolerance,
    n: nat,
)
    requires
        p.len() == t.len(),
        v.len() == t.len(),
        in_range(t),
        bounded(p, v),
        0 <= k,
        0 <= c,
        c * c >= 4000 * k,
        all_approaching(p, v, t, c),
    ensures
        simulate(p, v, t, k, c, tol, n).0.len() == t.len(),
        simulate(p, v, t, k, c, tol, n).1.len() == t.len(),
        bounded(simulate(p, v, t, k, c, tol, n).0, simulate(p, v, t, k, c, tol, n).1),
        all_approaching(simulate(p, v, t, k, c, tol, n).0, simulate(p, v, t, k, c, tol, n).1, t, c),
        forall|i: int|
            0 <= i < t.len() ==> between(
                #[trigger] simulate(p, v, t, k, c, tol, n + 1).0[i] as int,
                rest_position(t[i] as int),
                simulate(p, v, t, k, c, tol, n).0[i] as int,
            ),
    decreases n,
{
    lemma_step_approaches(p, v, t, k, c, tol);
    let s = step(p, v, t, k, c, tol);
    if n == 0 {
        assert(simulate(s.0, s.1, t, k, c, tol, 0) == s);
        assert(simulate(p, v, t, k, c, tol, 1) == s);
        assert(simulate(p, v, t, k, c, tol, 0) == (p, v));
        assert forall|i: int| 0 <= i < t.len() implies between(
            #[trigger] simulate(p, v, t, k, c, tol, n + 1).0[i] as int,
            rest_position(t[i] as int),
            simulate(p, v, t, k, c, tol, n).0[i] as int,
        ) by {
            assert(between(s.0[i] as int, rest_position(t[i] as int), p[i] as int));
        }
    } else {
        lemma_no_overshoot(s.0, s.1, t, k, c, tol, (n - 1) as nat);
        assert(simulate(p, v, t, k, c, tol, n) == simulate(s.0, s.1, t, k, c, tol, (n - 1) as nat));
        assert(simulate(p, v, t, k, c, tol, n + 1) == simulate(s.0, s.1, t, k, c, tol, n));
        let m = (n - 1) as nat;
        assert(m + 1 == n);
        assert forall|i: int| 0 <= i < t.len() implies between(
            #[trigger] simulate(p, v, t, k, c, tol, n + 1).0[i] as int,
            rest_position(t[i] as int),
            simulate(p, v, t, k, c, tol, n).0[i] as int,
        ) by {
            assert(between(
                simulate(s.0, s.1, t, k, c, tol, m + 1).0[i] as int,
                rest_position(t[i] as int),
                simulate(s.0, s.1, t, k, c, tol, m).0[i] as int,
            ));
        }
    }
}

fn div_trunc_exec(n: i128, d: i128) -> (r: i128)
    requires
        d > 0,
        n > i128::MIN,
    ensures
        r == div_trunc(n as int, d as int),
{
    if n >= 0 {
        n / d
    } else {
        let m: i128 = -n;
        -(m / d)
    }
}

/// The velocity of one component after one millisecond.
pub fn velocity_after(p: i64, v: i64, t: i64, k: i64, c: i64) -> (r: i64)
    requires
        -POSITION_LIMIT <= p <= POSITION_LIMIT,
        -SPEED_LIMIT <= v <= SPEED_LIMIT,
        -COMPONENT_LIMIT <= t <= COMPONENT_LIMIT,
        0 <= k <= 40_000_000_000,
        0 <= c <= 20_000_000_000,
    ensures
        r == next_velocity(p as int, v as int, t as int, k as int, c as int),
{
    let d: i128 = (p as i128) - 1_000_000i128 * (t as i128);
    proof {
        let kk = k as int;
        let dd = d as int;
        assert(-40_000_000_000 * 2_000_000_000_000_000_000 <= kk * dd
            <= 40_000_000_000 * 2_000_000_000_000_000_000) by (nonlinear_arith)
            requires
                0 <= kk <= 40_000_000_000,
                -2_000_000_000_000_000_000 <= dd <= 2_000_000_000_000_000_000,
        ;
    }
    let num: i128 = 1_000_000_000i128 * (v as i128) - (k as i128) * d;
    let den: i128 = 1_000_000_000i128 + 1000i128 * (c as i128) + (k as i128);
    let q = div_trunc_exec(num, den);
    if q > SPEED_LIMIT as i128 {
        SPEED_LIMIT
    } else if q < -(SPEED_LIMIT as i128) {
        -SPEED_LIMIT
    } else {
        q as i64
    }
}

/// The position of one component after one millisecond at the new velocity.
pub fn position_after(p: i64, w: i64) -> (r: i64)
    requires
        -POSITION_LIMIT <= p <= POSITION_LIMIT,
        -SPEED_LIMIT <= w <= SPEED_LIMIT,
    ensures
        r == next_position(p as int, w as int),
{
    let q = p + w;
    if q > POSITION_LIMIT {
        POSITION_LIMIT
    } else if q < -POSITION_LIMIT {
        -POSITION_LIMIT
    } else {
        q
    }
}

/// Whether one component is close enough to its target, and slow enough.
pub fn is_near(p: i64, v: i64, t: i64, tol: Tolerance) -> (r: bool)
    requires
        -POSITION_LIMIT <= p <= POSITION_LIMIT,
        -COMPONENT_LIMIT <= t <= COMPONENT_LIMIT,
        valid_tolerance(tol),
    ensures
        r == near(p as int, v as int, t as int, tol),
{
    let gap: i64 = p - 1_000_000 * t;
    let reach: i64 = 1_000_000 * tol.distance;
    -reach <= gap && gap <= reach && -tol.speed <= v && v <= tol.speed
}

/// Whether every component has arrived and come to rest.
pub fn is_settled(p: &Vec<i64>, v: &Vec<i64>, t: &Vec<i64>, tol: Tolerance) -> (r: bool)
    requires
        p@.len() == t@.len(),
        v@.len() == t@.len(),
        in_range(t@),
        bounded(p@, v@),
        valid_tolerance(tol),
    ensures
        r == settled(p@, v@, t@, tol),
{
    let mut i: usize = 0;
    while i < t.len()
        invariant
            p@.len() == t@.len(),
            v@.len() == t@.len(),
            in_range(t@),
            bounded(p@, v@),
            valid_tolerance(tol),
            i <= t@.len(),
            forall|j: int|
                0 <= j < i ==> near(#[trigger] p@[j] as int, v@[j] as int, t@[j] as int, tol),
        decreases t.len() - i,
    {
        assert(-COMPONENT_LIMIT <= t@[i as int] <= COMPONENT_LIMIT);
        assert(-POSITION_LIMIT <= p@[i as int] <= POSITION_LIMIT);
        if !is_near(p[i], v[i], t[i], tol) {
            return false;
        }
        i += 1;
    }
    true
}

/// The positions of components resting at their targets.
pub fn rest_positions_of(t: &Vec<i64>) -> (r: Vec<i64>)
    requires
        in_range(t@),
    ensures
        r@ == rest_positions(t@),
        bounded(r@, seq![]),
{
    let mut r: Vec<i64> = Vec::new();
    let mut i: usize = 0;
    while i < t.len()
        invariant
            in_range(t@),
            i <= t@.len(),
            r@ == rest_positions(t@).subrange(0, i as int),
        decreases t.len() - i,
    {
        assert(-COMPONENT_LIMIT <= t@[i as int] <= COMPONENT_LIMIT);
        r.push(1_000_000 * t[i]);
        i += 1;
        assert(r@ =~= rest_positions(t@).subrange(0, i as int));
    }
    assert(r@ =~= rest_positions(t@));
    r
}

/// All-zero velocities for `n` components.
pub fn still_of(n: usize) -> (r: Vec<i64>)
    ensures
        r@ == still(n as nat),
{
    let mut r: Vec<i64> = Vec::new();
    let mut i: usize = 0;
    while i < n
        invariant
            i <= n,
            r@ == still(i as nat),
        decreases n - i,
    {
        r.push(0);
        i += 1;
        assert(r@ =~= still(i as nat));
    }
    r
}

/// The component values shown for positions.
pub fn shown_of(p: &Vec<i64>) -> (r: Vec<i64>)
    requires
        bounded(p@, seq![]),
    ensures
        r@ == shown_all(p@),
        in_range(r@),
{
    let mut r: Vec<i64> = Vec::new();
    let mut i: usize = 0;
    while i < p.len()
        invariant
            bounded(p@, seq![]),
            i <= p@.len(),
            r@ == shown_all(p@).subrange(0, i as int),
            in_range(r@),
        decreases p.len() - i,
    {
        let x = p[i];
        assert(-POSITION_LIMIT <= x <= POSITION_LIMIT);
        let y: i64 = if x >= 0 {
            x / 1_000_000
        } else {
            -((-x) / 1_000_000)
        };
        r.push(y);
        i += 1;
        assert(r@ =~= shown_all(p@).subrange(0, i as int));
    }
    assert(r@ =~= shown_all(p@));
    r
}

/// One millisecond of motion for every component, each on its own.
pub fn advance(p: &Vec<i64>, v: &Vec<i64>, t: &Vec<i64>, k: i64, c: i64, tol: Tolerance) -> (r: (
    Vec<i64>,
    Vec<i64>,
))
    requires
        p@.len() == t@.len(),
        v@.len() == t@.len(),
        in_range(t@),
        bounded(p@, v@),
        0 <= k <= 40_000_000_000,
        0 <= c <= 20_000_000_000,
        valid_tolerance(tol),
    ensures
        (r.0@, r.1@) == step(p@, v@, t@, k as int, c as int, tol),
        bounded(r.0@, r.1@),
{
    let ghost s = step(p@, v@, t@, k as int, c as int, tol);
    let mut np: Vec<i64> = Vec::new();
    let mut nv: Vec<i64> = Vec::new();
    let mut i: usize = 0;
    while i < t.len()
        invariant
            p@.len() == t@.len(),
            v@.len() == t@.len(),
            in_range(t@),
            bounded(p@, v@),
            0 <= k <= 40_000_000_000,
            0 <= c <= 20_000_000_000,
            valid_tolerance(tol),
            s == step(p@, v@, t@, k as int, c as int, tol),
            i <= t@.len(),
            np@ == s.0.subrange(0, i as int),
            nv@ == s.1.subrange(0, i as int),
            bounded(np@, nv@),
        decreases t.len() - i,
    {
        assert(-COMPONENT_LIMIT <= t@[i as int] <= COMPONENT_LIMIT);
        assert(-POSITION_LIMIT <= p@[i as int] <= POSITION_LIMIT);
        assert(-SPEED_LIMIT <= v@[i as int] <= SPEED_LIMIT);
        if is_near(p[i], v[i], t[i], tol) {
            np.push(1_000_000 * t[i]);
            nv.push(0);
        } else {
            let w = velocity_after(p[i], v[i], t[i], k, c);
            let x = position_after(p[i], w);
            nv.push(w);
            np.push(x);
        }
        i += 1;
        assert(np@ =~= s.0.subrange(0, i as int));
        assert(nv@ =~= s.1.subrange(0, i as int));
    }
    assert(np@ =~= s.0);
    assert(nv@ =~= s.1);
    (np, nv)
}

} // verus!
