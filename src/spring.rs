//! The spring simulator: a value of an animatable type driven towards a
//! target, one millisecond at a time.
use vstd::prelude::*;
use crate::animate::{in_range, Animate};
use crate::motion::{lemma_at_least_critical, SpringMotion};
use crate::physics::{
    advance, approaching, lemma_at_rest_settled, between, bounded, is_settled, lemma_no_overshoot, lemma_rest_stays,
    near, rest_position, rest_positions, rest_positions_of, settled, shown_all, shown_of, simulate,
    step, still, still_of, valid_tolerance, Tolerance, SETTLE_DISTANCE, SETTLE_SPEED,
};

verus! {

/// The longest time that one tick simulates, in milliseconds; a longer gap
/// counts as this long. A minute is longer than any accepted response, so
/// the cap only shortens waits for springs that move very slowly.
pub const MAX_TICK_MS: u64 = 60_000;

} // verus!

verus! {

/// A command that drives a spring.
pub enum SpringEvent<T> {
    /// Move towards a new target, keeping the current position and velocity.
    Target(T),
    /// Let this many milliseconds pass.
    Tick(u64),
    /// Jump onto a value and stop there.
    Settle(T),
}

/// Under a motion with a damping fraction of at least one, components that
/// start at rest and are sent to a new target move monotonically towards it
/// and never past it: after each millisecond, each position lies between the
/// target and the position a millisecond earlier.
pub proof fn lemma_critical_motion_never_overshoots(
    position: Seq<i64>,
    target: Seq<i64>,
    motion: SpringMotion,
    tol: Tolerance,
    n: nat,
)
    requires
        position.len() == target.len(),
        in_range(target),
        bounded(position, still(target.len())),
        motion.response_spec() >= 1,
        motion.damping_fraction_spec() >= 1000,
    ensures
        forall|i: int|
            0 <= i < target.len() ==> between(
                #[trigger] simulate(
                    position,
                    still(target.len()),
                    target,
                    motion.stiffness_spec(),
                    motion.damping_spec(),
                    tol,
                    n + 1,
                ).0[i] as int,
                rest_position(target[i] as int),
                simulate(
                    position,
                    still(target.len()),
                    target,
                    motion.stiffness_spec(),
                    motion.damping_spec(),
                    tol,
                    n,
                ).0[i] as int,
            ),
{
    let r = motion.response_spec();
    let z = motion.damping_fraction_spec();
    let k = motion.stiffness_spec();
    let c = motion.damping_spec();
    let v = still(target.len());
    lemma_at_least_critical(r, z);
    assert(k >= 0) by (nonlinear_arith)
        requires r >= 1, k == 39_478_417_604int / (r * r);
    assert(c >= 0) by (nonlinear_arith)
        requires r >= 1, z >= 1000, c == (z * 12_566_371int + r * 1000 - 1) / (r * 1000);
    assert forall|i: int| 0 <= i < target.len() implies approaching(
        #[trigger] position[i] as int,
        v[i] as int,
        target[i] as int,
        c,
    ) by {
        let d = position[i] - rest_position(target[i] as int);
        assert(c * d >= 0 || c * (-d) >= 0) by (nonlinear_arith)
            requires c >= 0;
    }
    lemma_no_overshoot(position, v, target, k, c, tol, n);
}

/// A value of type `T` moving towards a target under spring motion.
///
/// Each component has a position (in sub-units) and a velocity and moves on
/// its own; all share one motion and one tolerance.
pub struct Spring<T: Animate> {
    position: Vec<i64>,
    velocity: Vec<i64>,
    target: T,
    motion: SpringMotion,
    tolerance: Tolerance,
}

impl<T: Animate> Spring<T> {
    #[verifier::type_invariant]
    spec fn inv(self) -> bool {
        &&& self.position@.len() == T::count()
        &&& self.velocity@.len() == T::count()
        &&& in_range(self.target.parts())
        &&& bounded(self.position@, self.velocity@)
        &&& valid_tolerance(self.tolerance)
    }

    /// The position of each component, in sub-units.
    pub closed spec fn position_spec(self) -> Seq<i64> {
        self.position@
    }

    /// The velocity of each component, in sub-units per millisecond.
    pub closed spec fn velocity_spec(self) -> Seq<i64> {
        self.velocity@
    }

    /// The target value.
    pub closed spec fn target_spec(self) -> T {
        self.target
    }

    /// The motion.
    pub closed spec fn motion_spec(self) -> SpringMotion {
        self.motion
    }

    /// When a component counts as settled.
    pub closed spec fn tolerance_spec(self) -> Tolerance {
        self.tolerance
    }

    /// The components of the target.
    pub open spec fn goal_spec(self) -> Seq<i64> {
        self.target_spec().parts()
    }

    /// The components of the current value.
    pub open spec fn current_spec(self) -> Seq<i64> {
        shown_all(self.position_spec())
    }

    /// Whether every component has arrived and come to rest.
    pub open spec fn settled_spec(self) -> bool {
        settled(self.position_spec(), self.velocity_spec(), self.goal_spec(), self.tolerance_spec())
    }

    /// A spring resting at `initial`, settling within `SETTLE_DISTANCE` and
    /// `SETTLE_SPEED`.
    pub fn new(initial: T, motion: SpringMotion) -> (r: Spring<T>)
        requires
            in_range(initial.parts()),
        ensures
            r.target_spec() == initial,
            r.motion_spec() == motion,
            r.position_spec() == rest_positions(initial.parts()),
            r.velocity_spec() == still(T::count()),
            r.tolerance_spec() == (Tolerance { distance: SETTLE_DISTANCE, speed: SETTLE_SPEED }),
            r.settled_spec(),
    {
        let goal = initial.encode();
        let position = rest_positions_of(&goal);
        let velocity = still_of(goal.len());
        proof {
            lemma_at_rest_settled(goal@, Tolerance { distance: SETTLE_DISTANCE, speed: SETTLE_SPEED });
        }
        Spring { position, velocity, target: initial, motion, tolerance: Tolerance::standard() }
    }

    /// When a component counts as settled.
    pub fn tolerance(&self) -> (r: Tolerance)
        ensures
            r == self.tolerance_spec(),
    {
        self.tolerance
    }

    /// Changes when a component counts as settled; nothing else changes.
    pub fn set_tolerance(&mut self, tolerance: Tolerance)
        requires
            valid_tolerance(tolerance),
        ensures
            final(self).tolerance_spec() == tolerance,
            final(self).motion_spec() == old(self).motion_spec(),
            final(self).target_spec() == old(self).target_spec(),
            final(self).position_spec() == old(self).position_spec(),
            final(self).velocity_spec() == old(self).velocity_spec(),
    {
        proof {
            use_type_invariant(&*self);
        }
        self.tolerance = tolerance;
    }

    /// The current value: the target's type with the current components.
    pub fn value(&self) -> (r: T)
        ensures
            r.parts() == self.current_spec(),
    {
        proof {
            use_type_invariant(self);
        }
        let shown = shown_of(&self.position);
        let mut r = self.target.clone();
        let ghost blank = r;
        r.update(&shown, 0);
        proof {
            assert(shown@.subrange(0, T::count() as int) =~= shown@);
            T::lemma_with_parts(&blank, shown@);
        }
        r
    }

    /// The target value.
    pub fn target(&self) -> (r: &T)
        ensures
            *r == self.target_spec(),
    {
        &self.target
    }

    /// The motion.
    pub fn motion(&self) -> (r: SpringMotion)
        ensures
            r == self.motion_spec(),
    {
        self.motion
    }

    /// The velocity of each component, in sub-units per millisecond.
    pub fn velocity(&self) -> (r: Vec<i64>)
        ensures
            r@ == self.velocity_spec(),
    {
        let mut r: Vec<i64> = Vec::new();
        let mut i: usize = 0;
        while i < self.velocity.len()
            invariant
                i <= self.velocity@.len(),
                r@ == self.velocity@.subrange(0, i as int),
            decreases self.velocity.len() - i,
        {
            r.push(self.velocity[i]);
            i += 1;
            assert(r@ =~= self.velocity@.subrange(0, i as int));
        }
        assert(r@ =~= self.velocity@);
        r
    }

    /// Whether every component is within the tolerance of its target, in
    /// distance and in speed.
    pub fn has_settled(&self) -> (r: bool)
        ensures
            r == self.settled_spec(),
    {
        proof {
            use_type_invariant(self);
        }
        let goal = self.target.encode();
        is_settled(&self.position, &self.velocity, &goal, self.tolerance)
    }

    /// Changes the motion; position and velocity carry over.
    pub fn set_motion(&mut self, motion: SpringMotion)
        ensures
            final(self).motion_spec() == motion,
            final(self).target_spec() == old(self).target_spec(),
            final(self).position_spec() == old(self).position_spec(),
            final(self).velocity_spec() == old(self).velocity_spec(),
            final(self).tolerance_spec() == old(self).tolerance_spec(),
    {
        proof {
            use_type_invariant(&*self);
        }
        self.motion = motion;
    }

    /// Moves towards a new target without touching position or velocity.
    /// Returns whether the target's components changed; when they did not,
    /// the motion is unaffected. The new target value is kept either way, so
    /// that what the components do not hold (whether a color is present)
    /// follows it.
    pub fn set_target(&mut self, target: T) -> (changed: bool)
        requires
            in_range(target.parts()),
        ensures
            changed == (target.parts() != old(self).goal_spec()),
            final(self).target_spec() == target,
            final(self).position_spec() == old(self).position_spec(),
            final(self).velocity_spec() == old(self).velocity_spec(),
            final(self).motion_spec() == old(self).motion_spec(),
            final(self).tolerance_spec() == old(self).tolerance_spec(),
    {
        proof {
            use_type_invariant(&*self);
        }
        let goal = target.encode();
        let old_goal = self.target.encode();
        let mut same = true;
        let mut i: usize = 0;
        while i < goal.len()
            invariant
                goal@.len() == old_goal@.len(),
                i <= goal@.len(),
                same == (forall|j: int| 0 <= j < i ==> goal@[j] == old_goal@[j]),
            decreases goal.len() - i,
        {
            if goal[i] != old_goal[i] {
                same = false;
            }
            i += 1;
        }
        proof {
            if same {
                assert(goal@ =~= old_goal@);
            }
        }
        self.target = target;
        !same
    }

    /// Jumps onto `value`: it becomes both the target and the current value,
    /// with no velocity.
    pub fn settle(&mut self, value: T)
        requires
            in_range(value.parts()),
        ensures
            final(self).target_spec() == value,
            final(self).position_spec() == rest_positions(value.parts()),
            final(self).velocity_spec() == still(T::count()),
            final(self).motion_spec() == old(self).motion_spec(),
            final(self).tolerance_spec() == old(self).tolerance_spec(),
            final(self).settled_spec(),
    {
        proof {
            use_type_invariant(&*self);
        }
        let goal = value.encode();
        let position = rest_positions_of(&goal);
        let velocity = still_of(goal.len());
        proof {
            lemma_at_rest_settled(goal@, self.tolerance);
        }
        *self = Spring {
            position,
            velocity,
            target: value,
            motion: self.motion,
            tolerance: self.tolerance,
        };
    }

    /// Lets `elapsed_ms` milliseconds pass, at most `MAX_TICK_MS` of them.
    pub fn tick(&mut self, elapsed_ms: u64)
        ensures
            (final(self).position_spec(), final(self).velocity_spec()) == simulate(
                old(self).position_spec(),
                old(self).velocity_spec(),
                old(self).goal_spec(),
                old(self).motion_spec().stiffness_spec(),
                old(self).motion_spec().damping_spec(),
                old(self).tolerance_spec(),
                if elapsed_ms > MAX_TICK_MS {
                    MAX_TICK_MS as nat
                } else {
                    elapsed_ms as nat
                },
            ),
            elapsed_ms == 0 ==> final(self).position_spec() == old(self).position_spec()
                && final(self).velocity_spec() == old(self).velocity_spec(),
            final(self).target_spec() == old(self).target_spec(),
            final(self).motion_spec() == old(self).motion_spec(),
            final(self).tolerance_spec() == old(self).tolerance_spec(),
    {
        proof {
            use_type_invariant(&*self);
        }
        let k = self.motion.stiffness();
        let c = self.motion.damping();
        let tol = self.tolerance;
        let goal = self.target.encode();
        let ghost p0 = self.position@;
        let ghost v0 = self.velocity@;
        let ghost t = goal@;
        let ghost kk = k as int;
        let ghost cc = c as int;
        let total: u64 = if elapsed_ms > MAX_TICK_MS {
            MAX_TICK_MS
        } else {
            elapsed_ms
        };
        let mut left: u64 = total;
        while left > 0
            invariant
                goal@ == t,
                t == self.target.parts(),
                t.len() == T::count(),
                self.target == old(self).target,
                self.motion == old(self).motion,
                self.tolerance == tol,
                valid_tolerance(tol),
                self.position@.len() == t.len(),
                self.velocity@.len() == t.len(),
                in_range(t),
                bounded(self.position@, self.velocity@),
                0 <= k <= 40_000_000_000,
                0 <= c <= 20_000_000_000,
                kk == k,
                cc == c,
                simulate(p0, v0, t, kk, cc, tol, total as nat) == simulate(
                    self.position@,
                    self.velocity@,
                    t,
                    kk,
                    cc,
                    tol,
                    left as nat,
                ),
            decreases left,
        {
            let ghost before = (self.position@, self.velocity@);
            if is_settled(&self.position, &self.velocity, &goal, tol) {
                let position = rest_positions_of(&goal);
                let velocity = still_of(goal.len());
                proof {
                    let s = step(before.0, before.1, t, kk, cc, tol);
                    assert forall|i: int| 0 <= i < t.len() implies near(
                        #[trigger] before.0[i] as int,
                        before.1[i] as int,
                        t[i] as int,
                        tol,
                    ) by {}
                    assert(s.0 =~= position@);
                    assert(s.1 =~= velocity@);
                    lemma_rest_stays(t, kk, cc, tol, (left - 1) as nat);
                    lemma_rest_stays(t, kk, cc, tol, left as nat);
                }
                assert(bounded(position@, self.velocity@));
                self.position = position;
                self.velocity = velocity;
                left = 0;
            } else {
                let (position, velocity) = advance(
                    &self.position,
                    &self.velocity,
                    &goal,
                    k,
                    c,
                    tol,
                );
                assert(bounded(position@, self.velocity@));
                self.position = position;
                self.velocity = velocity;
                left = left - 1;
            }
        }
    }

    /// Applies an event.
    pub fn update(&mut self, event: SpringEvent<T>)
        requires
            match event {
                SpringEvent::Target(t) => in_range(t.parts()),
                SpringEvent::Settle(t) => in_range(t.parts()),
                SpringEvent::Tick(_) => true,
            },
        ensures
            match event {
                SpringEvent::Target(t) => {
                    &&& final(self).target_spec() == t
                    &&& final(self).position_spec() == old(self).position_spec()
                    &&& final(self).velocity_spec() == old(self).velocity_spec()
                }
                SpringEvent::Tick(ms) => {
                    &&& (final(self).position_spec(), final(self).velocity_spec()) == simulate(
                        old(self).position_spec(),
                        old(self).velocity_spec(),
                        old(self).goal_spec(),
                        old(self).motion_spec().stiffness_spec(),
                        old(self).motion_spec().damping_spec(),
                        old(self).tolerance_spec(),
                        if ms > MAX_TICK_MS {
                            MAX_TICK_MS as nat
                        } else {
                            ms as nat
                        },
                    )
                    &&& final(self).target_spec() == old(self).target_spec()
                }
                SpringEvent::Settle(t) => {
                    &&& final(self).target_spec() == t
                    &&& final(self).position_spec() == rest_positions(t.parts())
                    &&& final(self).velocity_spec() == still(T::count())
                }
            },
            final(self).motion_spec() == old(self).motion_spec(),
            final(self).tolerance_spec() == old(self).tolerance_spec(),
    {
        match event {
            SpringEvent::Target(t) => {
                self.set_target(t);
            },
            SpringEvent::Tick(ms) => self.tick(ms),
            SpringEvent::Settle(t) => self.settle(t),
        }
    }
}

} // verus!
