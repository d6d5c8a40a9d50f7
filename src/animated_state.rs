//! A spring that animates a style keyed by a discrete status.
use vstd::prelude::*;
use crate::animate::{in_range, Animate};
use crate::motion::SpringMotion;
use crate::physics::{rest_positions, simulate, still, Tolerance, SETTLE_DISTANCE, SETTLE_SPEED};
use crate::spring::MAX_TICK_MS;
use crate::spring::Spring;

verus! {

/// Milliseconds from the previous tick to `now`: zero on the first tick, and
/// when the clock went backwards.
pub open spec fn elapsed_since(last: Option<u64>, now: u64) -> nat {
    match last {
        Some(prev) => if now >= prev {
            (now - prev) as nat
        } else {
            0
        },
        None => 0,
    }
}

/// The last observed status `S`, and a spring that moves the displayed style
/// `T` towards the style of that status.
///
/// The caller maps a status to its style; the spring only sees targets.
pub struct AnimatedState<S, T: Animate> {
    status: S,
    spring: Spring<T>,
    last_tick: Option<u64>,
}

impl<S, T: Animate> AnimatedState<S, T> {
    /// The last observed status.
    pub closed spec fn status_spec(self) -> S {
        self.status
    }

    /// The spring.
    pub closed spec fn spring_spec(self) -> Spring<T> {
        self.spring
    }

    /// The time of the previous tick, in milliseconds.
    pub closed spec fn last_tick_spec(self) -> Option<u64> {
        self.last_tick
    }

    /// A state at `status`, resting at `style`, the style of that status.
    pub fn new(status: S, style: T, motion: SpringMotion) -> (r: AnimatedState<S, T>)
        requires
            in_range(style.parts()),
        ensures
            r.status_spec() == status,
            r.spring_spec().target_spec() == style,
            r.spring_spec().position_spec() == rest_positions(style.parts()),
            r.spring_spec().velocity_spec() == still(T::count()),
            r.spring_spec().motion_spec() == motion,
            r.spring_spec().tolerance_spec() == (Tolerance {
                distance: SETTLE_DISTANCE,
                speed: SETTLE_SPEED,
            }),
            r.spring_spec().settled_spec(),
            r.last_tick_spec() == None::<u64>,
    {
        AnimatedState { status, spring: Spring::new(style, motion), last_tick: None }
    }

    /// The last observed status.
    pub fn status(&self) -> (r: &S)
        ensures
            *r == self.status_spec(),
    {
        &self.status
    }

    /// The spring.
    pub fn spring(&self) -> (r: &Spring<T>)
        ensures
            *r == self.spring_spec(),
    {
        &self.spring
    }

    /// Takes on `motion` if it differs from the current one; position and
    /// velocity carry over.
    pub fn diff(&mut self, motion: SpringMotion)
        ensures
            final(self).spring_spec().motion_spec() == motion,
            final(self).spring_spec().target_spec() == old(self).spring_spec().target_spec(),
            final(self).spring_spec().position_spec() == old(self).spring_spec().position_spec(),
            final(self).spring_spec().velocity_spec() == old(self).spring_spec().velocity_spec(),
            final(self).spring_spec().tolerance_spec() == old(self).spring_spec().tolerance_spec(),
            final(self).status_spec() == old(self).status_spec(),
            final(self).last_tick_spec() == old(self).last_tick_spec(),
    {
        if self.spring.motion() != motion {
            self.spring.set_motion(motion);
        }
    }

    /// Observes `status`, whose style is `style`: retargets the spring when
    /// the style's components differ from the target's. Returns whether
    /// another frame is needed: the components changed, or the spring has not
    /// settled. Position, velocity, motion and tolerance are untouched, so the
    /// second condition is the spring's state before the call.
    pub fn needs_redraw(&mut self, status: S, style: T) -> (r: bool)
        requires
            in_range(style.parts()),
        ensures
            r == (style.parts() != old(self).spring_spec().goal_spec()
                || !final(self).spring_spec().settled_spec()),
            final(self).status_spec() == status,
            final(self).spring_spec().target_spec() == style,
            final(self).spring_spec().position_spec() == old(self).spring_spec().position_spec(),
            final(self).spring_spec().velocity_spec() == old(self).spring_spec().velocity_spec(),
            final(self).spring_spec().motion_spec() == old(self).spring_spec().motion_spec(),
            final(self).spring_spec().tolerance_spec() == old(self).spring_spec().tolerance_spec(),
            final(self).last_tick_spec() == old(self).last_tick_spec(),
    {
        self.status = status;
        let changed = self.spring.set_target(style);
        changed || !self.spring.has_settled()
    }

    /// Advances the spring by the time since the previous tick; `now` is in
    /// milliseconds.
    pub fn tick(&mut self, now: u64)
        ensures
            final(self).last_tick_spec() == Some(now),
            (
                final(self).spring_spec().position_spec(),
                final(self).spring_spec().velocity_spec(),
            ) == simulate(
                old(self).spring_spec().position_spec(),
                old(self).spring_spec().velocity_spec(),
                old(self).spring_spec().goal_spec(),
                old(self).spring_spec().motion_spec().stiffness_spec(),
                old(self).spring_spec().motion_spec().damping_spec(),
                old(self).spring_spec().tolerance_spec(),
                if elapsed_since(old(self).last_tick_spec(), now) > MAX_TICK_MS {
                    MAX_TICK_MS as nat
                } else {
                    elapsed_since(old(self).last_tick_spec(), now)
                },
            ),
            final(self).spring_spec().target_spec() == old(self).spring_spec().target_spec(),
            final(self).spring_spec().motion_spec() == old(self).spring_spec().motion_spec(),
            final(self).spring_spec().tolerance_spec() == old(self).spring_spec().tolerance_spec(),
            final(self).status_spec() == old(self).status_spec(),
    {
        let elapsed: u64 = match self.last_tick {
            Some(prev) => if now >= prev {
                now - prev
            } else {
                0
            },
            None => 0,
        };
        self.last_tick = Some(now);
        self.spring.tick(elapsed);
    }

    /// Whether another frame is needed before the style of a newly observed
    /// status is known: when the status changed, the target may change with
    /// it; otherwise only while the spring has not settled.
    pub fn needs_frame(&self, status_changed: bool) -> (r: bool)
        ensures
            r == (status_changed || !self.spring_spec().settled_spec()),
    {
        status_changed || !self.spring.has_settled()
    }

    /// The style to draw: the spring's current, interpolated value.
    pub fn current_style(&self) -> (r: T)
        ensures
            r.parts() == self.spring_spec().current_spec(),
    {
        self.spring.value()
    }
}

/// Whether a widget needs another frame. Without a state yet (its first
/// style is only known once it is drawn) one is needed; otherwise as
/// `AnimatedState::needs_frame` says.
pub fn frame_needed<S, T: Animate>(state: Option<&AnimatedState<S, T>>, status_changed: bool) -> (r:
    bool)
    ensures
        r == match state {
            None => true,
            Some(s) => status_changed || !s.spring_spec().settled_spec(),
        },
{
    match state {
        None => true,
        Some(s) => s.needs_frame(status_changed),
    }
}

} // verus!
