//! Spring-driven interpolation of animatable values.
//!
//! A value is decomposed into fixed-point integer components (for a quantity
//! such as a color channel or a size, a million components make one unit).
//! Each component is driven towards its target by a damped harmonic
//! oscillator, simulated one millisecond at a time. The simulation is a pure
//! function of the previous state, the elapsed time and the target.
pub mod animate;
pub mod animated_state;
pub mod checkbox;
pub mod motion;
pub mod physics;
pub mod spring;
pub mod text;

pub use animate::{Animate, Color, Pair};
pub use animated_state::AnimatedState;
pub use motion::{MotionError, SpringMotion};
pub use physics::Tolerance;
pub use spring::{Spring, SpringEvent};
