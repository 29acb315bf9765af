//! Frame-by-frame output generators for small light and sound displays.
//!
//! Three generators, independent of one another, each decide what a display
//! shows next from what it showed last:
//!
//! * [`color_walk`]: one pixel whose colour wanders, one channel at a time,
//!   and turns round at the ends of the channel's range;
//! * [`pattern`]: a strip of pixels in a repeating blue, green, red pattern
//!   that moves one slot per tick;
//! * [`tone`], [`sequencer`] and [`songs`]: a melody player that turns
//!   frequencies into timer periods and note lengths into hold times, started
//!   by a gate input, and a melody for it.
//!
//! The generators compute; sending frames to a strip, programming a timer,
//! reading inputs and sleeping are the caller's business.

pub mod color_walk;
pub mod pattern;
pub mod pixel;
pub mod sequencer;
pub mod songs;
pub mod tone;
