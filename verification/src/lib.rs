//! Gameplay core of an arcade shoot-'em-up: a squadron of aliens that
//! shuffles across the playfield in formation, a player ship, the single
//! projectile each side may have in flight, and the rules of one round.
//!
//! The library draws nothing and reads no keys. A shell hands it the
//! player's wishes and the time, once per frame, and draws what it finds
//! afterwards.
//!
//! # Conventions
//!
//! Coordinates, speeds and distances are integers counted in thousandths of
//! a playfield unit; arithmetic on them stops at the edge of the `i32`
//! range instead of wrapping. Rising x is to the left and rising y is up.
//! The clock is handed in by the caller as milliseconds since a moment of
//! the caller's choosing; timers count whole seconds.
//!
//! # Layout
//!
//! - [`units`]: fixed-point arithmetic and the clock.
//! - [`collision`]: the tolerance test between two points.
//! - [`lifecycle`]: alive, dying, dead.
//! - [`chance`] and [`explosion`]: the random scatter of fragments.
//! - [`bullet`]: a projectile in flight.
//! - [`alien`]: one alien.
//! - [`formation`]: the squadron as plain values, and what holds of it.
//! - [`aliens`]: the squadron itself.
//! - [`hero`]: the player's ship.
//! - [`game`]: score, lives, and the tick of a round.
//!
//! Each type with state has a ghost model of plain values, its view, and
//! every function states what it does as a function on models.

pub mod units;
pub mod collision;
pub mod lifecycle;
pub mod chance;
pub mod explosion;
pub mod bullet;
pub mod alien;
pub mod formation;
pub mod aliens;
pub mod hero;
pub mod game;
