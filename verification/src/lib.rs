//! Formation flight for waves of enemies.
//!
//! A [`maker::FormationMaker`] hands one elliptical flight path to a whole
//! batch of enemies before it asks for the next path; [`batches`] states what
//! that means over any number of calls. Coordinates are carried as the bit
//! patterns of IEEE 754 doubles, so the numeric work on them (random draws,
//! trigonometry, square roots) stays with the caller.

pub mod formation;
pub mod maker;
pub mod batches;
