//! Single-instance wallpaper cycler: a lockfile-based instance guard and a
//! timed wallpaper-change loop, modeled as verified state machines.
//!
//! The library holds the decision logic: the marker-file mutual-exclusion
//! model ([`guard`]), the control loop that alternates a wallpaper-change
//! delegation with a timed suspension ([`control`]), and the interval
//! parser ([`parse`]). The process-level glue (filesystem marker, external
//! tools, sleeping) performs the actions this library decides on.

pub mod control;
pub mod guard;
pub mod parse;
