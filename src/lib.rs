//! Test support for a frame-driven application runtime: a per-type backlog
//! that hands out at most one scheduled event per frame, and the decisions
//! behind the checks that a test runs at the end of each frame.

pub mod assertion;
pub mod schedule;
