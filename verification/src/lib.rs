//! Keeps a calendar in step with a team-scheduling web site.
//!
//! The verified core covers the three places where this tool makes
//! decisions: normalising the site's locale-specific date and time
//! strings into canonical timestamps, mapping attendance labels between
//! the site's vocabulary and the calendar's, and computing the
//! create/update/cancel/submit actions that bring one side in line with
//! the other.  Fetching pages, calling the calendar service and
//! submitting forms are plain I/O and live outside this crate.

pub mod attendance;
pub mod errors;
pub mod laws;
pub mod normalize;
pub mod office;
pub mod reconcile;
pub mod text;
