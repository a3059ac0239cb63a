use vstd::prelude::*;

verus! {

/// The reasons a reconciliation run aborts.  Every error is terminal
/// for the run: nothing is retried, and the next scheduled invocation
/// recovers by starting over from a fresh scrape and a fresh calendar
/// fetch.
#[derive(Clone, Copy, Debug, PartialEq, Eq, Structural)]
pub enum SyncError {
    /// An expected page structure or selector was absent: the site
    /// changed its markup, or the login did not reach the events page.
    MarkupMismatch,
    /// An attendance label on the site matched none of the known ones.
    UnknownAttendanceLabel,
    /// A collaborator call answered with a status outside its
    /// documented success code.
    UnexpectedStatus,
    /// An expected value was absent, such as an event identifier, a
    /// usable timestamp, or the tracked attendee on a calendar entry.
    MissingField,
    /// A required configuration setting was absent.
    ConfigMissing,
}

} // verus!
