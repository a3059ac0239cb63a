//! Maps between the site's three-state attendance vocabulary and the
//! calendar's attendee-response vocabulary, in both directions.

use vstd::prelude::*;
use crate::errors::SyncError;
use crate::text::str_eq;

verus! {

/// The three-way attendance domain shared by the site and the
/// calendar, plus `NoResponse` for an invite the attendee has not
/// answered yet.  `NoResponse` means "don't touch": it is never pushed
/// back to the site.
#[derive(Clone, Copy, Debug, PartialEq, Eq, Structural)]
pub enum AttendanceState {
    Accepted,
    Unsure,
    Declined,
    NoResponse,
}

impl DeepView for AttendanceState {
    type V = AttendanceState;

    open spec fn deep_view(&self) -> AttendanceState {
        *self
    }
}

/// What [`from_calendar_response`] returns for a given calendar
/// response string: "none" marks an unanswered invite, "accepted" and
/// "declined" map to themselves, and everything else — including
/// "tentativelyAccepted" — counts as unsure.
pub open spec fn spec_from_calendar_response(s: Seq<char>) -> AttendanceState {
    if s == "none"@ {
        AttendanceState::NoResponse
    } else if s == "accepted"@ {
        AttendanceState::Accepted
    } else if s == "declined"@ {
        AttendanceState::Declined
    } else {
        AttendanceState::Unsure
    }
}

/// Translate a calendar attendee-response string into the shared
/// attendance domain.
pub fn from_calendar_response(s: &str) -> (r: AttendanceState)
    ensures
        r == spec_from_calendar_response(s@),
{
    if str_eq(s, "none") {
        AttendanceState::NoResponse
    } else if str_eq(s, "accepted") {
        AttendanceState::Accepted
    } else if str_eq(s, "declined") {
        AttendanceState::Declined
    } else {
        AttendanceState::Unsure
    }
}

/// What [`from_ui_label`] returns: the closed set of bilingual labels
/// the site shows on its attendance buttons.  Anything else is an
/// error, because an unrecognized label means the site's markup
/// changed and must not be silently guessed.
pub open spec fn spec_from_ui_label(s: Seq<char>) -> Result<AttendanceState, SyncError> {
    if s == "Zugesagt"@ || s == "Confirmed"@ {
        Ok(AttendanceState::Accepted)
    } else if s == "Unsicher"@ || s == "Unsure"@ {
        Ok(AttendanceState::Unsure)
    } else if s == "Absagen / Abwesend"@ || s == "Declined / Absent"@ {
        Ok(AttendanceState::Declined)
    } else {
        Err(SyncError::UnknownAttendanceLabel)
    }
}

/// Translate one of the site's attendance button labels into the
/// shared attendance domain, failing fast on anything unrecognized.
pub fn from_ui_label(s: &str) -> (r: Result<AttendanceState, SyncError>)
    ensures
        r == spec_from_ui_label(s@),
{
    if str_eq(s, "Zugesagt") || str_eq(s, "Confirmed") {
        Ok(AttendanceState::Accepted)
    } else if str_eq(s, "Unsicher") || str_eq(s, "Unsure") {
        Ok(AttendanceState::Unsure)
    } else if str_eq(s, "Absagen / Abwesend") || str_eq(s, "Declined / Absent") {
        Ok(AttendanceState::Declined)
    } else {
        Err(SyncError::UnknownAttendanceLabel)
    }
}

/// The site's submission code for a concrete attendance decision.
/// `NoResponse` is never submitted, so it gets the empty string here
/// and is ruled out by the callers.
pub open spec fn spec_submission_code(a: AttendanceState) -> Seq<char> {
    match a {
        AttendanceState::Accepted => "1"@,
        AttendanceState::Unsure => "2"@,
        AttendanceState::Declined => "0"@,
        AttendanceState::NoResponse => Seq::<char>::empty(),
    }
}

/// The form code the site expects when an attendance decision is
/// pushed back to it.
pub fn to_submission_code(a: AttendanceState) -> (r: &'static str)
    requires
        a != AttendanceState::NoResponse,
    ensures
        r@ == spec_submission_code(a),
{
    match a {
        AttendanceState::Accepted => "1",
        AttendanceState::Unsure => "2",
        AttendanceState::Declined => "0",
        AttendanceState::NoResponse => "",
    }
}

/// What [`selected_attendance_from_label`] returns: an absent label
/// stays absent, a present one must be a recognized button label.
pub open spec fn spec_selected_attendance(label: Option<Seq<char>>) -> Result<
    Option<AttendanceState>,
    SyncError,
> {
    match label {
        None => Ok(None),
        Some(s) => match spec_from_ui_label(s) {
            Ok(a) => Ok(Some(a)),
            Err(e) => Err(e),
        },
    }
}

/// Translate the (possibly absent) selected attendance button of a
/// scraped event.  No selection is a legitimate state; an unreadable
/// selection aborts the run.
pub fn selected_attendance_from_label(label: Option<&str>) -> (r: Result<
    Option<AttendanceState>,
    SyncError,
>)
    ensures
        r == spec_selected_attendance(label.deep_view()),
{
    match label {
        None => Ok(None),
        Some(s) => match from_ui_label(s) {
            Ok(a) => Ok(Some(a)),
            Err(e) => Err(e),
        },
    }
}

} // verus!
