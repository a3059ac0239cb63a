use spielerplus_sync::attendance::from_calendar_response;
use spielerplus_sync::attendance::from_ui_label;
use spielerplus_sync::attendance::selected_attendance_from_label;
use spielerplus_sync::attendance::to_submission_code;
use spielerplus_sync::attendance::AttendanceState;
use spielerplus_sync::errors::SyncError;

#[test]
fn ui_label_german_accepted() {
    assert_eq!(from_ui_label("Zugesagt"), Ok(AttendanceState::Accepted));
}

#[test]
fn ui_label_english_accepted() {
    assert_eq!(from_ui_label("Confirmed"), Ok(AttendanceState::Accepted));
}

#[test]
fn ui_label_unsure_both_languages() {
    assert_eq!(from_ui_label("Unsicher"), Ok(AttendanceState::Unsure));
    assert_eq!(from_ui_label("Unsure"), Ok(AttendanceState::Unsure));
}

#[test]
fn ui_label_declined_both_languages() {
    assert_eq!(from_ui_label("Absagen / Abwesend"), Ok(AttendanceState::Declined));
    assert_eq!(from_ui_label("Declined / Absent"), Ok(AttendanceState::Declined));
}

#[test]
fn ui_label_unknown_is_an_error() {
    assert_eq!(from_ui_label("gibberish"), Err(SyncError::UnknownAttendanceLabel));
}

#[test]
fn ui_label_is_case_sensitive() {
    assert_eq!(from_ui_label("zugesagt"), Err(SyncError::UnknownAttendanceLabel));
}

#[test]
fn calendar_response_none_means_no_response() {
    assert_eq!(from_calendar_response("none"), AttendanceState::NoResponse);
}

#[test]
fn calendar_response_accepted_and_declined() {
    assert_eq!(from_calendar_response("accepted"), AttendanceState::Accepted);
    assert_eq!(from_calendar_response("declined"), AttendanceState::Declined);
}

#[test]
fn calendar_response_tentative_is_unsure() {
    assert_eq!(
        from_calendar_response("tentativelyAccepted"),
        AttendanceState::Unsure
    );
}

#[test]
fn calendar_response_anything_else_is_unsure() {
    assert_eq!(from_calendar_response("organizer"), AttendanceState::Unsure);
    assert_eq!(from_calendar_response(""), AttendanceState::Unsure);
}

#[test]
fn submission_codes() {
    assert_eq!(to_submission_code(AttendanceState::Accepted), "1");
    assert_eq!(to_submission_code(AttendanceState::Unsure), "2");
    assert_eq!(to_submission_code(AttendanceState::Declined), "0");
}

#[test]
fn selected_attendance_absent_stays_absent() {
    assert_eq!(selected_attendance_from_label(None), Ok(None));
}

#[test]
fn selected_attendance_known_label() {
    assert_eq!(
        selected_attendance_from_label(Some("Zugesagt")),
        Ok(Some(AttendanceState::Accepted))
    );
}

#[test]
fn selected_attendance_unknown_label_aborts() {
    assert_eq!(
        selected_attendance_from_label(Some("whatever")),
        Err(SyncError::UnknownAttendanceLabel)
    );
}
