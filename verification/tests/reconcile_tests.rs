use spielerplus_sync::attendance::AttendanceState;
use spielerplus_sync::errors::SyncError;
use spielerplus_sync::office::CalendarEvent;
use spielerplus_sync::reconcile::cancellation_pass;
use spielerplus_sync::reconcile::reconcile;
use spielerplus_sync::reconcile::parse_event_container_id;
use spielerplus_sync::reconcile::reconcile_pass;
use spielerplus_sync::reconcile::Action;
use spielerplus_sync::reconcile::SourceEvent;

const BODY: &str = "New training found in Spielerplus. Please accept/decline this event.";

fn source_event(id: &str, selected: Option<AttendanceState>) -> SourceEvent {
    SourceEvent {
        external_id: id.to_string(),
        kind: "training".to_string(),
        title: "Practice".to_string(),
        subtitle: "Main pitch".to_string(),
        raw_date: "05/12".to_string(),
        raw_start: "7:00 PM".to_string(),
        raw_midpoint: "-:-".to_string(),
        raw_end: "8:30 PM".to_string(),
        selected_attendance: selected,
    }
}

fn calendar_event(
    id: &str,
    external_id: &str,
    start: &str,
    end: &str,
    response: AttendanceState,
) -> CalendarEvent {
    CalendarEvent {
        id: id.to_string(),
        external_id: external_id.to_string(),
        start: start.to_string(),
        end: end.to_string(),
        attendee_response: response,
    }
}

// A calendar entry that already records the canonical times of
// `source_event`, with the suffix the calendar service appends.
fn settled_calendar_event(id: &str, external_id: &str, response: AttendanceState) -> CalendarEvent {
    calendar_event(
        id,
        external_id,
        "2024-12-05T19:00:00.0000000",
        "2024-12-05T20:30:00.0000000",
        response,
    )
}

#[test]
fn unmatched_source_creates_exactly_one_entry() {
    let sources = vec![source_event("t1", None)];
    let calendar: Vec<CalendarEvent> = Vec::new();
    let actions = reconcile(&sources, "42", &calendar, 2024, 12).unwrap();
    assert_eq!(actions.len(), 1);
    match &actions[0] {
        Action::CreateCalendarEvent { title, body, start, end, location, join_id } => {
            assert_eq!(title, "Practice");
            assert_eq!(body, BODY);
            assert_eq!(start, "2024-12-05T19:00:00");
            assert_eq!(end, "2024-12-05T20:30:00");
            assert_eq!(location, "Main pitch");
            assert_eq!(join_id, "t1");
        }
        _ => panic!("expected a create"),
    }
}

#[test]
fn settled_entry_yields_nothing() {
    let sources = vec![source_event("t1", None)];
    let calendar = vec![settled_calendar_event("c1", "t1", AttendanceState::NoResponse)];
    let actions = reconcile(&sources, "42", &calendar, 2024, 12).unwrap();
    assert_eq!(actions.len(), 0);
}

#[test]
fn drifted_times_are_updated() {
    let sources = vec![source_event("t1", None)];
    let calendar = vec![calendar_event(
        "c1",
        "t1",
        "2024-12-05T18:00:00.0000000",
        "2024-12-05T19:30:00.0000000",
        AttendanceState::NoResponse,
    )];
    let actions = reconcile(&sources, "42", &calendar, 2024, 12).unwrap();
    assert_eq!(actions.len(), 1);
    match &actions[0] {
        Action::UpdateCalendarEventTime { id, start, end } => {
            assert_eq!(id, "c1");
            assert_eq!(start, "2024-12-05T19:00:00");
            assert_eq!(end, "2024-12-05T20:30:00");
        }
        _ => panic!("expected a time update"),
    }
}

#[test]
fn exact_times_count_as_compatible() {
    // The stored timestamp may also be exactly the canonical one.
    let sources = vec![source_event("t1", None)];
    let calendar = vec![calendar_event(
        "c1",
        "t1",
        "2024-12-05T19:00:00",
        "2024-12-05T20:30:00",
        AttendanceState::NoResponse,
    )];
    let actions = reconcile(&sources, "42", &calendar, 2024, 12).unwrap();
    assert_eq!(actions.len(), 0);
}

#[test]
fn calendar_intent_is_pushed_back_when_site_differs() {
    let sources = vec![source_event("t1", Some(AttendanceState::Unsure))];
    let calendar = vec![settled_calendar_event("c1", "t1", AttendanceState::Declined)];
    let actions = reconcile(&sources, "42", &calendar, 2024, 12).unwrap();
    assert_eq!(actions.len(), 1);
    match &actions[0] {
        Action::SubmitAttendance { user_id, external_id, kind, reason, code } => {
            assert_eq!(user_id, "42");
            assert_eq!(external_id, "t1");
            assert_eq!(kind, "training");
            assert_eq!(reason, "-");
            assert_eq!(code, "0");
        }
        _ => panic!("expected an attendance submission"),
    }
}

#[test]
fn unanswered_invite_never_syncs_attendance() {
    // "none" on the calendar means the human has not responded yet:
    // nothing is pushed back, whatever the site shows.
    let sources = vec![source_event("t1", Some(AttendanceState::Accepted))];
    let calendar = vec![settled_calendar_event("c1", "t1", AttendanceState::NoResponse)];
    let actions = reconcile(&sources, "42", &calendar, 2024, 12).unwrap();
    assert_eq!(actions.len(), 0);
}

#[test]
fn missing_site_selection_triggers_sync() {
    let sources = vec![source_event("t1", None)];
    let calendar = vec![settled_calendar_event("c1", "t1", AttendanceState::Accepted)];
    let actions = reconcile(&sources, "42", &calendar, 2024, 12).unwrap();
    assert_eq!(actions.len(), 1);
    match &actions[0] {
        Action::SubmitAttendance { code, .. } => assert_eq!(code, "1"),
        _ => panic!("expected an attendance submission"),
    }
}

#[test]
fn matching_attendance_needs_no_sync() {
    let sources = vec![source_event("t1", Some(AttendanceState::Accepted))];
    let calendar = vec![settled_calendar_event("c1", "t1", AttendanceState::Accepted)];
    let actions = reconcile(&sources, "42", &calendar, 2024, 12).unwrap();
    assert_eq!(actions.len(), 0);
}

#[test]
fn stale_entry_is_cancelled_after_everything_else() {
    let sources = vec![source_event("t1", None)];
    let calendar = vec![
        settled_calendar_event("c1", "t1", AttendanceState::NoResponse),
        settled_calendar_event("c2", "t9", AttendanceState::NoResponse),
    ];
    let actions = reconcile(&sources, "42", &calendar, 2024, 12).unwrap();
    assert_eq!(actions.len(), 1);
    match &actions[0] {
        Action::CancelCalendarEvent { id } => assert_eq!(id, "c2"),
        _ => panic!("expected a cancellation"),
    }
}

#[test]
fn update_comes_before_cancellation() {
    let mut drifted = settled_calendar_event("c1", "t1", AttendanceState::NoResponse);
    drifted.start = "2024-12-05T18:00:00".to_string();
    let sources = vec![source_event("t1", None)];
    let calendar = vec![
        drifted,
        settled_calendar_event("c2", "t9", AttendanceState::NoResponse),
    ];
    let actions = reconcile(&sources, "42", &calendar, 2024, 12).unwrap();
    assert_eq!(actions.len(), 2);
    assert!(matches!(&actions[0], Action::UpdateCalendarEventTime { .. }));
    assert!(matches!(&actions[1], Action::CancelCalendarEvent { .. }));
}

#[test]
fn missing_end_time_aborts() {
    let mut event = source_event("t1", None);
    event.raw_end = "-:-".to_string();
    let calendar: Vec<CalendarEvent> = Vec::new();
    assert!(matches!(
        reconcile(&vec![event], "42", &calendar, 2024, 12),
        Err(SyncError::MissingField)
    ));
}

#[test]
fn missing_start_falls_back_to_midpoint() {
    let mut event = source_event("t1", None);
    event.raw_start = "-:-".to_string();
    event.raw_midpoint = "6:45 PM".to_string();
    let calendar: Vec<CalendarEvent> = Vec::new();
    let actions = reconcile(&vec![event], "42", &calendar, 2024, 12).unwrap();
    match &actions[0] {
        Action::CreateCalendarEvent { start, .. } => {
            assert_eq!(start, "2024-12-05T18:45:00");
        }
        _ => panic!("expected a create"),
    }
}

#[test]
fn no_time_at_all_aborts() {
    let mut event = source_event("t1", None);
    event.raw_start = "-:-".to_string();
    assert!(matches!(
        reconcile(&vec![event], "42", &Vec::new(), 2024, 12),
        Err(SyncError::MissingField)
    ));
}

#[test]
fn second_pass_over_settled_state_is_empty() {
    // First pass: an unknown event is created, and the calendar's
    // declined intent is pushed back for a known one.
    let sources = vec![
        source_event("t1", None),
        source_event_with_id_and_date("t2", "06/12", Some(AttendanceState::Unsure)),
    ];
    let calendar = vec![settled_with_date("c2", "t2", "06/12", AttendanceState::Declined)];
    let first = reconcile(&sources, "42", &calendar, 2024, 12).unwrap();
    assert_eq!(first.len(), 2);

    // The state after those actions ran: the created entry is on the
    // calendar (unanswered, with a service suffix on its times), and
    // the site shows the declined intent.
    let sources2 = vec![
        source_event("t1", None),
        source_event_with_id_and_date("t2", "06/12", Some(AttendanceState::Declined)),
    ];
    let calendar2 = vec![
        settled_with_date("c2", "t2", "06/12", AttendanceState::Declined),
        settled_calendar_event("c9", "t1", AttendanceState::NoResponse),
    ];
    let second = reconcile(&sources2, "42", &calendar2, 2024, 12).unwrap();
    assert_eq!(second.len(), 0);
}

fn source_event_with_id_and_date(
    id: &str,
    date: &str,
    selected: Option<AttendanceState>,
) -> SourceEvent {
    let mut event = source_event(id, selected);
    event.raw_date = date.to_string();
    event
}

fn settled_with_date(
    id: &str,
    external_id: &str,
    date: &str,
    response: AttendanceState,
) -> CalendarEvent {
    let day = &date[0..2];
    let month = &date[3..5];
    calendar_event(
        id,
        external_id,
        &format!("2024-{}-{}T19:00:00.0000000", month, day),
        &format!("2024-{}-{}T20:30:00.0000000", month, day),
        response,
    )
}

#[test]
fn seen_set_accumulates_across_identities() {
    // Two identities, one event each, all against one shared
    // calendar; the cancellation runs once, after both passes.
    let first_identity = vec![source_event("t1", None)];
    let second_identity = vec![source_event_with_id_and_date("t2", "06/12", None)];
    let calendar = vec![
        settled_calendar_event("c1", "t1", AttendanceState::NoResponse),
        settled_with_date("c2", "t2", "06/12", AttendanceState::NoResponse),
        settled_calendar_event("c3", "t9", AttendanceState::NoResponse),
    ];
    let mut seen: Vec<String> = Vec::new();
    let a1 = reconcile_pass(&first_identity, "42", &calendar, 2024, 12, &mut seen).unwrap();
    let a2 = reconcile_pass(&second_identity, "43", &calendar, 2024, 12, &mut seen).unwrap();
    assert_eq!(a1.len(), 0);
    assert_eq!(a2.len(), 0);
    let cancels = cancellation_pass(&calendar, &seen);
    assert_eq!(cancels.len(), 1);
    match &cancels[0] {
        Action::CancelCalendarEvent { id } => assert_eq!(id, "c3"),
        _ => panic!("expected a cancellation"),
    }
}

#[test]
fn first_unreadable_event_aborts_the_pass() {
    let mut bad = source_event("t1", None);
    bad.raw_date = "garbage".to_string();
    let sources = vec![bad, source_event("t2", None)];
    assert!(matches!(
        reconcile(&sources, "42", &Vec::new(), 2024, 12),
        Err(SyncError::MissingField)
    ));
}

#[test]
fn container_id_splits_kind_and_identifier() {
    assert_eq!(
        parse_event_container_id("event-training-12345"),
        Ok(("training".to_string(), "12345".to_string()))
    );
    assert_eq!(
        parse_event_container_id("event-game-7-extra"),
        Ok(("game".to_string(), "7".to_string()))
    );
}

#[test]
fn container_id_without_two_separators_is_missing_a_field() {
    assert_eq!(
        parse_event_container_id("event"),
        Err(SyncError::MissingField)
    );
    assert_eq!(
        parse_event_container_id("event-training"),
        Err(SyncError::MissingField)
    );
}
