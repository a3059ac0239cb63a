use spielerplus_sync::attendance::AttendanceState;
use spielerplus_sync::errors::SyncError;
use spielerplus_sync::office::calendar_event_from_response;
use spielerplus_sync::office::index_outlook_events;
use spielerplus_sync::office::lookup_calendar_event;
use spielerplus_sync::office::CalendarEvent;
use spielerplus_sync::office::MicrosoftGetEventsResponse;
use spielerplus_sync::office::MicrosoftGetEventsResponseEvent;
use spielerplus_sync::office::MicrosoftGetEventsResponseEventAttendee;
use spielerplus_sync::office::MicrosoftGetEventsResponseEventAttendeeStatus;
use spielerplus_sync::office::MicrosoftGetEventsResponseEventTimestamp;
use spielerplus_sync::office::SingleValueExtendedProperties;

fn timestamp(s: &str) -> MicrosoftGetEventsResponseEventTimestamp {
    MicrosoftGetEventsResponseEventTimestamp {
        dateTime: s.to_string(),
        timeZone: "Europe/Zurich".to_string(),
    }
}

fn attendee(response: &str) -> MicrosoftGetEventsResponseEventAttendee {
    MicrosoftGetEventsResponseEventAttendee {
        attendee_type: "required".to_string(),
        status: MicrosoftGetEventsResponseEventAttendeeStatus {
            response: response.to_string(),
            time: "0001-01-01T00:00:00Z".to_string(),
        },
    }
}

fn listed_event(id: &str, sp_id: &str, response: &str) -> MicrosoftGetEventsResponseEvent {
    MicrosoftGetEventsResponseEvent {
        id: id.to_string(),
        subject: "Practice".to_string(),
        start: timestamp("2024-12-05T19:00:00.0000000"),
        end: timestamp("2024-12-05T20:30:00.0000000"),
        singleValueExtendedProperties: vec![SingleValueExtendedProperties {
            id: "SP_ID".to_string(),
            value: sp_id.to_string(),
        }],
        attendees: vec![attendee(response)],
    }
}

#[test]
fn distils_one_event() {
    let event = listed_event("c1", "t1", "declined");
    let record = calendar_event_from_response(&event).unwrap();
    assert_eq!(record.id, "c1");
    assert_eq!(record.external_id, "t1");
    assert_eq!(record.start, "2024-12-05T19:00:00.0000000");
    assert_eq!(record.end, "2024-12-05T20:30:00.0000000");
    assert_eq!(record.attendee_response, AttendanceState::Declined);
}

#[test]
fn last_attendee_decides_the_response() {
    let mut event = listed_event("c1", "t1", "accepted");
    event.attendees.push(attendee("tentativelyAccepted"));
    let record = calendar_event_from_response(&event).unwrap();
    assert_eq!(record.attendee_response, AttendanceState::Unsure);
}

#[test]
fn event_without_join_property_is_missing_a_field() {
    let mut event = listed_event("c1", "t1", "none");
    event.singleValueExtendedProperties.clear();
    assert!(matches!(
        calendar_event_from_response(&event),
        Err(SyncError::MissingField)
    ));
}

#[test]
fn event_without_attendees_is_missing_a_field() {
    let mut event = listed_event("c1", "t1", "none");
    event.attendees.clear();
    assert!(matches!(
        calendar_event_from_response(&event),
        Err(SyncError::MissingField)
    ));
}

#[test]
fn indexing_keys_by_the_join_property() {
    let response = MicrosoftGetEventsResponse {
        value: vec![
            listed_event("c1", "t1", "none"),
            listed_event("c2", "t2", "accepted"),
        ],
    };
    let calendar = index_outlook_events(&response).unwrap();
    assert_eq!(calendar.len(), 2);
    assert_eq!(calendar[0].external_id, "t1");
    assert_eq!(calendar[1].external_id, "t2");
}

#[test]
fn later_duplicate_replaces_earlier_entry() {
    let response = MicrosoftGetEventsResponse {
        value: vec![
            listed_event("c1", "t1", "none"),
            listed_event("c2", "t1", "accepted"),
        ],
    };
    let calendar = index_outlook_events(&response).unwrap();
    assert_eq!(calendar.len(), 1);
    assert_eq!(calendar[0].id, "c2");
    assert_eq!(calendar[0].attendee_response, AttendanceState::Accepted);
}

#[test]
fn one_bad_event_aborts_indexing() {
    let mut bad = listed_event("c2", "t2", "none");
    bad.attendees.clear();
    let response = MicrosoftGetEventsResponse {
        value: vec![listed_event("c1", "t1", "none"), bad],
    };
    assert!(matches!(
        index_outlook_events(&response),
        Err(SyncError::MissingField)
    ));
}

#[test]
fn lookup_finds_the_joined_entry() {
    let calendar: Vec<CalendarEvent> = index_outlook_events(&MicrosoftGetEventsResponse {
        value: vec![
            listed_event("c1", "t1", "none"),
            listed_event("c2", "t2", "accepted"),
        ],
    })
    .unwrap();
    let found = lookup_calendar_event(&calendar, "t2").unwrap();
    assert_eq!(found.id, "c2");
    assert!(lookup_calendar_event(&calendar, "t9").is_none());
}
