//! The shapes the calendar service answers with, and their distillation
//! into the one record the reconciliation engine reads.
//!
//! The structs mirror the JSON of the calendar service's event-listing
//! answer field for field (the I/O layer owns the wire format and
//! converts into these).  `index_outlook_events` turns such an answer
//! into the engine's calendar snapshot: one entry per embedded site
//! identifier, a later entry replacing an earlier one with the same
//! identifier, just as keying a map does.

use vstd::prelude::*;
use crate::attendance::AttendanceState;
use crate::attendance::from_calendar_response;
use crate::attendance::spec_from_calendar_response;
use crate::errors::SyncError;
use crate::text::str_eq;

verus! {

#[allow(non_snake_case)]
pub struct MicrosoftGetEventsResponseEventTimestamp {
    pub dateTime: String,
    pub timeZone: String,
}

pub struct TimestampView {
    pub dateTime: Seq<char>,
    pub timeZone: Seq<char>,
}

impl DeepView for MicrosoftGetEventsResponseEventTimestamp {
    type V = TimestampView;

    open spec fn deep_view(&self) -> TimestampView {
        TimestampView { dateTime: self.dateTime@, timeZone: self.timeZone@ }
    }
}

pub struct MicrosoftGetEventsResponseEventAttendeeStatus {
    pub response: String,
    pub time: String,
}

pub struct AttendeeStatusView {
    pub response: Seq<char>,
    pub time: Seq<char>,
}

impl DeepView for MicrosoftGetEventsResponseEventAttendeeStatus {
    type V = AttendeeStatusView;

    open spec fn deep_view(&self) -> AttendeeStatusView {
        AttendeeStatusView { response: self.response@, time: self.time@ }
    }
}

/// One attendee of a calendar event.  The wire format calls the first
/// field `type`, which is no identifier here.
pub struct MicrosoftGetEventsResponseEventAttendee {
    pub attendee_type: String,
    pub status: MicrosoftGetEventsResponseEventAttendeeStatus,
}

pub struct AttendeeView {
    pub attendee_type: Seq<char>,
    pub status: AttendeeStatusView,
}

impl DeepView for MicrosoftGetEventsResponseEventAttendee {
    type V = AttendeeView;

    open spec fn deep_view(&self) -> AttendeeView {
        AttendeeView { attendee_type: self.attendee_type@, status: self.status.deep_view() }
    }
}

/// A custom property on a calendar event; the first one carries the
/// site identifier that joins the two systems.
pub struct SingleValueExtendedProperties {
    pub id: String,
    pub value: String,
}

pub struct ExtendedPropertyView {
    pub id: Seq<char>,
    pub value: Seq<char>,
}

impl DeepView for SingleValueExtendedProperties {
    type V = ExtendedPropertyView;

    open spec fn deep_view(&self) -> ExtendedPropertyView {
        ExtendedPropertyView { id: self.id@, value: self.value@ }
    }
}

#[allow(non_snake_case)]
pub struct MicrosoftGetEventsResponseEvent {
    pub id: String,
    pub subject: String,
    pub start: MicrosoftGetEventsResponseEventTimestamp,
    pub end: MicrosoftGetEventsResponseEventTimestamp,
    pub singleValueExtendedProperties: Vec<SingleValueExtendedProperties>,
    pub attendees: Vec<MicrosoftGetEventsResponseEventAttendee>,
}

pub struct EventResponseView {
    pub id: Seq<char>,
    pub subject: Seq<char>,
    pub start: TimestampView,
    pub end: TimestampView,
    pub properties: Seq<ExtendedPropertyView>,
    pub attendees: Seq<AttendeeView>,
}

impl DeepView for MicrosoftGetEventsResponseEvent {
    type V = EventResponseView;

    open spec fn deep_view(&self) -> EventResponseView {
        EventResponseView {
            id: self.id@,
            subject: self.subject@,
            start: self.start.deep_view(),
            end: self.end.deep_view(),
            properties: self.singleValueExtendedProperties.deep_view(),
            attendees: self.attendees.deep_view(),
        }
    }
}

pub struct MicrosoftGetEventsResponse {
    pub value: Vec<MicrosoftGetEventsResponseEvent>,
}

pub struct ResponseView {
    pub value: Seq<EventResponseView>,
}

impl DeepView for MicrosoftGetEventsResponse {
    type V = ResponseView;

    open spec fn deep_view(&self) -> ResponseView {
        ResponseView { value: self.value.deep_view() }
    }
}

/// The one calendar record the engine reads: canonical timestamps, the
/// join key back to the site, and the tracked attendee's last known
/// response.
pub struct CalendarEvent {
    /// Calendar-assigned identifier, opaque to everything but the
    /// calendar collaborator.
    pub id: String,
    /// The site identifier stored on the event as a custom property:
    /// the join key.
    pub external_id: String,
    /// Canonical start timestamp as the calendar reports it (it may
    /// carry a sub-minute or offset suffix).
    pub start: String,
    /// Canonical end timestamp, same form as `start`.
    pub end: String,
    /// Last known response of the single tracked attendee.
    pub attendee_response: AttendanceState,
}

pub struct CalendarEventView {
    pub id: Seq<char>,
    pub external_id: Seq<char>,
    pub start: Seq<char>,
    pub end: Seq<char>,
    pub attendee_response: AttendanceState,
}

impl DeepView for CalendarEvent {
    type V = CalendarEventView;

    open spec fn deep_view(&self) -> CalendarEventView {
        CalendarEventView {
            id: self.id@,
            external_id: self.external_id@,
            start: self.start@,
            end: self.end@,
            attendee_response: self.attendee_response,
        }
    }
}

/// What [`calendar_event_from_response`] returns: the join key is the
/// value of the first custom property, the response is the last
/// attendee's; an event with no custom property or no attendee is
/// missing a field the engine cannot do without.
pub open spec fn spec_event_from_response(e: EventResponseView) -> Result<
    CalendarEventView,
    SyncError,
> {
    if e.properties.len() == 0 {
        Err(SyncError::MissingField)
    } else if e.attendees.len() == 0 {
        Err(SyncError::MissingField)
    } else {
        Ok(
            CalendarEventView {
                id: e.id,
                external_id: e.properties[0].value,
                start: e.start.dateTime,
                end: e.end.dateTime,
                attendee_response: spec_from_calendar_response(e.attendees.last().status.response),
            },
        )
    }
}

/// Distil one listed event into the engine's calendar record.
pub fn calendar_event_from_response(e: &MicrosoftGetEventsResponseEvent) -> (r: Result<
    CalendarEvent,
    SyncError,
>)
    ensures
        match r {
            Ok(c) => spec_event_from_response(e.deep_view()) == Ok::<
                CalendarEventView,
                SyncError,
            >(c.deep_view()),
            Err(er) => spec_event_from_response(e.deep_view()) == Err::<
                CalendarEventView,
                SyncError,
            >(er),
        },
{
    if e.singleValueExtendedProperties.len() == 0 {
        return Err(SyncError::MissingField);
    }
    if e.attendees.len() == 0 {
        return Err(SyncError::MissingField);
    }
    let last = e.attendees.len() - 1;
    let c = CalendarEvent {
        id: e.id.clone(),
        external_id: e.singleValueExtendedProperties[0].value.clone(),
        start: e.start.dateTime.clone(),
        end: e.end.dateTime.clone(),
        attendee_response: from_calendar_response(e.attendees[last].status.response.as_str()),
    };
    Ok(c)
}

/// First position at or after `i` of a calendar entry carrying the
/// join key `k`, or the end of `cal`.
pub open spec fn key_index_from(cal: Seq<CalendarEventView>, k: Seq<char>, i: int) -> int
    decreases cal.len() - i when 0 <= i <= cal.len()
{
    if i < cal.len() && cal[i].external_id != k {
        key_index_from(cal, k, i + 1)
    } else {
        i
    }
}

pub proof fn lemma_key_index_from_bounds(cal: Seq<CalendarEventView>, k: Seq<char>, i: int)
    requires
        0 <= i <= cal.len(),
    ensures
        i <= key_index_from(cal, k, i) <= cal.len(),
        key_index_from(cal, k, i) < cal.len() ==> cal[key_index_from(cal, k, i)].external_id
            == k,
    decreases cal.len() - i,
{
    if i < cal.len() && cal[i].external_id != k {
        lemma_key_index_from_bounds(cal, k, i + 1);
    }
}

/// The calendar entry carrying the join key `k`, if any: the first
/// one, which under the snapshot's uniqueness invariant is the only
/// one.
pub open spec fn spec_lookup(cal: Seq<CalendarEventView>, k: Seq<char>) -> Option<
    CalendarEventView,
> {
    let j = key_index_from(cal, k, 0);
    if j < cal.len() {
        Some(cal[j])
    } else {
        None
    }
}

/// Position of the entry joined to `key`, or the snapshot's length.
pub fn find_key_index(cal: &Vec<CalendarEvent>, key: &str) -> (r: usize)
    ensures
        r == key_index_from(cal.deep_view(), key@, 0),
        r <= cal.len(),
{
    let ghost calv = cal.deep_view();
    let mut i: usize = 0;
    while i < cal.len()
        invariant
            i <= cal.len(),
            calv == cal.deep_view(),
            calv.len() == cal.len(),
            key_index_from(calv, key@, 0) == key_index_from(calv, key@, i as int),
        decreases cal.len() - i,
    {
        proof {
            assert(calv[i as int] == cal[i as int].deep_view());
        }
        if str_eq(cal[i].external_id.as_str(), key) {
            return i;
        }
        i = i + 1;
    }
    i
}

/// Find the calendar entry joined to the site identifier `key`.
pub fn lookup_calendar_event<'a>(cal: &'a Vec<CalendarEvent>, key: &str) -> (r: Option<
    &'a CalendarEvent,
>)
    ensures
        r.deep_view() == spec_lookup(cal.deep_view(), key@),
{
    let j = find_key_index(cal, key);
    if j < cal.len() {
        proof {
            assert(cal.deep_view()[j as int] == cal[j as int].deep_view());
        }
        Some(&cal[j])
    } else {
        None
    }
}

/// Insert `c` into the snapshot: replace the entry with the same join
/// key if one is there, append otherwise.
pub open spec fn spec_upsert(acc: Seq<CalendarEventView>, c: CalendarEventView) -> Seq<
    CalendarEventView,
> {
    let j = key_index_from(acc, c.external_id, 0);
    if j < acc.len() {
        acc.update(j, c)
    } else {
        acc.push(c)
    }
}

/// What [`index_outlook_events`] returns: every listed event distilled
/// and keyed by its join key, a later duplicate replacing an earlier
/// one; the first undistillable event aborts.
pub open spec fn spec_index_events(evs: Seq<EventResponseView>) -> Result<
    Seq<CalendarEventView>,
    SyncError,
>
    decreases evs.len(),
{
    if evs.len() == 0 {
        Ok(Seq::empty())
    } else {
        match spec_index_events(evs.drop_last()) {
            Err(e) => Err(e),
            Ok(acc) => match spec_event_from_response(evs.last()) {
                Err(e) => Err(e),
                Ok(c) => Ok(spec_upsert(acc, c)),
            },
        }
    }
}

/// Once indexing has failed, listing more events does not change the
/// error.
proof fn lemma_index_events_err(evs: Seq<EventResponseView>, k: int, e: SyncError)
    requires
        0 <= k <= evs.len(),
        spec_index_events(evs.take(k)) == Err::<Seq<CalendarEventView>, SyncError>(e),
    ensures
        spec_index_events(evs) == Err::<Seq<CalendarEventView>, SyncError>(e),
    decreases evs.len() - k,
{
    if k < evs.len() {
        assert(evs.take(k + 1).drop_last() =~= evs.take(k));
        lemma_index_events_err(evs, k + 1, e);
    } else {
        assert(evs.take(k) =~= evs);
    }
}

/// No two entries of the snapshot carry the same join key.
pub open spec fn unique_keys(cal: Seq<CalendarEventView>) -> bool {
    forall|i: int, j: int|
        0 <= i < j < cal.len() ==> cal[i].external_id != cal[j].external_id
}

/// Upserting keeps the join keys unique.
proof fn lemma_upsert_unique(acc: Seq<CalendarEventView>, c: CalendarEventView)
    requires
        unique_keys(acc),
    ensures
        unique_keys(spec_upsert(acc, c)),
{
    lemma_key_index_from_first(acc, c.external_id, 0);
    lemma_key_index_from_bounds(acc, c.external_id, 0);
}

/// Everything before the found key position carries another key.
proof fn lemma_key_index_from_first(cal: Seq<CalendarEventView>, k: Seq<char>, i: int)
    requires
        0 <= i <= cal.len(),
    ensures
        forall|j: int|
            i <= j < key_index_from(cal, k, i) ==> cal[j].external_id != k,
    decreases cal.len() - i,
{
    if i < cal.len() && cal[i].external_id != k {
        lemma_key_index_from_first(cal, k, i + 1);
    }
}

/// Build the engine's calendar snapshot from a listing answer: one
/// entry per join key, a later duplicate replacing an earlier one.
pub fn index_outlook_events(resp: &MicrosoftGetEventsResponse) -> (r: Result<
    Vec<CalendarEvent>,
    SyncError,
>)
    ensures
        match r {
            Ok(cal) => spec_index_events(resp.deep_view().value) == Ok::<
                Seq<CalendarEventView>,
                SyncError,
            >(cal.deep_view()) && unique_keys(cal.deep_view()),
            Err(e) => spec_index_events(resp.deep_view().value) == Err::<
                Seq<CalendarEventView>,
                SyncError,
            >(e),
        },
{
    let ghost evs = resp.deep_view().value;
    let mut out: Vec<CalendarEvent> = Vec::new();
    let mut i: usize = 0;
    proof {
        assert(evs.take(0) =~= Seq::<EventResponseView>::empty());
        assert(out.deep_view() =~= Seq::<CalendarEventView>::empty());
    }
    while i < resp.value.len()
        invariant
            i <= resp.value.len(),
            evs == resp.deep_view().value,
            evs.len() == resp.value.len(),
            spec_index_events(evs.take(i as int)) == Ok::<
                Seq<CalendarEventView>,
                SyncError,
            >(out.deep_view()),
            unique_keys(out.deep_view()),
        decreases resp.value.len() - i,
    {
        proof {
            assert(evs[i as int] == resp.value[i as int].deep_view());
            assert(evs.take(i as int + 1).drop_last() =~= evs.take(i as int));
        }
        let c = match calendar_event_from_response(&resp.value[i]) {
            Ok(c) => c,
            Err(e) => {
                proof {
                    lemma_index_events_err(evs, i as int + 1, e);
                }
                return Err(e);
            },
        };
        let ghost accv = out.deep_view();
        let j = find_key_index(&out, c.external_id.as_str());
        proof {
            lemma_upsert_unique(accv, c.deep_view());
        }
        if j < out.len() {
            out.set(j, c);
            proof {
                assert(out.deep_view() =~= accv.update(j as int, c.deep_view()));
            }
        } else {
            out.push(c);
            proof {
                assert(out.deep_view() =~= accv.push(c.deep_view()));
            }
        }
        i = i + 1;
    }
    proof {
        assert(evs.take(i as int) =~= evs);
    }
    Ok(out)
}

} // verus!
