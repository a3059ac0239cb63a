//! The reconciliation engine: a single-pass diff between the scraped
//! event snapshot and the calendar snapshot, both keyed by the site
//! identifier embedded in each.
//!
//! The site is authoritative for scheduling — which events exist and
//! when — so times flow site-to-calendar as creates and updates.  The
//! calendar is authoritative for attendance intent — the human edits
//! their response there — so attendance flows calendar-to-site as
//! submissions.  Calendar entries whose site identifier no longer
//! appears anywhere are cancelled after the whole pass, once the set
//! of seen identifiers is complete.

use vstd::prelude::*;
use vstd::string::StrSliceExecFns;
use crate::attendance::AttendanceState;
use crate::attendance::spec_submission_code;
use crate::attendance::to_submission_code;
use crate::errors::SyncError;
use crate::normalize::format_local_datetime;
use crate::normalize::norm_time;
use crate::normalize::normalize_date;
use crate::normalize::parse_sp_timestring;
use crate::normalize::spec_local_datetime;
use crate::normalize::spec_normalize_date;
use crate::office::CalendarEvent;
use crate::office::CalendarEventView;
use crate::office::lookup_calendar_event;
use crate::office::spec_lookup;
use crate::text::str_starts_with;

verus! {

/// One event as scraped from the site, rebuilt fresh every run.
pub struct SourceEvent {
    /// Unique key extracted from the event container's identifier;
    /// stable across runs, the join key to the calendar.
    pub external_id: String,
    /// Event category tag, such as "training" or "game".
    pub kind: String,
    pub title: String,
    /// May be empty; becomes the calendar entry's location.
    pub subtitle: String,
    /// Locale date string, `"DD/MM"`.
    pub raw_date: String,
    /// Raw time strings; any may be the "no time" sentinel.
    pub raw_start: String,
    pub raw_midpoint: String,
    pub raw_end: String,
    /// The attendance the site currently shows as selected, absent
    /// when the user has not responded there yet.
    pub selected_attendance: Option<AttendanceState>,
}

pub struct SourceEventView {
    pub external_id: Seq<char>,
    pub kind: Seq<char>,
    pub title: Seq<char>,
    pub subtitle: Seq<char>,
    pub raw_date: Seq<char>,
    pub raw_start: Seq<char>,
    pub raw_midpoint: Seq<char>,
    pub raw_end: Seq<char>,
    pub selected_attendance: Option<AttendanceState>,
}

impl DeepView for SourceEvent {
    type V = SourceEventView;

    open spec fn deep_view(&self) -> SourceEventView {
        SourceEventView {
            external_id: self.external_id@,
            kind: self.kind@,
            title: self.title@,
            subtitle: self.subtitle@,
            raw_date: self.raw_date@,
            raw_start: self.raw_start@,
            raw_midpoint: self.raw_midpoint@,
            raw_end: self.raw_end@,
            selected_attendance: self.selected_attendance,
        }
    }
}

/// One command for the collaborators; the engine only decides, the
/// I/O layer carries the commands out, each attempted once.
pub enum Action {
    CreateCalendarEvent {
        title: String,
        body: String,
        start: String,
        end: String,
        location: String,
        join_id: String,
    },
    UpdateCalendarEventTime { id: String, start: String, end: String },
    SubmitAttendance {
        user_id: String,
        external_id: String,
        kind: String,
        reason: String,
        code: String,
    },
    CancelCalendarEvent { id: String },
}

pub enum ActionView {
    CreateCalendarEvent {
        title: Seq<char>,
        body: Seq<char>,
        start: Seq<char>,
        end: Seq<char>,
        location: Seq<char>,
        join_id: Seq<char>,
    },
    UpdateCalendarEventTime { id: Seq<char>, start: Seq<char>, end: Seq<char> },
    SubmitAttendance {
        user_id: Seq<char>,
        external_id: Seq<char>,
        kind: Seq<char>,
        reason: Seq<char>,
        code: Seq<char>,
    },
    CancelCalendarEvent { id: Seq<char> },
}

impl DeepView for Action {
    type V = ActionView;

    open spec fn deep_view(&self) -> ActionView {
        match self {
            Action::CreateCalendarEvent { title, body, start, end, location, join_id } => {
                ActionView::CreateCalendarEvent {
                    title: title@,
                    body: body@,
                    start: start@,
                    end: end@,
                    location: location@,
                    join_id: join_id@,
                }
            },
            Action::UpdateCalendarEventTime { id, start, end } => {
                ActionView::UpdateCalendarEventTime { id: id@, start: start@, end: end@ }
            },
            Action::SubmitAttendance { user_id, external_id, kind, reason, code } => {
                ActionView::SubmitAttendance {
                    user_id: user_id@,
                    external_id: external_id@,
                    kind: kind@,
                    reason: reason@,
                    code: code@,
                }
            },
            Action::CancelCalendarEvent { id } => {
                ActionView::CancelCalendarEvent { id: id@ }
            },
        }
    }
}

/// What [`parse_event_container_id`] returns: the category tag and
/// the site identifier read from an event container identifier of
/// the form `<prefix>-<kind>-<id>`.  The tag sits between the first
/// two separators, the identifier between the second and the third
/// (or the end); an identifier with fewer than two separators is
/// missing a field.
pub open spec fn spec_container_id(s: Seq<char>) -> Result<(Seq<char>, Seq<char>), SyncError> {
    let d1 = crate::text::find_from(s, 0, '-');
    if d1 >= s.len() {
        Err(SyncError::MissingField)
    } else {
        let d2 = crate::text::find_from(s, d1 + 1, '-');
        if d2 >= s.len() {
            Err(SyncError::MissingField)
        } else {
            let d3 = crate::text::find_from(s, d2 + 1, '-');
            Ok((s.subrange(d1 + 1, d2), s.subrange(d2 + 1, d3)))
        }
    }
}

/// Split an event container identifier into the event's category tag
/// and its site identifier, the join key.  See [`spec_container_id`].
pub fn parse_event_container_id(container_id: &str) -> (r: Result<(String, String), SyncError>)
    ensures
        match r {
            Ok(p) => spec_container_id(container_id@) == Ok::<
                (Seq<char>, Seq<char>),
                SyncError,
            >((p.0@, p.1@)),
            Err(e) => spec_container_id(container_id@) == Err::<
                (Seq<char>, Seq<char>),
                SyncError,
            >(e),
        },
{
    let len = container_id.unicode_len();
    let d1 = crate::text::scan_find(container_id, 0, '-');
    if d1 == len {
        return Err(SyncError::MissingField);
    }
    let d2 = crate::text::scan_find(container_id, d1 + 1, '-');
    if d2 == len {
        return Err(SyncError::MissingField);
    }
    let d3 = crate::text::scan_find(container_id, d2 + 1, '-');
    let kind = container_id.substring_char(d1 + 1, d2).to_owned();
    let id = container_id.substring_char(d2 + 1, d3).to_owned();
    Ok((kind, id))
}

/// The canonical start time of a source event: the start field, or
/// the midpoint field when the start is unreadable or "no time".
pub open spec fn spec_start_time(e: SourceEventView) -> Option<Seq<char>> {
    match norm_time(e.raw_start) {
        Some(t) => Some(t),
        None => norm_time(e.raw_midpoint),
    }
}

/// The canonical start and end timestamps of a source event, absent
/// when a time or the date cannot be read.
pub open spec fn spec_event_times(e: SourceEventView, ry: int, rm: int) -> Option<
    (Seq<char>, Seq<char>),
> {
    match (spec_start_time(e), norm_time(e.raw_end)) {
        (Some(st), Some(en)) => match spec_normalize_date(e.raw_date, ry, rm) {
            Ok(ymd) => Some(
                (
                    spec_local_datetime(ymd.0, ymd.1, ymd.2, st),
                    spec_local_datetime(ymd.0, ymd.1, ymd.2, en),
                ),
            ),
            Err(_) => None,
        },
        _ => None,
    }
}

/// The calendar already records these canonical timestamps: each must
/// be a prefix of what the calendar stores, which tolerates the
/// sub-minute or offset suffixes the calendar service appends.
pub open spec fn time_compatible(c: CalendarEventView, start: Seq<char>, end: Seq<char>) -> bool {
    start.is_prefix_of(c.start) && end.is_prefix_of(c.end)
}

/// Whether the site's selected attendance calls for a submission when
/// the calendar's intent is `target`: absence of a selection counts
/// as differing from every concrete state.
pub open spec fn attendance_differs(sel: Option<AttendanceState>, target: AttendanceState) -> bool {
    match sel {
        Some(cur) => cur != target,
        None => true,
    }
}

/// The body every created calendar entry carries.
pub open spec fn spec_create_body() -> Seq<char> {
    "New training found in Spielerplus. Please accept/decline this event."@
}

/// What [`reconcile_event`] emits for one source event.
///
/// An unmatched event yields one create carrying the join key; a
/// matched one yields a time update when the stored timestamps no
/// longer extend the canonical ones, and an attendance submission
/// when the calendar shows a concrete intent the site does not share.
/// An unanswered calendar invite (`NoResponse`) never triggers a
/// submission.  An unreadable time or date is a missing field and
/// aborts the run.
pub open spec fn spec_event_actions(
    e: SourceEventView,
    user: Seq<char>,
    cal: Seq<CalendarEventView>,
    ry: int,
    rm: int,
) -> Result<Seq<ActionView>, SyncError> {
    match spec_event_times(e, ry, rm) {
        None => Err(SyncError::MissingField),
        Some(times) => match spec_lookup(cal, e.external_id) {
            None => Ok(
                seq![
                    ActionView::CreateCalendarEvent {
                        title: e.title,
                        body: spec_create_body(),
                        start: times.0,
                        end: times.1,
                        location: e.subtitle,
                        join_id: e.external_id,
                    },
                ],
            ),
            Some(c) => {
                let time_acts: Seq<ActionView> = if !time_compatible(c, times.0, times.1) {
                    seq![
                        ActionView::UpdateCalendarEventTime {
                            id: c.id,
                            start: times.0,
                            end: times.1,
                        },
                    ]
                } else {
                    Seq::empty()
                };
                let att_acts: Seq<ActionView> = if c.attendee_response
                    != AttendanceState::NoResponse && attendance_differs(
                    e.selected_attendance,
                    c.attendee_response,
                ) {
                    seq![
                        ActionView::SubmitAttendance {
                            user_id: user,
                            external_id: e.external_id,
                            kind: e.kind,
                            reason: "-"@,
                            code: spec_submission_code(c.attendee_response),
                        },
                    ]
                } else {
                    Seq::empty()
                };
                Ok(time_acts + att_acts)
            },
        },
    }
}

/// Diff one source event against the calendar snapshot.  See
/// [`spec_event_actions`] for what is emitted.
pub fn reconcile_event(
    e: &SourceEvent,
    user_id: &str,
    calendar: &Vec<CalendarEvent>,
    reference_year: i32,
    reference_month: u8,
) -> (r: Result<Vec<Action>, SyncError>)
    requires
        1 <= reference_month <= 12,
        reference_year < i32::MAX,
    ensures
        match r {
            Ok(acts) => spec_event_actions(
                e.deep_view(),
                user_id@,
                calendar.deep_view(),
                reference_year as int,
                reference_month as int,
            ) == Ok::<Seq<ActionView>, SyncError>(acts.deep_view()),
            Err(er) => spec_event_actions(
                e.deep_view(),
                user_id@,
                calendar.deep_view(),
                reference_year as int,
                reference_month as int,
            ) == Err::<Seq<ActionView>, SyncError>(er),
        },
{
    let start_t = match parse_sp_timestring(e.raw_start.as_str()) {
        Some(t) => t,
        None => match parse_sp_timestring(e.raw_midpoint.as_str()) {
            Some(t) => t,
            None => {
                return Err(SyncError::MissingField);
            },
        },
    };
    let end_t = match parse_sp_timestring(e.raw_end.as_str()) {
        Some(t) => t,
        None => {
            return Err(SyncError::MissingField);
        },
    };
    let (year, month, day) = match normalize_date(
        e.raw_date.as_str(),
        reference_year,
        reference_month,
    ) {
        Ok(ymd) => ymd,
        Err(er) => {
            return Err(er);
        },
    };
    let start_iso = format_local_datetime(year, month, day, start_t.as_str());
    let end_iso = format_local_datetime(year, month, day, end_t.as_str());
    let ghost times = spec_event_times(
        e.deep_view(),
        reference_year as int,
        reference_month as int,
    )->Some_0;
    proof {
        assert(times.0 == start_iso@ && times.1 == end_iso@);
    }
    let mut acts: Vec<Action> = Vec::new();
    match lookup_calendar_event(calendar, e.external_id.as_str()) {
        None => {
            acts.push(
                Action::CreateCalendarEvent {
                    title: e.title.clone(),
                    body: "New training found in Spielerplus. Please accept/decline this event.".to_owned(),
                    start: start_iso,
                    end: end_iso,
                    location: e.subtitle.clone(),
                    join_id: e.external_id.clone(),
                },
            );
            proof {
                assert(acts.deep_view() =~= spec_event_actions(
                    e.deep_view(),
                    user_id@,
                    calendar.deep_view(),
                    reference_year as int,
                    reference_month as int,
                )->Ok_0);
            }
            Ok(acts)
        },
        Some(c) => {
            let compatible = str_starts_with(c.start.as_str(), start_iso.as_str())
                && str_starts_with(c.end.as_str(), end_iso.as_str());
            if !compatible {
                acts.push(
                    Action::UpdateCalendarEventTime {
                        id: c.id.clone(),
                        start: start_iso,
                        end: end_iso,
                    },
                );
            }
            let target = c.attendee_response;
            if target != AttendanceState::NoResponse {
                let needs = match &e.selected_attendance {
                    Some(cur) => *cur != target,
                    None => true,
                };
                if needs {
                    acts.push(
                        Action::SubmitAttendance {
                            user_id: user_id.to_owned(),
                            external_id: e.external_id.clone(),
                            kind: e.kind.clone(),
                            reason: "-".to_owned(),
                            code: to_submission_code(target).to_owned(),
                        },
                    );
                }
            }
            proof {
                assert(acts.deep_view() =~= spec_event_actions(
                    e.deep_view(),
                    user_id@,
                    calendar.deep_view(),
                    reference_year as int,
                    reference_month as int,
                )->Ok_0);
            }
            Ok(acts)
        },
    }
}

/// The site identifiers of a source snapshot, in page order.
pub open spec fn spec_ids(src: Seq<SourceEventView>) -> Seq<Seq<char>> {
    src.map_values(|e: SourceEventView| e.external_id)
}

/// What [`reconcile_pass`] emits for a whole source snapshot: each
/// event's actions in page order, aborted at the first unreadable
/// event.
pub open spec fn spec_pass(
    src: Seq<SourceEventView>,
    user: Seq<char>,
    cal: Seq<CalendarEventView>,
    ry: int,
    rm: int,
) -> Result<Seq<ActionView>, SyncError>
    decreases src.len(),
{
    if src.len() == 0 {
        Ok(Seq::empty())
    } else {
        match spec_pass(src.drop_last(), user, cal, ry, rm) {
            Err(e) => Err(e),
            Ok(acc) => match spec_event_actions(src.last(), user, cal, ry, rm) {
                Err(e) => Err(e),
                Ok(a) => Ok(acc + a),
            },
        }
    }
}

/// Once a pass has failed, the later events do not change the error.
proof fn lemma_pass_err(
    src: Seq<SourceEventView>,
    user: Seq<char>,
    cal: Seq<CalendarEventView>,
    ry: int,
    rm: int,
    k: int,
    e: SyncError,
)
    requires
        0 <= k <= src.len(),
        spec_pass(src.take(k), user, cal, ry, rm) == Err::<Seq<ActionView>, SyncError>(e),
    ensures
        spec_pass(src, user, cal, ry, rm) == Err::<Seq<ActionView>, SyncError>(e),
    decreases src.len() - k,
{
    if k < src.len() {
        assert(src.take(k + 1).drop_last() =~= src.take(k));
        lemma_pass_err(src, user, cal, ry, rm, k + 1, e);
    } else {
        assert(src.take(k) =~= src);
    }
}

/// Diff one identity's source snapshot against the calendar snapshot,
/// in page order, and record every site identifier met as seen.  The
/// seen set accumulates across identities, so the caller hands the
/// same vector to every pass of a run.
pub fn reconcile_pass(
    sources: &Vec<SourceEvent>,
    user_id: &str,
    calendar: &Vec<CalendarEvent>,
    reference_year: i32,
    reference_month: u8,
    seen: &mut Vec<String>,
) -> (r: Result<Vec<Action>, SyncError>)
    requires
        1 <= reference_month <= 12,
        reference_year < i32::MAX,
    ensures
        match r {
            Ok(acts) => spec_pass(
                sources.deep_view(),
                user_id@,
                calendar.deep_view(),
                reference_year as int,
                reference_month as int,
            ) == Ok::<Seq<ActionView>, SyncError>(acts.deep_view()) && final(seen).deep_view()
                == old(seen).deep_view() + spec_ids(sources.deep_view()),
            Err(e) => spec_pass(
                sources.deep_view(),
                user_id@,
                calendar.deep_view(),
                reference_year as int,
                reference_month as int,
            ) == Err::<Seq<ActionView>, SyncError>(e) && exists|k: int|
                0 <= k <= sources.deep_view().len() && final(seen).deep_view() == old(
                    seen,
                ).deep_view() + spec_ids(sources.deep_view().take(k)),
        },
{
    let ghost srcv = sources.deep_view();
    let ghost calv = calendar.deep_view();
    let ghost ry = reference_year as int;
    let ghost rm = reference_month as int;
    let mut acts: Vec<Action> = Vec::new();
    let mut i: usize = 0;
    proof {
        assert(srcv.take(0) =~= Seq::<SourceEventView>::empty());
        assert(acts.deep_view() =~= Seq::<ActionView>::empty());
        assert(spec_ids(srcv.take(0)) =~= Seq::<Seq<char>>::empty());
        assert(seen.deep_view() =~= seen.deep_view() + spec_ids(srcv.take(0)));
    }
    while i < sources.len()
        invariant
            i <= sources.len(),
            srcv == sources.deep_view(),
            calv == calendar.deep_view(),
            ry == reference_year as int,
            rm == reference_month as int,
            1 <= reference_month <= 12,
            reference_year < i32::MAX,
            srcv.len() == sources.len(),
            spec_pass(srcv.take(i as int), user_id@, calv, ry, rm) == Ok::<
                Seq<ActionView>,
                SyncError,
            >(acts.deep_view()),
            seen.deep_view() == old(seen).deep_view() + spec_ids(srcv.take(i as int)),
        decreases sources.len() - i,
    {
        proof {
            assert(srcv[i as int] == sources[i as int].deep_view());
            assert(srcv.take(i as int + 1).drop_last() =~= srcv.take(i as int));
            assert(srcv.take(i as int + 1).last() == srcv[i as int]);
        }
        let ghost prev = acts.deep_view();
        let mut step = match reconcile_event(
            &sources[i],
            user_id,
            calendar,
            reference_year,
            reference_month,
        ) {
            Ok(step) => step,
            Err(e) => {
                proof {
                    lemma_pass_err(srcv, user_id@, calv, ry, rm, i as int + 1, e);
                    assert(seen.deep_view() == old(seen).deep_view() + spec_ids(
                        srcv.take(i as int),
                    ));
                }
                return Err(e);
            },
        };
        let ghost stepv = step.deep_view();
        acts.append(&mut step);
        let ghost seen_before = seen.deep_view();
        seen.push(sources[i].external_id.clone());
        proof {
            assert(acts.deep_view() =~= prev + stepv);
            assert(seen.deep_view() =~= seen_before.push(srcv[i as int].external_id));
            assert(spec_ids(srcv.take(i as int + 1)) =~= spec_ids(srcv.take(i as int)).push(
                srcv[i as int].external_id,
            ));
            assert(seen.deep_view() =~= old(seen).deep_view() + spec_ids(
                srcv.take(i as int + 1),
            ));
        }
        i = i + 1;
    }
    proof {
        assert(srcv.take(i as int) =~= srcv);
    }
    Ok(acts)
}

/// What [`cancellation_pass`] emits: one cancellation per calendar
/// entry whose site identifier was never seen, in calendar
/// enumeration order.
pub open spec fn spec_cancellations(cal: Seq<CalendarEventView>, seen: Seq<Seq<char>>) -> Seq<
    ActionView,
>
    decreases cal.len(),
{
    if cal.len() == 0 {
        Seq::empty()
    } else {
        let rest = spec_cancellations(cal.drop_last(), seen);
        if seen.contains(cal.last().external_id) {
            rest
        } else {
            rest.push(ActionView::CancelCalendarEvent { id: cal.last().id })
        }
    }
}

/// Whether `id` is among the seen site identifiers.
fn seen_contains(seen: &Vec<String>, id: &str) -> (r: bool)
    ensures
        r == seen.deep_view().contains(id@),
{
    let ghost seenv = seen.deep_view();
    let mut i: usize = 0;
    while i < seen.len()
        invariant
            i <= seen.len(),
            seenv == seen.deep_view(),
            seenv.len() == seen.len(),
            forall|j: int| 0 <= j < i ==> seenv[j] != id@,
        decreases seen.len() - i,
    {
        proof {
            assert(seenv[i as int] == seen[i as int].deep_view());
        }
        if crate::text::str_eq(seen[i].as_str(), id) {
            return true;
        }
        i = i + 1;
    }
    proof {
        assert(!seenv.contains(id@));
    }
    false
}

/// Emit one cancellation per calendar entry whose site identifier is
/// absent from the seen set; run once, after every identity's pass.
pub fn cancellation_pass(calendar: &Vec<CalendarEvent>, seen: &Vec<String>) -> (r: Vec<Action>)
    ensures
        r.deep_view() == spec_cancellations(calendar.deep_view(), seen.deep_view()),
{
    let ghost calv = calendar.deep_view();
    let ghost seenv = seen.deep_view();
    let mut out: Vec<Action> = Vec::new();
    let mut i: usize = 0;
    proof {
        assert(calv.take(0) =~= Seq::<CalendarEventView>::empty());
        assert(out.deep_view() =~= Seq::<ActionView>::empty());
    }
    while i < calendar.len()
        invariant
            i <= calendar.len(),
            calv == calendar.deep_view(),
            seenv == seen.deep_view(),
            calv.len() == calendar.len(),
            out.deep_view() == spec_cancellations(calv.take(i as int), seenv),
        decreases calendar.len() - i,
    {
        proof {
            assert(calv[i as int] == calendar[i as int].deep_view());
            assert(calv.take(i as int + 1).drop_last() =~= calv.take(i as int));
            assert(calv.take(i as int + 1).last() == calv[i as int]);
        }
        let ghost prev = out.deep_view();
        if !seen_contains(seen, calendar[i].external_id.as_str()) {
            out.push(Action::CancelCalendarEvent { id: calendar[i].id.clone() });
            proof {
                assert(out.deep_view() =~= prev.push(
                    ActionView::CancelCalendarEvent { id: calv[i as int].id },
                ));
            }
        }
        i = i + 1;
    }
    proof {
        assert(calv.take(i as int) =~= calv);
    }
    out
}

/// What [`reconcile`] emits for one identity: the pass's actions, then
/// the cancellations — every create, update and submission strictly
/// before any cancellation.
pub open spec fn spec_reconcile(
    src: Seq<SourceEventView>,
    user: Seq<char>,
    cal: Seq<CalendarEventView>,
    ry: int,
    rm: int,
) -> Result<Seq<ActionView>, SyncError> {
    match spec_pass(src, user, cal, ry, rm) {
        Err(e) => Err(e),
        Ok(a) => Ok(a + spec_cancellations(cal, spec_ids(src))),
    }
}

/// Run one full reconciliation for a single identity: diff every
/// source event, then cancel what the site no longer lists.  Runs
/// with several identities share the pass and the cancellation
/// instead, through [`reconcile_pass`] and [`cancellation_pass`].
pub fn reconcile(
    sources: &Vec<SourceEvent>,
    user_id: &str,
    calendar: &Vec<CalendarEvent>,
    reference_year: i32,
    reference_month: u8,
) -> (r: Result<Vec<Action>, SyncError>)
    requires
        1 <= reference_month <= 12,
        reference_year < i32::MAX,
    ensures
        match r {
            Ok(acts) => spec_reconcile(
                sources.deep_view(),
                user_id@,
                calendar.deep_view(),
                reference_year as int,
                reference_month as int,
            ) == Ok::<Seq<ActionView>, SyncError>(acts.deep_view()),
            Err(e) => spec_reconcile(
                sources.deep_view(),
                user_id@,
                calendar.deep_view(),
                reference_year as int,
                reference_month as int,
            ) == Err::<Seq<ActionView>, SyncError>(e),
        },
{
    let mut seen: Vec<String> = Vec::new();
    let ghost empty_seen = seen.deep_view();
    proof {
        assert(empty_seen =~= Seq::<Seq<char>>::empty());
    }
    let mut acts = match reconcile_pass(
        sources,
        user_id,
        calendar,
        reference_year,
        reference_month,
        &mut seen,
    ) {
        Ok(acts) => acts,
        Err(e) => {
            return Err(e);
        },
    };
    proof {
        assert(seen.deep_view() =~= spec_ids(sources.deep_view()));
    }
    let ghost passv = acts.deep_view();
    let mut cancels = cancellation_pass(calendar, &seen);
    let ghost cancelv = cancels.deep_view();
    acts.append(&mut cancels);
    proof {
        assert(acts.deep_view() =~= passv + cancelv);
    }
    Ok(acts)
}

} // verus!
