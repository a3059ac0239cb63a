//! The engine's guarantees, stated and proved over the same spec
//! functions its contracts use: how many creates and cancellations a
//! run emits for which snapshot entries, and that a second pass over
//! the state a first pass produced emits nothing at all.

use vstd::prelude::*;
use crate::attendance::AttendanceState;
use crate::errors::SyncError;
use crate::office::CalendarEventView;
use crate::office::spec_lookup;
use crate::reconcile::ActionView;
use crate::reconcile::SourceEventView;
use crate::reconcile::attendance_differs;
use crate::reconcile::spec_cancellations;
use crate::reconcile::spec_event_actions;
use crate::reconcile::spec_event_times;
use crate::reconcile::spec_ids;
use crate::reconcile::spec_pass;
use crate::reconcile::spec_reconcile;
use crate::reconcile::time_compatible;

verus! {

/// How many actions of a run satisfy `p`.
pub open spec fn count_matching(acts: Seq<ActionView>, p: spec_fn(ActionView) -> bool) -> int
    decreases acts.len(),
{
    if acts.len() == 0 {
        0
    } else {
        count_matching(acts.drop_last(), p) + if p(acts.last()) {
            1int
        } else {
            0int
        }
    }
}

pub open spec fn is_create_for(a: ActionView, join_id: Seq<char>) -> bool {
    match a {
        ActionView::CreateCalendarEvent { join_id: j, .. } => j == join_id,
        _ => false,
    }
}

pub open spec fn is_cancel_for(a: ActionView, id: Seq<char>) -> bool {
    match a {
        ActionView::CancelCalendarEvent { id: i } => i == id,
        _ => false,
    }
}

/// How many creates of a run carry the join key `join_id`.
pub open spec fn count_creates_for(acts: Seq<ActionView>, join_id: Seq<char>) -> int {
    count_matching(acts, |a: ActionView| is_create_for(a, join_id))
}

/// How many cancellations of a run name the calendar entry `id`.
pub open spec fn count_cancels_for(acts: Seq<ActionView>, id: Seq<char>) -> int {
    count_matching(acts, |a: ActionView| is_cancel_for(a, id))
}

/// No two source events carry the same site identifier.
pub open spec fn distinct_source_ids(src: Seq<SourceEventView>) -> bool {
    forall|i: int, j: int|
        0 <= i < j < src.len() ==> src[i].external_id != src[j].external_id
}

/// No two calendar entries carry the same calendar-assigned
/// identifier.
pub open spec fn distinct_entry_ids(cal: Seq<CalendarEventView>) -> bool {
    forall|i: int, j: int| 0 <= i < j < cal.len() ==> cal[i].id != cal[j].id
}

proof fn lemma_count_add(a: Seq<ActionView>, b: Seq<ActionView>, p: spec_fn(ActionView) -> bool)
    ensures
        count_matching(a + b, p) == count_matching(a, p) + count_matching(b, p),
    decreases b.len(),
{
    if b.len() == 0 {
        assert(a + b =~= a);
    } else {
        assert((a + b).drop_last() =~= a + b.drop_last());
        lemma_count_add(a, b.drop_last(), p);
    }
}

proof fn lemma_count_singleton(x: ActionView, p: spec_fn(ActionView) -> bool)
    ensures
        count_matching(seq![x], p) == if p(x) {
            1int
        } else {
            0int
        },
{
    assert(seq![x].drop_last() =~= Seq::<ActionView>::empty());
    assert(count_matching(Seq::<ActionView>::empty(), p) == 0);
    assert(seq![x].last() == x);
}

/// What one source event contributes to the creates for `join_id`:
/// one when it is unmatched and carries that key, nothing otherwise.
proof fn lemma_event_create_count(
    e: SourceEventView,
    user: Seq<char>,
    cal: Seq<CalendarEventView>,
    ry: int,
    rm: int,
    join_id: Seq<char>,
)
    requires
        spec_event_actions(e, user, cal, ry, rm) is Ok,
    ensures
        count_creates_for(spec_event_actions(e, user, cal, ry, rm)->Ok_0, join_id) == if (
        spec_lookup(cal, e.external_id) is None && e.external_id == join_id) {
            1int
        } else {
            0int
        },
{
    let acts = spec_event_actions(e, user, cal, ry, rm)->Ok_0;
    let p = |a: ActionView| is_create_for(a, join_id);
    let times = spec_event_times(e, ry, rm)->Some_0;
    match spec_lookup(cal, e.external_id) {
        None => {
            lemma_count_singleton(acts.last(), p);
            assert(acts.drop_last() =~= Seq::<ActionView>::empty());
        },
        Some(c) => {
            let time_acts: Seq<ActionView> = if !time_compatible(c, times.0, times.1) {
                seq![
                    ActionView::UpdateCalendarEventTime {
                        id: c.id,
                        start: times.0,
                        end: times.1,
                    },
                ]
            } else {
                Seq::empty()
            };
            let att_acts = acts.skip(time_acts.len() as int);
            assert(acts =~= time_acts + att_acts);
            lemma_count_add(time_acts, att_acts, p);
            if time_acts.len() > 0 {
                lemma_count_singleton(time_acts.last(), p);
                assert(time_acts =~= seq![time_acts.last()]);
            }
            if att_acts.len() > 0 {
                lemma_count_singleton(att_acts.last(), p);
                assert(att_acts =~= seq![att_acts.last()]);
            }
        },
    }
}

/// What one source event contributes to the cancellations for `id`:
/// nothing, ever — the pass only creates, updates and submits.
proof fn lemma_event_cancel_count(
    e: SourceEventView,
    user: Seq<char>,
    cal: Seq<CalendarEventView>,
    ry: int,
    rm: int,
    id: Seq<char>,
)
    requires
        spec_event_actions(e, user, cal, ry, rm) is Ok,
    ensures
        count_cancels_for(spec_event_actions(e, user, cal, ry, rm)->Ok_0, id) == 0,
{
    let acts = spec_event_actions(e, user, cal, ry, rm)->Ok_0;
    let p = |a: ActionView| is_cancel_for(a, id);
    let times = spec_event_times(e, ry, rm)->Some_0;
    match spec_lookup(cal, e.external_id) {
        None => {
            lemma_count_singleton(acts.last(), p);
            assert(acts.drop_last() =~= Seq::<ActionView>::empty());
        },
        Some(c) => {
            let time_acts: Seq<ActionView> = if !time_compatible(c, times.0, times.1) {
                seq![
                    ActionView::UpdateCalendarEventTime {
                        id: c.id,
                        start: times.0,
                        end: times.1,
                    },
                ]
            } else {
                Seq::empty()
            };
            let att_acts = acts.skip(time_acts.len() as int);
            assert(acts =~= time_acts + att_acts);
            lemma_count_add(time_acts, att_acts, p);
            if time_acts.len() > 0 {
                lemma_count_singleton(time_acts.last(), p);
                assert(time_acts =~= seq![time_acts.last()]);
            }
            if att_acts.len() > 0 {
                lemma_count_singleton(att_acts.last(), p);
                assert(att_acts =~= seq![att_acts.last()]);
            }
        },
    }
}

/// How many source events would create an entry under `join_id`.
spec fn count_creating_sources(
    src: Seq<SourceEventView>,
    cal: Seq<CalendarEventView>,
    join_id: Seq<char>,
) -> int
    decreases src.len(),
{
    if src.len() == 0 {
        0
    } else {
        count_creating_sources(src.drop_last(), cal, join_id) + if (spec_lookup(
            cal,
            src.last().external_id,
        ) is None && src.last().external_id == join_id) {
            1int
        } else {
            0int
        }
    }
}

proof fn lemma_pass_create_count(
    src: Seq<SourceEventView>,
    user: Seq<char>,
    cal: Seq<CalendarEventView>,
    ry: int,
    rm: int,
    join_id: Seq<char>,
)
    requires
        spec_pass(src, user, cal, ry, rm) is Ok,
    ensures
        count_creates_for(spec_pass(src, user, cal, ry, rm)->Ok_0, join_id)
            == count_creating_sources(src, cal, join_id),
    decreases src.len(),
{
    if src.len() > 0 {
        lemma_pass_create_count(src.drop_last(), user, cal, ry, rm, join_id);
        lemma_event_create_count(src.last(), user, cal, ry, rm, join_id);
        lemma_count_add(
            spec_pass(src.drop_last(), user, cal, ry, rm)->Ok_0,
            spec_event_actions(src.last(), user, cal, ry, rm)->Ok_0,
            |a: ActionView| is_create_for(a, join_id),
        );
    }
}

proof fn lemma_pass_cancel_count(
    src: Seq<SourceEventView>,
    user: Seq<char>,
    cal: Seq<CalendarEventView>,
    ry: int,
    rm: int,
    id: Seq<char>,
)
    requires
        spec_pass(src, user, cal, ry, rm) is Ok,
    ensures
        count_cancels_for(spec_pass(src, user, cal, ry, rm)->Ok_0, id) == 0,
    decreases src.len(),
{
    if src.len() > 0 {
        lemma_pass_cancel_count(src.drop_last(), user, cal, ry, rm, id);
        lemma_event_cancel_count(src.last(), user, cal, ry, rm, id);
        lemma_count_add(
            spec_pass(src.drop_last(), user, cal, ry, rm)->Ok_0,
            spec_event_actions(src.last(), user, cal, ry, rm)->Ok_0,
            |a: ActionView| is_cancel_for(a, id),
        );
    }
}

proof fn lemma_creating_sources_absent(
    src: Seq<SourceEventView>,
    cal: Seq<CalendarEventView>,
    join_id: Seq<char>,
)
    requires
        forall|j: int| 0 <= j < src.len() ==> src[j].external_id != join_id,
    ensures
        count_creating_sources(src, cal, join_id) == 0,
    decreases src.len(),
{
    if src.len() > 0 {
        lemma_creating_sources_absent(src.drop_last(), cal, join_id);
    }
}

proof fn lemma_creating_sources_unique(
    src: Seq<SourceEventView>,
    cal: Seq<CalendarEventView>,
    i: int,
)
    requires
        distinct_source_ids(src),
        0 <= i < src.len(),
        spec_lookup(cal, src[i].external_id) is None,
    ensures
        count_creating_sources(src, cal, src[i].external_id) == 1,
    decreases src.len(),
{
    if i == src.len() - 1 {
        lemma_creating_sources_absent(src.drop_last(), cal, src[i].external_id);
    } else {
        assert(src.drop_last()[i] == src[i]);
        lemma_creating_sources_unique(src.drop_last(), cal, i);
    }
}

/// Cancellations never create.
proof fn lemma_cancellations_create_count(
    cal: Seq<CalendarEventView>,
    seen: Seq<Seq<char>>,
    join_id: Seq<char>,
)
    ensures
        count_creates_for(spec_cancellations(cal, seen), join_id) == 0,
    decreases cal.len(),
{
    let p = |a: ActionView| is_create_for(a, join_id);
    if cal.len() > 0 {
        lemma_cancellations_create_count(cal.drop_last(), seen, join_id);
        let rest = spec_cancellations(cal.drop_last(), seen);
        if !seen.contains(cal.last().external_id) {
            assert(rest.push(
                ActionView::CancelCalendarEvent { id: cal.last().id },
            ).drop_last() =~= rest);
        }
    }
}

/// Law: a source event the calendar does not yet know — no entry
/// carries its site identifier — yields exactly one create action in
/// the engine's whole output, and that create carries exactly its
/// identifier as the join key.
pub proof fn lemma_unmatched_source_creates_once(
    src: Seq<SourceEventView>,
    user: Seq<char>,
    cal: Seq<CalendarEventView>,
    ry: int,
    rm: int,
    i: int,
)
    requires
        distinct_source_ids(src),
        0 <= i < src.len(),
        spec_lookup(cal, src[i].external_id) is None,
        spec_reconcile(src, user, cal, ry, rm) is Ok,
    ensures
        count_creates_for(spec_reconcile(src, user, cal, ry, rm)->Ok_0, src[i].external_id)
            == 1,
{
    let join_id = src[i].external_id;
    lemma_pass_create_count(src, user, cal, ry, rm, join_id);
    lemma_creating_sources_unique(src, cal, i);
    lemma_cancellations_create_count(cal, spec_ids(src), join_id);
    lemma_count_add(
        spec_pass(src, user, cal, ry, rm)->Ok_0,
        spec_cancellations(cal, spec_ids(src)),
        |a: ActionView| is_create_for(a, join_id),
    );
}

/// A matched source event yields no create at all.
pub proof fn lemma_matched_source_never_creates(
    src: Seq<SourceEventView>,
    user: Seq<char>,
    cal: Seq<CalendarEventView>,
    ry: int,
    rm: int,
    i: int,
)
    requires
        distinct_source_ids(src),
        0 <= i < src.len(),
        spec_lookup(cal, src[i].external_id) is Some,
        spec_reconcile(src, user, cal, ry, rm) is Ok,
    ensures
        count_creates_for(spec_reconcile(src, user, cal, ry, rm)->Ok_0, src[i].external_id)
            == 0,
{
    let join_id = src[i].external_id;
    lemma_pass_create_count(src, user, cal, ry, rm, join_id);
    lemma_cancellations_create_count(cal, spec_ids(src), join_id);
    lemma_count_add(
        spec_pass(src, user, cal, ry, rm)->Ok_0,
        spec_cancellations(cal, spec_ids(src)),
        |a: ActionView| is_create_for(a, join_id),
    );
    lemma_creating_sources_match(src, cal, join_id);
}

/// Every source event carrying `join_id` is matched, so none creates.
proof fn lemma_creating_sources_match(
    src: Seq<SourceEventView>,
    cal: Seq<CalendarEventView>,
    join_id: Seq<char>,
)
    requires
        spec_lookup(cal, join_id) is Some,
    ensures
        count_creating_sources(src, cal, join_id) == 0,
    decreases src.len(),
{
    if src.len() > 0 {
        lemma_creating_sources_match(src.drop_last(), cal, join_id);
    }
}

proof fn lemma_cancellation_cancel_absent(
    cal: Seq<CalendarEventView>,
    seen: Seq<Seq<char>>,
    id: Seq<char>,
)
    requires
        forall|k: int| 0 <= k < cal.len() ==> cal[k].id != id,
    ensures
        count_cancels_for(spec_cancellations(cal, seen), id) == 0,
    decreases cal.len(),
{
    let p = |a: ActionView| is_cancel_for(a, id);
    if cal.len() > 0 {
        lemma_cancellation_cancel_absent(cal.drop_last(), seen, id);
        let rest = spec_cancellations(cal.drop_last(), seen);
        if !seen.contains(cal.last().external_id) {
            assert(rest.push(
                ActionView::CancelCalendarEvent { id: cal.last().id },
            ).drop_last() =~= rest);
        }
    }
}

proof fn lemma_cancellation_cancel_count(
    cal: Seq<CalendarEventView>,
    seen: Seq<Seq<char>>,
    j: int,
)
    requires
        distinct_entry_ids(cal),
        0 <= j < cal.len(),
    ensures
        count_cancels_for(spec_cancellations(cal, seen), cal[j].id) == if seen.contains(
            cal[j].external_id,
        ) {
            0int
        } else {
            1int
        },
    decreases cal.len(),
{
    let id = cal[j].id;
    let p = |a: ActionView| is_cancel_for(a, id);
    let rest = spec_cancellations(cal.drop_last(), seen);
    if j == cal.len() - 1 {
        lemma_cancellation_cancel_absent(cal.drop_last(), seen, id);
        if !seen.contains(cal.last().external_id) {
            assert(rest.push(
                ActionView::CancelCalendarEvent { id: cal.last().id },
            ).drop_last() =~= rest);
        }
    } else {
        assert(cal.drop_last()[j] == cal[j]);
        lemma_cancellation_cancel_count(cal.drop_last(), seen, j);
        if !seen.contains(cal.last().external_id) {
            assert(rest.push(
                ActionView::CancelCalendarEvent { id: cal.last().id },
            ).drop_last() =~= rest);
        }
    }
}

/// Law: a calendar entry whose site identifier no longer appears in
/// the source snapshot is cancelled exactly once; one whose
/// identifier still appears is never cancelled.
pub proof fn lemma_stale_entry_cancelled_once(
    src: Seq<SourceEventView>,
    user: Seq<char>,
    cal: Seq<CalendarEventView>,
    ry: int,
    rm: int,
    j: int,
)
    requires
        distinct_entry_ids(cal),
        0 <= j < cal.len(),
        spec_reconcile(src, user, cal, ry, rm) is Ok,
    ensures
        !spec_ids(src).contains(cal[j].external_id) ==> count_cancels_for(
            spec_reconcile(src, user, cal, ry, rm)->Ok_0,
            cal[j].id,
        ) == 1,
        spec_ids(src).contains(cal[j].external_id) ==> count_cancels_for(
            spec_reconcile(src, user, cal, ry, rm)->Ok_0,
            cal[j].id,
        ) == 0,
{
    lemma_pass_cancel_count(src, user, cal, ry, rm, cal[j].id);
    lemma_cancellation_cancel_count(cal, spec_ids(src), j);
    lemma_count_add(
        spec_pass(src, user, cal, ry, rm)->Ok_0,
        spec_cancellations(cal, spec_ids(src)),
        |a: ActionView| is_cancel_for(a, cal[j].id),
    );
}

/// Whether an action is a cancellation.
pub open spec fn is_cancellation(a: ActionView) -> bool {
    match a {
        ActionView::CancelCalendarEvent { .. } => true,
        _ => false,
    }
}

proof fn lemma_count_cancels_nonneg(s: Seq<ActionView>, id: Seq<char>)
    ensures
        count_cancels_for(s, id) >= 0,
    decreases s.len(),
{
    if s.len() > 0 {
        lemma_count_cancels_nonneg(s.drop_last(), id);
    }
}

/// A cancellation sitting at some position is counted.
proof fn lemma_cancel_at_index_counts(s: Seq<ActionView>, id: Seq<char>, k: int)
    requires
        0 <= k < s.len(),
        is_cancel_for(s[k], id),
    ensures
        count_cancels_for(s, id) >= 1,
    decreases s.len(),
{
    lemma_count_cancels_nonneg(s.drop_last(), id);
    if k < s.len() - 1 {
        assert(s.drop_last()[k] == s[k]);
        lemma_cancel_at_index_counts(s.drop_last(), id, k);
    }
}

/// Nothing a pass emits is a cancellation.
proof fn lemma_pass_no_cancel_elements(
    src: Seq<SourceEventView>,
    user: Seq<char>,
    cal: Seq<CalendarEventView>,
    ry: int,
    rm: int,
)
    requires
        spec_pass(src, user, cal, ry, rm) is Ok,
    ensures
        forall|k: int|
            0 <= k < spec_pass(src, user, cal, ry, rm)->Ok_0.len() ==> !is_cancellation(
                #[trigger] spec_pass(src, user, cal, ry, rm)->Ok_0[k],
            ),
{
    let pass = spec_pass(src, user, cal, ry, rm)->Ok_0;
    assert forall|k: int| 0 <= k < pass.len() implies !is_cancellation(#[trigger] pass[k]) by {
        match pass[k] {
            ActionView::CancelCalendarEvent { id } => {
                lemma_pass_cancel_count(src, user, cal, ry, rm, id);
                lemma_cancel_at_index_counts(pass, id, k);
            },
            _ => {},
        }
    }
}

/// Everything the cancellation pass emits is a cancellation.
proof fn lemma_cancellations_all_cancels(cal: Seq<CalendarEventView>, seen: Seq<Seq<char>>)
    ensures
        forall|k: int|
            0 <= k < spec_cancellations(cal, seen).len() ==> is_cancellation(
                #[trigger] spec_cancellations(cal, seen)[k],
            ),
    decreases cal.len(),
{
    if cal.len() > 0 {
        lemma_cancellations_all_cancels(cal.drop_last(), seen);
        let rest = spec_cancellations(cal.drop_last(), seen);
        let acts = spec_cancellations(cal, seen);
        assert forall|k: int| 0 <= k < acts.len() implies is_cancellation(
            #[trigger] acts[k],
        ) by {
            if k < rest.len() {
                assert(acts[k] == rest[k]);
            }
        }
    }
}

/// Law: ordering — every create, update and submission of a run
/// stands before every cancellation, since cancelling is decided only
/// once the full set of seen identifiers is known.
pub proof fn lemma_cancellations_come_last(
    src: Seq<SourceEventView>,
    user: Seq<char>,
    cal: Seq<CalendarEventView>,
    ry: int,
    rm: int,
)
    requires
        spec_reconcile(src, user, cal, ry, rm) is Ok,
    ensures
        forall|i: int, j: int|
            0 <= i < j < spec_reconcile(src, user, cal, ry, rm)->Ok_0.len() && is_cancellation(
                #[trigger] spec_reconcile(src, user, cal, ry, rm)->Ok_0[i],
            ) ==> is_cancellation(#[trigger] spec_reconcile(src, user, cal, ry, rm)->Ok_0[j]),
{
    let acts = spec_reconcile(src, user, cal, ry, rm)->Ok_0;
    let pass = spec_pass(src, user, cal, ry, rm)->Ok_0;
    let cancels = spec_cancellations(cal, spec_ids(src));
    assert(acts == pass + cancels);
    lemma_pass_no_cancel_elements(src, user, cal, ry, rm);
    lemma_cancellations_all_cancels(cal, spec_ids(src));
    assert forall|i: int, j: int|
        0 <= i < j < acts.len() && is_cancellation(#[trigger] acts[i]) implies is_cancellation(
        #[trigger] acts[j],
    ) by {
        if i < pass.len() {
            assert(acts[i] == pass[i]);
        } else {
            assert(acts[j] == cancels[j - pass.len()]);
        }
    }
}

/// How a source event reads after its own submissions were carried
/// out and the site was scraped again: the identifying and timing
/// fields are unchanged, and wherever the calendar held a concrete
/// attendance intent the site now shows exactly that intent.
pub open spec fn source_refetched(
    e: SourceEventView,
    e2: SourceEventView,
    cal: Seq<CalendarEventView>,
) -> bool {
    &&& e2.external_id == e.external_id
    &&& e2.raw_date == e.raw_date
    &&& e2.raw_start == e.raw_start
    &&& e2.raw_midpoint == e.raw_midpoint
    &&& e2.raw_end == e.raw_end
    &&& match spec_lookup(cal, e.external_id) {
        Some(c) => if c.attendee_response != AttendanceState::NoResponse {
            e2.selected_attendance == Some(c.attendee_response)
        } else {
            e2.selected_attendance == e.selected_attendance
        },
        None => e2.selected_attendance == e.selected_attendance,
    }
}

/// How one source event reads on the calendar after the run: some
/// entry carries its identifier, stores timestamps that extend the
/// canonical ones, and shows the response the old snapshot held — a
/// fresh entry an unanswered invite, since creating cannot answer it.
pub open spec fn event_settled(
    e: SourceEventView,
    cal: Seq<CalendarEventView>,
    cal2: Seq<CalendarEventView>,
    ry: int,
    rm: int,
) -> bool {
    match spec_event_times(e, ry, rm) {
        None => false,
        Some(times) => match spec_lookup(cal2, e.external_id) {
            None => false,
            Some(c2) => {
                &&& time_compatible(c2, times.0, times.1)
                &&& c2.attendee_response == match spec_lookup(cal, e.external_id) {
                    Some(c) => c.attendee_response,
                    None => AttendanceState::NoResponse,
                }
            },
        },
    }
}

/// How the whole calendar reads after the run: every source event is
/// settled, and nothing else is left on it — the stale entries were
/// cancelled.
pub open spec fn calendar_after_run(
    src: Seq<SourceEventView>,
    cal: Seq<CalendarEventView>,
    cal2: Seq<CalendarEventView>,
    ry: int,
    rm: int,
) -> bool {
    &&& forall|i: int| 0 <= i < src.len() ==> event_settled(src[i], cal, cal2, ry, rm)
    &&& forall|j: int|
        0 <= j < cal2.len() ==> spec_ids(src).contains(#[trigger] cal2[j].external_id)
}

/// A pass over events that each yield nothing yields nothing.
proof fn lemma_pass_all_empty(
    src: Seq<SourceEventView>,
    user: Seq<char>,
    cal: Seq<CalendarEventView>,
    ry: int,
    rm: int,
)
    requires
        forall|i: int|
            0 <= i < src.len() ==> (#[trigger] spec_event_actions(src[i], user, cal, ry, rm))
                == Ok::<Seq<ActionView>, SyncError>(Seq::<ActionView>::empty()),
    ensures
        spec_pass(src, user, cal, ry, rm) == Ok::<Seq<ActionView>, SyncError>(
            Seq::<ActionView>::empty(),
        ),
    decreases src.len(),
{
    if src.len() > 0 {
        assert forall|i: int|
            0 <= i < src.drop_last().len() implies (#[trigger] spec_event_actions(
            src.drop_last()[i],
            user,
            cal,
            ry,
            rm,
        )) == Ok::<Seq<ActionView>, SyncError>(Seq::<ActionView>::empty()) by {
            assert(src.drop_last()[i] == src[i]);
        }
        lemma_pass_all_empty(src.drop_last(), user, cal, ry, rm);
        assert(src.last() == src[src.len() - 1]);
        assert(Seq::<ActionView>::empty() + Seq::<ActionView>::empty()
            =~= Seq::<ActionView>::empty());
    }
}

/// Cancelling skips a calendar whose every entry was seen.
proof fn lemma_cancellations_all_seen(cal: Seq<CalendarEventView>, seen: Seq<Seq<char>>)
    requires
        forall|j: int| 0 <= j < cal.len() ==> seen.contains(#[trigger] cal[j].external_id),
    ensures
        spec_cancellations(cal, seen) == Seq::<ActionView>::empty(),
    decreases cal.len(),
{
    if cal.len() > 0 {
        assert forall|j: int|
            0 <= j < cal.drop_last().len() implies seen.contains(
            #[trigger] cal.drop_last()[j].external_id,
        ) by {
            assert(cal.drop_last()[j] == cal[j]);
        }
        lemma_cancellations_all_seen(cal.drop_last(), seen);
        assert(cal.last() == cal[cal.len() - 1]);
    }
}

/// One settled, refetched event yields nothing on a second pass.
proof fn lemma_event_second_pass_empty(
    e: SourceEventView,
    e2: SourceEventView,
    user: Seq<char>,
    cal: Seq<CalendarEventView>,
    cal2: Seq<CalendarEventView>,
    ry: int,
    rm: int,
)
    requires
        source_refetched(e, e2, cal),
        event_settled(e, cal, cal2, ry, rm),
    ensures
        spec_event_actions(e2, user, cal2, ry, rm) == Ok::<Seq<ActionView>, SyncError>(
            Seq::<ActionView>::empty(),
        ),
{
    assert(spec_event_times(e2, ry, rm) == spec_event_times(e, ry, rm));
    let times = spec_event_times(e, ry, rm)->Some_0;
    let c2 = spec_lookup(cal2, e.external_id)->Some_0;
    assert(time_compatible(c2, times.0, times.1));
    if c2.attendee_response != AttendanceState::NoResponse {
        match spec_lookup(cal, e.external_id) {
            Some(c) => {
                assert(c.attendee_response == c2.attendee_response);
                assert(e2.selected_attendance == Some(c2.attendee_response));
                assert(!attendance_differs(e2.selected_attendance, c2.attendee_response));
            },
            None => {
                assert(false);
            },
        }
    }
    assert(Seq::<ActionView>::empty() + Seq::<ActionView>::empty()
        =~= Seq::<ActionView>::empty());
}

/// Law: reconciliation is idempotent.  Suppose a pass succeeds, all
/// its actions are carried out once, and nothing else touches either
/// side before the next run: the re-scraped source snapshot then
/// satisfies [`source_refetched`] event for event, and the re-fetched
/// calendar snapshot satisfies [`calendar_after_run`] — whatever
/// identifiers the calendar assigned and whatever suffixes it
/// appended to the stored timestamps.  The second pass over those
/// snapshots emits no create, update, submission or cancellation at
/// all.
#[verifier::rlimit(50)]
pub proof fn lemma_second_pass_empty(
    src: Seq<SourceEventView>,
    src2: Seq<SourceEventView>,
    user: Seq<char>,
    cal: Seq<CalendarEventView>,
    cal2: Seq<CalendarEventView>,
    ry: int,
    rm: int,
)
    requires
        spec_pass(src, user, cal, ry, rm) is Ok,
        src2.len() == src.len(),
        forall|i: int|
            0 <= i < src.len() ==> #[trigger] source_refetched(src[i], src2[i], cal),
        calendar_after_run(src, cal, cal2, ry, rm),
    ensures
        spec_reconcile(src2, user, cal2, ry, rm) == Ok::<Seq<ActionView>, SyncError>(
            Seq::<ActionView>::empty(),
        ),
{
    assert forall|i: int|
        0 <= i < src2.len() implies (#[trigger] spec_event_actions(src2[i], user, cal2, ry, rm))
            == Ok::<Seq<ActionView>, SyncError>(Seq::<ActionView>::empty()) by {
        assert(source_refetched(src[i], src2[i], cal));
        assert(event_settled(src[i], cal, cal2, ry, rm));
        lemma_event_second_pass_empty(src[i], src2[i], user, cal, cal2, ry, rm);
    }
    lemma_pass_all_empty(src2, user, cal2, ry, rm);
    assert forall|i: int| 0 <= i < src2.len() implies #[trigger] spec_ids(src2)[i] == spec_ids(
        src,
    )[i] by {
        assert(source_refetched(src[i], src2[i], cal));
    }
    assert(spec_ids(src2) =~= spec_ids(src));
    assert forall|j: int|
        0 <= j < cal2.len() implies spec_ids(src2).contains(
        #[trigger] cal2[j].external_id,
    ) by {
        assert(spec_ids(src).contains(cal2[j].external_id));
    }
    lemma_cancellations_all_seen(cal2, spec_ids(src2));
    assert(Seq::<ActionView>::empty() + Seq::<ActionView>::empty()
        =~= Seq::<ActionView>::empty());
}

} // verus!
