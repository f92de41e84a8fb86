use vstd::prelude::*;

use crate::models::timeline::TimelineEvent;
use crate::timeline::playback::non_negative;
use crate::commands::timeline_commands::{applied_updates, listed_events, EventTimeUpdate};
use crate::models::timeline::with_time;
use crate::timeline::state::{
    first_index_of,
    lemma_first_index_of,
    id_listed, insert_by_time, lemma_sort_by_time, lemma_sort_of_sorted, lemma_sort_push,
    lemma_without_ids_sorted, max_end, retimed, sort_by_time, time_sorted, without_ids,
    TimelineState,
};
use crate::undo::{
    after_redo, after_undo, EventTimeChange, UndoAction, UndoActionView, UndoManager,
};

verus! {

broadcast use vstd::seq_lib::group_to_multiset_ensures;

/// Whether an undo and a redo are available.
pub struct UndoRedoState {
    pub can_undo: bool,
    pub can_redo: bool,
}

/// The ids of the events, in order.
pub open spec fn event_ids(evs: Seq<TimelineEvent>) -> Seq<String> {
    evs.map_values(|e: TimelineEvent| e.event_id)
}

/// The timeline after applying the time changes one after the other, each
/// followed by a sort; `to_old` picks the earlier times, otherwise the later ones.
pub open spec fn retimed_all(s: Seq<TimelineEvent>, changes: Seq<EventTimeChange>, to_old: bool) -> Seq<
    TimelineEvent,
>
    decreases changes.len(),
{
    if changes.len() == 0 {
        s
    } else {
        let c = changes.last();
        let t = if to_old {
            c.old_time_us
        } else {
            c.new_time_us
        };
        sort_by_time(retimed(retimed_all(s, changes.drop_last(), to_old), c.event_id@, non_negative(t)))
    }
}

/// The events after undoing `a`.
pub open spec fn undo_effect(s: Seq<TimelineEvent>, a: UndoActionView) -> Seq<TimelineEvent> {
    match a {
        UndoActionView::AddEvents(evs) => without_ids(s, event_ids(evs)),
        UndoActionView::DeleteEvents(evs) => sort_by_time(s + evs),
        UndoActionView::UpdateEventTimes(changes) => retimed_all(s, changes, true),
    }
}

/// The events after redoing `a`.
pub open spec fn redo_effect(s: Seq<TimelineEvent>, a: UndoActionView) -> Seq<TimelineEvent> {
    match a {
        UndoActionView::AddEvents(evs) => sort_by_time(s + evs),
        UndoActionView::DeleteEvents(evs) => without_ids(s, event_ids(evs)),
        UndoActionView::UpdateEventTimes(changes) => retimed_all(s, changes, false),
    }
}

/// The ids of `events`, in order.
pub fn collect_event_ids(events: &Vec<TimelineEvent>) -> (r: Vec<String>)
    ensures
        r@ == event_ids(events@),
{
    let mut r: Vec<String> = Vec::new();
    let mut i: usize = 0;
    while i < events.len()
        invariant
            i <= events.len(),
            r@ == event_ids(events@.take(i as int)),
        decreases events.len() - i,
    {
        r.push(events[i].event_id.clone());
        proof {
            assert(event_ids(events@.take(i as int + 1)) =~= event_ids(events@.take(i as int)).push(
                events@[i as int].event_id,
            ));
        }
        i = i + 1;
    }
    proof {
        assert(events@.take(events.len() as int) =~= events@);
    }
    r
}

/// Moves each listed event to the earlier or later time of its change.
fn apply_time_changes(timeline: &mut TimelineState, changes: &Vec<EventTimeChange>, to_old: bool)
    ensures
        final(timeline).events@ == retimed_all(old(timeline).events@, changes@, to_old),
        final(timeline).playhead_position_us == old(timeline).playhead_position_us,
{
    let mut i: usize = 0;
    while i < changes.len()
        invariant
            i <= changes.len(),
            timeline.events@ == retimed_all(old(timeline).events@, changes@.take(i as int), to_old),
            timeline.playhead_position_us == old(timeline).playhead_position_us,
        decreases changes.len() - i,
    {
        proof {
            assert(changes@.take(i as int + 1).drop_last() =~= changes@.take(i as int));
        }
        let change = &changes[i];
        let t = if to_old {
            change.old_time_us
        } else {
            change.new_time_us
        };
        timeline.update_event_time(change.event_id.as_str(), t);
        i = i + 1;
    }
    proof {
        assert(changes@.take(changes.len() as int) =~= changes@);
    }
}

/// Reverts `action` on the timeline.
pub fn apply_undo_action(timeline: &mut TimelineState, action: &UndoAction)
    ensures
        final(timeline).events@ == undo_effect(old(timeline).events@, action@),
        final(timeline).playhead_position_us == old(timeline).playhead_position_us,
{
    match action {
        UndoAction::AddEvents(events) => {
            let ids = collect_event_ids(events);
            timeline.delete_events(ids.as_slice());
        },
        UndoAction::DeleteEvents(events) => {
            timeline.add_events(events.clone());
        },
        UndoAction::UpdateEventTimes(changes) => {
            apply_time_changes(timeline, changes, true);
        },
    }
}

/// Applies `action` to the timeline once more.
pub fn apply_redo_action(timeline: &mut TimelineState, action: &UndoAction)
    ensures
        final(timeline).events@ == redo_effect(old(timeline).events@, action@),
        final(timeline).playhead_position_us == old(timeline).playhead_position_us,
{
    match action {
        UndoAction::AddEvents(events) => {
            timeline.add_events(events.clone());
        },
        UndoAction::DeleteEvents(events) => {
            let ids = collect_event_ids(events);
            timeline.delete_events(ids.as_slice());
        },
        UndoAction::UpdateEventTimes(changes) => {
            apply_time_changes(timeline, changes, false);
        },
    }
}

/// Undoes the most recent edit of the timeline.
pub fn undo(timeline: &mut TimelineState, undo_manager: &mut UndoManager) -> (r: Result<(), String>)
    ensures
        old(undo_manager)@.undo.len() == 0 <==> r is Err,
        r matches Err(e) ==> {
            &&& e@ == "nothing to undo"@
            &&& final(undo_manager)@ == old(undo_manager)@
            &&& *final(timeline) == *old(timeline)
        },
        r is Ok ==> {
            &&& final(undo_manager)@ == after_undo(old(undo_manager)@)
            &&& final(timeline).events@ == undo_effect(
                old(timeline).events@,
                old(undo_manager)@.undo.last(),
            )
            &&& final(timeline).total_duration_us == max_end(final(timeline).events@)
            &&& final(timeline).playhead_position_us == old(timeline).playhead_position_us
        },
{
    match undo_manager.undo() {
        Some(action) => {
            apply_undo_action(timeline, &action);
            timeline.recalculate_duration();
            Ok(())
        },
        None => Err("nothing to undo".to_string()),
    }
}

/// Redoes the most recently undone edit of the timeline.
pub fn redo(timeline: &mut TimelineState, undo_manager: &mut UndoManager) -> (r: Result<(), String>)
    ensures
        old(undo_manager)@.redo.len() == 0 <==> r is Err,
        r matches Err(e) ==> {
            &&& e@ == "nothing to redo"@
            &&& final(undo_manager)@ == old(undo_manager)@
            &&& *final(timeline) == *old(timeline)
        },
        r is Ok ==> {
            &&& final(undo_manager)@ == after_redo(old(undo_manager)@)
            &&& final(timeline).events@ == redo_effect(
                old(timeline).events@,
                old(undo_manager)@.redo.last(),
            )
            &&& final(timeline).total_duration_us == max_end(final(timeline).events@)
            &&& final(timeline).playhead_position_us == old(timeline).playhead_position_us
        },
{
    match undo_manager.redo() {
        Some(action) => {
            apply_redo_action(timeline, &action);
            timeline.recalculate_duration();
            Ok(())
        },
        None => Err("nothing to redo".to_string()),
    }
}

/// Whether an undo and a redo are available.
pub fn get_undo_redo_state(undo_manager: &UndoManager) -> (r: UndoRedoState)
    ensures
        r.can_undo == (undo_manager@.undo.len() > 0),
        r.can_redo == (undo_manager@.redo.len() > 0),
{
    UndoRedoState { can_undo: undo_manager.can_undo(), can_redo: undo_manager.can_redo() }
}

/// No event of `s` has an id listed in `ids`.
pub open spec fn none_listed(s: Seq<TimelineEvent>, ids: Seq<String>) -> bool {
    forall|k: int| 0 <= k < s.len() ==> !id_listed(ids, #[trigger] s[k].event_id@)
}

/// Every event of `s` has an id listed in `ids`.
pub open spec fn all_listed(s: Seq<TimelineEvent>, ids: Seq<String>) -> bool {
    forall|k: int| 0 <= k < s.len() ==> id_listed(ids, #[trigger] s[k].event_id@)
}

pub proof fn lemma_without_none_listed(s: Seq<TimelineEvent>, ids: Seq<String>)
    requires
        none_listed(s, ids),
    ensures
        without_ids(s, ids) == s,
    decreases s.len(),
{
    if s.len() > 0 {
        let d = s.drop_last();
        assert(none_listed(d, ids)) by {
            assert forall|k: int| 0 <= k < d.len() implies !id_listed(ids, #[trigger] d[k].event_id@) by {
                assert(d[k] == s[k]);
            }
        }
        lemma_without_none_listed(d, ids);
        assert(!id_listed(ids, s[s.len() - 1].event_id@));
        assert(d.push(s.last()) =~= s);
    }
}

pub proof fn lemma_without_insert_listed(t: Seq<TimelineEvent>, e: TimelineEvent, ids: Seq<String>)
    requires
        id_listed(ids, e.event_id@),
    ensures
        without_ids(insert_by_time(t, e), ids) == without_ids(t, ids),
    decreases t.len(),
{
    if t.len() == 0 {
        assert(seq![e].drop_last() =~= Seq::<TimelineEvent>::empty());
        assert(without_ids(seq![e], ids) == without_ids(Seq::<TimelineEvent>::empty(), ids));
    } else if t.last().time_us <= e.time_us {
        assert(t.push(e).drop_last() =~= t);
        assert(without_ids(t.push(e), ids) == without_ids(t, ids));
    } else {
        lemma_without_insert_listed(t.drop_last(), e, ids);
        let r = insert_by_time(t.drop_last(), e);
        assert(r.push(t.last()).drop_last() =~= r);
        assert(r.push(t.last()).last() == t.last());
        assert(without_ids(r.push(t.last()), ids) == if id_listed(ids, t.last().event_id@) {
            without_ids(r, ids)
        } else {
            without_ids(r, ids).push(t.last())
        });
    }
}

pub proof fn lemma_without_sorted_added(s: Seq<TimelineEvent>, evs: Seq<TimelineEvent>, ids: Seq<String>)
    requires
        time_sorted(s),
        none_listed(s, ids),
        all_listed(evs, ids),
    ensures
        without_ids(sort_by_time(s + evs), ids) == s,
    decreases evs.len(),
{
    if evs.len() == 0 {
        assert(s + evs =~= s);
        lemma_sort_of_sorted(s);
        lemma_without_none_listed(s, ids);
    } else {
        let d = evs.drop_last();
        assert(all_listed(d, ids)) by {
            assert forall|k: int| 0 <= k < d.len() implies id_listed(ids, #[trigger] d[k].event_id@) by {
                assert(d[k] == evs[k]);
            }
        }
        lemma_without_sorted_added(s, d, ids);
        assert(s + evs =~= (s + d).push(evs.last()));
        lemma_sort_push(s + d, evs.last());
        assert(id_listed(ids, evs[evs.len() - 1].event_id@));
        lemma_without_insert_listed(sort_by_time(s + d), evs.last(), ids);
    }
}

/// Undoing an addition of events whose ids the timeline did not hold gives
/// back the timeline exactly.
pub proof fn law_undo_after_add(s: Seq<TimelineEvent>, evs: Seq<TimelineEvent>)
    requires
        time_sorted(s),
        none_listed(s, event_ids(evs)),
    ensures
        undo_effect(
            redo_effect(s, UndoActionView::AddEvents(evs)),
            UndoActionView::AddEvents(evs),
        ) == s,
{
    assert(all_listed(evs, event_ids(evs))) by {
        assert forall|k: int| 0 <= k < evs.len() implies id_listed(
            event_ids(evs),
            #[trigger] evs[k].event_id@,
        ) by {
            assert(event_ids(evs)[k]@ == evs[k].event_id@);
        }
    }
    lemma_without_sorted_added(s, evs, event_ids(evs));
}

/// Redoing an undone addition gives back the timeline the addition made.
pub proof fn law_redo_after_undo_add(s: Seq<TimelineEvent>, evs: Seq<TimelineEvent>)
    requires
        time_sorted(s),
        none_listed(s, event_ids(evs)),
    ensures
        ({
            let added = redo_effect(s, UndoActionView::AddEvents(evs));
            redo_effect(undo_effect(added, UndoActionView::AddEvents(evs)), UndoActionView::AddEvents(evs))
                == added
        }),
{
    law_undo_after_add(s, evs);
}

pub proof fn lemma_split_listed(s: Seq<TimelineEvent>, ids: Seq<String>)
    ensures
        without_ids(s, ids).to_multiset().add(listed_events(s, ids).to_multiset())
            == s.to_multiset(),
        none_listed(without_ids(s, ids), ids),
        all_listed(listed_events(s, ids), ids),
    decreases s.len(),
{
    broadcast use vstd::multiset::group_multiset_axioms;

    if s.len() == 0 {
        assert(without_ids(s, ids).to_multiset().add(listed_events(s, ids).to_multiset())
            =~= s.to_multiset());
    } else {
        let d = s.drop_last();
        lemma_split_listed(d, ids);
        assert(d.push(s.last()) =~= s);
        assert(without_ids(s, ids).to_multiset().add(listed_events(s, ids).to_multiset())
            =~= s.to_multiset());
        let w = without_ids(d, ids);
        let l = listed_events(d, ids);
        if id_listed(ids, s.last().event_id@) {
            assert(all_listed(l.push(s.last()), ids)) by {
                assert forall|k: int| 0 <= k < l.len() + 1 implies id_listed(
                    ids,
                    #[trigger] l.push(s.last())[k].event_id@,
                ) by {
                    if k < l.len() {
                        assert(l.push(s.last())[k] == l[k]);
                    }
                }
            }
        } else {
            assert(none_listed(w.push(s.last()), ids)) by {
                assert forall|k: int| 0 <= k < w.len() + 1 implies !id_listed(
                    ids,
                    #[trigger] w.push(s.last())[k].event_id@,
                ) by {
                    if k < w.len() {
                        assert(w.push(s.last())[k] == w[k]);
                    }
                }
            }
        }
    }
}

/// Undoing a deletion puts back exactly the events it removed: the timeline
/// holds the same events as before, as a multiset.
pub proof fn law_undo_after_delete(s: Seq<TimelineEvent>, ids: Seq<String>)
    ensures
        ({
            let deleted = listed_events(s, ids);
            undo_effect(without_ids(s, ids), UndoActionView::DeleteEvents(deleted)).to_multiset()
                == s.to_multiset()
        }),
{
    let deleted = listed_events(s, ids);
    let kept = without_ids(s, ids);
    lemma_split_listed(s, ids);
    lemma_sort_by_time(kept + deleted);
    vstd::seq_lib::lemma_multiset_commutative(kept, deleted);
}

/// Redoing an undone deletion gives back the timeline the deletion left.
pub proof fn law_redo_after_undo_delete(s: Seq<TimelineEvent>, ids: Seq<String>)
    requires
        time_sorted(s),
    ensures
        ({
            let deleted = listed_events(s, ids);
            let kept = without_ids(s, ids);
            redo_effect(
                undo_effect(kept, UndoActionView::DeleteEvents(deleted)),
                UndoActionView::DeleteEvents(deleted),
            ) == kept
        }),
{
    let deleted = listed_events(s, ids);
    let kept = without_ids(s, ids);
    lemma_split_listed(s, ids);
    lemma_without_ids_sorted(s, ids);
    assert(all_listed(deleted, event_ids(deleted))) by {
        assert forall|k: int| 0 <= k < deleted.len() implies id_listed(
            event_ids(deleted),
            #[trigger] deleted[k].event_id@,
        ) by {
            assert(event_ids(deleted)[k]@ == deleted[k].event_id@);
        }
    }
    assert(none_listed(kept, event_ids(deleted))) by {
        assert forall|k: int| 0 <= k < kept.len() implies !id_listed(
            event_ids(deleted),
            #[trigger] kept[k].event_id@,
        ) by {
            if id_listed(event_ids(deleted), kept[k].event_id@) {
                let m = choose|m: int|
                    0 <= m < event_ids(deleted).len() && event_ids(deleted)[m]@
                        == kept[k].event_id@;
                assert(id_listed(ids, deleted[m].event_id@));
                assert(!id_listed(ids, kept[k].event_id@));
            }
        }
    }
    lemma_without_sorted_added(kept, deleted, event_ids(deleted));
}

/// Whether at most one event of `s` has the id `id`.
pub open spec fn id_unique(s: Seq<TimelineEvent>, id: Seq<char>) -> bool {
    forall|i: int, j: int|
        0 <= i < s.len() && 0 <= j < s.len() && #[trigger] s[i].event_id@ == id && #[trigger] s[
            j
        ].event_id@ == id ==> i == j
}

/// Undoing the move of an event gives back the events there were: where one
/// event has the id and it stands at a time that is not negative, moving it
/// and undoing the move leaves the same events, each at its time. Events at
/// equal times may come back in another order.
pub proof fn law_undo_after_move(s: Seq<TimelineEvent>, id: String, new_time_us: i64)
    requires
        first_index_of(s, id@) is Some,
        id_unique(s, id@),
        s[first_index_of(s, id@)->0].time_us >= 0,
    ensures
        ({
            let k = first_index_of(s, id@)->0;
            let a = UndoActionView::UpdateEventTimes(
                seq![EventTimeChange { event_id: id, old_time_us: s[k].time_us, new_time_us }],
            );
            undo_effect(redo_effect(s, a), a).to_multiset() == s.to_multiset()
        }),
{
    broadcast use vstd::multiset::group_multiset_properties;
    broadcast use vstd::seq_lib::to_multiset_update;
    broadcast use vstd::seq_lib::to_multiset_contains;

    let k = first_index_of(s, id@)->0;
    let c = EventTimeChange { event_id: id, old_time_us: s[k].time_us, new_time_us };
    let changes = seq![c];
    assert(changes.drop_last() =~= Seq::<EventTimeChange>::empty());
    lemma_first_index_of(s, id@);
    let w = with_time(s[k], non_negative(new_time_us));
    let m = retimed(s, id@, non_negative(new_time_us));
    assert(m == s.update(k, w));
    assert(m.to_multiset() == s.to_multiset().insert(w).remove(s[k]));
    let r1 = sort_by_time(m);
    lemma_sort_by_time(m);
    assert(changes.last() == c);
    assert(retimed_all(s, changes.drop_last(), false) == s);
    assert(retimed_all(s, changes, false) == r1);
    assert(m[k] == w);
    assert(m.contains(w));
    assert(r1.to_multiset().count(w) > 0);
    assert(r1.contains(w));
    let idx = choose|idx: int| 0 <= idx < r1.len() && r1[idx] == w;
    lemma_first_index_of(r1, id@);
    assert(r1[idx].event_id@ == id@);
    let j = first_index_of(r1, id@)->0;
    assert(r1.contains(r1[j]));
    assert(m.to_multiset().count(r1[j]) > 0);
    assert(m.contains(r1[j]));
    let p = choose|p: int| 0 <= p < m.len() && m[p] == r1[j];
    if p != k {
        assert(m[p] == s[p]);
        assert(s[p].event_id@ == id@ && s[k].event_id@ == id@);
    }
    assert(r1[j] == w);
    let back = with_time(w, non_negative(s[k].time_us));
    assert(back == s[k]);
    let m2 = retimed(r1, id@, non_negative(s[k].time_us));
    assert(m2 == r1.update(j, back));
    assert(m2.to_multiset() == r1.to_multiset().insert(s[k]).remove(w));
    lemma_sort_by_time(m2);
    assert(retimed_all(r1, changes.drop_last(), true) == r1);
    assert(retimed_all(r1, changes, true) == sort_by_time(m2));
    assert(m2.to_multiset() =~= s.to_multiset());
}

/// Whether no two events of `s` share an id.
pub open spec fn ids_distinct(s: Seq<TimelineEvent>) -> bool {
    forall|i: int, j: int|
        0 <= i < s.len() && 0 <= j < s.len() && i != j ==> #[trigger] s[i].event_id@
            != #[trigger] s[j].event_id@
}

/// Whether no two updates name the same event.
pub open spec fn update_ids_distinct(ups: Seq<EventTimeUpdate>) -> bool {
    forall|i: int, j: int|
        0 <= i < ups.len() && 0 <= j < ups.len() && i != j ==> #[trigger] ups[i].event_id@
            != #[trigger] ups[j].event_id@
}

/// `e` where the updates `ups` put it: at the time asked by the update that
/// names it, held to be non-negative, or where it was if none does.
pub open spec fn moved_event(e: TimelineEvent, ups: Seq<EventTimeUpdate>) -> TimelineEvent {
    if exists|j: int| 0 <= j < ups.len() && #[trigger] ups[j].event_id@ == e.event_id@ {
        let j = choose|j: int| 0 <= j < ups.len() && #[trigger] ups[j].event_id@ == e.event_id@;
        with_time(e, non_negative(ups[j].new_time_us))
    } else {
        e
    }
}

/// The events of `s`, each where the updates `ups` put it.
pub open spec fn moved_events(s: Seq<TimelineEvent>, ups: Seq<EventTimeUpdate>) -> Seq<TimelineEvent> {
    s.map_values(|e: TimelineEvent| moved_event(e, ups))
}

/// Whether `c` records the move that `u` asks of an event of `s`: that
/// event's id, the time it had in `s`, and the time it is moved to.
pub open spec fn records_move(s: Seq<TimelineEvent>, u: EventTimeUpdate, c: EventTimeChange) -> bool {
    exists|q: int|
        0 <= q < s.len() && #[trigger] s[q].event_id@ == u.event_id@ && c.event_id == u.event_id
            && c.old_time_us == s[q].time_us && c.new_time_us == non_negative(u.new_time_us)
}

proof fn lemma_moved_event_at(e: TimelineEvent, ups: Seq<EventTimeUpdate>, j: int)
    requires
        update_ids_distinct(ups),
        0 <= j < ups.len(),
        ups[j].event_id@ == e.event_id@,
    ensures
        moved_event(e, ups) == with_time(e, non_negative(ups[j].new_time_us)),
{
}

proof fn lemma_moved_event_none(e: TimelineEvent, ups: Seq<EventTimeUpdate>)
    requires
        forall|j: int| 0 <= j < ups.len() ==> #[trigger] ups[j].event_id@ != e.event_id@,
    ensures
        moved_event(e, ups) == e,
{
}

/// Moving keeps every event's id.
proof fn lemma_moved_ids(s: Seq<TimelineEvent>, ups: Seq<EventTimeUpdate>)
    requires
        ids_distinct(s),
    ensures
        moved_events(s, ups).len() == s.len(),
        forall|i: int| 0 <= i < s.len() ==> #[trigger] moved_events(s, ups)[i].event_id == s[i].event_id,
        ids_distinct(moved_events(s, ups)),
{
    let m = moved_events(s, ups);
    assert forall|i: int| 0 <= i < s.len() implies #[trigger] m[i].event_id == s[i].event_id by {
        assert(m[i] == moved_event(s[i], ups));
    }
    assert forall|i: int, j: int| 0 <= i < m.len() && 0 <= j < m.len() && i != j implies #[trigger] m[i].event_id@
        != #[trigger] m[j].event_id@ by {
        assert(m[i].event_id == s[i].event_id);
        assert(m[j].event_id == s[j].event_id);
    }
}

/// A reordering of events with distinct ids keeps the ids distinct, and the
/// first event with an id is the one that had it before.
proof fn lemma_permuted_lookup(s: Seq<TimelineEvent>, t: Seq<TimelineEvent>, q: int)
    requires
        t.to_multiset() == s.to_multiset(),
        ids_distinct(s),
        0 <= q < s.len(),
    ensures
        ids_distinct(t),
        first_index_of(t, s[q].event_id@) is Some,
        t[first_index_of(t, s[q].event_id@)->0] == s[q],
{
    assert(s.no_duplicates()) by {
        assert forall|i: int, j: int| 0 <= i < s.len() && 0 <= j < s.len() && i != j implies s[i]
            != s[j] by {
            if s[i] == s[j] {
                assert(s[i].event_id@ == s[j].event_id@);
            }
        }
    }
    s.lemma_multiset_has_no_duplicates();
    assert forall|x: TimelineEvent| t.to_multiset().contains(x) implies t.to_multiset().count(x)
        == 1 by {
        assert(s.to_multiset().contains(x));
    }
    t.lemma_multiset_has_no_duplicates_conv();
    assert forall|i: int, j: int| 0 <= i < t.len() && 0 <= j < t.len() && i != j implies #[trigger] t[i].event_id@
        != #[trigger] t[j].event_id@ by {
        if t[i].event_id@ == t[j].event_id@ {
            assert(t[i] != t[j]);
            assert(t.contains(t[i]));
            assert(t.contains(t[j]));
            assert(t.to_multiset().count(t[i]) > 0);
            assert(t.to_multiset().count(t[j]) > 0);
            assert(s.contains(t[i]));
            assert(s.contains(t[j]));
            let a = choose|a: int| 0 <= a < s.len() && s[a] == t[i];
            let b = choose|b: int| 0 <= b < s.len() && s[b] == t[j];
            assert(s[a].event_id@ == s[b].event_id@);
        }
    }
    let x = s[q].event_id@;
    assert(s.contains(s[q]));
    assert(s.to_multiset().count(s[q]) > 0);
    assert(t.contains(s[q]));
    let r = choose|r: int| 0 <= r < t.len() && t[r] == s[q];
    lemma_first_index_of(t, x);
    if first_index_of(t, x) is None {
        assert(t[r].event_id@ == x);
    }
    let p = first_index_of(t, x)->0;
    assert(t[p].event_id@ == t[r].event_id@);
}

/// Applying updates that name distinct events to a timeline of distinct
/// ids leaves the events of the timeline, each where the updates put it,
/// and records for each update the time its event had before.
proof fn lemma_applied_updates_move(s: Seq<TimelineEvent>, ups: Seq<EventTimeUpdate>, k: int)
    requires
        ids_distinct(s),
        update_ids_distinct(ups),
        0 <= k <= ups.len(),
        applied_updates(s, ups.take(k)) is Some,
    ensures
        ({
            let d = applied_updates(s, ups.take(k))->0;
            &&& d.0.to_multiset() == moved_events(s, ups.take(k)).to_multiset()
            &&& d.1.len() == k
            &&& forall|j: int| 0 <= j < k ==> records_move(s, ups[j], #[trigger] d.1[j])
        }),
    decreases k,
{
    broadcast use vstd::seq_lib::to_multiset_update;

    let u_k = ups.take(k);
    if k == 0 {
        assert(u_k =~= Seq::<EventTimeUpdate>::empty());
        assert forall|i: int| 0 <= i < s.len() implies #[trigger] moved_events(s, u_k)[i] == s[i] by {
            lemma_moved_event_none(s[i], u_k);
        }
        assert(moved_events(s, u_k) =~= s);
    } else {
        let u_prev = ups.take(k - 1);
        assert(u_k.drop_last() =~= u_prev);
        if applied_updates(s, u_prev) is None {
            assert(applied_updates(s, u_k) is None);
        }
        lemma_applied_updates_move(s, ups, k - 1);
        let d = applied_updates(s, u_prev)->0;
        let cur = d.0;
        let u = ups[k - 1];
        assert(u_k.last() == u);
        let x = u.event_id@;
        let p = first_index_of(cur, x)->0;
        lemma_first_index_of(cur, x);
        let mv = moved_events(s, u_prev);
        lemma_moved_ids(s, u_prev);
        assert(cur.contains(cur[p]));
        assert(cur.to_multiset().count(cur[p]) > 0);
        assert(mv.contains(cur[p]));
        let q = choose|q: int| 0 <= q < mv.len() && mv[q] == cur[p];
        assert(mv[q].event_id == s[q].event_id);
        assert(s[q].event_id@ == x);
        assert forall|j: int| 0 <= j < u_prev.len() implies #[trigger] u_prev[j].event_id@
            != s[q].event_id@ by {
            assert(u_prev[j] == ups[j]);
        }
        lemma_moved_event_none(s[q], u_prev);
        assert(mv[q] == moved_event(s[q], u_prev));
        assert(cur[p] == s[q]);
        let t = non_negative(u.new_time_us);
        let w = with_time(s[q], t);
        assert(retimed(cur, x, t) == cur.update(p, w));
        let mv2 = moved_events(s, u_k);
        assert forall|i: int| 0 <= i < s.len() implies #[trigger] mv2[i] == mv.update(q, w)[i] by {
            assert(mv2[i] == moved_event(s[i], u_k));
            assert(mv[i] == moved_event(s[i], u_prev));
            if i == q {
                lemma_moved_event_at(s[q], u_k, k - 1);
            } else {
                assert(s[i].event_id@ != x);
                if exists|j: int| 0 <= j < u_prev.len() && #[trigger] u_prev[j].event_id@ == s[i].event_id@ {
                    let j = choose|j: int| 0 <= j < u_prev.len() && #[trigger] u_prev[j].event_id@
                        == s[i].event_id@;
                    assert(u_k[j] == u_prev[j]);
                    lemma_moved_event_at(s[i], u_prev, j);
                    lemma_moved_event_at(s[i], u_k, j);
                } else {
                    assert forall|j: int| 0 <= j < u_k.len() implies #[trigger] u_k[j].event_id@
                        != s[i].event_id@ by {
                        if j < k - 1 {
                            assert(u_k[j] == u_prev[j]);
                        }
                    }
                    lemma_moved_event_none(s[i], u_prev);
                    lemma_moved_event_none(s[i], u_k);
                }
            }
        }
        assert(mv2 =~= mv.update(q, w));
        lemma_sort_by_time(cur.update(p, w));
        let d2 = applied_updates(s, u_k)->0;
        assert(d2.0 == sort_by_time(cur.update(p, w)));
        assert(d2.0.to_multiset() == cur.to_multiset().insert(w).remove(cur[p]));
        assert(mv2.to_multiset() == mv.to_multiset().insert(w).remove(mv[q]));
        let c = EventTimeChange { event_id: u.event_id, old_time_us: cur[p].time_us, new_time_us: t };
        assert(d2.1 == d.1.push(c));
        assert(records_move(s, u, c));
        assert forall|j: int| 0 <= j < k implies records_move(s, ups[j], #[trigger] d2.1[j]) by {
            if j < k - 1 {
                assert(d2.1[j] == d.1[j]);
            }
        }
    }
}

/// Undoing, in order, the first `m` recorded moves of such a run puts those
/// events back where they were and leaves the later moves in place.
proof fn lemma_undo_moves(
    s: Seq<TimelineEvent>,
    ups: Seq<EventTimeUpdate>,
    d0: Seq<TimelineEvent>,
    changes: Seq<EventTimeChange>,
    m: int,
)
    requires
        ids_distinct(s),
        forall|i: int| 0 <= i < s.len() ==> #[trigger] s[i].time_us >= 0,
        update_ids_distinct(ups),
        changes.len() == ups.len(),
        forall|j: int| 0 <= j < ups.len() ==> records_move(s, ups[j], #[trigger] changes[j]),
        d0.to_multiset() == moved_events(s, ups).to_multiset(),
        0 <= m <= ups.len(),
    ensures
        retimed_all(d0, changes.take(m), true).to_multiset() == moved_events(
            s,
            ups.subrange(m, ups.len() as int),
        ).to_multiset(),
    decreases m,
{
    broadcast use vstd::seq_lib::to_multiset_update;

    let n = ups.len() as int;
    if m == 0 {
        assert(changes.take(0) =~= Seq::<EventTimeChange>::empty());
        assert(ups.subrange(0, n) =~= ups);
    } else {
        lemma_undo_moves(s, ups, d0, changes, m - 1);
        assert(changes.take(m).drop_last() =~= changes.take(m - 1));
        let c = changes[m - 1];
        assert(changes.take(m).last() == c);
        let r = retimed_all(d0, changes.take(m - 1), true);
        let v = ups.subrange(m - 1, n);
        let v2 = ups.subrange(m, n);
        let mv = moved_events(s, v);
        assert(records_move(s, ups[m - 1], c));
        let q = choose|q: int|
            0 <= q < s.len() && #[trigger] s[q].event_id@ == ups[m - 1].event_id@ && c.event_id
                == ups[m - 1].event_id && c.old_time_us == s[q].time_us && c.new_time_us
                == non_negative(ups[m - 1].new_time_us);
        let x = c.event_id@;
        assert(non_negative(c.old_time_us) == s[q].time_us);
        lemma_moved_ids(s, v);
        lemma_permuted_lookup(mv, r, q);
        assert(mv[q].event_id@ == x);
        lemma_first_index_of(r, x);
        let p = first_index_of(r, x)->0;
        assert(v[0] == ups[m - 1]);
        assert(mv[q] == moved_event(s[q], v));
        lemma_moved_event_at(s[q], v, 0);
        assert(r[p] == with_time(s[q], non_negative(ups[m - 1].new_time_us)));
        assert(with_time(r[p], s[q].time_us) == s[q]);
        assert(retimed(r, x, s[q].time_us) == r.update(p, s[q]));
        let mv2 = moved_events(s, v2);
        assert forall|i: int| 0 <= i < s.len() implies #[trigger] mv2[i] == mv.update(q, s[q])[i] by {
            assert(mv2[i] == moved_event(s[i], v2));
            assert(mv[i] == moved_event(s[i], v));
            if i == q {
                assert forall|j: int| 0 <= j < v2.len() implies #[trigger] v2[j].event_id@
                    != s[q].event_id@ by {
                    assert(v2[j] == ups[m + j]);
                }
                lemma_moved_event_none(s[q], v2);
            } else {
                assert(s[i].event_id@ != s[q].event_id@);
                if exists|j: int| 0 <= j < v.len() && #[trigger] v[j].event_id@ == s[i].event_id@ {
                    let j = choose|j: int| 0 <= j < v.len() && #[trigger] v[j].event_id@
                        == s[i].event_id@;
                    assert(j != 0);
                    assert(v2[j - 1] == v[j]);
                    lemma_moved_event_at(s[i], v, j);
                    lemma_moved_event_at(s[i], v2, j - 1);
                } else {
                    assert forall|j: int| 0 <= j < v2.len() implies #[trigger] v2[j].event_id@
                        != s[i].event_id@ by {
                        assert(v2[j] == v[j + 1]);
                    }
                    lemma_moved_event_none(s[i], v);
                    lemma_moved_event_none(s[i], v2);
                }
            }
        }
        assert(mv2 =~= mv.update(q, s[q]));
        lemma_sort_by_time(r.update(p, s[q]));
        assert(retimed_all(d0, changes.take(m), true) == sort_by_time(r.update(p, s[q])));
        assert(r.update(p, s[q]).to_multiset() == r.to_multiset().insert(s[q]).remove(r[p]));
        assert(mv2.to_multiset() == mv.to_multiset().insert(s[q]).remove(mv[q]));
    }
}

/// Undoing a move of several events gives back the events there were: on a
/// timeline whose events have distinct ids and times that are not negative,
/// moving events named by distinct updates and then undoing that edit
/// leaves the same events, each at its old time. Events at equal times may
/// come back in another order.
pub proof fn law_undo_after_moves(s: Seq<TimelineEvent>, ups: Seq<EventTimeUpdate>)
    requires
        ids_distinct(s),
        forall|i: int| 0 <= i < s.len() ==> #[trigger] s[i].time_us >= 0,
        update_ids_distinct(ups),
        applied_updates(s, ups) is Some,
    ensures
        ({
            let done = applied_updates(s, ups)->0;
            undo_effect(done.0, UndoActionView::UpdateEventTimes(done.1)).to_multiset()
                == s.to_multiset()
        }),
{
    let n = ups.len() as int;
    assert(ups.take(n) =~= ups);
    lemma_applied_updates_move(s, ups, n);
    let done = applied_updates(s, ups)->0;
    lemma_undo_moves(s, ups, done.0, done.1, n);
    assert(done.1.take(n) =~= done.1);
    let e = ups.subrange(n, n);
    assert(e =~= Seq::<EventTimeUpdate>::empty());
    assert forall|i: int| 0 <= i < s.len() implies #[trigger] moved_events(s, e)[i] == s[i] by {
        lemma_moved_event_none(s[i], e);
    }
    assert(moved_events(s, e) =~= s);
}

} // verus!
