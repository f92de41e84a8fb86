use vstd::prelude::*;

use crate::commands::undo_commands::event_ids;
use crate::ids::new_uuid_string;
use crate::text::joined;
use crate::models::recording::RecordingStatus;
use crate::models::slot::Slot;
use crate::models::timeline::{event_from_slot, with_time, TimelineEvent};
use crate::timeline::playback::{non_negative, PlaybackEngine, PlaybackStatus};
use crate::timeline::state::{
    clamp_i64, contains_id, find_event_index, first_index_of, id_listed, ids_before, in_window,
    lemma_first_index_of, max_end, retimed, sort_by_time, string_views, without_ids,
    TimelineState,
};
use crate::undo::{after_push, EventTimeChange, UndoAction, UndoActionView, UndoManager};

verus! {

broadcast use vstd::seq_lib::group_to_multiset_ensures;

/// How far ahead of the playhead the playback loop looks for events to start.
pub const PLAYBACK_LOOKAHEAD_US: i64 = 100_000;

/// How far a duplicate is placed after its original.
pub const DUPLICATE_OFFSET_US: i64 = 100_000;

/// The ids of the events already started in the current playback pass.
pub struct TriggeredIds {
    ids: Vec<String>,
}

impl View for TriggeredIds {
    type V = Set<Seq<char>>;

    closed spec fn view(&self) -> Set<Seq<char>> {
        string_views(self.ids@).to_set()
    }
}

impl TriggeredIds {
    pub fn new() -> (r: Self)
        ensures
            r@ == Set::<Seq<char>>::empty(),
    {
        let r = TriggeredIds { ids: Vec::new() };
        proof {
            assert(string_views(r.ids@) =~= Seq::<Seq<char>>::empty());
        }
        r
    }

    /// The set of the given ids.
    pub fn from_ids(ids: Vec<String>) -> (r: Self)
        ensures
            r@ == string_views(ids@).to_set(),
    {
        TriggeredIds { ids }
    }

    pub fn contains(&self, id: &String) -> (r: bool)
        ensures
            r == self@.contains(id@),
    {
        let mut i: usize = 0;
        while i < self.ids.len()
            invariant
                i <= self.ids.len(),
                forall|m: int| 0 <= m < i ==> self.ids@[m]@ != id@,
            decreases self.ids.len() - i,
        {
            if self.ids[i] == *id {
                proof {
                    assert(string_views(self.ids@)[i as int] == id@);
                }
                return true;
            }
            i = i + 1;
        }
        proof {
            if string_views(self.ids@).to_set().contains(id@) {
                let k = choose|k: int| 0 <= k < self.ids@.len() && string_views(self.ids@)[k] == id@;
                assert(self.ids@[k]@ == id@);
            }
        }
        false
    }

    /// Adds `id`; true when it was not there before.
    pub fn insert(&mut self, id: &String) -> (r: bool)
        ensures
            r == !old(self)@.contains(id@),
            final(self)@ == old(self)@.insert(id@),
    {
        if self.contains(id) {
            proof {
                assert(old(self)@.insert(id@) =~= old(self)@);
            }
            false
        } else {
            let ghost before = self.ids@;
            self.ids.push(id.clone());
            proof {
                assert(string_views(self.ids@) =~= string_views(before).push(id@));
                string_views(before).lemma_push_to_set_commute(id@);
            }
            true
        }
    }

    pub fn clear(&mut self)
        ensures
            final(self)@ == Set::<Seq<char>>::empty(),
    {
        self.ids.clear();
        proof {
            assert(string_views(self.ids@) =~= Seq::<Seq<char>>::empty());
        }
    }
}

/// The index of the first slot with the id `id`.
pub open spec fn first_slot_index(s: Seq<Slot>, id: Seq<char>) -> Option<int>
    decreases s.len(),
{
    if s.len() == 0 {
        None
    } else {
        match first_slot_index(s.drop_last(), id) {
            Some(k) => Some(k),
            None => if s.last().id@ == id {
                Some(s.len() - 1)
            } else {
                None
            },
        }
    }
}

pub proof fn lemma_first_slot_index(s: Seq<Slot>, id: Seq<char>)
    ensures
        match first_slot_index(s, id) {
            Some(k) => 0 <= k < s.len() && s[k].id@ == id && forall|m: int|
                0 <= m < k ==> s[m].id@ != id,
            None => forall|m: int| 0 <= m < s.len() ==> s[m].id@ != id,
        },
    decreases s.len(),
{
    if s.len() > 0 {
        let d = s.drop_last();
        lemma_first_slot_index(d, id);
        assert(forall|m: int| 0 <= m < d.len() ==> d[m] == s[m]);
    }
}

/// The first slot with the id `slot_id`.
pub fn find_slot(slots: &Vec<Slot>, slot_id: &str) -> (r: Result<Slot, String>)
    ensures
        match first_slot_index(slots@, slot_id@) {
            Some(k) => r == Ok::<Slot, String>(slots@[k]),
            None => r matches Err(e) && e@ == "slot not found"@,
        },
{
    proof {
        lemma_first_slot_index(slots@, slot_id@);
    }
    let id = slot_id.to_owned();
    let mut i: usize = 0;
    while i < slots.len()
        invariant
            i <= slots.len(),
            id@ == slot_id@,
            forall|m: int| 0 <= m < i ==> slots@[m].id@ != id@,
            match first_slot_index(slots@, slot_id@) {
                Some(k) => 0 <= k < slots@.len() && slots@[k].id@ == slot_id@ && forall|m: int|
                    0 <= m < k ==> slots@[m].id@ != slot_id@,
                None => forall|m: int| 0 <= m < slots@.len() ==> slots@[m].id@ != slot_id@,
            },
        decreases slots.len() - i,
    {
        if slots[i].id == id {
            return Ok(slots[i].clone());
        }
        i = i + 1;
    }
    Err("slot not found".to_string())
}

/// Places the sound of the slot `slot_id` on the timeline at `time_us`
/// (clamped to be non-negative) under a fresh id, and records the edit.
pub fn add_timeline_event(
    timeline: &mut TimelineState,
    undo_manager: &mut UndoManager,
    slots: &Vec<Slot>,
    slot_id: &str,
    time_us: i64,
) -> (r: Result<TimelineEvent, String>)
    ensures
        first_slot_index(slots@, slot_id@) is None <==> r is Err,
        r matches Err(e) ==> {
            &&& e@ == "slot not found"@
            &&& *final(timeline) == *old(timeline)
            &&& final(undo_manager)@ == old(undo_manager)@
        },
        r matches Ok(event) ==> {
            &&& event == event_from_slot(
                event.event_id,
                slots@[first_slot_index(slots@, slot_id@)->0],
                non_negative(time_us),
            )
            &&& final(timeline).events@ == sort_by_time(old(timeline).events@.push(event))
            &&& final(timeline).wf()
            &&& final(timeline).playhead_position_us == old(timeline).playhead_position_us
            &&& final(undo_manager)@ == after_push(
                old(undo_manager)@,
                UndoActionView::AddEvents(seq![event]),
            )
        },
{
    let slot = match find_slot(slots, slot_id) {
        Ok(slot) => slot,
        Err(e) => return Err(e),
    };
    let t: i64 = if time_us < 0 { 0 } else { time_us };
    let event = TimelineEvent::from_slot(new_uuid_string(), &slot, t);
    timeline.add_event(event.clone());
    let mut added: Vec<TimelineEvent> = Vec::new();
    added.push(event.clone());
    proof {
        assert(added@ =~= seq![event]);
    }
    undo_manager.push(UndoAction::AddEvents(added));
    Ok(event)
}

/// Moves the event `event_id` to `new_time_us` (clamped to be non-negative)
/// and records the edit with the time it had.
pub fn update_event_time(
    timeline: &mut TimelineState,
    undo_manager: &mut UndoManager,
    event_id: String,
    new_time_us: i64,
) -> (r: Result<(), String>)
    ensures
        first_index_of(old(timeline).events@, event_id@) is None <==> r is Err,
        r matches Err(e) ==> {
            &&& e@ == "event not found"@
            &&& *final(timeline) == *old(timeline)
            &&& final(undo_manager)@ == old(undo_manager)@
        },
        r is Ok ==> {
            let k = first_index_of(old(timeline).events@, event_id@)->0;
            &&& final(timeline).events@ == sort_by_time(
                retimed(old(timeline).events@, event_id@, non_negative(new_time_us)),
            )
            &&& final(timeline).wf()
            &&& final(timeline).playhead_position_us == old(timeline).playhead_position_us
            &&& final(undo_manager)@ == after_push(
                old(undo_manager)@,
                UndoActionView::UpdateEventTimes(
                    seq![
                        EventTimeChange {
                            event_id: event_id,
                            old_time_us: old(timeline).events@[k].time_us,
                            new_time_us: new_time_us,
                        },
                    ],
                ),
            )
        },
{
    proof {
        lemma_first_index_of(timeline.events@, event_id@);
    }
    let old_time_us = match find_event_index(&timeline.events, &event_id) {
        Some(k) => timeline.events[k].time_us,
        None => return Err("event not found".to_string()),
    };
    let next: i64 = if new_time_us < 0 { 0 } else { new_time_us };
    timeline.update_event_time(event_id.as_str(), next);
    let change = EventTimeChange { event_id, old_time_us, new_time_us };
    let mut changes: Vec<EventTimeChange> = Vec::new();
    changes.push(change);
    undo_manager.push(UndoAction::UpdateEventTimes(changes));
    Ok(())
}

/// The events of `s`, in order, whose ids are listed in `ids`.
pub open spec fn listed_events(s: Seq<TimelineEvent>, ids: Seq<String>) -> Seq<TimelineEvent>
    decreases s.len(),
{
    if s.len() == 0 {
        seq![]
    } else {
        let r = listed_events(s.drop_last(), ids);
        if id_listed(ids, s.last().event_id@) {
            r.push(s.last())
        } else {
            r
        }
    }
}

/// The events of `events`, in order, whose ids are listed in `ids`.
pub fn collect_listed_events(events: &Vec<TimelineEvent>, ids: &Vec<String>) -> (r: Vec<TimelineEvent>)
    ensures
        r@ == listed_events(events@, ids@),
{
    let mut r: Vec<TimelineEvent> = Vec::new();
    let mut i: usize = 0;
    while i < events.len()
        invariant
            i <= events.len(),
            r@ == listed_events(events@.take(i as int), ids@),
        decreases events.len() - i,
    {
        proof {
            assert(events@.take(i as int + 1).drop_last() =~= events@.take(i as int));
        }
        if contains_id(ids.as_slice(), &events[i].event_id) {
            r.push(events[i].clone());
        }
        i = i + 1;
    }
    proof {
        assert(events@.take(events.len() as int) =~= events@);
    }
    r
}

/// Whether events may be deleted: not while a recording runs or the
/// timeline plays.
pub open spec fn deletion_allowed(recording: RecordingStatus, playback: PlaybackStatus) -> bool {
    recording != RecordingStatus::Recording && playback != PlaybackStatus::Playing
}

/// Removes the listed events and records the edit; `Ok(true)` when any was
/// removed. Refused, with nothing changed, while a recording runs or the
/// timeline plays.
pub fn delete_timeline_events(
    timeline: &mut TimelineState,
    undo_manager: &mut UndoManager,
    event_ids: Vec<String>,
    recording: RecordingStatus,
    playback: PlaybackStatus,
) -> (r: Result<bool, String>)
    ensures
        !deletion_allowed(recording, playback) ==> {
            &&& r matches Err(e) && e@ == "cannot delete events while recording or playing"@
            &&& *final(timeline) == *old(timeline)
            &&& final(undo_manager)@ == old(undo_manager)@
        },
        deletion_allowed(recording, playback) && event_ids@.len() == 0 ==> {
            &&& r == Ok::<bool, String>(false)
            &&& *final(timeline) == *old(timeline)
            &&& final(undo_manager)@ == old(undo_manager)@
        },
        deletion_allowed(recording, playback) && event_ids@.len() > 0 ==> {
            &&& final(timeline).events@ == without_ids(old(timeline).events@, event_ids@)
            &&& final(timeline).total_duration_us == max_end(final(timeline).events@)
            &&& final(timeline).playhead_position_us == old(timeline).playhead_position_us
            &&& r == Ok::<bool, String>(listed_events(old(timeline).events@, event_ids@).len() > 0)
            &&& r == Ok::<bool, String>(true) ==> final(undo_manager)@ == after_push(
                old(undo_manager)@,
                UndoActionView::DeleteEvents(listed_events(old(timeline).events@, event_ids@)),
            )
            &&& r == Ok::<bool, String>(false) ==> final(undo_manager)@ == old(undo_manager)@
        },
{
    if recording == RecordingStatus::Recording || playback == PlaybackStatus::Playing {
        return Err("cannot delete events while recording or playing".to_string());
    }
    if event_ids.len() == 0 {
        return Ok(false);
    }
    let deleted = collect_listed_events(&timeline.events, &event_ids);
    timeline.delete_events(event_ids.as_slice());
    if deleted.len() == 0 {
        return Ok(false);
    }
    undo_manager.push(UndoAction::DeleteEvents(deleted));
    Ok(true)
}

/// A duplicate of `e`: the same event, a little later, under the id `id`.
pub open spec fn duplicate_of(e: TimelineEvent, id: String) -> TimelineEvent {
    TimelineEvent { event_id: id, time_us: clamp_i64(e.time_us + DUPLICATE_OFFSET_US), ..e }
}

/// Whether each of `dups` duplicates the event at its position in `srcs`.
pub open spec fn duplicates(srcs: Seq<TimelineEvent>, dups: Seq<TimelineEvent>) -> bool {
    &&& dups.len() == srcs.len()
    &&& forall|i: int| 0 <= i < srcs.len() ==> #[trigger] dups[i] == duplicate_of(srcs[i], dups[i].event_id)
}

/// Copies the listed events a little later under fresh ids, adds the copies
/// and records the edit; returns the copies.
pub fn duplicate_events(
    timeline: &mut TimelineState,
    undo_manager: &mut UndoManager,
    event_ids: Vec<String>,
) -> (r: Vec<TimelineEvent>)
    ensures
        duplicates(listed_events(old(timeline).events@, event_ids@), r@),
        final(timeline).events@ == sort_by_time(old(timeline).events@ + r@),
        final(timeline).wf(),
        final(timeline).playhead_position_us == old(timeline).playhead_position_us,
        r@.len() == 0 ==> final(undo_manager)@ == old(undo_manager)@,
        r@.len() > 0 ==> final(undo_manager)@ == after_push(
            old(undo_manager)@,
            UndoActionView::AddEvents(r@),
        ),
{
    let sources = collect_listed_events(&timeline.events, &event_ids);
    let mut copies: Vec<TimelineEvent> = Vec::new();
    let mut i: usize = 0;
    while i < sources.len()
        invariant
            i <= sources.len(),
            copies@.len() == i,
            forall|k: int| 0 <= k < i ==> #[trigger] copies@[k] == duplicate_of(sources@[k], copies@[k].event_id),
        decreases sources.len() - i,
    {
        let mut copy = sources[i].clone();
        copy.event_id = new_uuid_string();
        copy.time_us = if copy.time_us > i64::MAX - DUPLICATE_OFFSET_US {
            i64::MAX
        } else {
            copy.time_us + DUPLICATE_OFFSET_US
        };
        copies.push(copy);
        i = i + 1;
    }
    timeline.add_events(copies.clone());
    if copies.len() == 0 {
        return copies;
    }
    undo_manager.push(UndoAction::AddEvents(copies.clone()));
    copies
}

/// Empties the timeline, stops playback at the start and forgets all history.
pub fn reset_timeline(
    timeline: &mut TimelineState,
    undo_manager: &mut UndoManager,
    playback: &mut PlaybackEngine,
    triggered: &mut TriggeredIds,
)
    ensures
        final(timeline).events@ == Seq::<TimelineEvent>::empty(),
        final(timeline).total_duration_us == 0,
        final(timeline).playhead_position_us == 0,
        final(undo_manager)@.undo == Seq::<UndoActionView>::empty(),
        final(undo_manager)@.redo == Seq::<UndoActionView>::empty(),
        final(undo_manager)@.max_depth == old(undo_manager)@.max_depth,
        final(playback)@.status == PlaybackStatus::Stopped,
        final(playback)@.base_time_us == 0,
        final(triggered)@ == Set::<Seq<char>>::empty(),
{
    playback.stop();
    playback.seek(0);
    triggered.clear();
    timeline.events.clear();
    timeline.total_duration_us = 0;
    timeline.playhead_position_us = 0;
    undo_manager.clear();
}

/// Marks as started exactly the events that begin before `time_us`.
pub fn update_triggered_events_for_seek(
    timeline: &TimelineState,
    triggered: &mut TriggeredIds,
    time_us: i64,
)
    ensures
        final(triggered)@ == ids_before(timeline.events@, time_us).to_set(),
{
    let ids = timeline.get_events_before_time(time_us);
    *triggered = TriggeredIds::from_ids(ids);
}

/// Starts playback where the playhead stands; returns that time. Playback
/// that is already running goes on from where it has got to.
pub fn play_timeline(
    playback: &mut PlaybackEngine,
    timeline: &TimelineState,
    triggered: &mut TriggeredIds,
) -> (r: i64)
    ensures
        r >= 0,
        final(playback)@.status == PlaybackStatus::Playing,
        final(playback)@.base_time_us == r,
        final(triggered)@ == ids_before(timeline.events@, r).to_set(),
        old(playback)@.status != PlaybackStatus::Playing ==> r == old(playback)@.base_time_us,
        old(playback)@.status == PlaybackStatus::Playing ==> r >= old(playback)@.base_time_us,
{
    let from = playback.get_current_time();
    playback.play(from);
    update_triggered_events_for_seek(timeline, triggered, from);
    from
}

/// Moves the playhead to `time_us`, clamped to be non-negative.
pub fn seek_timeline(
    playback: &mut PlaybackEngine,
    timeline: &mut TimelineState,
    triggered: &mut TriggeredIds,
    time_us: i64,
) -> (r: i64)
    ensures
        r == non_negative(time_us),
        final(playback)@.status == old(playback)@.status,
        final(playback)@.base_time_us == r,
        final(timeline).playhead_position_us == r,
        final(timeline).events@ == old(timeline).events@,
        final(timeline).total_duration_us == old(timeline).total_duration_us,
        final(triggered)@ == ids_before(old(timeline).events@, r).to_set(),
{
    let target: i64 = if time_us < 0 { 0 } else { time_us };
    playback.seek(target);
    timeline.set_playhead_position(target);
    update_triggered_events_for_seek(timeline, triggered, target);
    target
}

/// The events of `es` to start when `seen` holds the ids already started:
/// each event whose id is neither in `seen` nor on an earlier event of `es`.
pub open spec fn fresh_events(es: Seq<TimelineEvent>, seen: Set<Seq<char>>) -> Seq<TimelineEvent>
    decreases es.len(),
{
    if es.len() == 0 {
        seq![]
    } else {
        let r = fresh_events(es.drop_last(), seen);
        let id = es.last().event_id@;
        if seen.contains(id) || string_views(event_ids(es.drop_last())).contains(id) {
            r
        } else {
            r.push(es.last())
        }
    }
}

/// The ids of `es`, in order, as text.
pub open spec fn id_texts(es: Seq<TimelineEvent>) -> Seq<Seq<char>> {
    string_views(event_ids(es))
}

pub proof fn lemma_id_texts(es: Seq<TimelineEvent>)
    ensures
        id_texts(es).len() == es.len(),
        forall|i: int| 0 <= i < es.len() ==> #[trigger] id_texts(es)[i] == es[i].event_id@,
{
    assert forall|i: int| 0 <= i < es.len() implies #[trigger] id_texts(es)[i] == es[i].event_id@ by {
        assert(event_ids(es)[i] == es[i].event_id);
    }
}

/// The events of a window start inside it and come from the timeline.
pub proof fn lemma_in_window(s: Seq<TimelineEvent>, from: i64, span: i64)
    ensures
        forall|j: int|
            0 <= j < in_window(s, from, span).len() ==> {
                let e = #[trigger] in_window(s, from, span)[j];
                &&& from <= e.time_us < from + span
                &&& s.contains(e)
            },
    decreases s.len(),
{
    if s.len() > 0 {
        let d = s.drop_last();
        lemma_in_window(d, from, span);
        let w = in_window(d, from, span);
        assert forall|j: int| 0 <= j < w.len() implies s.contains(#[trigger] w[j]) by {
            let k = choose|k: int| 0 <= k < d.len() && d[k] == w[j];
            assert(s[k] == d[k]);
        }
        assert(s[s.len() - 1] == s.last());
    }
}

/// The events that start fresh are new, each starts once, each comes from
/// the window, and each id is one of the window's.
pub proof fn lemma_fresh_events(es: Seq<TimelineEvent>, seen: Set<Seq<char>>)
    ensures
        forall|j: int|
            0 <= j < fresh_events(es, seen).len() ==> {
                let e = #[trigger] fresh_events(es, seen)[j];
                &&& !seen.contains(e.event_id@)
                &&& es.contains(e)
                &&& id_texts(es).contains(e.event_id@)
            },
        forall|a: int, b: int|
            0 <= a < b < fresh_events(es, seen).len() ==> (#[trigger] fresh_events(es, seen)[a]).event_id@
                != (#[trigger] fresh_events(es, seen)[b]).event_id@,
    decreases es.len(),
{
    if es.len() > 0 {
        let d = es.drop_last();
        lemma_fresh_events(d, seen);
        lemma_id_texts(d);
        lemma_id_texts(es);
        let r = fresh_events(d, seen);
        assert forall|j: int| 0 <= j < r.len() implies es.contains(#[trigger] r[j])
            && id_texts(es).contains(r[j].event_id@) by {
            let k = choose|k: int| 0 <= k < d.len() && d[k] == r[j];
            assert(es[k] == d[k]);
            let m = choose|m: int| 0 <= m < id_texts(d).len() && id_texts(d)[m] == r[j].event_id@;
            assert(id_texts(es)[m] == es[m].event_id@);
        }
        assert(id_texts(es)[es.len() - 1] == es.last().event_id@);
        assert(es[es.len() - 1] == es.last());
        if !(seen.contains(es.last().event_id@) || id_texts(d).contains(es.last().event_id@)) {
            assert forall|j: int| 0 <= j < r.len() implies (#[trigger] r[j]).event_id@
                != es.last().event_id@ by {
                let m = choose|m: int| 0 <= m < id_texts(d).len() && id_texts(d)[m] == r[j].event_id@;
            }
        }
    }
}

/// What a playback pass has marked started after ticks at the times `ts`,
/// in order, on the events `events`, from the ids `seen`.
pub open spec fn run_seen(events: Seq<TimelineEvent>, seen: Set<Seq<char>>, ts: Seq<i64>) -> Set<Seq<char>>
    decreases ts.len(),
{
    if ts.len() == 0 {
        seen
    } else {
        run_seen(events, seen, ts.drop_last()).union(
            string_views(event_ids(in_window(events, ts.last(), PLAYBACK_LOOKAHEAD_US))).to_set(),
        )
    }
}

/// The events a playback pass starts over ticks at the times `ts`, in the
/// order it starts them: at each tick, what `playback_tick` hands back.
pub open spec fn run_fired(events: Seq<TimelineEvent>, seen: Set<Seq<char>>, ts: Seq<i64>) -> Seq<TimelineEvent>
    decreases ts.len(),
{
    if ts.len() == 0 {
        Seq::empty()
    } else {
        run_fired(events, seen, ts.drop_last()) + fresh_events(
            in_window(events, ts.last(), PLAYBACK_LOOKAHEAD_US),
            run_seen(events, seen, ts.drop_last()),
        )
    }
}

/// Over a playback pass, every event started is a timeline event that had
/// not started, no event starts twice, and each starts at a tick whose
/// look-ahead window holds its time.
pub proof fn law_playback_starts_each_event_once(
    events: Seq<TimelineEvent>,
    seen: Set<Seq<char>>,
    ts: Seq<i64>,
)
    ensures
        forall|j: int|
            0 <= j < run_fired(events, seen, ts).len() ==> {
                let e = #[trigger] run_fired(events, seen, ts)[j];
                &&& !seen.contains(e.event_id@)
                &&& events.contains(e)
                &&& exists|k: int|
                    0 <= k < ts.len() && #[trigger] ts[k] <= e.time_us < ts[k] + PLAYBACK_LOOKAHEAD_US
            },
        forall|a: int, b: int|
            0 <= a < b < run_fired(events, seen, ts).len() ==> (#[trigger] run_fired(events, seen, ts)[a]).event_id@
                != (#[trigger] run_fired(events, seen, ts)[b]).event_id@,
        forall|j: int|
            0 <= j < run_fired(events, seen, ts).len() ==> run_seen(events, seen, ts).contains(
                (#[trigger] run_fired(events, seen, ts)[j]).event_id@,
            ),
        seen.subset_of(run_seen(events, seen, ts)),
    decreases ts.len(),
{
    if ts.len() > 0 {
        let p = ts.drop_last();
        let t = ts.last();
        law_playback_starts_each_event_once(events, seen, p);
        let prev = run_fired(events, seen, p);
        let s0 = run_seen(events, seen, p);
        let w = in_window(events, t, PLAYBACK_LOOKAHEAD_US);
        let new = fresh_events(w, s0);
        lemma_fresh_events(w, s0);
        lemma_in_window(events, t, PLAYBACK_LOOKAHEAD_US);
        lemma_id_texts(w);
        let all = run_fired(events, seen, ts);
        assert(all == prev + new);
        assert(ts[ts.len() - 1] == t);
        assert forall|j: int| 0 <= j < all.len() implies {
            let e = #[trigger] all[j];
            &&& !seen.contains(e.event_id@)
            &&& events.contains(e)
            &&& exists|k: int|
                0 <= k < ts.len() && #[trigger] ts[k] <= e.time_us < ts[k] + PLAYBACK_LOOKAHEAD_US
        } by {
            if j < prev.len() {
                assert(all[j] == prev[j]);
                let k = choose|k: int|
                    0 <= k < p.len() && #[trigger] p[k] <= prev[j].time_us < p[k] + PLAYBACK_LOOKAHEAD_US;
                assert(ts[k] == p[k]);
            } else {
                let m = j - prev.len();
                assert(all[j] == new[m]);
                let q = choose|q: int| 0 <= q < w.len() && w[q] == new[m];
            }
        }
        assert forall|j: int| 0 <= j < all.len() implies run_seen(events, seen, ts).contains(
            (#[trigger] all[j]).event_id@,
        ) by {
            if j < prev.len() {
                assert(all[j] == prev[j]);
            } else {
                let m = j - prev.len();
                assert(all[j] == new[m]);
                let q = choose|q: int| 0 <= q < id_texts(w).len() && id_texts(w)[q] == new[m].event_id@;
                assert(id_texts(w).to_set().contains(new[m].event_id@));
            }
        }
        assert forall|a: int, b: int| 0 <= a < b < all.len() implies (#[trigger] all[a]).event_id@
            != (#[trigger] all[b]).event_id@ by {
            if b < prev.len() {
                assert(all[a] == prev[a] && all[b] == prev[b]);
            } else if a < prev.len() {
                assert(all[a] == prev[a]);
                assert(all[b] == new[b - prev.len()]);
                assert(s0.contains(prev[a].event_id@));
            } else {
                assert(all[a] == new[a - prev.len()]);
                assert(all[b] == new[b - prev.len()]);
            }
        }
    }
}

/// What one step of the playback loop decided.
pub struct PlaybackTick {
    /// The events whose sound starts now, in timeline order.
    pub to_trigger: Vec<TimelineEvent>,
    /// Whether playback has run past the end of the timeline.
    pub finished: bool,
}

/// One step of the playback loop at `current_time_us`: moves the playhead,
/// picks the events in the look-ahead window that have not started yet and
/// marks them started, and tells whether the end has been passed.
pub fn playback_tick(
    timeline: &mut TimelineState,
    triggered: &mut TriggeredIds,
    current_time_us: i64,
) -> (r: PlaybackTick)
    ensures
        final(timeline).playhead_position_us == non_negative(current_time_us),
        final(timeline).events@ == old(timeline).events@,
        final(timeline).total_duration_us == old(timeline).total_duration_us,
        r.to_trigger@ == fresh_events(
            in_window(old(timeline).events@, current_time_us, PLAYBACK_LOOKAHEAD_US),
            old(triggered)@,
        ),
        final(triggered)@ == old(triggered)@.union(
            string_views(
                event_ids(in_window(old(timeline).events@, current_time_us, PLAYBACK_LOOKAHEAD_US)),
            ).to_set(),
        ),
        r.finished == (current_time_us >= old(timeline).total_duration_us + PLAYBACK_LOOKAHEAD_US),
{
    timeline.set_playhead_position(current_time_us);
    let window = timeline.get_events_at_time(current_time_us, PLAYBACK_LOOKAHEAD_US);
    let ghost seen = triggered@;
    let mut to_trigger: Vec<TimelineEvent> = Vec::new();
    let mut i: usize = 0;
    while i < window.len()
        invariant
            i <= window.len(),
            to_trigger@ == fresh_events(window@.take(i as int), seen),
            triggered@ == seen.union(string_views(event_ids(window@.take(i as int))).to_set()),
        decreases window.len() - i,
    {
        proof {
            let p = window@.take(i as int);
            let q = window@.take(i as int + 1);
            assert(q.drop_last() =~= p);
            assert(string_views(event_ids(q)) =~= string_views(event_ids(p)).push(
                window@[i as int].event_id@,
            ));
            string_views(event_ids(p)).lemma_push_to_set_commute(window@[i as int].event_id@);
            assert(seen.union(string_views(event_ids(q)).to_set()) =~= seen.union(
                string_views(event_ids(p)).to_set(),
            ).insert(window@[i as int].event_id@));
            assert(string_views(event_ids(p)).to_set().contains(window@[i as int].event_id@)
                <==> string_views(event_ids(p)).contains(window@[i as int].event_id@));
        }
        if triggered.insert(&window[i].event_id) {
            to_trigger.push(window[i].clone());
        }
        i = i + 1;
    }
    proof {
        assert(window@.take(window.len() as int) =~= window@);
    }
    let end: i128 = timeline.total_duration_us as i128 + PLAYBACK_LOOKAHEAD_US as i128;
    let finished = (current_time_us as i128) >= end;
    PlaybackTick { to_trigger, finished }
}

/// A requested new time for one event.
pub struct EventTimeUpdate {
    pub event_id: String,
    pub new_time_us: i64,
}

/// The timeline and the recorded changes after applying the updates in
/// order, each to the timeline the previous ones left; `None` when one of
/// them names an event that is not there.
pub open spec fn applied_updates(s: Seq<TimelineEvent>, ups: Seq<EventTimeUpdate>) -> Option<
    (Seq<TimelineEvent>, Seq<EventTimeChange>),
>
    decreases ups.len(),
{
    if ups.len() == 0 {
        Some((s, seq![]))
    } else {
        match applied_updates(s, ups.drop_last()) {
            None => None,
            Some(done) => {
                let cur = done.0;
                let u = ups.last();
                match first_index_of(cur, u.event_id@) {
                    None => None,
                    Some(k) => {
                        let t = non_negative(u.new_time_us);
                        Some(
                            (
                                sort_by_time(retimed(cur, u.event_id@, t)),
                                done.1.push(
                                    EventTimeChange {
                                        event_id: u.event_id,
                                        old_time_us: cur[k].time_us,
                                        new_time_us: t,
                                    },
                                ),
                            ),
                        )
                    },
                }
            },
        }
    }
}

/// Once an update fails, every longer run of the updates fails too.
pub proof fn lemma_applied_updates_fail(s: Seq<TimelineEvent>, ups: Seq<EventTimeUpdate>, n: int, m: int)
    requires
        0 <= n <= m <= ups.len(),
        applied_updates(s, ups.take(n)) is None,
    ensures
        applied_updates(s, ups.take(m)) is None,
    decreases m - n,
{
    if m > n {
        lemma_applied_updates_fail(s, ups, n, m - 1);
        assert(ups.take(m).drop_last() =~= ups.take(m - 1));
    }
}

/// Moves several events, one after the other, and records them as one edit.
/// When an update names a missing event, the ones before it stay applied
/// and nothing is recorded.
pub fn update_event_times(
    timeline: &mut TimelineState,
    undo_manager: &mut UndoManager,
    updates: Vec<EventTimeUpdate>,
) -> (r: Result<(), String>)
    ensures
        updates@.len() == 0 ==> {
            &&& r is Ok
            &&& *final(timeline) == *old(timeline)
            &&& final(undo_manager)@ == old(undo_manager)@
        },
        updates@.len() > 0 ==> (r is Ok <==> applied_updates(old(timeline).events@, updates@) is Some),
        updates@.len() > 0 && r is Ok ==> {
            let done = applied_updates(old(timeline).events@, updates@)->0;
            &&& final(timeline).events@ == done.0
            &&& final(timeline).wf()
            &&& final(timeline).playhead_position_us == old(timeline).playhead_position_us
            &&& final(undo_manager)@ == after_push(
                old(undo_manager)@,
                UndoActionView::UpdateEventTimes(done.1),
            )
        },
        r matches Err(e) ==> exists|j: int|
            0 <= j < updates@.len() && {
                &&& applied_updates(old(timeline).events@, updates@.take(j)) is Some
                &&& applied_updates(old(timeline).events@, updates@.take(j + 1)) is None
                &&& final(timeline).events@ == (applied_updates(
                    old(timeline).events@,
                    updates@.take(j),
                )->0).0
                &&& e@ == "event not found: "@ + updates@[j].event_id@
                &&& final(undo_manager)@ == old(undo_manager)@
            },
{
    if updates.len() == 0 {
        return Ok(());
    }
    let ghost orig = timeline.events@;
    let mut changes: Vec<EventTimeChange> = Vec::new();
    let mut i: usize = 0;
    proof {
        assert(updates@.take(0) =~= Seq::<EventTimeUpdate>::empty());
        assert(changes@ =~= Seq::<EventTimeChange>::empty());
    }
    while i < updates.len()
        invariant
            i <= updates.len(),
            updates@.len() > 0,
            orig == old(timeline).events@,
            applied_updates(orig, updates@.take(i as int)) == Some((timeline.events@, changes@)),
            i > 0 ==> timeline.wf(),
            timeline.playhead_position_us == old(timeline).playhead_position_us,
            undo_manager@ == old(undo_manager)@,
        decreases updates.len() - i,
    {
        let update = &updates[i];
        proof {
            assert(updates@.take(i as int + 1).drop_last() =~= updates@.take(i as int));
            lemma_first_index_of(timeline.events@, update.event_id@);
        }
        let old_time_us = match find_event_index(&timeline.events, &update.event_id) {
            Some(k) => timeline.events[k].time_us,
            None => {
                let e = joined("event not found: ", update.event_id.as_str());
                proof {
                    assert(e@ == "event not found: "@ + updates@[i as int].event_id@);
                    assert(applied_updates(orig, updates@.take(i as int + 1)) is None);
                    lemma_applied_updates_fail(orig, updates@, i as int + 1, updates@.len() as int);
                    assert(updates@.take(updates@.len() as int) =~= updates@);
                }
                return Err(e);
            },
        };
        let next: i64 = if update.new_time_us < 0 { 0 } else { update.new_time_us };
        timeline.update_event_time(update.event_id.as_str(), next);
        changes.push(
            EventTimeChange { event_id: update.event_id.clone(), old_time_us, new_time_us: next },
        );
        i = i + 1;
    }
    proof {
        assert(updates@.take(updates.len() as int) =~= updates@);
    }
    undo_manager.push(UndoAction::UpdateEventTimes(changes));
    Ok(())
}

} // verus!
