use vstd::prelude::*;

use crate::models::timeline::{with_time, TimelineEvent};

verus! {

broadcast use vstd::seq_lib::group_to_multiset_ensures;

/// Events appear in non-decreasing order of time.
pub open spec fn time_sorted(s: Seq<TimelineEvent>) -> bool {
    forall|i: int, j: int| 0 <= i <= j < s.len() ==> s[i].time_us <= s[j].time_us
}

/// Every event of `s` starts no later than `bound`.
pub open spec fn all_at_or_before(s: Seq<TimelineEvent>, bound: i64) -> bool {
    forall|k: int| 0 <= k < s.len() ==> s[k].time_us <= bound
}

/// `e` placed after every event that does not start later than it, scanning
/// from the back: on a time-sorted sequence, the stable insertion of `e`.
pub open spec fn insert_by_time(s: Seq<TimelineEvent>, e: TimelineEvent) -> Seq<TimelineEvent>
    decreases s.len(),
{
    if s.len() == 0 {
        seq![e]
    } else if s.last().time_us <= e.time_us {
        s.push(e)
    } else {
        insert_by_time(s.drop_last(), e).push(s.last())
    }
}

/// The stable sort of `s` by time: events with equal times keep their
/// relative order.
pub open spec fn sort_by_time(s: Seq<TimelineEvent>) -> Seq<TimelineEvent>
    decreases s.len(),
{
    if s.len() == 0 {
        seq![]
    } else {
        insert_by_time(sort_by_time(s.drop_last()), s.last())
    }
}

/// `x` clamped into the range of `i64`.
pub open spec fn clamp_i64(x: int) -> i64 {
    if x > i64::MAX {
        i64::MAX
    } else if x < i64::MIN {
        i64::MIN
    } else {
        x as i64
    }
}

/// The time at which an event's sound ends.
pub open spec fn end_time_us(e: TimelineEvent) -> i64 {
    clamp_i64(e.time_us + e.duration_us)
}

/// The latest end time of the events, and never less than zero.
pub open spec fn max_end(s: Seq<TimelineEvent>) -> i64
    decreases s.len(),
{
    if s.len() == 0 {
        0
    } else {
        let m = max_end(s.drop_last());
        let x = end_time_us(s.last());
        if x > m {
            x
        } else {
            m
        }
    }
}

/// Whether `id` is one of `ids`.
pub open spec fn id_listed(ids: Seq<String>, id: Seq<char>) -> bool {
    exists|k: int| 0 <= k < ids.len() && ids[k]@ == id
}

/// The events of `s`, in order, whose ids are not listed in `ids`.
pub open spec fn without_ids(s: Seq<TimelineEvent>, ids: Seq<String>) -> Seq<TimelineEvent>
    decreases s.len(),
{
    if s.len() == 0 {
        seq![]
    } else {
        let r = without_ids(s.drop_last(), ids);
        if id_listed(ids, s.last().event_id@) {
            r
        } else {
            r.push(s.last())
        }
    }
}

/// The index of the first event of `s` with the id `id`.
pub open spec fn first_index_of(s: Seq<TimelineEvent>, id: Seq<char>) -> Option<int>
    decreases s.len(),
{
    if s.len() == 0 {
        None
    } else {
        match first_index_of(s.drop_last(), id) {
            Some(k) => Some(k),
            None => if s.last().event_id@ == id {
                Some(s.len() - 1)
            } else {
                None
            },
        }
    }
}

/// `s` with the first event of id `id`, if there is one, moved to time `t`.
pub open spec fn retimed(s: Seq<TimelineEvent>, id: Seq<char>, t: i64) -> Seq<TimelineEvent> {
    match first_index_of(s, id) {
        Some(k) => s.update(k, with_time(s[k], t)),
        None => s,
    }
}

/// The events of `s`, in order, that start in `[from, from + span)`.
pub open spec fn in_window(s: Seq<TimelineEvent>, from: i64, span: i64) -> Seq<TimelineEvent>
    decreases s.len(),
{
    if s.len() == 0 {
        seq![]
    } else {
        let r = in_window(s.drop_last(), from, span);
        let t = s.last().time_us;
        if from <= t && t < from + span {
            r.push(s.last())
        } else {
            r
        }
    }
}

/// The look-ahead window misses no event: it holds exactly the events of
/// the timeline that start at or after `from` and before `from + span`, in
/// timeline order, however many start at the same moment.
pub proof fn law_window_holds_every_event_in_it(s: Seq<TimelineEvent>, from: i64, span: i64)
    ensures
        in_window(s, from, span) == s.filter(
            |e: TimelineEvent| from <= e.time_us && e.time_us < from + span,
        ),
    decreases s.len(),
{
    reveal(Seq::filter);
    if s.len() > 0 {
        law_window_holds_every_event_in_it(s.drop_last(), from, span);
    }
}

/// The ids, in order, of the events of `s` that start before `t`.
pub open spec fn ids_before(s: Seq<TimelineEvent>, t: i64) -> Seq<Seq<char>>
    decreases s.len(),
{
    if s.len() == 0 {
        seq![]
    } else {
        let r = ids_before(s.drop_last(), t);
        if s.last().time_us < t {
            r.push(s.last().event_id@)
        } else {
            r
        }
    }
}

/// The views of a sequence of strings.
pub open spec fn string_views(v: Seq<String>) -> Seq<Seq<char>> {
    v.map_values(|s: String| s@)
}

pub proof fn lemma_insert_by_time_at(s: Seq<TimelineEvent>, e: TimelineEvent, j: int)
    requires
        0 <= j <= s.len(),
        forall|k: int| j <= k < s.len() ==> s[k].time_us > e.time_us,
        j == 0 || s[j - 1].time_us <= e.time_us,
    ensures
        insert_by_time(s, e) == s.insert(j, e),
    decreases s.len(),
{
    if s.len() == 0 {
        assert(s.insert(j, e) =~= seq![e]);
    } else if s.last().time_us <= e.time_us {
        assert(s.insert(j, e) =~= s.push(e));
    } else {
        lemma_insert_by_time_at(s.drop_last(), e, j);
        assert(s.drop_last().insert(j, e).push(s.last()) =~= s.insert(j, e));
    }
}

pub proof fn lemma_insert_by_time_multiset(s: Seq<TimelineEvent>, e: TimelineEvent)
    ensures
        insert_by_time(s, e).to_multiset() == s.to_multiset().insert(e),
        insert_by_time(s, e).len() == s.len() + 1,
    decreases s.len(),
{
    if s.len() == 0 {
        assert(seq![e] =~= s.push(e));
    } else if s.last().time_us <= e.time_us {
    } else {
        lemma_insert_by_time_multiset(s.drop_last(), e);
        assert(s.drop_last().push(s.last()) =~= s);
        assert(insert_by_time(s, e).to_multiset() =~= s.to_multiset().insert(e));
    }
}

pub proof fn lemma_insert_by_time_bounded(s: Seq<TimelineEvent>, e: TimelineEvent, b: i64)
    requires
        all_at_or_before(s, b),
        e.time_us <= b,
    ensures
        all_at_or_before(insert_by_time(s, e), b),
    decreases s.len(),
{
    if s.len() == 0 {
    } else if s.last().time_us <= e.time_us {
    } else {
        lemma_insert_by_time_bounded(s.drop_last(), e, b);
    }
}

pub proof fn lemma_insert_by_time_sorted(s: Seq<TimelineEvent>, e: TimelineEvent)
    requires
        time_sorted(s),
    ensures
        time_sorted(insert_by_time(s, e)),
    decreases s.len(),
{
    if s.len() == 0 {
    } else if s.last().time_us <= e.time_us {
    } else {
        let d = s.drop_last();
        lemma_insert_by_time_sorted(d, e);
        lemma_insert_by_time_bounded(d, e, s.last().time_us);
        lemma_insert_by_time_multiset(d, e);
        let r = insert_by_time(d, e);
        assert(time_sorted(r.push(s.last()))) by {
            assert forall|i: int, j: int| 0 <= i <= j < r.len() + 1 implies r.push(
                s.last(),
            )[i].time_us <= r.push(s.last())[j].time_us by {
                if j == r.len() && i < j {
                    assert(r[i].time_us <= s.last().time_us);
                }
            }
        }
    }
}

/// The stable sort orders by time and keeps exactly the events it was given.
pub proof fn lemma_sort_by_time(s: Seq<TimelineEvent>)
    ensures
        time_sorted(sort_by_time(s)),
        sort_by_time(s).to_multiset() == s.to_multiset(),
        sort_by_time(s).len() == s.len(),
    decreases s.len(),
{
    if s.len() > 0 {
        lemma_sort_by_time(s.drop_last());
        lemma_insert_by_time_sorted(sort_by_time(s.drop_last()), s.last());
        lemma_insert_by_time_multiset(sort_by_time(s.drop_last()), s.last());
        assert(s.drop_last().push(s.last()) =~= s);
    }
}

/// Sorting what is already sorted changes nothing.
pub proof fn lemma_sort_of_sorted(s: Seq<TimelineEvent>)
    requires
        time_sorted(s),
    ensures
        sort_by_time(s) == s,
    decreases s.len(),
{
    if s.len() > 0 {
        let d = s.drop_last();
        assert(time_sorted(d));
        lemma_sort_of_sorted(d);
        assert(d.push(s.last()) =~= s);
    }
}

/// Sorting an extended sequence inserts the new event into the sorted prefix.
pub proof fn lemma_sort_push(s: Seq<TimelineEvent>, e: TimelineEvent)
    ensures
        sort_by_time(s.push(e)) == insert_by_time(sort_by_time(s), e),
{
    assert(s.push(e).drop_last() =~= s);
}

/// Moves `e` into the time-sorted place in `v`, after events at the same time.
fn insert_event_sorted(v: &mut Vec<TimelineEvent>, e: TimelineEvent)
    ensures
        final(v)@ == insert_by_time(old(v)@, e),
{
    let mut j = v.len();
    while j > 0 && v[j - 1].time_us > e.time_us
        invariant
            j <= v.len(),
            v@ == old(v)@,
            forall|k: int| j <= k < v.len() ==> v[k].time_us > e.time_us,
        decreases j,
    {
        j = j - 1;
    }
    proof {
        lemma_insert_by_time_at(v@, e, j as int);
    }
    v.insert(j, e);
}

/// A stable sort of the events by time.
pub fn sort_events_by_time(events: &Vec<TimelineEvent>) -> (r: Vec<TimelineEvent>)
    ensures
        r@ == sort_by_time(events@),
{
    let mut r: Vec<TimelineEvent> = Vec::new();
    let mut i: usize = 0;
    while i < events.len()
        invariant
            i <= events.len(),
            r@ == sort_by_time(events@.take(i as int)),
        decreases events.len() - i,
    {
        proof {
            assert(events@.take(i as int + 1) =~= events@.take(i as int).push(events@[i as int]));
            lemma_sort_push(events@.take(i as int), events@[i as int]);
        }
        insert_event_sorted(&mut r, events[i].clone());
        i = i + 1;
    }
    proof {
        assert(events@.take(events.len() as int) =~= events@);
    }
    r
}

pub proof fn lemma_without_ids_bounded(s: Seq<TimelineEvent>, ids: Seq<String>, b: i64)
    requires
        all_at_or_before(s, b),
    ensures
        all_at_or_before(without_ids(s, ids), b),
    decreases s.len(),
{
    if s.len() > 0 {
        lemma_without_ids_bounded(s.drop_last(), ids, b);
    }
}

/// Removing events keeps a sorted timeline sorted.
pub proof fn lemma_without_ids_sorted(s: Seq<TimelineEvent>, ids: Seq<String>)
    requires
        time_sorted(s),
    ensures
        time_sorted(without_ids(s, ids)),
    decreases s.len(),
{
    if s.len() > 0 {
        let d = s.drop_last();
        lemma_without_ids_sorted(d, ids);
        lemma_without_ids_bounded(d, ids, s.last().time_us);
        let r = without_ids(d, ids);
        if !id_listed(ids, s.last().event_id@) {
            assert forall|i: int, j: int| 0 <= i <= j < r.len() + 1 implies r.push(
                s.last(),
            )[i].time_us <= r.push(s.last())[j].time_us by {
                if j == r.len() && i < j {
                    assert(r[i].time_us <= s.last().time_us);
                }
            }
        }
    }
}

pub proof fn lemma_first_index_of(s: Seq<TimelineEvent>, id: Seq<char>)
    ensures
        match first_index_of(s, id) {
            Some(k) => 0 <= k < s.len() && s[k].event_id@ == id && forall|m: int|
                0 <= m < k ==> s[m].event_id@ != id,
            None => forall|m: int| 0 <= m < s.len() ==> s[m].event_id@ != id,
        },
    decreases s.len(),
{
    if s.len() > 0 {
        let d = s.drop_last();
        lemma_first_index_of(d, id);
        assert(forall|m: int| 0 <= m < d.len() ==> d[m] == s[m]);
    }
}

/// Whether one of `ids` equals `id`.
pub fn contains_id(ids: &[String], id: &String) -> (r: bool)
    ensures
        r == id_listed(ids@, id@),
{
    let mut k: usize = 0;
    while k < ids.len()
        invariant
            k <= ids.len(),
            forall|m: int| 0 <= m < k ==> ids@[m]@ != id@,
        decreases ids.len() - k,
    {
        if ids[k] == *id {
            return true;
        }
        k = k + 1;
    }
    false
}

/// The index of the first event with the id `id`.
pub fn find_event_index(events: &Vec<TimelineEvent>, id: &String) -> (r: Option<usize>)
    ensures
        match r {
            Some(k) => first_index_of(events@, id@) == Some(k as int),
            None => first_index_of(events@, id@) is None,
        },
{
    proof {
        lemma_first_index_of(events@, id@);
    }
    let mut i: usize = 0;
    while i < events.len()
        invariant
            i <= events.len(),
            forall|m: int| 0 <= m < i ==> events@[m].event_id@ != id@,
            match first_index_of(events@, id@) {
                Some(k) => 0 <= k < events@.len() && events@[k].event_id@ == id@ && forall|m: int|
                    0 <= m < k ==> events@[m].event_id@ != id@,
                None => forall|m: int| 0 <= m < events@.len() ==> events@[m].event_id@ != id@,
            },
        decreases events.len() - i,
    {
        if events[i].event_id == *id {
            return Some(i);
        }
        i = i + 1;
    }
    None
}

/// The timeline's events with its derived duration and playhead.
pub struct TimelineState {
    pub events: Vec<TimelineEvent>,
    pub total_duration_us: i64,
    pub playhead_position_us: i64,
}

impl Default for TimelineState {
    fn default() -> (r: Self)
        ensures
            r.events@ == Seq::<TimelineEvent>::empty(),
            r.total_duration_us == 0,
            r.playhead_position_us == 0,
    {
        TimelineState { events: Vec::new(), total_duration_us: 0, playhead_position_us: 0 }
    }
}

impl TimelineState {
    /// Events sorted by time, and the duration up to date with them.
    pub open spec fn wf(&self) -> bool {
        &&& time_sorted(self.events@)
        &&& self.total_duration_us == max_end(self.events@)
    }

    /// Adds one event and keeps the timeline sorted by time.
    pub fn add_event(&mut self, event: TimelineEvent)
        ensures
            final(self).events@ == sort_by_time(old(self).events@.push(event)),
            final(self).total_duration_us == max_end(final(self).events@),
            final(self).playhead_position_us == old(self).playhead_position_us,
            final(self).wf(),
    {
        self.events.push(event);
        self.events = sort_events_by_time(&self.events);
        proof {
            lemma_sort_by_time(self.events@);
            lemma_sort_by_time(old(self).events@.push(event));
        }
        self.recalculate_duration();
    }

    /// Adds several events and keeps the timeline sorted by time.
    pub fn add_events(&mut self, events: Vec<TimelineEvent>)
        ensures
            final(self).events@ == sort_by_time(old(self).events@ + events@),
            final(self).total_duration_us == max_end(final(self).events@),
            final(self).playhead_position_us == old(self).playhead_position_us,
            final(self).wf(),
    {
        let ghost added = events@;
        let mut events = events;
        self.events.append(&mut events);
        self.events = sort_events_by_time(&self.events);
        proof {
            lemma_sort_by_time(old(self).events@ + added);
        }
        self.recalculate_duration();
    }

    /// Removes every event whose id is listed.
    pub fn delete_events(&mut self, event_ids: &[String])
        ensures
            final(self).events@ == without_ids(old(self).events@, event_ids@),
            final(self).total_duration_us == max_end(final(self).events@),
            final(self).playhead_position_us == old(self).playhead_position_us,
            time_sorted(old(self).events@) ==> final(self).wf(),
    {
        let mut kept: Vec<TimelineEvent> = Vec::new();
        let mut i: usize = 0;
        while i < self.events.len()
            invariant
                i <= self.events.len(),
                self.events@ == old(self).events@,
                kept@ == without_ids(self.events@.take(i as int), event_ids@),
            decreases self.events.len() - i,
        {
            proof {
                assert(self.events@.take(i as int + 1).drop_last() =~= self.events@.take(i as int));
            }
            if !contains_id(event_ids, &self.events[i].event_id) {
                kept.push(self.events[i].clone());
            }
            i = i + 1;
        }
        proof {
            assert(self.events@.take(self.events.len() as int) =~= self.events@);
            if time_sorted(old(self).events@) {
                lemma_without_ids_sorted(old(self).events@, event_ids@);
            }
        }
        self.events = kept;
        self.recalculate_duration();
    }

    /// Moves the first event with the given id to `new_time_us`, clamped to
    /// be non-negative, and sorts the timeline again.
    pub fn update_event_time(&mut self, event_id: &str, new_time_us: i64)
        ensures
            final(self).events@ == sort_by_time(
                retimed(old(self).events@, event_id@, if new_time_us < 0 { 0 } else { new_time_us }),
            ),
            final(self).total_duration_us == max_end(final(self).events@),
            final(self).playhead_position_us == old(self).playhead_position_us,
            final(self).wf(),
    {
        let t: i64 = if new_time_us < 0 { 0 } else { new_time_us };
        let id = event_id.to_owned();
        proof {
            lemma_first_index_of(self.events@, event_id@);
        }
        match find_event_index(&self.events, &id) {
            Some(k) => {
                let mut moved = self.events[k].clone();
                moved.time_us = t;
                self.events.set(k, moved);
            },
            None => {},
        }
        proof {
            assert(self.events@ =~= retimed(old(self).events@, event_id@, t));
        }
        self.events = sort_events_by_time(&self.events);
        proof {
            lemma_sort_by_time(retimed(old(self).events@, event_id@, t));
        }
        self.recalculate_duration();
    }

    /// Places the playhead at `time_us`, clamped to be non-negative.
    pub fn set_playhead_position(&mut self, time_us: i64)
        ensures
            final(self).playhead_position_us == if time_us < 0 { 0 } else { time_us },
            final(self).events@ == old(self).events@,
            final(self).total_duration_us == old(self).total_duration_us,
    {
        self.playhead_position_us = if time_us < 0 { 0 } else { time_us };
    }

    /// The events that start in `[time_us, time_us + lookahead_us)`, in order.
    pub fn get_events_at_time(&self, time_us: i64, lookahead_us: i64) -> (r: Vec<TimelineEvent>)
        ensures
            r@ == in_window(self.events@, time_us, lookahead_us),
            r@ == self.events@.filter(
                |e: TimelineEvent| time_us <= e.time_us && e.time_us < time_us + lookahead_us,
            ),
    {
        let mut r: Vec<TimelineEvent> = Vec::new();
        let mut i: usize = 0;
        let end: i128 = time_us as i128 + lookahead_us as i128;
        while i < self.events.len()
            invariant
                i <= self.events.len(),
                end == time_us + lookahead_us,
                r@ == in_window(self.events@.take(i as int), time_us, lookahead_us),
            decreases self.events.len() - i,
        {
            proof {
                assert(self.events@.take(i as int + 1).drop_last() =~= self.events@.take(i as int));
            }
            let t = self.events[i].time_us;
            if time_us <= t && (t as i128) < end {
                r.push(self.events[i].clone());
            }
            i = i + 1;
        }
        proof {
            assert(self.events@.take(self.events.len() as int) =~= self.events@);
            law_window_holds_every_event_in_it(self.events@, time_us, lookahead_us);
        }
        r
    }

    /// The ids of the events that start before `time_us`, in order.
    pub fn get_events_before_time(&self, time_us: i64) -> (r: Vec<String>)
        ensures
            string_views(r@) == ids_before(self.events@, time_us),
    {
        let mut r: Vec<String> = Vec::new();
        let mut i: usize = 0;
        while i < self.events.len()
            invariant
                i <= self.events.len(),
                string_views(r@) == ids_before(self.events@.take(i as int), time_us),
            decreases self.events.len() - i,
        {
            proof {
                assert(self.events@.take(i as int + 1).drop_last() =~= self.events@.take(i as int));
            }
            if self.events[i].time_us < time_us {
                let id = self.events[i].event_id.clone();
                proof {
                    assert(string_views(r@.push(id)) =~= string_views(r@).push(id@));
                }
                r.push(id);
            }
            i = i + 1;
        }
        proof {
            assert(self.events@.take(self.events.len() as int) =~= self.events@);
        }
        r
    }

    /// Sets the total duration to the latest end time of the events.
    pub fn recalculate_duration(&mut self)
        ensures
            final(self).total_duration_us == max_end(final(self).events@),
            final(self).events@ == old(self).events@,
            final(self).playhead_position_us == old(self).playhead_position_us,
    {
        let mut m: i64 = 0;
        let mut i: usize = 0;
        while i < self.events.len()
            invariant
                i <= self.events.len(),
                m == max_end(self.events@.take(i as int)),
            decreases self.events.len() - i,
        {
            proof {
                assert(self.events@.take(i as int + 1).drop_last() =~= self.events@.take(i as int));
            }
            let e = &self.events[i];
            let sum: i128 = e.time_us as i128 + e.duration_us as i128;
            let x: i64 = if sum > i64::MAX as i128 {
                i64::MAX
            } else if sum < i64::MIN as i128 {
                i64::MIN
            } else {
                sum as i64
            };
            if x > m {
                m = x;
            }
            i = i + 1;
        }
        proof {
            assert(self.events@.take(self.events.len() as int) =~= self.events@);
        }
        self.total_duration_us = m;
    }
}

} // verus!
