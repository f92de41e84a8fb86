use vstd::prelude::*;

use crate::autosave::AutosaveManager;
use crate::clock::{is_later, later_than, utc_now, UtcTime};
use crate::commands::timeline_commands::TriggeredIds;
use crate::models::recording::RecordingStatus;
use crate::recording::engine::RecordingEngine;
use crate::recording::shortcut_manager::{
    failure_of,
    no_bindings,
    synced_with,
    plan,
    reads_shortcuts,
    synced,
    ParsedView,
    PlanView,
    ShortcutManager,
    ShortcutView,
};
use crate::timeline::playback::{PlaybackEngine, PlaybackStatus};
use crate::undo::{UndoActionView, UndoManager};
use crate::models::project::{Project, ProjectSettings, TimelineData};
use crate::models::slot::Slot;
use crate::models::timeline::TimelineEvent;
use crate::paths::{file_tail, path_file_stem, plain_path, stem_of};
use crate::text::{chars_of, decimal, push_decimal, push_str, str_eq, string_from_chars};
use crate::timeline::state::{
    lemma_sort_by_time,
    max_end,
    sort_by_time,
    sort_events_by_time,
    time_sorted,
    TimelineState,
};

verus! {

/// What the front end is told of the open project.
pub struct ProjectStatePayload {
    pub project_name: String,
    pub current_path: Option<String>,
    pub has_unsaved_changes: bool,
    pub global_shortcuts_enabled: bool,
    pub frame_rate: u32,
    pub board_rows: u8,
    pub board_columns: u8,
}

/// The state of the open project as the front end sees it.
pub fn get_project_state(
    project_name: &String,
    current_path: &Option<String>,
    has_unsaved_changes: bool,
    settings: &ProjectSettings,
) -> (r: ProjectStatePayload)
    ensures
        r.project_name == *project_name,
        r.current_path == *current_path,
        r.has_unsaved_changes == has_unsaved_changes,
        r.global_shortcuts_enabled == settings.global_shortcuts_enabled,
        r.frame_rate == settings.frame_rate,
        r.board_rows == settings.board_rows,
        r.board_columns == settings.board_columns,
{
    ProjectStatePayload {
        project_name: project_name.clone(),
        current_path: match current_path {
            Some(p) => Some(p.clone()),
            None => None,
        },
        has_unsaved_changes,
        global_shortcuts_enabled: settings.global_shortcuts_enabled,
        frame_rate: settings.frame_rate,
        board_rows: settings.board_rows,
        board_columns: settings.board_columns,
    }
}

/// Whether an automatic save can be offered for recovery.
pub struct AutosaveRecoveryInfo {
    pub has_recoverable: bool,
    pub autosave_path: String,
    pub modified_at: Option<String>,
}

/// Whether the automatic save, last written at `modified`, is newer than
/// the last save by hand, if there was one.
pub open spec fn recoverable(modified: Option<UtcTime>, last_saved: Option<UtcTime>) -> bool {
    match (modified, last_saved) {
        (Some(m), Some(s)) => is_later(m, s),
        (Some(_), None) => true,
        _ => false,
    }
}

/// The RFC 3339 text of a moment given as seconds and nanoseconds since the
/// Unix epoch, where chrono can represent it.
pub uninterp spec fn rfc3339_of(secs: i64, nanos: u32) -> Option<Seq<char>>;

/// `chrono::DateTime::<Utc>::from_timestamp`, then `to_rfc3339` on what it
/// gives: the moment as RFC 3339 text, or nothing where the seconds or the
/// nanoseconds are out of chrono's range. The text is named, not spelled
/// out: it is the calendar date and time of the moment.
#[verifier::external_body]
fn rfc3339_text(secs: i64, nanos: u32) -> (r: Option<String>)
    ensures
        match r {
            Some(s) => rfc3339_of(secs, nanos) == Some(s@),
            None => rfc3339_of(secs, nanos) is None,
        },
{
    chrono::DateTime::<chrono::Utc>::from_timestamp(secs, nanos).map(|t| t.to_rfc3339())
}

/// Whether the automatic save should be offered for recovery: it exists, and
/// it was written after the last save by hand, if any.
pub fn check_autosave_recovery(
    autosave_exists: bool,
    autosave_path: String,
    autosave_modified: Option<UtcTime>,
    last_saved_at: Option<UtcTime>,
) -> (r: AutosaveRecoveryInfo)
    ensures
        r.autosave_path == autosave_path,
        r.has_recoverable == (autosave_exists && recoverable(autosave_modified, last_saved_at)),
        !autosave_exists ==> r.modified_at is None,
        autosave_exists ==> match autosave_modified {
            Some(t) => match r.modified_at {
                Some(s) => rfc3339_of(t.secs, t.nanos) == Some(s@),
                None => rfc3339_of(t.secs, t.nanos) is None,
            },
            None => r.modified_at is None,
        },
{
    if !autosave_exists {
        return AutosaveRecoveryInfo { has_recoverable: false, autosave_path, modified_at: None };
    }
    let has_recoverable = match (autosave_modified, last_saved_at) {
        (Some(m), Some(s)) => later_than(m, s),
        (Some(_), None) => true,
        _ => false,
    };
    let modified_at = match autosave_modified {
        Some(t) => rfc3339_text(t.secs, t.nanos),
        None => None,
    };
    AutosaveRecoveryInfo { has_recoverable, autosave_path, modified_at }
}

/// The name a project is saved under: an untitled project takes the stem of
/// the file it is saved to, where the file has one.
pub open spec fn saved_name(current: Seq<char>, stem: Option<String>) -> Seq<char> {
    if current == "Untitled"@ {
        match stem {
            Some(s) => s@,
            None => current,
        }
    } else {
        current
    }
}

/// The name a project called `current` is saved under, given the stem of
/// the file it is saved to.
pub fn name_with_stem(current: &str, stem: Option<String>) -> (r: String)
    ensures
        r@ == saved_name(current@, stem),
{
    if str_eq(current, "Untitled") {
        match stem {
            Some(s) => {
                return s;
            },
            None => {},
        }
    }
    current.to_string()
}

/// Stamps a project with the time of saving and, where it is untitled,
/// names it after the file it is saved to. Nothing else changes.
pub fn prepare_project_for_save(project: &mut Project, file_path: &str)
    ensures
        exists|stem: Option<String>|
            final(project).project_name@ == #[trigger] saved_name(old(project).project_name@, stem),
        old(project).project_name@ != "Untitled"@ ==> final(project).project_name@ == old(
            project,
        ).project_name@,
        (old(project).project_name@ == "Untitled"@ && plain_path(file_path@)) ==> (final(project).project_name@ == stem_of(file_tail(file_path@))),
        final(project).version == old(project).version,
        final(project).created_at == old(project).created_at,
        final(project).settings == old(project).settings,
        final(project).slots@ == old(project).slots@,
        final(project).timeline.events@ == old(project).timeline.events@,
        final(project).timeline.total_duration_us == old(project).timeline.total_duration_us,
{
    project.modified_at = utc_now();
    let stem = path_file_stem(file_path);
    let name = name_with_stem(project.project_name.as_str(), stem);
    project.project_name = name;
}

/// The refusal of a project with more slots than the board allows.
pub open spec fn slot_limit_message(count: nat, max_slots: nat) -> Seq<char> {
    "project has "@ + decimal(count) + " slots but current limit is "@ + decimal(max_slots)
}

/// Whether a project with `count` slots fits a board of `max_slots`.
pub fn check_project_slot_limit(count: usize, max_slots: usize) -> (r: Result<(), String>)
    ensures
        r is Err <==> count > max_slots,
        r matches Err(m) ==> m@ == slot_limit_message(count as nat, max_slots as nat),
{
    if count > max_slots {
        let mut chars: Vec<char> = Vec::new();
        push_str(&mut chars, "project has ");
        push_decimal(&mut chars, count as u64);
        push_str(&mut chars, " slots but current limit is ");
        push_decimal(&mut chars, max_slots as u64);
        proof {
            assert(chars@ =~= slot_limit_message(count as nat, max_slots as nat));
        }
        return Err(string_from_chars(&chars));
    }
    Ok(())
}

/// Text order: character by character by code point, a proper prefix
/// first. It is the order of Rust's `String`s, since UTF-8 keeps the order
/// of code points.
pub open spec fn text_less(a: Seq<char>, b: Seq<char>) -> bool
    decreases a.len(),
{
    if a.len() == 0 {
        b.len() > 0
    } else if b.len() == 0 {
        false
    } else if a[0] != b[0] {
        a[0] < b[0]
    } else {
        text_less(a.drop_first(), b.drop_first())
    }
}

/// Two different texts are ordered one way or the other, and never both.
pub proof fn lemma_text_less_total(a: Seq<char>, b: Seq<char>)
    ensures
        a != b ==> text_less(a, b) || text_less(b, a),
        !(text_less(a, b) && text_less(b, a)),
        !text_less(a, a),
    decreases a.len(),
{
    if a.len() == 0 && b.len() == 0 {
        assert(a =~= b);
    }
    if a.len() > 0 && b.len() > 0 && a[0] == b[0] {
        lemma_text_less_total(a.drop_first(), b.drop_first());
        if a != b {
            assert(a =~= seq![a[0]] + a.drop_first());
            assert(b =~= seq![b[0]] + b.drop_first());
        }
    }
    if a.len() > 0 {
        lemma_text_less_total(a.drop_first(), a.drop_first());
    }
}

/// Whether `a` comes before `b` in text order.
pub fn chars_less(a: &Vec<char>, b: &Vec<char>) -> (r: bool)
    ensures
        r == text_less(a@, b@),
{
    let mut i: usize = 0;
    proof {
        assert(a@.skip(0) =~= a@);
        assert(b@.skip(0) =~= b@);
    }
    while i < a.len() && i < b.len()
        invariant
            i <= a@.len(),
            i <= b@.len(),
            text_less(a@, b@) == text_less(a@.skip(i as int), b@.skip(i as int)),
        decreases a.len() - i,
    {
        let x = a[i];
        let y = b[i];
        proof {
            assert(a@.skip(i as int)[0] == x);
            assert(b@.skip(i as int)[0] == y);
            assert(a@.skip(i as int).drop_first() =~= a@.skip(i as int + 1));
            assert(b@.skip(i as int).drop_first() =~= b@.skip(i as int + 1));
        }
        if x != y {
            return x < y;
        }
        i = i + 1;
    }
    proof {
        assert(a@.skip(i as int).len() == a@.len() - i);
    }
    i == a.len() && i < b.len()
}

/// Each text comes before the next: sorted, with no text twice.
pub open spec fn strictly_sorted(s: Seq<String>) -> bool {
    forall|i: int| 0 <= i < s.len() - 1 ==> text_less(#[trigger] s[i]@, s[i + 1]@)
}

/// The texts that `s` holds.
pub open spec fn text_set(s: Seq<String>) -> Set<Seq<char>> {
    Set::new(|t: Seq<char>| exists|k: int| 0 <= k < s.len() && (#[trigger] s[k])@ == t)
}

/// The audio paths `project` uses: its slots' in board order, then its
/// events' in timeline order, each as often as it is used.
pub fn project_audio_paths(project: &Project) -> (r: Vec<String>)
    ensures
        r@.len() == project.slots@.len() + project.timeline.events@.len(),
        forall|i: int|
            0 <= i < project.slots@.len() ==> #[trigger] r@[i] == project.slots@[i].audio_path,
        forall|j: int|
            0 <= j < project.timeline.events@.len() ==> r@[project.slots@.len() + j]
                == #[trigger] project.timeline.events@[j].audio_path,
{
    let mut r: Vec<String> = Vec::new();
    let mut i: usize = 0;
    while i < project.slots.len()
        invariant
            i <= project.slots@.len(),
            r@.len() == i,
            forall|k: int| 0 <= k < i ==> #[trigger] r@[k] == project.slots@[k].audio_path,
        decreases project.slots.len() - i,
    {
        r.push(project.slots[i].audio_path.clone());
        i += 1;
    }
    let mut j: usize = 0;
    while j < project.timeline.events.len()
        invariant
            j <= project.timeline.events@.len(),
            r@.len() == project.slots@.len() + j,
            forall|k: int| 0 <= k < project.slots@.len() ==> #[trigger] r@[k] == project.slots@[k].audio_path,
            forall|k: int|
                0 <= k < j ==> r@[project.slots@.len() + k] == #[trigger] project.timeline.events@[k].audio_path,
        decreases project.timeline.events.len() - j,
    {
        r.push(project.timeline.events[j].audio_path.clone());
        j += 1;
    }
    r
}

/// The paths, sorted in text order and with each kept once.
pub fn sorted_unique_paths(paths: Vec<String>) -> (r: Vec<String>)
    ensures
        strictly_sorted(r@),
        text_set(r@) == text_set(paths@),
{
    let mut out: Vec<String> = Vec::new();
    let mut i: usize = 0;
    while i < paths.len()
        invariant
            i <= paths@.len(),
            strictly_sorted(out@),
            text_set(out@) == text_set(paths@.take(i as int)),
        decreases paths.len() - i,
    {
        let p = chars_of(paths[i].as_str());
        let mut j: usize = 0;
        while j < out.len() && chars_less(&chars_of(out[j].as_str()), &p)
            invariant
                j <= out@.len(),
                p@ == paths@[i as int]@,
                forall|k: int| 0 <= k < j ==> text_less(#[trigger] out@[k]@, p@),
            decreases out.len() - j,
        {
            j = j + 1;
        }
        let ghost before = out@;
        proof {
            assert(paths@.take(i as int + 1) =~= paths@.take(i as int).push(paths@[i as int]));
        }
        if j < out.len() && str_eq(out[j].as_str(), paths[i].as_str()) {
            proof {
                assert(text_set(out@) =~= text_set(paths@.take(i as int + 1))) by {
                    assert forall|t: Seq<char>| text_set(paths@.take(i as int + 1)).contains(t)
                        implies text_set(out@).contains(t) by {
                        let k = choose|k: int|
                            0 <= k < paths@.take(i as int + 1).len() && (#[trigger] paths@.take(
                                i as int + 1,
                            )[k])@ == t;
                        if k == i {
                            assert(out@[j as int]@ == t);
                        } else {
                            assert(paths@.take(i as int)[k] == paths@.take(i as int + 1)[k]);
                            assert(text_set(paths@.take(i as int)).contains(t));
                        }
                    }
                    assert forall|t: Seq<char>| text_set(out@).contains(t) implies text_set(
                        paths@.take(i as int + 1),
                    ).contains(t) by {
                        assert(text_set(paths@.take(i as int)).contains(t));
                        let k = choose|k: int|
                            0 <= k < paths@.take(i as int).len() && (#[trigger] paths@.take(
                                i as int,
                            )[k])@ == t;
                        assert(paths@.take(i as int + 1)[k] == paths@.take(i as int)[k]);
                    }
                }
            }
        } else {
            out.insert(j, paths[i].clone());
            proof {
                lemma_text_less_total(p@, before[j as int]@);
                if j < before.len() {
                    lemma_text_less_total(before[j as int]@, p@);
                }
                assert forall|k: int| 0 <= k < out@.len() - 1 implies text_less(
                    #[trigger] out@[k]@,
                    out@[k + 1]@,
                ) by {
                    if k < j as int - 1 {
                        assert(out@[k] == before[k] && out@[k + 1] == before[k + 1]);
                    } else if k == j as int - 1 {
                        assert(out@[k] == before[k]);
                    } else if k == j as int {
                        assert(out@[k + 1] == before[k]);
                    } else {
                        assert(out@[k] == before[k - 1] && out@[k + 1] == before[k]);
                    }
                }
                assert(text_set(out@) =~= text_set(paths@.take(i as int + 1))) by {
                    assert forall|t: Seq<char>| text_set(paths@.take(i as int + 1)).contains(t)
                        implies text_set(out@).contains(t) by {
                        let k = choose|k: int|
                            0 <= k < paths@.take(i as int + 1).len() && (#[trigger] paths@.take(
                                i as int + 1,
                            )[k])@ == t;
                        if k == i {
                            assert(out@[j as int]@ == t);
                        } else {
                            assert(paths@.take(i as int)[k] == paths@.take(i as int + 1)[k]);
                            assert(text_set(before).contains(t));
                            let m = choose|m: int| 0 <= m < before.len() && (#[trigger] before[m])@ == t;
                            if m < j {
                                assert(out@[m] == before[m]);
                            } else {
                                assert(out@[m + 1] == before[m]);
                            }
                        }
                    }
                    assert forall|t: Seq<char>| text_set(out@).contains(t) implies text_set(
                        paths@.take(i as int + 1),
                    ).contains(t) by {
                        let m = choose|m: int| 0 <= m < out@.len() && (#[trigger] out@[m])@ == t;
                        if m == j {
                            assert(paths@.take(i as int + 1)[i as int] == paths@[i as int]);
                        } else {
                            if m < j {
                                assert(out@[m] == before[m]);
                                assert(text_set(before).contains(t));
                            } else {
                                assert(out@[m] == before[m - 1]);
                                assert(text_set(before).contains(t));
                            }
                            let k = choose|k: int|
                                0 <= k < paths@.take(i as int).len() && (#[trigger] paths@.take(
                                    i as int,
                                )[k])@ == t;
                            assert(paths@.take(i as int + 1)[k] == paths@.take(i as int)[k]);
                        }
                    }
                }
            }
        }
        i = i + 1;
    }
    proof {
        assert(paths@.take(paths@.len() as int) =~= paths@);
    }
    out
}

/// Whether `u` is the slot `s` pointed at `new_path` where it played
/// `old_path`, and `s` itself otherwise.
pub open spec fn relinked_slot(u: Slot, s: Slot, old_path: Seq<char>, new_path: String) -> bool {
    if s.audio_path@ == old_path {
        u == Slot { audio_path: new_path, ..s }
    } else {
        u == s
    }
}

/// Whether `u` is the event `e` pointed at `new_path` where it played
/// `old_path`, and `e` itself otherwise.
pub open spec fn relinked_event(
    u: TimelineEvent,
    e: TimelineEvent,
    old_path: Seq<char>,
    new_path: String,
) -> bool {
    if e.audio_path@ == old_path {
        u == TimelineEvent { audio_path: new_path, ..e }
    } else {
        u == e
    }
}

/// Events that start and last the same end the timeline at the same time.
pub proof fn lemma_max_end_same_times(s: Seq<TimelineEvent>, t: Seq<TimelineEvent>)
    requires
        s.len() == t.len(),
        forall|k: int|
            0 <= k < s.len() ==> (#[trigger] s[k]).time_us == t[k].time_us && s[k].duration_us
                == t[k].duration_us,
    ensures
        max_end(s) == max_end(t),
    decreases s.len(),
{
    if s.len() > 0 {
        lemma_max_end_same_times(s.drop_last(), t.drop_last());
    }
}

/// Points every slot and every timeline event that plays `old_path` at
/// `new_path` instead.
pub fn update_audio_path(
    slots: &mut Vec<Slot>,
    timeline: &mut TimelineState,
    old_path: &str,
    new_path: &String,
)
    ensures
        final(slots)@.len() == old(slots)@.len(),
        forall|k: int|
            0 <= k < final(slots)@.len() ==> relinked_slot(
                #[trigger] final(slots)@[k],
                old(slots)@[k],
                old_path@,
                *new_path,
            ),
        final(timeline).events@.len() == old(timeline).events@.len(),
        forall|k: int|
            0 <= k < final(timeline).events@.len() ==> relinked_event(
                #[trigger] final(timeline).events@[k],
                old(timeline).events@[k],
                old_path@,
                *new_path,
            ),
        final(timeline).total_duration_us == old(timeline).total_duration_us,
        final(timeline).playhead_position_us == old(timeline).playhead_position_us,
        old(timeline).wf() ==> final(timeline).wf(),
{
    let mut i: usize = 0;
    while i < slots.len()
        invariant
            i <= slots@.len(),
            slots@.len() == old(slots)@.len(),
            forall|k: int|
                0 <= k < i ==> relinked_slot(
                    #[trigger] slots@[k],
                    old(slots)@[k],
                    old_path@,
                    *new_path,
                ),
            forall|k: int| i <= k < slots@.len() ==> #[trigger] slots@[k] == old(slots)@[k],
        decreases slots.len() - i,
    {
        if str_eq(slots[i].audio_path.as_str(), old_path) {
            let mut s = slots[i].clone();
            s.audio_path = new_path.clone();
            slots.set(i, s);
        }
        i = i + 1;
    }
    let mut j: usize = 0;
    while j < timeline.events.len()
        invariant
            j <= timeline.events@.len(),
            timeline.events@.len() == old(timeline).events@.len(),
            timeline.total_duration_us == old(timeline).total_duration_us,
            timeline.playhead_position_us == old(timeline).playhead_position_us,
            forall|k: int|
                0 <= k < j ==> relinked_event(
                    #[trigger] timeline.events@[k],
                    old(timeline).events@[k],
                    old_path@,
                    *new_path,
                ),
            forall|k: int|
                j <= k < timeline.events@.len() ==> #[trigger] timeline.events@[k] == old(
                    timeline,
                ).events@[k],
        decreases timeline.events.len() - j,
    {
        if str_eq(timeline.events[j].audio_path.as_str(), old_path) {
            let mut e = timeline.events[j].clone();
            e.audio_path = new_path.clone();
            timeline.events.set(j, e);
        }
        j = j + 1;
    }
    proof {
        assert forall|k: int| 0 <= k < timeline.events@.len() implies (#[trigger] timeline.events@[
            k
        ]).time_us == old(timeline).events@[k].time_us && timeline.events@[k].duration_us == old(
            timeline,
        ).events@[k].duration_us by {
            assert(relinked_event(timeline.events@[k], old(timeline).events@[k], old_path@, *new_path));
        }
        lemma_max_end_same_times(timeline.events@, old(timeline).events@);
        if old(timeline).wf() {
            assert forall|a: int, b: int| 0 <= a <= b < timeline.events@.len() implies timeline.events@[
                a
            ].time_us <= timeline.events@[b].time_us by {
                assert(timeline.events@[a].time_us == old(timeline).events@[a].time_us);
                assert(timeline.events@[b].time_us == old(timeline).events@[b].time_us);
            }
        }
    }
}

/// The refusal of a board layout out of range.
pub open spec fn layout_in_range(rows: u8, columns: u8) -> bool {
    1 <= rows <= 5 && 1 <= columns <= 5
}

/// Every board from 1 by 1 up to 5 by 5 is a layout in range, and no other
/// is: 0 rows or columns, or more than 5, are out of range.
pub proof fn law_every_board_from_one_to_five(rows: u8, columns: u8)
    ensures
        layout_in_range(rows, columns) <==> (rows >= 1 && rows <= 5 && columns >= 1 && columns <= 5),
        layout_in_range(5, 5),
        layout_in_range(1, 1),
        !layout_in_range(0, columns) && !layout_in_range(rows, 0),
        !layout_in_range(6, columns) && !layout_in_range(rows, 6),
{
}

/// Resizes the board to `rows` by `columns`, from 1 to 5 each; refused
/// where a slot would fall outside the new board.
pub fn update_board_layout(
    slots: &Vec<Slot>,
    settings: &mut ProjectSettings,
    rows: u8,
    columns: u8,
) -> (r: Result<(), String>)
    ensures
        !layout_in_range(rows, columns) ==> (r matches Err(m) && m@
            == "board layout must be between 1 and 5"@),
        layout_in_range(rows, columns) && (exists|k: int|
            0 <= k < slots@.len() && (#[trigger] slots@[k]).position >= rows * columns) ==> (r matches Err(
            m,
        ) && m@ == "cannot shrink board: some slots are outside the selected size"@),
        r is Ok <==> layout_in_range(rows, columns) && forall|k: int|
            0 <= k < slots@.len() ==> (#[trigger] slots@[k]).position < rows * columns,
        r is Ok ==> *final(settings) == (ProjectSettings {
            board_rows: rows,
            board_columns: columns,
            ..*old(settings)
        }),
        r is Err ==> *final(settings) == *old(settings),
        (1 <= rows && rows <= 5 && 1 <= columns && columns <= 5 && forall|k: int|
            0 <= k < slots@.len() ==> #[trigger] slots@[k].position < rows * columns) ==> r is Ok,
{
    proof {
        law_every_board_from_one_to_five(rows, columns);
    }
    if !(1 <= rows && rows <= 5) || !(1 <= columns && columns <= 5) {
        return Err("board layout must be between 1 and 5".to_string());
    }
    assert((rows as usize) * (columns as usize) <= 25) by (nonlinear_arith)
        requires
            rows <= 5,
            columns <= 5,
    ;
    let capacity: usize = (rows as usize) * (columns as usize);
    let mut i: usize = 0;
    while i < slots.len()
        invariant
            i <= slots@.len(),
            layout_in_range(rows, columns),
            capacity == rows * columns,
            forall|k: int| 0 <= k < i ==> (#[trigger] slots@[k]).position < capacity,
        decreases slots.len() - i,
    {
        if slots[i].position >= capacity {
            return Err("cannot shrink board: some slots are outside the selected size".to_string());
        }
        i = i + 1;
    }
    settings.board_rows = rows;
    settings.board_columns = columns;
    Ok(())
}

impl Project {
    /// A new, empty project called `Untitled`, created and modified at `now`.
    pub fn untitled(now: UtcTime) -> (r: Project)
        ensures
            r.version@ == "1.0.0"@,
            r.project_name@ == "Untitled"@,
            r.created_at == now,
            r.modified_at == now,
            r.settings == (ProjectSettings {
                global_shortcuts_enabled: false,
                audio_buffer_size: 512,
                frame_rate: 30,
                board_rows: 5,
                board_columns: 5,
            }),
            r.slots@ == Seq::<Slot>::empty(),
            r.timeline.events@ == Seq::<TimelineEvent>::empty(),
            r.timeline.total_duration_us == 0,
    {
        Project {
            version: "1.0.0".to_string(),
            project_name: "Untitled".to_string(),
            created_at: now,
            modified_at: now,
            settings: ProjectSettings::default(),
            slots: Vec::new(),
            timeline: TimelineData { events: Vec::new(), total_duration_us: 0 },
        }
    }
}

/// Empties the board for a new project: no slots, an empty timeline at
/// zero, default settings, no shortcuts and shortcuts off, playback stopped
/// at zero, no recording, no history, and the autosave clock started anew.
/// Hands back the new, untitled project.
pub fn new_project(
    slots: &mut Vec<Slot>,
    timeline: &mut TimelineState,
    settings: &mut ProjectSettings,
    shortcuts: &mut ShortcutManager,
    playback: &mut PlaybackEngine,
    triggered: &mut TriggeredIds,
    recording: &mut RecordingEngine,
    undo_manager: &mut UndoManager,
    autosave: &mut AutosaveManager,
) -> (r: Project)
    ensures
        r.version@ == "1.0.0"@,
        r.project_name@ == "Untitled"@,
        r.modified_at == r.created_at,
        r.settings == *final(settings),
        r.slots@ == Seq::<Slot>::empty(),
        r.timeline.events@ == Seq::<TimelineEvent>::empty(),
        r.timeline.total_duration_us == 0,
        final(slots)@ == Seq::<Slot>::empty(),
        final(timeline).events@ == Seq::<TimelineEvent>::empty(),
        final(timeline).total_duration_us == 0,
        final(timeline).playhead_position_us == 0,
        final(timeline).wf(),
        *final(settings) == (ProjectSettings {
            global_shortcuts_enabled: false,
            audio_buffer_size: 512,
            frame_rate: 30,
            board_rows: 5,
            board_columns: 5,
        }),
        final(shortcuts)@ == (ShortcutView { bindings: no_bindings(), enabled: false }),
        final(playback)@.status == PlaybackStatus::Stopped,
        final(playback)@.base_time_us == 0,
        final(triggered)@ == Set::<Seq<char>>::empty(),
        final(recording)@.status == RecordingStatus::Idle,
        final(recording)@.captured == Seq::<TimelineEvent>::empty(),
        final(undo_manager)@.undo == Seq::<UndoActionView>::empty(),
        final(undo_manager)@.redo == Seq::<UndoActionView>::empty(),
        final(undo_manager)@.max_depth == old(undo_manager)@.max_depth,
        final(autosave).interval() == old(autosave).interval(),
{
    let project = Project::untitled(utc_now());
    slots.clear();
    timeline.events.clear();
    timeline.total_duration_us = 0;
    timeline.playhead_position_us = 0;
    *settings = ProjectSettings::default();
    let no_slots: Vec<Slot> = Vec::new();
    let synced_ok = shortcuts.sync_slots(no_slots.as_slice());
    proof {
        let views = choose|views: Seq<ParsedView>|
            reads_shortcuts(no_slots@, views) && #[trigger] synced(
                old(shortcuts)@,
                no_slots@,
                views,
                crate::recording::shortcut_manager::failure_of(synced_ok),
                shortcuts@,
            );
        assert(plan(no_slots@, views) == Ok::<PlanView, Seq<char>>(no_bindings()));
        assert(no_bindings().hotkeys.dom() =~= Set::<Seq<char>>::empty());
    }
    let _ = shortcuts.set_enabled(false);
    playback.stop();
    playback.seek(0);
    triggered.clear();
    *recording = RecordingEngine::new();
    undo_manager.clear();
    autosave.mark_saved();
    project
}

/// Opens a loaded project on the board. Its shortcuts are bound first: where
/// they cannot be, the load is refused and nothing else changes. Otherwise
/// the slots, the timeline (sorted by time, with the playhead at zero) and
/// the settings become the project's, playback stops at zero and the
/// history is cleared; last, the shortcuts are turned on or off as the
/// project says, which fails, leaving them off, where the platform refuses a
/// hotkey.
pub fn apply_loaded_project(
    project: &Project,
    slots: &mut Vec<Slot>,
    timeline: &mut TimelineState,
    settings: &mut ProjectSettings,
    shortcuts: &mut ShortcutManager,
    playback: &mut PlaybackEngine,
    triggered: &mut TriggeredIds,
    undo_manager: &mut UndoManager,
) -> (r: Result<(), String>)
    ensures
        ({
            ||| r matches Err(m) && {
            &&& synced_with(old(shortcuts)@, project.slots@, Some(m@), final(shortcuts)@)
            &&& final(slots)@ == old(slots)@
            &&& *final(timeline) == *old(timeline)
            &&& *final(settings) == *old(settings)
            &&& final(playback)@ == old(playback)@
            &&& final(triggered)@ == old(triggered)@
            &&& final(undo_manager)@ == old(undo_manager)@
        }
        ||| exists|mid: ShortcutView|
            #[trigger] synced_with(old(shortcuts)@, project.slots@, None, mid) && {
                &&& final(shortcuts)@.bindings == mid.bindings
                &&& r is Ok ==> final(shortcuts)@.enabled == project.settings.global_shortcuts_enabled
                &&& r matches Err(m) ==> !final(shortcuts)@.enabled
                    && "failed to register shortcut "@.is_prefix_of(m@)
                &&& final(slots)@ == project.slots@
                &&& final(timeline).events@ == sort_by_time(project.timeline.events@)
                &&& final(timeline).wf()
                &&& final(timeline).playhead_position_us == 0
                &&& *final(settings) == project.settings
                &&& final(playback)@.status == PlaybackStatus::Stopped
                &&& final(playback)@.base_time_us == 0
                &&& final(triggered)@ == Set::<Seq<char>>::empty()
                &&& final(undo_manager)@.undo == Seq::<UndoActionView>::empty()
                &&& final(undo_manager)@.redo == Seq::<UndoActionView>::empty()
                &&& final(undo_manager)@.max_depth == old(undo_manager)@.max_depth
            }
        }),
{
    match shortcuts.sync_slots(project.slots.as_slice()) {
        Ok(()) => {},
        Err(e) => {
            return Err(e);
        },
    }
    let ghost mid = shortcuts@;
    *slots = project.slots.clone();
    timeline.events = sort_events_by_time(&project.timeline.events);
    proof {
        lemma_sort_by_time(project.timeline.events@);
    }
    timeline.playhead_position_us = 0;
    timeline.recalculate_duration();
    *settings = project.settings;
    playback.stop();
    playback.seek(0);
    triggered.clear();
    undo_manager.clear();
    let r = shortcuts.set_enabled(project.settings.global_shortcuts_enabled);
    proof {
        assert(synced_with(old(shortcuts)@, project.slots@, None, mid));
    }
    r
}

} // verus!
