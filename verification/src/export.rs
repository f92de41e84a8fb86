use vstd::prelude::*;

use crate::clock::{utc_now, UtcTime};
use crate::models::project::{Project, ProjectSettings, TimelineData};
use crate::models::slot::Slot;
use crate::models::timeline::TimelineEvent;
use crate::paths::{file_tail, occurs_in, or_empty, path_file_name, plain_path};
use crate::text::{decimal, push_padded_decimal, string_from_chars, zero_padded};

verus! {

/// The sample rate of rendered audio exports.
pub const EXPORT_SAMPLE_RATE: u32 = 44_100;

/// `n / d` rounded to the nearest integer, halves away from zero.
pub open spec fn round_div(n: int, d: int) -> int {
    if n >= 0 {
        (n + d / 2) / d
    } else {
        -((-n + d / 2) / d)
    }
}

/// `x` saturated into the range of `u32`.
pub open spec fn saturate_u32(x: int) -> u32 {
    if x < 0 {
        0
    } else if x > u32::MAX {
        u32::MAX
    } else {
        x as u32
    }
}

/// The video frame at which `time_us` falls, at `frame_rate` frames per second.
pub open spec fn frames_at(time_us: i64, frame_rate: u32) -> u32 {
    saturate_u32(round_div(time_us * frame_rate, 1_000_000))
}

/// Converts a time to a video frame number, rounding to the nearest frame.
pub fn ms_to_frames(time_us: i64, frame_rate: u32) -> (r: u32)
    ensures
        r == frames_at(time_us, frame_rate),
{
    let a = time_us as i128;
    let b = frame_rate as i128;
    proof {
        assert(-0x8000_0000_0000_0000 <= a <= 0x7fff_ffff_ffff_ffff);
        assert(0 <= b <= 0xffff_ffff);
        assert(-0x8000_0000_0000_0000 * 0xffff_ffff <= a * b <= 0x7fff_ffff_ffff_ffff * 0xffff_ffff)
            by (nonlinear_arith)
            requires
                -0x8000_0000_0000_0000 <= a <= 0x7fff_ffff_ffff_ffff,
                0 <= b <= 0xffff_ffff,
        ;
    }
    let n: i128 = a * b;
    if n <= 0 {
        return 0;
    }
    let q: i128 = (n + 500_000) / 1_000_000;
    if q > u32::MAX as i128 {
        u32::MAX
    } else {
        q as u32
    }
}

/// The latest time at which an event's sound ends, and never less than zero.
pub open spec fn latest_end(s: Seq<TimelineEvent>) -> int
    decreases s.len(),
{
    if s.len() == 0 {
        0
    } else {
        let m = latest_end(s.drop_last());
        let x = s.last().time_us + s.last().duration_us;
        if x > m {
            x
        } else {
            m
        }
    }
}

/// `x` saturated into the range of `usize`.
pub open spec fn saturate_usize(x: int) -> usize {
    if x < 0 {
        0
    } else if x > usize::MAX {
        usize::MAX
    } else {
        x as usize
    }
}

/// How many frames an audio export of `events` holds: up to a second after
/// the last sound ends, at `EXPORT_SAMPLE_RATE`, a part of a frame counting
/// as a whole one.
pub open spec fn mix_frames(events: Seq<TimelineEvent>) -> usize {
    saturate_usize(((latest_end(events) + 1_000_000) * EXPORT_SAMPLE_RATE + 999_999) / 1_000_000)
}

/// The length, in frames, of an audio export of `events`.
pub fn mix_frame_count(events: &Vec<TimelineEvent>) -> (r: usize)
    ensures
        r == mix_frames(events@),
{
    let mut m: i128 = 0;
    let mut i: usize = 0;
    while i < events.len()
        invariant
            i <= events@.len(),
            m == latest_end(events@.take(i as int)),
            0 <= m <= 0x1_0000_0000_0000_0000,
        decreases events.len() - i,
    {
        proof {
            assert(events@.take(i as int + 1).drop_last() =~= events@.take(i as int));
        }
        let x: i128 = events[i].time_us as i128 + events[i].duration_us as i128;
        if x > m {
            m = x;
        }
        i = i + 1;
    }
    proof {
        assert(events@.take(events@.len() as int) =~= events@);
    }
    let n: i128 = (m + 1_000_000) * (EXPORT_SAMPLE_RATE as i128) + 999_999;
    let q: i128 = n / 1_000_000;
    if q > usize::MAX as i128 {
        usize::MAX
    } else {
        q as usize
    }
}

/// The frame of an audio export at which a sound placed at `time_us`
/// starts, rounded to the nearest frame; times before zero start at zero.
pub open spec fn mix_start(time_us: i64) -> usize {
    saturate_usize(round_div(time_us * EXPORT_SAMPLE_RATE, 1_000_000))
}

/// The export frame at which a sound placed at `time_us` starts.
pub fn mix_start_frame(time_us: i64) -> (r: usize)
    ensures
        r == mix_start(time_us),
{
    let n: i128 = (time_us as i128) * (EXPORT_SAMPLE_RATE as i128);
    if n <= 0 {
        proof {
            assert(round_div(n as int, 1_000_000) <= 0);
        }
        return 0;
    }
    let q: i128 = (n + 500_000) / 1_000_000;
    if q > usize::MAX as i128 {
        usize::MAX
    } else {
        q as usize
    }
}

/// Whole milliseconds in `time_us`, negative times counting as zero; a part
/// of a millisecond is cut off.
pub open spec fn whole_ms(time_us: i64) -> nat {
    if time_us <= 0 {
        0
    } else {
        (time_us / 1000) as nat
    }
}

/// `MM:SS.mmm` for `ms` milliseconds; minutes take more digits when needed.
pub open spec fn clock_text(ms: nat) -> Seq<char> {
    zero_padded(decimal(ms / 60_000), 2) + seq![':'] + zero_padded(decimal((ms % 60_000) / 1000), 2)
        + seq!['.'] + zero_padded(decimal(ms % 1000), 3)
}

/// Formats a time as minutes, seconds and milliseconds.
pub fn format_time(time_us: i64) -> (r: String)
    ensures
        r@ == clock_text(whole_ms(time_us)),
{
    let total_ms: u64 = if time_us <= 0 { 0 } else { (time_us as u64) / 1000 };
    let minutes = total_ms / 60_000;
    let seconds = (total_ms % 60_000) / 1_000;
    let millis = total_ms % 1_000;
    let mut chars: Vec<char> = Vec::new();
    push_padded_decimal(&mut chars, minutes, 2);
    chars.push(':');
    push_padded_decimal(&mut chars, seconds, 2);
    chars.push('.');
    push_padded_decimal(&mut chars, millis, 3);
    proof {
        assert(chars@ =~= clock_text(whole_ms(time_us)));
    }
    string_from_chars(&chars)
}

/// How many events play the slot `slot_id`.
pub open spec fn usage_count(events: Seq<TimelineEvent>, slot_id: Seq<char>) -> nat
    decreases events.len(),
{
    if events.len() == 0 {
        0
    } else {
        usage_count(events.drop_last(), slot_id) + if events.last().slot_id@ == slot_id {
            1nat
        } else {
            0nat
        }
    }
}

/// Counts the events that play the slot `slot_id`.
pub fn count_usage(events: &Vec<TimelineEvent>, slot_id: &String) -> (r: usize)
    ensures
        r == usage_count(events@, slot_id@),
{
    let mut n: usize = 0;
    let mut i: usize = 0;
    while i < events.len()
        invariant
            i <= events.len(),
            n == usage_count(events@.take(i as int), slot_id@),
            n <= i,
        decreases events.len() - i,
    {
        proof {
            assert(events@.take(i as int + 1).drop_last() =~= events@.take(i as int));
        }
        if events[i].slot_id == *slot_id {
            n = n + 1;
        }
        i = i + 1;
    }
    proof {
        assert(events@.take(events.len() as int) =~= events@);
    }
    n
}

/// One event as a timeline export describes it.
pub struct EventExportData {
    pub event_id: String,
    pub time_us: i64,
    pub time_frames: u32,
    pub time_formatted: String,
    pub label: String,
    pub audio_file: String,
    pub audio_path: String,
    pub shortcut: String,
    pub gain_milli: i32,
    pub duration_us: i64,
    pub duration_frames: u32,
}

/// One slot as a timeline export describes it.
pub struct SlotExportData {
    pub id: String,
    pub label: String,
    pub audio_file: String,
    pub audio_path: String,
    pub shortcut: String,
    pub gain_milli: i32,
    pub duration_us: i64,
    pub usage_count: usize,
}

/// The timeline part of an export.
pub struct TimelineExportData {
    pub total_duration_us: i64,
    pub total_duration_frames: u32,
    pub event_count: usize,
    pub events: Vec<EventExportData>,
}

/// A project's timeline described for other tools.
pub struct TimelineExport {
    pub export_version: String,
    pub exported_at: UtcTime,
    pub project_name: String,
    pub frame_rate: u32,
    pub timeline: TimelineExportData,
    pub slots: Vec<SlotExportData>,
}

/// Whether `d` describes `e` at `frame_rate`.
pub open spec fn describes_event(d: EventExportData, e: TimelineEvent, frame_rate: u32) -> bool {
    &&& d.event_id == e.event_id
    &&& d.time_us == e.time_us
    &&& d.time_frames == frames_at(e.time_us, frame_rate)
    &&& d.time_formatted@ == clock_text(whole_ms(e.time_us))
    &&& d.label == e.label
    &&& d.audio_path == e.audio_path
    &&& names_file_of(d.audio_file@, e.audio_path@)
    &&& d.shortcut == e.shortcut
    &&& d.gain_milli == e.gain_milli
    &&& d.duration_us == e.duration_us
    &&& d.duration_frames == frames_at(e.duration_us, frame_rate)
}

/// Whether `file` can be the file name an export gives for `path`: the
/// path's final component, which stands in the path, or nothing where the
/// path has none. For a plain path it is what follows the last `/`.
pub open spec fn names_file_of(file: Seq<char>, path: Seq<char>) -> bool {
    &&& file.len() == 0 || occurs_in(file, path)
    &&& plain_path(path) ==> file == file_tail(path)
}

/// Whether `d` describes `s`, which `events` use.
pub open spec fn describes_slot(d: SlotExportData, s: Slot, events: Seq<TimelineEvent>) -> bool {
    &&& d.id == s.id
    &&& d.label == s.label
    &&& d.audio_path == s.audio_path
    &&& names_file_of(d.audio_file@, s.audio_path@)
    &&& d.shortcut == s.shortcut
    &&& d.gain_milli == s.gain_milli
    &&& d.duration_us == s.duration_us
    &&& d.usage_count == usage_count(events, s.id@)
}

/// Describes one event for an export.
pub fn build_event_export(event: &TimelineEvent, frame_rate: u32) -> (r: EventExportData)
    ensures
        describes_event(r, *event, frame_rate),
{
    EventExportData {
        event_id: event.event_id.clone(),
        time_us: event.time_us,
        time_frames: ms_to_frames(event.time_us, frame_rate),
        time_formatted: format_time(event.time_us),
        label: event.label.clone(),
        audio_file: or_empty(path_file_name(event.audio_path.as_str())),
        audio_path: event.audio_path.clone(),
        shortcut: event.shortcut.clone(),
        gain_milli: event.gain_milli,
        duration_us: event.duration_us,
        duration_frames: ms_to_frames(event.duration_us, frame_rate),
    }
}

/// Describes one slot, with how often `events` play it, for an export.
pub fn build_slot_export(slot: &Slot, events: &Vec<TimelineEvent>) -> (r: SlotExportData)
    ensures
        describes_slot(r, *slot, events@),
{
    SlotExportData {
        id: slot.id.clone(),
        label: slot.label.clone(),
        audio_file: or_empty(path_file_name(slot.audio_path.as_str())),
        audio_path: slot.audio_path.clone(),
        shortcut: slot.shortcut.clone(),
        gain_milli: slot.gain_milli,
        duration_us: slot.duration_us,
        usage_count: count_usage(events, &slot.id),
    }
}

/// Describes a project's timeline and slots for other tools, stamped with
/// the current time.
pub fn build_timeline_export(project: &Project) -> (r: TimelineExport)
    ensures
        r.export_version@ == "1.0.0"@,
        r.project_name == project.project_name,
        r.frame_rate == project.settings.frame_rate,
        r.timeline.total_duration_us == project.timeline.total_duration_us,
        r.timeline.total_duration_frames == frames_at(
            project.timeline.total_duration_us,
            project.settings.frame_rate,
        ),
        r.timeline.event_count == project.timeline.events@.len(),
        r.timeline.events@.len() == project.timeline.events@.len(),
        forall|i: int|
            0 <= i < project.timeline.events@.len() ==> describes_event(
                #[trigger] r.timeline.events@[i],
                project.timeline.events@[i],
                project.settings.frame_rate,
            ),
        r.slots@.len() == project.slots@.len(),
        forall|i: int|
            0 <= i < project.slots@.len() ==> describes_slot(
                #[trigger] r.slots@[i],
                project.slots@[i],
                project.timeline.events@,
            ),
{
    let frame_rate = project.settings.frame_rate;
    let events = &project.timeline.events;
    let mut event_data: Vec<EventExportData> = Vec::new();
    let mut i: usize = 0;
    while i < events.len()
        invariant
            i <= events.len(),
            event_data@.len() == i,
            forall|k: int|
                0 <= k < i ==> describes_event(#[trigger] event_data@[k], events@[k], frame_rate),
        decreases events.len() - i,
    {
        event_data.push(build_event_export(&events[i], frame_rate));
        i = i + 1;
    }
    let mut slot_data: Vec<SlotExportData> = Vec::new();
    let mut j: usize = 0;
    while j < project.slots.len()
        invariant
            j <= project.slots.len(),
            slot_data@.len() == j,
            forall|k: int|
                0 <= k < j ==> describes_slot(#[trigger] slot_data@[k], project.slots@[k], events@),
        decreases project.slots.len() - j,
    {
        slot_data.push(build_slot_export(&project.slots[j], events));
        j = j + 1;
    }
    TimelineExport {
        export_version: "1.0.0".to_string(),
        exported_at: utc_now(),
        project_name: project.project_name.clone(),
        frame_rate,
        timeline: TimelineExportData {
            total_duration_us: project.timeline.total_duration_us,
            total_duration_frames: ms_to_frames(project.timeline.total_duration_us, frame_rate),
            event_count: events.len(),
            events: event_data,
        },
        slots: slot_data,
    }
}

/// A project holding the given state, stamped with the format version.
pub fn project_from_state(
    project_name: &str,
    created_at: UtcTime,
    modified_at: UtcTime,
    settings: &ProjectSettings,
    slots: &Vec<Slot>,
    events: &Vec<TimelineEvent>,
    total_duration_us: i64,
) -> (r: Project)
    ensures
        r.version@ == "1.0.0"@,
        r.project_name@ == project_name@,
        r.created_at == created_at,
        r.modified_at == modified_at,
        r.settings == *settings,
        r.slots@ == slots@,
        r.timeline.events@ == events@,
        r.timeline.total_duration_us == total_duration_us,
{
    Project {
        version: "1.0.0".to_string(),
        project_name: project_name.to_string(),
        created_at,
        modified_at,
        settings: *settings,
        slots: slots.clone(),
        timeline: TimelineData { events: events.clone(), total_duration_us },
    }
}

} // verus!
