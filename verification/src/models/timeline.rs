use vstd::prelude::*;

use crate::models::slot::Slot;

verus! {

/// One placed occurrence of a slot's sound on the timeline.
///
/// Times and durations are integer microseconds; gain is in thousandths.
#[derive(Debug)]
pub struct TimelineEvent {
    pub event_id: String,
    pub time_us: i64,
    pub slot_id: String,
    pub audio_path: String,
    pub label: String,
    pub shortcut: String,
    pub gain_milli: i32,
    pub duration_us: i64,
}

impl Clone for TimelineEvent {
    fn clone(&self) -> (r: Self)
        ensures
            r == *self,
    {
        TimelineEvent {
            event_id: self.event_id.clone(),
            time_us: self.time_us,
            slot_id: self.slot_id.clone(),
            audio_path: self.audio_path.clone(),
            label: self.label.clone(),
            shortcut: self.shortcut.clone(),
            gain_milli: self.gain_milli,
            duration_us: self.duration_us,
        }
    }
}

/// The same event placed at another time.
pub open spec fn with_time(e: TimelineEvent, t: i64) -> TimelineEvent {
    TimelineEvent { time_us: t, ..e }
}

/// The event that places `slot`'s sound at `time_us` under the id `event_id`.
pub open spec fn event_from_slot(event_id: String, slot: Slot, time_us: i64) -> TimelineEvent {
    TimelineEvent {
        event_id: event_id,
        time_us: time_us,
        slot_id: slot.id,
        audio_path: slot.audio_path,
        label: slot.label,
        shortcut: slot.shortcut,
        gain_milli: slot.gain_milli,
        duration_us: slot.duration_us,
    }
}

impl TimelineEvent {
    /// An event that plays `slot`'s sound at `time_us`.
    pub fn from_slot(event_id: String, slot: &Slot, time_us: i64) -> (r: TimelineEvent)
        ensures
            r == event_from_slot(event_id, *slot, time_us),
    {
        TimelineEvent {
            event_id,
            time_us,
            slot_id: slot.id.clone(),
            audio_path: slot.audio_path.clone(),
            label: slot.label.clone(),
            shortcut: slot.shortcut.clone(),
            gain_milli: slot.gain_milli,
            duration_us: slot.duration_us,
        }
    }
}

} // verus!
