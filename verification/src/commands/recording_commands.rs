use vstd::prelude::*;

use crate::models::recording::RecordingStatus;
use crate::models::slot::Slot;
use crate::models::timeline::{event_from_slot, TimelineEvent};
use crate::recording::engine::{is_active, RecordingEngine};
use crate::timeline::playback::{PlaybackEngine, PlaybackStatus};
use crate::timeline::state::{max_end, sort_by_time, TimelineState};
use crate::undo::{after_push, UndoAction, UndoActionView, UndoManager};

verus! {

/// Stops timeline playback, since recording goes first, and begins a
/// recording session.
pub fn start_recording(playback: &mut PlaybackEngine, engine: &mut RecordingEngine) -> (r: Result<
    (),
    String,
>)
    ensures
        final(playback)@.status == PlaybackStatus::Stopped,
        is_active(old(engine)@.status) <==> r is Err,
        r matches Err(e) ==> e@ == "recording session already active"@ && final(engine)@ == old(
            engine,
        )@,
        r is Ok ==> {
            &&& final(engine)@.status == RecordingStatus::Recording
            &&& final(engine)@.captured == Seq::<TimelineEvent>::empty()
            &&& final(engine)@.stored_time_us == 0
            &&& final(engine).clock_running()
        },
{
    playback.stop();
    engine.start()
}

/// Ends the recording session and puts the events it caught on the
/// timeline as one edit that can be undone; with no events, the timeline
/// and the history stay as they were.
pub fn stop_recording(
    engine: &mut RecordingEngine,
    timeline: &mut TimelineState,
    undo_manager: &mut UndoManager,
) -> (r: Result<Vec<TimelineEvent>, String>)
    ensures
        !is_active(old(engine)@.status) <==> r is Err,
        r matches Err(e) ==> {
            &&& e@ == "no active recording session"@
            &&& final(engine)@ == old(engine)@
            &&& *final(timeline) == *old(timeline)
            &&& final(undo_manager)@ == old(undo_manager)@
        },
        r matches Ok(events) ==> {
            &&& events@ == old(engine)@.captured
            &&& final(engine)@.status == RecordingStatus::Idle
            &&& final(engine)@.captured == Seq::<TimelineEvent>::empty()
            &&& events@.len() == 0 ==> *final(timeline) == *old(timeline) && final(undo_manager)@
                == old(undo_manager)@
            &&& events@.len() > 0 ==> {
                &&& final(timeline).events@ == sort_by_time(old(timeline).events@ + events@)
                &&& final(timeline).total_duration_us == max_end(final(timeline).events@)
                &&& final(timeline).playhead_position_us == old(timeline).playhead_position_us
                &&& final(timeline).wf()
                &&& final(undo_manager)@ == after_push(
                    old(undo_manager)@,
                    UndoActionView::AddEvents(events@),
                )
            }
        },
{
    let events = match engine.stop() {
        Ok(events) => events,
        Err(e) => {
            return Err(e);
        },
    };
    if events.len() > 0 {
        timeline.add_events(events.clone());
        undo_manager.push(UndoAction::AddEvents(events.clone()));
    }
    Ok(events)
}

/// Catches a trigger of `slot` into the recording, where one is running.
pub fn capture_if_recording(engine: &mut RecordingEngine, slot: &Slot) -> (r: Result<
    Option<TimelineEvent>,
    String,
>)
    ensures
        old(engine)@.status != RecordingStatus::Recording ==> r == Ok::<
            Option<TimelineEvent>,
            String,
        >(None) && final(engine)@ == old(engine)@,
        old(engine)@.status == RecordingStatus::Recording ==> (r matches Ok(Some(event)) && {
            &&& event == event_from_slot(event.event_id, *slot, event.time_us)
            &&& event.time_us >= 0
            &&& event.time_us >= old(engine)@.stored_time_us
            &&& final(engine)@.status == RecordingStatus::Recording
            &&& final(engine)@.captured == old(engine)@.captured.push(event)
        }),
{
    if engine.is_recording() {
        match engine.capture_event(slot) {
            Ok(event) => Ok(Some(event)),
            Err(e) => Err(e),
        }
    } else {
        Ok(None)
    }
}

} // verus!
