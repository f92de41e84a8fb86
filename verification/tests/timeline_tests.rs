use sfx_board::commands::timeline_commands::{
    add_timeline_event, delete_timeline_events, duplicate_events, playback_tick, reset_timeline,
    seek_timeline, play_timeline, update_event_time, update_event_times, EventTimeUpdate,
    TriggeredIds, DUPLICATE_OFFSET_US,
};
use sfx_board::models::recording::RecordingStatus;
use sfx_board::models::slot::Slot;
use sfx_board::models::timeline::TimelineEvent;
use sfx_board::timeline::playback::{PlaybackEngine, PlaybackStatus};
use sfx_board::timeline::state::TimelineState;
use sfx_board::undo::UndoManager;

fn event(id: &str, time_us: i64, duration_us: i64) -> TimelineEvent {
    TimelineEvent {
        event_id: id.to_string(),
        time_us,
        slot_id: "slot-1".to_string(),
        audio_path: "/sounds/boom.wav".to_string(),
        label: "Boom".to_string(),
        shortcut: String::new(),
        gain_milli: 1000,
        duration_us,
    }
}

fn slot(id: &str) -> Slot {
    Slot {
        id: id.to_string(),
        position: 0,
        label: "Boom".to_string(),
        audio_path: "/sounds/boom.wav".to_string(),
        image_data_url: None,
        icon_name: None,
        shortcut: String::new(),
        gain_milli: 800,
        duration_us: 1_500_000,
        color: "#FF6B6B".to_string(),
        created_at_ms: 0,
    }
}

const IDLE: RecordingStatus = RecordingStatus::Idle;
const STOPPED: PlaybackStatus = PlaybackStatus::Stopped;

fn ids(events: &[TimelineEvent]) -> Vec<String> {
    events.iter().map(|e| e.event_id.clone()).collect()
}

fn timeline() -> TimelineState {
    TimelineState::default()
}

#[test]
fn add_event_keeps_events_sorted_and_duration_current() {
    let mut t = timeline();
    t.add_event(event("b", 2_000_000, 500_000));
    t.add_event(event("a", 1_000_000, 3_000_000));
    t.add_event(event("c", 1_500_000, 100_000));
    assert_eq!(ids(&t.events), vec!["a", "c", "b"]);
    assert_eq!(t.total_duration_us, 4_000_000);
    assert_eq!(t.playhead_position_us, 0);
}

#[test]
fn events_with_equal_times_keep_their_order() {
    let mut t = timeline();
    t.add_events(vec![event("x", 5, 1), event("y", 5, 1), event("z", 1, 1)]);
    assert_eq!(ids(&t.events), vec!["z", "x", "y"]);
}

#[test]
fn delete_events_removes_listed_ids_only() {
    let mut t = timeline();
    t.add_events(vec![event("a", 0, 10), event("b", 5, 100), event("c", 7, 1)]);
    t.delete_events(&["b".to_string(), "missing".to_string()]);
    assert_eq!(ids(&t.events), vec!["a", "c"]);
    assert_eq!(t.total_duration_us, 10);
}

#[test]
fn update_event_time_clamps_and_resorts() {
    let mut t = timeline();
    t.add_events(vec![event("a", 10, 1), event("b", 20, 1)]);
    t.update_event_time("b", -5);
    assert_eq!(ids(&t.events), vec!["b", "a"]);
    assert_eq!(t.events[0].time_us, 0);
}

#[test]
fn events_in_window_and_before_time() {
    let mut t = timeline();
    t.add_events(vec![event("a", 0, 1), event("b", 100, 1), event("c", 200, 1)]);
    let window = t.get_events_at_time(100, 100);
    assert_eq!(ids(&window), vec!["b"]);
    assert_eq!(t.get_events_before_time(150), vec!["a", "b"]);
    assert!(t.get_events_before_time(0).is_empty());
}

#[test]
fn playhead_is_never_negative() {
    let mut t = timeline();
    t.set_playhead_position(-3);
    assert_eq!(t.playhead_position_us, 0);
    t.set_playhead_position(42);
    assert_eq!(t.playhead_position_us, 42);
}

#[test]
fn playback_engine_transport() {
    let mut p = PlaybackEngine::new();
    assert_eq!(p.status(), PlaybackStatus::Stopped);
    assert_eq!(p.get_current_time(), 0);
    p.seek(-10);
    assert_eq!(p.get_current_time(), 0);
    p.seek(5_000);
    assert_eq!(p.get_current_time(), 5_000);
    p.play(1_000);
    assert_eq!(p.status(), PlaybackStatus::Playing);
    assert!(p.get_current_time() >= 1_000);
    p.pause();
    assert_eq!(p.status(), PlaybackStatus::Paused);
    let paused_at = p.get_current_time();
    assert!(paused_at >= 1_000);
    p.stop();
    assert_eq!(p.status(), PlaybackStatus::Stopped);
    assert_eq!(p.get_current_time(), paused_at);
}

#[test]
fn pause_does_nothing_unless_playing() {
    let mut p = PlaybackEngine::new();
    p.seek(700);
    p.pause();
    assert_eq!(p.status(), PlaybackStatus::Stopped);
    assert_eq!(p.get_current_time(), 700);
}

#[test]
fn add_timeline_event_places_slot_sound() {
    let mut t = timeline();
    let mut undo = UndoManager::new(50);
    let slots = vec![slot("s1")];
    let e = add_timeline_event(&mut t, &mut undo, &slots, "s1", -20).unwrap();
    assert_eq!(e.time_us, 0);
    assert_eq!(e.slot_id, "s1");
    assert_eq!(e.gain_milli, 800);
    assert_eq!(e.duration_us, 1_500_000);
    assert_eq!(t.events.len(), 1);
    assert!(undo.can_undo());
    let err = add_timeline_event(&mut t, &mut undo, &slots, "nope", 0).unwrap_err();
    assert_eq!(err, "slot not found");
    assert_eq!(t.events.len(), 1);
}

#[test]
fn update_event_time_command_reports_missing_event() {
    let mut t = timeline();
    let mut undo = UndoManager::new(50);
    t.add_event(event("a", 10, 1));
    assert_eq!(
        update_event_time(&mut t, &mut undo, "zzz".to_string(), 5).unwrap_err(),
        "event not found"
    );
    assert!(!undo.can_undo());
    update_event_time(&mut t, &mut undo, "a".to_string(), 99).unwrap();
    assert_eq!(t.events[0].time_us, 99);
    assert!(undo.can_undo());
}

#[test]
fn update_event_times_stops_at_a_missing_event() {
    let mut t = timeline();
    let mut undo = UndoManager::new(50);
    t.add_events(vec![event("a", 10, 1), event("b", 20, 1)]);
    let bad = vec![
        EventTimeUpdate { event_id: "a".to_string(), new_time_us: 30 },
        EventTimeUpdate { event_id: "nope".to_string(), new_time_us: 1 },
    ];
    assert_eq!(update_event_times(&mut t, &mut undo, bad).unwrap_err(), "event not found: nope");
    // The updates before the missing event stay applied, and nothing is recorded.
    assert_eq!(ids(&t.events), vec!["b", "a"]);
    assert_eq!(t.events[1].time_us, 30);
    assert!(!undo.can_undo());
    let good = vec![
        EventTimeUpdate { event_id: "a".to_string(), new_time_us: 30 },
        EventTimeUpdate { event_id: "b".to_string(), new_time_us: -4 },
    ];
    update_event_times(&mut t, &mut undo, good).unwrap();
    assert_eq!(ids(&t.events), vec!["b", "a"]);
    assert_eq!(t.events[0].time_us, 0);
    assert_eq!(t.events[1].time_us, 30);
    assert!(undo.can_undo());
}

#[test]
fn delete_timeline_events_with_no_ids_does_nothing() {
    let mut t = timeline();
    let mut undo = UndoManager::new(50);
    t.add_event(event("a", 10, 1));
    assert!(!delete_timeline_events(&mut t, &mut undo, vec![], IDLE, STOPPED).unwrap());
    assert_eq!(t.events.len(), 1);
    assert!(!undo.can_undo());
    assert!(delete_timeline_events(&mut t, &mut undo, vec!["a".to_string()], IDLE, STOPPED).unwrap());
    assert!(t.events.is_empty());
    assert!(undo.can_undo());
}

#[test]
fn duplicate_events_offsets_copies() {
    let mut t = timeline();
    let mut undo = UndoManager::new(50);
    t.add_events(vec![event("a", 100, 1), event("b", 200, 1)]);
    let dups = duplicate_events(&mut t, &mut undo, vec!["a".to_string()]);
    assert_eq!(dups.len(), 1);
    assert_eq!(dups[0].time_us, 100 + DUPLICATE_OFFSET_US);
    assert_eq!(DUPLICATE_OFFSET_US, 100_000);
    assert_ne!(dups[0].event_id, "a");
    assert_eq!(dups[0].slot_id, "slot-1");
    assert_eq!(t.events.len(), 3);
    let none = duplicate_events(&mut t, &mut undo, vec!["missing".to_string()]);
    assert!(none.is_empty());
    assert_eq!(t.events.len(), 3);
}

#[test]
fn reset_timeline_empties_everything() {
    let mut t = timeline();
    let mut undo = UndoManager::new(50);
    let mut playback = PlaybackEngine::new();
    let mut triggered = TriggeredIds::new();
    t.add_event(event("a", 10, 1));
    t.set_playhead_position(5);
    undo.push(sfx_board::undo::UndoAction::AddEvents(vec![event("a", 10, 1)]));
    playback.play(10);
    triggered.insert(&"a".to_string());
    reset_timeline(&mut t, &mut undo, &mut playback, &mut triggered);
    assert!(t.events.is_empty());
    assert_eq!(t.total_duration_us, 0);
    assert_eq!(t.playhead_position_us, 0);
    assert!(!undo.can_undo() && !undo.can_redo());
    assert_eq!(playback.status(), PlaybackStatus::Stopped);
    assert!(!triggered.contains(&"a".to_string()));
}

#[test]
fn playback_tick_triggers_each_event_once() {
    let mut t = timeline();
    let mut triggered = TriggeredIds::new();
    t.add_events(vec![event("a", 0, 10), event("b", 50_000, 10), event("c", 500_000, 10)]);
    let first = playback_tick(&mut t, &mut triggered, 0);
    assert_eq!(ids(&first.to_trigger), vec!["a", "b"]);
    assert!(!first.finished);
    assert_eq!(t.playhead_position_us, 0);
    let again = playback_tick(&mut t, &mut triggered, 40_000);
    assert!(again.to_trigger.is_empty());
    let later = playback_tick(&mut t, &mut triggered, 450_000);
    assert_eq!(ids(&later.to_trigger), vec!["c"]);
    let end = playback_tick(&mut t, &mut triggered, 600_010);
    assert!(end.finished);
}

#[test]
fn seek_and_start_mark_earlier_events_as_played() {
    let mut t = timeline();
    let mut playback = PlaybackEngine::new();
    let mut triggered = TriggeredIds::new();
    t.add_events(vec![event("a", 0, 10), event("b", 50_000, 10)]);
    let at = seek_timeline(&mut playback, &mut t, &mut triggered, 10_000);
    assert_eq!(at, 10_000);
    assert_eq!(t.playhead_position_us, 10_000);
    assert!(triggered.contains(&"a".to_string()));
    assert!(!triggered.contains(&"b".to_string()));
    let from = play_timeline(&mut playback, &t, &mut triggered);
    assert_eq!(from, 10_000);
    assert_eq!(playback.status(), PlaybackStatus::Playing);
    let clamped = seek_timeline(&mut playback, &mut t, &mut triggered, -7);
    assert_eq!(clamped, 0);
    assert!(!triggered.contains(&"a".to_string()));
}

#[test]
fn deleting_is_refused_while_recording_or_playing() {
    let mut t = timeline();
    let mut undo = UndoManager::new(50);
    t.add_event(event("a", 10, 1));
    let msg = "cannot delete events while recording or playing";
    assert_eq!(
        delete_timeline_events(&mut t, &mut undo, vec!["a".to_string()], RecordingStatus::Recording, STOPPED)
            .unwrap_err(),
        msg
    );
    assert_eq!(
        delete_timeline_events(&mut t, &mut undo, vec!["a".to_string()], IDLE, PlaybackStatus::Playing)
            .unwrap_err(),
        msg
    );
    assert_eq!(t.events.len(), 1);
    assert!(!undo.can_undo());
    assert!(
        delete_timeline_events(&mut t, &mut undo, vec!["a".to_string()], RecordingStatus::Paused, PlaybackStatus::Paused)
            .unwrap()
    );
    assert!(t.events.is_empty());
}

#[test]
fn play_while_playing_goes_on_from_the_playhead() {
    let mut t = timeline();
    let mut playback = PlaybackEngine::new();
    let mut triggered = TriggeredIds::new();
    t.add_events(vec![event("a", 0, 10), event("b", 900_000, 10)]);
    seek_timeline(&mut playback, &mut t, &mut triggered, 500_000);
    let first = play_timeline(&mut playback, &t, &mut triggered);
    assert_eq!(first, 500_000);
    let again = play_timeline(&mut playback, &t, &mut triggered);
    assert!(again >= 500_000 && again < 800_000);
    assert!(playback.get_current_time() >= again);
    assert!(triggered.contains(&"a".to_string()));
    assert!(!triggered.contains(&"b".to_string()));
}
