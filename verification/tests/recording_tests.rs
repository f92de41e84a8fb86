use sfx_board::commands::recording_commands::{
    start_recording, capture_if_recording, stop_recording,
};
use sfx_board::models::recording::RecordingStatus;
use sfx_board::models::slot::Slot;
use sfx_board::recording::engine::{running_time_us, RecordingEngine};
use sfx_board::timeline::playback::{PlaybackEngine, PlaybackStatus};
use sfx_board::timeline::state::TimelineState;
use sfx_board::undo::UndoManager;

fn slot(id: &str) -> Slot {
    Slot {
        id: id.to_string(),
        position: 3,
        label: "Horn".to_string(),
        audio_path: "/s/horn.mp3".to_string(),
        image_data_url: None,
        icon_name: Some("horn".to_string()),
        shortcut: "Ctrl+H".to_string(),
        gain_milli: 650,
        duration_us: 2_000_000,
        color: "#FF6B6B".to_string(),
        created_at_ms: 7,
    }
}

#[test]
fn engine_refuses_out_of_order_transitions() {
    let mut e = RecordingEngine::new();
    assert_eq!(e.status(), RecordingStatus::Idle);
    assert!(!e.is_recording());
    assert_eq!(e.pause().unwrap_err(), "recording is not running");
    assert_eq!(e.resume().unwrap_err(), "recording is not paused");
    assert_eq!(e.stop().unwrap_err(), "no active recording session");
    assert_eq!(e.capture_event(&slot("a")).unwrap_err(), "recording is not active");
    assert_eq!(e.get_current_time_us(), 0);
    e.start().unwrap();
    assert_eq!(e.start().unwrap_err(), "recording session already active");
    assert_eq!(e.resume().unwrap_err(), "recording is not paused");
    e.pause().unwrap();
    assert_eq!(e.status(), RecordingStatus::Paused);
    assert_eq!(e.start().unwrap_err(), "recording session already active");
    assert_eq!(e.capture_event(&slot("a")).unwrap_err(), "recording is not active");
    e.resume().unwrap();
    assert_eq!(e.status(), RecordingStatus::Recording);
}

#[test]
fn stop_hands_back_captured_events_in_order() {
    let mut e = RecordingEngine::new();
    e.start().unwrap();
    let first = e.capture_event(&slot("a")).unwrap();
    let second = e.capture_event(&slot("b")).unwrap();
    assert_eq!(first.slot_id, "a");
    assert_eq!(first.label, "Horn");
    assert_eq!(first.gain_milli, 650);
    assert_eq!(first.duration_us, 2_000_000);
    assert!(first.time_us >= 0);
    assert!(second.time_us >= first.time_us);
    assert_ne!(first.event_id, second.event_id);
    let events = e.stop().unwrap();
    let ids: Vec<String> = events.iter().map(|x| x.event_id.clone()).collect();
    assert_eq!(ids, vec![first.event_id.clone(), second.event_id.clone()]);
    assert_eq!(e.status(), RecordingStatus::Idle);
    assert!(e.stop().is_err());
}

#[test]
fn running_time_adds_the_run_to_the_banked_time() {
    assert_eq!(running_time_us(6_000, 4_000), 10_000);
    assert_eq!(running_time_us(0, 0), 0);
    assert_eq!(running_time_us(u64::MAX, 5), i64::MAX);
    assert_eq!(running_time_us(i64::MAX as u64, 1), i64::MAX);
}

#[test]
fn pause_time_does_not_count() {
    let mut e = RecordingEngine::new();
    e.start().unwrap();
    e.pause().unwrap();
    let at_pause = e.get_current_time_us();
    wait_ms(50);
    e.resume().unwrap();
    let after = e.get_current_time_us();
    assert!(after >= at_pause);
    assert!(after < at_pause + 40_000);
}

#[test]
fn a_new_session_starts_its_timer_at_zero() {
    let mut e = RecordingEngine::new();
    e.start().unwrap();
    wait_ms(50);
    assert!(e.get_current_time_us() >= 50_000);
    e.stop().unwrap();
    e.start().unwrap();
    assert!(e.get_current_time_us() < 40_000);
}

#[test]
fn start_recording_stops_playback() {
    let mut p = PlaybackEngine::new();
    let mut e = RecordingEngine::new();
    p.play(500);
    start_recording(&mut p, &mut e).unwrap();
    assert_eq!(p.status(), PlaybackStatus::Stopped);
    assert_eq!(e.status(), RecordingStatus::Recording);
    p.play(0);
    assert_eq!(
        start_recording(&mut p, &mut e).unwrap_err(),
        "recording session already active"
    );
    assert_eq!(p.status(), PlaybackStatus::Stopped);
}

#[test]
fn stop_recording_puts_events_on_timeline_as_one_edit() {
    let mut e = RecordingEngine::new();
    let mut t = TimelineState::default();
    let mut u = UndoManager::new(50);
    assert_eq!(
        stop_recording(&mut e, &mut t, &mut u).unwrap_err(),
        "no active recording session"
    );
    e.start().unwrap();
    let empty = stop_recording(&mut e, &mut t, &mut u).unwrap();
    assert!(empty.is_empty());
    assert!(t.events.is_empty());
    assert!(!u.can_undo());
    e.start().unwrap();
    e.capture_event(&slot("a")).unwrap();
    e.capture_event(&slot("b")).unwrap();
    let events = stop_recording(&mut e, &mut t, &mut u).unwrap();
    assert_eq!(events.len(), 2);
    assert_eq!(t.events.len(), 2);
    assert!(u.can_undo());
    assert!(u.undo().is_some());
    assert!(!u.can_undo());
}

#[test]
fn capture_only_while_recording() {
    let mut e = RecordingEngine::new();
    assert!(capture_if_recording(&mut e, &slot("a")).unwrap().is_none());
    e.start().unwrap();
    let ev = capture_if_recording(&mut e, &slot("a")).unwrap().unwrap();
    assert_eq!(ev.slot_id, "a");
    e.pause().unwrap();
    assert!(capture_if_recording(&mut e, &slot("a")).unwrap().is_none());
    e.resume().unwrap();
    assert_eq!(e.stop().unwrap().len(), 1);
}

#[test]
fn paused_time_stands_still_and_stop_resets_it() {
    let mut e = RecordingEngine::new();
    e.start().unwrap();
    wait_ms(5);
    e.pause().unwrap();
    let at_pause = e.get_current_time_us();
    assert!(at_pause >= 5_000);
    wait_ms(5);
    assert_eq!(e.get_current_time_us(), at_pause);
    e.resume().unwrap();
    let after = e.get_current_time_us();
    assert!(after >= at_pause);
    assert!(after < at_pause + 1_000_000);
    e.stop().unwrap();
    assert_eq!(e.get_current_time_us(), 0);
}

fn wait_ms(ms: u64) {
    let start = std::time::Instant::now();
    while start.elapsed() < std::time::Duration::from_millis(ms) {}
}
