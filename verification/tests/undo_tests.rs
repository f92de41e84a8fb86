use sfx_board::commands::timeline_commands::{
    add_timeline_event, delete_timeline_events, update_event_time,
};
use sfx_board::commands::undo_commands::{get_undo_redo_state, redo, undo};
use sfx_board::models::slot::Slot;
use sfx_board::models::timeline::TimelineEvent;
use sfx_board::timeline::state::TimelineState;
use sfx_board::undo::{EventTimeChange, UndoAction, UndoManager};

fn event(id: &str, time_us: i64) -> TimelineEvent {
    TimelineEvent {
        event_id: id.to_string(),
        time_us,
        slot_id: "s".to_string(),
        audio_path: "/a.wav".to_string(),
        label: "A".to_string(),
        shortcut: String::new(),
        gain_milli: 1000,
        duration_us: 10,
    }
}

fn slot(id: &str) -> Slot {
    Slot {
        id: id.to_string(),
        position: 0,
        label: "A".to_string(),
        audio_path: "/a.wav".to_string(),
        image_data_url: None,
        icon_name: None,
        shortcut: String::new(),
        gain_milli: 1000,
        duration_us: 10,
        color: "#FF6B6B".to_string(),
        created_at_ms: 0,
    }
}

fn times(t: &TimelineState) -> Vec<(String, i64)> {
    t.events.iter().map(|e| (e.event_id.clone(), e.time_us)).collect()
}

#[test]
fn undo_manager_moves_actions_between_histories() {
    let mut m = UndoManager::new(50);
    assert!(!m.can_undo() && !m.can_redo());
    m.push(UndoAction::AddEvents(vec![event("a", 1)]));
    assert!(m.can_undo());
    let a = m.undo().unwrap();
    assert!(matches!(a, UndoAction::AddEvents(ref v) if v[0].event_id == "a"));
    assert!(!m.can_undo() && m.can_redo());
    assert!(m.undo().is_none());
    let b = m.redo().unwrap();
    assert!(matches!(b, UndoAction::AddEvents(_)));
    assert!(m.can_undo() && !m.can_redo());
    assert!(m.redo().is_none());
}

#[test]
fn push_forgets_redo_history() {
    let mut m = UndoManager::new(50);
    m.push(UndoAction::AddEvents(vec![event("a", 1)]));
    m.undo();
    assert!(m.can_redo());
    m.push(UndoAction::DeleteEvents(vec![event("b", 1)]));
    assert!(!m.can_redo());
}

#[test]
fn history_is_bounded_by_depth() {
    let mut m = UndoManager::new(2);
    for i in 0..5 {
        m.push(UndoAction::AddEvents(vec![event(&format!("e{i}"), i)]));
    }
    let mut n = 0;
    let mut last = Vec::new();
    while let Some(UndoAction::AddEvents(v)) = m.undo() {
        last.push(v[0].event_id.clone());
        n += 1;
    }
    assert_eq!(n, 2);
    assert_eq!(last, vec!["e4", "e3"]);
}

#[test]
fn clear_forgets_both_histories() {
    let mut m = UndoManager::new(50);
    m.push(UndoAction::AddEvents(vec![event("a", 1)]));
    m.push(UndoAction::AddEvents(vec![event("b", 1)]));
    m.undo();
    m.clear();
    assert!(!m.can_undo() && !m.can_redo());
}

#[test]
fn undo_and_redo_report_empty_histories() {
    let mut t = TimelineState::default();
    let mut m = UndoManager::new(50);
    assert_eq!(undo(&mut t, &mut m).unwrap_err(), "nothing to undo");
    assert_eq!(redo(&mut t, &mut m).unwrap_err(), "nothing to redo");
    let s = get_undo_redo_state(&m);
    assert!(!s.can_undo && !s.can_redo);
}

#[test]
fn undo_of_add_removes_the_event_and_redo_brings_it_back() {
    let mut t = TimelineState::default();
    let mut m = UndoManager::new(50);
    t.add_events(vec![event("x", 5), event("y", 50)]);
    let before = times(&t);
    let e = add_timeline_event(&mut t, &mut m, &vec![slot("s1")], "s1", 20).unwrap();
    let added = times(&t);
    undo(&mut t, &mut m).unwrap();
    assert_eq!(times(&t), before);
    redo(&mut t, &mut m).unwrap();
    assert_eq!(times(&t), added);
    assert!(t.events.iter().any(|x| x.event_id == e.event_id));
    let s = get_undo_redo_state(&m);
    assert!(s.can_undo && !s.can_redo);
}

#[test]
fn undo_of_delete_restores_the_events() {
    let mut t = TimelineState::default();
    let mut m = UndoManager::new(50);
    t.add_events(vec![event("a", 1), event("b", 2), event("c", 3)]);
    let before = times(&t);
    delete_timeline_events(
        &mut t,
        &mut m,
        vec!["b".to_string()],
        sfx_board::models::recording::RecordingStatus::Idle,
        sfx_board::timeline::playback::PlaybackStatus::Stopped,
    )
    .unwrap();
    assert_eq!(times(&t), vec![("a".to_string(), 1), ("c".to_string(), 3)]);
    undo(&mut t, &mut m).unwrap();
    assert_eq!(times(&t), before);
    redo(&mut t, &mut m).unwrap();
    assert_eq!(times(&t), vec![("a".to_string(), 1), ("c".to_string(), 3)]);
}

#[test]
fn undo_of_move_restores_the_time() {
    let mut t = TimelineState::default();
    let mut m = UndoManager::new(50);
    t.add_events(vec![event("a", 10), event("b", 20)]);
    update_event_time(&mut t, &mut m, "a".to_string(), 30).unwrap();
    assert_eq!(times(&t), vec![("b".to_string(), 20), ("a".to_string(), 30)]);
    undo(&mut t, &mut m).unwrap();
    assert_eq!(times(&t), vec![("a".to_string(), 10), ("b".to_string(), 20)]);
    redo(&mut t, &mut m).unwrap();
    assert_eq!(times(&t), vec![("b".to_string(), 20), ("a".to_string(), 30)]);
    assert_eq!(t.total_duration_us, 40);
}

#[test]
fn recorded_time_change_keeps_both_times() {
    let mut m = UndoManager::new(50);
    m.push(UndoAction::UpdateEventTimes(vec![EventTimeChange {
        event_id: "a".to_string(),
        old_time_us: 10,
        new_time_us: -5,
    }]));
    match m.undo() {
        Some(UndoAction::UpdateEventTimes(v)) => {
            assert_eq!(v[0].old_time_us, 10);
            assert_eq!(v[0].new_time_us, -5);
        }
        _ => panic!("expected a time change"),
    }
}
