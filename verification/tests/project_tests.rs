use sfx_board::autosave::{autosave_path, AutosaveManager};
use sfx_board::clock::{later_than, UtcTime};
use sfx_board::commands::project_commands::{
    check_autosave_recovery, check_project_slot_limit, chars_less, get_project_state,
    name_with_stem, prepare_project_for_save, project_audio_paths, sorted_unique_paths,
    update_audio_path,
    update_board_layout,
};
use sfx_board::export::project_from_state;
use sfx_board::models::project::{Project, ProjectSettings};
use sfx_board::models::slot::Slot;
use sfx_board::models::timeline::TimelineEvent;
use sfx_board::timeline::state::TimelineState;

fn slot(id: &str, path: &str, position: usize) -> Slot {
    Slot {
        id: id.to_string(),
        position,
        label: id.to_string(),
        audio_path: path.to_string(),
        image_data_url: None,
        icon_name: None,
        shortcut: String::new(),
        gain_milli: 1000,
        duration_us: 10,
        color: "#FF6B6B".to_string(),
        created_at_ms: 0,
    }
}

fn event(id: &str, path: &str, time_us: i64) -> TimelineEvent {
    TimelineEvent {
        event_id: id.to_string(),
        time_us,
        slot_id: "s".to_string(),
        audio_path: path.to_string(),
        label: "L".to_string(),
        shortcut: String::new(),
        gain_milli: 1000,
        duration_us: 100,
    }
}

fn at(secs: i64, nanos: u32) -> UtcTime {
    UtcTime { secs, nanos }
}

#[test]
fn default_settings() {
    let s = ProjectSettings::default();
    assert!(!s.global_shortcuts_enabled);
    assert_eq!(s.audio_buffer_size, 512);
    assert_eq!(s.frame_rate, 30);
    assert_eq!((s.board_rows, s.board_columns), (5, 5));
}

#[test]
fn untitled_project_is_empty() {
    let p = Project::untitled(at(100, 5));
    assert_eq!(p.version, "1.0.0");
    assert_eq!(p.project_name, "Untitled");
    assert_eq!(p.created_at, at(100, 5));
    assert_eq!(p.modified_at, at(100, 5));
    assert!(p.slots.is_empty() && p.timeline.events.is_empty());
    assert_eq!(p.timeline.total_duration_us, 0);
    assert_eq!(p.settings, ProjectSettings::default());
}

#[test]
fn untitled_projects_take_the_file_stem() {
    assert_eq!(name_with_stem("Untitled", Some("gig".to_string())), "gig");
    assert_eq!(name_with_stem("Untitled", None), "Untitled");
    assert_eq!(name_with_stem("Show", Some("gig".to_string())), "Show");
}

#[test]
fn saving_names_and_stamps_the_project() {
    let mut p = Project::untitled(at(1, 0));
    prepare_project_for_save(&mut p, "/home/me/gig night.sfxproj");
    assert_eq!(p.project_name, "gig night");
    assert_eq!(p.created_at, at(1, 0));
    assert!(later_than(p.modified_at, p.created_at));
    let mut q = project_from_state(
        "Show",
        at(1, 0),
        at(1, 0),
        &ProjectSettings::default(),
        &vec![],
        &vec![],
        0,
    );
    prepare_project_for_save(&mut q, "/tmp/other.sfxproj");
    assert_eq!(q.project_name, "Show");
    assert_eq!(q.version, "1.0.0");
}

#[test]
fn slot_limit_message() {
    assert!(check_project_slot_limit(64, 64).is_ok());
    assert_eq!(
        check_project_slot_limit(65, 64).unwrap_err(),
        "project has 65 slots but current limit is 64"
    );
}

#[test]
fn text_order_matches_string_order() {
    let cases = ["", "a", "ab", "b", "B", "é", "z", "\u{3000}", "aa"];
    for x in cases.iter() {
        for y in cases.iter() {
            let a: Vec<char> = x.chars().collect();
            let b: Vec<char> = y.chars().collect();
            assert_eq!(chars_less(&a, &b), x < y, "{x:?} < {y:?}");
        }
    }
}

#[test]
fn missing_paths_are_sorted_once_each() {
    let paths = vec![
        "/b.wav".to_string(),
        "/a.wav".to_string(),
        "/b.wav".to_string(),
        "/c.mp3".to_string(),
        "/a.wav".to_string(),
    ];
    assert_eq!(sorted_unique_paths(paths), vec!["/a.wav", "/b.wav", "/c.mp3"]);
    assert!(sorted_unique_paths(vec![]).is_empty());
}

#[test]
fn relinking_an_audio_path_touches_slots_and_events() {
    let mut slots = vec![slot("a", "/old.wav", 0), slot("b", "/keep.wav", 1)];
    let mut t = TimelineState::default();
    t.add_events(vec![event("e1", "/old.wav", 5), event("e2", "/keep.wav", 1)]);
    let duration = t.total_duration_us;
    update_audio_path(&mut slots, &mut t, "/old.wav", &"/new.wav".to_string());
    assert_eq!(slots[0].audio_path, "/new.wav");
    assert_eq!(slots[1].audio_path, "/keep.wav");
    assert_eq!(t.events[0].event_id, "e2");
    assert_eq!(t.events[0].audio_path, "/keep.wav");
    assert_eq!(t.events[1].audio_path, "/new.wav");
    assert_eq!(t.total_duration_us, duration);
}

#[test]
fn board_layout_checks_range_and_slot_positions() {
    let slots = vec![slot("a", "/a", 0), slot("b", "/b", 8)];
    let mut s = ProjectSettings::default();
    assert_eq!(
        update_board_layout(&slots, &mut s, 0, 3).unwrap_err(),
        "board layout must be between 1 and 5"
    );
    assert_eq!(
        update_board_layout(&slots, &mut s, 3, 6).unwrap_err(),
        "board layout must be between 1 and 5"
    );
    assert_eq!(
        update_board_layout(&slots, &mut s, 2, 4).unwrap_err(),
        "cannot shrink board: some slots are outside the selected size"
    );
    assert_eq!((s.board_rows, s.board_columns), (5, 5));
    update_board_layout(&slots, &mut s, 3, 3).unwrap();
    assert_eq!((s.board_rows, s.board_columns), (3, 3));
    assert_eq!(s.frame_rate, 30);
}

#[test]
fn project_state_reports_settings() {
    let mut s = ProjectSettings::default();
    s.frame_rate = 24;
    s.board_rows = 2;
    let state = get_project_state(&"Show".to_string(), &Some("/x.sfxproj".to_string()), true, &s);
    assert_eq!(state.project_name, "Show");
    assert_eq!(state.current_path.as_deref(), Some("/x.sfxproj"));
    assert!(state.has_unsaved_changes);
    assert!(!state.global_shortcuts_enabled);
    assert_eq!(state.frame_rate, 24);
    assert_eq!((state.board_rows, state.board_columns), (2, 5));
}

#[test]
fn autosave_recovery_compares_times() {
    let none = check_autosave_recovery(false, "/auto".to_string(), Some(at(10, 0)), None);
    assert!(!none.has_recoverable);
    assert!(none.modified_at.is_none());
    assert_eq!(none.autosave_path, "/auto");
    let newer = check_autosave_recovery(true, "/auto".to_string(), Some(at(10, 5)), Some(at(10, 4)));
    assert!(newer.has_recoverable);
    assert_eq!(newer.modified_at.as_deref(), Some("1970-01-01T00:00:10.000000005+00:00"));
    let older = check_autosave_recovery(true, "/auto".to_string(), Some(at(9, 0)), Some(at(10, 0)));
    assert!(!older.has_recoverable);
    let never_saved = check_autosave_recovery(true, "/auto".to_string(), Some(at(0, 0)), None);
    assert!(never_saved.has_recoverable);
    assert_eq!(never_saved.modified_at.as_deref(), Some("1970-01-01T00:00:00+00:00"));
    let unknown = check_autosave_recovery(true, "/auto".to_string(), None, Some(at(1, 0)));
    assert!(!unknown.has_recoverable);
    assert!(unknown.modified_at.is_none());
}

#[test]
fn utc_times_order_by_seconds_then_nanoseconds() {
    assert!(later_than(at(2, 0), at(1, 999_999_999)));
    assert!(later_than(at(1, 2), at(1, 1)));
    assert!(!later_than(at(1, 1), at(1, 1)));
    assert!(!later_than(at(-1, 0), at(0, 0)));
}

#[test]
fn autosave_interval() {
    let now = AutosaveManager::new(0);
    assert!(now.should_autosave());
    let mut later = AutosaveManager::new(3600);
    assert!(!later.should_autosave());
    later.mark_saved();
    assert!(!later.should_autosave());
}

#[test]
fn autosave_goes_to_the_app_data_folder_or_the_working_directory() {
    assert_eq!(autosave_path(None), "./autosave.sfxproj");
    assert_eq!(
        autosave_path(Some("/home/me/.data".to_string())),
        "/home/me/.data/SFXBoard/autosave.sfxproj"
    );
    assert_eq!(
        autosave_path(Some("/home/me/.data/".to_string())),
        "/home/me/.data/SFXBoard/autosave.sfxproj"
    );
}

#[test]
fn audio_paths_list_slots_then_events() {
    let mut p = Project::untitled(at(1, 0));
    p.slots.push(slot("a", "/s/a.wav", 0));
    p.slots.push(slot("b", "/s/b.wav", 1));
    p.timeline.events.push(event("e1", "/s/b.wav", 0));
    p.timeline.events.push(event("e2", "/s/c.wav", 10));
    assert_eq!(project_audio_paths(&p), vec!["/s/a.wav", "/s/b.wav", "/s/b.wav", "/s/c.wav"]);
    assert!(project_audio_paths(&Project::untitled(at(1, 0))).is_empty());
}
