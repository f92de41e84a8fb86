use std::hash::BuildHasher;
use std::str::FromStr;

use global_hotkey::hotkey::HotKey;
use sfx_board::commands::slot_commands::{
    check_slot_capacity, slot_index, slots_without_id, trimmed, updated_slot,
};
use sfx_board::commands::timeline_commands::find_slot;
use sfx_board::models::slot::{choose_label, color_from_hash, color_from_path, Slot};
use sfx_board::recording::shortcut_manager::{
    parse_shortcuts, plan_bindings, ParsedShortcut,
};

fn slot(id: &str, shortcut: &str) -> Slot {
    Slot {
        id: id.to_string(),
        position: 0,
        label: format!("Label {id}"),
        audio_path: format!("/sounds/{id}.wav"),
        image_data_url: None,
        icon_name: None,
        shortcut: shortcut.to_string(),
        gain_milli: 1000,
        duration_us: 1_000,
        color: "#FF6B6B".to_string(),
        created_at_ms: 0,
    }
}

#[test]
fn capacity_refuses_a_full_board() {
    assert!(check_slot_capacity(3, 64).is_ok());
    assert_eq!(check_slot_capacity(64, 64).unwrap_err(), "maximum slot count (64) reached");
    assert_eq!(check_slot_capacity(9, 0).unwrap_err(), "maximum slot count (0) reached");
}

#[test]
fn update_trims_shortcut_and_holds_gain_in_range() {
    let s = slot("a", "");
    let u = updated_slot(&s, Some("New".to_string()), Some("  Ctrl+K \t".to_string()), Some(2500));
    assert_eq!(u.label, "New");
    assert_eq!(u.shortcut, "Ctrl+K");
    assert_eq!(u.gain_milli, 2000);
    assert_eq!(u.id, "a");
    assert_eq!(u.audio_path, "/sounds/a.wav");
    let v = updated_slot(&s, None, None, Some(-3));
    assert_eq!(v.label, "Label a");
    assert_eq!(v.shortcut, "");
    assert_eq!(v.gain_milli, 0);
    let w = updated_slot(&s, None, None, Some(1234));
    assert_eq!(w.gain_milli, 1234);
}

#[test]
fn trimmed_strips_unicode_white_space() {
    assert_eq!(trimmed("\u{3000} x y \n"), "x y");
    assert_eq!(trimmed("   "), "");
}

#[test]
fn slot_lookup_finds_the_first_match() {
    let slots = vec![slot("a", ""), slot("b", "x"), slot("b", "y")];
    assert_eq!(slot_index(&slots, "b"), Some(1));
    assert_eq!(slot_index(&slots, "z"), None);
    assert_eq!(find_slot(&slots, "b").unwrap().shortcut, "x");
    assert_eq!(find_slot(&slots, "z").unwrap_err(), "slot not found");
}

#[test]
fn colour_from_hash_formula() {
    assert_eq!(color_from_hash(0), "#000000");
    assert_eq!(color_from_hash(0xABCDEF), "#ABCDEF");
    assert_eq!(color_from_hash(0x1_2345_6789), "#456789");
    assert_eq!(color_from_hash(u64::MAX), "#FFFFFF");
}

#[test]
fn colour_from_path_is_a_hex_colour_of_the_path_hash() {
    let c = color_from_path("/sounds/boom.wav");
    assert_eq!(c.len(), 7);
    assert!(c.starts_with('#'));
    assert!(c[1..].chars().all(|ch| ch.is_ascii_digit() || ('A'..='F').contains(&ch)));
    let hash = std::hash::BuildHasherDefault::<std::collections::hash_map::DefaultHasher>::default()
        .hash_one("/sounds/boom.wav");
    assert_eq!(c, color_from_hash(hash));
    assert_ne!(color_from_path("/sounds/boom.wav"), color_from_path("/sounds/bang.wav"));
    assert_eq!(c, color_from_path("/sounds/boom.wav"));
}

#[test]
fn label_falls_back_to_stem_then_untitled() {
    assert_eq!(choose_label(Some("Mine".to_string()), Some("stem".to_string())), "Mine");
    assert_eq!(choose_label(None, Some("stem".to_string())), "stem");
    assert_eq!(choose_label(None, None), "Untitled");
}

#[test]
fn new_slot_starts_with_unit_gain_and_no_shortcut() {
    let s = Slot::new("/x/y/drum.wav".to_string(), None, 4, 123);
    assert_eq!(s.label, "drum");
    assert_eq!(s.position, 4);
    assert_eq!(s.gain_milli, 1000);
    assert_eq!(s.shortcut, "");
    assert_eq!(s.duration_us, 123);
    assert!(s.image_data_url.is_none() && s.icon_name.is_none());
    assert_eq!(s.color, color_from_path("/x/y/drum.wav"));
    let t = Slot::new("/x/y/drum.wav".to_string(), None, 4, 123);
    assert_ne!(s.id, t.id);
}

#[test]
fn new_slot_label_is_the_file_stem() {
    assert_eq!(Slot::new("kit/snare.take2.mp3".to_string(), None, 0, 1).label, "snare.take2");
    assert_eq!(Slot::new("kit/.hidden".to_string(), None, 0, 1).label, ".hidden");
    assert_eq!(Slot::new("plain".to_string(), None, 0, 1).label, "plain");
    assert_eq!(Slot::new("/".to_string(), None, 0, 1).label, "Untitled");
    assert_eq!(Slot::new("a/b.wav".to_string(), Some("Given".to_string()), 0, 1).label, "Given");
}

#[test]
fn shortcuts_read_as_empty_key_or_invalid() {
    let slots = vec![slot("a", "  "), slot("b", " ctrl+KeyK "), slot("c", "bogus+++")];
    let parsed = parse_shortcuts(&slots);
    assert!(matches!(parsed[0], ParsedShortcut::Empty));
    let expected = HotKey::from_str("ctrl+KeyK").unwrap().id();
    assert!(matches!(parsed[1], ParsedShortcut::Key(_, id) if id == expected));
    let reason = HotKey::from_str("bogus+++").err().unwrap().to_string();
    assert!(matches!(&parsed[2], ParsedShortcut::Invalid(e) if *e == reason));
}

#[test]
fn plan_binds_each_hotkey_to_its_slot() {
    let slots = vec![slot("a", "ctrl+KeyA"), slot("b", ""), slot("c", "shift+KeyC")];
    let parsed = parse_shortcuts(&slots);
    let plan = plan_bindings(&slots, parsed).unwrap();
    assert_eq!(plan.shortcuts.len(), 3);
    assert_eq!(plan.hotkeys.len(), 2);
    assert_eq!(plan.owners.len(), 2);
    let a_id = HotKey::from_str("ctrl+KeyA").unwrap().id();
    let c_id = HotKey::from_str("shift+KeyC").unwrap().id();
    assert_eq!(plan.owners[&a_id], "a");
    assert_eq!(plan.owners[&c_id], "c");
    assert_eq!(plan.hotkeys[1].slot_id, "c");
}

#[test]
fn plan_refuses_a_shared_hotkey() {
    let slots = vec![slot("a", "ctrl+KeyA"), slot("b", "control+keya")];
    let parsed = parse_shortcuts(&slots);
    let err = plan_bindings(&slots, parsed).err().unwrap();
    assert_eq!(err, "shortcut conflict detected for: control+keya");
}

#[test]
fn plan_refuses_an_unreadable_shortcut() {
    let slots = vec![slot("a", "bogus+++")];
    let parsed = parse_shortcuts(&slots);
    let err = plan_bindings(&slots, parsed).err().unwrap();
    assert!(err.starts_with("invalid shortcut \"bogus+++\": "));
}

#[test]
fn deleting_removes_every_slot_with_the_id() {
    let slots = vec![slot("a", ""), slot("b", ""), slot("a", "x"), slot("c", "")];
    let kept = slots_without_id(&slots, "a");
    let ids: Vec<String> = kept.iter().map(|s| s.id.clone()).collect();
    assert_eq!(ids, vec!["b", "c"]);
    assert_eq!(slots_without_id(&slots, "z").len(), 4);
}
