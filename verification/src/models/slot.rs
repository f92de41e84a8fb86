use vstd::prelude::*;

use std::hash::BuildHasher;

use crate::clock::utc_now_ms;
use crate::ids::new_uuid_string;
use crate::paths::{file_tail, occurs_in, path_file_stem, plain_path, stem_of};
use crate::text::string_from_chars;

verus! {

/// A sound on the board.
///
/// The gain is in thousandths, the duration in microseconds and the
/// creation time in milliseconds since the Unix epoch.
#[derive(Debug)]
pub struct Slot {
    pub id: String,
    pub position: usize,
    pub label: String,
    pub audio_path: String,
    pub image_data_url: Option<String>,
    pub icon_name: Option<String>,
    pub shortcut: String,
    pub gain_milli: i32,
    pub duration_us: i64,
    pub color: String,
    pub created_at_ms: i64,
}

/// A copy of an optional string.
pub fn clone_opt_string(s: &Option<String>) -> (r: Option<String>)
    ensures
        r == *s,
{
    match s {
        Some(v) => Some(v.clone()),
        None => None,
    }
}

impl Clone for Slot {
    fn clone(&self) -> (r: Self)
        ensures
            r == *self,
    {
        Slot {
            id: self.id.clone(),
            position: self.position,
            label: self.label.clone(),
            audio_path: self.audio_path.clone(),
            image_data_url: clone_opt_string(&self.image_data_url),
            icon_name: clone_opt_string(&self.icon_name),
            shortcut: self.shortcut.clone(),
            gain_milli: self.gain_milli,
            duration_us: self.duration_us,
            color: self.color.clone(),
            created_at_ms: self.created_at_ms,
        }
    }
}

/// What std's `DefaultHasher`, made with its default keys, gives for a text
/// hashed as a `str`.
pub uninterp spec fn default_hash(text: Seq<char>) -> u64;

/// `std::hash::BuildHasherDefault::<DefaultHasher>::hash_one` of the text,
/// which is what `DefaultHasher::new()` gives after hashing it. Such hashers
/// are not seeded per process: all of them give the same hash for the same
/// text, so the result is named. The algorithm is not spelled out; std does
/// not fix it from one release to the next.
#[verifier::external_body]
pub(crate) fn default_hash_of(text: &str) -> (r: u64)
    ensures
        r == default_hash(text@),
{
    std::hash::BuildHasherDefault::<std::collections::hash_map::DefaultHasher>::default().hash_one(
        text,
    )
}

/// The upper-case hexadecimal digit for `d`, which is below 16.
pub open spec fn hex_digit(d: nat) -> char {
    if d < 10 {
        (('0' as nat) + d) as char
    } else {
        (('A' as nat) + (d - 10)) as char
    }
}

/// The CSS colour `#RRGGBB` that a hash picks: its low 24 bits, as six
/// upper-case hexadecimal digits.
pub open spec fn hex_color(hash: u64) -> Seq<char> {
    let v = (hash % 0x100_0000) as nat;
    seq![
        '#',
        hex_digit((v / 0x10_0000) % 16),
        hex_digit((v / 0x1_0000) % 16),
        hex_digit((v / 0x1000) % 16),
        hex_digit((v / 0x100) % 16),
        hex_digit((v / 0x10) % 16),
        hex_digit(v % 16),
    ]
}

/// The hexadecimal digit for `d`.
fn hex_char(d: u64) -> (c: char)
    requires
        d < 16,
    ensures
        c == hex_digit(d as nat),
{
    let digits = ['0', '1', '2', '3', '4', '5', '6', '7', '8', '9', 'A', 'B', 'C', 'D', 'E', 'F'];
    proof {
        assert(digits@ =~= seq!['0', '1', '2', '3', '4', '5', '6', '7', '8', '9', 'A', 'B', 'C', 'D', 'E', 'F']);
    }
    digits[d as usize]
}

/// The colour a hash picks for a slot.
pub fn color_from_hash(hash: u64) -> (r: String)
    ensures
        r@ == hex_color(hash),
{
    let v = hash % 0x100_0000;
    let mut chars: Vec<char> = Vec::new();
    chars.push('#');
    chars.push(hex_char((v / 0x10_0000) % 16));
    chars.push(hex_char((v / 0x1_0000) % 16));
    chars.push(hex_char((v / 0x1000) % 16));
    chars.push(hex_char((v / 0x100) % 16));
    chars.push(hex_char((v / 0x10) % 16));
    chars.push(hex_char(v % 16));
    proof {
        assert(chars@ =~= hex_color(hash));
    }
    string_from_chars(&chars)
}

/// The colour of the slot that plays the file at `path`: picked by the hash
/// of the path, so one path always gets one colour.
pub fn color_from_path(path: &str) -> (r: String)
    ensures
        r@ == hex_color(default_hash(path@)),
{
    color_from_hash(default_hash_of(path))
}

/// One path always gets one colour: two calls of `color_from_path` on the
/// same text give the same colour, in any run.
pub proof fn law_one_colour_per_path(a: Seq<char>, b: Seq<char>)
    requires
        a == b,
    ensures
        hex_color(default_hash(a)) == hex_color(default_hash(b)),
        hex_color(default_hash(a)).len() == 7,
        hex_color(default_hash(a))[0] == '#',
{
}

/// The label a new slot gets: the one given, else the file's stem, else `Untitled`.
pub open spec fn slot_label(label: Option<String>, stem: Option<String>) -> Seq<char> {
    match label {
        Some(l) => l@,
        None => match stem {
            Some(s) => s@,
            None => "Untitled"@,
        },
    }
}

/// The label a new slot gets from the label asked for and the file's stem.
pub fn choose_label(label: Option<String>, stem: Option<String>) -> (r: String)
    ensures
        r@ == slot_label(label, stem),
{
    match label {
        Some(l) => l,
        None => match stem {
            Some(s) => s,
            None => "Untitled".to_string(),
        },
    }
}

impl Slot {
    /// A new slot for a decoded sound of `duration_us` at `audio_path`, with
    /// a fresh id, unit gain, no shortcut and a colour picked from the path.
    pub fn new(audio_path: String, label: Option<String>, position: usize, duration_us: i64) -> (r: Slot)
        ensures
            r.position == position,
            exists|stem: Option<String>| r.label@ == slot_label(label, stem),
            label is None ==> r.label@ == "Untitled"@ || occurs_in(r.label@, audio_path@),
            label is None && plain_path(audio_path@) ==> r.label@ == stem_of(file_tail(audio_path@)),
            r.audio_path == audio_path,
            r.image_data_url is None,
            r.icon_name is None,
            r.shortcut@ == Seq::<char>::empty(),
            r.gain_milli == 1000,
            r.duration_us == duration_us,
            r.color@ == hex_color(default_hash(audio_path@)),
    {
        let stem = path_file_stem(audio_path.as_str());
        let chosen = choose_label(label, stem);
        let color = color_from_path(audio_path.as_str());
        Slot {
            id: new_uuid_string(),
            position,
            label: chosen,
            audio_path,
            image_data_url: None,
            icon_name: None,
            shortcut: String::new(),
            gain_milli: 1000,
            duration_us,
            color,
            created_at_ms: utc_now_ms(),
        }
    }
}

} // verus!
