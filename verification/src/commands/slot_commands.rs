use vstd::prelude::*;

use crate::commands::timeline_commands::{first_slot_index, lemma_first_slot_index};
use crate::models::slot::Slot;
use crate::recording::shortcut_manager::{failure_of, synced_with, ShortcutManager, ShortcutView};
use crate::remote::request::{trim, trim_chars};
use crate::text::{chars_of, decimal, push_decimal, push_str, str_eq, string_from_chars};

verus! {

/// The refusal of a slot beyond the board's size.
pub open spec fn capacity_message(max_slots: nat) -> Seq<char> {
    "maximum slot count ("@ + decimal(max_slots) + ") reached"@
}

/// Whether a board with `count` slots has room for one more.
pub fn check_slot_capacity(count: usize, max_slots: usize) -> (r: Result<(), String>)
    ensures
        r is Err <==> count >= max_slots,
        r matches Err(m) ==> m@ == capacity_message(max_slots as nat),
{
    if count >= max_slots {
        let mut chars: Vec<char> = Vec::new();
        push_str(&mut chars, "maximum slot count (");
        push_decimal(&mut chars, max_slots as u64);
        push_str(&mut chars, ") reached");
        proof {
            assert(chars@ =~= capacity_message(max_slots as nat));
        }
        return Err(string_from_chars(&chars));
    }
    Ok(())
}

/// Adds `slot`, a new sound, to the end of the board where there is room,
/// and binds the board's shortcuts anew. Where the shortcuts cannot be
/// bound, the board stays as it was.
pub fn add_slot(
    slots: &mut Vec<Slot>,
    shortcuts: &mut ShortcutManager,
    max_slots: usize,
    slot: Slot,
) -> (r: Result<Slot, String>)
    ensures
        old(slots)@.len() >= max_slots ==> {
            &&& r matches Err(m) && m@ == capacity_message(max_slots as nat)
            &&& final(slots)@ == old(slots)@
            &&& final(shortcuts)@ == old(shortcuts)@
        },
        old(slots)@.len() < max_slots ==> {
            &&& synced_with(
                old(shortcuts)@,
                old(slots)@.push(slot),
                failure_of(r),
                final(shortcuts)@,
            )
            &&& match r {
                Ok(s) => s == slot && final(slots)@ == old(slots)@.push(slot),
                Err(_) => final(slots)@ == old(slots)@,
            }
        },
{
    match check_slot_capacity(slots.len(), max_slots) {
        Ok(()) => {},
        Err(e) => {
            return Err(e);
        },
    }
    let ghost before = slots@;
    slots.push(slot.clone());
    match shortcuts.sync_slots(slots.as_slice()) {
        Ok(()) => Ok(slot),
        Err(e) => {
            slots.pop();
            proof {
                assert(slots@ =~= before);
            }
            Err(e)
        },
    }
}

/// Whether `u` is the slot `s` with the label, shortcut (trimmed) and gain
/// (held to 0..=2000 thousandths) that were given, and all else kept.
pub open spec fn is_update_of(
    u: Slot,
    s: Slot,
    label: Option<String>,
    shortcut: Option<String>,
    gain_milli: Option<i32>,
) -> bool {
    &&& u.id == s.id
    &&& u.position == s.position
    &&& u.label@ == (match label {
        Some(l) => l@,
        None => s.label@,
    })
    &&& u.audio_path == s.audio_path
    &&& u.image_data_url == s.image_data_url
    &&& u.icon_name == s.icon_name
    &&& u.shortcut@ == (match shortcut {
        Some(k) => trim(k@),
        None => s.shortcut@,
    })
    &&& u.gain_milli == (match gain_milli {
        Some(g) => if g < 0 {
            0
        } else if g > 2000 {
            2000
        } else {
            g
        },
        None => s.gain_milli,
    })
    &&& u.duration_us == s.duration_us
    &&& u.color == s.color
    &&& u.created_at_ms == s.created_at_ms
}

/// `s` without its leading and trailing white space.
pub fn trimmed(s: &str) -> (r: String)
    ensures
        r@ == trim(s@),
{
    let chars = chars_of(s);
    string_from_chars(&trim_chars(&chars))
}

/// Whether the shortcut manager went from `before` to `after`, failing
/// with `m`, by syncing with `slots` where the slot at `k` was updated with
/// the label, shortcut and gain given.
pub open spec fn update_refused(
    slots: Seq<Slot>,
    k: int,
    label: Option<String>,
    shortcut: Option<String>,
    gain_milli: Option<i32>,
    before: ShortcutView,
    m: Seq<char>,
    after: ShortcutView,
) -> bool {
    exists|u: Slot|
        #[trigger] is_update_of(u, slots[k], label, shortcut, gain_milli) && synced_with(
            before,
            slots.update(k, u),
            Some(m),
            after,
        )
}

/// The slot `slot` with what was given changed.
pub fn updated_slot(
    slot: &Slot,
    label: Option<String>,
    shortcut: Option<String>,
    gain_milli: Option<i32>,
) -> (r: Slot)
    ensures
        is_update_of(r, *slot, label, shortcut, gain_milli),
{
    let mut u = slot.clone();
    match label {
        Some(l) => {
            u.label = l;
        },
        None => {},
    }
    match shortcut {
        Some(k) => {
            u.shortcut = trimmed(k.as_str());
        },
        None => {},
    }
    match gain_milli {
        Some(g) => {
            u.gain_milli = if g < 0 {
                0
            } else if g > 2000 {
                2000
            } else {
                g
            };
        },
        None => {},
    }
    u
}

/// The index of the first slot with the id `slot_id`.
pub fn slot_index(slots: &Vec<Slot>, slot_id: &str) -> (r: Option<usize>)
    ensures
        r matches Some(i) ==> i < slots@.len() && first_slot_index(slots@, slot_id@) == Some(i as int),
        r is None ==> first_slot_index(slots@, slot_id@) is None,
{
    proof {
        lemma_first_slot_index(slots@, slot_id@);
    }
    let mut i: usize = 0;
    while i < slots.len()
        invariant
            i <= slots@.len(),
            forall|m: int| 0 <= m < i ==> slots@[m].id@ != slot_id@,
            match first_slot_index(slots@, slot_id@) {
                Some(k) => 0 <= k < slots@.len() && slots@[k].id@ == slot_id@ && forall|m: int|
                    0 <= m < k ==> slots@[m].id@ != slot_id@,
                None => forall|m: int| 0 <= m < slots@.len() ==> slots@[m].id@ != slot_id@,
            },
        decreases slots.len() - i,
    {
        if str_eq(slots[i].id.as_str(), slot_id) {
            return Some(i);
        }
        i = i + 1;
    }
    None
}

/// Changes the label, shortcut or gain of the first slot with the id
/// `slot_id`, and binds the board's shortcuts anew. Where there is no such
/// slot, or the shortcuts cannot be bound, the board stays as it was.
pub fn update_slot(
    slots: &mut Vec<Slot>,
    shortcuts: &mut ShortcutManager,
    slot_id: &str,
    label: Option<String>,
    shortcut: Option<String>,
    gain_milli: Option<i32>,
) -> (r: Result<Slot, String>)
    ensures
        first_slot_index(old(slots)@, slot_id@) is None ==> {
            &&& r matches Err(m) && m@ == "slot not found"@
            &&& final(slots)@ == old(slots)@
            &&& final(shortcuts)@ == old(shortcuts)@
        },
        first_slot_index(old(slots)@, slot_id@) matches Some(k) ==> (r matches Ok(u) ==> {
            &&& is_update_of(u, old(slots)@[k], label, shortcut, gain_milli)
            &&& final(slots)@ == old(slots)@.update(k, u)
            &&& synced_with(old(shortcuts)@, old(slots)@.update(k, u), None, final(shortcuts)@)
        }),
        first_slot_index(old(slots)@, slot_id@) matches Some(k) ==> (r matches Err(m) ==> {
            &&& final(slots)@ == old(slots)@
            &&& update_refused(
                old(slots)@,
                k,
                label,
                shortcut,
                gain_milli,
                old(shortcuts)@,
                m@,
                final(shortcuts)@,
            )
        }),
{
    let i = match slot_index(slots, slot_id) {
        Some(i) => i,
        None => {
            return Err("slot not found".to_string());
        },
    };
    let original = slots[i].clone();
    let updated = updated_slot(&original, label, shortcut, gain_milli);
    let ghost before = slots@;
    slots.set(i, updated.clone());
    match shortcuts.sync_slots(slots.as_slice()) {
        Ok(()) => Ok(updated),
        Err(e) => {
            proof {
                assert(is_update_of(updated, before[i as int], label, shortcut, gain_milli));
                assert(synced_with(old(shortcuts)@, before.update(i as int, updated), Some(e@), shortcuts@));
            }
            slots.set(i, original);
            proof {
                assert(slots@ =~= before);
                assert(update_refused(before, i as int, label, shortcut, gain_milli, old(shortcuts)@, e@, shortcuts@));
            }
            Err(e)
        },
    }
}

/// The slots of `s` whose id is not `id`, in order.
pub open spec fn slots_without(s: Seq<Slot>, id: Seq<char>) -> Seq<Slot>
    decreases s.len(),
{
    if s.len() == 0 {
        s
    } else if s.last().id@ == id {
        slots_without(s.drop_last(), id)
    } else {
        slots_without(s.drop_last(), id).push(s.last())
    }
}

/// Removing slots takes none away exactly when none has the id.
pub proof fn lemma_slots_without_len(s: Seq<Slot>, id: Seq<char>)
    ensures
        slots_without(s, id).len() <= s.len(),
        slots_without(s, id).len() == s.len() <==> forall|m: int|
            0 <= m < s.len() ==> (#[trigger] s[m]).id@ != id,
    decreases s.len(),
{
    if s.len() > 0 {
        let d = s.drop_last();
        lemma_slots_without_len(d, id);
        assert(forall|m: int| 0 <= m < d.len() ==> d[m] == s[m]);
    }
}

/// The slots without those whose id is `slot_id`, in order.
pub fn slots_without_id(slots: &Vec<Slot>, slot_id: &str) -> (r: Vec<Slot>)
    ensures
        r@ == slots_without(slots@, slot_id@),
{
    let mut next: Vec<Slot> = Vec::new();
    let mut i: usize = 0;
    while i < slots.len()
        invariant
            i <= slots@.len(),
            next@ == slots_without(slots@.take(i as int), slot_id@),
        decreases slots.len() - i,
    {
        proof {
            assert(slots@.take(i as int + 1).drop_last() =~= slots@.take(i as int));
        }
        if !str_eq(slots[i].id.as_str(), slot_id) {
            next.push(slots[i].clone());
        }
        i = i + 1;
    }
    proof {
        assert(slots@.take(slots@.len() as int) =~= slots@);
    }
    next
}

/// Removes every slot with the id `slot_id` and binds the board's shortcuts
/// anew. Where no slot has the id, or the shortcuts cannot be bound, the
/// board stays as it was.
pub fn delete_slot(
    slots: &mut Vec<Slot>,
    shortcuts: &mut ShortcutManager,
    slot_id: &str,
) -> (r: Result<(), String>)
    ensures
        first_slot_index(old(slots)@, slot_id@) is None ==> {
            &&& r matches Err(m) && m@ == "slot not found"@
            &&& final(slots)@ == old(slots)@
            &&& final(shortcuts)@ == old(shortcuts)@
        },
        first_slot_index(old(slots)@, slot_id@) is Some ==> {
            &&& synced_with(
                old(shortcuts)@,
                slots_without(old(slots)@, slot_id@),
                failure_of(r),
                final(shortcuts)@,
            )
            &&& final(slots)@ == (if r is Ok {
                slots_without(old(slots)@, slot_id@)
            } else {
                old(slots)@
            })
        },
{
    proof {
        lemma_first_slot_index(slots@, slot_id@);
        lemma_slots_without_len(slots@, slot_id@);
    }
    let next = slots_without_id(slots, slot_id);
    if next.len() == slots.len() {
        return Err("slot not found".to_string());
    }
    match shortcuts.sync_slots(next.as_slice()) {
        Ok(()) => {
            *slots = next;
            Ok(())
        },
        Err(e) => Err(e),
    }
}

} // verus!
