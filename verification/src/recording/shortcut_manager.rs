use vstd::prelude::*;

use std::str::FromStr;

use global_hotkey::hotkey::HotKey;
use global_hotkey::GlobalHotKeyManager;
use std::collections::HashMap;

use crate::models::slot::Slot;
use crate::remote::request::trim;
use crate::text::{chars_of, joined, push_str, str_eq, string_from_chars};
use crate::remote::request::trim_chars;

verus! {

broadcast use vstd::std_specs::hash::group_hash_axioms;

#[verifier::external_type_specification]
#[verifier::external_body]
pub struct ExGlobalHotKeyManager(global_hotkey::GlobalHotKeyManager);

#[verifier::external_type_specification]
#[verifier::external_body]
pub struct ExHotKey(global_hotkey::hotkey::HotKey);

/// `GlobalHotKeyManager::new`, with its error as text. It talks to the
/// platform's window system: nothing is stated of the outcome.
#[verifier::external_body]
pub(crate) fn new_hotkey_manager() -> Result<GlobalHotKeyManager, String> {
    match GlobalHotKeyManager::new() {
        Ok(manager) => Ok(manager),
        Err(err) => Err(err.to_string()),
    }
}

/// Why `HotKey::from_str` refuses `text`, as its error's text, or `None`
/// where it reads a hotkey. Whether it refuses, and the message, depend on
/// the text alone: the platforms differ only in which modifier
/// `CmdOrCtrl` stands for.
pub uninterp spec fn hotkey_parse_error(text: Seq<char>) -> Option<Seq<char>>;

/// `HotKey::from_str`, with its error as text: refused exactly where
/// `hotkey_parse_error` names a reason, with that reason. The hotkey read
/// is opaque here; its modifiers differ between platforms.
#[verifier::external_body]
pub(crate) fn parse_hotkey(text: &str) -> (r: Result<HotKey, String>)
    ensures
        match r {
            Ok(_) => hotkey_parse_error(text@) is None,
            Err(e) => hotkey_parse_error(text@) == Some(e@),
        },
{
    match HotKey::from_str(text) {
        Ok(hotkey) => Ok(hotkey),
        Err(err) => Err(err.to_string()),
    }
}

/// `HotKey::id`: the number that tells hotkeys apart. The hotkey is opaque
/// here, so nothing is stated of it.
#[verifier::external_body]
pub(crate) fn hotkey_id(hotkey: &HotKey) -> u32 {
    hotkey.id()
}

/// The text of a hotkey, from its `Display` impl. Nothing is stated of it.
#[verifier::external_body]
pub(crate) fn hotkey_text(hotkey: &HotKey) -> String {
    hotkey.to_string()
}

/// `GlobalHotKeyManager::register`, with its error as text. It asks the
/// platform for the hotkey: nothing is stated of the outcome.
#[verifier::external_body]
pub(crate) fn register_hotkey(manager: &GlobalHotKeyManager, hotkey: &HotKey) -> Result<(), String> {
    match manager.register(*hotkey) {
        Ok(()) => Ok(()),
        Err(err) => Err(err.to_string()),
    }
}

/// `GlobalHotKeyManager::unregister`, with its error as text. It asks the
/// platform to release the hotkey: nothing is stated of the outcome.
#[verifier::external_body]
pub(crate) fn unregister_hotkey(manager: &GlobalHotKeyManager, hotkey: &HotKey) -> Result<(), String> {
    match manager.unregister(*hotkey) {
        Ok(()) => Ok(()),
        Err(err) => Err(err.to_string()),
    }
}

/// A slot's shortcut as read: none, unreadable with a reason, or a hotkey
/// with its id.
pub enum ParsedShortcut {
    Empty,
    Invalid(String),
    Key(HotKey, u32),
}

/// What a read shortcut shows of itself.
pub enum ParsedView {
    Empty,
    Invalid(Seq<char>),
    Key(u32),
}

impl View for ParsedShortcut {
    type V = ParsedView;

    open spec fn view(&self) -> ParsedView {
        match self {
            ParsedShortcut::Empty => ParsedView::Empty,
            ParsedShortcut::Invalid(e) => ParsedView::Invalid(e@),
            ParsedShortcut::Key(_, id) => ParsedView::Key(*id),
        }
    }
}

/// What each read shortcut shows of itself.
pub open spec fn parsed_views(v: Seq<ParsedShortcut>) -> Seq<ParsedView> {
    v.map_values(|p: ParsedShortcut| p@)
}

/// The hotkey bound to a slot.
pub struct HotkeyBinding {
    pub slot_id: String,
    pub hotkey: HotKey,
    pub hotkey_id: u32,
}

/// The slots by id; a later slot with the same id replaces an earlier one.
pub open spec fn slot_map(v: Seq<Slot>) -> Map<Seq<char>, Slot>
    decreases v.len(),
{
    if v.len() == 0 {
        Map::empty()
    } else {
        slot_map(v.drop_last()).insert(v.last().id@, v.last())
    }
}

/// The hotkey ids by slot id; a later binding replaces an earlier one.
pub open spec fn binding_map(v: Seq<HotkeyBinding>) -> Map<Seq<char>, u32>
    decreases v.len(),
{
    if v.len() == 0 {
        Map::empty()
    } else {
        binding_map(v.drop_last()).insert(v.last().slot_id@, v.last().hotkey_id)
    }
}

/// The owning slot id by hotkey id, as text.
pub open spec fn owner_texts(m: Map<u32, String>) -> Map<u32, Seq<char>> {
    m.map_values(|s: String| s@)
}

/// The bindings that a set of slots asks for.
#[verifier::ext_equal]
pub struct PlanView {
    pub shortcuts: Map<Seq<char>, Slot>,
    pub hotkeys: Map<Seq<char>, u32>,
    pub owners: Map<u32, Seq<char>>,
}

/// `"text"` in double quotes.
pub open spec fn quoted(text: Seq<char>) -> Seq<char> {
    "\""@ + text + "\""@
}

/// The bindings for `slots`, whose shortcuts read as `parsed`, or the first
/// reason there are none: an unreadable shortcut, or a hotkey that an
/// earlier slot already holds.
pub open spec fn plan(slots: Seq<Slot>, parsed: Seq<ParsedView>) -> Result<PlanView, Seq<char>>
    decreases slots.len(),
{
    if slots.len() == 0 || parsed.len() != slots.len() {
        Ok(PlanView { shortcuts: Map::empty(), hotkeys: Map::empty(), owners: Map::empty() })
    } else {
        match plan(slots.drop_last(), parsed.drop_last()) {
            Err(e) => Err(e),
            Ok(v) => {
                let slot = slots.last();
                let shortcuts = v.shortcuts.insert(slot.id@, slot);
                match parsed.last() {
                    ParsedView::Empty => Ok(PlanView { shortcuts: shortcuts, ..v }),
                    ParsedView::Invalid(err) => Err(
                        "invalid shortcut "@ + quoted(slot.shortcut@) + ": "@ + err,
                    ),
                    ParsedView::Key(id) => if v.owners.contains_key(id) {
                        Err("shortcut conflict detected for: "@ + slot.shortcut@)
                    } else {
                        Ok(
                            PlanView {
                                shortcuts: shortcuts,
                                hotkeys: v.hotkeys.insert(slot.id@, id),
                                owners: v.owners.insert(id, slot.id@),
                            },
                        )
                    },
                }
            },
        }
    }
}

/// How one trimmed shortcut reads: empty where there is none; else refused
/// with the parser's reason, or a hotkey where the parser takes it.
pub open spec fn reads_shortcut(text: Seq<char>, parsed: ParsedView) -> bool {
    if text.len() == 0 {
        parsed is Empty
    } else {
        match hotkey_parse_error(text) {
            Some(e) => parsed == ParsedView::Invalid(e),
            None => parsed is Key,
        }
    }
}

/// Whether `parsed` reads each slot's trimmed shortcut: empty exactly when
/// there is no shortcut, refused exactly where the hotkey parser refuses it.
pub open spec fn reads_shortcuts(slots: Seq<Slot>, parsed: Seq<ParsedView>) -> bool {
    &&& parsed.len() == slots.len()
    &&& forall|i: int|
        0 <= i < slots.len() ==> (#[trigger] parsed[i] is Empty <==> trim(slots[i].shortcut@).len()
            == 0)
    &&& forall|i: int|
        0 <= i < slots.len() ==> reads_shortcut(trim(slots[i].shortcut@), #[trigger] parsed[i])
}

/// Reads the shortcut of every slot.
pub fn parse_shortcuts(slots: &[Slot]) -> (r: Vec<ParsedShortcut>)
    ensures
        reads_shortcuts(slots@, parsed_views(r@)),
{
    let mut r: Vec<ParsedShortcut> = Vec::new();
    let mut i: usize = 0;
    while i < slots.len()
        invariant
            i <= slots@.len(),
            r@.len() == i,
            forall|k: int|
                0 <= k < i ==> (#[trigger] r@[k]@ is Empty <==> trim(slots@[k].shortcut@).len() == 0),
            forall|k: int| 0 <= k < i ==> reads_shortcut(trim(slots@[k].shortcut@), #[trigger] r@[k]@),
        decreases slots.len() - i,
    {
        let text = chars_of(slots[i].shortcut.as_str());
        let trimmed = trim_chars(&text);
        if trimmed.len() == 0 {
            r.push(ParsedShortcut::Empty);
        } else {
            let shortcut = string_from_chars(&trimmed);
            match parse_hotkey(shortcut.as_str()) {
                Ok(hotkey) => {
                    let id = hotkey_id(&hotkey);
                    r.push(ParsedShortcut::Key(hotkey, id));
                },
                Err(err) => r.push(ParsedShortcut::Invalid(err)),
            }
        }
        i = i + 1;
    }
    proof {
        let views = parsed_views(r@);
        assert forall|k: int| 0 <= k < slots@.len() implies (#[trigger] views[k] is Empty <==> trim(
            slots@[k].shortcut@,
        ).len() == 0) by {
            assert(views[k] == r@[k]@);
        }
        assert forall|k: int| 0 <= k < slots@.len() implies reads_shortcut(
            trim(slots@[k].shortcut@),
            #[trigger] views[k],
        ) by {
            assert(views[k] == r@[k]@);
        }
    }
    r
}

/// The bindings a set of slots asks for: the slots and their hotkeys in
/// order, and the slot id that owns each hotkey id.
pub struct BindingPlan {
    pub shortcuts: Vec<Slot>,
    pub hotkeys: Vec<HotkeyBinding>,
    pub owners: HashMap<u32, String>,
}

/// What a binding plan describes.
pub open spec fn plan_view(p: BindingPlan) -> PlanView {
    PlanView {
        shortcuts: slot_map(p.shortcuts@),
        hotkeys: binding_map(p.hotkeys@),
        owners: owner_texts(p.owners@),
    }
}

/// Works out the bindings for `slots`, whose shortcuts read as `parsed`.
#[verifier::loop_isolation(false)]
pub fn plan_bindings(slots: &[Slot], parsed: Vec<ParsedShortcut>) -> (r: Result<BindingPlan, String>)
    requires
        parsed@.len() == slots@.len(),
    ensures
        match plan(slots@, parsed_views(parsed@)) {
            Ok(v) => r matches Ok(p) && plan_view(p) == v,
            Err(e) => r matches Err(m) && m@ == e,
        },
{
    let ghost views = parsed_views(parsed@);
    let mut shortcuts: Vec<Slot> = Vec::new();
    let mut hotkeys: Vec<HotkeyBinding> = Vec::new();
    let mut owners: HashMap<u32, String> = HashMap::new();
    let mut parsed = parsed;
    let mut rest: Vec<ParsedShortcut> = Vec::new();
    let ghost all = parsed@;
    // Read the shortcuts from the front: reverse them once so that `pop` hands them out in order.
    while parsed.len() > 0
        invariant
            parsed@ + rest@.reverse() == all,
        decreases parsed.len(),
    {
        let ghost before = parsed@;
        let ghost rest_before = rest@;
        let p = parsed.pop().unwrap();
        rest.push(p);
        proof {
            assert(rest@.reverse() =~= seq![p] + rest_before.reverse());
            assert(before =~= parsed@.push(p));
            assert(parsed@ + rest@.reverse() =~= before + rest_before.reverse());
        }
    }
    proof {
        assert(rest@.reverse() =~= all);
    }
    let mut i: usize = 0;
    proof {
        assert(slots@.take(0) =~= Seq::<Slot>::empty());
        assert(views.take(0) =~= Seq::<ParsedView>::empty());
        assert(plan_view(BindingPlan { shortcuts, hotkeys, owners }) =~= (PlanView {
            shortcuts: Map::empty(),
            hotkeys: Map::empty(),
            owners: Map::empty(),
        }));
    }
    while i < slots.len()
        invariant
            i <= slots@.len(),
            slots@.len() == all.len(),
            views == parsed_views(all),
            rest@.len() == slots@.len() - i,
            forall|k: int| 0 <= k < rest@.len() ==> #[trigger] rest@[k] == all[all.len() - 1 - k],
            plan(slots@.take(i as int), views.take(i as int)) == Ok::<PlanView, Seq<char>>(
                plan_view(BindingPlan { shortcuts, hotkeys, owners }),
            ),
        decreases slots.len() - i,
    {
        let ghost before = plan_view(BindingPlan { shortcuts, hotkeys, owners });
        let ghost old_shortcuts = shortcuts@;
        let ghost old_hotkeys = hotkeys@;
        let ghost pv = all[i as int]@;
        let p = rest.pop().unwrap();
        proof {
            assert(p == all[i as int]);
            assert(slots@.take(i as int + 1).drop_last() =~= slots@.take(i as int));
            assert(views.take(i as int + 1).drop_last() =~= views.take(i as int));
            assert(views.take(i as int + 1).last() == pv);
        }
        let slot = slots[i].clone();
        match p {
            ParsedShortcut::Empty => {
                shortcuts.push(slot);
                proof {
                    assert(shortcuts@.drop_last() =~= old_shortcuts);
                    assert(plan_view(BindingPlan { shortcuts, hotkeys, owners }) =~= (PlanView {
                        shortcuts: before.shortcuts.insert(slots@[i as int].id@, slots@[i as int]),
                        ..before
                    }));
                }
            },
            ParsedShortcut::Invalid(err) => {
                let mut chars: Vec<char> = Vec::new();
                push_str(&mut chars, "invalid shortcut \"");
                push_str(&mut chars, slot.shortcut.as_str());
                push_str(&mut chars, "\": ");
                push_str(&mut chars, err.as_str());
                proof {
                    assert(chars@ =~= "invalid shortcut "@ + quoted(slot.shortcut@) + ": "@ + err@)
                        by {
                        reveal_strlit("invalid shortcut \"");
                        reveal_strlit("invalid shortcut ");
                        reveal_strlit("\"");
                        reveal_strlit("\": ");
                        reveal_strlit(": ");
                    }
                    assert(pv == ParsedView::Invalid(err@));
                    assert(slots@.take(i as int + 1).last() == slot);
                    assert(plan(slots@.take(i as int + 1), views.take(i as int + 1))
                        == Err::<PlanView, Seq<char>>(chars@));
                    lemma_plan_fails_later(slots@, views, i as int + 1);
                    assert(plan(slots@, views) == Err::<PlanView, Seq<char>>(chars@));
                }
                return Err(string_from_chars(&chars));
            },
            ParsedShortcut::Key(hotkey, id) => {
                if owners.contains_key(&id) {
                    let mut chars: Vec<char> = Vec::new();
                    push_str(&mut chars, "shortcut conflict detected for: ");
                    push_str(&mut chars, slot.shortcut.as_str());
                    proof {
                        assert(chars@ =~= "shortcut conflict detected for: "@ + slot.shortcut@);
                        assert(pv == ParsedView::Key(id));
                        assert(slots@.take(i as int + 1).last() == slot);
                        assert(plan(slots@.take(i as int + 1), views.take(i as int + 1))
                            == Err::<PlanView, Seq<char>>(chars@));
                        lemma_plan_fails_later(slots@, views, i as int + 1);
                    }
                    return Err(string_from_chars(&chars));
                }
                let slot_id = slot.id.clone();
                owners.insert(id, slot.id.clone());
                hotkeys.push(HotkeyBinding { slot_id, hotkey, hotkey_id: id });
                shortcuts.push(slot);
                proof {
                    assert(shortcuts@.drop_last() =~= old_shortcuts);
                    assert(hotkeys@.drop_last() =~= old_hotkeys);
                    assert(plan_view(BindingPlan { shortcuts, hotkeys, owners }) =~= (PlanView {
                        shortcuts: before.shortcuts.insert(slots@[i as int].id@, slots@[i as int]),
                        hotkeys: before.hotkeys.insert(slots@[i as int].id@, id),
                        owners: before.owners.insert(id, slots@[i as int].id@),
                    }));
                }
            },
        }
        i = i + 1;
    }
    proof {
        assert(slots@.take(slots@.len() as int) =~= slots@);
        assert(views.take(views.len() as int) =~= views);
    }
    Ok(BindingPlan { shortcuts, hotkeys, owners })
}

/// Once the plan for a prefix fails, the plan for all of the slots fails
/// with the same reason.
pub proof fn lemma_plan_fails_later(slots: Seq<Slot>, parsed: Seq<ParsedView>, n: int)
    requires
        0 <= n <= slots.len(),
        parsed.len() == slots.len(),
        plan(slots.take(n), parsed.take(n)) is Err,
    ensures
        plan(slots, parsed) == plan(slots.take(n), parsed.take(n)),
    decreases slots.len() - n,
{
    if n < slots.len() {
        assert(slots.take(n + 1).drop_last() =~= slots.take(n));
        assert(parsed.take(n + 1).drop_last() =~= parsed.take(n));
        lemma_plan_fails_later(slots, parsed, n + 1);
    } else {
        assert(slots.take(n) =~= slots);
        assert(parsed.take(n) =~= parsed);
    }
}

/// The value bound to `k` in `m`, if any.
pub open spec fn lookup<K, V>(m: Map<K, V>, k: K) -> Option<V> {
    if m.contains_key(k) {
        Some(m[k])
    } else {
        None
    }
}

/// The hotkey id bound to the slot `key`: the last binding for it wins.
fn binding_lookup(v: &Vec<HotkeyBinding>, key: &str) -> (r: Option<u32>)
    ensures
        r == lookup(binding_map(v@), key@),
{
    let mut i: usize = v.len();
    proof {
        assert(v@.take(v@.len() as int) =~= v@);
    }
    while i > 0
        invariant
            i <= v@.len(),
            lookup(binding_map(v@), key@) == lookup(binding_map(v@.take(i as int)), key@),
        decreases i,
    {
        i = i - 1;
        proof {
            assert(v@.take(i as int + 1).drop_last() =~= v@.take(i as int));
        }
        if str_eq(v[i].slot_id.as_str(), key) {
            return Some(v[i].hotkey_id);
        }
    }
    None
}

/// The slot with the id `key`: the last slot with that id wins.
fn slot_lookup(v: &Vec<Slot>, key: &str) -> (r: Option<Slot>)
    ensures
        r == lookup(slot_map(v@), key@),
{
    let mut i: usize = v.len();
    proof {
        assert(v@.take(v@.len() as int) =~= v@);
    }
    while i > 0
        invariant
            i <= v@.len(),
            lookup(slot_map(v@), key@) == lookup(slot_map(v@.take(i as int)), key@),
        decreases i,
    {
        i = i - 1;
        proof {
            assert(v@.take(i as int + 1).drop_last() =~= v@.take(i as int));
        }
        if str_eq(v[i].id.as_str(), key) {
            return Some(v[i].clone());
        }
    }
    None
}

/// Every key of `binding_map(v)` is the slot id of one of its entries, and
/// the other way round.
pub proof fn lemma_binding_map_keys(v: Seq<HotkeyBinding>)
    ensures
        forall|k: Seq<char>|
            binding_map(v).contains_key(k) <==> exists|i: int|
                0 <= i < v.len() && (#[trigger] v[i]).slot_id@ == k,
    decreases v.len(),
{
    if v.len() > 0 {
        lemma_binding_map_keys(v.drop_last());
        assert forall|k: Seq<char>|
            binding_map(v).contains_key(k) <==> exists|i: int|
                0 <= i < v.len() && (#[trigger] v[i]).slot_id@ == k by {
            if binding_map(v.drop_last()).contains_key(k) {
                let i = choose|i: int| 0 <= i < v.drop_last().len() && (#[trigger] v.drop_last()[i]).slot_id@ == k;
                assert(v[i] == v.drop_last()[i]);
            }
            if exists|i: int| 0 <= i < v.len() && (#[trigger] v[i]).slot_id@ == k {
                let i = choose|i: int| 0 <= i < v.len() && (#[trigger] v[i]).slot_id@ == k;
                if i < v.len() - 1 {
                    assert(v.drop_last()[i] == v[i]);
                }
            }
        }
    }
}

/// Whether two sets of bindings bind the same slots to the same hotkeys.
fn same_hotkey_bindings(current: &Vec<HotkeyBinding>, next: &Vec<HotkeyBinding>) -> (r: bool)
    ensures
        r == (binding_map(current@) == binding_map(next@)),
{
    proof {
        lemma_binding_map_keys(current@);
        lemma_binding_map_keys(next@);
    }
    let mut i: usize = 0;
    while i < current.len()
        invariant
            i <= current@.len(),
            forall|k: int|
                0 <= k < i ==> lookup(binding_map(current@), (#[trigger] current@[k]).slot_id@)
                    == lookup(binding_map(next@), current@[k].slot_id@),
        decreases current.len() - i,
    {
        let key = current[i].slot_id.as_str();
        if binding_lookup(current, key) != binding_lookup(next, key) {
            proof {
                assert(binding_map(current@) != binding_map(next@));
            }
            return false;
        }
        i = i + 1;
    }
    let mut j: usize = 0;
    while j < next.len()
        invariant
            j <= next@.len(),
            forall|k: int|
                0 <= k < j ==> binding_map(current@).contains_key((#[trigger] next@[k]).slot_id@),
        decreases next.len() - j,
    {
        let key = next[j].slot_id.as_str();
        if binding_lookup(current, key).is_none() {
            proof {
                lemma_binding_map_keys(next@);
                assert(binding_map(next@).contains_key(next@[j as int].slot_id@));
            }
            return false;
        }
        j = j + 1;
    }
    proof {
        assert forall|k: Seq<char>| #[trigger] binding_map(current@).contains_key(k)
            implies binding_map(next@).contains_key(k) && binding_map(current@)[k]
            == binding_map(next@)[k] by {
            let i = choose|i: int| 0 <= i < current@.len() && (#[trigger] current@[i]).slot_id@ == k;
            assert(lookup(binding_map(current@), current@[i].slot_id@) == lookup(
                binding_map(next@),
                current@[i].slot_id@,
            ));
        }
        assert forall|k: Seq<char>| #[trigger] binding_map(next@).contains_key(k)
            implies binding_map(current@).contains_key(k) by {
            let i = choose|i: int| 0 <= i < next@.len() && (#[trigger] next@[i]).slot_id@ == k;
            assert(binding_map(current@).contains_key(next@[i].slot_id@));
        }
        assert(binding_map(current@) =~= binding_map(next@));
    }
    true
}

/// Whether the binding at `i` is replaced by a later binding for the same slot.
fn superseded(v: &Vec<HotkeyBinding>, i: usize) -> (r: bool)
    requires
        i < v@.len(),
    ensures
        r == exists|j: int| i < j < v@.len() && (#[trigger] v@[j]).slot_id@ == v@[i as int].slot_id@,
{
    let n = v.len();
    let mut j: usize = i + 1;
    while j < n
        invariant
            n == v@.len(),
            i < j <= v@.len(),
            forall|k: int| i < k < j ==> (#[trigger] v@[k]).slot_id@ != v@[i as int].slot_id@,
        decreases v.len() - j,
    {
        if str_eq(v[j].slot_id.as_str(), v[i].slot_id.as_str()) {
            return true;
        }
        j = j + 1;
    }
    false
}

/// The global shortcuts of the board: which slot each hotkey plays, and
/// whether the hotkeys are held from the platform.
pub struct ShortcutManager {
    hotkey_manager: GlobalHotKeyManager,
    registered_shortcuts: Vec<Slot>,
    registered_hotkeys: Vec<HotkeyBinding>,
    hotkey_to_slot: HashMap<u32, String>,
    enabled: bool,
}

/// What a shortcut manager holds: the bindings of the last synced slots and
/// whether shortcuts are on.
#[verifier::ext_equal]
pub struct ShortcutView {
    pub bindings: PlanView,
    pub enabled: bool,
}

impl View for ShortcutManager {
    type V = ShortcutView;

    closed spec fn view(&self) -> ShortcutView {
        ShortcutView {
            bindings: PlanView {
                shortcuts: slot_map(self.registered_shortcuts@),
                hotkeys: binding_map(self.registered_hotkeys@),
                owners: owner_texts(self.hotkey_to_slot@),
            },
            enabled: self.enabled,
        }
    }
}

/// No bindings at all.
pub open spec fn no_bindings() -> PlanView {
    PlanView { shortcuts: Map::empty(), hotkeys: Map::empty(), owners: Map::empty() }
}

/// What syncing the slots `slots`, whose shortcuts read as `views`, does to
/// a manager that was `before`: on an unreadable or clashing shortcut it
/// fails with the plan's reason and keeps everything; otherwise, where the
/// shortcuts are on and the hotkeys change, the new hotkeys are registered
/// anew, and only if that succeeds are the new bindings taken.
pub open spec fn synced(
    before: ShortcutView,
    slots: Seq<Slot>,
    views: Seq<ParsedView>,
    failure: Option<Seq<char>>,
    after: ShortcutView,
) -> bool {
    match plan(slots, views) {
        Err(e) => failure == Some(e) && after == before,
        Ok(v) => if !before.enabled || before.bindings.hotkeys == v.hotkeys {
            failure is None && after == ShortcutView { bindings: v, enabled: before.enabled }
        } else {
            match failure {
                None => after == ShortcutView { bindings: v, enabled: true },
                Some(m) => {
                    &&& after == before
                    &&& "failed to register shortcut "@.is_prefix_of(m)
                    &&& v.hotkeys.dom() != Set::<Seq<char>>::empty()
                },
            }
        },
    }
}

/// The reason an operation failed, if it did.
pub open spec fn failure_of<T>(r: Result<T, String>) -> Option<Seq<char>> {
    match r {
        Ok(_) => None,
        Err(m) => Some(m@),
    }
}

/// Whether a manager went from `before` to `after` by syncing with `slots`,
/// with the outcome `r`, however the platform read their shortcuts.
pub open spec fn synced_with(
    before: ShortcutView,
    slots: Seq<Slot>,
    failure: Option<Seq<char>>,
    after: ShortcutView,
) -> bool {
    exists|views: Seq<ParsedView>|
        reads_shortcuts(slots, views) && #[trigger] synced(before, slots, views, failure, after)
}

impl ShortcutManager {
    /// A manager with no bindings and shortcuts off, or the reason the
    /// platform's hotkey manager could not be made.
    pub fn new() -> (r: Result<ShortcutManager, String>)
        ensures
            match r {
                Ok(m) => m@ == ShortcutView { bindings: no_bindings(), enabled: false },
                Err(m) => "failed to create hotkey manager: "@.is_prefix_of(m@),
            },
    {
        match new_hotkey_manager() {
            Ok(hotkey_manager) => {
                let m = ShortcutManager {
                    hotkey_manager,
                    registered_shortcuts: Vec::new(),
                    registered_hotkeys: Vec::new(),
                    hotkey_to_slot: HashMap::new(),
                    enabled: false,
                };
                proof {
                    assert(m@.bindings =~= no_bindings());
                }
                Ok(m)
            },
            Err(err) => {
                let msg = joined("failed to create hotkey manager: ", err.as_str());
                proof {
                    assert(msg@.take("failed to create hotkey manager: "@.len() as int)
                        =~= "failed to create hotkey manager: "@);
                }
                Err(msg)
            },
        }
    }

    /// Registers every hotkey of `hotkeys` that no later binding replaces,
    /// stopping at the first the platform refuses.
    fn register_all(&self, hotkeys: &Vec<HotkeyBinding>) -> (r: Result<(), String>)
        ensures
            r matches Err(m) ==> "failed to register shortcut "@.is_prefix_of(m@) && hotkeys@.len()
                > 0,
    {
        let mut i: usize = 0;
        while i < hotkeys.len()
            invariant
                i <= hotkeys@.len(),
            decreases hotkeys.len() - i,
        {
            if !superseded(hotkeys, i) {
                let binding = &hotkeys[i];
                match register_hotkey(&self.hotkey_manager, &binding.hotkey) {
                    Ok(()) => {},
                    Err(err) => {
                        let text = hotkey_text(&binding.hotkey);
                        let mut chars: Vec<char> = Vec::new();
                        push_str(&mut chars, "failed to register shortcut ");
                        push_str(&mut chars, text.as_str());
                        push_str(&mut chars, ": ");
                        push_str(&mut chars, err.as_str());
                        proof {
                            assert(chars@.take("failed to register shortcut "@.len() as int)
                                =~= "failed to register shortcut "@);
                        }
                        return Err(string_from_chars(&chars));
                    },
                }
            }
            i = i + 1;
        }
        Ok(())
    }

    /// Releases every registered hotkey that no later binding replaces; a
    /// release the platform refuses is passed over.
    fn unregister_all(&self) {
        let mut i: usize = 0;
        while i < self.registered_hotkeys.len()
            invariant
                i <= self.registered_hotkeys@.len(),
            decreases self.registered_hotkeys.len() - i,
        {
            if !superseded(&self.registered_hotkeys, i) {
                let _ = unregister_hotkey(&self.hotkey_manager, &self.registered_hotkeys[i].hotkey);
            }
            i = i + 1;
        }
    }

    /// Syncs the bindings with `slots`, whose shortcuts read as `parsed`.
    pub fn sync_parsed(&mut self, slots: &[Slot], parsed: Vec<ParsedShortcut>) -> (r: Result<(), String>)
        requires
            parsed@.len() == slots@.len(),
        ensures
            synced(old(self)@, slots@, parsed_views(parsed@), failure_of(r), final(self)@),
    {
        let ghost views = parsed_views(parsed@);
        match plan_bindings(slots, parsed) {
            Err(e) => Err(e),
            Ok(next) => {
                if self.enabled && !same_hotkey_bindings(&self.registered_hotkeys, &next.hotkeys) {
                    self.unregister_all();
                    match self.register_all(&next.hotkeys) {
                        Ok(()) => {},
                        Err(e) => {
                            proof {
                                lemma_binding_map_keys(next.hotkeys@);
                                assert(binding_map(next.hotkeys@).dom().contains(
                                    next.hotkeys@[0].slot_id@,
                                ));
                            }
                            return Err(e);
                        },
                    }
                }
                self.registered_shortcuts = next.shortcuts;
                self.registered_hotkeys = next.hotkeys;
                self.hotkey_to_slot = next.owners;
                proof {
                    assert(final(self)@.bindings =~= plan(slots@, views)->Ok_0);
                }
                Ok(())
            },
        }
    }

    /// Reads the shortcut of every slot and syncs the bindings with them.
    pub fn sync_slots(&mut self, slots: &[Slot]) -> (r: Result<(), String>)
        ensures
            synced_with(old(self)@, slots@, failure_of(r), final(self)@),
    {
        let parsed = parse_shortcuts(slots);
        let ghost views = parsed_views(parsed@);
        let r = self.sync_parsed(slots, parsed);
        proof {
            assert(synced(old(self)@, slots@, views, failure_of(r), final(self)@));
        }
        r
    }

    /// Turns the shortcuts on or off. Turning them on registers every
    /// hotkey and fails, leaving them off, where the platform refuses one.
    pub fn set_enabled(&mut self, enabled: bool) -> (r: Result<(), String>)
        ensures
            final(self)@.bindings == old(self)@.bindings,
            if old(self)@.enabled == enabled || !enabled {
                r is Ok && final(self)@.enabled == enabled
            } else {
                match r {
                    Ok(()) => final(self)@.enabled,
                    Err(m) => {
                        &&& !final(self)@.enabled
                        &&& "failed to register shortcut "@.is_prefix_of(m@)
                        &&& old(self)@.bindings.hotkeys.dom() != Set::<Seq<char>>::empty()
                    },
                }
            },
    {
        if self.enabled == enabled {
            return Ok(());
        }
        if enabled {
            match self.register_all(&self.registered_hotkeys) {
                Ok(()) => {},
                Err(e) => {
                    proof {
                        lemma_binding_map_keys(self.registered_hotkeys@);
                        assert(binding_map(self.registered_hotkeys@).dom().contains(
                            self.registered_hotkeys@[0].slot_id@,
                        ));
                    }
                    return Err(e);
                },
            }
            self.enabled = true;
        } else {
            self.unregister_all();
            self.enabled = false;
        }
        Ok(())
    }

    /// Whether the shortcuts are on.
    pub fn enabled(&self) -> (r: bool)
        ensures
            r == self@.enabled,
    {
        self.enabled
    }

    /// The slot that the hotkey `hotkey_id` plays, if the shortcuts are on
    /// and it is bound.
    pub fn handle_shortcut(&self, hotkey_id: u32) -> (r: Option<Slot>)
        ensures
            r == (if self@.enabled {
                match lookup(self@.bindings.owners, hotkey_id) {
                    Some(slot_id) => lookup(self@.bindings.shortcuts, slot_id),
                    None => None,
                }
            } else {
                None
            }),
    {
        if !self.enabled {
            return None;
        }
        match self.hotkey_to_slot.get(&hotkey_id) {
            Some(slot_id) => slot_lookup(&self.registered_shortcuts, slot_id.as_str()),
            None => None,
        }
    }
}

/// Every hotkey that a successful plan reads is bound to the slot that
/// asked for it, and that slot is known by its id.
pub proof fn lemma_plan_binds_keys(slots: Seq<Slot>, views: Seq<ParsedView>)
    requires
        views.len() == slots.len(),
        plan(slots, views) is Ok,
    ensures
        forall|i: int|
            0 <= i < slots.len() && #[trigger] views[i] is Key ==> {
                let p = plan(slots, views)->Ok_0;
                &&& p.owners.contains_key(views[i]->Key_0)
                &&& p.owners[views[i]->Key_0] == slots[i].id@
                &&& p.shortcuts.contains_key(slots[i].id@)
            },
        forall|i: int|
            0 <= i < slots.len() ==> plan(slots, views)->Ok_0.shortcuts.contains_key(
                (#[trigger] slots[i]).id@,
            ),
    decreases slots.len(),
{
    if slots.len() > 0 {
        let ds = slots.drop_last();
        let dv = views.drop_last();
        lemma_plan_binds_keys(ds, dv);
        let p = plan(slots, views)->Ok_0;
        let q = plan(ds, dv)->Ok_0;
        assert forall|i: int| 0 <= i < slots.len() - 1 implies #[trigger] p.shortcuts.contains_key(
            slots[i].id@,
        ) by {
            assert(ds[i] == slots[i]);
        }
        assert forall|i: int| 0 <= i < slots.len() && #[trigger] views[i] is Key implies {
            &&& p.owners.contains_key(views[i]->Key_0)
            &&& p.owners[views[i]->Key_0] == slots[i].id@
            &&& p.shortcuts.contains_key(slots[i].id@)
        } by {
            if i < slots.len() - 1 {
                assert(ds[i] == slots[i] && dv[i] == views[i]);
                assert(q.owners.contains_key(dv[i]->Key_0));
            }
        }
    }
}

/// No hotkey plays two slots: where the bindings for a set of slots can be
/// made, no two of their shortcuts read as the same hotkey.
pub proof fn law_no_shared_hotkey(slots: Seq<Slot>, views: Seq<ParsedView>, i: int, j: int)
    requires
        views.len() == slots.len(),
        plan(slots, views) is Ok,
        0 <= i < j < slots.len(),
        views[i] is Key,
        views[j] is Key,
    ensures
        views[i]->Key_0 != views[j]->Key_0,
    decreases slots.len(),
{
    let ds = slots.drop_last();
    let dv = views.drop_last();
    if j < slots.len() - 1 {
        assert(dv[i] == views[i] && dv[j] == views[j]);
        law_no_shared_hotkey(ds, dv, i, j);
    } else {
        lemma_plan_binds_keys(ds, dv);
        assert(dv[i] == views[i]);
        assert(ds[i] == slots[i]);
    }
}

/// The slots a successful plan binds are the slots by id, the last slot
/// with an id winning.
pub proof fn lemma_plan_shortcuts(slots: Seq<Slot>, views: Seq<ParsedView>)
    requires
        views.len() == slots.len(),
        plan(slots, views) is Ok,
    ensures
        plan(slots, views)->Ok_0.shortcuts == slot_map(slots),
    decreases slots.len(),
{
    if slots.len() > 0 {
        lemma_plan_shortcuts(slots.drop_last(), views.drop_last());
    }
}

/// Where no two slots share an id, each slot is found under its own id.
pub proof fn lemma_slot_map_distinct(slots: Seq<Slot>, i: int)
    requires
        0 <= i < slots.len(),
        forall|a: int, b: int|
            0 <= a < slots.len() && 0 <= b < slots.len() && a != b ==> (#[trigger] slots[a]).id@
                != (#[trigger] slots[b]).id@,
    ensures
        slot_map(slots).contains_key(slots[i].id@),
        slot_map(slots)[slots[i].id@] == slots[i],
    decreases slots.len(),
{
    let d = slots.drop_last();
    if i < slots.len() - 1 {
        assert forall|a: int, b: int|
            0 <= a < d.len() && 0 <= b < d.len() && a != b implies (#[trigger] d[a]).id@
                != (#[trigger] d[b]).id@ by {
            assert(d[a] == slots[a] && d[b] == slots[b]);
        }
        lemma_slot_map_distinct(d, i);
        assert(d[i] == slots[i]);
        assert(slots.last().id@ != slots[i].id@);
    }
}

/// A hotkey plays the slot that asked for it: once the bindings for a set of
/// slots with distinct ids are made and shortcuts are on, the hotkey of a
/// slot's shortcut is owned by that slot's id, and that id finds that very
/// slot; so `handle_shortcut` hands it back.
pub proof fn law_hotkey_plays_its_slot(
    slots: Seq<Slot>,
    views: Seq<ParsedView>,
    manager: ShortcutView,
    i: int,
)
    requires
        views.len() == slots.len(),
        plan(slots, views) is Ok,
        manager == (ShortcutView { bindings: plan(slots, views)->Ok_0, enabled: true }),
        0 <= i < slots.len(),
        views[i] is Key,
        forall|a: int, b: int|
            0 <= a < slots.len() && 0 <= b < slots.len() && a != b ==> (#[trigger] slots[a]).id@
                != (#[trigger] slots[b]).id@,
    ensures
        lookup(manager.bindings.owners, views[i]->Key_0) == Some(slots[i].id@),
        lookup(manager.bindings.shortcuts, slots[i].id@) == Some(slots[i]),
{
    lemma_plan_binds_keys(slots, views);
    lemma_plan_shortcuts(slots, views);
    lemma_slot_map_distinct(slots, i);
    assert(views[i] is Key);
}

/// With shortcuts off, no hotkey plays anything; a hotkey that no slot owns
/// plays nothing either.
pub proof fn law_unbound_or_off_plays_nothing(manager: ShortcutView, hotkey_id: u32)
    requires
        !manager.enabled || !manager.bindings.owners.contains_key(hotkey_id),
    ensures
        (if manager.enabled {
            match lookup(manager.bindings.owners, hotkey_id) {
                Some(slot_id) => lookup(manager.bindings.shortcuts, slot_id),
                None => None,
            }
        } else {
            None
        }) == None::<Slot>,
{
}

} // verus!
