use vstd::prelude::*;

use crate::models::timeline::TimelineEvent;

verus! {

/// A change of one event's time, remembered so that it can be undone.
pub struct EventTimeChange {
    pub event_id: String,
    pub old_time_us: i64,
    pub new_time_us: i64,
}

impl Clone for EventTimeChange {
    fn clone(&self) -> (r: Self)
        ensures
            r == *self,
    {
        EventTimeChange {
            event_id: self.event_id.clone(),
            old_time_us: self.old_time_us,
            new_time_us: self.new_time_us,
        }
    }
}

/// An edit of the timeline that can be undone and redone.
pub enum UndoAction {
    AddEvents(Vec<TimelineEvent>),
    DeleteEvents(Vec<TimelineEvent>),
    UpdateEventTimes(Vec<EventTimeChange>),
}

/// What an `UndoAction` holds, as mathematical sequences.
pub enum UndoActionView {
    AddEvents(Seq<TimelineEvent>),
    DeleteEvents(Seq<TimelineEvent>),
    UpdateEventTimes(Seq<EventTimeChange>),
}

impl View for UndoAction {
    type V = UndoActionView;

    open spec fn view(&self) -> UndoActionView {
        match self {
            UndoAction::AddEvents(v) => UndoActionView::AddEvents(v@),
            UndoAction::DeleteEvents(v) => UndoActionView::DeleteEvents(v@),
            UndoAction::UpdateEventTimes(v) => UndoActionView::UpdateEventTimes(v@),
        }
    }
}

impl Clone for UndoAction {
    fn clone(&self) -> (r: Self)
        ensures
            r@ == self@,
    {
        match self {
            UndoAction::AddEvents(v) => UndoAction::AddEvents(v.clone()),
            UndoAction::DeleteEvents(v) => UndoAction::DeleteEvents(v.clone()),
            UndoAction::UpdateEventTimes(v) => UndoAction::UpdateEventTimes(v.clone()),
        }
    }
}

/// The views of a sequence of actions.
pub open spec fn action_views(v: Seq<UndoAction>) -> Seq<UndoActionView> {
    v.map_values(|a: UndoAction| a@)
}

/// The undo and redo histories, most recent last, and the depth limit.
#[verifier::ext_equal]
pub struct UndoManagerView {
    pub undo: Seq<UndoActionView>,
    pub redo: Seq<UndoActionView>,
    pub max_depth: nat,
}

/// Two bounded stacks of timeline edits.
pub struct UndoManager {
    undo_stack: Vec<UndoAction>,
    redo_stack: Vec<UndoAction>,
    max_depth: usize,
}

impl View for UndoManager {
    type V = UndoManagerView;

    closed spec fn view(&self) -> UndoManagerView {
        UndoManagerView {
            undo: action_views(self.undo_stack@),
            redo: action_views(self.redo_stack@),
            max_depth: self.max_depth as nat,
        }
    }
}

/// The undo history after recording `a` on `undo`: the oldest entry is
/// dropped when the history would exceed `max_depth`.
pub open spec fn pushed_history(undo: Seq<UndoActionView>, a: UndoActionView, max_depth: nat) -> Seq<
    UndoActionView,
> {
    if undo.len() + 1 > max_depth {
        undo.push(a).drop_first()
    } else {
        undo.push(a)
    }
}

/// The histories after `push(a)`.
pub open spec fn after_push(v: UndoManagerView, a: UndoActionView) -> UndoManagerView {
    UndoManagerView {
        undo: pushed_history(v.undo, a, v.max_depth),
        redo: Seq::empty(),
        max_depth: v.max_depth,
    }
}

/// The histories after a successful `undo`: the latest action moves to redo.
pub open spec fn after_undo(v: UndoManagerView) -> UndoManagerView {
    UndoManagerView {
        undo: v.undo.drop_last(),
        redo: v.redo.push(v.undo.last()),
        max_depth: v.max_depth,
    }
}

/// The histories after a successful `redo`: the latest undone action moves back.
pub open spec fn after_redo(v: UndoManagerView) -> UndoManagerView {
    UndoManagerView {
        undo: v.undo.push(v.redo.last()),
        redo: v.redo.drop_last(),
        max_depth: v.max_depth,
    }
}

/// Both histories together hold at most `max_depth` actions.
pub open spec fn view_within_depth(v: UndoManagerView) -> bool {
    v.undo.len() + v.redo.len() <= v.max_depth
}

/// Redo after undo gives back the histories as they were.
pub proof fn law_redo_after_undo(v: UndoManagerView)
    requires
        v.undo.len() > 0,
    ensures
        after_redo(after_undo(v)) == v,
{
    assert(after_redo(after_undo(v)).undo =~= v.undo);
    assert(after_redo(after_undo(v)).redo =~= v.redo);
}

/// Undo after redo gives back the histories as they were.
pub proof fn law_undo_after_redo(v: UndoManagerView)
    requires
        v.redo.len() > 0,
    ensures
        after_undo(after_redo(v)) == v,
{
    assert(after_undo(after_redo(v)).undo =~= v.undo);
    assert(after_undo(after_redo(v)).redo =~= v.redo);
}

/// A recorded action is the next one undone, unless the depth limit is zero,
/// and nothing is left to redo after it.
pub proof fn law_push_then_undo(v: UndoManagerView, a: UndoActionView)
    requires
        v.max_depth > 0,
    ensures
        after_push(v, a).undo.len() > 0,
        after_push(v, a).undo.last() == a,
        after_push(v, a).redo.len() == 0,
{
}

/// Every operation keeps both histories within the depth limit.
pub proof fn law_depth_bound(v: UndoManagerView, a: UndoActionView)
    requires
        view_within_depth(v),
    ensures
        view_within_depth(after_push(v, a)),
        v.undo.len() > 0 ==> view_within_depth(after_undo(v)),
        v.redo.len() > 0 ==> view_within_depth(after_redo(v)),
{
}

impl UndoManager {
    pub fn new(max_depth: usize) -> (r: Self)
        ensures
            r@.undo == Seq::<UndoActionView>::empty(),
            r@.redo == Seq::<UndoActionView>::empty(),
            r@.max_depth == max_depth,
    {
        let r = UndoManager { undo_stack: Vec::new(), redo_stack: Vec::new(), max_depth };
        proof {
            assert(r@.undo =~= Seq::<UndoActionView>::empty());
            assert(r@.redo =~= Seq::<UndoActionView>::empty());
        }
        r
    }

    /// Records a new action; the redo history is forgotten.
    pub fn push(&mut self, action: UndoAction)
        ensures
            final(self)@ == after_push(old(self)@, action@),
    {
        let ghost a = action@;
        let ghost before = self.undo_stack@;
        self.undo_stack.push(action);
        proof {
            assert(action_views(self.undo_stack@) =~= action_views(before).push(a));
        }
        if self.undo_stack.len() > self.max_depth {
            let ghost full = self.undo_stack@;
            self.undo_stack.remove(0);
            proof {
                assert(action_views(self.undo_stack@) =~= action_views(full).drop_first());
            }
        }
        self.redo_stack.clear();
        proof {
            assert(action_views(self.redo_stack@) =~= Seq::<UndoActionView>::empty());
        }
    }

    /// Takes the most recent action off the undo history and keeps it for redo.
    pub fn undo(&mut self) -> (r: Option<UndoAction>)
        ensures
            old(self)@.undo.len() == 0 ==> r is None && final(self)@ == old(self)@,
            old(self)@.undo.len() > 0 ==> {
                &&& r matches Some(a) && a@ == old(self)@.undo.last()
                &&& final(self)@ == after_undo(old(self)@)
            },
    {
        let ghost u = self.undo_stack@;
        let ghost d = self.redo_stack@;
        match self.undo_stack.pop() {
            Some(action) => {
                let copy = action.clone();
                self.redo_stack.push(copy);
                proof {
                    assert(action_views(self.undo_stack@) =~= action_views(u).drop_last());
                    assert(action_views(self.redo_stack@) =~= action_views(d).push(action@));
                }
                Some(action)
            },
            None => None,
        }
    }

    /// Takes the most recently undone action back onto the undo history.
    pub fn redo(&mut self) -> (r: Option<UndoAction>)
        ensures
            old(self)@.redo.len() == 0 ==> r is None && final(self)@ == old(self)@,
            old(self)@.redo.len() > 0 ==> {
                &&& r matches Some(a) && a@ == old(self)@.redo.last()
                &&& final(self)@ == after_redo(old(self)@)
            },
    {
        let ghost u = self.undo_stack@;
        let ghost d = self.redo_stack@;
        match self.redo_stack.pop() {
            Some(action) => {
                let copy = action.clone();
                self.undo_stack.push(copy);
                proof {
                    assert(action_views(self.redo_stack@) =~= action_views(d).drop_last());
                    assert(action_views(self.undo_stack@) =~= action_views(u).push(action@));
                }
                Some(action)
            },
            None => None,
        }
    }

    /// Forgets both histories.
    pub fn clear(&mut self)
        ensures
            final(self)@.undo == Seq::<UndoActionView>::empty(),
            final(self)@.redo == Seq::<UndoActionView>::empty(),
            final(self)@.max_depth == old(self)@.max_depth,
    {
        self.undo_stack.clear();
        self.redo_stack.clear();
        proof {
            assert(action_views(self.undo_stack@) =~= Seq::<UndoActionView>::empty());
            assert(action_views(self.redo_stack@) =~= Seq::<UndoActionView>::empty());
        }
    }

    pub fn can_undo(&self) -> (r: bool)
        ensures
            r == (self@.undo.len() > 0),
    {
        !self.undo_stack.is_empty()
    }

    pub fn can_redo(&self) -> (r: bool)
        ensures
            r == (self@.redo.len() > 0),
    {
        !self.redo_stack.is_empty()
    }
}

} // verus!
