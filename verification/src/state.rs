//! The application state machine: the item list, the selection cursor, and
//! the two interaction modes, together with every transition the keyboard can
//! cause.  Each executable transition is specified against a mathematical
//! image of the state (`AppView`), so the whole interaction model is a pure
//! function of (state, key event).

use vstd::prelude::*;
use crate::ordinal::{spec_parse_ordinal, spec_description, parse_ordinal, make_description};

verus! {

/// One to-do entry: a completion flag and the text shown to the user, which
/// begins with the ordinal prefix committed when the item was entered.
#[derive(Debug, Clone)]
pub struct TodoItem {
    pub is_done: bool,
    pub description: String,
}

/// Mathematical image of a [`TodoItem`].
#[verifier::ext_equal]
pub struct ItemView {
    pub is_done: bool,
    pub description: Seq<char>,
}

impl View for TodoItem {
    type V = ItemView;

    open spec fn view(&self) -> ItemView {
        ItemView { is_done: self.is_done, description: self.description@ }
    }
}

impl DeepView for TodoItem {
    type V = ItemView;

    open spec fn deep_view(&self) -> ItemView {
        self@
    }
}

/// The interaction mode, as the contracts speak of it: browsing the list, or
/// entering the text of a new item with the draft typed so far.
#[verifier::ext_equal]
pub enum ModeView {
    Browsing,
    Entering { draft: Seq<char> },
}

/// One keyboard event, reduced to the identities the state machine
/// distinguishes.  Everything else maps to `Other` and causes no transition.
#[derive(Debug, Clone, Copy, PartialEq, Eq)]
pub enum Key {
    Char(char),
    Enter,
    Esc,
    Backspace,
    Delete,
    Up,
    Down,
    Other,
}

/// What the entry form asks of its caller after one key: commit the draft,
/// abandon it, or stay in the form.
#[derive(Debug, Clone, Copy, PartialEq, Eq)]
pub enum FormAction {
    Submit,
    Escape,
    Stay,
}

/// The whole application state.  `selection`, when present, is a valid index
/// into `items` and is `None` exactly when `items` is empty; `input_value` is
/// the draft of the entry form and is meaningful only while `is_add_new`
/// holds (the state's image collapses the pair into [`ModeView`]).
#[derive(Debug)]
pub struct AppState {
    pub items: Vec<TodoItem>,
    pub selection: Option<usize>,
    pub is_add_new: bool,
    pub input_value: String,
}

/// Mathematical image of an [`AppState`].
#[verifier::ext_equal]
pub struct AppView {
    pub items: Seq<ItemView>,
    pub selection: Option<int>,
    pub mode: ModeView,
}

impl View for AppState {
    type V = AppView;

    open spec fn view(&self) -> AppView {
        AppView {
            items: self.items.deep_view(),
            selection: match self.selection {
                Some(i) => Some(i as int),
                None => None,
            },
            mode: if self.is_add_new {
                ModeView::Entering { draft: self.input_value@ }
            } else {
                ModeView::Browsing
            },
        }
    }
}

impl AppView {
    /// The selection invariant: the cursor is absent exactly on an empty
    /// list, and otherwise a valid index.
    pub open spec fn wf(self) -> bool {
        match self.selection {
            None => self.items.len() == 0,
            Some(i) => 0 <= i < self.items.len(),
        }
    }
}

/// The ordinal committed with the next item: the ordinal parsed from the last
/// item's description plus one, or the item count after insertion when the
/// list is empty or the last description has no parseable prefix.  At the
/// upper machine limit the ordinal saturates at `usize::MAX` instead of
/// overflowing.
pub open spec fn spec_next_ordinal(items: Seq<ItemView>) -> int {
    if items.len() == 0 {
        1
    } else {
        match spec_parse_ordinal(items.last().description) {
            Some(p) => if p < usize::MAX {
                p + 1
            } else {
                usize::MAX as int
            },
            None => if items.len() < usize::MAX {
                items.len() + 1int
            } else {
                usize::MAX as int
            },
        }
    }
}

/// Selection moved one row up, clamped at the first row; no movement on an
/// empty list.
pub open spec fn spec_move_up(v: AppView) -> AppView {
    if v.items.len() == 0 {
        v
    } else {
        AppView {
            selection: match v.selection {
                None => Some(0),
                Some(i) => Some(if i > 0 { i - 1 } else { 0int }),
            },
            ..v
        }
    }
}

/// Selection moved one row down, clamped at the last row; no movement on an
/// empty list.
pub open spec fn spec_move_down(v: AppView) -> AppView {
    if v.items.len() == 0 {
        v
    } else {
        AppView {
            selection: match v.selection {
                None => Some(0),
                Some(i) => Some(if i + 1 < v.items.len() { i + 1 } else { v.items.len() - 1 }),
            },
            ..v
        }
    }
}

/// The completion flag of the selected item flipped; no change without a
/// valid selection.
pub open spec fn spec_toggle(v: AppView) -> AppView {
    match v.selection {
        None => v,
        Some(i) => if 0 <= i < v.items.len() {
            AppView {
                items: v.items.update(
                    i,
                    ItemView { is_done: !v.items[i].is_done, description: v.items[i].description },
                ),
                ..v
            }
        } else {
            v
        },
    }
}

/// The cursor after a removal at `i` left `len_after` items: absent when the
/// list emptied, moved to the new last row when the last row was removed, and
/// unchanged otherwise (now naming the item that followed the removed one).
pub open spec fn spec_selection_after_delete(len_after: int, i: int) -> Option<int> {
    if len_after == 0 {
        None
    } else if i >= len_after {
        Some(len_after - 1)
    } else {
        Some(i)
    }
}

/// The selected item removed, later items shifted up one row, and the cursor
/// re-clamped in the same step; no change without a valid selection.
pub open spec fn spec_delete(v: AppView) -> AppView {
    match v.selection {
        None => v,
        Some(i) => if 0 <= i < v.items.len() {
            AppView {
                items: v.items.remove(i),
                selection: spec_selection_after_delete(v.items.len() - 1, i),
                ..v
            }
        } else {
            v
        },
    }
}

/// The draft committed: a new, not-done item whose description is the next
/// ordinal followed by `". "` and the draft, appended at the end, selected,
/// with the state back in browsing mode.
pub open spec fn spec_submit(v: AppView, draft: Seq<char>) -> AppView {
    AppView {
        items: v.items.push(
            ItemView {
                is_done: false,
                description: spec_description(spec_next_ordinal(v.items) as nat, draft),
            },
        ),
        selection: Some(v.items.len() as int),
        mode: ModeView::Browsing,
    }
}

/// One key handled in browsing mode: the new state and whether the key asked
/// to quit.
pub open spec fn spec_browse(v: AppView, key: Key) -> (AppView, bool) {
    match key {
        Key::Esc => (v, true),
        Key::Up => (spec_move_up(v), false),
        Key::Down => (spec_move_down(v), false),
        Key::Enter => (spec_toggle(v), false),
        Key::Char(c) => if c == 'q' {
            (v, true)
        } else if c == 'A' {
            (AppView { mode: ModeView::Entering { draft: Seq::empty() }, ..v }, false)
        } else if c == 'D' {
            (spec_delete(v), false)
        } else {
            (v, false)
        },
        _ => (v, false),
    }
}

/// One key handled in entry mode with draft `draft`: Enter commits, Escape
/// abandons, Backspace and Delete drop the last draft character, a printable
/// character extends the draft, and every other key changes nothing.
pub open spec fn spec_enter(v: AppView, draft: Seq<char>, key: Key) -> AppView {
    match key {
        Key::Enter => spec_submit(v, draft),
        Key::Esc => AppView { mode: ModeView::Browsing, ..v },
        Key::Backspace | Key::Delete => AppView {
            mode: ModeView::Entering {
                draft: if draft.len() == 0 {
                    draft
                } else {
                    draft.drop_last()
                },
            },
            ..v
        },
        Key::Char(c) => AppView { mode: ModeView::Entering { draft: draft.push(c) }, ..v },
        _ => v,
    }
}

/// One key handled in whichever mode the state is in: the new state and
/// whether the key asked to quit (possible only while browsing).
pub open spec fn spec_step(v: AppView, key: Key) -> (AppView, bool) {
    match v.mode {
        ModeView::Browsing => spec_browse(v, key),
        ModeView::Entering { draft } => (spec_enter(v, draft, key), false),
    }
}

impl AppState {
    /// The initial state: no items, no selection, browsing.
    pub fn new() -> (s: AppState)
        ensures
            s@ == (AppView {
                items: Seq::<ItemView>::empty(),
                selection: None::<int>,
                mode: ModeView::Browsing,
            }),
            s@.wf(),
    {
        let s = AppState {
            items: Vec::new(),
            selection: None,
            is_add_new: false,
            input_value: String::new(),
        };
        proof {
            assert(s@.items =~= Seq::<ItemView>::empty());
            assert(s@ =~= AppView {
                items: Seq::<ItemView>::empty(),
                selection: None::<int>,
                mode: ModeView::Browsing,
            });
        }
        s
    }
}

impl AppState {
    /// Moves the selection one row up (clamped at the first row); a no-op on
    /// an empty list.
    pub fn move_selection_up(&mut self)
        ensures
            final(self)@ == spec_move_up(old(self)@),
    {
        if self.items.len() == 0 {
            return ;
        }
        match self.selection {
            None => {
                self.selection = Some(0);
            },
            Some(i) => {
                self.selection = Some(if i > 0 { i - 1 } else { 0 });
            },
        }
        proof {
            assert(self@ =~= spec_move_up(old(self)@));
        }
    }

    /// Moves the selection one row down (clamped at the last row); a no-op on
    /// an empty list.
    pub fn move_selection_down(&mut self)
        ensures
            final(self)@ == spec_move_down(old(self)@),
    {
        let len = self.items.len();
        if len == 0 {
            return ;
        }
        match self.selection {
            None => {
                self.selection = Some(0);
            },
            Some(i) => {
                self.selection = Some(if i < len - 1 { i + 1 } else { len - 1 });
            },
        }
        proof {
            assert(self@ =~= spec_move_down(old(self)@));
        }
    }

    /// Flips the completion flag of the selected item; a no-op without a
    /// valid selection.
    pub fn toggle_done(&mut self)
        ensures
            final(self)@ == spec_toggle(old(self)@),
    {
        match self.selection {
            None => {},
            Some(i) => {
                if i < self.items.len() {
                    let item = self.items.remove(i);
                    let flipped = TodoItem { is_done: !item.is_done, description: item.description };
                    self.items.insert(i, flipped);
                    proof {
                        assert(self.items.deep_view() =~= spec_toggle(old(self)@).items);
                        assert(self@ =~= spec_toggle(old(self)@));
                    }
                }
            },
        }
    }

    /// Removes the selected item, shifting later items up one row, and
    /// re-clamps the selection in the same step; a no-op without a valid
    /// selection.
    pub fn delete_selected(&mut self)
        ensures
            final(self)@ == spec_delete(old(self)@),
    {
        match self.selection {
            None => {},
            Some(i) => {
                if i < self.items.len() {
                    self.items.remove(i);
                    let len2 = self.items.len();
                    self.selection = if len2 == 0 {
                        None
                    } else if i >= len2 {
                        Some(len2 - 1)
                    } else {
                        Some(i)
                    };
                    proof {
                        assert(self.items.deep_view() =~= spec_delete(old(self)@).items);
                        assert(self@ =~= spec_delete(old(self)@));
                    }
                }
            },
        }
    }

    /// Enters item-entry mode with an empty draft.
    pub fn start_add(&mut self)
        ensures
            final(self)@ == (AppView {
                mode: ModeView::Entering { draft: Seq::<char>::empty() },
                ..old(self)@
            }),
    {
        self.is_add_new = true;
        self.input_value = String::new();
        proof {
            assert(self@ =~= AppView {
                mode: ModeView::Entering { draft: Seq::<char>::empty() },
                ..old(self)@
            });
        }
    }

    /// Leaves item-entry mode, discarding the draft and touching nothing
    /// else.
    pub fn cancel_entry(&mut self)
        ensures
            final(self)@ == (AppView { mode: ModeView::Browsing, ..old(self)@ }),
    {
        self.is_add_new = false;
        self.input_value = String::new();
        proof {
            assert(self@ =~= AppView { mode: ModeView::Browsing, ..old(self)@ });
        }
    }

    /// The ordinal for the next item, read from the last item's description:
    /// its parsed prefix plus one, or the item count after insertion when the
    /// list is empty or the prefix does not parse.
    pub fn indicator_reminder(&self) -> (n: usize)
        ensures
            n as int == spec_next_ordinal(self@.items),
    {
        let len = self.items.len();
        if len == 0 {
            return 1;
        }
        proof {
            assert(self@.items.last() == self.items[len - 1 as int]@);
        }
        match parse_ordinal(self.items[len - 1].description.as_str()) {
            Some(p) => if p < usize::MAX {
                p + 1
            } else {
                usize::MAX
            },
            None => if len < usize::MAX {
                len + 1
            } else {
                usize::MAX
            },
        }
    }

    /// Commits the draft: appends a new, not-done item whose description is
    /// the next ordinal, `". "`, and the draft; selects it; returns to
    /// browsing with the draft cleared.
    pub fn submit_entry(&mut self)
        ensures
            final(self)@ == spec_submit(old(self)@, old(self).input_value@),
    {
        self.is_add_new = false;
        let ord = self.indicator_reminder();
        let desc = make_description(ord, self.input_value.as_str());
        self.items.push(TodoItem { is_done: false, description: desc });
        self.input_value = String::new();
        let len = self.items.len();
        self.selection = Some(len - 1);
        proof {
            assert(self.items.deep_view() =~= spec_submit(old(self)@, old(self).input_value@).items);
            assert(self@ =~= spec_submit(old(self)@, old(self).input_value@));
        }
    }
}

/// Toggling completion twice on the same state restores it exactly, whatever
/// the selection names.
pub proof fn lemma_toggle_twice(v: AppView)
    requires
        v.wf(),
    ensures
        spec_toggle(spec_toggle(v)) == v,
{
    match v.selection {
        None => {},
        Some(i) => {
            assert(spec_toggle(spec_toggle(v)).items =~= v.items);
            assert(spec_toggle(spec_toggle(v)) =~= v);
        },
    }
}

/// Deleting the selected item of a non-empty, well-formed state shortens the
/// list by exactly one and keeps every surviving item in its former relative
/// order; the re-clamped selection is again well-formed.
pub proof fn lemma_delete_order(v: AppView)
    requires
        v.wf(),
        v.items.len() > 0,
    ensures
        spec_delete(v).items.len() == v.items.len() - 1,
        forall|j: int|
            0 <= j < v.selection->0 ==> #[trigger] spec_delete(v).items[j] == v.items[j],
        forall|j: int|
            v.selection->0 <= j < v.items.len() - 1 ==> #[trigger] spec_delete(v).items[j]
                == v.items[j + 1],
        spec_delete(v).wf(),
{
    let i = v.selection->0;
    v.items.remove_ensures(i);
}

/// Committing a draft advances the running ordinal by exactly one: after a
/// commit, the ordinal the next commit would use is one more than the ordinal
/// just written (saturating at the machine limit).  The numbering can
/// therefore never stall while it is below that limit.
pub proof fn lemma_submit_increments_ordinal(v: AppView, draft: Seq<char>)
    ensures
        spec_next_ordinal(v.items) < usize::MAX ==> spec_next_ordinal(spec_submit(v, draft).items)
            == spec_next_ordinal(v.items) + 1,
        spec_next_ordinal(v.items) == usize::MAX ==> spec_next_ordinal(
            spec_submit(v, draft).items,
        ) == usize::MAX as int,
{
    let ord = spec_next_ordinal(v.items);
    assert(1 <= ord <= usize::MAX);
    crate::ordinal::lemma_description_parses_back(ord as usize, draft);
}

/// The selection invariant survives every key event: after a step from a
/// well-formed state, the selection is absent exactly on an empty list and
/// otherwise a valid index.
pub proof fn lemma_step_preserves_wf(v: AppView, key: Key)
    requires
        v.wf(),
    ensures
        spec_step(v, key).0.wf(),
{
    match v.mode {
        ModeView::Browsing => {
            match key {
                Key::Char(c) => {
                    if c == 'D' && v.selection is Some {
                        let i = v.selection->0;
                        assert(v.items.remove(i).len() == v.items.len() - 1);
                    }
                },
                _ => {},
            }
        },
        ModeView::Entering { draft } => {},
    }
}

impl Default for AppState {
    /// Same as [`AppState::new`].
    fn default() -> (s: AppState)
        ensures
            s@ == (AppView {
                items: Seq::<ItemView>::empty(),
                selection: None::<int>,
                mode: ModeView::Browsing,
            }),
            s@.wf(),
    {
        AppState::new()
    }
}

} // verus!
