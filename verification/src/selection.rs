//! Selection list — a filterable picker for choosing from a list of items.
//!
//! # Key bindings
//!
//! | Key | Action |
//! |-----|--------|
//! | ↑ / k | Move selection up |
//! | ↓ / j | Move selection down |
//! | Enter | Confirm the selected item |
//! | Esc   | Cancel (no selection) |
//! | (any char) | Append to filter string |
//! | Backspace | Remove last character from filter |

use vstd::prelude::*;
use crate::key::{KeyCode, KeyEvent};
use crate::pane::{CtrlCAction, Handled};
use crate::text::{
    chars_of, contains_chars, contains_seq, copy_range, push_char, string_from_chars, IntoText,
};

verus! {

/// The lowercase form of a string as `str::to_lowercase` gives it (full
/// Unicode case mapping, independent of locale).
pub uninterp spec fn lowercase(s: Seq<char>) -> Seq<char>;

/// The lowercase form of `s`.
///
/// Calls `str::to_lowercase`; its result is claimed to be [`lowercase`] of
/// the characters of `s`, a function of them alone.
#[verifier::external_body]
pub(crate) fn str_to_lowercase(s: &str) -> (r: String)
    ensures
        r@ == lowercase(s@),
{
    s.to_lowercase()
}

/// A single item in a [`SelectionList`].
///
/// Each item has a human-readable `label`, an optional `description` shown
/// alongside the label, and a `value` returned when the item is selected.
#[derive(Debug, Clone)]
pub struct SelectionItem {
    /// Display label shown in the list.
    pub label: String,
    /// Optional description shown next to the label.
    pub description: Option<String>,
    /// Value returned when this item is selected (e.g. a model name, option).
    pub value: String,
}

impl SelectionItem {
    /// Create a new selection item with just a label and value.
    pub fn new<L: IntoText, V: IntoText>(label: L, value: V) -> (item: Self)
        ensures
            item.label@ == label.text_view(),
            item.description is None,
            item.value@ == value.text_view(),
    {
        SelectionItem { label: label.into_text(), description: None, value: value.into_text() }
    }

    /// Create a new selection item with a label, description, and value.
    pub fn with_description<L: IntoText, D: IntoText, V: IntoText>(
        label: L,
        description: D,
        value: V,
    ) -> (item: Self)
        ensures
            item.label@ == label.text_view(),
            item.description matches Some(d) && d@ == description.text_view(),
            item.value@ == value.text_view(),
    {
        SelectionItem {
            label: label.into_text(),
            description: Some(description.into_text()),
            value: value.into_text(),
        }
    }
}

/// Whether a lowercased label matches a lowercased filter: the filter occurs
/// in the label.
pub fn label_matches(label_lower: &str, filter_lower: &str) -> (b: bool)
    ensures
        b == contains_seq(label_lower@, filter_lower@),
{
    let l = chars_of(label_lower);
    let f = chars_of(filter_lower);
    contains_chars(l.as_slice(), f.as_slice())
}

/// The items whose lowercased label contains `fl`, in order.
pub open spec fn keep_matching(items: Seq<SelectionItem>, fl: Seq<char>) -> Seq<SelectionItem>
    decreases items.len(),
{
    if items.len() == 0 {
        Seq::empty()
    } else {
        let r = keep_matching(items.drop_last(), fl);
        if contains_seq(lowercase(items.last().label@), fl) {
            r.push(items.last())
        } else {
            r
        }
    }
}

/// The items visible under `filter`: all of them when it is empty, else
/// those whose label contains it, ignoring case.
pub open spec fn visible_of(items: Seq<SelectionItem>, filter: Seq<char>) -> Seq<SelectionItem> {
    if filter.len() == 0 {
        items
    } else {
        keep_matching(items, lowercase(filter))
    }
}

/// The items a vector of item references points to.
pub open spec fn derefs(s: Seq<&SelectionItem>) -> Seq<SelectionItem> {
    s.map_values(|x: &SelectionItem| *x)
}

/// The abstract state of a [`SelectionList`].
pub struct SelectionState {
    pub items: Seq<SelectionItem>,
    pub selected: int,
    pub filter: Seq<char>,
    pub confirmed: bool,
    pub result: Option<Seq<char>>,
}

/// The state after a key, and whether the key was handled.
pub open spec fn selection_key(m: SelectionState, key: KeyEvent) -> (SelectionState, Handled) {
    let vis = visible_of(m.items, m.filter);
    match key.code {
        KeyCode::Up => (selection_up(m), Handled::Handled),
        KeyCode::Char('k') => (selection_up(m), Handled::Handled),
        KeyCode::Down => (selection_down(m), Handled::Handled),
        KeyCode::Char('j') => (selection_down(m), Handled::Handled),
        KeyCode::Enter => if 0 <= m.selected < vis.len() {
            (
                SelectionState {
                    result: Some(vis[m.selected].value@),
                    confirmed: true,
                    ..m
                },
                Handled::Handled,
            )
        } else {
            (m, Handled::Handled)
        },
        KeyCode::Esc => (SelectionState { confirmed: true, ..m }, Handled::Handled),
        KeyCode::Char(c) => (
            SelectionState { filter: m.filter.push(c), selected: 0, ..m },
            Handled::Handled,
        ),
        KeyCode::Backspace => (
            SelectionState {
                filter: if m.filter.len() > 0 {
                    m.filter.drop_last()
                } else {
                    m.filter
                },
                selected: 0,
                ..m
            },
            Handled::Handled,
        ),
        _ => (m, Handled::NotHandled),
    }
}

pub open spec fn selection_up(m: SelectionState) -> SelectionState {
    if m.selected > 0 {
        SelectionState { selected: m.selected - 1, ..m }
    } else {
        m
    }
}

pub open spec fn selection_down(m: SelectionState) -> SelectionState {
    if m.selected + 1 < visible_of(m.items, m.filter).len() {
        SelectionState { selected: m.selected + 1, ..m }
    } else {
        m
    }
}

/// Whether the height sum of a list stays within `u16`.
pub open spec fn selection_height_fits(m: SelectionState) -> bool {
    (visible_of(m.items, m.filter).len() as u16) + 2 <= u16::MAX
}

/// Rows a list needs: its visible items (as a `u16`) plus the border, at
/// most 15.
pub open spec fn selection_height(m: SelectionState) -> int {
    if (visible_of(m.items, m.filter).len() as u16) + 2 <= 15 {
        (visible_of(m.items, m.filter).len() as u16) + 2
    } else {
        15
    }
}

/// A filterable, scrollable selection list.
///
/// The list can be filtered by typing characters; the filter is matched
/// case-insensitively against item labels. Pressing Enter confirms the
/// currently highlighted item, Esc cancels without a selection.
pub struct SelectionList {
    /// All items in the list (unfiltered).
    items: Vec<SelectionItem>,
    /// Index of the currently selected item within the *visible* subset.
    selected: usize,
    /// Current filter text (typed characters).
    filter: String,
    /// Whether the user has confirmed or cancelled (pane is done).
    confirmed: bool,
    /// The selected value, if confirmed by pressing Enter.
    result: Option<String>,
    /// Title displayed in the list's border.
    title: String,
}

impl SelectionList {
    pub closed spec fn state(&self) -> SelectionState {
        SelectionState {
            items: self.items@,
            selected: self.selected as int,
            filter: self.filter@,
            confirmed: self.confirmed,
            result: match self.result {
                Some(r) => Some(r@),
                None => None,
            },
        }
    }

    pub closed spec fn spec_title(&self) -> Seq<char> {
        self.title@
    }

    /// The selection stays within the visible items (or at 0).
    pub closed spec fn wf(&self) -> bool {
        self.selected == 0 || self.selected < visible_of(self.items@, self.filter@).len()
    }

    /// A well-formed list's state is valid (see [`selection_valid`]): Enter
    /// on a list with visible items picks one of them.
    pub proof fn lemma_state_valid(&self)
        requires
            self.wf(),
        ensures
            selection_valid(self.state()),
    {
    }

    /// Create a new selection list with the given items and title.
    pub fn new(items: Vec<SelectionItem>, title: String) -> (l: Self)
        ensures
            l.wf(),
            l.state().items == items@,
            l.state().selected == 0,
            l.state().filter.len() == 0,
            !l.state().confirmed,
            l.state().result is None,
            l.spec_title() == title@,
    {
        SelectionList {
            items,
            selected: 0,
            filter: String::new(),
            confirmed: false,
            result: None,
            title,
        }
    }

    /// The title shown in the list's border.
    pub fn title(&self) -> (r: &str)
        ensures
            r@ == self.spec_title(),
    {
        self.title.as_str()
    }

    /// The current filter text.
    pub fn filter(&self) -> (r: &str)
        ensures
            r@ == self.state().filter,
    {
        self.filter.as_str()
    }

    /// The index of the highlighted item within the visible items.
    pub fn selected(&self) -> (r: usize)
        ensures
            r == self.state().selected,
            self.wf() ==> selection_valid(self.state()),
    {
        self.selected
    }

    /// Return the selected value, if the user confirmed with Enter.
    ///
    /// Returns `None` if the user cancelled (Esc) or hasn't chosen yet.
    pub fn result(&self) -> (r: Option<&str>)
        ensures
            match r {
                Some(s) => self.state().result == Some(s@),
                None => self.state().result is None,
            },
    {
        match &self.result {
            Some(s) => Some(s.as_str()),
            None => None,
        }
    }

    /// All items that match the current filter.
    ///
    /// When the filter is empty, every item is visible. Filtering is
    /// case-insensitive and matches against the item's label.
    pub fn visible_items(&self) -> (r: Vec<&SelectionItem>)
        ensures
            derefs(r@) == visible_of(self.state().items, self.state().filter),
    {
        let mut r: Vec<&SelectionItem> = Vec::new();
        let empty = self.filter.as_str().is_empty();
        if empty {
            let mut k: usize = 0;
            while k < self.items.len()
                invariant
                    k <= self.items@.len(),
                    derefs(r@) == self.items@.take(k as int),
                decreases self.items@.len() - k,
            {
                let item = &self.items[k];
                let ghost before = r@;
                r.push(item);
                k += 1;
                proof {
                    assert(derefs(r@) =~= derefs(before).push(*item));
                    assert(derefs(r@) =~= self.items@.take(k as int));
                }
            }
            proof {
                assert(self.items@.take(k as int) =~= self.items@);
            }
            return r;
        }
        let filter_lower = str_to_lowercase(self.filter.as_str());
        let mut k: usize = 0;
        proof {
            assert(self.items@.take(0) =~= Seq::<SelectionItem>::empty());
        }
        while k < self.items.len()
            invariant
                k <= self.items@.len(),
                filter_lower@ == lowercase(self.filter@),
                derefs(r@) == keep_matching(self.items@.take(k as int), filter_lower@),
            decreases self.items@.len() - k,
        {
            let label_lower = str_to_lowercase(self.items[k].label.as_str());
            proof {
                assert(self.items@.take(k + 1).drop_last() =~= self.items@.take(k as int));
                assert(self.items@.take(k + 1).last() == self.items@[k as int]);
            }
            if label_matches(label_lower.as_str(), filter_lower.as_str()) {
                r.push(&self.items[k]);
            }
            k += 1;
        }
        proof {
            assert(self.items@.take(k as int) =~= self.items@);
        }
        r
    }

    /// Handle a key event (see the key bindings in the module docs).
    pub fn handle_key_event(&mut self, key: KeyEvent) -> (h: Handled)
        requires
            old(self).wf(),
        ensures
            final(self).wf(),
            final(self).state() == selection_key(old(self).state(), key).0,
            h == selection_key(old(self).state(), key).1,
            final(self).spec_title() == old(self).spec_title(),
    {
        match key.code {
            KeyCode::Up | KeyCode::Char('k') => {
                if self.selected > 0 {
                    self.selected -= 1;
                }
                Handled::Handled
            },
            KeyCode::Down | KeyCode::Char('j') => {
                let visible = self.visible_items();
                proof {
                    assert(derefs(visible@).len() == visible@.len());
                }
                let n = visible.len();
                if self.selected + 1 < n {
                    self.selected += 1;
                }
                Handled::Handled
            },
            KeyCode::Enter => {
                let visible = self.visible_items();
                proof {
                    assert(derefs(visible@).len() == visible@.len());
                }
                if self.selected < visible.len() {
                    let v = visible[self.selected].value.clone();
                    self.result = Some(v);
                    self.confirmed = true;
                }
                Handled::Handled
            },
            KeyCode::Esc => {
                self.confirmed = true;
                Handled::Handled
            },
            KeyCode::Char(c) => {
                let mut f = self.filter.clone();
                push_char(&mut f, c);
                self.filter = f;
                self.selected = 0;
                Handled::Handled
            },
            KeyCode::Backspace => {
                let cs = chars_of(self.filter.as_str());
                let n = cs.len();
                if n > 0 {
                    let kept = copy_range(cs.as_slice(), 0, n - 1);
                    proof {
                        assert(kept@ =~= self.filter@.drop_last());
                    }
                    self.filter = string_from_chars(kept.as_slice());
                }
                self.selected = 0;
                Handled::Handled
            },
            _ => Handled::NotHandled,
        }
    }

    /// Whether the user has confirmed or cancelled.
    pub fn is_complete(&self) -> (b: bool)
        ensures
            b == self.state().confirmed,
    {
        self.confirmed
    }

    /// Ctrl+C closes the list without a selection.
    pub fn on_ctrl_c(&mut self) -> (a: CtrlCAction)
        requires
            old(self).wf(),
        ensures
            final(self).wf(),
            a == CtrlCAction::Handled,
            final(self).state() == (SelectionState { confirmed: true, ..old(self).state() }),
            final(self).spec_title() == old(self).spec_title(),
    {
        self.confirmed = true;
        CtrlCAction::Handled
    }

    /// The stable identifier of this pane type.
    pub fn view_id(&self) -> (r: Option<&'static str>)
        ensures
            r matches Some(s) && s@ == "selection"@,
    {
        Some("selection")
    }

    /// Rows the list needs: its visible items plus the border, at most 15.
    pub fn desired_height(&self, _width: u16) -> (h: u16)
        requires
            selection_height_fits(self.state()),
        ensures
            h == selection_height(self.state()),
    {
        let visible = self.visible_items();
        proof {
            assert(derefs(visible@).len() == visible@.len());
        }
        let visible_count = visible.len() as u16;
        let h = visible_count + 2;
        if h <= 15 {
            h
        } else {
            15
        }
    }
}

/// A valid selection state: the selection lies within the visible items,
/// or is 0 when none is visible.
pub open spec fn selection_valid(m: SelectionState) -> bool {
    m.selected == 0 || (0 <= m.selected < visible_of(m.items, m.filter).len())
}

/// Moving down and then up returns to the same selection when the move down
/// happened, and navigation never leaves the visible items.
pub proof fn law_down_then_up_returns(m: SelectionState)
    requires
        0 <= m.selected,
        m.selected + 1 < visible_of(m.items, m.filter).len(),
    ensures
        selection_up(selection_down(m)) == m,
{
}

/// Navigation keeps the selection on a visible item (or at 0 when there is
/// none to select).
pub proof fn law_navigation_stays_visible(m: SelectionState, key: KeyEvent)
    requires
        selection_valid(m),
    ensures
        selection_valid(selection_key(m, key).0),
{
}

/// Enter confirms exactly when an item is visible, and the result is that
/// item's value; Esc and Ctrl+C confirm without a result.
pub proof fn law_enter_confirms_visible_item(m: SelectionState)
    requires
        0 <= m.selected,
        !m.confirmed,
        m.result is None,
    ensures
        ({
            let n = selection_key(m, KeyEvent { code: KeyCode::Enter, modifiers: crate::key::KeyModifiers { shift: false, control: false, alt: false } }).0;
            let vis = visible_of(m.items, m.filter);
            &&& n.confirmed <==> m.selected < vis.len()
            &&& n.confirmed ==> n.result == Some(vis[m.selected].value@)
        }),
{
}

} // verus!
