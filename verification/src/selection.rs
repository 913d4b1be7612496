//! Keyboard selection in the launcher's result list: which row is selected
//! and which rows are laid out, as the selection moves and the list scrolls.

use vstd::prelude::*;

verus! {

/// The rows of the list that are laid out, and the selected one.
#[derive(Debug, Clone, Copy, PartialEq, Eq, Default, Structural)]
pub struct RowSelection {
    /// The index of the first row to draw
    pub first: usize,
    /// The index of the last row to draw
    pub last: usize,
    /// The index of the selected row
    pub selected: usize,
}

/// A key that moves the selection.
#[derive(Debug, Clone, Copy, PartialEq, Eq, Structural)]
pub enum NavKey {
    ArrowDown,
    ArrowUp,
    Tab,
    Other,
}

/// The modifier keys held with a key.
#[derive(Debug, Clone, Copy, PartialEq, Eq, Structural)]
pub enum Modifiers {
    /// No modifier at all.
    Empty,
    /// Shift, and nothing else.
    ShiftOnly,
    /// Any other combination.
    Other,
}

/// A key press.
#[derive(Debug, Clone, Copy, PartialEq, Eq, Structural)]
pub struct KeyPress {
    pub key: NavKey,
    pub modifiers: Modifiers,
}

/// The selection a key press asks for, before it is kept within the list:
/// down or tab move it down, up or shift-tab move it up (not above the top).
pub open spec fn requested_selection(selected: usize, key: Option<KeyPress>) -> int {
    match key {
        Some(k) => if k.modifiers == Modifiers::Empty && (k.key == NavKey::ArrowDown || k.key
            == NavKey::Tab) {
            selected + 1
        } else if k.key == NavKey::ArrowUp || (k.modifiers == Modifiers::ShiftOnly && k.key
            == NavKey::Tab) {
            if selected == 0 {
                0
            } else {
                selected - 1
            }
        } else {
            selected as int
        },
        None => selected as int,
    }
}

pub open spec fn min(a: int, b: int) -> int {
    if a <= b {
        a
    } else {
        b
    }
}

pub open spec fn max(a: int, b: int) -> int {
    if a >= b {
        a
    } else {
        b
    }
}

/// The index of the last row, or 0 for an empty list.
pub open spec fn last_row(rows: usize) -> int {
    if rows == 0 {
        0
    } else {
        rows - 1
    }
}

/// The selection after a key press, kept within the list.
pub open spec fn spec_selected(state: RowSelection, key: Option<KeyPress>, rows: usize) -> int {
    min(requested_selection(state.selected, key), last_row(rows))
}

/// The first row laid out before scrolling: not below the selection.
pub open spec fn spec_first(state: RowSelection, key: Option<KeyPress>, rows: usize) -> int {
    min(state.first as int, spec_selected(state, key, rows))
}

/// The rows laid out and selected after a key press (or any other event),
/// where as many as `max_visible_rows` rows fit the list's height and the row
/// `last_visible` (counted from the first row laid out) is the last one fully
/// shown. When the selection is below the last fully shown row, the list
/// scrolls down just enough to show it, unless the last row is already
/// shown.
pub open spec fn spec_select(
    state: RowSelection,
    key: Option<KeyPress>,
    rows: usize,
    max_visible_rows: usize,
    last_visible: usize,
) -> RowSelection {
    let selected = spec_selected(state, key, rows);
    let first = spec_first(state, key, rows);
    let last = max(selected, min(first + max_visible_rows - 1, last_row(rows)));
    let selected_row = selected - first;
    if first + last_visible + 1 < rows && selected_row >= last_visible {
        let delta = selected_row - last_visible + 1;
        RowSelection {
            first: min(first + delta, selected) as usize,
            last: min(last + delta, last_row(rows)) as usize,
            selected: selected as usize,
        }
    } else {
        RowSelection { first: first as usize, last: last as usize, selected: selected as usize }
    }
}

/// The row to report as selected: the new selection, when it moved or when
/// nothing was selected before.
pub open spec fn spec_report(state: RowSelection, new_state: RowSelection) -> Option<usize> {
    if new_state.selected != state.selected || state == (RowSelection { first: 0, last: 0, selected: 0 }) {
        Some(new_state.selected)
    } else {
        None
    }
}

fn next_selected(state: RowSelection, key: Option<KeyPress>, rows: usize) -> (selected: usize)
    requires
        state.selected < usize::MAX,
    ensures
        selected == spec_selected(state, key, rows),
{
    let mut selected = state.selected;
    match key {
        Some(k) => {
            if k.modifiers == Modifiers::Empty && (k.key == NavKey::ArrowDown || k.key == NavKey::Tab) {
                selected = selected + 1;
            } else if k.key == NavKey::ArrowUp || (k.modifiers == Modifiers::ShiftOnly && k.key
                == NavKey::Tab) {
                selected = if selected == 0 { 0 } else { selected - 1 };
            }
        },
        None => {},
    }
    let last_row: usize = if rows == 0 { 0 } else { rows - 1 };
    if selected > last_row { last_row } else { selected }
}

/// The selection after an event. With no row laid out there is nothing to
/// do. Otherwise the new selection, and the row to report as selected if any.
pub fn select(
    state: RowSelection,
    key: Option<KeyPress>,
    rows: usize,
    max_visible_rows: usize,
    last_visible: Option<usize>,
) -> (r: Option<(RowSelection, Option<usize>)>)
    requires
        state.selected < usize::MAX,
        rows <= isize::MAX,
        spec_first(state, key, rows) + max_visible_rows >= 1,
        state.first + max_visible_rows <= usize::MAX,
        last_visible matches Some(v) ==> state.first + v + 1 <= usize::MAX,
    ensures
        match last_visible {
            None => r is None,
            Some(v) => r == Some(
                (
                    spec_select(state, key, rows, max_visible_rows, v),
                    spec_report(state, spec_select(state, key, rows, max_visible_rows, v)),
                ),
            ),
        },
{
    let selected = next_selected(state, key, rows);
    let last_row: usize = if rows == 0 { 0 } else { rows - 1 };
    let mut first = if state.first > selected { selected } else { state.first };
    let reach = first + max_visible_rows - 1;
    let reach = if reach > last_row { last_row } else { reach };
    let mut last = if selected > reach { selected } else { reach };
    let last_visible = match last_visible {
        Some(v) => v,
        None => {
            return None;
        },
    };
    let selected_row = selected - first;
    if first + last_visible + 1 < rows && selected_row >= last_visible {
        let delta = selected_row - last_visible + 1;
        first = if first + delta > selected { selected } else { first + delta };
        last = if last + delta > last_row { last_row } else { last + delta };
    }
    let new_state = RowSelection { selected, first, last };
    let report = if selected != state.selected || (state.first == 0 && state.last == 0
        && state.selected == 0) {
        Some(selected)
    } else {
        None
    };
    Some((new_state, report))
}

/// The selection stays in order and within a non-empty list:
/// `first <= selected <= last <= rows - 1`.
pub proof fn law_selection_in_order(
    state: RowSelection,
    key: Option<KeyPress>,
    rows: usize,
    max_visible_rows: usize,
    last_visible: usize,
)
    requires
        rows > 0,
        state.selected < usize::MAX,
        spec_first(state, key, rows) + max_visible_rows >= 1,
    ensures
        ({
            let s = spec_select(state, key, rows, max_visible_rows, last_visible);
            s.first <= s.selected <= s.last <= rows - 1
        }),
{
}

/// How keys move the selection in a list of `rows` rows: down or tab with
/// no modifier move it one row down, up or shift-tab one row up, except
/// past the last or above the first row; any other key, or no key, leaves
/// it where it is.
pub proof fn law_keys_move_selection(
    state: RowSelection,
    key: KeyPress,
    rows: usize,
    max_visible_rows: usize,
    last_visible: usize,
)
    requires
        state.selected < rows,
    ensures
        key.modifiers == Modifiers::Empty && (key.key == NavKey::ArrowDown || key.key == NavKey::Tab)
            ==> spec_select(state, Some(key), rows, max_visible_rows, last_visible).selected == (
        if state.selected + 1 < rows {
            state.selected + 1
        } else {
            state.selected as int
        }),
        key.key == NavKey::ArrowUp || (key.modifiers == Modifiers::ShiftOnly && key.key
            == NavKey::Tab) ==> spec_select(
            state,
            Some(key),
            rows,
            max_visible_rows,
            last_visible,
        ).selected == (if state.selected > 0 {
            state.selected - 1
        } else {
            0
        }),
        !(key.modifiers == Modifiers::Empty && (key.key == NavKey::ArrowDown || key.key
            == NavKey::Tab)) && !(key.key == NavKey::ArrowUp || (key.modifiers
            == Modifiers::ShiftOnly && key.key == NavKey::Tab)) ==> spec_select(
            state,
            Some(key),
            rows,
            max_visible_rows,
            last_visible,
        ).selected == state.selected,
        spec_select(state, None, rows, max_visible_rows, last_visible).selected == state.selected,
{
}

} // verus!
