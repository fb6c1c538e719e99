//! The modal shared by the pickers: a query line over a list of results.
use vstd::prelude::*;

use crate::palette_layout::Frame;
use crate::text::{chars_of, find_last, last_index, string_of};

verus! {

/// Rows beyond this many are not painted, so they cannot be clicked.
pub const MAX_RENDERED_ROWS: usize = 36;

/// A click on the backdrop counts only this long after opening.
pub const BACKDROP_GRACE_MS: u64 = 200;

/// The query line takes focus by itself only this long after opening.
pub const FOCUS_GRACE_MS: u64 = 100;

/// Lengths are in thousandths of a point.
pub const PICKER_WIDTH: i64 = 520_000;

pub const PICKER_MAX_HEIGHT: i64 = 460_000;

pub const INPUT_HEIGHT: i64 = 44_000;

pub const ROW_HEIGHT: i64 = 34_000;

pub const MAX_VISIBLE_ROWS: i64 = 12;

pub const FOOTER_HEIGHT: i64 = 36_000;

pub const CARD_MARGIN_X: i64 = 20_000;

pub const CARD_MARGIN_Y: i64 = 16_000;

/// Where the modal is painted.
#[derive(Clone, Copy, Debug, PartialEq, Eq, Structural)]
pub struct PickerLayout {
    pub card: Frame,
    pub inner: Frame,
    pub footer_height: i64,
}

/// The card is as tall as its parts together, up to a limit.
pub open spec fn card_height() -> int {
    let parts = INPUT_HEIGHT + 16_000 + MAX_VISIBLE_ROWS * ROW_HEIGHT + FOOTER_HEIGHT + 44_000;
    if parts < PICKER_MAX_HEIGHT {
        parts
    } else {
        PICKER_MAX_HEIGHT as int
    }
}

/// The card has half of the free width before it, and 35 hundredths of the free
/// height above it. On a screen that is too small it hangs over the edges.
pub fn picker_layout(screen_width: u32, screen_height: u32) -> (layout: PickerLayout)
    ensures
        layout.card.left == (screen_width - PICKER_WIDTH) / 2,
        layout.card.top == (screen_height - card_height()) * 35 / 100,
        layout.card.width == PICKER_WIDTH,
        layout.card.height == card_height(),
        layout.inner == (Frame {
            left: (layout.card.left + CARD_MARGIN_X) as i64,
            top: (layout.card.top + CARD_MARGIN_Y) as i64,
            width: (layout.card.width - 2 * CARD_MARGIN_X) as i64,
            height: (layout.card.height - 2 * CARD_MARGIN_Y) as i64,
        }),
        layout.footer_height == FOOTER_HEIGHT,
        layout.card.width == 520_000 && layout.card.height == 460_000,
        0 <= screen_width - 2 * layout.card.left - 520_000 <= 1,
        0 <= (screen_height - 460_000) * 35 - layout.card.top * 100 < 100,
        layout.inner.left == layout.card.left + 20_000 && layout.inner.width == 480_000,
        layout.inner.top == layout.card.top + 16_000 && layout.inner.height == 428_000,
        layout.footer_height == 36_000,
{
    let parts: i64 = INPUT_HEIGHT + 16_000 + MAX_VISIBLE_ROWS * ROW_HEIGHT + FOOTER_HEIGHT + 44_000;
    let height: i64 = if parts < PICKER_MAX_HEIGHT {
        parts
    } else {
        PICKER_MAX_HEIGHT
    };
    let left: i64 = share_of(screen_width as i64 - PICKER_WIDTH, 50);
    let top: i64 = share_of(screen_height as i64 - height, 35);
    PickerLayout {
        card: Frame { left, top, width: PICKER_WIDTH, height },
        inner: Frame {
            left: left + CARD_MARGIN_X,
            top: top + CARD_MARGIN_Y,
            width: PICKER_WIDTH - 2 * CARD_MARGIN_X,
            height: height - 2 * CARD_MARGIN_Y,
        },
        footer_height: FOOTER_HEIGHT,
    }
}

/// The height of the list of results that starts at `top`: that of its rows, up
/// to a limit, as far as there is room above the footer.
pub fn results_height(inner_bottom: i32, top: i32) -> (height: i64)
    ensures
        height == (if inner_bottom - top - FOOTER_HEIGHT - 8_000 < MAX_VISIBLE_ROWS * ROW_HEIGHT {
            inner_bottom - top - FOOTER_HEIGHT - 8_000
        } else {
            MAX_VISIBLE_ROWS * ROW_HEIGHT
        }),
        height <= 408_000,
        top + height + 44_000 <= inner_bottom,
        height == 408_000 || top + height + 44_000 == inner_bottom,
{
    let room: i64 = inner_bottom as i64 - top as i64 - FOOTER_HEIGHT - 8_000;
    let rows: i64 = MAX_VISIBLE_ROWS * ROW_HEIGHT;
    if room < rows {
        room
    } else {
        rows
    }
}

/// So many hundredths of a length, rounded down.
fn share_of(n: i64, hundredths: i64) -> (share: i64)
    requires
        -0x1_0000_0000 <= n <= 0x1_0000_0000,
        0 <= hundredths <= 100,
    ensures
        share == n * hundredths / 100,
        -0x1_0000_0000 <= share <= 0x1_0000_0000,
{
    assert(-0x64_0000_0000 <= n * hundredths <= 0x64_0000_0000) by (nonlinear_arith)
        requires
            -0x1_0000_0000 <= n <= 0x1_0000_0000,
            0 <= hundredths <= 100,
    ;
    let product: i64 = n * hundredths;
    if product >= 0 {
        product / 100
    } else {
        -((99 - product) / 100)
    }
}

pub struct PickerModalState {
    pub query: String,
    pub selected: usize,
    pub opened_at_ms: u64,
}

#[derive(Clone, Copy, Debug, PartialEq, Eq, Structural)]
pub enum PickerModalAction {
    Idle,
    Cancelled,
    Submit,
    CompleteSelection,
    ClickedRow(usize),
    FooterAction,
}

/// The keys of the modal that went down in one frame.
#[derive(Clone, Copy, Debug, PartialEq, Eq, Structural)]
pub struct PickerKeys {
    pub up: bool,
    pub down: bool,
    pub enter: bool,
    pub escape: bool,
    pub tab: bool,
}

/// Where the selection goes when the arrows in `keys` are applied to it.
pub open spec fn stepped(selected: int, keys: PickerKeys, result_count: int) -> int {
    let raised = if keys.up && selected > 0 {
        selected - 1
    } else {
        selected
    };
    if keys.down && raised < result_count - 1 {
        raised + 1
    } else {
        raised
    }
}

/// What the keys ask for, once the arrows have been applied.
pub open spec fn key_action(keys: PickerKeys, result_count: int) -> Option<PickerModalAction> {
    if keys.escape {
        Some(PickerModalAction::Cancelled)
    } else if keys.tab && result_count > 0 {
        Some(PickerModalAction::CompleteSelection)
    } else if keys.enter {
        Some(PickerModalAction::Submit)
    } else {
        None
    }
}

impl PickerModalState {
    /// The selection after the keys: Escape leaves it alone.
    pub open spec fn selected_after(self, keys: PickerKeys, result_count: int) -> int {
        if keys.escape {
            self.selected as int
        } else {
            stepped(self.selected as int, keys, result_count)
        }
    }

    pub fn new(query: String, now_ms: u64) -> (state: Self)
        ensures
            state.query@ == query@,
            state.selected == 0,
            state.opened_at_ms == now_ms,
    {
        PickerModalState { query, selected: 0, opened_at_ms: now_ms }
    }

    pub fn query(&self) -> (query: &str)
        ensures
            query@ == self.query@,
    {
        self.query.as_str()
    }

    pub fn set_query(&mut self, query: String)
        ensures
            final(self).query@ == query@,
            final(self).selected == old(self).selected,
            final(self).opened_at_ms == old(self).opened_at_ms,
    {
        self.query = query;
    }

    pub fn selected_index(&self) -> (selected: usize)
        ensures
            selected == self.selected,
    {
        self.selected
    }

    /// Moves the selection back to the first row where it points past the list.
    pub fn clamp_selected(&mut self, len: usize)
        ensures
            final(self).selected == (if old(self).selected >= len {
                0
            } else {
                old(self).selected as int
            }),
            final(self).query@ == old(self).query@,
            final(self).opened_at_ms == old(self).opened_at_ms,
    {
        if self.selected >= len {
            self.selected = 0;
        }
    }

    /// Whether a click on the backdrop closes the modal.
    pub fn backdrop_cancels(&self, clicked: bool, now_ms: u64) -> (cancels: bool)
        ensures
            cancels == (clicked && now_ms - self.opened_at_ms > BACKDROP_GRACE_MS),
            cancels == (clicked && now_ms > self.opened_at_ms + 200),
    {
        clicked && now_ms >= self.opened_at_ms && now_ms - self.opened_at_ms > BACKDROP_GRACE_MS
    }

    /// Whether the query line should take the focus.
    pub fn wants_focus(&self, has_focus: bool, now_ms: u64) -> (wants: bool)
        ensures
            wants == (!has_focus && now_ms - self.opened_at_ms < FOCUS_GRACE_MS),
            wants == (!has_focus && now_ms < self.opened_at_ms + 100),
    {
        !has_focus && (now_ms < self.opened_at_ms || now_ms - self.opened_at_ms < FOCUS_GRACE_MS)
    }

    pub fn handle_keyboard(&mut self, keys: PickerKeys, result_count: usize) -> (action: Option<
        PickerModalAction,
    >)
        ensures
            action == key_action(keys, result_count as int),
            final(self).selected == old(self).selected_after(keys, result_count as int),
            final(self).query@ == old(self).query@,
            final(self).opened_at_ms == old(self).opened_at_ms,
    {
        if keys.escape {
            return Some(PickerModalAction::Cancelled);
        }
        if keys.up && self.selected > 0 {
            self.selected = self.selected - 1;
        }
        if keys.down && result_count > 0 && self.selected < result_count - 1 {
            self.selected = self.selected + 1;
        }
        if keys.tab && result_count > 0 {
            return Some(PickerModalAction::CompleteSelection);
        }
        if keys.enter {
            return Some(PickerModalAction::Submit);
        }
        None
    }

    /// One frame of the open modal: the keys come first, then a clicked row,
    /// then the footer. A clicked row becomes the selection.
    pub fn resolve(
        &mut self,
        keys: PickerKeys,
        result_count: usize,
        clicked_row: Option<usize>,
        footer_clicked: bool,
    ) -> (action: PickerModalAction)
        ensures
            action == (match key_action(keys, result_count as int) {
                Some(from_keys) => from_keys,
                None => match clicked_row {
                    Some(row) => PickerModalAction::ClickedRow(row),
                    None => if footer_clicked {
                        PickerModalAction::FooterAction
                    } else {
                        PickerModalAction::Idle
                    },
                },
            }),
            final(self).selected == (match (key_action(keys, result_count as int), clicked_row) {
                (None, Some(row)) => row as int,
                _ => old(self).selected_after(keys, result_count as int),
            }),
            final(self).query@ == old(self).query@,
            final(self).opened_at_ms == old(self).opened_at_ms,
    {
        if let Some(action) = self.handle_keyboard(keys, result_count) {
            return action;
        }
        if let Some(row) = clicked_row {
            self.selected = row;
            return PickerModalAction::ClickedRow(row);
        }
        if footer_clicked {
            return PickerModalAction::FooterAction;
        }
        PickerModalAction::Idle
    }

    /// A selection that points into a list of `result_count` rows still does
    /// after any keys.
    pub proof fn law_keys_keep_the_selection_in_range(self, keys: PickerKeys, result_count: int)
        requires
            0 <= self.selected < result_count,
        ensures
            0 <= self.selected_after(keys, result_count) < result_count,
    {
    }
}

/// The directory part of `display`, its last slash included, and the name.
pub fn split_path_display(display: &str) -> (parts: (String, String))
    ensures
        parts.0@ == display@.take(last_index(display@, '/') + 1),
        parts.1@ == display@.skip(last_index(display@, '/') + 1),
        parts.0@ + parts.1@ == display@,
{
    let chars = chars_of(display);
    let len: usize = chars.len();
    let cut: usize = match find_last(chars.as_slice(), '/') {
        Some(at) => at + 1,
        None => 0,
    };
    let dir = string_of(chars.as_slice(), 0, cut);
    let name = string_of(chars.as_slice(), cut, len);
    assert(dir@ =~= display@.take(cut as int));
    assert(name@ =~= display@.skip(cut as int));
    assert(dir@ + name@ =~= display@);
    (dir, name)
}

/// The arrows move the selection by one row, up before down, and never off the
/// list.
pub proof fn law_arrows_move_by_one_row(selected: int, keys: PickerKeys, result_count: int)
    requires
        0 <= selected < result_count,
    ensures
        ({
            let after = stepped(selected, keys, result_count);
            &&& !keys.up && !keys.down ==> after == selected
            &&& keys.up && !keys.down && selected > 0 ==> after == selected - 1
            &&& keys.up && !keys.down && selected == 0 ==> after == 0
            &&& keys.down && !keys.up && selected + 1 < result_count ==> after == selected + 1
            &&& keys.down && !keys.up && selected + 1 == result_count ==> after == selected
            &&& keys.up && keys.down && selected > 0 ==> after == selected
        }),
{
}

/// Escape cancels, Tab completes what is selected where there is a row, and Enter
/// submits, in this order.
pub proof fn law_keys_ask_for_what_they_say(
    state: PickerModalState,
    keys: PickerKeys,
    result_count: int,
)
    ensures
        ({
            let action = key_action(keys, result_count);
            let completes = keys.tab && result_count > 0;
            &&& keys.escape ==> action == Some(PickerModalAction::Cancelled)
                && state.selected_after(keys, result_count) == state.selected
            &&& !keys.escape && completes ==> action == Some(PickerModalAction::CompleteSelection)
            &&& !keys.escape && !completes && keys.enter ==> action == Some(
                PickerModalAction::Submit,
            )
            &&& !keys.escape && !completes && !keys.enter ==> action is None
            &&& !keys.escape ==> state.selected_after(keys, result_count) == stepped(
                state.selected as int,
                keys,
                result_count,
            )
        }),
{
}

} // verus!
