//! Where the command palette and the parts of its rows are painted. Lengths are
//! in thousandths of a point.
use vstd::prelude::*;

use crate::geometry::ScreenRect;

verus! {

pub const PALETTE_WIDTH: i64 = 500_000;

pub const INPUT_HEIGHT: i64 = 44_000;

pub const ROW_HEIGHT: i64 = 36_000;

pub const SECTION_HEADER_HEIGHT: i64 = 28_000;

pub const MAX_VISIBLE_ROWS: i64 = 12;

pub const CARD_MARGIN_X: i64 = 20_000;

pub const CARD_MARGIN_Y: i64 = 16_000;

/// A place and a size.
#[derive(Clone, Copy, Debug, PartialEq, Eq, Structural)]
pub struct Frame {
    pub left: i64,
    pub top: i64,
    pub width: i64,
    pub height: i64,
}

#[derive(Clone, Copy, Debug, PartialEq, Eq, Structural)]
pub struct PaletteLayout {
    pub card: Frame,
    pub inner: Frame,
    pub results_height: i64,
}

pub open spec fn results_height() -> int {
    MAX_VISIBLE_ROWS * ROW_HEIGHT + 4 * SECTION_HEADER_HEIGHT
}

pub open spec fn card_height() -> int {
    INPUT_HEIGHT + 16_000 + results_height() + 60_000
}

/// The card is in the middle of the screen, and nearer to its top. On a screen
/// that is too small it hangs over both sides alike.
pub fn palette_layout(screen_width: u32, screen_height: u32) -> (layout: PaletteLayout)
    ensures
        layout.results_height == results_height(),
        layout.card.width == PALETTE_WIDTH && layout.card.height == card_height(),
        layout.card.left == (screen_width - PALETTE_WIDTH) / 2,
        layout.card.top == (screen_height - card_height()) / 4,
        layout.inner == (Frame {
            left: (layout.card.left + CARD_MARGIN_X) as i64,
            top: (layout.card.top + CARD_MARGIN_Y) as i64,
            width: (layout.card.width - 2 * CARD_MARGIN_X) as i64,
            height: (layout.card.height - 2 * CARD_MARGIN_Y) as i64,
        }),
        layout.results_height == 544_000,
        layout.card.width == 500_000 && layout.card.height == 664_000,
        layout.inner.left == layout.card.left + 20_000 && layout.inner.width == 460_000,
        layout.inner.top == layout.card.top + 16_000 && layout.inner.height == 632_000,
        0 <= screen_width - 2 * layout.card.left - 500_000 <= 1,
        0 <= screen_height - 4 * layout.card.top - 664_000 <= 3,
{
    let results: i64 = MAX_VISIBLE_ROWS * ROW_HEIGHT + 4 * SECTION_HEADER_HEIGHT;
    let height: i64 = INPUT_HEIGHT + 16_000 + results + 60_000;
    let left: i64 = floor_half(screen_width as i64 - PALETTE_WIDTH);
    let top: i64 = floor_half(floor_half(screen_height as i64 - height));
    let card = Frame { left, top, width: PALETTE_WIDTH, height };
    PaletteLayout {
        card,
        inner: Frame {
            left: left + CARD_MARGIN_X,
            top: top + CARD_MARGIN_Y,
            width: PALETTE_WIDTH - 2 * CARD_MARGIN_X,
            height: height - 2 * CARD_MARGIN_Y,
        },
        results_height: results,
    }
}

fn floor_half(n: i64) -> (h: i64)
    requires
        -0x1_0000_0000 <= n <= 0x1_0000_0000,
    ensures
        h == n as int / 2,
{
    if n >= 0 {
        n / 2
    } else {
        -((1 - n) / 2)
    }
}

/// The columns of a row: where its label starts, and where what is before its
/// shortcut ends.
#[derive(Clone, Copy, Debug, PartialEq, Eq, Structural)]
pub struct RowColumns {
    pub label_left: i64,
    pub content_right: i64,
    /// The widest label; none has less than no room.
    pub label_room: i64,
    /// The widest shortcut.
    pub shortcut_room: i64,
}

pub open spec fn not_below_zero(n: int) -> int {
    if n > 0 {
        n
    } else {
        0
    }
}

fn not_negative(n: i64) -> (m: i64)
    ensures
        m == not_below_zero(n as int),
{
    if n > 0 {
        n
    } else {
        0
    }
}

/// Where the label and the detail of a row end at the latest.
pub open spec fn content_edge(row: ScreenRect, shortcut_width: Option<u32>) -> int {
    row.max_x - 12_000 - match shortcut_width {
        Some(width) => width + 28_000,
        None => 0int,
    }
}

/// Where the badge of a shortcut starts, and how wide it is.
pub open spec fn badge_left(row: ScreenRect, shortcut_width: u32) -> int {
    row.max_x - badge_width(shortcut_width) - 8_000
}

pub open spec fn badge_width(shortcut_width: u32) -> int {
    shortcut_width + 12_000
}

/// A row with an accent has its dot before the label. `shortcut_width` is how
/// wide the shortcut is painted, where there is one.
pub fn row_columns(row: ScreenRect, accent: bool, shortcut_width: Option<u32>) -> (columns:
    RowColumns)
    requires
        row.min_x <= row.max_x,
    ensures
        columns.label_left == row.min_x + if accent {
            30_000int
        } else {
            10_000int
        },
        columns.content_right == content_edge(row, shortcut_width),
        columns.label_room == not_below_zero(columns.content_right - columns.label_left),
        columns.shortcut_room == not_below_zero(row.max_x - row.min_x - 28_000),
{
    let label_left: i64 = row.min_x as i64 + if accent {
        30_000
    } else {
        10_000
    };
    let reserved: i64 = match shortcut_width {
        Some(width) => width as i64 + 28_000,
        None => 0,
    };
    let content_right: i64 = row.max_x as i64 - 12_000 - reserved;
    RowColumns {
        label_left,
        content_right,
        label_room: not_negative(content_right - label_left),
        shortcut_room: not_negative(row.max_x as i64 - row.min_x as i64 - 28_000),
    }
}

/// Where the detail starts behind a label of some width; a row without room for
/// it has none.
pub fn detail_left(columns: RowColumns, label_width: u32, has_detail: bool) -> (left: Option<i64>)
    requires
        -0x1_0000_0000 <= columns.label_left <= 0x1_0000_0000,
    ensures
        match left {
            Some(l) => has_detail && l == columns.label_left + label_width + 12_000 && l
                < columns.content_right,
            None => !has_detail || columns.label_left + label_width + 12_000
                >= columns.content_right,
        },
{
    let left: i64 = columns.label_left + label_width as i64 + 12_000;
    if has_detail && left < columns.content_right {
        Some(left)
    } else {
        None
    }
}

/// The left edge of the shortcut's badge and its width.
pub fn badge_span(row: ScreenRect, shortcut_width: u32) -> (span: (i64, i64))
    ensures
        span.0 == badge_left(row, shortcut_width),
        span.1 == badge_width(shortcut_width),
{
    let width: i64 = shortcut_width as i64 + 12_000;
    (row.max_x as i64 - width - 8_000, width)
}

/// What a row says ends before its badge begins, and the badge within the row.
pub proof fn law_badges_stand_clear(row: ScreenRect, shortcut_width: u32)
    ensures
        content_edge(row, Some(shortcut_width)) < badge_left(row, shortcut_width),
        badge_left(row, shortcut_width) + badge_width(shortcut_width) < row.max_x,
{
}

/// A row ends twelve points before its edge; a shortcut takes its width and
/// twenty-eight points more, of which twelve are its badge's own.
pub proof fn law_shortcuts_have_their_room(row: ScreenRect, shortcut_width: u32)
    ensures
        content_edge(row, None) + 12_000 == row.max_x,
        content_edge(row, Some(shortcut_width)) + 40_000 + shortcut_width == row.max_x,
        badge_width(shortcut_width) == shortcut_width + 12_000,
        badge_left(row, shortcut_width) + shortcut_width + 20_000 == row.max_x,
        results_height() == 544_000,
        card_height() == 664_000,
{
}

} // verus!
