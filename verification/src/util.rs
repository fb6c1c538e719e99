//! Small decisions that the whole window shares: labels, sizes and zones.
use vstd::prelude::*;

use crate::geometry::{Pos, ScreenRect};
use crate::modifiers::Modifiers;
use crate::text::{
    chars_of, concat2, concat3, concat4, decimal, decimal_of, lines, lines_of, string_of, texts,
};

verus! {

/// The longest session label, in characters.
pub const SESSION_LABEL_CHARS: usize = 40;

pub const SESSION_ID_BYTES: u32 = 8;

/// Two rectangles share a point.
pub open spec fn touch(a: ScreenRect, b: ScreenRect) -> bool {
    &&& a.min_x <= b.max_x && b.min_x <= a.max_x
    &&& a.min_y <= b.max_y && b.min_y <= a.max_y
}

pub fn rects_intersect(a: ScreenRect, b: ScreenRect) -> (yes: bool)
    ensures
        yes == touch(a, b),
{
    a.min_x <= b.max_x && b.min_x <= a.max_x && a.min_y <= b.max_y && b.min_y <= a.max_y
}

/// The places of fixed widgets, which nothing of the canvas may cover.
pub struct OverlayExclusion {
    pub zones: Vec<ScreenRect>,
}

impl OverlayExclusion {
    pub open spec fn blocks(self, rect: ScreenRect) -> bool {
        exists|i: int| 0 <= i < self.zones@.len() && touch(#[trigger] self.zones@[i], rect)
    }

    pub fn new(zones: Vec<ScreenRect>) -> (exclusion: Self)
        ensures
            exclusion.zones@ == zones@,
    {
        OverlayExclusion { zones }
    }

    pub fn intersects(&self, rect: ScreenRect) -> (yes: bool)
        ensures
            yes == self.blocks(rect),
    {
        let mut i: usize = 0;
        while i < self.zones.len()
            invariant
                i <= self.zones@.len(),
                forall|j: int| 0 <= j < i ==> !touch(#[trigger] self.zones@[j], rect),
            decreases self.zones@.len() - i,
        {
            if rects_intersect(self.zones[i], rect) {
                assert(touch(self.zones@[i as int], rect));
                return true;
            }
            i = i + 1;
        }
        false
    }
}

pub fn empty_string_as_none(value: &str) -> (some: Option<&str>)
    ensures
        some is None <==> value@.len() == 0,
        some matches Some(s) ==> s@ == value@,
{
    let chars = chars_of(value);
    if chars.len() == 0 {
        None
    } else {
        Some(value)
    }
}

pub fn primary_shortcut_modifier(modifiers: Modifiers) -> (yes: bool)
    ensures
        yes == (modifiers.ctrl || modifiers.command),
{
    modifiers.ctrl || modifiers.command
}

pub open spec fn shortcut_name(mac: bool) -> Seq<char> {
    if mac {
        "Cmd"@
    } else {
        "Ctrl"@
    }
}

/// What the primary modifier is called on the platform.
pub fn primary_shortcut_label(mac: bool) -> (label: &'static str)
    ensures
        label@ == shortcut_name(mac),
{
    if mac {
        "Cmd"
    } else {
        "Ctrl"
    }
}

/// The hints of an empty board.
pub fn empty_state_hints(mac: bool) -> (hints: (String, String))
    ensures
        hints.0@ == shortcut_name(mac) + "+double-click to create a workspace."@,
        hints.1@ == shortcut_name(mac) + "+double-click inside a workspace to add a terminal."@,
{
    let shortcut = primary_shortcut_label(mac);
    (
        concat2(shortcut, "+double-click to create a workspace."),
        concat2(shortcut, "+double-click inside a workspace to add a terminal."),
    )
}

/// The bytes of a character in UTF-8.
pub open spec fn utf8_len(c: char) -> nat {
    if (c as u32) < 0x80 {
        1
    } else if (c as u32) < 0x800 {
        2
    } else if (c as u32) < 0x1_0000 {
        3
    } else {
        4
    }
}

/// The bytes of a text.
pub open spec fn byte_len(s: Seq<char>) -> nat
    decreases s.len(),
{
    if s.len() == 0 {
        0
    } else {
        byte_len(s.drop_last()) + utf8_len(s.last())
    }
}

pub fn utf8_len_of(c: char) -> (n: u32)
    ensures
        n == utf8_len(c),
        1 <= n <= 4,
{
    let code: u32 = c as u32;
    if code < 0x80 {
        1
    } else if code < 0x800 {
        2
    } else if code < 0x1_0000 {
        3
    } else {
        4
    }
}

proof fn lemma_byte_len_grows(s: Seq<char>, i: int, j: int)
    requires
        0 <= i <= j <= s.len(),
    ensures
        byte_len(s.take(i)) + (j - i) <= byte_len(s.take(j)),
    decreases j,
{
    if i < j {
        lemma_byte_len_grows(s, i, j - 1);
        assert(s.take(j).drop_last() =~= s.take(j - 1));
    }
}

/// The first eight bytes of an id, where they end between characters; else all
/// of it.
pub fn short_session_id(session_id: &str) -> (short: String)
    ensures
        forall|k: int|
            0 <= k <= session_id@.len() && byte_len(#[trigger] session_id@.take(k))
                == SESSION_ID_BYTES ==> short@ == session_id@.take(k),
        (forall|k: int|
            0 <= k <= session_id@.len() ==> byte_len(#[trigger] session_id@.take(k))
                != SESSION_ID_BYTES) ==> short@ == session_id@,
{
    let chars = chars_of(session_id);
    let len: usize = chars.len();
    let ghost s = session_id@;
    let mut bytes: u32 = 0;
    let mut i: usize = 0;
    assert(s.take(0) =~= Seq::<char>::empty());
    while i < len && bytes < SESSION_ID_BYTES
        invariant
            i <= len,
            len == s.len(),
            chars@ == s,
            bytes <= 11,
            bytes == byte_len(s.take(i as int)),
            forall|j: int| 0 <= j < i ==> byte_len(#[trigger] s.take(j)) < SESSION_ID_BYTES,
        decreases len - i,
    {
        assert(s.take(i + 1).drop_last() =~= s.take(i as int));
        bytes = bytes + utf8_len_of(chars[i]);
        i = i + 1;
    }
    proof {
        assert forall|k: int|
            0 <= k <= s.len() && byte_len(#[trigger] s.take(k)) == SESSION_ID_BYTES implies k == i
            && bytes == 8 by {
            if k >= i {
                lemma_byte_len_grows(s, i as int, k);
            }
        }
    }
    if bytes == SESSION_ID_BYTES {
        assert(byte_len(s.take(i as int)) == SESSION_ID_BYTES);
        let short = string_of(chars.as_slice(), 0, i);
        assert(short@ =~= s.take(i as int));
        short
    } else {
        session_id.to_string()
    }
}

/// Lengths in points.
pub const EDITOR_CHAR_WIDTH: u32 = 8;

pub const EDITOR_LINE_HEIGHT: u32 = 20;

pub const EDITOR_PAD: u32 = 80;

pub const EDITOR_MIN_WIDTH: u32 = 400;

pub const EDITOR_MIN_HEIGHT: u32 = 280;

pub const EDITOR_MAX_WIDTH: u32 = 900;

pub const EDITOR_MAX_HEIGHT: u32 = 800;

/// Counts above this are as good as this.
pub const COUNT_LIMIT: u32 = 65_535;

pub open spec fn at_most(n: int, most: int) -> int {
    if n > most {
        most
    } else {
        n
    }
}

pub open spec fn between(n: int, low: int, high: int) -> int {
    if n < low {
        low
    } else if n > high {
        high
    } else {
        n
    }
}

/// The bytes of the longest of the lines.
pub open spec fn longest(list: Seq<Seq<char>>) -> nat
    decreases list.len(),
{
    if list.len() == 0 {
        0
    } else {
        let rest = longest(list.drop_last());
        if byte_len(list.last()) > rest {
            byte_len(list.last())
        } else {
            rest
        }
    }
}

/// The size that an editor of a text opens with. A file that cannot be read
/// gets a size of its own.
pub open spec fn editor_size(content: Option<Seq<char>>) -> (int, int) {
    match content {
        None => (520, 400),
        Some(text) => {
            let list = lines(text);
            let columns = if list.len() == 0 {
                40
            } else {
                longest(list) as int
            };
            let rows = if list.len() == 0 {
                1
            } else {
                list.len() as int
            };
            (
                between(
                    at_most(columns, COUNT_LIMIT as int) * EDITOR_CHAR_WIDTH + EDITOR_PAD,
                    EDITOR_MIN_WIDTH as int,
                    EDITOR_MAX_WIDTH as int,
                ),
                between(
                    at_most(rows, COUNT_LIMIT as int) * EDITOR_LINE_HEIGHT + EDITOR_PAD,
                    EDITOR_MIN_HEIGHT as int,
                    EDITOR_MAX_HEIGHT as int,
                ),
            )
        },
    }
}

fn byte_count(s: &str) -> (n: u32)
    ensures
        n == at_most(byte_len(s@) as int, COUNT_LIMIT as int),
{
    let chars = chars_of(s);
    let mut n: u32 = 0;
    let mut i: usize = 0;
    assert(s@.take(0) =~= Seq::<char>::empty());
    while i < chars.len()
        invariant
            i <= chars@.len(),
            chars@ == s@,
            n <= COUNT_LIMIT,
            n == at_most(byte_len(s@.take(i as int)) as int, COUNT_LIMIT as int),
        decreases chars@.len() - i,
    {
        assert(s@.take(i + 1).drop_last() =~= s@.take(i as int));
        n = n + utf8_len_of(chars[i]);
        if n > COUNT_LIMIT {
            n = COUNT_LIMIT;
        }
        i = i + 1;
    }
    assert(s@.take(i as int) =~= s@);
    n
}

fn clamped(n: u32, low: u32, high: u32) -> (c: u32)
    requires
        low <= high,
    ensures
        c == between(n as int, low as int, high as int),
{
    if n < low {
        low
    } else if n > high {
        high
    } else {
        n
    }
}

pub fn editor_panel_size(content: Option<&str>) -> (size: (u32, u32))
    ensures
        (size.0 as int, size.1 as int) == editor_size(
            match content {
                Some(text) => Some(text@),
                None => None,
            },
        ),
{
    let text = match content {
        None => {
            return (520, 400);
        },
        Some(text) => text,
    };
    let list = lines_of(text);
    let len: usize = list.len();
    let ghost views = texts(list@);
    let mut columns: u32 = if len == 0 {
        40
    } else {
        0
    };
    let mut i: usize = 0;
    assert(views.take(0) =~= Seq::<Seq<char>>::empty());
    while i < len
        invariant
            i <= len,
            len == list@.len(),
            views == texts(list@),
            columns <= COUNT_LIMIT,
            len == 0 ==> columns == 40,
            len > 0 ==> columns == at_most(longest(views.take(i as int)) as int, COUNT_LIMIT as int),
        decreases len - i,
    {
        assert(views.take(i + 1).drop_last() =~= views.take(i as int));
        assert(views[i as int] == list@[i as int]@);
        let bytes: u32 = byte_count(list[i].as_str());
        if bytes > columns {
            columns = bytes;
        }
        i = i + 1;
    }
    assert(views.take(i as int) =~= views);
    let rows: u32 = if len == 0 {
        1
    } else if len > 65_535 {
        65_535
    } else {
        len as u32
    };
    (
        clamped(columns * EDITOR_CHAR_WIDTH + EDITOR_PAD, EDITOR_MIN_WIDTH, EDITOR_MAX_WIDTH),
        clamped(rows * EDITOR_LINE_HEIGHT + EDITOR_PAD, EDITOR_MIN_HEIGHT, EDITOR_MAX_HEIGHT),
    )
}

pub open spec fn truncated_label(label: Seq<char>) -> Seq<char> {
    if label.len() <= SESSION_LABEL_CHARS {
        label
    } else {
        label.take(SESSION_LABEL_CHARS - 1) + "…"@
    }
}

/// A label of at most forty characters; a longer one ends in an ellipsis.
pub fn truncate_session_label(label: &str) -> (short: String)
    ensures
        short@ == truncated_label(label@),
{
    let chars = chars_of(label);
    if chars.len() <= SESSION_LABEL_CHARS {
        return label.to_string();
    }
    let kept = string_of(chars.as_slice(), 0, SESSION_LABEL_CHARS - 1);
    assert(kept@ =~= label@.take(SESSION_LABEL_CHARS - 1));
    concat2(kept.as_str(), "…")
}

/// However long a label is, what is shown has at most forty characters.
pub proof fn law_labels_fit(label: Seq<char>)
    ensures
        truncated_label(label).len() <= SESSION_LABEL_CHARS,
{
    reveal_strlit("…");
}

/// White space of ASCII: space, tab, line feed, form feed, carriage return.
pub open spec fn ascii_white_space(c: char) -> bool {
    c == ' ' || c == '\t' || c == '\n' || c == '\u{c}' || c == '\r'
}

/// How wide a character of a label is taken to be, in tenths of a point.
pub open spec fn char_tenths(c: char) -> int {
    if 'A' <= c <= 'Z' {
        86
    } else if ascii_white_space(c) {
        45
    } else {
        76
    }
}

pub open spec fn text_tenths(s: Seq<char>) -> int
    decreases s.len(),
{
    if s.len() == 0 {
        0
    } else {
        text_tenths(s.drop_last()) + char_tenths(s.last())
    }
}

/// How wide a workspace's label is, in tenths of a point, within bounds of the
/// same.
pub fn workspace_label_width(name: &str, low: u32, high: u32) -> (width: u32)
    requires
        low <= high,
    ensures
        width == between(text_tenths(name@) + 600, low as int, high as int),
{
    let chars = chars_of(name);
    let mut tenths: u64 = 0;
    let mut i: usize = 0;
    assert(name@.take(0) =~= Seq::<char>::empty());
    while i < chars.len()
        invariant
            i <= chars@.len(),
            chars@ == name@,
            tenths <= 0x1_0000_0000,
            tenths == at_most(text_tenths(name@.take(i as int)), 0x1_0000_0000),
            text_tenths(name@.take(i as int)) >= 0,
        decreases chars@.len() - i,
    {
        assert(name@.take(i + 1).drop_last() =~= name@.take(i as int));
        let c = chars[i];
        let wide: u64 = if 'A' <= c && c <= 'Z' {
            86
        } else if c == ' ' || c == '\t' || c == '\n' || c == '\u{c}' || c == '\r' {
            45
        } else {
            76
        };
        tenths = tenths + wide;
        if tenths > 0x1_0000_0000 {
            tenths = 0x1_0000_0000;
        }
        i = i + 1;
    }
    assert(name@.take(i as int) =~= name@);
    let asked: u64 = tenths + 600;
    if asked < low as u64 {
        low
    } else if asked > high as u64 {
        high
    } else {
        asked as u32
    }
}

pub open spec fn compact_count(value: nat) -> Seq<char> {
    if value >= 10_000 {
        decimal(value / 1_000) + "k"@
    } else if value >= 1_000 {
        let tenth = (value % 1_000) / 100;
        if tenth == 0 {
            decimal(value / 1_000) + "k"@
        } else {
            decimal(value / 1_000) + "."@ + decimal(tenth) + "k"@
        }
    } else {
        decimal(value)
    }
}

/// A count in at most three digits and a letter, as far as it goes.
pub fn format_compact_count(value: usize) -> (text: String)
    ensures
        text@ == compact_count(value as nat),
{
    let v: u64 = value as u64;
    if v >= 10_000 {
        let whole = decimal_of(v / 1_000);
        return concat2(whole.as_str(), "k");
    }
    if v >= 1_000 {
        let whole = decimal_of(v / 1_000);
        let tenth: u64 = (v % 1_000) / 100;
        if tenth == 0 {
            return concat2(whole.as_str(), "k");
        }
        let part = decimal_of(tenth);
        return concat4(whole.as_str(), ".", part.as_str(), "k");
    }
    decimal_of(v)
}

/// Thousandths of a point as whole points, halves away from zero.
pub open spec fn rounded_points(thousandths: int) -> int {
    if thousandths >= 0 {
        (thousandths + 500) / 1000
    } else {
        -((-thousandths + 500) / 1000)
    }
}

pub open spec fn signed_text(n: int) -> Seq<char> {
    if n < 0 {
        "-"@ + decimal((-n) as nat)
    } else {
        decimal(n as nat)
    }
}

fn rounded_text(thousandths: i32) -> (text: String)
    ensures
        text@ == signed_text(rounded_points(thousandths as int)),
{
    let t: i64 = thousandths as i64;
    if t >= 0 {
        decimal_of(((t + 500) / 1000) as u64)
    } else {
        let points: u64 = ((-t + 500) / 1000) as u64;
        let digits = decimal_of(points);
        if points == 0 {
            digits
        } else {
            concat2("-", digits.as_str())
        }
    }
}

/// A place of the canvas in whole points.
pub fn format_grid_position(position: Pos) -> (text: String)
    ensures
        text@ == signed_text(rounded_points(position.x as int)) + ", "@ + signed_text(
            rounded_points(position.y as int),
        ),
{
    let x = rounded_text(position.x);
    let y = rounded_text(position.y);
    concat3(x.as_str(), ", ", y.as_str())
}

/// A panel is never smaller than its least size.
pub fn clamp_panel_size(size: (u32, u32), least: (u32, u32)) -> (clamped: (u32, u32))
    ensures
        clamped.0 == if size.0 > least.0 {
            size.0
        } else {
            least.0
        },
        clamped.1 == if size.1 > least.1 {
            size.1
        } else {
            least.1
        },
{
    (
        if size.0 > least.0 {
            size.0
        } else {
            least.0
        },
        if size.1 > least.1 {
            size.1
        } else {
            least.1
        },
    )
}

/// Two rectangles touch just where some point is in both.
pub proof fn law_rectangles_touch_in_a_point(a: ScreenRect, b: ScreenRect, p: Pos)
    requires
        a.min_x <= a.max_x && a.min_y <= a.max_y,
        b.min_x <= b.max_x && b.min_y <= b.max_y,
    ensures
        a.holds(p) && b.holds(p) ==> touch(a, b),
        touch(a, b) ==> exists|q: Pos| a.holds(q) && b.holds(q),
        touch(a, b) == touch(b, a),
{
    if touch(a, b) {
        let q = Pos {
            x: if a.min_x >= b.min_x {
                a.min_x
            } else {
                b.min_x
            },
            y: if a.min_y >= b.min_y {
                a.min_y
            } else {
                b.min_y
            },
        };
        assert(a.holds(q) && b.holds(q));
    }
}

/// A rectangle is blocked by any zone that it touches, and by nothing else.
pub proof fn law_zones_block_what_touches_them(
    zones: OverlayExclusion,
    rect: ScreenRect,
    k: int,
)
    requires
        0 <= k < zones.zones@.len(),
    ensures
        touch(zones.zones@[k], rect) ==> zones.blocks(rect),
        (forall|j: int|
            0 <= j < zones.zones@.len() ==> !touch(#[trigger] zones.zones@[j], rect))
            ==> !zones.blocks(rect),
{
}

/// The primary modifier has its platform's name.
pub proof fn law_modifiers_have_their_names(mac: bool)
    ensures
        mac ==> shortcut_name(mac) == "Cmd"@,
        !mac ==> shortcut_name(mac) == "Ctrl"@,
{
}

/// A text has the bytes of its characters: one up to U+007F, two up to U+07FF,
/// three up to U+FFFF, else four.
pub proof fn law_bytes_add_up(s: Seq<char>, c: char)
    ensures
        byte_len(Seq::empty()) == 0,
        byte_len(s.push(c)) == byte_len(s) + utf8_len(c),
        (c as u32) <= 0x7f ==> utf8_len(c) == 1,
        0x80 <= (c as u32) <= 0x7ff ==> utf8_len(c) == 2,
        0x800 <= (c as u32) <= 0xffff ==> utf8_len(c) == 3,
        (c as u32) >= 0x1_0000 ==> utf8_len(c) == 4,
{
    assert(s.push(c).drop_last() =~= s);
}

/// The longest line is one of them, and no line is longer.
pub proof fn law_no_line_is_longer(list: Seq<Seq<char>>, k: int)
    requires
        0 <= k < list.len(),
    ensures
        byte_len(list[k]) <= longest(list),
        exists|j: int| 0 <= j < list.len() && byte_len(#[trigger] list[j]) == longest(list),
    decreases list.len(),
{
    let rest = list.drop_last();
    if k < rest.len() {
        law_no_line_is_longer(rest, k);
        assert(rest[k] == list[k]);
        if byte_len(list.last()) > longest(rest) {
            assert(byte_len(list[list.len() - 1]) == longest(list));
        } else {
            let j = choose|j: int| 0 <= j < rest.len() && byte_len(#[trigger] rest[j]) == longest(rest);
            assert(list[j] == rest[j]);
        }
    } else if rest.len() > 0 {
        law_no_line_is_longer(rest, 0);
        if byte_len(list.last()) > longest(rest) {
            assert(byte_len(list[list.len() - 1]) == longest(list));
        } else {
            let j = choose|j: int| 0 <= j < rest.len() && byte_len(#[trigger] rest[j]) == longest(rest);
            assert(list[j] == rest[j]);
        }
    } else {
        assert(longest(rest) == 0);
        assert(list.last() == list[0]);
        assert(byte_len(list[0]) == longest(list));
    }
}

/// An editor has eight points for each byte of its longest line and twenty for
/// each line, with eighty more, from 400 by 280 to 900 by 800 points.
pub proof fn law_editors_open_as_large_as_their_text(text: Seq<char>)
    requires
        lines(text).len() > 0,
    ensures
        ({
            let (width, height) = editor_size(Some(text));
            let columns = longest(lines(text));
            let rows = lines(text).len();
            &&& 400 <= width <= 900 && 280 <= height <= 800
            &&& 40 <= columns <= 102 ==> width == 8 * columns + 80
            &&& columns < 40 ==> width == 400
            &&& columns > 102 ==> width == 900
            &&& 10 <= rows <= 36 ==> height == 20 * rows + 80
            &&& rows < 10 ==> height == 280
            &&& rows > 36 ==> height == 800
        }),
{
}

/// Where there is no text, and where none could be read, an editor has a size of
/// its own.
pub proof fn law_editors_without_text_have_a_size(text: Seq<char>)
    ensures
        editor_size(None) == (520int, 400int),
        lines(text).len() == 0 ==> editor_size(Some(text)) == (400int, 280int),
{
}

/// A label of up to forty characters is kept; of a longer one 39 are, and an
/// ellipsis.
pub proof fn law_long_labels_are_cut(label: Seq<char>)
    ensures
        label.len() <= 40 ==> truncated_label(label) == label,
        label.len() > 40 ==> truncated_label(label).len() == 40 && truncated_label(label).take(39)
            =~= label.take(39) && truncated_label(label)[39] == '…',
{
    reveal_strlit("…");
}

/// A capital takes 8.6 points, white space 4.5 and any other character 7.6; a
/// text takes what its characters do.
pub proof fn law_widths_add_up(s: Seq<char>, c: char)
    ensures
        text_tenths(Seq::empty()) == 0,
        text_tenths(s.push(c)) == text_tenths(s) + char_tenths(c),
        'A' <= c <= 'Z' ==> char_tenths(c) == 86,
        c == ' ' || c == '\t' || c == '\n' || c == '\u{c}' || c == '\r' ==> char_tenths(c) == 45,
        !('A' <= c <= 'Z') && !(c == ' ' || c == '\t' || c == '\n' || c == '\u{c}' || c == '\r')
            ==> char_tenths(c) == 76,
{
    assert(s.push(c).drop_last() =~= s);
}

/// Counts under a thousand are written out; from there on in thousands, with a
/// tenth that is not zero under ten thousand.
pub proof fn law_counts_are_written_in_thousands(value: nat)
    ensures
        value < 1_000 ==> compact_count(value) == decimal(value),
        1_000 <= value < 10_000 && value % 1_000 >= 100 ==> compact_count(value) == decimal(
            value / 1_000,
        ) + "."@ + decimal((value % 1_000) / 100) + "k"@,
        1_000 <= value < 10_000 && value % 1_000 < 100 ==> compact_count(value) == decimal(
            value / 1_000,
        ) + "k"@,
        value >= 10_000 ==> compact_count(value) == decimal(value / 1_000) + "k"@,
{
}

/// A place is rounded to the nearest point, halves away from zero, and has its
/// sign.
pub proof fn law_places_are_rounded(thousandths: int, n: nat)
    ensures
        ({
            let points = rounded_points(thousandths);
            &&& thousandths >= 0 ==> points >= 0 && 1000 * points - 500 <= thousandths < 1000
                * points + 500
            &&& thousandths < 0 ==> points <= 0 && 1000 * points - 500 < thousandths <= 1000
                * points + 500
        }),
        signed_text(n as int) == decimal(n),
        n > 0 ==> signed_text(-(n as int)) == "-"@ + decimal(n),
{
}

} // verus!
