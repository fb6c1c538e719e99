//! The menu that the host paints for a page's native `<select>`.
use vstd::prelude::*;

use super::keys::BrowserKey;
use crate::geometry::{Pos, ScreenRect};
use crate::modifiers::Modifiers;
use crate::text::{ascii_lowercase, has_prefix, lowercased, opt_text, same_text, starts_with};

verus! {

/// Lengths in thousandths of a point.
pub const OPTION_HEIGHT: i64 = 28_000;

pub const MAX_MENU_HEIGHT: i64 = 280_000;

pub const MENU_PADDING: i64 = 4_000;

pub const MIN_MENU_WIDTH: i64 = 168_000;

pub const MENU_GAP: i64 = 2_000;

/// Letters typed further apart than this start a new search.
pub const TYPEAHEAD_MS: u64 = 1_000;

pub struct NativeSelectOption {
    pub index: u32,
    pub label: String,
    pub group: Option<String>,
    pub disabled: bool,
    pub selected: bool,
}

/// Where the control is on the page, in thousandths of a page pixel.
#[derive(Clone, Copy, Debug, PartialEq, Eq, Structural)]
pub struct BrowserBounds {
    pub x: i32,
    pub y: i32,
    pub width: u32,
    pub height: u32,
}

/// An open menu. A long one lists only a window of its options, so an option's
/// index is not its row.
pub struct NativeSelectPopup {
    pub css_path: String,
    pub selected_index: u32,
    pub bounds: BrowserBounds,
    pub options: Vec<NativeSelectOption>,
}

pub struct OptionView {
    pub index: u32,
    pub label: Seq<char>,
    pub group: Option<Seq<char>>,
    pub disabled: bool,
    pub selected: bool,
}

pub struct PopupView {
    pub css_path: Seq<char>,
    pub selected_index: u32,
    pub bounds: BrowserBounds,
    pub options: Seq<OptionView>,
}

impl View for NativeSelectOption {
    type V = OptionView;

    open spec fn view(&self) -> OptionView {
        OptionView {
            index: self.index,
            label: self.label@,
            group: opt_text(self.group),
            disabled: self.disabled,
            selected: self.selected,
        }
    }
}

impl View for NativeSelectPopup {
    type V = PopupView;

    open spec fn view(&self) -> PopupView {
        PopupView {
            css_path: self.css_path@,
            selected_index: self.selected_index,
            bounds: self.bounds,
            options: self.options@.map_values(|o: NativeSelectOption| o@),
        }
    }
}

/// The first row from `from` on that `wanted` holds of.
pub open spec fn first_row(
    options: Seq<OptionView>,
    wanted: spec_fn(OptionView) -> bool,
    from: int,
) -> Option<int>
    decreases options.len() - from,
{
    if from >= options.len() {
        None
    } else if wanted(options[from]) {
        Some(from)
    } else {
        first_row(options, wanted, from + 1)
    }
}

/// The last row before `to` that `wanted` holds of.
pub open spec fn last_row(
    options: Seq<OptionView>,
    wanted: spec_fn(OptionView) -> bool,
    to: int,
) -> Option<int>
    decreases to,
{
    if to <= 0 {
        None
    } else if wanted(options[to - 1]) {
        Some(to - 1)
    } else {
        last_row(options, wanted, to - 1)
    }
}

impl PopupView {
    pub open spec fn row_of_selected(self) -> int {
        match first_row(self.options, |o: OptionView| o.index == self.selected_index, 0) {
            Some(row) => row,
            None => 0,
        }
    }

    pub open spec fn first_enabled(self) -> Option<int> {
        first_row(self.options, |o: OptionView| !o.disabled, 0)
    }

    pub open spec fn last_enabled(self) -> Option<int> {
        last_row(self.options, |o: OptionView| !o.disabled, self.options.len() as int)
    }

    /// The first enabled row whose label starts with `prefix`, whatever the case
    /// of ASCII letters.
    pub open spec fn found(self, prefix: Seq<char>) -> Option<int> {
        first_row(
            self.options,
            |o: OptionView|
                !o.disabled && starts_with(ascii_lowercase(o.label), ascii_lowercase(prefix)),
            0,
        )
    }

    /// Committing a row chooses its option; there is none, or it is disabled:
    /// the menu closes.
    pub open spec fn committed(self, row: int) -> SelectCommand {
        if 0 <= row < self.options.len() && !self.options[row].disabled {
            SelectCommand::Choose { index: self.options[row].index }
        } else {
            SelectCommand::Dismiss
        }
    }
}

pub open spec fn as_row(found: Option<usize>) -> Option<int> {
    match found {
        Some(row) => Some(row as int),
        None => None,
    }
}

impl NativeSelectPopup {
    /// The row of the selected option, or the first row if the window does not
    /// hold it.
    pub fn selected_row(&self) -> (row: usize)
        ensures
            row == self@.row_of_selected(),
    {
        let ghost wanted = |o: OptionView| o.index == self@.selected_index;
        let mut i: usize = 0;
        while i < self.options.len()
            invariant
                i <= self.options@.len(),
                wanted == (|o: OptionView| o.index == self@.selected_index),
                first_row(self@.options, wanted, 0) == first_row(self@.options, wanted, i as int),
            decreases self.options@.len() - i,
        {
            assert(self@.options[i as int] == self.options@[i as int]@);
            if self.options[i].index == self.selected_index {
                return i;
            }
            i = i + 1;
        }
        0
    }

    pub fn first_enabled(&self) -> (row: Option<usize>)
        ensures
            as_row(row) == self@.first_enabled(),
            row matches Some(r) ==> r < self.options@.len(),
    {
        let ghost wanted = |o: OptionView| !o.disabled;
        let mut i: usize = 0;
        while i < self.options.len()
            invariant
                i <= self.options@.len(),
                wanted == (|o: OptionView| !o.disabled),
                first_row(self@.options, wanted, 0) == first_row(self@.options, wanted, i as int),
            decreases self.options@.len() - i,
        {
            assert(self@.options[i as int] == self.options@[i as int]@);
            if !self.options[i].disabled {
                return Some(i);
            }
            i = i + 1;
        }
        None
    }

    pub fn last_enabled(&self) -> (row: Option<usize>)
        ensures
            as_row(row) == self@.last_enabled(),
            row matches Some(r) ==> r < self.options@.len(),
    {
        let ghost wanted = |o: OptionView| !o.disabled;
        let mut i: usize = self.options.len();
        while i > 0
            invariant
                i <= self.options@.len(),
                wanted == (|o: OptionView| !o.disabled),
                last_row(self@.options, wanted, self@.options.len() as int) == last_row(
                    self@.options,
                    wanted,
                    i as int,
                ),
            decreases i,
        {
            assert(self@.options[i - 1] == self.options@[i - 1]@);
            if !self.options[i - 1].disabled {
                return Some(i - 1);
            }
            i = i - 1;
        }
        None
    }

    pub fn typeahead_index(&self, prefix: &str) -> (row: Option<usize>)
        ensures
            as_row(row) == self@.found(prefix@),
            row matches Some(r) ==> r < self.options@.len(),
    {
        let ghost wanted = |o: OptionView|
            !o.disabled && starts_with(ascii_lowercase(o.label), ascii_lowercase(prefix@));
        let lower = lowercased(prefix);
        let mut i: usize = 0;
        while i < self.options.len()
            invariant
                i <= self.options@.len(),
                lower@ == ascii_lowercase(prefix@),
                wanted == (|o: OptionView|
                    !o.disabled && starts_with(
                        ascii_lowercase(o.label),
                        ascii_lowercase(prefix@),
                    )),
                first_row(self@.options, wanted, 0) == first_row(self@.options, wanted, i as int),
            decreases self.options@.len() - i,
        {
            assert(self@.options[i as int] == self.options@[i as int]@);
            if !self.options[i].disabled {
                let label = lowercased(self.options[i].label.as_str());
                if has_prefix(label.as_str(), lower.as_str()) {
                    return Some(i);
                }
            }
            i = i + 1;
        }
        None
    }

    pub fn commit_highlight(&self, highlight: usize) -> (command: SelectCommand)
        ensures
            command == self@.committed(highlight as int),
    {
        if highlight < self.options.len() {
            assert(self@.options[highlight as int] == self.options@[highlight as int]@);
            if !self.options[highlight].disabled {
                return SelectCommand::Choose { index: self.options[highlight].index };
            }
        }
        SelectCommand::Dismiss
    }
}

/// What an open menu remembers between frames.
pub struct SelectPopupUi {
    pub css_path: String,
    pub highlight: usize,
    pub typeahead: String,
    pub typeahead_at_ms: u64,
    /// The highlight that was last scrolled to. Asking again every frame would
    /// fight the wheel in a long list.
    pub scrolled_highlight: Option<usize>,
}

pub struct PopupUiView {
    pub css_path: Seq<char>,
    pub highlight: int,
    pub typeahead: Seq<char>,
    pub typeahead_at_ms: u64,
    pub scrolled_highlight: Option<usize>,
}

impl View for SelectPopupUi {
    type V = PopupUiView;

    open spec fn view(&self) -> PopupUiView {
        PopupUiView {
            css_path: self.css_path@,
            highlight: self.highlight as int,
            typeahead: self.typeahead@,
            typeahead_at_ms: self.typeahead_at_ms,
            scrolled_highlight: self.scrolled_highlight,
        }
    }
}

pub open spec fn popup_ui_view(state: Option<SelectPopupUi>) -> Option<PopupUiView> {
    match state {
        Some(open) => Some(open@),
        None => None,
    }
}

pub open spec fn popup_view(popup: Option<&NativeSelectPopup>) -> Option<PopupView> {
    match popup {
        Some(p) => Some(p@),
        None => None,
    }
}

/// A menu that closed is forgotten; another menu starts at its selected row; the
/// same menu keeps its highlight while it has that row.
pub open spec fn synced(state: Option<PopupUiView>, popup: Option<PopupView>) -> Option<PopupUiView> {
    match popup {
        None => None,
        Some(p) => match state {
            Some(open) => if open.css_path == p.css_path {
                if open.highlight >= p.options.len() {
                    Some(
                        PopupUiView {
                            highlight: p.row_of_selected(),
                            scrolled_highlight: None,
                            ..open
                        },
                    )
                } else {
                    Some(open)
                }
            } else {
                Some(fresh(p))
            },
            None => Some(fresh(p)),
        },
    }
}

pub open spec fn fresh(popup: PopupView) -> PopupUiView {
    PopupUiView {
        css_path: popup.css_path,
        highlight: popup.row_of_selected(),
        typeahead: Seq::empty(),
        typeahead_at_ms: 0,
        scrolled_highlight: None,
    }
}

pub fn sync_ui_state(state: &mut Option<SelectPopupUi>, popup: Option<&NativeSelectPopup>)
    ensures
        popup_ui_view(*final(state)) == synced(popup_ui_view(*old(state)), popup_view(popup)),
{
    match popup {
        None => {
            *state = None;
        },
        Some(popup) => {
            let selected: usize = popup.selected_row();
            match state.take() {
                Some(open) => {
                    if same_text(open.css_path.as_str(), popup.css_path.as_str()) {
                        if open.highlight >= popup.options.len() {
                            *state = Some(
                                SelectPopupUi {
                                    css_path: open.css_path,
                                    highlight: selected,
                                    typeahead: open.typeahead,
                                    typeahead_at_ms: open.typeahead_at_ms,
                                    scrolled_highlight: None,
                                },
                            );
                        } else {
                            *state = Some(open);
                        }
                    } else {
                        *state = Some(opened(popup, selected));
                    }
                },
                None => {
                    *state = Some(opened(popup, selected));
                },
            }
        },
    }
}

fn opened(popup: &NativeSelectPopup, selected: usize) -> (open: SelectPopupUi)
    requires
        selected == popup@.row_of_selected(),
    ensures
        open@ == fresh(popup@),
{
    let typeahead = String::new();
    assert(typeahead@ =~= Seq::<char>::empty());
    SelectPopupUi {
        css_path: popup.css_path.clone(),
        highlight: selected,
        typeahead,
        typeahead_at_ms: 0,
        scrolled_highlight: None,
    }
}

#[derive(Clone, Copy, Debug, PartialEq, Eq, Structural)]
pub enum SelectCommand {
    Dismiss,
    Choose { index: u32 },
}

#[derive(Clone, Copy, Debug, PartialEq, Eq, Structural)]
pub struct SelectPopupKey {
    pub key: Option<BrowserKey>,
    pub pressed: bool,
    pub modifiers: Modifiers,
    pub now_ms: u64,
    pub text: Option<char>,
    /// The row that the popup steps to from the highlight in the direction of
    /// an arrow key; below zero where there is none.
    pub stepped: i32,
}

/// What `char::is_alphanumeric` says of a character.
pub uninterp spec fn alphanumeric(c: char) -> bool;

/// `char::is_alphanumeric`: whether Unicode counts the character as a letter or
/// a number. The claim is only that the answer depends on the character alone.
#[verifier::external_body]
fn is_alphanumeric(c: char) -> (yes: bool)
    ensures
        yes == alphanumeric(c),
{
    c.is_alphanumeric()
}

/// A character that a search in the menu may hold.
pub open spec fn searchable(text: Option<char>, letter: bool) -> bool {
    match text {
        Some(c) => letter || c == ' ',
        None => false,
    }
}

pub open spec fn text_is_letter(text: Option<char>) -> bool {
    match text {
        Some(c) => alphanumeric(c),
        None => false,
    }
}

impl PopupUiView {
    /// One more character of a search.
    pub open spec fn typed(self, popup: PopupView, c: char, now_ms: u64) -> PopupUiView {
        let typeahead = (if now_ms - self.typeahead_at_ms > TYPEAHEAD_MS {
            Seq::empty()
        } else {
            self.typeahead
        }).push(c);
        PopupUiView {
            typeahead,
            typeahead_at_ms: now_ms,
            highlight: match popup.found(typeahead) {
                Some(row) => row,
                None => self.highlight,
            },
            ..self
        }
    }

    /// What a key press does to the menu, what it tells the page, and whether
    /// the page must not see the key. `letter` says whether its text is one.
    pub open spec fn key(self, popup: PopupView, event: SelectPopupKey, letter: bool) -> (
        PopupUiView,
        Option<SelectCommand>,
        bool,
    ) {
        let plain = !event.modifiers.ctrl && !event.modifiers.mac_cmd;
        let stepped = PopupUiView {
            highlight: if event.stepped > 0 {
                event.stepped as int
            } else {
                0
            },
            ..self
        };
        match event.key {
            Some(BrowserKey::Escape) => (self, Some(SelectCommand::Dismiss), true),
            Some(BrowserKey::Enter) | Some(BrowserKey::Space) => (
                self,
                Some(popup.committed(self.highlight)),
                true,
            ),
            Some(BrowserKey::Home) => (
                PopupUiView {
                    highlight: match popup.first_enabled() {
                        Some(row) => row,
                        None => self.highlight,
                    },
                    ..self
                },
                None,
                true,
            ),
            Some(BrowserKey::End) => (
                PopupUiView {
                    highlight: match popup.last_enabled() {
                        Some(row) => row,
                        None => self.highlight,
                    },
                    ..self
                },
                None,
                true,
            ),
            Some(BrowserKey::Tab) => (self, Some(popup.committed(self.highlight)), false),
            _ => if plain && (event.key == Some(BrowserKey::ArrowDown) || event.key == Some(
                BrowserKey::ArrowUp,
            )) {
                (stepped, None, true)
            } else if searchable(event.text, letter) && plain && !event.modifiers.alt {
                (self.typed(popup, event.text->0, event.now_ms), None, true)
            } else {
                (self, None, false)
            },
        }
    }
}

/// The same over a menu that may not be open; a release does nothing.
pub open spec fn key_result(
    state: Option<PopupUiView>,
    popup: PopupView,
    event: SelectPopupKey,
    letter: bool,
) -> (Option<PopupUiView>, Option<SelectCommand>, bool) {
    match state {
        Some(open) => if event.pressed {
            let (after, command, done) = open.key(popup, event, letter);
            (Some(after), command, done)
        } else {
            (state, None, false)
        },
        None => (state, None, false),
    }
}

/// A key for an open menu. Says what the page is told, and whether the key is
/// done.
pub fn handle_key(
    state: &mut Option<SelectPopupUi>,
    popup: &NativeSelectPopup,
    event: SelectPopupKey,
) -> (out: (Option<SelectCommand>, bool))
    ensures
        (popup_ui_view(*final(state)), out.0, out.1) == key_result(
            popup_ui_view(*old(state)),
            popup@,
            event,
            text_is_letter(event.text),
        ),
{
    let letter = match event.text {
        Some(c) => is_alphanumeric(c),
        None => false,
    };
    handle_classified_key(state, popup, event, letter)
}

/// The same, where it is known whether the key's text is a letter or a number.
pub fn handle_classified_key(
    state: &mut Option<SelectPopupUi>,
    popup: &NativeSelectPopup,
    event: SelectPopupKey,
    letter: bool,
) -> (out: (Option<SelectCommand>, bool))
    ensures
        (popup_ui_view(*final(state)), out.0, out.1) == key_result(
            popup_ui_view(*old(state)),
            popup@,
            event,
            letter,
        ),
{
    if !event.pressed {
        return (None, false);
    }
    match state.take() {
        None => (None, false),
        Some(open) => {
            let mut open = open;
            let out = open.pressed(popup, event, letter);
            *state = Some(open);
            out
        },
    }
}

impl SelectPopupUi {
    fn pressed(&mut self, popup: &NativeSelectPopup, event: SelectPopupKey, letter: bool) -> (out: (
        Option<SelectCommand>,
        bool,
    ))
        ensures
            (final(self)@, out.0, out.1) == old(self)@.key(popup@, event, letter),
    {
        let plain = !event.modifiers.ctrl && !event.modifiers.mac_cmd;
        match event.key {
            Some(BrowserKey::Escape) => {
                return (Some(SelectCommand::Dismiss), true);
            },
            Some(BrowserKey::Enter) | Some(BrowserKey::Space) => {
                return (Some(popup.commit_highlight(self.highlight)), true);
            },
            Some(BrowserKey::Home) => {
                if let Some(row) = popup.first_enabled() {
                    self.highlight = row;
                }
                return (None, true);
            },
            Some(BrowserKey::End) => {
                if let Some(row) = popup.last_enabled() {
                    self.highlight = row;
                }
                return (None, true);
            },
            Some(BrowserKey::Tab) => {
                return (Some(popup.commit_highlight(self.highlight)), false);
            },
            Some(BrowserKey::ArrowDown) | Some(BrowserKey::ArrowUp) => {
                if plain {
                    self.highlight = if event.stepped > 0 {
                        event.stepped as usize
                    } else {
                        0
                    };
                    return (None, true);
                }
            },
            _ => {},
        }
        if let Some(c) = event.text {
            if (letter || c == ' ') && plain && !event.modifiers.alt {
                if event.now_ms > self.typeahead_at_ms && event.now_ms - self.typeahead_at_ms
                    > TYPEAHEAD_MS {
                    self.typeahead = String::new();
                }
                let ghost kept = self.typeahead@;
                assert(kept =~= if event.now_ms - old(self).typeahead_at_ms > TYPEAHEAD_MS {
                    Seq::<char>::empty()
                } else {
                    old(self).typeahead@
                });
                self.typeahead.push(c);
                self.typeahead_at_ms = event.now_ms;
                if let Some(row) = popup.typeahead_index(self.typeahead.as_str()) {
                    self.highlight = row;
                }
                return (None, true);
            }
        }
        (None, false)
    }

    /// The row to bring into view, once for each new highlight that the menu
    /// paints.
    pub fn take_scroll(&mut self, rows: usize) -> (row: Option<usize>)
        ensures
            ({
                let asks = old(self).highlight < rows && old(self).scrolled_highlight != Some(
                    old(self).highlight,
                );
                &&& row == if asks {
                    Some(old(self).highlight)
                } else {
                    None::<usize>
                }
                &&& final(self)@ == if asks {
                    PopupUiView {
                        scrolled_highlight: Some(old(self).highlight),
                        ..old(self)@
                    }
                } else {
                    old(self)@
                }
            }),
    {
        let again = match self.scrolled_highlight {
            Some(row) => row == self.highlight,
            None => false,
        };
        if self.highlight < rows && !again {
            self.scrolled_highlight = Some(self.highlight);
            Some(self.highlight)
        } else {
            None
        }
    }
}

/// A line of the painted menu.
#[derive(Clone, Copy, Debug, PartialEq, Eq, Structural)]
pub enum MenuLine {
    /// The heading of the group that this row's option starts.
    Group { row: usize },
    Choice { row: usize },
}

pub open spec fn group_before(options: Seq<OptionView>, row: int) -> Option<Seq<char>> {
    if row <= 0 {
        None
    } else {
        options[row - 1].group
    }
}

/// The lines of the first `n` rows: each row, after a heading where its group
/// is named and not that of the row before.
pub open spec fn menu_lines(options: Seq<OptionView>, n: int) -> Seq<MenuLine>
    decreases n,
{
    if n <= 0 {
        Seq::empty()
    } else {
        let rest = menu_lines(options, n - 1);
        let headed = if options[n - 1].group is Some && options[n - 1].group != group_before(
            options,
            n - 1,
        ) {
            rest.push(MenuLine::Group { row: (n - 1) as usize })
        } else {
            rest
        };
        headed.push(MenuLine::Choice { row: (n - 1) as usize })
    }
}

fn same_group(a: &Option<String>, b: &Option<String>) -> (same: bool)
    ensures
        same == (opt_text(*a) == opt_text(*b)),
{
    match (a, b) {
        (Some(a), Some(b)) => same_text(a.as_str(), b.as_str()),
        (None, None) => true,
        _ => false,
    }
}

impl NativeSelectPopup {
    pub fn lines(&self) -> (lines: Vec<MenuLine>)
        ensures
            lines@ == menu_lines(self@.options, self@.options.len() as int),
    {
        let mut lines: Vec<MenuLine> = Vec::new();
        assert(lines@ =~= menu_lines(self@.options, 0));
        let mut i: usize = 0;
        while i < self.options.len()
            invariant
                i <= self.options@.len(),
                lines@ == menu_lines(self@.options, i as int),
            decreases self.options@.len() - i,
        {
            assert(self@.options[i as int] == self.options@[i as int]@);
            if self.options[i].group.is_some() {
                let repeated = if i == 0 {
                    false
                } else {
                    assert(self@.options[i - 1] == self.options@[i - 1]@);
                    same_group(&self.options[i].group, &self.options[i - 1].group)
                };
                if !repeated {
                    lines.push(MenuLine::Group { row: i });
                }
            }
            lines.push(MenuLine::Choice { row: i });
            i = i + 1;
        }
        lines
    }

    /// A click chooses an enabled option and does nothing on a disabled one.
    pub fn clicked(&self, row: usize) -> (command: Option<SelectCommand>)
        requires
            row < self.options@.len(),
        ensures
            command == if self@.options[row as int].disabled {
                None
            } else {
                Some(SelectCommand::Choose { index: self@.options[row as int].index })
            },
    {
        assert(self@.options[row as int] == self.options@[row as int]@);
        if self.options[row].disabled {
            None
        } else {
            Some(SelectCommand::Choose { index: self.options[row].index })
        }
    }
}

/// The rectangle of the menu, in thousandths of a point.
#[derive(Clone, Copy, Debug, PartialEq, Eq, Structural)]
pub struct SelectMenuLayout {
    pub left: i64,
    pub top: i64,
    pub width: i64,
    pub height: i64,
}

impl SelectMenuLayout {
    pub open spec fn covers(self, p: Pos) -> bool {
        self.left <= p.x <= self.left + self.width && self.top <= p.y <= self.top + self.height
    }

    pub fn contains(self, pos: Pos) -> (yes: bool)
        ensures
            yes == self.covers(pos),
    {
        let x: i128 = pos.x as i128;
        let y: i128 = pos.y as i128;
        let (left, top): (i128, i128) = (self.left as i128, self.top as i128);
        left <= x && x <= left + self.width as i128 && top <= y && y <= top + self.height as i128
    }
}

/// A length on the page, as long as it is painted when `frame` page pixels are
/// painted `shown` wide.
pub open spec fn painted(v: int, frame: u16, shown: int) -> int {
    v * shown / (frame as int * 1000)
}

fn paint_length(v: i64, frame: u16, shown: i64) -> (p: i64)
    requires
        frame > 0,
        i32::MIN <= v <= u32::MAX,
        0 <= shown <= u32::MAX,
    ensures
        p == painted(v as int, frame, shown as int),
        -0x80_0000_0000_0000 <= p <= 0x80_0000_0000_0000,
        v >= 0 ==> p >= 0,
{
    let n: i128 = v as i128;
    let s: i128 = shown as i128;
    assert(-0x8000_0000 * 0xffff_ffff <= n * s <= 0xffff_ffff * 0xffff_ffff) by (nonlinear_arith)
        requires
            -0x8000_0000 <= n <= 0xffff_ffff,
            0 <= s <= 0xffff_ffff,
    ;
    let d: i128 = frame as i128 * 1000;
    let product: i128 = n * s;
    let q: i128 = if product >= 0 {
        product / d
    } else {
        let up: i128 = (-product + (d - 1)) / d;
        assert(-up == product / d) by (nonlinear_arith)
            requires
                d >= 1,
                up == (-product + (d - 1)) / d as int,
        ;
        -up
    };
    assert(q == product / d);
    assert(-0x80_0000_0000_0000 <= q <= 0x80_0000_0000_0000) by (nonlinear_arith)
        requires
            q == product / d,
            d >= 1000,
            -0x8000_0000 * 0xffff_ffff <= product <= 0xffff_ffff * 0xffff_ffff,
    ;
    assert(v >= 0 ==> q >= 0) by (nonlinear_arith)
        requires
            q == product / d,
            d >= 1000,
            product == n * s,
            n == v,
            s >= 0,
    ;
    q as i64
}

pub open spec fn low(a: int, b: int) -> int {
    if a <= b {
        a
    } else {
        b
    }
}

pub open spec fn high(a: int, b: int) -> int {
    if a >= b {
        a
    } else {
        b
    }
}

fn low_of(a: i64, b: i64) -> (m: i64)
    ensures
        m == low(a as int, b as int),
{
    if a <= b {
        a
    } else {
        b
    }
}

fn high_of(a: i64, b: i64) -> (m: i64)
    ensures
        m == high(a as int, b as int),
{
    if a >= b {
        a
    } else {
        b
    }
}

/// How tall the menu is: its options, a menu's most, or the picture.
pub open spec fn menu_height(image: ScreenRect, rows: int) -> int {
    low(
        low(OPTION_HEIGHT * high(rows, 1) + MENU_PADDING * 2, MAX_MENU_HEIGHT as int),
        image.max_y - image.min_y,
    )
}

pub open spec fn menu_width(image: ScreenRect, frame_width: u16, bounds: BrowserBounds) -> int {
    let shown = image.max_x - image.min_x;
    low(high(painted(bounds.width as int, frame_width, shown), MIN_MENU_WIDTH as int), shown)
}

/// The menu starts where the control does, moved left where it would leave the
/// picture.
pub open spec fn menu_left(image: ScreenRect, frame_width: u16, bounds: BrowserBounds) -> int {
    let width = menu_width(image, frame_width, bounds);
    let left = high(
        image.min_x + painted(bounds.x as int, frame_width, image.max_x - image.min_x),
        image.min_x as int,
    );
    if left + width > image.max_x {
        high(image.max_x - width, image.min_x as int)
    } else {
        left
    }
}

/// Below the control where there is room or none above either; else above it.
pub open spec fn menu_top(
    image: ScreenRect,
    frame_height: u16,
    bounds: BrowserBounds,
    rows: int,
) -> int {
    let shown = image.max_y - image.min_y;
    let height = menu_height(image, rows);
    let control_top = image.min_y + painted(bounds.y as int, frame_height, shown);
    let control_bottom = control_top + painted(bounds.height as int, frame_height, shown);
    let below = control_bottom + MENU_GAP;
    let above = control_top - height - MENU_GAP;
    if below + height <= image.max_y || above < image.min_y {
        high(low(below, image.max_y - height), image.min_y as int)
    } else {
        high(above, image.min_y as int)
    }
}

/// Where the menu is painted over a picture of `frame_width` by `frame_height`
/// page pixels; nowhere over a picture without any.
pub fn menu_layout(
    image: ScreenRect,
    frame_width: u16,
    frame_height: u16,
    popup: &NativeSelectPopup,
) -> (layout: Option<SelectMenuLayout>)
    requires
        image.min_x <= image.max_x,
        image.min_y <= image.max_y,
    ensures
        layout is None <==> frame_width == 0 || frame_height == 0,
        layout matches Some(l) ==> {
            &&& l.left == menu_left(image, frame_width, popup@.bounds)
            &&& l.top == menu_top(image, frame_height, popup@.bounds, popup@.options.len() as int)
            &&& l.width == menu_width(image, frame_width, popup@.bounds)
            &&& l.height == menu_height(image, popup@.options.len() as int)
        },
{
    if frame_width == 0 || frame_height == 0 {
        return None;
    }
    let min_x: i64 = image.min_x as i64;
    let min_y: i64 = image.min_y as i64;
    let max_x: i64 = image.max_x as i64;
    let max_y: i64 = image.max_y as i64;
    let shown_x: i64 = max_x - min_x;
    let shown_y: i64 = max_y - min_y;
    let rows: usize = popup.options.len();
    // Ten rows and the padding already pass a menu's most.
    let height: i64 = if rows >= 10 {
        low_of(MAX_MENU_HEIGHT, shown_y)
    } else {
        let lines: i64 = if rows == 0 {
            1
        } else {
            rows as i64
        };
        low_of(low_of(OPTION_HEIGHT * lines + MENU_PADDING * 2, MAX_MENU_HEIGHT), shown_y)
    };
    let width: i64 = low_of(
        high_of(paint_length(popup.bounds.width as i64, frame_width, shown_x), MIN_MENU_WIDTH),
        shown_x,
    );
    let start: i64 = high_of(
        min_x + paint_length(popup.bounds.x as i64, frame_width, shown_x),
        min_x,
    );
    let left: i64 = if start + width > max_x {
        high_of(max_x - width, min_x)
    } else {
        start
    };
    let control_top: i64 = min_y + paint_length(popup.bounds.y as i64, frame_height, shown_y);
    let control_bottom: i64 = control_top + paint_length(
        popup.bounds.height as i64,
        frame_height,
        shown_y,
    );
    let below: i64 = control_bottom + MENU_GAP;
    let above: i64 = control_top - height - MENU_GAP;
    let top: i64 = if below + height <= max_y || above < min_y {
        high_of(low_of(below, max_y - height), min_y)
    } else {
        high_of(above, min_y)
    };
    Some(SelectMenuLayout { left, top, width, height })
}

/// The menu of a control that is in the picture is in the picture too.
pub proof fn law_menus_stay_in_the_picture(
    image: ScreenRect,
    frame_width: u16,
    frame_height: u16,
    bounds: BrowserBounds,
    rows: int,
)
    requires
        image.min_x <= image.max_x,
        image.min_y <= image.max_y,
        frame_width > 0,
        frame_height > 0,
        rows >= 0,
        image.min_y + painted(bounds.y as int, frame_height, image.max_y - image.min_y)
            <= image.max_y,
    ensures
        image.min_x <= menu_left(image, frame_width, bounds),
        menu_left(image, frame_width, bounds) + menu_width(image, frame_width, bounds)
            <= image.max_x,
        image.min_y <= menu_top(image, frame_height, bounds, rows),
        menu_top(image, frame_height, bounds, rows) + menu_height(image, rows) <= image.max_y,
{
}

/// Synchronising leaves the highlight on a row that the menu has, if it has
/// any.
pub proof fn law_highlights_are_rows(state: Option<PopupUiView>, popup: PopupView)
    requires
        popup.options.len() > 0,
        state matches Some(open) ==> open.highlight >= 0,
    ensures
        synced(state, Some(popup)) is Some,
        0 <= synced(state, Some(popup))->0.highlight < popup.options.len(),
{
    lemma_first_row(popup.options, |o: OptionView| o.index == popup.selected_index, 0);
}

proof fn lemma_first_row(options: Seq<OptionView>, wanted: spec_fn(OptionView) -> bool, from: int)
    requires
        0 <= from,
    ensures
        first_row(options, wanted, from) matches Some(row) ==> from <= row < options.len(),
    decreases options.len() - from,
{
    if from < options.len() {
        lemma_first_row(options, wanted, from + 1);
    }
}

proof fn lemma_rows(options: Seq<OptionView>, wanted: spec_fn(OptionView) -> bool, from: int)
    requires
        0 <= from <= options.len(),
    ensures
        match first_row(options, wanted, from) {
            Some(row) => from <= row < options.len() && wanted(options[row]) && forall|k: int|
                from <= k < row ==> !wanted(#[trigger] options[k]),
            None => forall|k: int|
                from <= k < options.len() ==> !wanted(#[trigger] options[k]),
        },
    decreases options.len() - from,
{
    if from < options.len() {
        lemma_rows(options, wanted, from + 1);
    }
}

proof fn lemma_last_rows(options: Seq<OptionView>, wanted: spec_fn(OptionView) -> bool, to: int)
    requires
        0 <= to <= options.len(),
    ensures
        match last_row(options, wanted, to) {
            Some(row) => 0 <= row < to && wanted(options[row]) && forall|k: int|
                row < k < to ==> !wanted(#[trigger] options[k]),
            None => forall|k: int| 0 <= k < to ==> !wanted(#[trigger] options[k]),
        },
    decreases to,
{
    if to > 0 {
        lemma_last_rows(options, wanted, to - 1);
    }
}

/// The first and the last row that can be chosen have none that can before and
/// after them; there is neither where none can.
pub proof fn law_ends_can_be_chosen(popup: PopupView, k: int)
    requires
        0 <= k < popup.options.len(),
        !popup.options[k].disabled,
    ensures
        popup.first_enabled() matches Some(first) && 0 <= first <= k
            && !popup.options[first].disabled,
        popup.last_enabled() matches Some(last) && k <= last < popup.options.len()
            && !popup.options[last].disabled,
{
    lemma_rows(popup.options, |o: OptionView| !o.disabled, 0);
    lemma_last_rows(
        popup.options,
        |o: OptionView| !o.disabled,
        popup.options.len() as int,
    );
}

/// A menu starts at the first row whose option is the selected one, and at the
/// first of all where none is.
pub proof fn law_menus_start_at_the_selected_option(popup: PopupView, k: int)
    requires
        0 <= k < popup.options.len(),
    ensures
        popup.options[k].index == popup.selected_index ==> 0 <= popup.row_of_selected() <= k
            && popup.options[popup.row_of_selected()].index == popup.selected_index,
        (forall|j: int|
            0 <= j < popup.options.len() ==> (#[trigger] popup.options[j]).index
                != popup.selected_index) ==> popup.row_of_selected() == 0,
        fresh(popup).highlight == popup.row_of_selected(),
        fresh(popup).typeahead.len() == 0,
        fresh(popup).css_path == popup.css_path,
{
    lemma_rows(popup.options, |o: OptionView| o.index == popup.selected_index, 0);
}

/// A search finds the first row that can be chosen and starts with it, in small
/// letters or capitals.
pub proof fn law_searches_find_the_first_that_starts_so(
    popup: PopupView,
    prefix: Seq<char>,
    k: int,
)
    requires
        0 <= k < popup.options.len(),
        !popup.options[k].disabled,
        prefix.len() <= popup.options[k].label.len(),
        ascii_lowercase(popup.options[k].label).take(prefix.len() as int) == ascii_lowercase(
            prefix,
        ),
    ensures
        popup.found(prefix) matches Some(row) && 0 <= row <= k && !popup.options[row].disabled
            && starts_with(ascii_lowercase(popup.options[row].label), ascii_lowercase(prefix)),
{
    let wanted = |o: OptionView|
        !o.disabled && starts_with(ascii_lowercase(o.label), ascii_lowercase(prefix));
    lemma_rows(popup.options, wanted, 0);
    assert(wanted(popup.options[k]));
}

/// A row that can be chosen is chosen by its option's index; any other closes the
/// menu.
pub proof fn law_rows_choose_their_option(popup: PopupView, row: int)
    ensures
        0 <= row < popup.options.len() && !popup.options[row].disabled ==> popup.committed(row)
            == (SelectCommand::Choose { index: popup.options[row].index }),
        0 <= row < popup.options.len() && popup.options[row].disabled ==> popup.committed(row)
            is Dismiss,
        row < 0 || row >= popup.options.len() ==> popup.committed(row) is Dismiss,
{
}

/// Escape closes the menu, Enter and Space choose, Tab chooses and goes on to the
/// page, Home and End go to the ends, and the arrows step.
pub proof fn law_keys_do_what_they_say(
    open: PopupUiView,
    popup: PopupView,
    event: SelectPopupKey,
    letter: bool,
)
    ensures
        ({
            let (after, command, done) = open.key(popup, event, letter);
            let plain = !event.modifiers.ctrl && !event.modifiers.mac_cmd;
            &&& event.key == Some(BrowserKey::Escape) ==> command == Some(SelectCommand::Dismiss)
                && done && after == open
            &&& event.key == Some(BrowserKey::Enter) || event.key == Some(BrowserKey::Space)
                ==> command == Some(popup.committed(open.highlight)) && done && after == open
            &&& event.key == Some(BrowserKey::Tab) ==> command == Some(
                popup.committed(open.highlight),
            ) && !done && after == open
            &&& event.key == Some(BrowserKey::Home) ==> command is None && done && (
            popup.first_enabled() matches Some(row) ==> after.highlight == row)
            &&& event.key == Some(BrowserKey::End) ==> command is None && done && (
            popup.last_enabled() matches Some(row) ==> after.highlight == row)
            &&& (event.key == Some(BrowserKey::ArrowDown) || event.key == Some(
                BrowserKey::ArrowUp,
            )) && plain ==> command is None && done && after.highlight == (if event.stepped >= 0 {
                event.stepped as int
            } else {
                0
            })
            &&& after.css_path == open.css_path
        }),
{
}

/// A letter, a number or a space that is typed plainly goes on with the search,
/// or begins a new one after a second.
pub proof fn law_letters_go_on_with_the_search(
    open: PopupUiView,
    popup: PopupView,
    event: SelectPopupKey,
    letter: bool,
    c: char,
)
    requires
        event.key is None,
        event.text == Some(c),
    ensures
        ({
            let (after, command, done) = open.key(popup, event, letter);
            let typed = (letter || c == ' ') && !event.modifiers.ctrl && !event.modifiers.mac_cmd
                && !event.modifiers.alt;
            &&& command is None
            &&& done == typed
            &&& !typed ==> after == open
            &&& typed ==> after.typeahead_at_ms == event.now_ms
            &&& typed && event.now_ms <= open.typeahead_at_ms + 1_000 ==> after.typeahead
                == open.typeahead.push(c)
            &&& typed && event.now_ms > open.typeahead_at_ms + 1_000 ==> after.typeahead == seq![c]
            &&& typed ==> (popup.found(after.typeahead) matches Some(row) ==> after.highlight
                == row)
            &&& typed && popup.found(after.typeahead) is None ==> after.highlight
                == open.highlight
        }),
{
    assert(Seq::<char>::empty().push(c) =~= seq![c]);
}

/// A release, and a key without a menu, do nothing.
pub proof fn law_only_presses_count(
    state: Option<PopupUiView>,
    popup: PopupView,
    event: SelectPopupKey,
    letter: bool,
)
    ensures
        !event.pressed || state is None ==> key_result(state, popup, event, letter) == (
            state,
            None::<SelectCommand>,
            false,
        ),
        event.pressed && state is Some ==> ({
            let (after, command, done) = state->0.key(popup, event, letter);
            key_result(state, popup, event, letter) == (Some(after), command, done)
        }),
{
}

/// The same menu keeps its highlight while it has that row; another starts anew,
/// and one that closed is forgotten.
pub proof fn law_menus_keep_their_highlight(open: PopupUiView, popup: PopupView)
    ensures
        synced(Some(open), None) is None,
        open.css_path == popup.css_path && open.highlight < popup.options.len() ==> synced(
            Some(open),
            Some(popup),
        ) == Some(open),
        open.css_path == popup.css_path && open.highlight >= popup.options.len() ==> (synced(
            Some(open),
            Some(popup),
        ) matches Some(after) && after.highlight == popup.row_of_selected() && after.typeahead
            == open.typeahead && after.scrolled_highlight is None),
        open.css_path != popup.css_path ==> synced(Some(open), Some(popup)) == Some(fresh(popup)),
        synced(None, Some(popup)) == Some(fresh(popup)),
{
}

/// A menu has 28 points for each option and 8 around them, at most 280, and at
/// most the picture; it is as wide as its control, at least 168 points, and at
/// most the picture.
pub proof fn law_menus_have_room_for_their_options(
    image: ScreenRect,
    frame_width: u16,
    bounds: BrowserBounds,
    rows: int,
)
    requires
        image.min_x <= image.max_x,
        image.min_y <= image.max_y,
        rows >= 0,
    ensures
        ({
            let tall = image.max_y - image.min_y;
            let wide = image.max_x - image.min_x;
            let height = menu_height(image, rows);
            let width = menu_width(image, frame_width, bounds);
            &&& height <= tall && height <= 280_000
            &&& 1 <= rows <= 9 && tall >= 280_000 ==> height == 28_000 * rows + 8_000
            &&& rows == 0 && tall >= 36_000 ==> height == 36_000
            &&& rows >= 10 && tall >= 280_000 ==> height == 280_000
            &&& width <= wide
            &&& wide >= 168_000 ==> width >= 168_000
            &&& 168_000 <= painted(bounds.width as int, frame_width, wide) <= wide ==> width
                == painted(bounds.width as int, frame_width, wide)
        }),
{
}

/// A menu starts two points under its control, or ends two points above where
/// there is room only there, and begins where the control does, if it fits.
pub proof fn law_menus_open_beside_their_control(
    image: ScreenRect,
    frame_width: u16,
    frame_height: u16,
    bounds: BrowserBounds,
    rows: int,
)
    requires
        image.min_x <= image.max_x,
        image.min_y <= image.max_y,
        rows >= 0,
    ensures
        ({
            let tall = image.max_y - image.min_y;
            let wide = image.max_x - image.min_x;
            let control_top = image.min_y + painted(bounds.y as int, frame_height, tall);
            let control_bottom = control_top + painted(bounds.height as int, frame_height, tall);
            let control_left = image.min_x + painted(bounds.x as int, frame_width, wide);
            let top = menu_top(image, frame_height, bounds, rows);
            let height = menu_height(image, rows);
            let left = menu_left(image, frame_width, bounds);
            let width = menu_width(image, frame_width, bounds);
            &&& image.min_y <= control_bottom + 2_000 && control_bottom + 2_000 + height
                <= image.max_y ==> top == control_bottom + 2_000
            &&& control_bottom + 2_000 + height > image.max_y && image.min_y + height + 2_000
                <= control_top ==> top + height + 2_000 == control_top
            &&& image.min_x <= control_left && control_left + width <= image.max_x ==> left
                == control_left
            &&& control_left + width > image.max_x && image.min_x <= control_left ==> left + width
                == image.max_x
        }),
{
}

/// A length on the page takes the same part of the picture.
pub proof fn law_lengths_keep_their_part(v: int, frame: u16, shown: int)
    requires
        frame > 0,
    ensures
        ({
            let at = painted(v, frame, shown);
            frame * 1000 * at <= v * shown < frame * 1000 * at + frame * 1000
        }),
{
    vstd::arithmetic::div_mod::lemma_fundamental_div_mod(v * shown, frame * 1000);
    vstd::arithmetic::div_mod::lemma_mod_bound(v * shown, frame * 1000);
}

/// Every row has its line, in order, and a heading before it just where its group
/// is named and another than that of the row before.
pub proof fn law_rows_stand_under_their_group(options: Seq<OptionView>, n: int)
    requires
        0 < n <= options.len(),
        options.len() <= usize::MAX,
    ensures
        ({
            let lines = menu_lines(options, n);
            let before = menu_lines(options, n - 1);
            let headed = options[n - 1].group is Some && (n == 1 || options[n - 1].group
                != options[n - 2].group);
            &&& lines.last() == (MenuLine::Choice { row: (n - 1) as usize })
            &&& !headed ==> lines.len() == before.len() + 1
            &&& headed ==> lines.len() == before.len() + 2 && lines[before.len() as int]
                == (MenuLine::Group { row: (n - 1) as usize })
            &&& lines.take(before.len() as int) =~= before
            &&& menu_lines(options, 0).len() == 0
        }),
{
}

/// A point is on the menu where it is between its edges.
pub proof fn law_menus_cover_their_rectangle(menu: SelectMenuLayout, p: Pos)
    ensures
        menu.covers(p) <==> menu.left <= p.x && p.x <= menu.left + menu.width && menu.top <= p.y
            && p.y <= menu.top + menu.height,
{
}

/// What is said of an option is said of what it holds.
pub proof fn law_native_select_option_is_seen_as_it_is(value: NativeSelectOption)
    ensures
        value@.index == value.index,
        value@.label == value.label@,
        value@.group == opt_text(value.group),
        value@.disabled == value.disabled,
        value@.selected == value.selected,
{
}

/// What is said of an open menu is said of what it holds.
pub proof fn law_select_popup_ui_is_seen_as_it_is(value: SelectPopupUi)
    ensures
        value@.css_path == value.css_path@,
        value@.highlight == value.highlight as int,
        value@.typeahead == value.typeahead@,
        value@.typeahead_at_ms == value.typeahead_at_ms,
        value@.scrolled_highlight == value.scrolled_highlight,
{
}

/// What is said of a menu is said of what it holds.
pub proof fn law_native_select_popup_is_seen_as_it_is(value: NativeSelectPopup, k: int)
    requires
        0 <= k < value.options@.len(),
    ensures
        value@.css_path == value.css_path@,
        value@.selected_index == value.selected_index,
        value@.bounds == value.bounds,
        value@.options.len() == value.options@.len(),
        value@.options[k] == value.options@[k]@,
        popup_view(Some(&value)) == Some(value@),
        popup_view(None) is None,
        popup_ui_view(None) is None,
{
}

/// An open menu is seen as it is, and a closed one as none.
pub proof fn law_open_menus_are_seen_as_they_are(open: SelectPopupUi)
    ensures
        popup_ui_view(Some(open)) == Some(open@),
        as_row(None) is None,
        as_row(Some(open.highlight)) == Some(open@.highlight),
{
}

} // verus!
