//! Keyboard, input method, clipboard and browser-shortcut routing.
use vstd::multiset::Multiset;
use vstd::prelude::*;

use super::keys::{
    has_key, insert_key, lemma_without_key, remove_key, with_key, without_key, BrowserKey,
    BrowserModifiers,
};
use crate::modifiers::Modifiers;
use crate::text::{chars_of, copy_opt, opt_text};

verus! {

#[derive(Clone, Copy, Debug, PartialEq, Eq, Structural)]
pub enum BrowserEditCommand {
    Copy,
    Cut,
    SelectAll,
}

/// What the page's backend is asked to do.
pub enum BrowserCommand {
    Reload,
    InsertText(String),
    KeyDown {
        key: BrowserKey,
        text: Option<String>,
        modifiers: BrowserModifiers,
        repeat: bool,
        edit_command: Option<BrowserEditCommand>,
    },
    KeyUp { key: BrowserKey, text: Option<String>, modifiers: BrowserModifiers },
}

/// What a command says.
pub enum CommandView {
    Reload,
    InsertText(Seq<char>),
    KeyDown {
        key: BrowserKey,
        text: Option<Seq<char>>,
        modifiers: BrowserModifiers,
        repeat: bool,
        edit_command: Option<BrowserEditCommand>,
    },
    KeyUp { key: BrowserKey, text: Option<Seq<char>>, modifiers: BrowserModifiers },
}

impl View for BrowserCommand {
    type V = CommandView;

    open spec fn view(&self) -> CommandView {
        match self {
            BrowserCommand::Reload => CommandView::Reload,
            BrowserCommand::InsertText(text) => CommandView::InsertText(text@),
            BrowserCommand::KeyDown { key, text, modifiers, repeat, edit_command } =>
                CommandView::KeyDown {
                key: *key,
                text: opt_text(*text),
                modifiers: *modifiers,
                repeat: *repeat,
                edit_command: *edit_command,
            },
            BrowserCommand::KeyUp { key, text, modifiers } => CommandView::KeyUp {
                key: *key,
                text: opt_text(*text),
                modifiers: *modifiers,
            },
        }
    }
}

pub open spec fn command_views(commands: Seq<BrowserCommand>) -> Seq<CommandView> {
    commands.map_values(|c: BrowserCommand| c@)
}

/// A binding of the application that a key event matches.
#[derive(Clone, Copy, Debug, PartialEq, Eq, Structural)]
pub enum BoundShortcut {
    SaveEditor,
    ExitFullscreenPanel,
    Other,
}

/// A key event as the page sees it. `predicted` is the character that the key
/// gives on a plain layout, Shift counted in.
pub struct KeyEvent {
    /// Missing where the page does not know the key.
    pub key: Option<BrowserKey>,
    pub pressed: bool,
    pub repeat: bool,
    pub modifiers: Modifiers,
    pub shortcuts: Vec<BoundShortcut>,
    pub predicted: Option<char>,
}

pub enum PageEvent {
    Text(String),
    ImeCommit(String),
    /// What an input method is composing; empty once that is dismissed.
    ImePreedit(String),
    Paste(String),
    Copy,
    Cut,
    Key(KeyEvent),
    Other,
}

/// A key that the page has been told is down.
pub struct PressedKey {
    pub key: BrowserKey,
    pub text: Option<String>,
}

/// What the keyboard side of a page remembers.
pub struct KeyState {
    pub pressed: Vec<PressedKey>,
    /// Keys whose press went to the application; their release must not reach
    /// the page.
    pub suppressed: Vec<BrowserKey>,
    /// Keys whose chord was sent as a whole; their release is done.
    pub clipboard: Vec<BrowserKey>,
    /// Enter went down in the URL bar and has not come up.
    pub url_submit_enter_pending: bool,
    /// An input method holds text that is neither committed nor dismissed.
    pub ime_composing: bool,
}

/// The same, as a value.
pub struct KeyView {
    pub pressed: Seq<(BrowserKey, Option<Seq<char>>)>,
    pub suppressed: Seq<BrowserKey>,
    pub clipboard: Seq<BrowserKey>,
    pub url_submit_enter_pending: bool,
    pub ime_composing: bool,
}

pub open spec fn pressed_views(list: Seq<PressedKey>) -> Seq<(BrowserKey, Option<Seq<char>>)> {
    list.map_values(|p: PressedKey| (p.key, opt_text(p.text)))
}

impl View for KeyState {
    type V = KeyView;

    open spec fn view(&self) -> KeyView {
        KeyView {
            pressed: pressed_views(self.pressed@),
            suppressed: self.suppressed@,
            clipboard: self.clipboard@,
            url_submit_enter_pending: self.url_submit_enter_pending,
            ime_composing: self.ime_composing,
        }
    }
}

/// The entry of `key` among `list`, if there is one.
pub open spec fn entry_of(list: Seq<(BrowserKey, Option<Seq<char>>)>, key: BrowserKey) -> Option<
    Option<Seq<char>>,
>
    decreases list.len(),
{
    if list.len() == 0 {
        None
    } else if list.last().0 == key {
        Some(list.last().1)
    } else {
        entry_of(list.drop_last(), key)
    }
}

pub open spec fn dropped(list: Seq<(BrowserKey, Option<Seq<char>>)>, key: BrowserKey) -> Seq<
    (BrowserKey, Option<Seq<char>>),
>
    decreases list.len(),
{
    if list.len() == 0 {
        Seq::empty()
    } else if list.last().0 == key {
        dropped(list.drop_last(), key)
    } else {
        dropped(list.drop_last(), key).push(list.last())
    }
}

/// `key` is down with `text`, in place of what it was down with before.
pub open spec fn put(
    list: Seq<(BrowserKey, Option<Seq<char>>)>,
    key: BrowserKey,
    text: Option<Seq<char>>,
) -> Seq<(BrowserKey, Option<Seq<char>>)> {
    dropped(list, key).push((key, text))
}

pub open spec fn page_modifiers(modifiers: Modifiers) -> BrowserModifiers {
    BrowserModifiers {
        alt: modifiers.alt,
        ctrl: modifiers.ctrl,
        meta: modifiers.mac_cmd,
        shift: modifiers.shift,
    }
}

/// `command` stands for the primary modifier of the platform, which may be
/// Ctrl; the page's Meta is the Mac's own Command key only.
pub fn to_browser_modifiers(modifiers: Modifiers) -> (page: BrowserModifiers)
    ensures
        page == page_modifiers(modifiers),
{
    BrowserModifiers {
        alt: modifiers.alt,
        ctrl: modifiers.ctrl,
        meta: modifiers.mac_cmd,
        shift: modifiers.shift,
    }
}

pub open spec fn clipboard_ready(modifiers: BrowserModifiers, mac: bool) -> BrowserModifiers {
    if modifiers.ctrl || modifiers.meta {
        modifiers
    } else if mac {
        BrowserModifiers { meta: true, ..modifiers }
    } else {
        BrowserModifiers { ctrl: true, ..modifiers }
    }
}

/// A clipboard event can arrive after its modifier went up; the page still
/// needs it.
pub fn ensure_clipboard_primary(modifiers: BrowserModifiers, mac: bool) -> (page: BrowserModifiers)
    ensures
        page == clipboard_ready(modifiers, mac),
{
    let mut page = modifiers;
    if !page.ctrl && !page.meta {
        if mac {
            page.meta = true;
        } else {
            page.ctrl = true;
        }
    }
    page
}

pub open spec fn reloads(key: Option<BrowserKey>, modifiers: Modifiers) -> bool {
    key == Some(BrowserKey::Function(5)) || (key == Some(BrowserKey::Char('r')) && (modifiers.ctrl
        || modifiers.mac_cmd))
}

pub fn is_reload_shortcut(key: Option<BrowserKey>, modifiers: Modifiers) -> (yes: bool)
    ensures
        yes == reloads(key, modifiers),
{
    match key {
        Some(k) => k == BrowserKey::Function(5) || (k == BrowserKey::Char('r') && (modifiers.ctrl
            || modifiers.mac_cmd)),
        None => false,
    }
}

pub open spec fn edit_of(key: BrowserKey, modifiers: BrowserModifiers, mac: bool) -> Option<
    BrowserEditCommand,
> {
    let primary = if mac {
        modifiers.meta
    } else {
        modifiers.ctrl
    };
    if primary && !modifiers.alt && !modifiers.shift && key == BrowserKey::Char('a') {
        Some(BrowserEditCommand::SelectAll)
    } else {
        None
    }
}

pub fn editing_command(key: BrowserKey, modifiers: BrowserModifiers, mac: bool) -> (command: Option<
    BrowserEditCommand,
>)
    ensures
        command == edit_of(key, modifiers, mac),
{
    let primary = if mac {
        modifiers.meta
    } else {
        modifiers.ctrl
    };
    if primary && !modifiers.alt && !modifiers.shift && key == BrowserKey::Char('a') {
        Some(BrowserEditCommand::SelectAll)
    } else {
        None
    }
}

/// The application owns the event: it matches one of its bindings, other than
/// saving in an editor, and leaving a full-screen panel only while there is one.
pub open spec fn app_owns(shortcuts: Seq<BoundShortcut>, exit_active: bool) -> bool {
    exists|i: int|
        0 <= i < shortcuts.len() && #[trigger] shortcuts[i] != BoundShortcut::SaveEditor && (
        exit_active || shortcuts[i] != BoundShortcut::ExitFullscreenPanel)
}

pub fn app_shortcut_press(shortcuts: &Vec<BoundShortcut>, exit_active: bool) -> (yes: bool)
    ensures
        yes == app_owns(shortcuts@, exit_active),
{
    let mut i: usize = 0;
    while i < shortcuts.len()
        invariant
            i <= shortcuts@.len(),
            forall|j: int|
                0 <= j < i ==> !(#[trigger] shortcuts@[j] != BoundShortcut::SaveEditor && (
                exit_active || shortcuts@[j] != BoundShortcut::ExitFullscreenPanel)),
        decreases shortcuts@.len() - i,
    {
        if shortcuts[i] != BoundShortcut::SaveEditor && (exit_active || shortcuts[i]
            != BoundShortcut::ExitFullscreenPanel) {
            return true;
        }
        i = i + 1;
    }
    false
}

/// The single character that is committed at or after event `from`, before the
/// next key or other text.
pub open spec fn committed_from(events: Seq<PageEvent>, from: int) -> Option<char>
    decreases events.len() - from,
{
    if from < 0 || from >= events.len() {
        None
    } else {
        match events[from] {
            PageEvent::Text(text) => if text@.len() == 1 {
                Some(text@[0])
            } else {
                None
            },
            PageEvent::Key(_) | PageEvent::ImeCommit(_) => None,
            _ => committed_from(events, from + 1),
        }
    }
}

/// The character that the key event at `key_index` committed.
pub fn committed_text_after_key(events: &Vec<PageEvent>, key_index: usize) -> (committed: Option<
    char,
>)
    requires
        key_index < events@.len(),
    ensures
        committed == committed_from(events@, key_index + 1),
{
    let len: usize = events.len();
    let mut i: usize = key_index + 1;
    while i < len
        invariant
            len == events@.len(),
            key_index + 1 <= i <= len,
            committed_from(events@, key_index + 1) == committed_from(events@, i as int),
        decreases len - i,
    {
        match &events[i] {
            PageEvent::Text(text) => {
                let chars = chars_of(text.as_str());
                if chars.len() == 1 {
                    return Some(chars[0]);
                }
                return None;
            },
            PageEvent::Key(_) | PageEvent::ImeCommit(_) => {
                return None;
            },
            _ => {},
        }
        i = i + 1;
    }
    None
}

/// The application takes the event at `i`.
pub open spec fn taken_by_app(events: Seq<PageEvent>, i: int, exit_active: bool) -> bool {
    events[i] matches PageEvent::Key(key) && app_owns(key.shortcuts@, exit_active)
}

/// Whether an input method is composing when event `i` comes, if it was
/// `composing` before the first. Text that is held starts it; a commit and a
/// dismissal end it.
pub open spec fn composing_at(composing: bool, events: Seq<PageEvent>, i: int) -> bool
    decreases i,
{
    if i <= 0 {
        composing
    } else {
        composing_after(composing_at(composing, events, i - 1), events[i - 1])
    }
}

pub open spec fn composing_after(composing: bool, event: PageEvent) -> bool {
    match event {
        PageEvent::ImePreedit(text) => text@.len() > 0,
        PageEvent::ImeCommit(_) => false,
        _ => composing,
    }
}

fn still_composing(composing: bool, event: &PageEvent) -> (yes: bool)
    ensures
        yes == composing_after(composing, *event),
{
    match event {
        PageEvent::ImePreedit(text) => !text.as_str().is_empty(),
        PageEvent::ImeCommit(_) => false,
        _ => composing,
    }
}

/// The character that goes with the key press at `i`: what was committed,
/// which is right whatever the layout, or what is predicted. Nothing is
/// predicted ahead of what an input method is composing.
pub open spec fn key_text_at(
    events: Seq<PageEvent>,
    i: int,
    exit_active: bool,
    composing: bool,
) -> Option<char> {
    match events[i] {
        PageEvent::Key(key) => if !taken_by_app(events, i, exit_active) && key.pressed && !(
        key.modifiers.ctrl || key.modifiers.mac_cmd || key.modifiers.alt) && key.key is Some {
            let committed = committed_from(events, i + 1);
            if committed is Some || composing_at(composing, events, i) {
                committed
            } else {
                key.predicted
            }
        } else {
            None
        },
        _ => None,
    }
}

/// The characters that key presses carry themselves.
pub open spec fn key_chars(
    events: Seq<PageEvent>,
    exit_active: bool,
    composing: bool,
    n: int,
) -> Multiset<char>
    decreases n,
{
    if n <= 0 {
        Multiset::empty()
    } else {
        let before = key_chars(events, exit_active, composing, n - 1);
        match key_text_at(events, n - 1, exit_active, composing) {
            Some(c) => before.insert(c),
            None => before,
        }
    }
}

/// The characters that presses for the application committed.
pub open spec fn shortcut_chars(events: Seq<PageEvent>, exit_active: bool, n: int) -> Multiset<char>
    decreases n,
{
    if n <= 0 {
        Multiset::empty()
    } else {
        let before = shortcut_chars(events, exit_active, n - 1);
        if taken_by_app(events, n - 1, exit_active) {
            match committed_from(events, n as int) {
                Some(c) => before.insert(c),
                None => before,
            }
        } else {
            before
        }
    }
}

/// What the key events of a frame come to.
pub struct KeyboardFrameEvents {
    pub key_texts: Vec<Option<char>>,
    pub key_chars: Vec<char>,
    pub shortcut_chars: Vec<char>,
    pub shortcut_presses: Vec<bool>,
}

pub fn collect_keyboard_frame_events(
    events: &Vec<PageEvent>,
    exit_active: bool,
    composing: bool,
) -> (collected: KeyboardFrameEvents)
    ensures
        collected.key_texts@.len() == events@.len(),
        collected.shortcut_presses@.len() == events@.len(),
        forall|i: int|
            0 <= i < events@.len() ==> #[trigger] collected.key_texts@[i] == key_text_at(
                events@,
                i,
                exit_active,
                composing,
            ),
        forall|i: int|
            0 <= i < events@.len() ==> #[trigger] collected.shortcut_presses@[i] == taken_by_app(
                events@,
                i,
                exit_active,
            ),
        collected.key_chars@.to_multiset() == key_chars(
            events@,
            exit_active,
            composing,
            events@.len() as int,
        ),
        collected.shortcut_chars@.to_multiset() == shortcut_chars(
            events@,
            exit_active,
            events@.len() as int,
        ),
{
    broadcast use vstd::seq_lib::group_to_multiset_ensures;

    let mut texts: Vec<Option<char>> = Vec::new();
    let mut chars: Vec<char> = Vec::new();
    let mut taken_chars: Vec<char> = Vec::new();
    let mut presses: Vec<bool> = Vec::new();
    let mut now_composing = composing;
    let mut i: usize = 0;
    assert(chars@ =~= Seq::<char>::empty());
    assert(taken_chars@ =~= Seq::<char>::empty());
    while i < events.len()
        invariant
            i <= events@.len(),
            texts@.len() == i,
            presses@.len() == i,
            forall|j: int|
                0 <= j < i ==> #[trigger] texts@[j] == key_text_at(
                    events@,
                    j,
                    exit_active,
                    composing,
                ),
            forall|j: int|
                0 <= j < i ==> #[trigger] presses@[j] == taken_by_app(events@, j, exit_active),
            chars@.to_multiset() == key_chars(events@, exit_active, composing, i as int),
            now_composing == composing_at(composing, events@, i as int),
            taken_chars@.to_multiset() == shortcut_chars(events@, exit_active, i as int),
        decreases events@.len() - i,
    {
        broadcast use vstd::seq_lib::group_to_multiset_ensures;

        let mut taken = false;
        let mut text: Option<char> = None;
        if let PageEvent::Key(key) = &events[i] {
            taken = app_shortcut_press(&key.shortcuts, exit_active);
            let committed = committed_text_after_key(events, i);
            if taken {
                if let Some(c) = committed {
                    taken_chars.push(c);
                }
            } else if key.pressed && !(key.modifiers.ctrl || key.modifiers.mac_cmd
                || key.modifiers.alt) && key.key.is_some() {
                text =
                match committed {
                    Some(c) => Some(c),
                    None => if now_composing {
                        None
                    } else {
                        key.predicted
                    },
                };
                if let Some(c) = text {
                    chars.push(c);
                }
            }
        }
        presses.push(taken);
        texts.push(text);
        now_composing = still_composing(now_composing, &events[i]);
        i = i + 1;
    }
    KeyboardFrameEvents {
        key_texts: texts,
        key_chars: chars,
        shortcut_chars: taken_chars,
        shortcut_presses: presses,
    }
}

/// Takes `text` out of `candidates` where it is one of those characters.
pub fn take_matching_single_char(text: &str, candidates: &mut Vec<char>) -> (found: bool)
    ensures
        found == (text@.len() == 1 && old(candidates)@.to_multiset().count(text@[0]) > 0),
        final(candidates)@.to_multiset() == (if found {
            old(candidates)@.to_multiset().remove(text@[0])
        } else {
            old(candidates)@.to_multiset()
        }),
{
    broadcast use vstd::seq_lib::group_to_multiset_ensures;

    let chars = chars_of(text);
    if chars.len() != 1 {
        return false;
    }
    let c: char = chars[0];
    let ghost before = candidates@;
    let mut i: usize = 0;
    while i < candidates.len()
        invariant
            candidates@ == before,
            before == old(candidates)@,
            text@.len() == 1,
            c == text@[0],
            i <= before.len(),
            forall|j: int| 0 <= j < i ==> before[j] != c,
        decreases before.len() - i,
    {
        broadcast use vstd::seq_lib::group_to_multiset_ensures;

        if candidates[i] == c {
            assert(before.contains(c));
            let taken = candidates.swap_remove(i);
            proof {
                lemma_swap_remove(before, i as int);
            }
            return true;
        }
        i = i + 1;
    }
    assert(!before.contains(c));
    false
}

proof fn lemma_swap_remove(list: Seq<char>, i: int)
    requires
        0 <= i < list.len(),
    ensures
        list.update(i, list.last()).drop_last().to_multiset() == list.to_multiset().remove(list[i]),
{
    broadcast use vstd::seq_lib::group_to_multiset_ensures;

    let moved = list.update(i, list.last());
    let out = moved.drop_last();
    let head = list.drop_last();
    assert(list =~= head.push(list.last()));
    if i == list.len() - 1 {
        assert(out =~= head);
        assert(list.to_multiset() =~= head.to_multiset().insert(list[i]));
        assert(out.to_multiset() =~= list.to_multiset().remove(list[i]));
    } else {
        assert(out =~= head.update(i, list.last()));
        vstd::seq_lib::to_multiset_update(head, i, list.last());
        assert(head.contains(head[i]));
        assert(out.to_multiset() =~= list.to_multiset().remove(list[i]));
    }
}

impl KeyView {
    pub open spec fn is_down(self, key: BrowserKey) -> bool {
        entry_of(self.pressed, key) is Some
    }

    /// One key event. The order of the rules: Enter still belonging to the URL
    /// bar, a release that a clipboard chord has done, the application's
    /// shortcuts, releases of those, reload, releases, and presses.
    pub open spec fn key_event(
        self,
        key: Option<BrowserKey>,
        pressed: bool,
        repeat: bool,
        modifiers: Modifiers,
        key_text: Option<char>,
        app_shortcut: bool,
        mac: bool,
    ) -> (KeyView, Seq<CommandView>) {
        if key == Some(BrowserKey::Enter) && self.url_submit_enter_pending {
            (
                KeyView { url_submit_enter_pending: pressed, ..self },
                Seq::empty(),
            )
        } else {
            let chorded = key matches Some(k) && self.clipboard.contains(k);
            let unchorded = match key {
                Some(k) => KeyView {
                    clipboard: if chorded {
                        without_key(self.clipboard, k)
                    } else {
                        self.clipboard
                    },
                    ..self
                },
                None => self,
            };
            if chorded && !pressed {
                (unchorded, Seq::empty())
            } else if app_shortcut {
                (unchorded.suppress(key), Seq::empty())
            } else if key matches Some(k) && self.suppressed.contains(k) {
                if pressed {
                    (unchorded, Seq::empty())
                } else {
                    (
                        KeyView {
                            suppressed: without_key(self.suppressed, key->0),
                            pressed: dropped(self.pressed, key->0),
                            ..unchorded
                        },
                        Seq::empty(),
                    )
                }
            } else if reloads(key, modifiers) {
                if pressed {
                    (
                        unchorded.suppress(key),
                        if repeat {
                            Seq::empty()
                        } else {
                            seq![CommandView::Reload]
                        },
                    )
                } else {
                    (unchorded, Seq::empty())
                }
            } else {
                match key {
                    None => (unchorded, Seq::empty()),
                    Some(k) => if !pressed {
                        match entry_of(self.pressed, k) {
                            None => (unchorded, Seq::empty()),
                            Some(text) => (
                                KeyView { pressed: dropped(self.pressed, k), ..unchorded },
                                seq![
                                    CommandView::KeyUp {
                                        key: k,
                                        text,
                                        modifiers: page_modifiers(modifiers),
                                    },
                                ],
                            ),
                        }
                    } else if repeat && !self.is_down(k) {
                        (unchorded, Seq::empty())
                    } else {
                        let page = page_modifiers(modifiers);
                        let text = if page.ctrl || page.meta || page.alt {
                            None
                        } else {
                            match key_text {
                                Some(c) => Some(seq![c]),
                                None => None,
                            }
                        };
                        (
                            KeyView { pressed: put(self.pressed, k, text), ..unchorded },
                            seq![
                                CommandView::KeyDown {
                                    key: k,
                                    text,
                                    modifiers: page,
                                    repeat,
                                    edit_command: edit_of(k, page, mac),
                                },
                            ],
                        )
                    },
                }
            }
        }
    }

    /// A press that the page must not see: neither must it see the release,
    /// even where the modifiers go up first.
    pub open spec fn suppress(self, key: Option<BrowserKey>) -> KeyView {
        match key {
            Some(k) => KeyView {
                suppressed: with_key(self.suppressed, k),
                pressed: dropped(self.pressed, k),
                ..self
            },
            None => self,
        }
    }

    /// A clipboard chord: down and up at once, the later release of the key
    /// itself being done.
    pub open spec fn chord(
        self,
        key: BrowserKey,
        edit: BrowserEditCommand,
        modifiers: BrowserModifiers,
    ) -> (KeyView, Seq<CommandView>) {
        (
            KeyView {
                clipboard: with_key(self.clipboard, key),
                pressed: dropped(self.pressed, key),
                ..self
            },
            seq![
                CommandView::KeyDown {
                    key,
                    text: None,
                    modifiers,
                    repeat: false,
                    edit_command: Some(edit),
                },
                CommandView::KeyUp { key, text: None, modifiers },
            ],
        )
    }

    /// Everything that is down goes up.
    pub open spec fn released(self, modifiers: BrowserModifiers) -> (KeyView, Seq<CommandView>) {
        (
            KeyView { pressed: Seq::empty(), ..self },
            self.pressed.map_values(
                |p: (BrowserKey, Option<Seq<char>>)|
                    CommandView::KeyUp { key: p.0, text: p.1, modifiers },
            ),
        )
    }

    /// While the URL bar has the keyboard, reloads still work, and what was
    /// begun is brought to its end.
    pub open spec fn routes_to_page(self, key: Option<BrowserKey>, modifiers: Modifiers) -> bool {
        ||| reloads(key, modifiers)
        ||| key == Some(BrowserKey::Enter) && self.url_submit_enter_pending
        ||| key matches Some(k) && (self.suppressed.contains(k) || self.clipboard.contains(k))
    }
}

impl KeyState {
    pub fn new() -> (state: Self)
        ensures
            state@ == (KeyView {
                pressed: Seq::empty(),
                suppressed: Seq::empty(),
                clipboard: Seq::empty(),
                url_submit_enter_pending: false,
                ime_composing: false,
            }),
    {
        let state = KeyState {
            pressed: Vec::new(),
            suppressed: Vec::new(),
            clipboard: Vec::new(),
            url_submit_enter_pending: false,
            ime_composing: false,
        };
        assert(pressed_views(state.pressed@) =~= Seq::<(BrowserKey, Option<Seq<char>>)>::empty());
        assert(state.suppressed@ =~= Seq::<BrowserKey>::empty());
        assert(state.clipboard@ =~= Seq::<BrowserKey>::empty());
        state
    }

    fn down_text(&self, key: BrowserKey) -> (entry: Option<Option<String>>)
        ensures
            match (entry, entry_of(self@.pressed, key)) {
                (Some(text), Some(view)) => opt_text(text) == view,
                (None, None) => true,
                _ => false,
            },
    {
        let ghost views = self@.pressed;
        let mut i: usize = self.pressed.len();
        assert(views.take(i as int) =~= views);
        while i > 0
            invariant
                views == pressed_views(self.pressed@),
                i <= self.pressed@.len(),
                entry_of(views, key) == entry_of(views.take(i as int), key),
            decreases i,
        {
            assert(views.take(i as int).last() == (
                self.pressed@[i - 1].key,
                opt_text(self.pressed@[i - 1].text),
            ));
            assert(views.take(i as int).drop_last() =~= views.take(i - 1));
            if self.pressed[i - 1].key == key {
                return Some(copy_opt(&self.pressed[i - 1].text));
            }
            i = i - 1;
        }
        None
    }

    fn forget(&mut self, key: BrowserKey)
        ensures
            final(self)@ == (KeyView { pressed: dropped(old(self)@.pressed, key), ..old(self)@ }),
    {
        let ghost views = self@.pressed;
        let mut kept: Vec<PressedKey> = Vec::new();
        let mut i: usize = 0;
        assert(pressed_views(kept@) =~= dropped(views.take(0), key));
        while i < self.pressed.len()
            invariant
                views == pressed_views(self.pressed@),
                *self == *old(self),
                i <= self.pressed@.len(),
                pressed_views(kept@) == dropped(views.take(i as int), key),
            decreases self.pressed@.len() - i,
        {
            assert(views.take(i + 1).drop_last() =~= views.take(i as int));
            assert(views.take(i + 1).last() == (
                self.pressed@[i as int].key,
                opt_text(self.pressed@[i as int].text),
            ));
            if self.pressed[i].key != key {
                let ghost before = pressed_views(kept@);
                let ghost next = views[i as int];
                kept.push(
                    PressedKey {
                        key: self.pressed[i].key,
                        text: copy_opt(&self.pressed[i].text),
                    },
                );
                assert(pressed_views(kept@) =~= before.push(next));
            }
            i = i + 1;
        }
        assert(views.take(i as int) =~= views);
        self.pressed = kept;
    }

    fn remember(&mut self, key: BrowserKey, text: Option<String>)
        ensures
            final(self)@ == (KeyView {
                pressed: put(old(self)@.pressed, key, opt_text(text)),
                ..old(self)@
            }),
    {
        self.forget(key);
        let ghost before = self@.pressed;
        let ghost view = opt_text(text);
        self.pressed.push(PressedKey { key, text });
        assert(self@.pressed =~= before.push((key, view)));
    }

    fn suppress(&mut self, key: Option<BrowserKey>)
        ensures
            final(self)@ == old(self)@.suppress(key),
    {
        if let Some(k) = key {
            insert_key(&mut self.suppressed, k);
            self.forget(k);
        }
    }

    /// Whether the release of a chord's key ends here. A new press of the key
    /// retires what the chord left.
    pub fn consume_clipboard_release(&mut self, key: Option<BrowserKey>, pressed: bool) -> (done:
        bool)
        ensures
            ({
                let chorded = key matches Some(k) && old(self)@.clipboard.contains(k);
                &&& done == (chorded && !pressed)
                &&& final(self)@ == (if chorded {
                    KeyView {
                        clipboard: without_key(old(self)@.clipboard, key->0),
                        ..old(self)@
                    }
                } else {
                    old(self)@
                })
            }),
    {
        match key {
            Some(k) => {
                if has_key(&self.clipboard, k) {
                    remove_key(&mut self.clipboard, k);
                    return !pressed;
                }
                false
            },
            None => false,
        }
    }

    /// Whether the event belongs to a press that the page did not see; the
    /// release ends that.
    pub fn consume_suppressed_key(&mut self, key: Option<BrowserKey>, pressed: bool) -> (done: bool)
        ensures
            done == (key matches Some(k) && old(self)@.suppressed.contains(k)),
            final(self)@ == (if done && !pressed {
                KeyView {
                    suppressed: without_key(old(self)@.suppressed, key->0),
                    pressed: dropped(old(self)@.pressed, key->0),
                    ..old(self)@
                }
            } else {
                old(self)@
            }),
    {
        match key {
            Some(k) => {
                if !has_key(&self.suppressed, k) {
                    return false;
                }
                if !pressed {
                    remove_key(&mut self.suppressed, k);
                    self.forget(k);
                }
                true
            },
            None => false,
        }
    }

    /// One key event; the commands it makes are appended.
    pub fn handle_key_event(
        &mut self,
        event: &KeyEvent,
        key_text: Option<char>,
        app_shortcut: bool,
        mac: bool,
        commands: &mut Vec<BrowserCommand>,
    )
        ensures
            ({
                let (after, sent) = old(self)@.key_event(
                    event.key,
                    event.pressed,
                    event.repeat,
                    event.modifiers,
                    key_text,
                    app_shortcut,
                    mac,
                );
                &&& final(self)@ == after
                &&& command_views(final(commands)@) == command_views(old(commands)@) + sent
            }),
    {
        let ghost before = command_views(commands@);
        assert(before + Seq::<CommandView>::empty() =~= before);
        if let Some(BrowserKey::Enter) = event.key {
            if self.url_submit_enter_pending {
                if !event.pressed {
                    self.url_submit_enter_pending = false;
                }
                return ;
            }
        }
        let reload = is_reload_shortcut(event.key, event.modifiers);
        if self.consume_clipboard_release(event.key, event.pressed) {
            return ;
        }
        if app_shortcut {
            self.suppress(event.key);
            return ;
        }
        if self.consume_suppressed_key(event.key, event.pressed) {
            return ;
        }
        if reload {
            if event.pressed {
                self.suppress(event.key);
                // Every repeat of a held shortcut is taken, but only the first
                // press reloads.
                if !event.repeat {
                    commands.push(BrowserCommand::Reload);
                    assert(command_views(commands@) =~= before + seq![CommandView::Reload]);
                }
            }
            return ;
        }
        let key = match event.key {
            Some(k) => k,
            None => return ,
        };
        if !event.pressed {
            if let Some(text) = self.down_text(key) {
                self.forget(key);
                let modifiers = to_browser_modifiers(event.modifiers);
                let ghost view = opt_text(text);
                commands.push(BrowserCommand::KeyUp { key, text, modifiers });
                assert(command_views(commands@) =~= before + seq![
                    CommandView::KeyUp { key, text: view, modifiers },
                ]);
            }
            return ;
        }
        // A repeat can arrive after a loss of focus has sent the release; it
        // must not begin a new press.
        if event.repeat && self.down_text(key).is_none() {
            return ;
        }
        let modifiers = to_browser_modifiers(event.modifiers);
        let edit_command = editing_command(key, modifiers, mac);
        let text = match key_text {
            Some(c) => if modifiers.ctrl || modifiers.meta || modifiers.alt {
                None
            } else {
                let mut s = String::new();
                s.push(c);
                assert(s@ =~= seq![c]);
                Some(s)
            },
            None => None,
        };
        let ghost view = opt_text(text);
        self.remember(key, copy_opt(&text));
        commands.push(
            BrowserCommand::KeyDown { key, text, modifiers, repeat: event.repeat, edit_command },
        );
        assert(command_views(commands@) =~= before + seq![
            CommandView::KeyDown {
                key,
                text: view,
                modifiers,
                repeat: event.repeat,
                edit_command,
            },
        ]);
    }

    fn send_clipboard_shortcut(
        &mut self,
        key: BrowserKey,
        edit: BrowserEditCommand,
        modifiers: BrowserModifiers,
        commands: &mut Vec<BrowserCommand>,
    )
        ensures
            ({
                let (after, sent) = old(self)@.chord(key, edit, modifiers);
                &&& final(self)@ == after
                &&& command_views(final(commands)@) == command_views(old(commands)@) + sent
            }),
    {
        let ghost before = command_views(commands@);
        insert_key(&mut self.clipboard, key);
        self.forget(key);
        commands.push(
            BrowserCommand::KeyDown {
                key,
                text: None,
                modifiers,
                repeat: false,
                edit_command: Some(edit),
            },
        );
        commands.push(BrowserCommand::KeyUp { key, text: None, modifiers });
        assert(command_views(commands@) =~= before + old(self)@.chord(key, edit, modifiers).1);
    }

    /// Tells the page that every key it holds down is up.
    pub fn release_pressed_keys(
        &mut self,
        modifiers: BrowserModifiers,
        commands: &mut Vec<BrowserCommand>,
    )
        ensures
            ({
                let (after, sent) = old(self)@.released(modifiers);
                &&& final(self)@ == after
                &&& command_views(final(commands)@) == command_views(old(commands)@) + sent
            }),
    {
        let ghost before = command_views(commands@);
        let ghost sent = self@.released(modifiers).1;
        let mut i: usize = 0;
        assert(before + sent.take(0) =~= before);
        while i < self.pressed.len()
            invariant
                *self == *old(self),
                i <= self.pressed@.len(),
                sent == old(self)@.released(modifiers).1,
                sent.len() == self.pressed@.len(),
                command_views(commands@) == before + sent.take(i as int),
            decreases self.pressed@.len() - i,
        {
            let key = self.pressed[i].key;
            let text = copy_opt(&self.pressed[i].text);
            assert(self@.pressed[i as int] == (key, opt_text(text)));
            assert(sent[i as int] == (CommandView::KeyUp { key, text: opt_text(text), modifiers }));
            let ghost done = command_views(commands@);
            commands.push(BrowserCommand::KeyUp { key, text, modifiers });
            assert(command_views(commands@) =~= done.push(sent[i as int]));
            assert(command_views(commands@) =~= before + sent.take(i + 1));
            i = i + 1;
        }
        assert(sent.take(i as int) =~= sent);
        self.pressed = Vec::new();
        assert(self@.pressed =~= Seq::<(BrowserKey, Option<Seq<char>>)>::empty());
    }

    /// Losing the keyboard altogether: releases can no longer be seen, so
    /// nothing waits for them.
    pub fn clear_focus_lost_suppressions(&mut self)
        ensures
            final(self)@ == (KeyView {
                suppressed: Seq::empty(),
                clipboard: Seq::empty(),
                url_submit_enter_pending: false,
                ..old(self)@
            }),
    {
        self.suppressed = Vec::new();
        self.clipboard = Vec::new();
        self.url_submit_enter_pending = false;
        assert(self.suppressed@ =~= Seq::<BrowserKey>::empty());
        assert(self.clipboard@ =~= Seq::<BrowserKey>::empty());
    }

    pub fn should_route_key_while_url_focused(
        &self,
        key: Option<BrowserKey>,
        modifiers: Modifiers,
    ) -> (yes: bool)
        ensures
            yes == self@.routes_to_page(key, modifiers),
    {
        if is_reload_shortcut(key, modifiers) {
            return true;
        }
        match key {
            Some(k) => (k == BrowserKey::Enter && self.url_submit_enter_pending) || has_key(
                &self.suppressed,
                k,
            ) || has_key(&self.clipboard, k),
            None => false,
        }
    }
}

/// The keyboard side of a page while a frame is replayed.
pub struct ReplayView {
    pub keys: KeyView,
    /// Characters that key presses of the frame still account for.
    pub key_chars: Multiset<char>,
    pub shortcut_chars: Multiset<char>,
}

/// `text` is one character that `chars` still holds.
pub open spec fn accounted(text: Seq<char>, chars: Multiset<char>) -> bool {
    text.len() == 1 && chars.count(text[0]) > 0
}

pub open spec fn less(text: Seq<char>, chars: Multiset<char>) -> Multiset<char> {
    if accounted(text, chars) {
        chars.remove(text[0])
    } else {
        chars
    }
}

/// `modifiers` are those of the frame; clipboard events carry none themselves.
/// `composing` says whether an input method was before the frame.
pub open spec fn replayed(
    view: ReplayView,
    events: Seq<PageEvent>,
    i: int,
    exit_active: bool,
    composing: bool,
    modifiers: Modifiers,
    mac: bool,
) -> (ReplayView, Seq<CommandView>) {
    match events[i] {
        PageEvent::Text(text) => if text@.len() == 0 {
            (view, Seq::empty())
        } else {
            (
                ReplayView {
                    key_chars: less(text@, view.key_chars),
                    shortcut_chars: less(text@, view.shortcut_chars),
                    ..view
                },
                if accounted(text@, view.key_chars) || accounted(text@, view.shortcut_chars) {
                    Seq::empty()
                } else {
                    seq![CommandView::InsertText(text@)]
                },
            )
        },
        PageEvent::ImePreedit(text) => (
            ReplayView {
                keys: KeyView { ime_composing: text@.len() > 0, ..view.keys },
                ..view
            },
            Seq::empty(),
        ),
        PageEvent::ImeCommit(text) | PageEvent::Paste(text) => (
            if events[i] is ImeCommit {
                ReplayView { keys: KeyView { ime_composing: false, ..view.keys }, ..view }
            } else {
                view
            },
            if text@.len() == 0 {
                Seq::empty()
            } else {
                seq![CommandView::InsertText(text@)]
            },
        ),
        PageEvent::Copy => {
            let (keys, sent) = view.keys.chord(
                BrowserKey::Char('c'),
                BrowserEditCommand::Copy,
                clipboard_ready(page_modifiers(modifiers), mac),
            );
            (ReplayView { keys, ..view }, sent)
        },
        PageEvent::Cut => {
            let (keys, sent) = view.keys.chord(
                BrowserKey::Char('x'),
                BrowserEditCommand::Cut,
                clipboard_ready(page_modifiers(modifiers), mac),
            );
            (ReplayView { keys, ..view }, sent)
        },
        PageEvent::Key(key) => {
            let (keys, sent) = view.keys.key_event(
                key.key,
                key.pressed,
                key.repeat,
                key.modifiers,
                key_text_at(events, i, exit_active, composing),
                taken_by_app(events, i, exit_active),
                mac,
            );
            (ReplayView { keys, ..view }, sent)
        },
        PageEvent::Other => (view, Seq::empty()),
    }
}

/// The first `n` events of a frame, one after the other.
pub open spec fn replay(
    keys: KeyView,
    events: Seq<PageEvent>,
    n: int,
    exit_active: bool,
    modifiers: Modifiers,
    mac: bool,
) -> (ReplayView, Seq<CommandView>)
    decreases n,
{
    if n <= 0 {
        (
            ReplayView {
                keys,
                key_chars: key_chars(
                    events,
                    exit_active,
                    keys.ime_composing,
                    events.len() as int,
                ),
                shortcut_chars: shortcut_chars(events, exit_active, events.len() as int),
            },
            Seq::empty(),
        )
    } else {
        let (mid, sent) = replay(keys, events, n - 1, exit_active, modifiers, mac);
        let (end, more) = replayed(
            mid,
            events,
            n - 1,
            exit_active,
            keys.ime_composing,
            modifiers,
            mac,
        );
        (end, sent + more)
    }
}

impl KeyState {
    /// Replays a frame of keyboard events to the page. Text that a key press
    /// carries, or that the application's shortcut made, is not inserted again.
    pub fn events(
        &mut self,
        events: &Vec<PageEvent>,
        exit_active: bool,
        modifiers: Modifiers,
        mac: bool,
        commands: &mut Vec<BrowserCommand>,
    )
        ensures
            ({
                let (after, sent) = replay(
                    old(self)@,
                    events@,
                    events@.len() as int,
                    exit_active,
                    modifiers,
                    mac,
                );
                &&& final(self)@ == after.keys
                &&& command_views(final(commands)@) == command_views(old(commands)@) + sent
            }),
    {
        let ghost before = command_views(commands@);
        let ghost from = self@;
        let composing = self.ime_composing;
        let collected = collect_keyboard_frame_events(events, exit_active, composing);
        let mut key_chars = collected.key_chars;
        let mut shortcut_chars = collected.shortcut_chars;
        let mut i: usize = 0;
        assert(before + Seq::<CommandView>::empty() =~= before);
        while i < events.len()
            invariant
                i <= events@.len(),
                composing == from.ime_composing,
                collected.key_texts@.len() == events@.len(),
                collected.shortcut_presses@.len() == events@.len(),
                forall|j: int|
                    0 <= j < events@.len() ==> #[trigger] collected.key_texts@[j] == key_text_at(
                        events@,
                        j,
                        exit_active,
                        composing,
                    ),
                forall|j: int|
                    0 <= j < events@.len() ==> #[trigger] collected.shortcut_presses@[j]
                        == taken_by_app(events@, j, exit_active),
                ({
                    let (mid, sent) = replay(
                        from,
                        events@,
                        i as int,
                        exit_active,
                        modifiers,
                        mac,
                    );
                    &&& self@ == mid.keys
                    &&& key_chars@.to_multiset() == mid.key_chars
                    &&& shortcut_chars@.to_multiset() == mid.shortcut_chars
                    &&& command_views(commands@) == before + sent
                }),
            decreases events@.len() - i,
        {
            let ghost (mid, sent) = replay(from, events@, i as int, exit_active, modifiers, mac);
            let ghost (end, more) = replayed(
                mid,
                events@,
                i as int,
                exit_active,
                composing,
                modifiers,
                mac,
            );
            let ghost done = command_views(commands@);
            match &events[i] {
                PageEvent::Text(text) => {
                    if !text.as_str().is_empty() {
                        let from_shortcut = take_matching_single_char(
                            text.as_str(),
                            &mut shortcut_chars,
                        );
                        let from_key = take_matching_single_char(text.as_str(), &mut key_chars);
                        if !from_shortcut && !from_key {
                            commands.push(BrowserCommand::InsertText(text.clone()));
                        }
                    }
                    assert(command_views(commands@) =~= done + more);
                },
                PageEvent::ImePreedit(text) => {
                    self.ime_composing = !text.as_str().is_empty();
                    assert(command_views(commands@) =~= done + more);
                },
                PageEvent::ImeCommit(text) => {
                    self.ime_composing = false;
                    if !text.as_str().is_empty() {
                        commands.push(BrowserCommand::InsertText(text.clone()));
                    }
                    assert(command_views(commands@) =~= done + more);
                },
                PageEvent::Paste(text) => {
                    if !text.as_str().is_empty() {
                        commands.push(BrowserCommand::InsertText(text.clone()));
                    }
                    assert(command_views(commands@) =~= done + more);
                },
                PageEvent::Copy => {
                    let page = ensure_clipboard_primary(to_browser_modifiers(modifiers), mac);
                    self.send_clipboard_shortcut(
                        BrowserKey::Char('c'),
                        BrowserEditCommand::Copy,
                        page,
                        commands,
                    );
                },
                PageEvent::Cut => {
                    let page = ensure_clipboard_primary(to_browser_modifiers(modifiers), mac);
                    self.send_clipboard_shortcut(
                        BrowserKey::Char('x'),
                        BrowserEditCommand::Cut,
                        page,
                        commands,
                    );
                },
                PageEvent::Key(key) => {
                    self.handle_key_event(
                        key,
                        collected.key_texts[i],
                        collected.shortcut_presses[i],
                        mac,
                        commands,
                    );
                },
                PageEvent::Other => {
                    assert(command_views(commands@) =~= done + more);
                },
            }
            assert(command_views(commands@) == done + more);
            assert(done + more =~= before + (sent + more));
            i = i + 1;
        }
    }
}

/// The key events of a frame that reach the page while the URL bar has the
/// keyboard.
pub open spec fn url_replay(keys: KeyView, events: Seq<PageEvent>, n: int, mac: bool) -> (
    KeyView,
    Seq<CommandView>,
)
    decreases n,
{
    if n <= 0 {
        (keys, Seq::empty())
    } else {
        let (mid, sent) = url_replay(keys, events, n - 1, mac);
        match events[n - 1] {
            PageEvent::Key(key) => if mid.routes_to_page(key.key, key.modifiers) {
                let (end, more) = mid.key_event(
                    key.key,
                    key.pressed,
                    key.repeat,
                    key.modifiers,
                    None,
                    false,
                    mac,
                );
                (end, sent + more)
            } else {
                (mid, sent)
            },
            _ => (mid, sent),
        }
    }
}

impl KeyState {
    pub fn browser_shortcut_events(
        &mut self,
        events: &Vec<PageEvent>,
        mac: bool,
        commands: &mut Vec<BrowserCommand>,
    )
        ensures
            ({
                let (after, sent) = url_replay(old(self)@, events@, events@.len() as int, mac);
                &&& final(self)@ == after
                &&& command_views(final(commands)@) == command_views(old(commands)@) + sent
            }),
    {
        let ghost before = command_views(commands@);
        let ghost from = self@;
        let mut i: usize = 0;
        assert(before + Seq::<CommandView>::empty() =~= before);
        while i < events.len()
            invariant
                i <= events@.len(),
                ({
                    let (mid, sent) = url_replay(from, events@, i as int, mac);
                    &&& self@ == mid
                    &&& command_views(commands@) == before + sent
                }),
            decreases events@.len() - i,
        {
            let ghost sent = url_replay(from, events@, i as int, mac).1;
            if let PageEvent::Key(key) = &events[i] {
                if self.should_route_key_while_url_focused(key.key, key.modifiers) {
                    let ghost more = self@.key_event(
                        key.key,
                        key.pressed,
                        key.repeat,
                        key.modifiers,
                        None,
                        false,
                        mac,
                    ).1;
                    self.handle_key_event(key, None, false, mac, commands);
                    assert((before + sent) + more =~= before + (sent + more));
                }
            }
            i = i + 1;
        }
    }
}

/// The keys that a page believes are down after the commands it got.
pub open spec fn page_down(keys: Set<BrowserKey>, commands: Seq<CommandView>) -> Set<BrowserKey>
    decreases commands.len(),
{
    if commands.len() == 0 {
        keys
    } else {
        let before = page_down(keys, commands.drop_last());
        match commands.last() {
            CommandView::KeyDown { key, .. } => before.insert(key),
            CommandView::KeyUp { key, .. } => before.remove(key),
            _ => before,
        }
    }
}

/// Every key that is remembered as down is down for the page.
pub open spec fn backed_by(view: KeyView, keys: Set<BrowserKey>) -> bool {
    forall|k: BrowserKey| #[trigger] view.is_down(k) ==> keys.contains(k)
}

proof fn lemma_dropped(
    list: Seq<(BrowserKey, Option<Seq<char>>)>,
    key: BrowserKey,
    other: BrowserKey,
)
    ensures
        entry_of(dropped(list, key), other) == (if other == key {
            None
        } else {
            entry_of(list, other)
        }),
    decreases list.len(),
{
    if list.len() > 0 {
        lemma_dropped(list.drop_last(), key, other);
        if list.last().0 != key {
            let out = dropped(list, key);
            assert(out.drop_last() =~= dropped(list.drop_last(), key));
        }
    }
}

proof fn lemma_put(
    list: Seq<(BrowserKey, Option<Seq<char>>)>,
    key: BrowserKey,
    text: Option<Seq<char>>,
    other: BrowserKey,
)
    ensures
        entry_of(put(list, key, text), other) == (if other == key {
            Some(text)
        } else {
            entry_of(list, other)
        }),
{
    lemma_dropped(list, key, other);
    assert(put(list, key, text).drop_last() =~= dropped(list, key));
}

/// The page never gets a release of a key that is not down for it: every
/// release that a key event sends ends a press that the page has seen, and the
/// keys that are remembered as down stay backed by the page.
pub proof fn law_releases_end_presses(
    view: KeyView,
    keys: Set<BrowserKey>,
    key: Option<BrowserKey>,
    pressed: bool,
    repeat: bool,
    modifiers: Modifiers,
    key_text: Option<char>,
    app_shortcut: bool,
    mac: bool,
)
    requires
        backed_by(view, keys),
    ensures
        ({
            let (after, sent) = view.key_event(
                key,
                pressed,
                repeat,
                modifiers,
                key_text,
                app_shortcut,
                mac,
            );
            &&& sent.len() <= 1
            &&& sent.len() == 1 ==> (sent[0] matches CommandView::KeyUp { key: k, .. }
                ==> keys.contains(k))
            &&& backed_by(after, page_down(keys, sent))
        }),
{
    let (after, sent) = view.key_event(
        key,
        pressed,
        repeat,
        modifiers,
        key_text,
        app_shortcut,
        mac,
    );
    if sent.len() == 1 {
        assert(sent.drop_last() =~= Seq::<CommandView>::empty());
        assert(page_down(keys, sent.drop_last()) == keys);
    }
    if let Some(k) = key {
        if sent.len() == 1 && sent[0] is KeyUp {
            assert(view.is_down(k));
        }
    }
    assert forall|q: BrowserKey| #[trigger] after.is_down(q) implies page_down(keys, sent).contains(
        q,
    ) by {
        if let Some(k) = key {
            lemma_dropped(view.pressed, k, q);
            let text = if modifiers.ctrl || modifiers.mac_cmd || modifiers.alt {
                None
            } else {
                match key_text {
                    Some(c) => Some(seq![c]),
                    None => None,
                }
            };
            lemma_put(view.pressed, k, text, q);
            if q != k {
                assert(view.is_down(q));
            } else if view.is_down(k) {
                assert(keys.contains(k));
            }
        } else {
            assert(view.is_down(q));
        }
    }
}

/// When the page loses the keyboard, no key that is remembered stays down.
pub proof fn law_focus_loss_releases_every_key(view: KeyView, modifiers: BrowserModifiers)
    ensures
        view.released(modifiers).0.pressed.len() == 0,
        view.released(modifiers).1.len() == view.pressed.len(),
        forall|i: int|
            0 <= i < view.pressed.len() ==> (#[trigger] view.released(modifiers).1[i])
                == (CommandView::KeyUp {
                key: view.pressed[i].0,
                text: view.pressed[i].1,
                modifiers,
            }),
{
}

/// What the application owns never reaches the page: neither the press nor,
/// whatever the modifiers are by then, the release.
pub proof fn law_app_shortcuts_never_reach_the_page(
    view: KeyView,
    key: BrowserKey,
    repeat: bool,
    modifiers: Modifiers,
    at_release: Modifiers,
    key_text: Option<char>,
    mac: bool,
)
    requires
        !(key == BrowserKey::Enter && view.url_submit_enter_pending),
    ensures
        ({
            let (mid, sent) = view.key_event(
                Some(key),
                true,
                repeat,
                modifiers,
                key_text,
                true,
                mac,
            );
            let (end, more) = mid.key_event(Some(key), false, false, at_release, None, false, mac);
            &&& sent.len() == 0
            &&& more.len() == 0
            &&& !end.suppressed.contains(key)
        }),
{
    let (mid, sent) = view.key_event(Some(key), true, repeat, modifiers, key_text, true, mac);
    lemma_without_key(view.clipboard, key, key);
    assert(mid.suppressed.contains(key)) by {
        if !view.suppressed.contains(key) {
            let list = view.suppressed.push(key);
            assert(list[list.len() - 1] == key);
        }
    }
    assert(!mid.clipboard.contains(key));
    lemma_without_key(mid.suppressed, key, key);
}

/// A composition lasts through frames until it is committed or dismissed, and
/// while it does no key press carries a character that nobody committed.
pub proof fn law_compositions_are_not_guessed_ahead(
    keys: KeyView,
    events: Seq<PageEvent>,
    n: int,
    exit_active: bool,
    modifiers: Modifiers,
    mac: bool,
)
    requires
        0 <= n <= events.len(),
    ensures
        replay(keys, events, n, exit_active, modifiers, mac).0.keys.ime_composing == composing_at(
            keys.ime_composing,
            events,
            n,
        ),
        n < events.len() && composing_at(keys.ime_composing, events, n) && committed_from(
            events,
            n + 1,
        ) is None ==> key_text_at(events, n, exit_active, keys.ime_composing) is None,
    decreases n,
{
    if n > 0 {
        law_compositions_are_not_guessed_ahead(keys, events, n - 1, exit_active, modifiers, mac);
    }
}

/// Every Cut of a frame, wherever it stands, presses and lifts X with the edit
/// command that cuts, and every Copy does so with C and the one that copies; the
/// platform's primary modifier is held, and the key's own release is done.
pub proof fn law_clipboard_events_cut_and_copy(
    keys: KeyView,
    events: Seq<PageEvent>,
    n: int,
    exit_active: bool,
    modifiers: Modifiers,
    mac: bool,
)
    requires
        0 <= n < events.len(),
    ensures
        ({
            let sent = replay(keys, events, n, exit_active, modifiers, mac).1;
            let (after, more) = replay(keys, events, n + 1, exit_active, modifiers, mac);
            let page = BrowserModifiers {
                alt: modifiers.alt,
                ctrl: modifiers.ctrl || (!modifiers.mac_cmd && !mac),
                meta: modifiers.mac_cmd || (!modifiers.ctrl && mac),
                shift: modifiers.shift,
            };
            let x = BrowserKey::Char('x');
            let c = BrowserKey::Char('c');
            &&& events[n] is Cut ==> more == sent + seq![
                CommandView::KeyDown {
                    key: x,
                    text: None,
                    modifiers: page,
                    repeat: false,
                    edit_command: Some(BrowserEditCommand::Cut),
                },
                CommandView::KeyUp { key: x, text: None, modifiers: page },
            ]
            &&& events[n] is Copy ==> more == sent + seq![
                CommandView::KeyDown {
                    key: c,
                    text: None,
                    modifiers: page,
                    repeat: false,
                    edit_command: Some(BrowserEditCommand::Copy),
                },
                CommandView::KeyUp { key: c, text: None, modifiers: page },
            ]
            &&& events[n] is Cut ==> after.keys.key_event(
                Some(x),
                false,
                false,
                modifiers,
                None,
                false,
                mac,
            ).1.len() == 0
            &&& events[n] is Copy ==> after.keys.key_event(
                Some(c),
                false,
                false,
                modifiers,
                None,
                false,
                mac,
            ).1.len() == 0
        }),
{
    let mid = replay(keys, events, n, exit_active, modifiers, mac).0;
    let x = BrowserKey::Char('x');
    let c = BrowserKey::Char('c');
    super::keys::law_lists_hold_what_was_put_in(mid.keys.clipboard, x, x);
    super::keys::law_lists_hold_what_was_put_in(mid.keys.clipboard, c, c);
}

/// Pasted text and text that an input method commits is inserted as it is.
pub proof fn law_pasted_and_committed_text_is_inserted(
    keys: KeyView,
    events: Seq<PageEvent>,
    n: int,
    exit_active: bool,
    modifiers: Modifiers,
    mac: bool,
)
    requires
        0 <= n < events.len(),
    ensures
        ({
            let sent = replay(keys, events, n, exit_active, modifiers, mac).1;
            let more = replay(keys, events, n + 1, exit_active, modifiers, mac).1;
            &&& events[n] matches PageEvent::Paste(text) ==> (more == if text@.len() > 0 {
                sent.push(CommandView::InsertText(text@))
            } else {
                sent
            })
            &&& events[n] matches PageEvent::ImeCommit(text) ==> (more == if text@.len() > 0 {
                sent.push(CommandView::InsertText(text@))
            } else {
                sent
            })
            &&& events[n] is ImePreedit || events[n] is Other ==> more == sent
        }),
{
    let (mid, sent) = replay(keys, events, n, exit_active, modifiers, mac);
    let more = replay(keys, events, n + 1, exit_active, modifiers, mac).1;
    match events[n] {
        PageEvent::Paste(text) | PageEvent::ImeCommit(text) => {
            if text@.len() > 0 {
                assert(sent + seq![CommandView::InsertText(text@)] =~= sent.push(
                    CommandView::InsertText(text@),
                ));
            } else {
                assert(sent + Seq::<CommandView>::empty() =~= sent);
            }
        },
        _ => {
            assert(sent + Seq::<CommandView>::empty() =~= sent);
        },
    }
}

proof fn lemma_no_keys_no_chars(
    keys: KeyView,
    events: Seq<PageEvent>,
    n: int,
    exit_active: bool,
    modifiers: Modifiers,
    mac: bool,
)
    requires
        0 <= n <= events.len(),
        forall|i: int| 0 <= i < events.len() ==> !(#[trigger] events[i] is Key),
    ensures
        key_chars(events, exit_active, keys.ime_composing, n) == Multiset::<char>::empty(),
        shortcut_chars(events, exit_active, n) == Multiset::<char>::empty(),
    decreases n,
{
    if n > 0 {
        lemma_no_keys_no_chars(keys, events, n - 1, exit_active, modifiers, mac);
        assert(!(events[n - 1] is Key));
    }
}

proof fn lemma_no_keys_nothing_accounted(
    keys: KeyView,
    events: Seq<PageEvent>,
    n: int,
    exit_active: bool,
    modifiers: Modifiers,
    mac: bool,
)
    requires
        0 <= n <= events.len(),
        forall|i: int| 0 <= i < events.len() ==> !(#[trigger] events[i] is Key),
    ensures
        replay(keys, events, n, exit_active, modifiers, mac).0.key_chars
            == Multiset::<char>::empty(),
        replay(keys, events, n, exit_active, modifiers, mac).0.shortcut_chars
            == Multiset::<char>::empty(),
    decreases n,
{
    if n > 0 {
        lemma_no_keys_nothing_accounted(keys, events, n - 1, exit_active, modifiers, mac);
        assert(!(events[n - 1] is Key));
    } else {
        lemma_no_keys_no_chars(keys, events, events.len() as int, exit_active, modifiers, mac);
    }
}

/// Text that comes without key events is inserted as it is.
pub proof fn law_text_without_keys_is_inserted(
    keys: KeyView,
    events: Seq<PageEvent>,
    n: int,
    exit_active: bool,
    modifiers: Modifiers,
    mac: bool,
)
    requires
        0 <= n < events.len(),
        forall|i: int| 0 <= i < events.len() ==> !(#[trigger] events[i] is Key),
    ensures
        events[n] matches PageEvent::Text(text) ==> replay(
            keys,
            events,
            n + 1,
            exit_active,
            modifiers,
            mac,
        ).1 == (if text@.len() > 0 {
            replay(keys, events, n, exit_active, modifiers, mac).1.push(
                CommandView::InsertText(text@),
            )
        } else {
            replay(keys, events, n, exit_active, modifiers, mac).1
        }),
{
    lemma_no_keys_nothing_accounted(keys, events, n, exit_active, modifiers, mac);
    let sent = replay(keys, events, n, exit_active, modifiers, mac).1;
    if let PageEvent::Text(text) = events[n] {
        assert(sent + seq![CommandView::InsertText(text@)] =~= sent.push(
            CommandView::InsertText(text@),
        ));
        assert(sent + Seq::<CommandView>::empty() =~= sent);
    }
}

/// The key is the page's own: nothing of it is pending, and it does not reload.
pub open spec fn plain_key(view: KeyView, key: BrowserKey, modifiers: Modifiers) -> bool {
    &&& !view.suppressed.contains(key)
    &&& !view.clipboard.contains(key)
    &&& !(key == BrowserKey::Enter && view.url_submit_enter_pending)
    &&& key != BrowserKey::Function(5)
    &&& !(key == BrowserKey::Char('r') && (modifiers.ctrl || modifiers.mac_cmd))
}

/// A press goes to the page as it is: the same key and modifiers, its text
/// unless Ctrl, Alt or Command is held, and selecting everything for the
/// platform's primary modifier with A. The release that follows lifts the same
/// key with the same text.
pub proof fn law_presses_and_releases_reach_the_page(
    view: KeyView,
    key: BrowserKey,
    modifiers: Modifiers,
    at_release: Modifiers,
    key_text: Option<char>,
    mac: bool,
)
    requires
        plain_key(view, key, modifiers),
        plain_key(view, key, at_release),
    ensures
        ({
            let (mid, sent) = view.key_event(
                Some(key),
                true,
                false,
                modifiers,
                key_text,
                false,
                mac,
            );
            let (end, more) = mid.key_event(Some(key), false, false, at_release, None, false, mac);
            let text = if modifiers.ctrl || modifiers.alt || modifiers.mac_cmd || key_text is None {
                None
            } else {
                Some(seq![key_text->0])
            };
            &&& sent == seq![
                CommandView::KeyDown {
                    key,
                    text,
                    modifiers: BrowserModifiers {
                        alt: modifiers.alt,
                        ctrl: modifiers.ctrl,
                        meta: modifiers.mac_cmd,
                        shift: modifiers.shift,
                    },
                    repeat: false,
                    edit_command: if key == BrowserKey::Char('a') && !modifiers.alt
                        && !modifiers.shift && ((mac && modifiers.mac_cmd) || (!mac
                        && modifiers.ctrl)) {
                        Some(BrowserEditCommand::SelectAll)
                    } else {
                        None
                    },
                },
            ]
            &&& mid.is_down(key)
            &&& more == seq![
                CommandView::KeyUp {
                    key,
                    text,
                    modifiers: BrowserModifiers {
                        alt: at_release.alt,
                        ctrl: at_release.ctrl,
                        meta: at_release.mac_cmd,
                        shift: at_release.shift,
                    },
                },
            ]
            &&& !end.is_down(key)
        }),
{
    let text = if modifiers.ctrl || modifiers.alt || modifiers.mac_cmd || key_text is None {
        None
    } else {
        Some(seq![key_text->0])
    };
    lemma_put(view.pressed, key, text, key);
    lemma_dropped(put(view.pressed, key, text), key, key);
}

/// A held key repeats as a repeat, but only while the page has it down.
pub proof fn law_repeats_follow_a_press(
    view: KeyView,
    key: BrowserKey,
    modifiers: Modifiers,
    key_text: Option<char>,
    mac: bool,
)
    requires
        plain_key(view, key, modifiers),
    ensures
        ({
            let sent = view.key_event(Some(key), true, true, modifiers, key_text, false, mac).1;
            &&& !view.is_down(key) ==> sent.len() == 0
            &&& view.is_down(key) ==> sent.len() == 1 && (sent[0] matches CommandView::KeyDown {
                key: again,
                repeat,
                ..
            } && again == key && repeat)
        }),
{
}

/// F5, and R with Ctrl or Command, reload the page once: neither a repeat nor
/// the release is sent.
pub proof fn law_reloads_are_sent_once(
    view: KeyView,
    key: BrowserKey,
    modifiers: Modifiers,
    later: Modifiers,
    key_text: Option<char>,
    mac: bool,
)
    requires
        key == BrowserKey::Function(5) || (key == BrowserKey::Char('r') && (modifiers.ctrl
            || modifiers.mac_cmd)),
        !view.suppressed.contains(key),
    ensures
        ({
            let (mid, sent) = view.key_event(
                Some(key),
                true,
                false,
                modifiers,
                key_text,
                false,
                mac,
            );
            &&& sent == seq![CommandView::Reload]
            &&& mid.key_event(Some(key), true, true, later, key_text, false, mac).1.len() == 0
            &&& mid.key_event(Some(key), false, false, later, None, false, mac).1.len() == 0
        }),
{
    super::keys::law_lists_hold_what_was_put_in(view.suppressed, key, key);
}

/// Typing a character sends it once: with the key that gave it, and not again
/// as text. What the application's own shortcut gave is not sent at all.
pub proof fn law_characters_are_typed_once(
    keys: KeyView,
    key: KeyEvent,
    text: String,
    exit_active: bool,
    modifiers: Modifiers,
    mac: bool,
)
    requires
        key.pressed && !key.repeat && key.key is Some,
        plain_key(keys, key.key->0, key.modifiers),
        !(key.modifiers.ctrl || key.modifiers.alt || key.modifiers.mac_cmd),
        text@.len() == 1,
    ensures
        ({
            let frame = seq![PageEvent::Key(key), PageEvent::Text(text)];
            let sent = replay(keys, frame, 2, exit_active, modifiers, mac).1;
            if app_owns(key.shortcuts@, exit_active) {
                sent.len() == 0
            } else {
                sent == seq![
                    CommandView::KeyDown {
                        key: key.key->0,
                        text: Some(text@),
                        modifiers: BrowserModifiers {
                            alt: false,
                            ctrl: false,
                            meta: false,
                            shift: key.modifiers.shift,
                        },
                        repeat: false,
                        edit_command: None,
                    },
                ]
            }
        }),
{
    let frame = seq![PageEvent::Key(key), PageEvent::Text(text)];
    let composing = keys.ime_composing;
    reveal_with_fuel(replay, 3);
    reveal_with_fuel(key_chars, 3);
    reveal_with_fuel(shortcut_chars, 3);
    assert(frame[0] == PageEvent::Key(key) && frame[1] == PageEvent::Text(text));
    assert(committed_from(frame, 1) == Some(text@[0]));
    assert(key_text_at(frame, 1, exit_active, composing) is None);
    assert(!taken_by_app(frame, 1, exit_active));
    let c = text@[0];
    assert(text@ =~= seq![c]);
    if app_owns(key.shortcuts@, exit_active) {
        assert(taken_by_app(frame, 0, exit_active));
        assert(shortcut_chars(frame, exit_active, 2) == Multiset::<char>::empty().insert(c));
    } else {
        assert(key_text_at(frame, 0, exit_active, composing) == Some(c));
        assert(key_chars(frame, exit_active, composing, 2) == Multiset::<char>::empty().insert(c));
    }
    let sent = replay(keys, frame, 2, exit_active, modifiers, mac).1;
    let first = replay(keys, frame, 1, exit_active, modifiers, mac).1;
    assert(first + Seq::<CommandView>::empty() =~= first);
    assert(Seq::<CommandView>::empty() + first =~= first);
}

/// The application owns a press where one of its bindings matches, saving in an
/// editor never among them, and leaving a full-screen panel only while one is.
pub proof fn law_which_presses_the_application_owns(
    shortcuts: Seq<BoundShortcut>,
    exit_active: bool,
)
    ensures
        shortcuts.contains(BoundShortcut::Other) ==> app_owns(shortcuts, exit_active),
        shortcuts.contains(BoundShortcut::ExitFullscreenPanel) && exit_active ==> app_owns(
            shortcuts,
            exit_active,
        ),
        app_owns(shortcuts, exit_active) ==> shortcuts.contains(BoundShortcut::Other) || (
        exit_active && shortcuts.contains(BoundShortcut::ExitFullscreenPanel)),
{
    if shortcuts.contains(BoundShortcut::Other) {
        let i = choose|i: int| 0 <= i < shortcuts.len() && shortcuts[i] == BoundShortcut::Other;
        assert(shortcuts[i] != BoundShortcut::SaveEditor);
    }
    if shortcuts.contains(BoundShortcut::ExitFullscreenPanel) {
        let i = choose|i: int|
            0 <= i < shortcuts.len() && shortcuts[i] == BoundShortcut::ExitFullscreenPanel;
        assert(shortcuts[i] != BoundShortcut::SaveEditor);
    }
}

/// While the URL bar has the keyboard, the page gets nothing of what is typed
/// there: only reloads, and the end of what was begun before.
pub proof fn law_the_url_bar_keeps_its_keys(
    keys: KeyView,
    events: Seq<PageEvent>,
    n: int,
    mac: bool,
)
    requires
        0 <= n <= events.len(),
        keys.suppressed.len() == 0,
        keys.clipboard.len() == 0,
        !keys.url_submit_enter_pending,
        forall|i: int|
            0 <= i < events.len() ==> (#[trigger] events[i] matches PageEvent::Key(key)
                ==> key.key != Some(BrowserKey::Function(5)) && !(key.key == Some(
                BrowserKey::Char('r'),
            ) && (key.modifiers.ctrl || key.modifiers.mac_cmd))),
    ensures
        url_replay(keys, events, n, mac) == (keys, Seq::<CommandView>::empty()),
    decreases n,
{
    if n > 0 {
        law_the_url_bar_keeps_its_keys(keys, events, n - 1, mac);
        assert(events[n - 1] is Key || !(events[n - 1] is Key));
    }
}

/// Alt, Ctrl and Shift are the page's own; its Meta is the Mac's Command key.
pub proof fn law_modifiers_keep_their_names(modifiers: Modifiers)
    ensures
        page_modifiers(modifiers).alt <==> modifiers.alt,
        page_modifiers(modifiers).ctrl <==> modifiers.ctrl,
        page_modifiers(modifiers).meta <==> modifiers.mac_cmd,
        page_modifiers(modifiers).shift <==> modifiers.shift,
{
}

/// The release of an Enter that the URL bar was given does not reach the page,
/// nor does a press before it; after it Enter is the page's again.
pub proof fn law_submitted_enters_stay_with_the_url_bar(
    view: KeyView,
    repeat: bool,
    modifiers: Modifiers,
    key_text: Option<char>,
    app_shortcut: bool,
    mac: bool,
)
    requires
        view.url_submit_enter_pending,
    ensures
        ({
            let key = Some(BrowserKey::Enter);
            let (held, first) = view.key_event(
                key,
                true,
                repeat,
                modifiers,
                key_text,
                app_shortcut,
                mac,
            );
            let (up, then) = view.key_event(
                key,
                false,
                repeat,
                modifiers,
                key_text,
                app_shortcut,
                mac,
            );
            &&& first.len() == 0 && held == view
            &&& then.len() == 0 && !up.url_submit_enter_pending && up.pressed == view.pressed
        }),
{
}

/// Text that is held starts a composition; a dismissal and a commit end it, and
/// nothing else changes it.
pub proof fn law_compositions_begin_and_end(
    keys: KeyView,
    events: Seq<PageEvent>,
    n: int,
    exit_active: bool,
    modifiers: Modifiers,
    mac: bool,
)
    requires
        0 <= n < events.len(),
    ensures
        ({
            let before = replay(keys, events, n, exit_active, modifiers, mac).0.keys.ime_composing;
            let after = replay(
                keys,
                events,
                n + 1,
                exit_active,
                modifiers,
                mac,
            ).0.keys.ime_composing;
            &&& events[n] matches PageEvent::ImePreedit(text) ==> (after <==> text@.len() > 0)
            &&& events[n] is ImeCommit ==> !after
            &&& !(events[n] is ImePreedit) && !(events[n] is ImeCommit) ==> after == before
        }),
{
    law_compositions_are_not_guessed_ahead(keys, events, n, exit_active, modifiers, mac);
    law_compositions_are_not_guessed_ahead(keys, events, n + 1, exit_active, modifiers, mac);
}

/// A press whose text has not come yet carries the character that its layout
/// predicts, but not while something is composed.
pub proof fn law_missing_text_is_predicted(
    keys: KeyView,
    key: KeyEvent,
    exit_active: bool,
    modifiers: Modifiers,
    mac: bool,
)
    requires
        key.pressed && !key.repeat && key.key is Some,
        plain_key(keys, key.key->0, key.modifiers),
        !(key.modifiers.ctrl || key.modifiers.alt || key.modifiers.mac_cmd),
        !app_owns(key.shortcuts@, exit_active),
    ensures
        ({
            let sent = replay(keys, seq![PageEvent::Key(key)], 1, exit_active, modifiers, mac).1;
            &&& sent.len() == 1
            &&& sent[0] matches CommandView::KeyDown { key: k, text, .. } && k == key.key->0
                && text == (if keys.ime_composing || key.predicted is None {
                None
            } else {
                Some(seq![key.predicted->0])
            })
        }),
{
    let frame = seq![PageEvent::Key(key)];
    reveal_with_fuel(replay, 2);
    assert(frame[0] == PageEvent::Key(key));
    assert(committed_from(frame, 1) is None);
    assert(composing_at(keys.ime_composing, frame, 0) == keys.ime_composing);
}

/// A character belongs to the key before it: other keys and committed
/// compositions come between, anything else does not.
pub proof fn law_text_belongs_to_the_key_before(events: Seq<PageEvent>, from: int)
    requires
        0 <= from < events.len(),
    ensures
        events[from] matches PageEvent::Text(text) ==> (text@.len() == 1 ==> committed_from(
            events,
            from,
        ) == Some(text@[0])) && (text@.len() != 1 ==> committed_from(events, from) is None),
        events[from] is Key || events[from] is ImeCommit ==> committed_from(events, from) is None,
        events[from] is ImePreedit || events[from] is Paste || events[from] is Copy || events[from]
            is Cut || events[from] is Other ==> committed_from(events, from) == committed_from(
            events,
            from + 1,
        ),
{
}

/// Saving in an editor, and leaving full screen where there is none to leave, are
/// not the application's.
pub proof fn law_some_presses_stay_the_pages(shortcuts: Seq<BoundShortcut>)
    ensures
        (forall|i: int|
            0 <= i < shortcuts.len() ==> #[trigger] shortcuts[i] == BoundShortcut::SaveEditor)
            ==> !app_owns(shortcuts, true) && !app_owns(shortcuts, false),
        (forall|i: int|
            0 <= i < shortcuts.len() ==> #[trigger] shortcuts[i]
                == BoundShortcut::ExitFullscreenPanel) ==> !app_owns(shortcuts, false),
{
}

/// While the URL bar has the keyboard a reload still reaches the page.
pub proof fn law_reloads_work_from_the_url_bar(
    keys: KeyView,
    key: KeyEvent,
    mac: bool,
)
    requires
        key.pressed && !key.repeat,
        key.key == Some(BrowserKey::Function(5)) || (key.key == Some(BrowserKey::Char('r')) && (
        key.modifiers.ctrl || key.modifiers.mac_cmd)),
        !keys.suppressed.contains(key.key->0),
    ensures
        url_replay(keys, seq![PageEvent::Key(key)], 1, mac).1 =~= seq![CommandView::Reload],
{
    reveal_with_fuel(url_replay, 2);
    assert(seq![PageEvent::Key(key)][0] == PageEvent::Key(key));
}

/// What is said of the keyboard is said of what it holds.
pub proof fn law_key_state_is_seen_as_it_is(value: KeyState)
    ensures
        value@.pressed == pressed_views(value.pressed@),
        value@.suppressed == value.suppressed@,
        value@.clipboard == value.clipboard@,
        value@.url_submit_enter_pending == value.url_submit_enter_pending,
        value@.ime_composing == value.ime_composing,
{
}

/// Commands are seen one by one, in their order.
pub proof fn law_commands_are_seen_in_order(list: Seq<BrowserCommand>, k: int)
    requires
        0 <= k < list.len(),
    ensures
        command_views(list).len() == list.len(),
        command_views(list)[k] == list[k]@,
{
}

/// Keys that are down are seen with their text, in their order.
pub proof fn law_pressed_keys_are_seen_in_order(list: Seq<PressedKey>, k: int)
    requires
        0 <= k < list.len(),
    ensures
        pressed_views(list).len() == list.len(),
        pressed_views(list)[k] == (list[k].key, opt_text(list[k].text)),
{
}

/// A command is seen as it is: its kind, its key, its text and its modifiers.
pub proof fn law_commands_are_seen_as_they_are(command: BrowserCommand)
    ensures
        command is Reload ==> command@ is Reload,
        command matches BrowserCommand::InsertText(text) ==> command@ == CommandView::InsertText(
            text@,
        ),
        command matches BrowserCommand::KeyDown { key, text, modifiers, repeat, edit_command }
            ==> command@ == (CommandView::KeyDown {
            key,
            text: opt_text(text),
            modifiers,
            repeat,
            edit_command,
        }),
        command matches BrowserCommand::KeyUp { key, text, modifiers } ==> command@
            == (CommandView::KeyUp { key, text: opt_text(text), modifiers }),
{
}

} // verus!
