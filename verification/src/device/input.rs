//! Turning the viewer's pointer and keyboard into what the desktop is sent.
//! Positions and wheel travel are in thousandths of a logical point.
use vstd::prelude::*;

use super::keysym::{
    char_keysym, egui_key_symbol, key_keysym, keysym_for_char, keysym_for_key, modifier_keysym,
    XK_ALT_L, XK_CONTROL_L, XK_SHIFT_L, XK_SUPER_L,
};
use crate::geometry::{Pos, ScreenRect};
use crate::modifiers::{no_modifiers, Modifiers};
use crate::text::{chars_of, control, is_control};

verus! {

/// Bits of the protocol's button mask.
pub const BUTTON_LEFT: u8 = 1;

pub const BUTTON_MIDDLE: u8 = 2;

pub const BUTTON_RIGHT: u8 = 4;

pub const BUTTON_SCROLL_UP: u8 = 8;

pub const BUTTON_SCROLL_DOWN: u8 = 16;

pub const BUTTON_SCROLL_LEFT: u8 = 32;

pub const BUTTON_SCROLL_RIGHT: u8 = 64;

/// One scroll notch per this much wheel travel.
pub const SCROLL_NOTCH: i64 = 40_000;

pub const MAX_SCROLL_NOTCHES_PER_FRAME: i64 = 8;

/// Where the pointer is on the desktop, in server pixels.
#[derive(Clone, Copy, Debug, PartialEq, Eq, Structural)]
pub struct DesktopPoint {
    pub x: u16,
    pub y: u16,
}

/// What the desktop is told.
#[derive(Clone, Copy, Debug, PartialEq, Eq, Structural)]
pub enum InputEvent {
    Key { keysym: u32, down: bool },
    Pointer { x: u16, y: u16, buttons: u8 },
}

#[derive(Clone, Copy, Debug, PartialEq, Eq, Structural)]
pub enum PointerButton {
    Primary,
    Secondary,
    Middle,
    Extra1,
    Extra2,
}

/// The mask bit of a button; extra buttons have none.
pub open spec fn bit_of(button: PointerButton) -> Option<u8> {
    match button {
        PointerButton::Primary => Some(BUTTON_LEFT),
        PointerButton::Secondary => Some(BUTTON_RIGHT),
        PointerButton::Middle => Some(BUTTON_MIDDLE),
        PointerButton::Extra1 | PointerButton::Extra2 => None,
    }
}

pub fn button_bit(button: PointerButton) -> (bit: Option<u8>)
    ensures
        bit == bit_of(button),
{
    match button {
        PointerButton::Primary => Some(BUTTON_LEFT),
        PointerButton::Secondary => Some(BUTTON_RIGHT),
        PointerButton::Middle => Some(BUTTON_MIDDLE),
        PointerButton::Extra1 | PointerButton::Extra2 => None,
    }
}

/// The part of the desktop that is shown.
#[derive(Clone, Copy, Debug, PartialEq, Eq, Structural)]
pub struct DesktopCrop {
    pub x: usize,
    pub y: usize,
    pub width: usize,
    pub height: usize,
}

/// The desktop column or row that a point `offset` into an image side of `size`
/// shows, where the side shows `span` of them from `start` on.
pub open spec fn shown_at(offset: int, size: int, start: int, span: int) -> u16 {
    let scaled = offset * span / size;
    let last = if span > 0 {
        span - 1
    } else {
        0
    };
    let at = start + (if scaled < last {
        scaled
    } else {
        last
    });
    if at <= u16::MAX {
        at as u16
    } else {
        u16::MAX
    }
}

/// The desktop pixel that a point of the image shows, the crop and the scale
/// honoured; outside the image there is none.
pub open spec fn point_at(image: ScreenRect, crop: DesktopCrop, pos: Pos) -> Option<DesktopPoint> {
    if image.holds(pos) && image.solid() {
        Some(
            DesktopPoint {
                x: shown_at(
                    pos.x - image.min_x,
                    image.max_x - image.min_x,
                    crop.x as int,
                    crop.width as int,
                ),
                y: shown_at(
                    pos.y - image.min_y,
                    image.max_y - image.min_y,
                    crop.y as int,
                    crop.height as int,
                ),
            },
        )
    } else {
        None
    }
}

fn axis(offset: u64, size: u64, start: usize, span: usize) -> (at: u16)
    requires
        0 < size <= 0xffff_ffff,
        offset <= size,
    ensures
        at == shown_at(offset as int, size as int, start as int, span as int),
{
    let last: u128 = if span > 0 {
        (span - 1) as u128
    } else {
        0
    };
    assert(0 <= offset * span <= 0xffff_ffff * 0xffff_ffff_ffff_ffff) by (nonlinear_arith)
        requires
            offset <= 0xffff_ffff,
            span <= 0xffff_ffff_ffff_ffff,
    ;
    let scaled: u128 = (offset as u128) * (span as u128) / (size as u128);
    let step: u128 = if scaled < last {
        scaled
    } else {
        last
    };
    let at: u128 = (start as u128) + step;
    if at <= 65535 {
        at as u16
    } else {
        65535
    }
}

pub fn desktop_point(image: ScreenRect, crop: DesktopCrop, pos: Pos) -> (point: Option<
    DesktopPoint,
>)
    ensures
        point == point_at(image, crop, pos),
{
    if !image.contains(pos) || image.min_x >= image.max_x || image.min_y >= image.max_y {
        return None;
    }
    let dx: u64 = (pos.x as i64 - image.min_x as i64) as u64;
    let dy: u64 = (pos.y as i64 - image.min_y as i64) as u64;
    let width: u64 = (image.max_x as i64 - image.min_x as i64) as u64;
    let height: u64 = (image.max_y as i64 - image.min_y as i64) as u64;
    Some(
        DesktopPoint {
            x: axis(dx, width, crop.x, crop.width),
            y: axis(dy, height, crop.y, crop.height),
        },
    )
}

/// A point of the image never maps outside what the crop shows.
pub proof fn law_points_stay_in_the_crop(image: ScreenRect, crop: DesktopCrop, pos: Pos)
    requires
        crop.width > 0,
        crop.height > 0,
        crop.x + crop.width <= 65536,
        crop.y + crop.height <= 65536,
    ensures
        point_at(image, crop, pos) matches Some(point) ==> crop.x <= point.x < crop.x + crop.width
            && crop.y <= point.y < crop.y + crop.height,
{
    if point_at(image, crop, pos) is Some {
        lemma_shown_in_span(
            pos.x - image.min_x,
            image.max_x - image.min_x,
            crop.x as int,
            crop.width as int,
        );
        lemma_shown_in_span(
            pos.y - image.min_y,
            image.max_y - image.min_y,
            crop.y as int,
            crop.height as int,
        );
    }
}

proof fn lemma_shown_in_span(offset: int, size: int, start: int, span: int)
    requires
        0 <= offset,
        0 < size,
        0 < span,
        0 <= start,
        start + span <= 65536,
    ensures
        start <= shown_at(offset, size, start, span) < start + span,
{
    assert(0 <= offset * span / size) by (nonlinear_arith)
        requires
            0 <= offset,
            0 < size,
            0 < span,
    ;
}

/// What the viewer has told the desktop so far, so that only changes are sent
/// and everything held is let go when capture ends.
pub struct InputState {
    pub buttons: u8,
    pub position: Option<DesktopPoint>,
    pub modifiers: Modifiers,
    pub held_keys: Vec<u32>,
    /// Wheel travel not yet worth a whole notch; trackpads deliver many small
    /// deltas that must add up rather than each become a click.
    pub scroll_x: i64,
    pub scroll_y: i64,
}

/// The same, as a value.
pub struct InputView {
    pub buttons: u8,
    pub position: Option<DesktopPoint>,
    pub modifiers: Modifiers,
    pub held: Seq<u32>,
    pub scroll_x: int,
    pub scroll_y: int,
}

impl View for InputState {
    type V = InputView;

    open spec fn view(&self) -> InputView {
        InputView {
            buttons: self.buttons,
            position: self.position,
            modifiers: self.modifiers,
            held: self.held_keys@,
            scroll_x: self.scroll_x as int,
            scroll_y: self.scroll_y as int,
        }
    }
}

pub open spec fn mouse(at: DesktopPoint, buttons: u8) -> InputEvent {
    InputEvent::Pointer { x: at.x, y: at.y, buttons }
}

/// How many whole notches `travel` holds, towards zero.
pub open spec fn whole_notches(travel: int) -> int {
    if travel >= 0 {
        travel / SCROLL_NOTCH as int
    } else {
        -((-travel) / SCROLL_NOTCH as int)
    }
}

/// `n` clicks of the wheel button `bit`, over the buttons that are held.
pub open spec fn clicks(at: DesktopPoint, buttons: u8, bit: u8, n: int) -> Seq<InputEvent>
    decreases n,
{
    if n <= 0 {
        Seq::empty()
    } else {
        clicks(at, buttons, bit, n - 1).push(mouse(at, buttons | bit)).push(mouse(at, buttons))
    }
}

/// The clicks that whole notches of travel along one axis make: at most so many
/// in a frame.
pub open spec fn axis_clicks(
    at: DesktopPoint,
    buttons: u8,
    notches: int,
    positive: u8,
    negative: u8,
) -> Seq<InputEvent> {
    let size = if notches >= 0 {
        notches
    } else {
        -notches
    };
    clicks(
        at,
        buttons,
        if notches > 0 {
            positive
        } else {
            negative
        },
        if size < MAX_SCROLL_NOTCHES_PER_FRAME {
            size
        } else {
            MAX_SCROLL_NOTCHES_PER_FRAME as int
        },
    )
}

pub open spec fn modifier_event(was: bool, now: bool, keysym: u32) -> Seq<InputEvent> {
    if was != now {
        seq![InputEvent::Key { keysym, down: now }]
    } else {
        Seq::empty()
    }
}

/// What a change of the modifiers sends.
pub open spec fn modifier_events(was: Modifiers, now: Modifiers) -> Seq<InputEvent> {
    modifier_event(was.shift, now.shift, XK_SHIFT_L) + modifier_event(
        was.ctrl,
        now.ctrl,
        XK_CONTROL_L,
    ) + modifier_event(was.alt, now.alt, XK_ALT_L) + modifier_event(
        was.mac_cmd,
        now.mac_cmd,
        XK_SUPER_L,
    )
}

pub open spec fn without(list: Seq<u32>, keysym: u32) -> Seq<u32>
    decreases list.len(),
{
    if list.len() == 0 {
        Seq::empty()
    } else if list.last() == keysym {
        without(list.drop_last(), keysym)
    } else {
        without(list.drop_last(), keysym).push(list.last())
    }
}

/// Releases of all `held`, in the order in which they went down.
pub open spec fn releases(held: Seq<u32>) -> Seq<InputEvent> {
    held.map_values(|keysym: u32| InputEvent::Key { keysym, down: false })
}

/// A press and a release for every scalar of `text` that is no control.
pub open spec fn typed(text: Seq<char>) -> Seq<InputEvent>
    decreases text.len(),
{
    if text.len() == 0 {
        Seq::empty()
    } else if control(text.last()) {
        typed(text.drop_last())
    } else {
        let keysym = char_keysym(text.last());
        typed(text.drop_last()).push(InputEvent::Key { keysym, down: true }).push(
            InputEvent::Key { keysym, down: false },
        )
    }
}

impl InputView {
    pub open spec fn start() -> InputView {
        InputView {
            buttons: 0,
            position: None,
            modifiers: no_modifiers(),
            held: Seq::empty(),
            scroll_x: 0,
            scroll_y: 0,
        }
    }

    /// A button is held only at a known position, no modifier is among the held
    /// keys, no key is held twice, and less than a notch of travel is kept.
    pub open spec fn valid(self) -> bool {
        &&& self.buttons != 0 ==> self.position is Some
        &&& forall|i: int| 0 <= i < self.held.len() ==> !modifier_keysym(#[trigger] self.held[i])
        &&& self.held.no_duplicates()
        &&& -SCROLL_NOTCH < self.scroll_x < SCROLL_NOTCH
        &&& -SCROLL_NOTCH < self.scroll_y < SCROLL_NOTCH
    }

    /// The pointer is at `position` with `buttons` down; off the image it stays
    /// where the desktop saw it last.
    pub open spec fn pointer(self, position: Option<DesktopPoint>, buttons: u8) -> (
        InputView,
        Seq<InputEvent>,
    ) {
        let at = if position is Some {
            position
        } else {
            self.position
        };
        if at is None || (at == self.position && buttons == self.buttons) {
            (self, Seq::empty())
        } else {
            (InputView { position: at, buttons, ..self }, seq![mouse(at->0, buttons)])
        }
    }

    /// Wheel travel adds up, and whole notches become clicks at the pointer:
    /// first up and down, then sideways.
    pub open spec fn scroll(self, dx: int, dy: int) -> (InputView, Seq<InputEvent>) {
        match self.position {
            None => (self, Seq::empty()),
            Some(at) => {
                let x = self.scroll_x + dx;
                let y = self.scroll_y + dy;
                (
                    InputView {
                        scroll_x: x - whole_notches(x) * SCROLL_NOTCH,
                        scroll_y: y - whole_notches(y) * SCROLL_NOTCH,
                        ..self
                    },
                    axis_clicks(
                        at,
                        self.buttons,
                        whole_notches(y),
                        BUTTON_SCROLL_UP,
                        BUTTON_SCROLL_DOWN,
                    ) + axis_clicks(
                        at,
                        self.buttons,
                        whole_notches(x),
                        BUTTON_SCROLL_LEFT,
                        BUTTON_SCROLL_RIGHT,
                    ),
                )
            },
        }
    }

    pub open spec fn set_modifiers(self, now: Modifiers) -> (InputView, Seq<InputEvent>) {
        (InputView { modifiers: now, ..self }, modifier_events(self.modifiers, now))
    }

    pub open spec fn track(self, keysym: u32, down: bool) -> InputView {
        if !down {
            InputView { held: without(self.held, keysym), ..self }
        } else if self.held.contains(keysym) {
            self
        } else {
            InputView { held: self.held.push(keysym), ..self }
        }
    }

    /// A printable key without Ctrl or Command arrives again as text and is
    /// left to it, except for the release of one that is held.
    pub open spec fn key(self, keysym: Option<u32>, down: bool, modifiers: Modifiers) -> (
        InputView,
        Seq<InputEvent>,
    ) {
        match keysym {
            None => (self, Seq::empty()),
            Some(k) => if k < 0xff00 && !(modifiers.ctrl || modifiers.mac_cmd) && !(!down
                && self.held.contains(k)) {
                (self, Seq::empty())
            } else {
                (self.track(k, down), seq![InputEvent::Key { keysym: k, down }])
            },
        }
    }

    /// The press of a letter with Ctrl or Command down; where neither is, Ctrl
    /// goes down first.
    pub open spec fn chord(self, letter: char) -> (InputView, Seq<InputEvent>) {
        let armed = if self.modifiers.ctrl || self.modifiers.mac_cmd {
            self
        } else {
            InputView { modifiers: Modifiers { ctrl: true, ..self.modifiers }, ..self }
        };
        let k = char_keysym(letter);
        (
            armed.track(k, true),
            modifier_event(
                self.modifiers.ctrl,
                armed.modifiers.ctrl,
                XK_CONTROL_L,
            ).push(InputEvent::Key { keysym: k, down: true }),
        )
    }

    /// Keys go up first, then the modifiers, then the buttons.
    pub open spec fn release_all(self) -> (InputView, Seq<InputEvent>) {
        let freed = InputView {
            held: Seq::empty(),
            modifiers: no_modifiers(),
            scroll_x: 0,
            scroll_y: 0,
            ..self
        };
        let keys = releases(self.held) + modifier_events(self.modifiers, no_modifiers());
        if self.buttons != 0 && self.position is Some {
            (InputView { buttons: 0, ..freed }, keys.push(mouse(self.position->0, 0)))
        } else {
            (freed, keys)
        }
    }
}

impl InputState {
    pub open spec fn valid(self) -> bool {
        self@.valid()
    }

    pub fn new() -> (state: Self)
        ensures
            state@ == InputView::start(),
            state.valid(),
    {
        let state = InputState {
            buttons: 0,
            position: None,
            modifiers: Modifiers::none(),
            held_keys: Vec::new(),
            scroll_x: 0,
            scroll_y: 0,
        };
        assert(state.held_keys@ =~= Seq::<u32>::empty());
        state
    }

    /// The button mask the desktop currently believes is held.
    pub fn buttons(&self) -> (buttons: u8)
        ensures
            buttons == self.buttons,
    {
        self.buttons
    }

    pub fn pointer(&mut self, position: Option<DesktopPoint>, buttons: u8) -> (events: Vec<
        InputEvent,
    >)
        requires
            old(self).valid(),
        ensures
            final(self).valid(),
            (final(self)@, events@) == old(self)@.pointer(position, buttons),
    {
        let mut events: Vec<InputEvent> = Vec::new();
        let at = match position {
            Some(p) => p,
            None => match self.position {
                Some(p) => p,
                None => return events,
            },
        };
        let moved = match self.position {
            Some(p) => p != at,
            None => true,
        };
        if moved || buttons != self.buttons {
            self.position = Some(at);
            self.buttons = buttons;
            events.push(InputEvent::Pointer { x: at.x, y: at.y, buttons });
            assert(events@ =~= seq![mouse(at, buttons)]);
        }
        events
    }

    fn push_clicks(&self, events: &mut Vec<InputEvent>, at: DesktopPoint, bit: u8, n: i64)
        requires
            0 <= n,
        ensures
            final(events)@ == old(events)@ + clicks(at, self.buttons, bit, n as int),
    {
        let ghost before = events@;
        let mut i: i64 = 0;
        assert(events@ =~= before + clicks(at, self.buttons, bit, 0));
        while i < n
            invariant
                0 <= i <= n,
                events@ == before + clicks(at, self.buttons, bit, i as int),
            decreases n - i,
        {
            events.push(InputEvent::Pointer { x: at.x, y: at.y, buttons: self.buttons | bit });
            events.push(InputEvent::Pointer { x: at.x, y: at.y, buttons: self.buttons });
            assert(events@ =~= before + clicks(at, self.buttons, bit, i + 1));
            i = i + 1;
        }
    }

    fn notches(travel: i64) -> (n: i64)
        requires
            -0x1_0000_0000 <= travel <= 0x1_0000_0000,
        ensures
            n == whole_notches(travel as int),
            -SCROLL_NOTCH < travel - n * SCROLL_NOTCH < SCROLL_NOTCH,
            -0x1_0000_0000 <= n <= 0x1_0000_0000,
    {
        if travel >= 0 {
            travel / SCROLL_NOTCH
        } else {
            -((-travel) / SCROLL_NOTCH)
        }
    }

    fn push_axis(
        &self,
        events: &mut Vec<InputEvent>,
        at: DesktopPoint,
        notches: i64,
        positive: u8,
        negative: u8,
    )
        requires
            -0x1_0000_0000 <= notches <= 0x1_0000_0000,
        ensures
            final(events)@ == old(events)@ + axis_clicks(
                at,
                self.buttons,
                notches as int,
                positive,
                negative,
            ),
    {
        let size: i64 = if notches >= 0 {
            notches
        } else {
            -notches
        };
        let capped: i64 = if size < MAX_SCROLL_NOTCHES_PER_FRAME {
            size
        } else {
            MAX_SCROLL_NOTCHES_PER_FRAME
        };
        let bit: u8 = if notches > 0 {
            positive
        } else {
            negative
        };
        self.push_clicks(events, at, bit, capped);
    }

    /// Travel is kept across frames and only whole notches are sent; what is
    /// beyond the cap of a frame is dropped rather than queued.
    pub fn scroll(&mut self, dx: i32, dy: i32) -> (events: Vec<InputEvent>)
        requires
            old(self).valid(),
        ensures
            final(self).valid(),
            (final(self)@, events@) == old(self)@.scroll(dx as int, dy as int),
    {
        let mut events: Vec<InputEvent> = Vec::new();
        let at = match self.position {
            Some(p) => p,
            None => return events,
        };
        let x: i64 = self.scroll_x + dx as i64;
        let y: i64 = self.scroll_y + dy as i64;
        let whole_x: i64 = Self::notches(x);
        let whole_y: i64 = Self::notches(y);
        self.scroll_x = x - whole_x * SCROLL_NOTCH;
        self.scroll_y = y - whole_y * SCROLL_NOTCH;
        self.push_axis(&mut events, at, whole_y, BUTTON_SCROLL_UP, BUTTON_SCROLL_DOWN);
        self.push_axis(&mut events, at, whole_x, BUTTON_SCROLL_LEFT, BUTTON_SCROLL_RIGHT);
        assert(events@ =~= old(self)@.scroll(dx as int, dy as int).1);
        events
    }

    fn push_modifier(events: &mut Vec<InputEvent>, was: bool, now: bool, keysym: u32)
        ensures
            final(events)@ == old(events)@ + modifier_event(was, now, keysym),
    {
        let ghost before = events@;
        if was != now {
            events.push(InputEvent::Key { keysym, down: now });
        }
        assert(events@ =~= before + modifier_event(was, now, keysym));
    }

    /// The state is diffed rather than trusting key events: not every platform
    /// reports the presses of the modifiers themselves.
    pub fn modifiers(&mut self, modifiers: Modifiers) -> (events: Vec<InputEvent>)
        requires
            old(self).valid(),
        ensures
            final(self).valid(),
            (final(self)@, events@) == old(self)@.set_modifiers(modifiers),
    {
        let was = self.modifiers;
        let mut events: Vec<InputEvent> = Vec::new();
        Self::push_modifier(&mut events, was.shift, modifiers.shift, XK_SHIFT_L);
        Self::push_modifier(&mut events, was.ctrl, modifiers.ctrl, XK_CONTROL_L);
        Self::push_modifier(&mut events, was.alt, modifiers.alt, XK_ALT_L);
        Self::push_modifier(&mut events, was.mac_cmd, modifiers.mac_cmd, XK_SUPER_L);
        self.modifiers = modifiers;
        assert(events@ =~= modifier_events(was, modifiers));
        events
    }

    fn holds(&self, keysym: u32) -> (yes: bool)
        ensures
            yes == self.held_keys@.contains(keysym),
    {
        let mut i: usize = 0;
        while i < self.held_keys.len()
            invariant
                i <= self.held_keys@.len(),
                forall|j: int| 0 <= j < i ==> self.held_keys@[j] != keysym,
            decreases self.held_keys@.len() - i,
        {
            if self.held_keys[i] == keysym {
                return true;
            }
            i = i + 1;
        }
        false
    }

    fn track(&mut self, keysym: u32, down: bool)
        requires
            old(self).valid(),
            !modifier_keysym(keysym),
        ensures
            final(self).valid(),
            final(self)@ == old(self)@.track(keysym, down),
    {
        let ghost before = self.held_keys@;
        if down {
            if !self.holds(keysym) {
                self.held_keys.push(keysym);
                proof {
                    lemma_push_distinct(before, keysym);
                }
            }
        } else {
            let mut kept: Vec<u32> = Vec::new();
            let mut i: usize = 0;
            assert(kept@ =~= without(before.take(0), keysym));
            while i < self.held_keys.len()
                invariant
                    self.held_keys@ == before,
                    i <= before.len(),
                    kept@ == without(before.take(i as int), keysym),
                decreases before.len() - i,
            {
                assert(before.take(i + 1).drop_last() =~= before.take(i as int));
                if self.held_keys[i] != keysym {
                    kept.push(self.held_keys[i]);
                }
                i = i + 1;
            }
            assert(before.take(i as int) =~= before);
            proof {
                lemma_without(before, keysym);
            }
            self.held_keys = kept;
        }
    }

    /// A press or release of the key that egui calls `name`.
    pub fn key(&mut self, name: &str, down: bool, modifiers: Modifiers) -> (events: Vec<InputEvent>)
        requires
            old(self).valid(),
        ensures
            final(self).valid(),
            (final(self)@, events@) == old(self)@.key(
                key_keysym(name@, egui_key_symbol(name@)),
                down,
                modifiers,
            ),
    {
        let keysym = keysym_for_key(name);
        proof {
            super::keysym::law_keys_are_never_modifiers(name@, egui_key_symbol(name@));
        }
        self.press(keysym, down, modifiers)
    }

    /// A press or release of the key with this keysym, if it has one.
    pub fn press(&mut self, keysym: Option<u32>, down: bool, modifiers: Modifiers) -> (events: Vec<
        InputEvent,
    >)
        requires
            old(self).valid(),
            keysym matches Some(k) ==> !modifier_keysym(k),
        ensures
            final(self).valid(),
            (final(self)@, events@) == old(self)@.key(keysym, down, modifiers),
    {
        let mut events: Vec<InputEvent> = Vec::new();
        let k: u32 = match keysym {
            Some(k) => k,
            None => return events,
        };
        let releasing_held = !down && self.holds(k);
        if k < 0xff00 && !(modifiers.ctrl || modifiers.mac_cmd) && !releasing_held {
            return events;
        }
        self.track(k, down);
        events.push(InputEvent::Key { keysym: k, down });
        assert(events@ =~= seq![InputEvent::Key { keysym: k, down }]);
        events
    }

    /// Typed text: a press and release per character.
    pub fn text(text: &str) -> (events: Vec<InputEvent>)
        ensures
            events@ == typed(text@),
    {
        let chars = chars_of(text);
        let mut events: Vec<InputEvent> = Vec::new();
        let mut i: usize = 0;
        assert(events@ =~= typed(text@.take(0)));
        while i < chars.len()
            invariant
                chars@ == text@,
                i <= chars@.len(),
                events@ == typed(text@.take(i as int)),
            decreases chars@.len() - i,
        {
            assert(text@.take(i + 1).drop_last() =~= text@.take(i as int));
            if !is_control(chars[i]) {
                let keysym: u32 = keysym_for_char(chars[i]);
                events.push(InputEvent::Key { keysym, down: true });
                events.push(InputEvent::Key { keysym, down: false });
            }
            i = i + 1;
        }
        assert(text@.take(i as int) =~= text@);
        events
    }

    /// A clipboard action arrives without its key press; the desktop gets the
    /// chord so that it runs its own.
    pub fn clipboard_chord(&mut self, letter: char) -> (events: Vec<InputEvent>)
        requires
            old(self).valid(),
            'a' <= letter && letter <= 'z',
        ensures
            final(self).valid(),
            (final(self)@, events@) == old(self)@.chord(letter),
    {
        let mut events: Vec<InputEvent> = Vec::new();
        let ghost was = self.modifiers;
        if !self.modifiers.ctrl && !self.modifiers.mac_cmd {
            self.modifiers.ctrl = true;
            events.push(InputEvent::Key { keysym: XK_CONTROL_L, down: true });
        }
        assert(events@ =~= modifier_event(was.ctrl, self.modifiers.ctrl, XK_CONTROL_L));
        let keysym: u32 = keysym_for_char(letter);
        self.track(keysym, true);
        events.push(InputEvent::Key { keysym, down: true });
        events
    }

    /// Lets go of everything when the viewer loses capture, so that the desktop
    /// is not left with a stuck key or button.
    pub fn release_all(&mut self) -> (events: Vec<InputEvent>)
        requires
            old(self).valid(),
        ensures
            final(self).valid(),
            (final(self)@, events@) == old(self)@.release_all(),
    {
        // A partial wheel gesture must not carry into the next capture.
        self.scroll_x = 0;
        self.scroll_y = 0;
        let mut events: Vec<InputEvent> = Vec::new();
        let ghost held = self.held_keys@;
        let mut i: usize = 0;
        while i < self.held_keys.len()
            invariant
                self.held_keys@ == held,
                i <= held.len(),
                events@ == releases(held.take(i as int)),
            decreases held.len() - i,
        {
            let keysym: u32 = self.held_keys[i];
            events.push(InputEvent::Key { keysym, down: false });
            assert(events@ =~= releases(held.take(i + 1)));
            i = i + 1;
        }
        assert(held.take(i as int) =~= held);
        self.held_keys = Vec::new();
        assert(self.held_keys@ =~= Seq::<u32>::empty());
        let mut up = self.modifiers(Modifiers::none());
        events.append(&mut up);
        if self.buttons != 0 {
            if let Some(at) = self.position {
                self.buttons = 0;
                events.push(InputEvent::Pointer { x: at.x, y: at.y, buttons: 0 });
            }
        }
        events
    }
}

proof fn lemma_push_distinct(list: Seq<u32>, keysym: u32)
    requires
        list.no_duplicates(),
        !list.contains(keysym),
    ensures
        list.push(keysym).no_duplicates(),
{
    assert forall|i: int, j: int| 0 <= i < j < list.push(keysym).len() implies list.push(keysym)[i]
        != list.push(keysym)[j] by {
        if j == list.len() {
            assert(list.contains(list[i]));
        }
    }
}

proof fn lemma_without(list: Seq<u32>, keysym: u32)
    ensures
        forall|k: u32| #[trigger]
            without(list, keysym).contains(k) <==> list.contains(k) && k != keysym,
        list.no_duplicates() ==> without(list, keysym).no_duplicates(),
        forall|i: int|
            0 <= i < without(list, keysym).len() ==> list.contains(
                #[trigger] without(list, keysym)[i],
            ),
    decreases list.len(),
{
    if list.len() > 0 {
        let head = list.drop_last();
        let last = list.last();
        lemma_without(head, keysym);
        let kept = without(head, keysym);
        let out = without(list, keysym);
        assert(list =~= head.push(last));
        assert forall|k: u32| #[trigger] out.contains(k) <==> list.contains(k) && k != keysym by {
            assert(list.contains(k) <==> head.contains(k) || k == last) by {
                if head.contains(k) {
                    let i = choose|i: int| 0 <= i < head.len() && head[i] == k;
                    assert(list[i] == k);
                }
                if k == last {
                    assert(list[list.len() - 1] == k);
                }
                if list.contains(k) && k != last {
                    let i = choose|i: int| 0 <= i < list.len() && list[i] == k;
                    assert(head[i] == k);
                }
            }
            if last != keysym {
                assert(out.contains(k) <==> kept.contains(k) || k == last) by {
                    if kept.contains(k) {
                        let i = choose|i: int| 0 <= i < kept.len() && kept[i] == k;
                        assert(out[i] == k);
                    }
                    if k == last {
                        assert(out[out.len() - 1] == k);
                    }
                    if out.contains(k) && k != last {
                        let i = choose|i: int| 0 <= i < out.len() && out[i] == k;
                        assert(kept[i] == k);
                    }
                }
            }
        }
        assert forall|i: int| 0 <= i < out.len() implies list.contains(#[trigger] out[i]) by {
            assert(out.contains(out[i]));
        }
        if list.no_duplicates() {
            assert(head.no_duplicates());
            if last != keysym {
                if kept.contains(last) {
                    assert(head.contains(last));
                    let i = choose|i: int| 0 <= i < head.len() && head[i] == last;
                    assert(list[i] == list[list.len() - 1]);
                }
                lemma_push_distinct(kept, last);
            }
        }
    }
}

/// What the desktop believes is held after what it was sent.
pub struct Remote {
    pub keys: Set<u32>,
    pub buttons: u8,
}

impl Remote {
    pub open spec fn idle() -> Remote {
        Remote { keys: Set::empty(), buttons: 0 }
    }

    pub open spec fn told(self, event: InputEvent) -> Remote {
        match event {
            InputEvent::Key { keysym, down } => if down {
                Remote { keys: self.keys.insert(keysym), ..self }
            } else {
                Remote { keys: self.keys.remove(keysym), ..self }
            },
            InputEvent::Pointer { buttons, .. } => Remote { buttons, ..self },
        }
    }

    pub open spec fn told_all(self, events: Seq<InputEvent>) -> Remote
        decreases events.len(),
    {
        if events.len() == 0 {
            self
        } else {
            self.told_all(events.drop_last()).told(events.last())
        }
    }
}

impl InputView {
    pub open spec fn modifier_down(self, keysym: u32) -> bool {
        ||| keysym == XK_SHIFT_L && self.modifiers.shift
        ||| keysym == XK_CONTROL_L && self.modifiers.ctrl
        ||| keysym == XK_ALT_L && self.modifiers.alt
        ||| keysym == XK_SUPER_L && self.modifiers.mac_cmd
    }

    /// No modifier is among the held keys, and buttons are held at a known
    /// position.
    pub open spec fn sound(self) -> bool {
        &&& self.buttons != 0 ==> self.position is Some
        &&& forall|i: int| 0 <= i < self.held.len() ==> !modifier_keysym(#[trigger] self.held[i])
    }

    /// The viewer knows of everything that the desktop believes is held.
    pub open spec fn accounts_for(self, remote: Remote) -> bool {
        &&& remote.buttons == self.buttons
        &&& forall|k: u32| #[trigger]
            remote.keys.contains(k) ==> self.held.contains(k) || self.modifier_down(k)
    }
}

pub(super) proof fn lemma_told_append(remote: Remote, a: Seq<InputEvent>, b: Seq<InputEvent>)
    ensures
        remote.told_all(a + b) == remote.told_all(a).told_all(b),
    decreases b.len(),
{
    if b.len() == 0 {
        assert(a + b =~= a);
    } else {
        assert((a + b).drop_last() =~= a + b.drop_last());
        lemma_told_append(remote, a, b.drop_last());
    }
}

proof fn lemma_told_one(remote: Remote, event: InputEvent)
    ensures
        remote.told_all(seq![event]) == remote.told(event),
{
    assert(seq![event].drop_last() =~= Seq::<InputEvent>::empty());
    reveal_with_fuel(Remote::told_all, 2);
}

proof fn lemma_told_releases(remote: Remote, held: Seq<u32>)
    ensures
        remote.told_all(releases(held)).buttons == remote.buttons,
        forall|k: u32| #[trigger]
            remote.told_all(releases(held)).keys.contains(k) <==> remote.keys.contains(k)
                && !held.contains(k),
    decreases held.len(),
{
    if held.len() > 0 {
        let head = held.drop_last();
        lemma_told_releases(remote, head);
        assert(releases(held).drop_last() =~= releases(head));
        assert(held =~= head.push(held.last()));
        assert forall|k: u32| #[trigger]
            remote.told_all(releases(held)).keys.contains(k) <==> remote.keys.contains(k)
                && !held.contains(k) by {
            assert(held.contains(k) <==> head.contains(k) || k == held.last()) by {
                if head.contains(k) {
                    let i = choose|i: int| 0 <= i < head.len() && head[i] == k;
                    assert(held[i] == k);
                }
                if k == held.last() {
                    assert(held[held.len() - 1] == k);
                }
                if held.contains(k) && k != held.last() {
                    let i = choose|i: int| 0 <= i < held.len() && held[i] == k;
                    assert(head[i] == k);
                }
            }
        }
    }
}

proof fn lemma_told_modifier(remote: Remote, was: bool, now: bool, keysym: u32)
    ensures
        ({
            let after = remote.told_all(modifier_event(was, now, keysym));
            &&& after.buttons == remote.buttons
            &&& forall|k: u32| k != keysym ==> (#[trigger] after.keys.contains(k)
                <==> remote.keys.contains(k))
            &&& was != now ==> (after.keys.contains(keysym) <==> now)
            &&& was == now ==> (after.keys.contains(keysym) <==> remote.keys.contains(keysym))
        }),
{
    if was != now {
        lemma_told_one(remote, InputEvent::Key { keysym, down: now });
    }
}

proof fn lemma_told_modifiers(remote: Remote, was: Modifiers, now: Modifiers)
    ensures
        ({
            let after = remote.told_all(modifier_events(was, now));
            &&& after.buttons == remote.buttons
            &&& forall|k: u32| #[trigger]
                after.keys.contains(k) <==> if k == XK_SHIFT_L && was.shift != now.shift {
                    now.shift
                } else if k == XK_CONTROL_L && was.ctrl != now.ctrl {
                    now.ctrl
                } else if k == XK_ALT_L && was.alt != now.alt {
                    now.alt
                } else if k == XK_SUPER_L && was.mac_cmd != now.mac_cmd {
                    now.mac_cmd
                } else {
                    remote.keys.contains(k)
                }
        }),
{
    let e1 = modifier_event(was.shift, now.shift, XK_SHIFT_L);
    let e2 = modifier_event(was.ctrl, now.ctrl, XK_CONTROL_L);
    let e3 = modifier_event(was.alt, now.alt, XK_ALT_L);
    let e4 = modifier_event(was.mac_cmd, now.mac_cmd, XK_SUPER_L);
    lemma_told_append(remote, e1 + e2 + e3, e4);
    lemma_told_append(remote, e1 + e2, e3);
    lemma_told_append(remote, e1, e2);
    let r1 = remote.told_all(e1);
    let r2 = r1.told_all(e2);
    let r3 = r2.told_all(e3);
    lemma_told_modifier(remote, was.shift, now.shift, XK_SHIFT_L);
    lemma_told_modifier(r1, was.ctrl, now.ctrl, XK_CONTROL_L);
    lemma_told_modifier(r2, was.alt, now.alt, XK_ALT_L);
    lemma_told_modifier(r3, was.mac_cmd, now.mac_cmd, XK_SUPER_L);
}

proof fn lemma_told_clicks(remote: Remote, at: DesktopPoint, buttons: u8, bit: u8, n: int)
    requires
        remote.buttons == buttons,
    ensures
        remote.told_all(clicks(at, buttons, bit, n)) == remote,
    decreases n,
{
    if n > 0 {
        let head = clicks(at, buttons, bit, n - 1);
        lemma_told_clicks(remote, at, buttons, bit, n - 1);
        let pressed = head.push(mouse(at, buttons | bit));
        assert(pressed.drop_last() =~= head);
        let both = pressed.push(mouse(at, buttons));
        assert(both.drop_last() =~= pressed);
        assert(remote.told_all(pressed) == remote.told(mouse(at, buttons | bit)));
        assert(remote.told_all(both) == remote.told_all(pressed).told(mouse(at, buttons)));
    }
}

/// Moving the pointer and changing its buttons keeps the viewer's account of
/// the desktop.
pub proof fn law_pointer_keeps_the_account(
    view: InputView,
    remote: Remote,
    position: Option<DesktopPoint>,
    buttons: u8,
)
    requires
        view.accounts_for(remote),
    ensures
        view.pointer(position, buttons).0.accounts_for(
            remote.told_all(view.pointer(position, buttons).1),
        ),
{
    let (after, events) = view.pointer(position, buttons);
    if events.len() > 0 {
        lemma_told_one(remote, events[0]);
        assert(events =~= seq![events[0]]);
    }
}

/// Scrolling leaves the desktop's buttons and keys as they were.
pub proof fn law_scroll_keeps_the_account(view: InputView, remote: Remote, dx: int, dy: int)
    requires
        view.accounts_for(remote),
    ensures
        remote.told_all(view.scroll(dx, dy).1) == remote,
        view.scroll(dx, dy).0.accounts_for(remote),
{
    if let Some(at) = view.position {
        let x = whole_notches(view.scroll_x + dx);
        let y = whole_notches(view.scroll_y + dy);
        let e1 = axis_clicks(at, view.buttons, y, BUTTON_SCROLL_UP, BUTTON_SCROLL_DOWN);
        let e2 = axis_clicks(at, view.buttons, x, BUTTON_SCROLL_LEFT, BUTTON_SCROLL_RIGHT);
        lemma_told_append(remote, e1, e2);
        let size_y = if y >= 0 {
            y
        } else {
            -y
        };
        let size_x = if x >= 0 {
            x
        } else {
            -x
        };
        let cap = MAX_SCROLL_NOTCHES_PER_FRAME as int;
        lemma_told_clicks(
            remote,
            at,
            view.buttons,
            if y > 0 {
                BUTTON_SCROLL_UP
            } else {
                BUTTON_SCROLL_DOWN
            },
            if size_y < cap {
                size_y
            } else {
                cap
            },
        );
        lemma_told_clicks(
            remote,
            at,
            view.buttons,
            if x > 0 {
                BUTTON_SCROLL_LEFT
            } else {
                BUTTON_SCROLL_RIGHT
            },
            if size_x < cap {
                size_x
            } else {
                cap
            },
        );
    }
}

/// A change of the modifiers keeps the account.
pub proof fn law_modifiers_keep_the_account(view: InputView, remote: Remote, now: Modifiers)
    requires
        view.accounts_for(remote),
        view.sound(),
    ensures
        view.set_modifiers(now).0.accounts_for(remote.told_all(view.set_modifiers(now).1)),
{
    lemma_told_modifiers(remote, view.modifiers, now);
    let (after, events) = view.set_modifiers(now);
    let told = remote.told_all(events);
    assert forall|k: u32| #[trigger] told.keys.contains(k) implies after.held.contains(k)
        || after.modifier_down(k) by {
        if remote.keys.contains(k) {
            assert(view.held.contains(k) || view.modifier_down(k));
            if view.held.contains(k) {
                let i = choose|i: int| 0 <= i < view.held.len() && view.held[i] == k;
                assert(!modifier_keysym(view.held[i]));
            }
        }
    }
}

/// A key, pressed or released, keeps the account.
pub proof fn law_keys_keep_the_account(
    view: InputView,
    remote: Remote,
    keysym: Option<u32>,
    down: bool,
    modifiers: Modifiers,
)
    requires
        view.accounts_for(remote),
    ensures
        view.key(keysym, down, modifiers).0.accounts_for(
            remote.told_all(view.key(keysym, down, modifiers).1),
        ),
{
    let (after, events) = view.key(keysym, down, modifiers);
    if events.len() > 0 {
        let k = keysym->0;
        lemma_told_one(remote, events[0]);
        assert(events =~= seq![events[0]]);
        lemma_without(view.held, k);
        lemma_track(view, k, down);
        let told = remote.told_all(events);
        assert forall|q: u32| #[trigger] told.keys.contains(q) implies after.held.contains(q)
            || after.modifier_down(q) by {
            if q != k {
                assert(remote.keys.contains(q));
            }
        }
    }
}

proof fn lemma_track(view: InputView, keysym: u32, down: bool)
    ensures
        forall|q: u32|
            q != keysym ==> (#[trigger] view.track(keysym, down).held.contains(q)
                <==> view.held.contains(q)),
        down ==> view.track(keysym, down).held.contains(keysym),
        view.track(keysym, down).modifiers == view.modifiers,
        view.track(keysym, down).buttons == view.buttons,
{
    lemma_without(view.held, keysym);
    if down && !view.held.contains(keysym) {
        let out = view.held.push(keysym);
        assert(out[out.len() - 1] == keysym);
        assert forall|q: u32| q != keysym implies (#[trigger] out.contains(q)
            <==> view.held.contains(q)) by {
            if view.held.contains(q) {
                let i = choose|i: int| 0 <= i < view.held.len() && view.held[i] == q;
                assert(out[i] == q);
            }
            if out.contains(q) {
                let i = choose|i: int| 0 <= i < out.len() && out[i] == q;
                assert(view.held[i] == q);
            }
        }
    }
}

/// A clipboard chord keeps the account.
pub proof fn law_chords_keep_the_account(view: InputView, remote: Remote, letter: char)
    requires
        view.accounts_for(remote),
    ensures
        view.chord(letter).0.accounts_for(remote.told_all(view.chord(letter).1)),
{
    let (after, events) = view.chord(letter);
    let k = char_keysym(letter);
    let armed = InputView {
        modifiers: Modifiers {
            ctrl: view.modifiers.ctrl || !view.modifiers.mac_cmd,
            ..view.modifiers
        },
        ..view
    };
    let first = modifier_event(view.modifiers.ctrl, armed.modifiers.ctrl, XK_CONTROL_L);
    let last = InputEvent::Key { keysym: k, down: true };
    assert(events =~= first.push(last));
    assert(events.drop_last() =~= first);
    lemma_told_modifier(remote, view.modifiers.ctrl, armed.modifiers.ctrl, XK_CONTROL_L);
    lemma_track(armed, k, true);
    assert(after == armed.track(k, true));
    let told = remote.told_all(events);
    assert forall|q: u32| #[trigger] told.keys.contains(q) implies after.held.contains(q)
        || after.modifier_down(q) by {
        if q != k {
            if remote.keys.contains(q) {
                assert(view.held.contains(q) || view.modifier_down(q));
                assert(armed.held.contains(q) || armed.modifier_down(q));
            } else {
                assert(q == XK_CONTROL_L);
            }
        }
    }
}

/// Typing leaves nothing held that was not held before.
pub proof fn law_text_keeps_the_account(view: InputView, remote: Remote, text: Seq<char>)
    requires
        view.accounts_for(remote),
    ensures
        view.accounts_for(remote.told_all(typed(text))),
    decreases text.len(),
{
    if text.len() > 0 {
        let head = text.drop_last();
        law_text_keeps_the_account(view, remote, head);
        if !control(text.last()) {
            let k = char_keysym(text.last());
            let pressed = typed(head).push(InputEvent::Key { keysym: k, down: true });
            assert(pressed.drop_last() =~= typed(head));
            let both = pressed.push(InputEvent::Key { keysym: k, down: false });
            assert(both.drop_last() =~= pressed);
            let before = remote.told_all(typed(head));
            let told = remote.told_all(both);
            assert(remote.told_all(pressed) == before.told(pressed.last()));
            assert(told == remote.told_all(pressed).told(both.last()));
            assert forall|q: u32| #[trigger] told.keys.contains(q) implies view.held.contains(q)
                || view.modifier_down(q) by {
                assert(before.keys.contains(q));
            }
        }
    }
}

/// When capture ends, the desktop is left with nothing held: no key, no
/// modifier and no button.
pub proof fn law_release_leaves_nothing_held(view: InputView, remote: Remote)
    requires
        view.sound(),
        view.accounts_for(remote),
    ensures
        remote.told_all(view.release_all().1).keys == Set::<u32>::empty(),
        remote.told_all(view.release_all().1).buttons == 0,
        view.release_all().0.held.len() == 0,
        view.release_all().0.buttons == 0,
        view.release_all().0.modifiers == no_modifiers(),
{
    let keys = releases(view.held);
    let mods = modifier_events(view.modifiers, no_modifiers());
    lemma_told_append(remote, keys, mods);
    lemma_told_releases(remote, view.held);
    let r1 = remote.told_all(keys);
    lemma_told_modifiers(r1, view.modifiers, no_modifiers());
    let r2 = r1.told_all(mods);
    assert forall|k: u32| !(#[trigger] r2.keys.contains(k)) by {
        if r1.keys.contains(k) {
            assert(remote.keys.contains(k));
        }
    }
    assert(r2.keys =~= Set::<u32>::empty());
    let (after, events) = view.release_all();
    if view.buttons != 0 {
        assert(events.drop_last() =~= keys + mods);
        assert(remote.told_all(events) == r2.told(events.last()));
    }
}

/// A second release sends nothing.
pub proof fn law_release_is_done_once(view: InputView)
    requires
        view.valid(),
    ensures
        view.release_all().0.release_all().1.len() == 0,
{
}

/// The left button is the first bit of the mask, the middle one the second and
/// the right one the third; the extra buttons have none.
pub proof fn law_buttons_have_their_bits(button: PointerButton)
    ensures
        button is Primary ==> bit_of(button) == Some(1u8),
        button is Middle ==> bit_of(button) == Some(2u8),
        button is Secondary ==> bit_of(button) == Some(4u8),
        button is Extra1 || button is Extra2 ==> bit_of(button) is None,
{
}

/// A point of the image shows the desktop column that lies as far into the crop
/// as the point lies into the image, and the last one at the far edge; rows are
/// found in the same way. Outside the image there is nothing.
pub proof fn law_points_show_what_lies_under_them(image: ScreenRect, crop: DesktopCrop, pos: Pos)
    requires
        0 < crop.width && crop.x + crop.width <= 65536,
        0 < crop.height && crop.y + crop.height <= 65536,
        image.min_x < image.max_x && image.min_y < image.max_y,
    ensures
        (point_at(image, crop, pos) is Some) == (image.min_x <= pos.x <= image.max_x && image.min_y
            <= pos.y <= image.max_y),
        point_at(image, crop, pos) matches Some(point) ==> {
            let column = point.x - crop.x;
            let row = point.y - crop.y;
            let (wide, tall) = (image.max_x - image.min_x, image.max_y - image.min_y);
            &&& column * wide <= (pos.x - image.min_x) * crop.width
            &&& (pos.x - image.min_x) * crop.width < (column + 1) * wide || column == crop.width - 1
            &&& row * tall <= (pos.y - image.min_y) * crop.height
            &&& (pos.y - image.min_y) * crop.height < (row + 1) * tall || row == crop.height - 1
        },
{
    if point_at(image, crop, pos) is Some {
        lemma_shown_under(
            pos.x - image.min_x,
            image.max_x - image.min_x,
            crop.x as int,
            crop.width as int,
        );
        lemma_shown_under(
            pos.y - image.min_y,
            image.max_y - image.min_y,
            crop.y as int,
            crop.height as int,
        );
    }
}

proof fn lemma_shown_under(offset: int, size: int, start: int, span: int)
    requires
        0 <= offset <= size,
        0 < size,
        0 < span,
        0 <= start,
        start + span <= 65536,
    ensures
        ({
            let at = shown_at(offset, size, start, span) - start;
            at * size <= offset * span && (offset * span < (at + 1) * size || at == span - 1)
        }),
{
    let scaled = offset * span / size;
    lemma_shown_in_span(offset, size, start, span);
    assert(scaled * size <= offset * span < (scaled + 1) * size) by (nonlinear_arith)
        requires
            scaled == offset * span / size,
            0 < size,
    ;
    let at = shown_at(offset, size, start, span) - start;
    assert(at <= scaled);
    assert(at * size <= scaled * size) by (nonlinear_arith)
        requires
            at <= scaled,
            0 < size,
    ;
}

/// The desktop is told where the pointer is and which buttons are down, and only
/// when that changes; a pointer off the image stays where it was seen last.
pub proof fn law_moves_and_buttons_are_told_once(
    view: InputView,
    at: DesktopPoint,
    buttons: u8,
)
    ensures
        ({
            let (after, sent) = view.pointer(Some(at), buttons);
            &&& view.position != Some(at) || view.buttons != buttons ==> sent == seq![
                InputEvent::Pointer { x: at.x, y: at.y, buttons },
            ] && after.position == Some(at) && after.buttons == buttons
            &&& view.position == Some(at) && view.buttons == buttons ==> sent.len() == 0 && after
                == view
        }),
        view.position is None ==> view.pointer(None, buttons).1.len() == 0,
        view.position == Some(at) && view.buttons != buttons ==> view.pointer(None, buttons).1
            == seq![InputEvent::Pointer { x: at.x, y: at.y, buttons }],
{
}

/// Every notch of the wheel is a press and a release of its button: the fourth
/// button up, the fifth down, the sixth to the left and the seventh to the
/// right, at most eight in a frame along each axis.
pub proof fn law_notches_click_their_button(view: InputView, at: DesktopPoint, n: int)
    requires
        view.position == Some(at),
        view.scroll_x == 0 && view.scroll_y == 0,
        0 <= n,
    ensures
        ({
            let many = if n < 8 {
                n
            } else {
                8
            };
            let up = view.scroll(0, n * 40_000).1;
            let down = view.scroll(0, -(n * 40_000)).1;
            let left = view.scroll(n * 40_000, 0).1;
            let right = view.scroll(-(n * 40_000), 0).1;
            let idle = InputEvent::Pointer { x: at.x, y: at.y, buttons: view.buttons };
            &&& up.len() == down.len() == left.len() == right.len() == 2 * many
            &&& forall|i: int|
                0 <= i < many ==> {
                    &&& #[trigger] up[2 * i] == (InputEvent::Pointer {
                        x: at.x,
                        y: at.y,
                        buttons: view.buttons | 8,
                    })
                    &&& up[2 * i + 1] == idle
                }
            &&& forall|i: int|
                0 <= i < many ==> {
                    &&& #[trigger] down[2 * i] == (InputEvent::Pointer {
                        x: at.x,
                        y: at.y,
                        buttons: view.buttons | 16,
                    })
                    &&& down[2 * i + 1] == idle
                }
            &&& forall|i: int|
                0 <= i < many ==> {
                    &&& #[trigger] left[2 * i] == (InputEvent::Pointer {
                        x: at.x,
                        y: at.y,
                        buttons: view.buttons | 32,
                    })
                    &&& left[2 * i + 1] == idle
                }
            &&& forall|i: int|
                0 <= i < many ==> {
                    &&& #[trigger] right[2 * i] == (InputEvent::Pointer {
                        x: at.x,
                        y: at.y,
                        buttons: view.buttons | 64,
                    })
                    &&& right[2 * i + 1] == idle
                }
        }),
{
    let many = if n < 8 {
        n
    } else {
        8
    };
    assert(whole_notches(n * 40_000) == n) by (nonlinear_arith)
        requires
            0 <= n,
            whole_notches(n * 40_000) == (n * 40_000) / 40_000,
    ;
    assert(whole_notches(-(n * 40_000)) == -n) by {
        if n > 0 {
            assert((n * 40_000) / 40_000 == n) by (nonlinear_arith)
                requires
                    0 <= n,
            ;
        }
    }
    assert(whole_notches(0) == 0);
    lemma_clicks(at, view.buttons, 8, many);
    lemma_clicks(at, view.buttons, 16, many);
    lemma_clicks(at, view.buttons, 32, many);
    lemma_clicks(at, view.buttons, 64, many);
    let none = Seq::<InputEvent>::empty();
    let b = view.buttons;
    assert(clicks(at, b, 16, 0) =~= none && clicks(at, b, 64, 0) =~= none);
    assert(clicks(at, b, 8, many) + none =~= clicks(at, b, 8, many));
    assert(clicks(at, b, 16, many) + none =~= clicks(at, b, 16, many));
    assert(none + clicks(at, b, 32, many) =~= clicks(at, b, 32, many));
    assert(none + clicks(at, b, 64, many) =~= clicks(at, b, 64, many));
}

proof fn lemma_clicks(at: DesktopPoint, buttons: u8, bit: u8, n: int)
    requires
        0 <= n,
    ensures
        clicks(at, buttons, bit, n).len() == 2 * n,
        forall|i: int|
            0 <= i < n ==> #[trigger] clicks(at, buttons, bit, n)[2 * i] == mouse(
                at,
                buttons | bit,
            ) && clicks(at, buttons, bit, n)[2 * i + 1] == mouse(at, buttons),
    decreases n,
{
    if n > 0 {
        lemma_clicks(at, buttons, bit, n - 1);
        let head = clicks(at, buttons, bit, n - 1);
        let all = clicks(at, buttons, bit, n);
        assert forall|i: int| 0 <= i < n implies #[trigger] all[2 * i] == mouse(at, buttons | bit)
            && all[2 * i + 1] == mouse(at, buttons) by {
            if i < n - 1 {
                assert(all[2 * i] == head[2 * i]);
                assert(all[2 * i + 1] == head[2 * i + 1]);
            }
        }
    }
}

/// Travel that is less than a notch is kept: what is sent in notches and what is
/// kept add up to what came in.
pub proof fn law_wheel_travel_adds_up(view: InputView, dx: int, dy: int)
    requires
        view.position is Some,
    ensures
        ({
            let after = view.scroll(dx, dy).0;
            &&& -40_000 < after.scroll_x < 40_000 && -40_000 < after.scroll_y < 40_000
            &&& (view.scroll_x + dx - after.scroll_x) % 40_000 == 0
            &&& (view.scroll_y + dy - after.scroll_y) % 40_000 == 0
            &&& view.scroll_x + dx >= 0 ==> after.scroll_x >= 0
            &&& view.scroll_x + dx <= 0 ==> after.scroll_x <= 0
            &&& view.scroll_y + dy >= 0 ==> after.scroll_y >= 0
            &&& view.scroll_y + dy <= 0 ==> after.scroll_y <= 0
        }),
{
    lemma_kept_travel(view.scroll_x + dx);
    lemma_kept_travel(view.scroll_y + dy);
}

proof fn lemma_kept_travel(travel: int)
    ensures
        ({
            let kept = travel - whole_notches(travel) * SCROLL_NOTCH;
            &&& -40_000 < kept < 40_000
            &&& (travel - kept) % 40_000 == 0
            &&& travel >= 0 ==> kept >= 0
            &&& travel <= 0 ==> kept <= 0
        }),
{
    let n = whole_notches(travel);
    assert((n * 40_000) % 40_000 == 0) by (nonlinear_arith);
    assert(travel - (travel - n * SCROLL_NOTCH) == n * 40_000);
}

/// Each modifier that changes sends its own key, down or up: Shift, Control, Alt
/// and Super, in this order; one that does not change sends nothing.
pub proof fn law_modifiers_send_their_own_key(was: Modifiers, now: Modifiers)
    ensures
        modifier_events(was, now) == (if was.shift != now.shift {
            seq![InputEvent::Key { keysym: 0xffe1, down: now.shift }]
        } else {
            Seq::empty()
        }) + (if was.ctrl != now.ctrl {
            seq![InputEvent::Key { keysym: 0xffe3, down: now.ctrl }]
        } else {
            Seq::empty()
        }) + (if was.alt != now.alt {
            seq![InputEvent::Key { keysym: 0xffe9, down: now.alt }]
        } else {
            Seq::empty()
        }) + (if was.mac_cmd != now.mac_cmd {
            seq![InputEvent::Key { keysym: 0xffeb, down: now.mac_cmd }]
        } else {
            Seq::empty()
        }),
{
}

/// A key that is no character is always sent as it is. A character's key is sent
/// with Ctrl or Command held; without them its press is left to the text that
/// follows, and only the release of one that is held is sent.
pub proof fn law_keys_are_sent_or_left_to_their_text(
    view: InputView,
    keysym: u32,
    down: bool,
    modifiers: Modifiers,
)
    ensures
        ({
            let (after, sent) = view.key(Some(keysym), down, modifiers);
            let goes = keysym >= 0xff00 || modifiers.ctrl || modifiers.mac_cmd || (!down
                && view.held.contains(keysym));
            &&& goes ==> sent == seq![InputEvent::Key { keysym, down }]
            &&& goes && down ==> after.held.contains(keysym)
            &&& !goes ==> sent.len() == 0 && after == view
        }),
        view.key(None, down, modifiers) == (view, Seq::<InputEvent>::empty()),
{
    if down && !view.held.contains(keysym) {
        let held = view.held.push(keysym);
        assert(held[held.len() - 1] == keysym);
    }
}

/// Text is typed character by character, each pressed and let go; control
/// characters are left out.
pub proof fn law_text_is_typed_character_by_character(text: Seq<char>, c: char)
    ensures
        typed(Seq::empty()) == Seq::<InputEvent>::empty(),
        control(c) ==> typed(text.push(c)) == typed(text),
        !control(c) && 0x20 <= (c as u32) <= 0xff ==> typed(text.push(c)) == typed(text) + seq![
            InputEvent::Key { keysym: c as u32, down: true },
            InputEvent::Key { keysym: c as u32, down: false },
        ],
        !control(c) && (c as u32) > 0xff ==> typed(text.push(c)) == typed(text) + seq![
            InputEvent::Key { keysym: (0x0100_0000 + c as u32) as u32, down: true },
            InputEvent::Key { keysym: (0x0100_0000 + c as u32) as u32, down: false },
        ],
{
    assert(text.push(c).drop_last() =~= text);
    if !control(c) {
        let k = char_keysym(c);
        assert(typed(text.push(c)) =~= typed(text) + seq![
            InputEvent::Key { keysym: k, down: true },
            InputEvent::Key { keysym: k, down: false },
        ]);
    }
}

/// A chord presses its letter with Ctrl or Command down; where neither is, Ctrl
/// goes down first and stays down.
pub proof fn law_chords_hold_a_primary_modifier(view: InputView, letter: char)
    requires
        'a' <= letter && letter <= 'z',
    ensures
        ({
            let (after, sent) = view.chord(letter);
            let press = InputEvent::Key { keysym: letter as u32, down: true };
            &&& after.modifiers.ctrl || after.modifiers.mac_cmd
            &&& view.modifiers.ctrl || view.modifiers.mac_cmd ==> sent == seq![press]
                && after.modifiers == view.modifiers
            &&& !(view.modifiers.ctrl || view.modifiers.mac_cmd) ==> sent == seq![
                InputEvent::Key { keysym: 0xffe3, down: true },
                press,
            ]
        }),
{
    let (after, sent) = view.chord(letter);
    let press = InputEvent::Key { keysym: letter as u32, down: true };
    if view.modifiers.ctrl || view.modifiers.mac_cmd {
        assert(sent =~= seq![press]);
    } else {
        assert(sent =~= seq![InputEvent::Key { keysym: 0xffe3, down: true }, press]);
    }
}

/// What is said of the input is said of what it holds.
pub proof fn law_input_state_is_seen_as_it_is(value: InputState)
    ensures
        value@.buttons == value.buttons,
        value@.position == value.position,
        value@.modifiers == value.modifiers,
        value@.held == value.held_keys@,
        value@.scroll_x == value.scroll_x as int,
        value@.scroll_y == value.scroll_y as int,
{
}

} // verus!
