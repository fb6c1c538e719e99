//! Pointer capture, click replay, coordinate translation and wheel routing.
use vstd::prelude::*;

use super::keyboard::{page_modifiers, to_browser_modifiers};
use super::keys::BrowserModifiers;
use crate::device::capture::WheelUnit;
use crate::device::input::PointerButton;
use crate::geometry::{
    beyond_distance, scale_offset, scaled, square_distance, within_distance, Pos, ScreenRect,
};
use crate::modifiers::Modifiers;

verus! {

/// Bits of the page's button mask.
pub const BUTTON_LEFT: u32 = 1;

pub const BUTTON_RIGHT: u32 = 2;

pub const BUTTON_MIDDLE: u32 = 4;

/// A move shorter than half a point is no move.
pub const MIN_MOVE: u32 = 500;

#[derive(Clone, Copy, Debug, PartialEq, Eq, Structural)]
pub enum BrowserButton {
    Left,
    Middle,
    Right,
}

/// A press that the page has seen, or a click that it completed.
#[derive(Clone, Copy, Debug, PartialEq, Eq, Structural)]
pub struct BrowserPointerClick {
    pub button: BrowserButton,
    /// Where on the window it was.
    pub position: Pos,
    pub time_ms: u64,
    pub count: u32,
}

/// What the page is told. Positions and travel are in thousandths of a page
/// pixel.
#[derive(Clone, Copy, Debug, PartialEq, Eq, Structural)]
pub enum PointerCommand {
    Move { x: u32, y: u32, buttons: u32, modifiers: BrowserModifiers },
    Press {
        x: u32,
        y: u32,
        button: BrowserButton,
        click_count: u32,
        buttons: u32,
        modifiers: BrowserModifiers,
    },
    Release {
        x: u32,
        y: u32,
        button: BrowserButton,
        click_count: u32,
        buttons: u32,
        modifiers: BrowserModifiers,
    },
    Wheel { x: u32, y: u32, delta_x: i64, delta_y: i64, modifiers: BrowserModifiers },
}

/// A frame's event. A button event has its place on the window, where clicks
/// are told apart, and in the panel.
#[derive(Clone, Copy, Debug, PartialEq, Eq, Structural)]
pub enum PointerEvent {
    Button {
        global: Pos,
        local: Pos,
        button: PointerButton,
        pressed: bool,
        modifiers: Modifiers,
    },
    Moved(Pos),
    Gone,
    Wheel { unit: WheelUnit, dx: i32, dy: i32, modifiers: Modifiers },
    Key { modifiers: Modifiers },
    Other,
}

/// How near and how soon clicks must follow each other.
#[derive(Clone, Copy, Debug, PartialEq, Eq, Structural)]
pub struct ClickThresholds {
    pub distance: u32,
    pub duration_ms: u64,
    pub double_click_delay_ms: u64,
}

/// What a frame's pointer events are replayed against.
#[derive(Clone, Copy, Debug, PartialEq, Eq, Structural)]
pub struct PointerFrame {
    pub rect: ScreenRect,
    /// The size of the page's picture, in thousandths of a page pixel.
    pub frame_width: u32,
    pub frame_height: u32,
    /// The pointer ends the frame over this panel.
    pub pointer_target: bool,
    pub frame_has_pointer_button: bool,
    /// Where the pointer ends the frame, in the panel.
    pub pointer: Option<Pos>,
    pub time_ms: u64,
    pub thresholds: ClickThresholds,
    pub final_modifiers: Modifiers,
}

#[derive(Clone, Copy, Debug, PartialEq, Eq, Structural)]
pub struct PointerState {
    /// The presses that the page has seen and whose release it has not.
    pub left: Option<BrowserPointerClick>,
    pub middle: Option<BrowserPointerClick>,
    pub right: Option<BrowserPointerClick>,
    pub last_click: Option<BrowserPointerClick>,
    pub last_mouse: Option<Pos>,
    pub modifiers: BrowserModifiers,
}

#[derive(Clone, Copy, Debug, PartialEq, Eq, Structural)]
pub struct PendingMove {
    pub x: u32,
    pub y: u32,
    pub buttons: u32,
    pub modifiers: BrowserModifiers,
}

/// A frame being replayed.
#[derive(Clone, Copy, Debug, PartialEq, Eq, Structural)]
pub struct Replay {
    pub state: PointerState,
    pub buttons: u32,
    pub modifiers: BrowserModifiers,
    /// The last of the moves that follow each other directly.
    pub pending: Option<PendingMove>,
}

pub open spec fn page_button(button: PointerButton) -> Option<BrowserButton> {
    match button {
        PointerButton::Primary => Some(BrowserButton::Left),
        PointerButton::Middle => Some(BrowserButton::Middle),
        PointerButton::Secondary => Some(BrowserButton::Right),
        PointerButton::Extra1 | PointerButton::Extra2 => None,
    }
}

/// Only the mouse is forwarded, and of it the three buttons a page knows.
pub fn egui_button(button: PointerButton) -> (page: Option<BrowserButton>)
    ensures
        page == page_button(button),
{
    match button {
        PointerButton::Primary => Some(BrowserButton::Left),
        PointerButton::Middle => Some(BrowserButton::Middle),
        PointerButton::Secondary => Some(BrowserButton::Right),
        PointerButton::Extra1 | PointerButton::Extra2 => None,
    }
}

pub open spec fn mask_of(button: BrowserButton) -> u32 {
    match button {
        BrowserButton::Left => BUTTON_LEFT,
        BrowserButton::Middle => BUTTON_MIDDLE,
        BrowserButton::Right => BUTTON_RIGHT,
    }
}

pub fn button_mask(button: BrowserButton) -> (mask: u32)
    ensures
        mask == mask_of(button),
{
    match button {
        BrowserButton::Left => BUTTON_LEFT,
        BrowserButton::Middle => BUTTON_MIDDLE,
        BrowserButton::Right => BUTTON_RIGHT,
    }
}

pub open spec fn tracks(pointer_target: bool, inside_rect: bool, captured: bool) -> bool {
    (pointer_target && inside_rect) || captured
}

/// A covered panel ignores the pointer until it owns a press.
pub fn should_track_pointer(pointer_target: bool, inside_rect: bool, captured: bool) -> (yes: bool)
    ensures
        yes == tracks(pointer_target, inside_rect, captured),
{
    (pointer_target && inside_rect) || captured
}

pub open spec fn event_modifiers(event: PointerEvent) -> Option<Modifiers> {
    match event {
        PointerEvent::Key { modifiers } => Some(modifiers),
        PointerEvent::Button { modifiers, .. } => Some(modifiers),
        PointerEvent::Wheel { modifiers, .. } => Some(modifiers),
        _ => None,
    }
}

pub fn modifiers_for_event(event: PointerEvent) -> (modifiers: Option<Modifiers>)
    ensures
        modifiers == event_modifiers(event),
{
    match event {
        PointerEvent::Key { modifiers } => Some(modifiers),
        PointerEvent::Button { modifiers, .. } => Some(modifiers),
        PointerEvent::Wheel { modifiers, .. } => Some(modifiers),
        _ => None,
    }
}

/// Wheel travel turned to the page's direction: towards the bottom and right is
/// positive there.
pub open spec fn page_delta(unit: WheelUnit, delta: i32) -> i64 {
    match unit {
        WheelUnit::Point => -delta as i64,
        WheelUnit::Line => (-delta * 16) as i64,
        WheelUnit::Page => (-delta * 500) as i64,
    }
}

pub fn cdp_wheel_delta(unit: WheelUnit, delta: i32) -> (page: i64)
    ensures
        page == page_delta(unit, delta),
{
    let d: i64 = delta as i64;
    match unit {
        WheelUnit::Point => -d,
        WheelUnit::Line => -d * 16,
        WheelUnit::Page => -d * 500,
    }
}

/// The click follows the last one: same button, near and soon enough.
pub open spec fn follows(
    last: BrowserPointerClick,
    button: BrowserButton,
    position: Pos,
    time_ms: u64,
    thresholds: ClickThresholds,
) -> bool {
    &&& last.button == button
    &&& time_ms >= last.time_ms
    &&& time_ms - last.time_ms <= thresholds.double_click_delay_ms
    &&& square_distance(position, last.position) <= thresholds.distance * thresholds.distance
}

/// Clicks that follow each other count up to three.
pub open spec fn count_of(
    last_click: Option<BrowserPointerClick>,
    button: BrowserButton,
    position: Pos,
    time_ms: u64,
    thresholds: ClickThresholds,
) -> u32 {
    match last_click {
        Some(last) => if follows(last, button, position, time_ms, thresholds) {
            if last.count >= 2 {
                3
            } else {
                (last.count + 1) as u32
            }
        } else {
            1
        },
        None => 1,
    }
}

pub fn next_click_count(
    last_click: Option<BrowserPointerClick>,
    button: BrowserButton,
    position: Pos,
    time_ms: u64,
    thresholds: ClickThresholds,
) -> (count: u32)
    ensures
        count == count_of(last_click, button, position, time_ms, thresholds),
{
    match last_click {
        Some(last) => {
            if last.button == button && time_ms >= last.time_ms && time_ms - last.time_ms
                <= thresholds.double_click_delay_ms && within_distance(
                position,
                last.position,
                thresholds.distance,
            ) {
                if last.count >= 2 {
                    3
                } else {
                    last.count + 1
                }
            } else {
                1
            }
        },
        None => 1,
    }
}

impl PointerFrame {
    pub open spec fn valid(self) -> bool {
        self.rect.solid()
    }

    pub open spec fn page_x(self, p: Pos) -> u32 {
        scaled(
            p.x - self.rect.min_x,
            self.rect.max_x - self.rect.min_x,
            self.frame_width as int,
        ) as u32
    }

    pub open spec fn page_y(self, p: Pos) -> u32 {
        scaled(
            p.y - self.rect.min_y,
            self.rect.max_y - self.rect.min_y,
            self.frame_height as int,
        ) as u32
    }

    /// The wheel turns over the panel's body.
    pub open spec fn wheel_pos(self) -> Option<Pos> {
        match self.pointer {
            Some(p) => if self.pointer_target && self.rect.holds(p) {
                Some(p)
            } else {
                None
            },
            None => None,
        }
    }

    /// The page pixel that a point of the panel shows.
    pub fn to_page_coords(&self, p: Pos) -> (at: (u32, u32))
        requires
            self.valid(),
        ensures
            at == (self.page_x(p), self.page_y(p)),
    {
        let width: u32 = (self.rect.max_x as i64 - self.rect.min_x as i64) as u32;
        let height: u32 = (self.rect.max_y as i64 - self.rect.min_y as i64) as u32;
        (
            scale_offset(p.x as i64 - self.rect.min_x as i64, width, self.frame_width),
            scale_offset(p.y as i64 - self.rect.min_y as i64, height, self.frame_height),
        )
    }
}

pub open spec fn held_mask(click: Option<BrowserPointerClick>, mask: u32) -> u32 {
    if click is Some {
        mask
    } else {
        0
    }
}

impl PointerState {
    pub open spec fn at(self, button: BrowserButton) -> Option<BrowserPointerClick> {
        match button {
            BrowserButton::Left => self.left,
            BrowserButton::Middle => self.middle,
            BrowserButton::Right => self.right,
        }
    }

    pub open spec fn with(self, button: BrowserButton, click: Option<BrowserPointerClick>) -> Self {
        match button {
            BrowserButton::Left => PointerState { left: click, ..self },
            BrowserButton::Middle => PointerState { middle: click, ..self },
            BrowserButton::Right => PointerState { right: click, ..self },
        }
    }

    pub open spec fn captures(self) -> bool {
        self.left is Some || self.middle is Some || self.right is Some
    }

    pub open spec fn mask(self) -> u32 {
        (held_mask(self.left, BUTTON_LEFT) | held_mask(self.middle, BUTTON_MIDDLE)) | held_mask(
            self.right,
            BUTTON_RIGHT,
        )
    }

    pub fn new() -> (state: Self)
        ensures
            !state.captures(),
            state.last_click is None,
            state.last_mouse is None,
            state.modifiers == (BrowserModifiers {
                alt: false,
                ctrl: false,
                meta: false,
                shift: false,
            }),
    {
        PointerState {
            left: None,
            middle: None,
            right: None,
            last_click: None,
            last_mouse: None,
            modifiers: BrowserModifiers { alt: false, ctrl: false, meta: false, shift: false },
        }
    }

    pub fn captured(&self, button: BrowserButton) -> (click: Option<BrowserPointerClick>)
        ensures
            click == self.at(button),
    {
        match button {
            BrowserButton::Left => self.left,
            BrowserButton::Middle => self.middle,
            BrowserButton::Right => self.right,
        }
    }

    pub fn set_captured(&mut self, button: BrowserButton, click: Option<BrowserPointerClick>)
        ensures
            *final(self) == old(self).with(button, click),
    {
        match button {
            BrowserButton::Left => {
                self.left = click;
            },
            BrowserButton::Middle => {
                self.middle = click;
            },
            BrowserButton::Right => {
                self.right = click;
            },
        }
    }

    pub fn has_pointer_capture(&self) -> (yes: bool)
        ensures
            yes == self.captures(),
    {
        self.left.is_some() || self.middle.is_some() || self.right.is_some()
    }

    /// The mask of the buttons that the page believes are down.
    pub fn captured_buttons(&self) -> (mask: u32)
        ensures
            mask == self.mask(),
    {
        let left: u32 = if self.left.is_some() {
            BUTTON_LEFT
        } else {
            0
        };
        let middle: u32 = if self.middle.is_some() {
            BUTTON_MIDDLE
        } else {
            0
        };
        let right: u32 = if self.right.is_some() {
            BUTTON_RIGHT
        } else {
            0
        };
        (left | middle) | right
    }
}

pub open spec fn flushed(pending: Option<PendingMove>) -> Seq<PointerCommand> {
    match pending {
        Some(m) => seq![
            PointerCommand::Move { x: m.x, y: m.y, buttons: m.buttons, modifiers: m.modifiers },
        ],
        None => Seq::empty(),
    }
}

impl Replay {
    /// Lets one button go at a place of the page.
    pub open spec fn let_go(self, button: BrowserButton, x: u32, y: u32) -> (
        Replay,
        Seq<PointerCommand>,
    ) {
        match self.state.at(button) {
            None => (self, Seq::empty()),
            Some(click) => {
                let buttons = self.buttons & !mask_of(click.button);
                (
                    Replay { state: self.state.with(button, None), buttons, ..self },
                    seq![
                        PointerCommand::Release {
                            x,
                            y,
                            button: click.button,
                            click_count: click.count,
                            buttons,
                            modifiers: self.modifiers,
                        },
                    ],
                )
            },
        }
    }

    /// Lets every button go there: left, middle, right.
    pub open spec fn let_all_go(self, x: u32, y: u32) -> (Replay, Seq<PointerCommand>) {
        let (r1, c1) = self.let_go(BrowserButton::Left, x, y);
        let (r2, c2) = r1.let_go(BrowserButton::Middle, x, y);
        let (r3, c3) = r2.let_go(BrowserButton::Right, x, y);
        (r3, c1 + c2 + c3)
    }

    /// A press counts only in the body of the panel under the pointer; a
    /// release ends what this panel has captured, wherever it is.
    pub open spec fn button(
        self,
        frame: PointerFrame,
        global: Pos,
        local: Pos,
        button: BrowserButton,
        pressed: bool,
    ) -> (Replay, Seq<PointerCommand>) {
        let x = frame.page_x(local);
        let y = frame.page_y(local);
        if pressed {
            if !frame.pointer_target || !frame.rect.holds(local) {
                (self, Seq::empty())
            } else {
                let count = count_of(
                    self.state.last_click,
                    button,
                    global,
                    frame.time_ms,
                    frame.thresholds,
                );
                let click = BrowserPointerClick {
                    button,
                    position: global,
                    time_ms: frame.time_ms,
                    count,
                };
                let buttons = self.buttons | mask_of(button);
                (
                    Replay {
                        state: PointerState {
                            last_mouse: Some(local),
                            ..self.state.with(button, Some(click))
                        },
                        buttons,
                        ..self
                    },
                    seq![
                        PointerCommand::Press {
                            x,
                            y,
                            button,
                            click_count: count,
                            buttons,
                            modifiers: self.modifiers,
                        },
                    ],
                )
            }
        } else {
            match self.state.at(button) {
                None => (self, Seq::empty()),
                Some(click) => {
                    let buttons = self.buttons & !mask_of(button);
                    let completes = square_distance(global, click.position)
                        <= frame.thresholds.distance * frame.thresholds.distance && frame.time_ms
                        - click.time_ms <= frame.thresholds.duration_ms;
                    (
                        Replay {
                            state: PointerState {
                                last_mouse: Some(local),
                                last_click: if completes {
                                    Some(
                                        BrowserPointerClick {
                                            position: global,
                                            time_ms: frame.time_ms,
                                            ..click
                                        },
                                    )
                                } else {
                                    None
                                },
                                ..self.state.with(button, None)
                            },
                            buttons,
                            ..self
                        },
                        seq![
                            PointerCommand::Release {
                                x,
                                y,
                                button,
                                click_count: click.count,
                                buttons,
                                modifiers: self.modifiers,
                            },
                        ],
                    )
                },
            }
        }
    }

    /// A move is kept back while others follow; leaving the body without a
    /// capture tells the page once, at the edge.
    pub open spec fn moved(self, frame: PointerFrame, p: Pos) -> (Replay, Seq<PointerCommand>) {
        if tracks(frame.pointer_target, frame.rect.holds(p), self.state.captures()) {
            let far = match self.state.last_mouse {
                Some(last) => square_distance(last, p) >= MIN_MOVE * MIN_MOVE,
                None => true,
            };
            if far {
                (
                    Replay {
                        state: PointerState { last_mouse: Some(p), ..self.state },
                        pending: Some(
                            PendingMove {
                                x: frame.page_x(p),
                                y: frame.page_y(p),
                                buttons: self.buttons,
                                modifiers: self.modifiers,
                            },
                        ),
                        ..self
                    },
                    Seq::empty(),
                )
            } else {
                (self, Seq::empty())
            }
        } else if self.state.last_mouse is Some {
            let edge = frame.rect.nearest(p);
            (
                Replay { state: PointerState { last_mouse: None, ..self.state }, ..self },
                seq![
                    PointerCommand::Move {
                        x: frame.page_x(edge),
                        y: frame.page_y(edge),
                        buttons: self.buttons,
                        modifiers: self.modifiers,
                    },
                ],
            )
        } else {
            (self, Seq::empty())
        }
    }

    /// The pointer left the window: a drag ends where it was last seen.
    pub open spec fn gone(self, frame: PointerFrame) -> (Replay, Seq<PointerCommand>) {
        let p = match self.state.last_mouse {
            Some(last) => last,
            None => frame.rect.middle(),
        };
        let (freed, sent) = self.let_all_go(frame.page_x(p), frame.page_y(p));
        (
            Replay { state: PointerState { last_mouse: None, ..freed.state }, ..freed },
            sent,
        )
    }

    pub open spec fn wheel(self, frame: PointerFrame, unit: WheelUnit, dx: i32, dy: i32) -> Seq<
        PointerCommand,
    > {
        match frame.wheel_pos() {
            Some(p) => seq![
                PointerCommand::Wheel {
                    x: frame.page_x(p),
                    y: frame.page_y(p),
                    delta_x: page_delta(unit, dx),
                    delta_y: page_delta(unit, dy),
                    modifiers: self.modifiers,
                },
            ],
            None => Seq::empty(),
        }
    }

    /// An event that brings modifiers of its own ends a run of moves and sets
    /// them; a move that came before keeps those it was made with.
    pub open spec fn noted(self, event: PointerEvent) -> (Replay, Seq<PointerCommand>) {
        match event_modifiers(event) {
            Some(modifiers) => (
                Replay { pending: None, modifiers: page_modifiers(modifiers), ..self },
                flushed(self.pending),
            ),
            None => (self, Seq::empty()),
        }
    }

    pub open spec fn step(self, frame: PointerFrame, event: PointerEvent) -> (
        Replay,
        Seq<PointerCommand>,
    ) {
        let (noted, first) = self.noted(event);
        match event {
            PointerEvent::Moved(p) => {
                let (end, then) = noted.moved(frame, p);
                (end, first + then)
            },
            _ => {
                let settled = Replay { pending: None, ..noted };
                let before = first + flushed(noted.pending);
                match event {
                    PointerEvent::Button { global, local, button, pressed, .. } => match page_button(
                        button,
                    ) {
                        Some(b) => {
                            let (end, then) = settled.button(frame, global, local, b, pressed);
                            (end, before + then)
                        },
                        None => (settled, before),
                    },
                    PointerEvent::Gone => {
                        let (end, then) = settled.gone(frame);
                        (end, before + then)
                    },
                    PointerEvent::Wheel { unit, dx, dy, .. } => (
                        settled,
                        before + settled.wheel(frame, unit, dx, dy),
                    ),
                    _ => (settled, before),
                }
            },
        }
    }

    pub open spec fn run(self, frame: PointerFrame, events: Seq<PointerEvent>) -> (
        Replay,
        Seq<PointerCommand>,
    )
        decreases events.len(),
    {
        if events.len() == 0 {
            (self, Seq::empty())
        } else {
            let (mid, sent) = self.run(frame, events.drop_last());
            let (end, more) = mid.step(frame, events.last());
            (end, sent + more)
        }
    }
}

/// What a frame does to the state, and what it tells the page. A panel that the
/// pointer has nothing to do with only notes the modifiers.
pub open spec fn frame_result(
    state: PointerState,
    frame: PointerFrame,
    events: Seq<PointerEvent>,
) -> (PointerState, Seq<PointerCommand>) {
    if !frame.pointer_target && !state.captures() && !frame.frame_has_pointer_button {
        (
            PointerState { modifiers: page_modifiers(frame.final_modifiers), ..state },
            Seq::empty(),
        )
    } else {
        let start = Replay {
            state,
            buttons: state.mask(),
            modifiers: state.modifiers,
            pending: None,
        };
        let (end, sent) = start.run(frame, events);
        (
            PointerState { modifiers: page_modifiers(frame.final_modifiers), ..end.state },
            sent + flushed(end.pending),
        )
    }
}

impl Replay {
    fn flush_pending_move(&mut self, commands: &mut Vec<PointerCommand>)
        ensures
            *final(self) == (Replay { pending: None, ..*old(self) }),
            final(commands)@ == old(commands)@ + flushed(old(self).pending),
    {
        let ghost before = commands@;
        if let Some(m) = self.pending {
            commands.push(
                PointerCommand::Move { x: m.x, y: m.y, buttons: m.buttons, modifiers: m.modifiers },
            );
        }
        assert(commands@ =~= before + flushed(self.pending));
        self.pending = None;
    }

    fn release_one(
        &mut self,
        button: BrowserButton,
        x: u32,
        y: u32,
        commands: &mut Vec<PointerCommand>,
    )
        ensures
            (*final(self), final(commands)@) == (
                old(self).let_go(button, x, y).0,
                old(commands)@ + old(self).let_go(button, x, y).1,
            ),
    {
        let ghost before = commands@;
        assert(before + Seq::<PointerCommand>::empty() =~= before);
        if let Some(click) = self.state.captured(button) {
            self.state.set_captured(button, None);
            self.buttons = self.buttons & !button_mask(click.button);
            commands.push(
                PointerCommand::Release {
                    x,
                    y,
                    button: click.button,
                    click_count: click.count,
                    buttons: self.buttons,
                    modifiers: self.modifiers,
                },
            );
            assert(commands@ =~= before + old(self).let_go(button, x, y).1);
        }
    }

    fn release_every(&mut self, x: u32, y: u32, commands: &mut Vec<PointerCommand>)
        ensures
            (*final(self), final(commands)@) == (
                old(self).let_all_go(x, y).0,
                old(commands)@ + old(self).let_all_go(x, y).1,
            ),
    {
        let ghost before = commands@;
        self.release_one(BrowserButton::Left, x, y, commands);
        self.release_one(BrowserButton::Middle, x, y, commands);
        self.release_one(BrowserButton::Right, x, y, commands);
        assert(commands@ =~= before + old(self).let_all_go(x, y).1);
    }

    fn replay_pointer_button(
        &mut self,
        frame: &PointerFrame,
        global: Pos,
        local: Pos,
        button: BrowserButton,
        pressed: bool,
        commands: &mut Vec<PointerCommand>,
    )
        requires
            frame.valid(),
        ensures
            (*final(self), final(commands)@) == (
                old(self).button(*frame, global, local, button, pressed).0,
                old(commands)@ + old(self).button(*frame, global, local, button, pressed).1,
            ),
    {
        let ghost before = commands@;
        let ghost sent = self.button(*frame, global, local, button, pressed).1;
        assert(before + Seq::<PointerCommand>::empty() =~= before);
        let (x, y) = frame.to_page_coords(local);
        if pressed {
            if !frame.pointer_target || !frame.rect.contains(local) {
                return ;
            }
            let count: u32 = next_click_count(
                self.state.last_click,
                button,
                global,
                frame.time_ms,
                frame.thresholds,
            );
            self.state.set_captured(
                button,
                Some(
                    BrowserPointerClick { button, position: global, time_ms: frame.time_ms, count },
                ),
            );
            self.state.last_mouse = Some(local);
            self.buttons = self.buttons | button_mask(button);
            commands.push(
                PointerCommand::Press {
                    x,
                    y,
                    button,
                    click_count: count,
                    buttons: self.buttons,
                    modifiers: self.modifiers,
                },
            );
            assert(commands@ =~= before + sent);
            return ;
        }
        if let Some(click) = self.state.captured(button) {
            self.state.set_captured(button, None);
            self.state.last_mouse = Some(local);
            self.buttons = self.buttons & !button_mask(button);
            commands.push(
                PointerCommand::Release {
                    x,
                    y,
                    button,
                    click_count: click.count,
                    buttons: self.buttons,
                    modifiers: self.modifiers,
                },
            );
            assert(commands@ =~= before + sent);
            let soon = frame.time_ms < click.time_ms || frame.time_ms - click.time_ms
                <= frame.thresholds.duration_ms;
            if within_distance(global, click.position, frame.thresholds.distance) && soon {
                self.state.last_click = Some(
                    BrowserPointerClick {
                        button: click.button,
                        position: global,
                        time_ms: frame.time_ms,
                        count: click.count,
                    },
                );
            } else {
                self.state.last_click = None;
            }
        }
    }

    fn handle_pointer_moved(
        &mut self,
        frame: &PointerFrame,
        p: Pos,
        commands: &mut Vec<PointerCommand>,
    )
        requires
            frame.valid(),
        ensures
            (*final(self), final(commands)@) == (
                old(self).moved(*frame, p).0,
                old(commands)@ + old(self).moved(*frame, p).1,
            ),
    {
        let ghost before = commands@;
        assert(before + Seq::<PointerCommand>::empty() =~= before);
        if should_track_pointer(
            frame.pointer_target,
            frame.rect.contains(p),
            self.state.has_pointer_capture(),
        ) {
            let far = match self.state.last_mouse {
                Some(last) => beyond_distance(last, p, MIN_MOVE),
                None => true,
            };
            if far {
                let (x, y) = frame.to_page_coords(p);
                self.state.last_mouse = Some(p);
                self.pending = Some(
                    PendingMove { x, y, buttons: self.buttons, modifiers: self.modifiers },
                );
            }
        } else if self.state.last_mouse.is_some() {
            let (x, y) = frame.to_page_coords(frame.rect.clamp(p));
            commands.push(
                PointerCommand::Move { x, y, buttons: self.buttons, modifiers: self.modifiers },
            );
            assert(commands@ =~= before + old(self).moved(*frame, p).1);
            self.state.last_mouse = None;
        }
    }

    fn step_event(
        &mut self,
        frame: &PointerFrame,
        event: PointerEvent,
        commands: &mut Vec<PointerCommand>,
    )
        requires
            frame.valid(),
        ensures
            (*final(self), final(commands)@) == (
                old(self).step(*frame, event).0,
                old(commands)@ + old(self).step(*frame, event).1,
            ),
    {
        let ghost before = commands@;
        let ghost total = self.step(*frame, event).1;
        if let Some(modifiers) = modifiers_for_event(event) {
            self.flush_pending_move(commands);
            self.modifiers = to_browser_modifiers(modifiers);
        }
        match event {
            PointerEvent::Button { global, local, button, pressed, .. } => {
                self.flush_pending_move(commands);
                if let Some(b) = egui_button(button) {
                    self.replay_pointer_button(frame, global, local, b, pressed, commands);
                }
            },
            PointerEvent::Moved(p) => {
                self.handle_pointer_moved(frame, p, commands);
            },
            PointerEvent::Gone => {
                self.flush_pending_move(commands);
                let p = match self.state.last_mouse {
                    Some(last) => last,
                    None => frame.rect.center(),
                };
                let (x, y) = frame.to_page_coords(p);
                self.release_every(x, y, commands);
                self.state.last_mouse = None;
            },
            PointerEvent::Wheel { unit, dx, dy, .. } => {
                self.flush_pending_move(commands);
                if let Some(p) = frame.pointer {
                    if frame.pointer_target && frame.rect.contains(p) {
                        let (x, y) = frame.to_page_coords(p);
                        commands.push(
                            PointerCommand::Wheel {
                                x,
                                y,
                                delta_x: cdp_wheel_delta(unit, dx),
                                delta_y: cdp_wheel_delta(unit, dy),
                                modifiers: self.modifiers,
                            },
                        );
                    }
                }
            },
            PointerEvent::Key { .. } | PointerEvent::Other => {
                self.flush_pending_move(commands);
            },
        }
        assert(commands@ =~= before + total);
    }
}

impl PointerState {
    /// Replays a frame's pointer events with their own positions. A fast gesture
    /// can be batched into one frame; taking only the last position would
    /// collapse a drag to a point. Of moves that follow each other directly only
    /// the last is sent.
    pub fn events(&mut self, events: &Vec<PointerEvent>, frame: &PointerFrame) -> (commands: Vec<
        PointerCommand,
    >)
        requires
            frame.valid(),
        ensures
            (*final(self), commands@) == frame_result(*old(self), *frame, events@),
    {
        let mut commands: Vec<PointerCommand> = Vec::new();
        assert(commands@ =~= Seq::<PointerCommand>::empty());
        let last_modifiers = to_browser_modifiers(frame.final_modifiers);
        if !frame.pointer_target && !self.has_pointer_capture() && !frame.frame_has_pointer_button {
            self.modifiers = last_modifiers;
            return commands;
        }
        let mut replay = Replay {
            state: *self,
            buttons: self.captured_buttons(),
            modifiers: self.modifiers,
            pending: None,
        };
        let ghost start = replay;
        let mut i: usize = 0;
        while i < events.len()
            invariant
                frame.valid(),
                i <= events@.len(),
                (replay, commands@) == start.run(*frame, events@.take(i as int)),
            decreases events@.len() - i,
        {
            assert(events@.take(i + 1).drop_last() =~= events@.take(i as int));
            replay.step_event(frame, events[i], &mut commands);
            i = i + 1;
        }
        assert(events@.take(i as int) =~= events@);
        replay.flush_pending_move(&mut commands);
        *self = replay.state;
        self.modifiers = last_modifiers;
        commands
    }

    /// Lets every captured button go, at the last place of the pointer if the
    /// body is known, else at the page's corner.
    pub open spec fn cancelled(self, x: u32, y: u32) -> (PointerState, Seq<PointerCommand>) {
        let (end, sent) = Replay {
            state: self,
            buttons: self.mask(),
            modifiers: BrowserModifiers { alt: false, ctrl: false, meta: false, shift: false },
            pending: None,
        }.let_all_go(x, y);
        (PointerState { last_mouse: None, ..end.state }, sent)
    }

    pub open spec fn cancel_place(self, frame: Option<PointerFrame>) -> (u32, u32) {
        match frame {
            Some(f) => {
                let p = match self.last_mouse {
                    Some(last) => last,
                    None => f.rect.middle(),
                };
                (f.page_x(p), f.page_y(p))
            },
            None => (0, 0),
        }
    }

    pub fn cancel_pointer_capture(&mut self, frame: Option<PointerFrame>) -> (commands: Vec<
        PointerCommand,
    >)
        requires
            frame matches Some(f) ==> f.valid(),
        ensures
            ({
                let (x, y) = old(self).cancel_place(frame);
                (*final(self), commands@) == old(self).cancelled(x, y)
            }),
    {
        let (x, y) = match frame {
            Some(f) => {
                let p = match self.last_mouse {
                    Some(last) => last,
                    None => f.rect.center(),
                };
                f.to_page_coords(p)
            },
            None => (0, 0),
        };
        let mut commands: Vec<PointerCommand> = Vec::new();
        assert(commands@ =~= Seq::<PointerCommand>::empty());
        let mut replay = Replay {
            state: *self,
            buttons: self.captured_buttons(),
            modifiers: BrowserModifiers { alt: false, ctrl: false, meta: false, shift: false },
            pending: None,
        };
        replay.release_every(x, y, &mut commands);
        *self = replay.state;
        self.last_mouse = None;
        assert(commands@ =~= old(self).cancelled(x, y).1);
        commands
    }
}

/// Setting and clearing a button's bit sets and clears its part of the mask.
proof fn lemma_masks(l: u32, m: u32, r: u32)
    requires
        l == 0 || l == 1,
        m == 0 || m == 4,
        r == 0 || r == 2,
    ensures
        ((l | m) | r) | 1u32 == (1u32 | m) | r,
        ((l | m) | r) | 4u32 == (l | 4u32) | r,
        ((l | m) | r) | 2u32 == (l | m) | 2u32,
        ((l | m) | r) & !1u32 == (0u32 | m) | r,
        ((l | m) | r) & !4u32 == (l | 0u32) | r,
        ((l | m) | r) & !2u32 == (l | m) | 0u32,
{
    assert(((l | m) | r) | 1u32 == (1u32 | m) | r && ((l | m) | r) | 4u32 == (l | 4u32) | r && ((l | m)
        | r) | 2u32 == (l | m) | 2u32 && ((l | m) | r) & !1u32 == (0u32 | m) | r && ((l | m) | r)
        & !4u32 == (l | 0u32) | r && ((l | m) | r) & !2u32 == (l | m) | 0u32) by (bit_vector)
        requires
            l == 0 || l == 1,
            m == 0 || m == 4,
            r == 0 || r == 2,
    ;
}

impl Replay {
    /// The mask says which buttons are captured, and each capture is that of its
    /// button.
    pub open spec fn consistent(self) -> bool {
        &&& self.buttons == self.state.mask()
        &&& self.state.left matches Some(c) ==> c.button == BrowserButton::Left
        &&& self.state.middle matches Some(c) ==> c.button == BrowserButton::Middle
        &&& self.state.right matches Some(c) ==> c.button == BrowserButton::Right
    }

    proof fn lemma_let_go(self, button: BrowserButton, x: u32, y: u32)
        requires
            self.consistent(),
        ensures
            self.let_go(button, x, y).0.consistent(),
            self.let_go(button, x, y).0.state.at(button) is None,
            forall|b: BrowserButton|
                self.state.at(b) is None ==> (#[trigger] self.let_go(button, x, y).0.state.at(b))
                    is None,
    {
        lemma_masks(
            held_mask(self.state.left, BUTTON_LEFT),
            held_mask(self.state.middle, BUTTON_MIDDLE),
            held_mask(self.state.right, BUTTON_RIGHT),
        );
    }

    proof fn lemma_let_all_go(self, x: u32, y: u32)
        requires
            self.consistent(),
        ensures
            self.let_all_go(x, y).0.consistent(),
            !self.let_all_go(x, y).0.state.captures(),
            self.let_all_go(x, y).0.buttons == 0,
    {
        self.lemma_let_go(BrowserButton::Left, x, y);
        let r1 = self.let_go(BrowserButton::Left, x, y).0;
        r1.lemma_let_go(BrowserButton::Middle, x, y);
        let r2 = r1.let_go(BrowserButton::Middle, x, y).0;
        r2.lemma_let_go(BrowserButton::Right, x, y);
        let r3 = r2.let_go(BrowserButton::Right, x, y).0;
        assert(r1.state.at(BrowserButton::Left) is None);
        assert(r2.state.at(BrowserButton::Left) is None);
        assert(r3.state.at(BrowserButton::Left) is None);
        assert(r2.state.at(BrowserButton::Middle) is None);
        assert(r3.state.at(BrowserButton::Middle) is None);
        assert((0u32 | 0u32) | 0u32 == 0u32) by (bit_vector);
    }

    proof fn lemma_button(
        self,
        frame: PointerFrame,
        global: Pos,
        local: Pos,
        button: BrowserButton,
        pressed: bool,
    )
        requires
            self.consistent(),
        ensures
            self.button(frame, global, local, button, pressed).0.consistent(),
    {
        lemma_masks(
            held_mask(self.state.left, BUTTON_LEFT),
            held_mask(self.state.middle, BUTTON_MIDDLE),
            held_mask(self.state.right, BUTTON_RIGHT),
        );
    }

    /// Through every event the mask that the page is told is that of the
    /// buttons that this panel has captured.
    pub proof fn law_masks_follow_captures(self, frame: PointerFrame, event: PointerEvent)
        requires
            self.consistent(),
        ensures
            self.step(frame, event).0.consistent(),
    {
        let settled = Replay { pending: None, ..self.noted(event).0 };
        assert(settled.consistent());
        match event {
            PointerEvent::Button { global, local, button, pressed, .. } => {
                if let Some(b) = page_button(button) {
                    settled.lemma_button(frame, global, local, b, pressed);
                }
            },
            PointerEvent::Gone => {
                let p = match settled.state.last_mouse {
                    Some(last) => last,
                    None => frame.rect.middle(),
                };
                settled.lemma_let_all_go(frame.page_x(p), frame.page_y(p));
            },
            _ => {},
        }
    }

    /// The same over a whole frame.
    pub proof fn law_frames_keep_masks(self, frame: PointerFrame, events: Seq<PointerEvent>)
        requires
            self.consistent(),
        ensures
            self.run(frame, events).0.consistent(),
        decreases events.len(),
    {
        if events.len() > 0 {
            self.law_frames_keep_masks(frame, events.drop_last());
            self.run(frame, events.drop_last()).0.law_masks_follow_captures(frame, events.last());
        }
    }
}

/// Cancelling leaves no button captured, and the page with none down.
pub proof fn law_cancelling_lets_every_button_go(state: PointerState, x: u32, y: u32)
    requires
        state.left matches Some(c) ==> c.button == BrowserButton::Left,
        state.middle matches Some(c) ==> c.button == BrowserButton::Middle,
        state.right matches Some(c) ==> c.button == BrowserButton::Right,
    ensures
        !state.cancelled(x, y).0.captures(),
        state.cancelled(x, y).1.len() > 0 ==> (state.cancelled(x, y).1.last() matches
            PointerCommand::Release { buttons, .. } && buttons == 0),
{
    let start = Replay {
        state,
        buttons: state.mask(),
        modifiers: BrowserModifiers { alt: false, ctrl: false, meta: false, shift: false },
        pending: None,
    };
    start.lemma_let_all_go(x, y);
}

/// A page knows three buttons, each by its own bit: left, right and middle.
pub proof fn law_buttons_have_their_bits(button: PointerButton)
    ensures
        button is Primary ==> page_button(button) == Some(BrowserButton::Left),
        button is Middle ==> page_button(button) == Some(BrowserButton::Middle),
        button is Secondary ==> page_button(button) == Some(BrowserButton::Right),
        button is Extra1 || button is Extra2 ==> page_button(button) is None,
        page_button(button) matches Some(b) ==> mask_of(b) == (match button {
            PointerButton::Primary => 1u32,
            PointerButton::Secondary => 2u32,
            _ => 4u32,
        }),
{
}

/// The mask has the bit of every button that is held, and no other.
pub proof fn law_masks_name_the_held_buttons(state: PointerState)
    ensures
        state.mask() & 1 == (if state.left is Some { 1u32 } else { 0 }),
        state.mask() & 2 == (if state.right is Some { 2u32 } else { 0 }),
        state.mask() & 4 == (if state.middle is Some { 4u32 } else { 0 }),
        state.mask() <= 7,
        state.captures() <==> state.left is Some || state.middle is Some || state.right is Some,
{
    let l: u32 = held_mask(state.left, BUTTON_LEFT);
    let m: u32 = held_mask(state.middle, BUTTON_MIDDLE);
    let r: u32 = held_mask(state.right, BUTTON_RIGHT);
    assert(((l | m) | r) & 1 == l && ((l | m) | r) & 2 == r && ((l | m) | r) & 4 == m && ((l | m)
        | r) <= 7) by (bit_vector)
        requires
            l == 0 || l == 1,
            m == 0 || m == 4,
            r == 0 || r == 2,
    ;
}

/// A capture is read back as it was made, and no other button is touched.
pub proof fn law_captures_are_kept_apart(
    state: PointerState,
    a: BrowserButton,
    b: BrowserButton,
    click: Option<BrowserPointerClick>,
)
    ensures
        state.with(a, click).at(a) == click,
        a != b ==> state.with(a, click).at(b) == state.at(b),
        state.at(BrowserButton::Left) == state.left,
        state.at(BrowserButton::Middle) == state.middle,
        state.at(BrowserButton::Right) == state.right,
        state.with(a, click).last_mouse == state.last_mouse,
        state.with(a, click).last_click == state.last_click,
{
}

/// Turning the wheel up scrolls the page up: a point is a pixel, a line sixteen,
/// a page five hundred.
pub proof fn law_wheels_turn_the_page(delta: i32)
    ensures
        page_delta(WheelUnit::Point, delta) == 0 - delta,
        page_delta(WheelUnit::Line, delta) == 0 - 16 * delta,
        page_delta(WheelUnit::Page, delta) == 0 - 500 * delta,
{
}

/// A click counts one more than the last where it follows it, with the same
/// button, soon and near enough, up to three; any other counts one.
pub proof fn law_clicks_count_up_to_three(
    last: BrowserPointerClick,
    button: BrowserButton,
    position: Pos,
    time_ms: u64,
    thresholds: ClickThresholds,
)
    ensures
        ({
            let count = count_of(Some(last), button, position, time_ms, thresholds);
            let dx = position.x - last.position.x;
            let dy = position.y - last.position.y;
            let near = dx * dx + dy * dy <= thresholds.distance * thresholds.distance;
            let soon = last.time_ms <= time_ms <= last.time_ms + thresholds.double_click_delay_ms;
            &&& last.button == button && near && soon && last.count < 3 ==> count == last.count + 1
            &&& last.button == button && near && soon && last.count >= 3 ==> count == 3
            &&& last.button != button || !near || !soon ==> count == 1
            &&& count_of(None, button, position, time_ms, thresholds) == 1
        }),
{
}

/// A point of the panel shows the pixel in the same part of the page.
pub proof fn law_points_show_their_pixel(frame: PointerFrame, p: Pos)
    requires
        frame.valid(),
        frame.rect.holds(p),
    ensures
        ({
            let width = frame.rect.max_x - frame.rect.min_x;
            let height = frame.rect.max_y - frame.rect.min_y;
            let x = frame.page_x(p);
            let y = frame.page_y(p);
            &&& width * x <= (p.x - frame.rect.min_x) * frame.frame_width < width * x + width
            &&& height * y <= (p.y - frame.rect.min_y) * frame.frame_height < height * y + height
            &&& x <= frame.frame_width && y <= frame.frame_height
        }),
{
    lemma_part(
        p.x - frame.rect.min_x,
        frame.rect.max_x - frame.rect.min_x,
        frame.frame_width as int,
    );
    lemma_part(
        p.y - frame.rect.min_y,
        frame.rect.max_y - frame.rect.min_y,
        frame.frame_height as int,
    );
}

proof fn lemma_part(offset: int, size: int, target: int)
    requires
        0 <= offset <= size,
        size > 0,
        target >= 0,
    ensures
        ({
            let at = scaled(offset, size, target);
            &&& size * at <= offset * target < size * at + size
            &&& 0 <= at <= target
        }),
{
    let q = offset * target / size;
    vstd::arithmetic::div_mod::lemma_fundamental_div_mod(offset * target, size);
    vstd::arithmetic::div_mod::lemma_mod_bound(offset * target, size);
    assert(0 <= q <= target) by (nonlinear_arith)
        requires
            size * q <= offset * target,
            offset * target < size * q + size,
            0 <= offset <= size,
            target >= 0,
            size > 0,
    ;
    if offset == 0 {
        assert(offset * target == 0);
    }
}

/// A press over the panel's body reaches the page once, with its count and the
/// button's bit, and captures the button; any other press does nothing.
pub proof fn law_presses_capture_the_button(
    replay: Replay,
    frame: PointerFrame,
    global: Pos,
    local: Pos,
    button: BrowserButton,
)
    ensures
        ({
            let (after, sent) = replay.button(frame, global, local, button, true);
            let taken = frame.pointer_target && frame.rect.holds(local);
            &&& !taken ==> after == replay && sent.len() == 0
            &&& taken ==> {
                &&& sent == seq![
                    PointerCommand::Press {
                        x: frame.page_x(local),
                        y: frame.page_y(local),
                        button,
                        click_count: count_of(
                            replay.state.last_click,
                            button,
                            global,
                            frame.time_ms,
                            frame.thresholds,
                        ),
                        buttons: after.buttons,
                        modifiers: replay.modifiers,
                    },
                ]
                &&& after.buttons == replay.buttons | mask_of(button)
                &&& after.state.at(button) matches Some(click) && click.button == button
                    && click.position == global && click.time_ms == frame.time_ms && click.count
                    == count_of(
                    replay.state.last_click,
                    button,
                    global,
                    frame.time_ms,
                    frame.thresholds,
                )
                &&& after.state.last_mouse == Some(local)
                &&& after.state.last_click == replay.state.last_click
            }
        }),
{
}

/// A release of a captured button reaches the page wherever it is, with the
/// count of its press; one that the panel has not captured does not. It
/// completes a click where it is near and soon enough.
pub proof fn law_releases_end_their_press(
    replay: Replay,
    frame: PointerFrame,
    global: Pos,
    local: Pos,
    button: BrowserButton,
)
    ensures
        ({
            let (after, sent) = replay.button(frame, global, local, button, false);
            &&& replay.state.at(button) is None ==> after == replay && sent.len() == 0
            &&& replay.state.at(button) matches Some(click) ==> {
                let dx = global.x - click.position.x;
                let dy = global.y - click.position.y;
                let completes = dx * dx + dy * dy <= frame.thresholds.distance
                    * frame.thresholds.distance && frame.time_ms <= click.time_ms
                    + frame.thresholds.duration_ms;
                &&& sent == seq![
                    PointerCommand::Release {
                        x: frame.page_x(local),
                        y: frame.page_y(local),
                        button,
                        click_count: click.count,
                        buttons: after.buttons,
                        modifiers: replay.modifiers,
                    },
                ]
                &&& after.state.at(button) is None
                &&& after.buttons == replay.buttons & !mask_of(button)
                &&& after.state.last_mouse == Some(local)
                &&& !completes ==> after.state.last_click is None
                &&& completes ==> (after.state.last_click matches Some(last) && last.button
                    == click.button && last.count == click.count && last.position == global
                    && last.time_ms == frame.time_ms)
            }
        }),
{
}

/// A move of half a point or more is told, once the run of moves ends, with the
/// buttons held; a shorter one is not. A panel that the pointer leaves is told so
/// once, at its edge.
pub proof fn law_moves_are_told(replay: Replay, frame: PointerFrame, p: Pos)
    ensures
        ({
            let (after, sent) = replay.moved(frame, p);
            let followed = (frame.pointer_target && frame.rect.holds(p)) || replay.state.captures();
            let far = replay.state.last_mouse matches Some(last) ==> (last.x - p.x) * (last.x - p.x)
                + (last.y - p.y) * (last.y - p.y) >= 250_000;
            &&& followed ==> sent.len() == 0
            &&& followed && far ==> after.state.last_mouse == Some(p) && after.pending == Some(
                PendingMove {
                    x: frame.page_x(p),
                    y: frame.page_y(p),
                    buttons: replay.buttons,
                    modifiers: replay.modifiers,
                },
            )
            &&& followed && !far ==> after == replay
            &&& !followed && replay.state.last_mouse is None ==> after == replay && sent.len() == 0
            &&& !followed && replay.state.last_mouse is Some ==> after.state.last_mouse is None
                && sent == seq![
                PointerCommand::Move {
                    x: frame.page_x(frame.rect.nearest(p)),
                    y: frame.page_y(frame.rect.nearest(p)),
                    buttons: replay.buttons,
                    modifiers: replay.modifiers,
                },
            ]
        }),
{
}

/// A pointer that left the window lets every button go, at the place where it
/// was last seen.
pub proof fn law_leaving_lets_the_buttons_go(replay: Replay, frame: PointerFrame, p: Pos)
    requires
        replay.consistent(),
        replay.state.last_mouse == Some(p),
    ensures
        ({
            let (after, sent) = replay.gone(frame);
            &&& !after.state.captures() && after.buttons == 0 && after.state.last_mouse is None
            &&& forall|k: int|
                0 <= k < sent.len() ==> (#[trigger] sent[k] matches PointerCommand::Release {
                    x,
                    y,
                    ..
                } && x == frame.page_x(p) && y == frame.page_y(p))
            &&& sent.len() == (if replay.state.left is Some { 1int } else { 0 }) + (
            if replay.state.middle is Some { 1int } else { 0 }) + (if replay.state.right is Some {
                1int
            } else {
                0
            })
        }),
{
    replay.lemma_let_all_go(frame.page_x(p), frame.page_y(p));
}

/// The wheel turns the page where the panel has the pointer over its body, and
/// nowhere else.
pub proof fn law_wheels_turn_under_the_pointer(
    replay: Replay,
    frame: PointerFrame,
    unit: WheelUnit,
    dx: i32,
    dy: i32,
)
    ensures
        ({
            let sent = replay.wheel(frame, unit, dx, dy);
            let over = frame.pointer_target && (frame.pointer matches Some(p) && frame.rect.holds(
                p,
            ));
            &&& !over ==> sent.len() == 0
            &&& over ==> sent == seq![
                PointerCommand::Wheel {
                    x: frame.page_x(frame.pointer->0),
                    y: frame.page_y(frame.pointer->0),
                    delta_x: page_delta(unit, dx),
                    delta_y: page_delta(unit, dy),
                    modifiers: replay.modifiers,
                },
            ]
        }),
{
}

/// What comes after a run of moves finds it told: nothing is kept back but the
/// last move of a run. Keys, buttons and the wheel bring the modifiers that hold
/// from then on.
pub proof fn law_runs_of_moves_end_in_one(replay: Replay, frame: PointerFrame, event: PointerEvent)
    ensures
        ({
            let (after, sent) = replay.step(frame, event);
            &&& !(event is Moved) ==> after.pending is None
            &&& !(event is Moved) && replay.pending is Some ==> sent.len() > 0 && sent[0]
                == (PointerCommand::Move {
                x: replay.pending->0.x,
                y: replay.pending->0.y,
                buttons: replay.pending->0.buttons,
                modifiers: replay.pending->0.modifiers,
            })
            &&& event matches PointerEvent::Key { modifiers } ==> after.modifiers
                == page_modifiers(modifiers)
            &&& event matches PointerEvent::Button { modifiers, .. } ==> after.modifiers
                == page_modifiers(modifiers)
            &&& event matches PointerEvent::Wheel { modifiers, .. } ==> after.modifiers
                == page_modifiers(modifiers)
            &&& event is Moved || event is Gone || event is Other ==> after.modifiers
                == replay.modifiers
        }),
{
}

/// Each event of a frame is answered in its turn, with its own modifiers.
pub proof fn law_events_reach_the_page_in_order(
    replay: Replay,
    frame: PointerFrame,
    global: Pos,
    local: Pos,
    button: PointerButton,
    pressed: bool,
    modifiers: Modifiers,
)
    requires
        replay.pending is None,
    ensures
        ({
            let event = PointerEvent::Button { global, local, button, pressed, modifiers };
            let told = Replay { modifiers: page_modifiers(modifiers), ..replay };
            &&& page_button(button) is None ==> replay.step(frame, event) == (
                told,
                Seq::<PointerCommand>::empty(),
            )
            &&& page_button(button) matches Some(b) ==> replay.step(frame, event).0 == told.button(
                frame,
                global,
                local,
                b,
                pressed,
            ).0 && replay.step(frame, event).1 == told.button(frame, global, local, b, pressed).1
            &&& replay.step(frame, PointerEvent::Moved(local)).0 == replay.moved(frame, local).0
            &&& replay.step(frame, PointerEvent::Moved(local)).1 == replay.moved(frame, local).1
            &&& replay.step(frame, PointerEvent::Gone).0 == replay.gone(frame).0
            &&& replay.step(frame, PointerEvent::Gone).1 == replay.gone(frame).1
        }),
{
}

/// A panel that the pointer has nothing to do with tells nothing; every other
/// tells what its events bring and, at the end, the move that was kept back.
pub proof fn law_frames_tell_what_their_events_bring(
    state: PointerState,
    frame: PointerFrame,
    events: Seq<PointerEvent>,
)
    ensures
        ({
            let (after, sent) = frame_result(state, frame, events);
            let idle = !frame.pointer_target && !state.captures()
                && !frame.frame_has_pointer_button;
            let (end, told) = (Replay {
                state,
                buttons: state.mask(),
                modifiers: state.modifiers,
                pending: None,
            }).run(frame, events);
            &&& after.modifiers == page_modifiers(frame.final_modifiers)
            &&& idle ==> sent.len() == 0 && after.last_mouse == state.last_mouse
                && after.last_click == state.last_click && !after.captures()
            &&& !idle && end.pending is None ==> sent == told
            &&& !idle && end.pending is Some ==> sent.len() == told.len() + 1 && sent.take(
                told.len() as int,
            ) == told && (sent.last() matches PointerCommand::Move { x, y, .. } && x
                == end.pending->0.x && y == end.pending->0.y)
            &&& !idle ==> after.left == end.state.left && after.right == end.state.right
                && after.middle == end.state.middle && after.last_click == end.state.last_click
        }),
{
}

/// A cancelled capture is let go where the pointer was last, in the middle of the
/// picture where it was nowhere, and at the page's corner without one.
pub proof fn law_captures_are_cancelled_where_the_pointer_was(
    state: PointerState,
    frame: PointerFrame,
    p: Pos,
)
    ensures
        state.cancel_place(None) == (0u32, 0u32),
        state.last_mouse == Some(p) ==> state.cancel_place(Some(frame)) == (
            frame.page_x(p),
            frame.page_y(p),
        ),
        state.last_mouse is None ==> state.cancel_place(Some(frame)) == (
            frame.page_x(frame.rect.middle()),
            frame.page_y(frame.rect.middle()),
        ),
{
}

} // verus!
