//! Interact: forwarding a person's pointer and keyboard to the desktop while
//! the image has focus, and letting go of everything when it does not.
use vstd::prelude::*;

use super::input::{
    bit_of, button_bit, typed, DesktopPoint, InputEvent, InputState, InputView, PointerButton,
    Remote,
};
use super::keysym::{char_keysym, egui_key_symbol, key_keysym, modifier_keysym};
use crate::geometry::Pos;
use crate::modifiers::Modifiers;

verus! {

/// A position of the pointer on the screen: the desktop pixel shown there, if
/// any, and whether the viewer's layer is the one on top there.
#[derive(Clone, Copy, Debug, PartialEq, Eq, Structural)]
pub struct Place {
    pub at: Pos,
    pub point: Option<DesktopPoint>,
    pub on_top: bool,
}

#[derive(Clone, Copy, Debug, PartialEq, Eq, Structural)]
pub enum WheelUnit {
    Point,
    Line,
    Page,
}

#[derive(Clone, Copy, Debug, PartialEq, Eq, Structural)]
pub enum PointerInput {
    Moved(Place),
    Button { place: Place, button: PointerButton, pressed: bool },
    /// The pointer left the window.
    Gone,
    /// Travel in thousandths of the unit.
    Wheel { unit: WheelUnit, dx: i32, dy: i32 },
}

pub enum KeyInput {
    Copy,
    Cut,
    Paste,
    Key { name: String, pressed: bool, modifiers: Modifiers },
    /// Typed, or committed by an input method.
    Text(String),
    Other,
}

/// What one frame brought.
pub struct CaptureFrame {
    pub pointer: Vec<PointerInput>,
    /// What is at the pointer's place when the frame begins; `Capture::start_at`
    /// says where that is.
    pub start: Option<Place>,
    /// Where the pointer is now, as far as it is known.
    pub latest: Option<Pos>,
    /// The pointer gesture of this frame belongs to the image.
    pub owns_pointer: bool,
    /// The window and the image in it have the keyboard.
    pub focused: bool,
    pub keys: Vec<KeyInput>,
    /// The modifiers at the end of the frame.
    pub modifiers: Modifiers,
}

pub open spec fn clamped(travel: int) -> i32 {
    if travel > i32::MAX {
        i32::MAX
    } else if travel < i32::MIN {
        i32::MIN
    } else {
        travel as i32
    }
}

/// Wheel travel in thousandths of a point: a line is a notch, a page three.
pub open spec fn travel_of(unit: WheelUnit, delta: i32) -> i32 {
    match unit {
        WheelUnit::Point => delta,
        WheelUnit::Line => clamped(delta * 40),
        WheelUnit::Page => clamped(delta * 120),
    }
}

pub fn wheel_points(unit: WheelUnit, delta: i32) -> (travel: i32)
    ensures
        travel == travel_of(unit, delta),
{
    let wide: i64 = match unit {
        WheelUnit::Point => delta as i64,
        WheelUnit::Line => (delta as i64) * 40,
        WheelUnit::Page => (delta as i64) * 120,
    };
    if wide > 0x7fff_ffff {
        0x7fff_ffff
    } else if wide < -0x8000_0000 {
        -0x8000_0000
    } else {
        wide as i32
    }
}

/// The pointer's side of a capture: what the desktop was told, and where the
/// pointer is.
pub struct PointerView {
    pub input: InputView,
    pub here: Option<Place>,
}

pub open spec fn over_image(here: Option<Place>) -> bool {
    here matches Some(place) && place.point is Some && place.on_top
}

impl PointerView {
    /// One event. A move counts over the image, or during a drag; a press only
    /// on the image with nothing on top of it; a release ends a drag anywhere;
    /// the wheel belongs to what is under the pointer when it turns.
    pub open spec fn step(self, event: PointerInput, owns: bool) -> (PointerView, Seq<InputEvent>) {
        match event {
            PointerInput::Moved(place) => {
                let inside = if owns || place.on_top {
                    place.point
                } else {
                    None
                };
                if inside is Some || self.input.buttons != 0 {
                    let (input, events) = self.input.pointer(inside, self.input.buttons);
                    (PointerView { input, here: Some(place) }, events)
                } else {
                    (PointerView { here: Some(place), ..self }, Seq::empty())
                }
            },
            PointerInput::Button { place, button, pressed } => {
                let moved = PointerView { here: Some(place), ..self };
                match bit_of(button) {
                    None => (moved, Seq::empty()),
                    Some(bit) => {
                        let starts = pressed && place.point is Some && (owns || place.on_top);
                        let ends = !pressed && self.input.buttons & bit != 0;
                        if starts || ends {
                            let mask = if pressed {
                                self.input.buttons | bit
                            } else {
                                self.input.buttons & !bit
                            };
                            let (input, events) = self.input.pointer(place.point, mask);
                            (PointerView { input, here: Some(place) }, events)
                        } else {
                            (moved, Seq::empty())
                        }
                    },
                }
            },
            PointerInput::Gone => {
                if self.input.buttons != 0 {
                    let (input, events) = self.input.pointer(None, 0);
                    (PointerView { input, here: None }, events)
                } else {
                    (PointerView { here: None, ..self }, Seq::empty())
                }
            },
            PointerInput::Wheel { unit, dx, dy } => {
                if over_image(self.here) {
                    let (input, events) = self.input.scroll(
                        travel_of(unit, dx) as int,
                        travel_of(unit, dy) as int,
                    );
                    (PointerView { input, ..self }, events)
                } else {
                    (self, Seq::empty())
                }
            },
        }
    }

    pub open spec fn run(self, events: Seq<PointerInput>, owns: bool) -> (
        PointerView,
        Seq<InputEvent>,
    )
        decreases events.len(),
    {
        if events.len() == 0 {
            (self, Seq::empty())
        } else {
            let (mid, sent) = self.run(events.drop_last(), owns);
            let (end, more) = mid.step(events.last(), owns);
            (end, sent + more)
        }
    }
}

impl InputView {
    /// One keyboard event. A key's own modifiers come first, so that a chord
    /// reaches the desktop with its modifier down; the clipboard's own text is
    /// never typed.
    pub open spec fn key_step(self, event: KeyInput) -> (InputView, Seq<InputEvent>) {
        match event {
            KeyInput::Copy => self.chord('c'),
            KeyInput::Cut => self.chord('x'),
            KeyInput::Paste => self.chord('v'),
            KeyInput::Key { name, pressed, modifiers } => {
                let (armed, first) = self.set_modifiers(modifiers);
                let (after, then) = armed.key(
                    key_keysym(name@, egui_key_symbol(name@)),
                    pressed,
                    modifiers,
                );
                (after, first + then)
            },
            KeyInput::Text(text) => (self, typed(text@)),
            KeyInput::Other => (self, Seq::empty()),
        }
    }

    pub open spec fn key_run(self, events: Seq<KeyInput>) -> (InputView, Seq<InputEvent>)
        decreases events.len(),
    {
        if events.len() == 0 {
            (self, Seq::empty())
        } else {
            let (mid, sent) = self.key_run(events.drop_last());
            let (end, more) = mid.key_step(events.last());
            (end, sent + more)
        }
    }
}

/// A viewer's capture.
pub struct Capture {
    /// A person's choice for this session only.
    pub interact: bool,
    pub input: InputState,
    /// The image had the keyboard last frame, so a loss must release keys.
    pub captured: bool,
    /// Where the pointer was last. The next frame's first wheel may come without
    /// a move.
    pub pointer: Option<Pos>,
}

/// The same, as a value.
pub struct CaptureView {
    pub interact: bool,
    pub input: InputView,
    pub captured: bool,
    pub pointer: Option<Pos>,
}

impl View for Capture {
    type V = CaptureView;

    open spec fn view(&self) -> CaptureView {
        CaptureView {
            interact: self.interact,
            input: self.input@,
            captured: self.captured,
            pointer: self.pointer,
        }
    }
}

/// Where the pointer is after a frame: where it is known to be now, or where its
/// last event was; nowhere once it has gone.
pub open spec fn pointer_after(here: Option<Place>, latest: Option<Pos>) -> Option<Pos> {
    match latest {
        Some(pos) => Some(pos),
        None => match here {
            Some(place) => Some(place.at),
            None => None,
        },
    }
}

impl CaptureView {
    /// Where the pointer is when a frame begins: where it was last, or, at the
    /// first frame of a capture, where it is now.
    pub open spec fn starts_at(self, latest: Option<Pos>) -> Option<Pos> {
        match self.pointer {
            Some(pos) => Some(pos),
            None => latest,
        }
    }

    /// The pointer comes first. Then the keys, while the image has the
    /// keyboard; where it has just lost it, everything is let go.
    pub open spec fn forward(self, frame: CaptureFrame) -> (CaptureView, Seq<InputEvent>) {
        let (pointed, moves) = PointerView { input: self.input, here: frame.start }.run(
            frame.pointer@,
            frame.owns_pointer,
        );
        let pointer = pointer_after(pointed.here, frame.latest);
        if frame.focused {
            let (typed_view, keys) = pointed.input.key_run(frame.keys@);
            let (settled, last) = typed_view.set_modifiers(frame.modifiers);
            (CaptureView { input: settled, captured: true, pointer, ..self }, moves + keys + last)
        } else if self.captured {
            let (freed, up) = pointed.input.release_all();
            (CaptureView { input: freed, captured: false, pointer, ..self }, moves + up)
        } else {
            (CaptureView { input: pointed.input, pointer, ..self }, moves)
        }
    }

    pub open spec fn released(self) -> (CaptureView, Seq<InputEvent>) {
        let (freed, up) = self.input.release_all();
        (CaptureView { input: freed, captured: false, pointer: None, ..self }, up)
    }

    /// A frame in which the image is drawn. Input goes out only while a person
    /// interacts with a live view; otherwise everything is let go. Without a
    /// layout of the image nothing can be mapped, and nothing happens.
    pub open spec fn drawn(
        self,
        interactive: bool,
        connected: bool,
        has_layout: bool,
        frame: CaptureFrame,
    ) -> (CaptureView, Seq<InputEvent>) {
        if self.interact && interactive && connected {
            if has_layout {
                self.forward(frame)
            } else {
                (self, Seq::empty())
            }
        } else {
            self.released()
        }
    }
}

impl Capture {
    pub open spec fn valid(self) -> bool {
        self.input.valid()
    }

    pub fn new() -> (capture: Self)
        ensures
            capture.valid(),
            capture@ == (CaptureView {
                interact: false,
                input: InputView::start(),
                captured: false,
                pointer: None,
            }),
    {
        Capture { interact: false, input: InputState::new(), captured: false, pointer: None }
    }

    /// The place whose `Place` a frame starts with, where the pointer is at
    /// `latest` now.
    pub fn start_at(&self, latest: Option<Pos>) -> (start: Option<Pos>)
        ensures
            start == self@.starts_at(latest),
    {
        match self.pointer {
            Some(pos) => Some(pos),
            None => latest,
        }
    }

    /// A new connection: nothing is held there yet, and the image has no keyboard.
    /// Whether a person interacts stays their choice.
    pub fn restart(&mut self)
        ensures
            final(self).valid(),
            final(self)@ == (CaptureView {
                input: InputView::start(),
                captured: false,
                ..old(self)@
            }),
    {
        self.input = InputState::new();
        self.captured = false;
    }

    fn pointer_step(&mut self, here: Option<Place>, event: PointerInput, owns: bool) -> (out: (
        Option<Place>,
        Vec<InputEvent>,
    ))
        requires
            old(self).valid(),
        ensures
            final(self).valid(),
            final(self).interact == old(self).interact,
            final(self).captured == old(self).captured,
            final(self).pointer == old(self).pointer,
            (PointerView { input: final(self).input@, here: out.0 }, out.1@) == (PointerView {
                input: old(self).input@,
                here,
            }).step(event, owns),
    {
        let none: Vec<InputEvent> = Vec::new();
        assert(none@ =~= Seq::<InputEvent>::empty());
        match event {
            PointerInput::Moved(place) => {
                let inside = if owns || place.on_top {
                    place.point
                } else {
                    None
                };
                let buttons: u8 = self.input.buttons();
                if inside.is_some() || buttons != 0 {
                    (Some(place), self.input.pointer(inside, buttons))
                } else {
                    (Some(place), none)
                }
            },
            PointerInput::Button { place, button, pressed } => {
                match button_bit(button) {
                    None => (Some(place), none),
                    Some(bit) => {
                        let buttons: u8 = self.input.buttons();
                        let starts = pressed && place.point.is_some() && (owns || place.on_top);
                        let ends = !pressed && buttons & bit != 0;
                        if starts || ends {
                            let mask: u8 = if pressed {
                                buttons | bit
                            } else {
                                buttons & !bit
                            };
                            (Some(place), self.input.pointer(place.point, mask))
                        } else {
                            (Some(place), none)
                        }
                    },
                }
            },
            PointerInput::Gone => {
                if self.input.buttons() != 0 {
                    (None, self.input.pointer(None, 0))
                } else {
                    (None, none)
                }
            },
            PointerInput::Wheel { unit, dx, dy } => {
                let over = match here {
                    Some(place) => place.point.is_some() && place.on_top,
                    None => false,
                };
                if over {
                    (here, self.input.scroll(wheel_points(unit, dx), wheel_points(unit, dy)))
                } else {
                    (here, none)
                }
            },
        }
    }

    /// Pointer input is replayed event by event: a click whose press and
    /// release land in one frame, or several moves at once, must all reach the
    /// desktop.
    pub fn pointer_input(&mut self, frame: &CaptureFrame) -> (events: Vec<InputEvent>)
        requires
            old(self).valid(),
        ensures
            final(self).valid(),
            final(self).interact == old(self).interact,
            final(self).captured == old(self).captured,
            ({
                let (end, sent) = PointerView { input: old(self).input@, here: frame.start }.run(
                    frame.pointer@,
                    frame.owns_pointer,
                );
                &&& final(self).input@ == end.input
                &&& final(self).pointer == pointer_after(end.here, frame.latest)
                &&& events@ == sent
            }),
    {
        let ghost from = PointerView { input: self.input@, here: frame.start };
        let mut here = frame.start;
        let mut events: Vec<InputEvent> = Vec::new();
        let mut i: usize = 0;
        assert(events@ =~= from.run(frame.pointer@.take(0), frame.owns_pointer).1);
        while i < frame.pointer.len()
            invariant
                self.valid(),
                self.interact == old(self).interact,
                self.captured == old(self).captured,
                i <= frame.pointer@.len(),
                (PointerView { input: self.input@, here }, events@) == from.run(
                    frame.pointer@.take(i as int),
                    frame.owns_pointer,
                ),
            decreases frame.pointer@.len() - i,
        {
            assert(frame.pointer@.take(i + 1).drop_last() =~= frame.pointer@.take(i as int));
            let (next, mut more) = self.pointer_step(here, frame.pointer[i], frame.owns_pointer);
            here = next;
            events.append(&mut more);
            i = i + 1;
        }
        assert(frame.pointer@.take(i as int) =~= frame.pointer@);
        self.pointer =
        match frame.latest {
            Some(pos) => Some(pos),
            None => match here {
                Some(place) => Some(place.at),
                None => None,
            },
        };
        events
    }

    fn key_step(&mut self, event: &KeyInput) -> (events: Vec<InputEvent>)
        requires
            old(self).valid(),
        ensures
            final(self).valid(),
            final(self).interact == old(self).interact,
            final(self).captured == old(self).captured,
            final(self).pointer == old(self).pointer,
            (final(self).input@, events@) == old(self).input@.key_step(*event),
    {
        match event {
            KeyInput::Copy => self.input.clipboard_chord('c'),
            KeyInput::Cut => self.input.clipboard_chord('x'),
            KeyInput::Paste => self.input.clipboard_chord('v'),
            KeyInput::Key { name, pressed, modifiers } => {
                let mut events = self.input.modifiers(*modifiers);
                let mut then = self.input.key(name.as_str(), *pressed, *modifiers);
                events.append(&mut then);
                events
            },
            KeyInput::Text(text) => InputState::text(text.as_str()),
            KeyInput::Other => {
                let none: Vec<InputEvent> = Vec::new();
                assert(none@ =~= Seq::<InputEvent>::empty());
                none
            },
        }
    }

    /// Every key belongs to the desktop while it is captured, Escape included.
    pub fn keyboard_input(&mut self, frame: &CaptureFrame) -> (events: Vec<InputEvent>)
        requires
            old(self).valid(),
        ensures
            final(self).valid(),
            final(self).interact == old(self).interact,
            final(self).captured == old(self).captured,
            final(self).pointer == old(self).pointer,
            ({
                let (after, keys) = old(self).input@.key_run(frame.keys@);
                let (settled, last) = after.set_modifiers(frame.modifiers);
                final(self).input@ == settled && events@ == keys + last
            }),
    {
        let ghost from = self.input@;
        let mut events: Vec<InputEvent> = Vec::new();
        let mut i: usize = 0;
        assert(events@ =~= from.key_run(frame.keys@.take(0)).1);
        while i < frame.keys.len()
            invariant
                self.valid(),
                self.interact == old(self).interact,
                self.captured == old(self).captured,
                self.pointer == old(self).pointer,
                i <= frame.keys@.len(),
                (self.input@, events@) == from.key_run(frame.keys@.take(i as int)),
            decreases frame.keys@.len() - i,
        {
            assert(frame.keys@.take(i + 1).drop_last() =~= frame.keys@.take(i as int));
            let mut more = self.key_step(&frame.keys[i]);
            events.append(&mut more);
            i = i + 1;
        }
        assert(frame.keys@.take(i as int) =~= frame.keys@);
        let mut last = self.input.modifiers(frame.modifiers);
        events.append(&mut last);
        events
    }

    pub fn forward_input(&mut self, frame: &CaptureFrame) -> (events: Vec<InputEvent>)
        requires
            old(self).valid(),
        ensures
            final(self).valid(),
            (final(self)@, events@) == old(self)@.forward(*frame),
    {
        let mut events = self.pointer_input(frame);
        // Widget focus survives the window losing the system's focus, after
        // which no key-up is guaranteed; that too is the end of capture.
        if frame.focused {
            let ghost moves = events@;
            let mut keys = self.keyboard_input(frame);
            let ghost sent = keys@;
            events.append(&mut keys);
            self.captured = true;
            assert(events@ == moves + sent);
            assert(events@ =~= old(self)@.forward(*frame).1);
        } else if self.captured {
            let mut up = self.input.release_all();
            events.append(&mut up);
            self.captured = false;
        }
        events
    }

    /// Lets go of every key and button the desktop still thinks are held.
    pub fn release_input(&mut self) -> (events: Vec<InputEvent>)
        requires
            old(self).valid(),
        ensures
            final(self).valid(),
            (final(self)@, events@) == old(self)@.released(),
    {
        let events = self.input.release_all();
        self.captured = false;
        self.pointer = None;
        events
    }

    /// The input of a frame in which the image is drawn.
    pub fn frame(
        &mut self,
        interactive: bool,
        connected: bool,
        has_layout: bool,
        frame: &CaptureFrame,
    ) -> (events: Vec<InputEvent>)
        requires
            old(self).valid(),
        ensures
            final(self).valid(),
            (final(self)@, events@) == old(self)@.drawn(
                interactive,
                connected,
                has_layout,
                *frame,
            ),
    {
        if self.interact && interactive && connected {
            if has_layout {
                self.forward_input(frame)
            } else {
                let none: Vec<InputEvent> = Vec::new();
                assert(none@ =~= Seq::<InputEvent>::empty());
                none
            }
        } else {
            self.release_input()
        }
    }

    /// The switch was set by a person; turning it off lets everything go.
    pub fn interact_toggle(&mut self, on: bool) -> (events: Vec<InputEvent>)
        requires
            old(self).valid(),
        ensures
            final(self).valid(),
            final(self).interact == on,
            old(self).interact && !on ==> (final(self).input@, events@) == old(
                self,
            ).input@.release_all() && !final(self).captured && final(self).pointer is None,
            !(old(self).interact && !on) ==> events@.len() == 0 && final(self).input@ == old(
                self,
            ).input@ && final(self).captured == old(self).captured && final(self).pointer == old(
                self,
            ).pointer,
    {
        let was = self.interact;
        self.interact = on;
        if was && !on {
            self.release_input()
        } else {
            Vec::new()
        }
    }

    /// The hint beside the switch.
    pub fn hint(&self) -> (hint: Option<&'static str>)
        ensures
            hint is Some == self.interact,
            hint matches Some(text) ==> text@ == (if self.captured {
                "Keyboard captured, Escape included; click outside the image to release it"@
            } else {
                "Click the image to type into it"@
            }),
    {
        if !self.interact {
            None
        } else if self.captured {
            Some("Keyboard captured, Escape included; click outside the image to release it")
        } else {
            Some("Click the image to type into it")
        }
    }
}

/// A viewer that nobody interacts with sends nothing, whatever a frame brings.
pub proof fn law_read_only_viewers_send_nothing(
    connected: bool,
    has_layout: bool,
    interactive: bool,
    frame: CaptureFrame,
)
    ensures
        ({
            let idle = CaptureView {
                interact: false,
                input: InputView::start(),
                captured: false,
                pointer: None,
            };
            let (after, events) = idle.drawn(interactive, connected, has_layout, frame);
            events.len() == 0 && after == idle
        }),
{
    let view = InputView::start();
    assert(super::input::releases(view.held) =~= Seq::<InputEvent>::empty());
}

proof fn lemma_track_sound(view: InputView, keysym: u32, down: bool)
    requires
        view.sound(),
        !modifier_keysym(keysym),
    ensures
        view.track(keysym, down).sound(),
{
    if !down {
        lemma_without_members(view.held, keysym);
        let out = super::input::without(view.held, keysym);
        assert forall|i: int| 0 <= i < out.len() implies !modifier_keysym(#[trigger] out[i]) by {
            let j = choose|j: int| 0 <= j < view.held.len() && view.held[j] == out[i];
            assert(!modifier_keysym(view.held[j]));
        }
    }
}

proof fn lemma_without_members(list: Seq<u32>, keysym: u32)
    ensures
        forall|i: int|
            0 <= i < super::input::without(list, keysym).len() ==> list.contains(
                #[trigger] super::input::without(list, keysym)[i],
            ),
    decreases list.len(),
{
    if list.len() > 0 {
        let head = list.drop_last();
        lemma_without_members(head, keysym);
        let out = super::input::without(list, keysym);
        assert forall|i: int| 0 <= i < out.len() implies list.contains(#[trigger] out[i]) by {
            let kept = super::input::without(head, keysym);
            if i < kept.len() {
                assert(out[i] == kept[i]);
                let j = choose|j: int| 0 <= j < head.len() && head[j] == kept[i];
                assert(list[j] == out[i]);
            } else {
                assert(list[list.len() - 1] == out[i]);
            }
        }
    }
}

proof fn lemma_pointer_step(view: PointerView, remote: Remote, event: PointerInput, owns: bool)
    requires
        view.input.sound(),
        view.input.accounts_for(remote),
    ensures
        view.step(event, owns).0.input.sound(),
        view.step(event, owns).0.input.accounts_for(remote.told_all(view.step(event, owns).1)),
{
    match event {
        PointerInput::Moved(place) => {
            let inside = if owns || place.on_top {
                place.point
            } else {
                None
            };
            super::input::law_pointer_keeps_the_account(
                view.input,
                remote,
                inside,
                view.input.buttons,
            );
        },
        PointerInput::Button { place, button, pressed } => {
            if let Some(bit) = bit_of(button) {
                let mask = if pressed {
                    view.input.buttons | bit
                } else {
                    view.input.buttons & !bit
                };
                super::input::law_pointer_keeps_the_account(view.input, remote, place.point, mask);
            }
        },
        PointerInput::Gone => {
            super::input::law_pointer_keeps_the_account(view.input, remote, None, 0);
        },
        PointerInput::Wheel { unit, dx, dy } => {
            super::input::law_scroll_keeps_the_account(
                view.input,
                remote,
                travel_of(unit, dx) as int,
                travel_of(unit, dy) as int,
            );
        },
    }
}

proof fn lemma_pointer_run(
    view: PointerView,
    remote: Remote,
    events: Seq<PointerInput>,
    owns: bool,
)
    requires
        view.input.sound(),
        view.input.accounts_for(remote),
    ensures
        view.run(events, owns).0.input.sound(),
        view.run(events, owns).0.input.accounts_for(remote.told_all(view.run(events, owns).1)),
    decreases events.len(),
{
    if events.len() > 0 {
        lemma_pointer_run(view, remote, events.drop_last(), owns);
        let (mid, sent) = view.run(events.drop_last(), owns);
        lemma_pointer_step(mid, remote.told_all(sent), events.last(), owns);
        super::input::lemma_told_append(remote, sent, mid.step(events.last(), owns).1);
    }
}

proof fn lemma_set_modifiers(view: InputView, remote: Remote, now: Modifiers)
    requires
        view.sound(),
        view.accounts_for(remote),
    ensures
        view.set_modifiers(now).0.sound(),
        view.set_modifiers(now).0.accounts_for(remote.told_all(view.set_modifiers(now).1)),
{
    super::input::law_modifiers_keep_the_account(view, remote, now);
}

proof fn lemma_key_step(view: InputView, remote: Remote, event: KeyInput)
    requires
        view.sound(),
        view.accounts_for(remote),
    ensures
        view.key_step(event).0.sound(),
        view.key_step(event).0.accounts_for(remote.told_all(view.key_step(event).1)),
{
    match event {
        KeyInput::Copy => lemma_chord(view, remote, 'c'),
        KeyInput::Cut => lemma_chord(view, remote, 'x'),
        KeyInput::Paste => lemma_chord(view, remote, 'v'),
        KeyInput::Key { name, pressed, modifiers } => {
            lemma_set_modifiers(view, remote, modifiers);
            let (armed, first) = view.set_modifiers(modifiers);
            let keysym = key_keysym(name@, egui_key_symbol(name@));
            super::keysym::law_keys_are_never_modifiers(name@, egui_key_symbol(name@));
            super::input::law_keys_keep_the_account(
                armed,
                remote.told_all(first),
                keysym,
                pressed,
                modifiers,
            );
            if let Some(k) = keysym {
                lemma_track_sound(armed, k, pressed);
            }
            super::input::lemma_told_append(remote, first, armed.key(keysym, pressed, modifiers).1);
        },
        KeyInput::Text(text) => super::input::law_text_keeps_the_account(view, remote, text@),
        KeyInput::Other => {},
    }
}

proof fn lemma_chord(view: InputView, remote: Remote, letter: char)
    requires
        view.sound(),
        view.accounts_for(remote),
        'a' <= letter && letter <= 'z',
    ensures
        view.chord(letter).0.sound(),
        view.chord(letter).0.accounts_for(remote.told_all(view.chord(letter).1)),
{
    super::input::law_chords_keep_the_account(view, remote, letter);
    let armed = InputView {
        modifiers: Modifiers {
            ctrl: view.modifiers.ctrl || !view.modifiers.mac_cmd,
            ..view.modifiers
        },
        ..view
    };
    lemma_track_sound(armed, char_keysym(letter), true);
    assert(view.chord(letter).0 == armed.track(char_keysym(letter), true));
}

proof fn lemma_key_run(view: InputView, remote: Remote, events: Seq<KeyInput>)
    requires
        view.sound(),
        view.accounts_for(remote),
    ensures
        view.key_run(events).0.sound(),
        view.key_run(events).0.accounts_for(remote.told_all(view.key_run(events).1)),
    decreases events.len(),
{
    if events.len() > 0 {
        lemma_key_run(view, remote, events.drop_last());
        let (mid, sent) = view.key_run(events.drop_last());
        lemma_key_step(mid, remote.told_all(sent), events.last());
        super::input::lemma_told_append(remote, sent, mid.key_step(events.last()).1);
    }
}

/// Whatever a frame brings, the viewer afterwards knows of everything that the
/// desktop believes is held; and where the frame ends without capture of the
/// keyboard after one with it, that is nothing.
pub proof fn law_frames_keep_the_account(view: CaptureView, remote: Remote, frame: CaptureFrame)
    requires
        view.input.valid(),
        view.input.accounts_for(remote),
    ensures
        view.forward(frame).0.input.accounts_for(remote.told_all(view.forward(frame).1)),
        view.captured && !frame.focused ==> {
            let after = remote.told_all(view.forward(frame).1);
            after.keys == Set::<u32>::empty() && after.buttons == 0
        },
{
    let from = PointerView { input: view.input, here: frame.start };
    lemma_pointer_run(from, remote, frame.pointer@, frame.owns_pointer);
    let (pointed, moves) = from.run(frame.pointer@, frame.owns_pointer);
    let r1 = remote.told_all(moves);
    if frame.focused {
        lemma_key_run(pointed.input, r1, frame.keys@);
        let (after, keys) = pointed.input.key_run(frame.keys@);
        let r2 = r1.told_all(keys);
        lemma_set_modifiers(after, r2, frame.modifiers);
        let last = after.set_modifiers(frame.modifiers).1;
        super::input::lemma_told_append(remote, moves, keys);
        super::input::lemma_told_append(remote, moves + keys, last);
    } else if view.captured {
        super::input::law_release_leaves_nothing_held(pointed.input, r1);
        super::input::lemma_told_append(remote, moves, pointed.input.release_all().1);
    }
}

/// A line of the wheel is forty points of travel, a page three lines; what the
/// counter cannot hold stands at its end.
pub proof fn law_wheel_units_are_points_of_travel(unit: WheelUnit, delta: i32)
    ensures
        unit is Point ==> travel_of(unit, delta) == delta,
        unit is Line && -50_000_000 <= delta <= 50_000_000 ==> travel_of(unit, delta) == delta * 40,
        unit is Page && -15_000_000 <= delta <= 15_000_000 ==> travel_of(unit, delta) == delta
            * 120,
        delta > 0 ==> travel_of(unit, delta) > 0,
        delta < 0 ==> travel_of(unit, delta) < 0,
{
}

/// A press on the image with nothing on top presses that button there; the
/// release lets it go wherever it happens. Elsewhere a press is not the
/// desktop's.
pub proof fn law_clicks_press_and_release_where_they_happen(
    view: PointerView,
    place: Place,
    button: PointerButton,
    bit: u8,
    owns: bool,
)
    requires
        button is Primary && bit == 1 || button is Middle && bit == 2 || button is Secondary && bit
            == 4,
        view.input.buttons & bit == 0,
    ensures
        ({
            let (pressed, sent) = view.step(
                PointerInput::Button { place, button, pressed: true },
                owns,
            );
            let starts = place.point is Some && (owns || place.on_top);
            &&& starts ==> pressed.input.buttons == view.input.buttons | bit && sent == seq![
                InputEvent::Pointer {
                    x: place.point->0.x,
                    y: place.point->0.y,
                    buttons: view.input.buttons | bit,
                },
            ]
            &&& !starts ==> sent.len() == 0 && pressed.input == view.input
            &&& pressed.here == Some(place)
        }),
        view.step(PointerInput::Button { place, button, pressed: false }, owns).1.len() == 0,
{
    let b = view.input.buttons;
    assert(b & bit == 0 && bit != 0 ==> b | bit != b) by (bit_vector);
}

/// Letting go of a button that is down is told wherever the pointer is: at the
/// image's pixel there, or where it was seen last.
pub proof fn law_releases_end_drags_anywhere(
    view: PointerView,
    place: Place,
    button: PointerButton,
    bit: u8,
    owns: bool,
)
    requires
        button is Primary && bit == 1 || button is Middle && bit == 2 || button is Secondary && bit
            == 4,
        view.input.buttons & bit != 0,
        view.input.position is Some,
    ensures
        ({
            let (after, sent) = view.step(
                PointerInput::Button { place, button, pressed: false },
                owns,
            );
            let at = if place.point is Some {
                place.point->0
            } else {
                view.input.position->0
            };
            &&& after.input.buttons == view.input.buttons & !bit
            &&& sent == seq![
                InputEvent::Pointer { x: at.x, y: at.y, buttons: view.input.buttons & !bit },
            ]
        }),
{
    let b = view.input.buttons;
    assert(b & bit != 0 ==> b & !bit != b) by (bit_vector);
}

/// A move over the image is told where it is; one elsewhere only during a drag,
/// and a pointer that leaves the window ends every drag.
pub proof fn law_moves_are_told_over_the_image(view: PointerView, place: Place, owns: bool)
    ensures
        ({
            let (after, sent) = view.step(PointerInput::Moved(place), owns);
            let seen = place.point is Some && (owns || place.on_top);
            &&& after.here == Some(place)
            &&& after.input.buttons == view.input.buttons
            &&& seen && view.input.position != place.point ==> sent == seq![
                InputEvent::Pointer {
                    x: place.point->0.x,
                    y: place.point->0.y,
                    buttons: view.input.buttons,
                },
            ]
            &&& !seen ==> sent.len() == 0
        }),
        ({
            let (after, sent) = view.step(PointerInput::Gone, owns);
            &&& after.here is None
            &&& view.input.buttons != 0 && view.input.position is Some ==> after.input.buttons == 0
                && sent.len() == 1
            &&& view.input.buttons == 0 ==> sent.len() == 0
        }),
{
}

/// The wheel turns what is under the pointer: the desktop only where the image
/// is there and nothing lies on top of it.
pub proof fn law_the_wheel_belongs_to_what_is_under_the_pointer(
    view: PointerView,
    unit: WheelUnit,
    dx: i32,
    dy: i32,
    owns: bool,
)
    ensures
        ({
            let (after, sent) = view.step(PointerInput::Wheel { unit, dx, dy }, owns);
            &&& view.here is None || view.here->0.point is None || !view.here->0.on_top ==> after
                == view && sent.len() == 0
            &&& (view.here matches Some(place) && place.point is Some && place.on_top) && unit
                is Point ==> sent == view.input.scroll(dx as int, dy as int).1
        }),
{
}

/// Copy, cut and paste reach the desktop as chords of C, X and V; text is typed,
/// and anything else sends nothing.
pub proof fn law_clipboard_keys_are_chords(view: InputView, text: String)
    ensures
        view.key_step(KeyInput::Copy).1.last() == (InputEvent::Key { keysym: 0x63, down: true }),
        view.key_step(KeyInput::Cut).1.last() == (InputEvent::Key { keysym: 0x78, down: true }),
        view.key_step(KeyInput::Paste).1.last() == (InputEvent::Key { keysym: 0x76, down: true }),
        view.key_step(KeyInput::Copy).0.modifiers.ctrl || view.key_step(
            KeyInput::Copy,
        ).0.modifiers.mac_cmd,
        view.key_step(KeyInput::Text(text)) == (view, typed(text@)),
        view.key_step(KeyInput::Other) == (view, Seq::<InputEvent>::empty()),
{
    assert('c' as u32 == 0x63 && 'x' as u32 == 0x78 && 'v' as u32 == 0x76);
}

/// A key's own modifiers are set before it is sent, so that a chord arrives with
/// them down.
pub proof fn law_modifiers_come_before_their_key(
    view: InputView,
    name: String,
    pressed: bool,
    modifiers: Modifiers,
)
    ensures
        ({
            let (after, sent) = view.key_step(KeyInput::Key { name, pressed, modifiers });
            let first = view.set_modifiers(modifiers).1;
            &&& after.modifiers == modifiers
            &&& sent.len() >= first.len() && sent.take(first.len() as int) == first
            &&& sent.len() <= first.len() + 1
            &&& sent.len() == first.len() + 1 ==> (sent.last() matches InputEvent::Key {
                keysym,
                down,
            } && down == pressed && key_keysym(name@, egui_key_symbol(name@)) == Some(keysym))
        }),
{
    let (after, sent) = view.key_step(KeyInput::Key { name, pressed, modifiers });
    let first = view.set_modifiers(modifiers).1;
    assert(sent.take(first.len() as int) =~= first);
}

/// A frame sends the pointer's events, then, while the image has the keyboard,
/// the keys' and the modifiers' at its end; a frame in which it has just lost the
/// keyboard lets everything go.
pub proof fn law_frames_send_the_pointer_then_the_keys(view: CaptureView, frame: CaptureFrame)
    ensures
        ({
            let (after, sent) = view.forward(frame);
            let start = PointerView { input: view.input, here: frame.start };
            let (pointed, moves) = start.run(frame.pointer@, frame.owns_pointer);
            &&& after.interact == view.interact
            &&& after.captured == frame.focused
            &&& frame.focused ==> after.input.modifiers == frame.modifiers && sent == moves
                + pointed.input.key_run(frame.keys@).1 + pointed.input.key_run(
                frame.keys@,
            ).0.set_modifiers(frame.modifiers).1
            &&& !frame.focused && view.captured ==> sent == moves + pointed.input.release_all().1
                && after.input.held.len() == 0 && (pointed.input.position is Some
                ==> after.input.buttons == 0)
            &&& !frame.focused && !view.captured ==> sent == moves
            &&& frame.latest is Some ==> after.pointer == frame.latest
            &&& frame.latest is None && pointed.here is None ==> after.pointer is None
            &&& frame.latest is None ==> (pointed.here matches Some(place) ==> after.pointer
                == Some(place.at))
        }),
{
}

/// A frame goes on where the pointer was; the first one begins where it is.
pub proof fn law_frames_go_on_where_the_pointer_was(
    capture: CaptureView,
    latest: Option<Pos>,
)
    ensures
        capture.pointer is Some ==> capture.starts_at(latest) == capture.pointer,
        capture.pointer is None ==> capture.starts_at(latest) == latest,
{
}

/// What is said of a capture is said of what it holds.
pub proof fn law_capture_is_seen_as_it_is(value: Capture)
    ensures
        value@.interact == value.interact,
        value@.input == value.input@,
        value@.captured == value.captured,
        value@.pointer == value.pointer,
{
}

} // verus!
