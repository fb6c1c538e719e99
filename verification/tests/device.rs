//! The device viewer: pixels, input, the connection, and what it reports.
use horizon_ui::browser::zoom::PanelZoom;
use horizon_ui::canvas::{canvas_to_screen, screen_to_canvas, CanvasView, Point};
use horizon_ui::device::capture::{
    Capture, CaptureFrame, KeyInput, Place, PointerInput, WheelUnit,
};
use horizon_ui::device::controls::{sizes_label, Controls, ControlsEdit, ControlsFrame};
use horizon_ui::device::details::{
    heading, machine_rows, name_caption, route_rows, server_caption, server_rows, DeviceIdentity, Row, SshHop,
};
use horizon_ui::device::frame::{FrameEvent, FrameRect, Framebuffer, ViewError};
use horizon_ui::device::host::{HostCanvas, HostExclusion, HostState, HostViewport};
use horizon_ui::device::input::{
    button_bit, desktop_point, DesktopCrop, DesktopPoint, InputEvent, InputState, PointerButton,
    BUTTON_LEFT, BUTTON_RIGHT, MAX_SCROLL_NOTCHES_PER_FRAME,
};
use horizon_ui::device::keysym::{
    keysym_for_key, UNICODE_KEYSYM_BASE, XK_CONTROL_L, XK_DELETE, XK_F1, XK_RETURN, XK_SHIFT_L,
};
use horizon_ui::device::session::{
    DeviceViewOptions, DeviceViewport, PassStart, QueueEmpty, RefreshRequest, Status, Updates,
    ViewerStream,
};
use horizon_ui::device::tunnel::{reap_step, Reaping, StderrTail};
use horizon_ui::device::viewer::{
    visible_image, Connection, ImagePlan, Presentation, Viewer,
};
use horizon_ui::device::zoom::image_size;
use horizon_ui::geometry::{Pos, ScreenRect};
use horizon_ui::modifiers::Modifiers;

const NONE: Modifiers = Modifiers {
    alt: false,
    ctrl: false,
    shift: false,
    mac_cmd: false,
    command: false,
};
const CTRL: Modifiers = Modifiers { ctrl: true, ..NONE };
const SHIFT: Modifiers = Modifiers { shift: true, ..NONE };
const ALT: Modifiers = Modifiers { alt: true, ..NONE };
const MAC_CMD: Modifiers = Modifiers {
    mac_cmd: true,
    ..NONE
};
const CTRL_SHIFT: Modifiers = Modifiers {
    ctrl: true,
    shift: true,
    ..NONE
};

fn keysyms(events: &[InputEvent]) -> Vec<(u32, bool)> {
    events
        .iter()
        .filter_map(|event| match event {
            InputEvent::Key { keysym, down } => Some((*keysym, *down)),
            InputEvent::Pointer { .. } => None,
        })
        .collect()
}

fn pointers(events: &[InputEvent]) -> Vec<(u16, u16, u8)> {
    events
        .iter()
        .filter_map(|event| match event {
            InputEvent::Pointer { x, y, buttons } => Some((*x, *y, *buttons)),
            InputEvent::Key { .. } => None,
        })
        .collect()
}

fn must<T>(result: Result<T, ViewError>) -> T {
    match result {
        Ok(value) => value,
        Err(error) => panic!("{}", error.message()),
    }
}

fn rect(x: u16, y: u16, width: u16, height: u16) -> FrameRect {
    FrameRect {
        x,
        y,
        width,
        height,
    }
}

// Pixels.

#[test]
fn overlapping_copy_and_resize_preserve_valid_pixels() {
    let mut frame = Framebuffer::new();
    must(frame.apply(FrameEvent::SetResolution {
        width: 3,
        height: 1,
    }));
    must(frame.apply(FrameEvent::RawImage(
        rect(0, 0, 3, 1),
        vec![1, 2, 3, 0, 4, 5, 6, 0, 7, 8, 9, 0],
    )));
    must(frame.apply(FrameEvent::Copy(rect(1, 0, 2, 1), rect(0, 0, 2, 1))));
    assert_eq!(frame.rgba, [1, 2, 3, 255, 1, 2, 3, 255, 4, 5, 6, 255]);
    must(frame.apply(FrameEvent::SetResolution {
        width: 1,
        height: 2,
    }));
    assert_eq!(frame.size(), (1, 2));
    assert_eq!(frame.rgba, [0; 8]);
}

#[test]
fn malformed_rectangles_and_oversized_desktops_fail() {
    let mut frame = Framebuffer::new();
    assert!(frame
        .apply(FrameEvent::RawImage(rect(0, 0, 1, 1), vec![0; 4]))
        .is_err());
    assert!(frame
        .apply(FrameEvent::SetResolution {
            width: u16::MAX,
            height: u16::MAX
        })
        .is_err());
}

#[test]
fn refused_events_leave_the_pixels_alone() {
    let mut frame = Framebuffer::new();
    must(frame.apply(FrameEvent::SetResolution {
        width: 2,
        height: 1,
    }));
    must(frame.apply(FrameEvent::RawImage(rect(1, 0, 1, 1), vec![7, 8, 9, 1])));
    let before = frame.rgba.clone();
    for event in [
        FrameEvent::RawImage(rect(1, 0, 2, 1), vec![0; 8]),
        FrameEvent::RawImage(rect(0, 0, 1, 1), vec![0; 3]),
        FrameEvent::Copy(rect(0, 0, 2, 1), rect(0, 0, 1, 1)),
        FrameEvent::ForeignImage,
        FrameEvent::Unsupported,
    ] {
        assert!(matches!(frame.apply(event), Err(ViewError::Frame(_))));
        assert_eq!(frame.rgba, before);
    }
    let refused = frame.apply(FrameEvent::Error("gone".into()));
    assert!(matches!(&refused, Err(ViewError::Server(text)) if text == "gone"));
    assert!(!must(frame.apply(FrameEvent::Aside)));
    assert_eq!(frame.rgba, [0, 0, 0, 0, 7, 8, 9, 255]);
}

#[test]
fn errors_name_their_cause() {
    assert_eq!(ViewError::Timeout.message(), "connection timed out");
    assert_eq!(
        ViewError::Frame("early end of stream").message(),
        "early end of stream"
    );
}

// Where the host shows the panel.

fn canvas(x: i64) -> HostCanvas {
    HostCanvas {
        pan_x: x,
        pan_y: 0,
        zoom: 1_000_000,
        left: 0,
        top: 0,
        right: 800_000,
        bottom: 600_000,
    }
}

#[test]
fn dispatch_is_separate_from_applied_reveal_and_later_camera_movement() {
    let mut state = HostState::new();
    state.requested();
    state.record(
        HostViewport::Root,
        Some(canvas(0)),
        Some(HostExclusion::OutsideCanvas),
        1,
    );
    let requested = state.observation().unwrap();
    assert_eq!(requested.reveal_requests, 1);
    assert_eq!(requested.applied_reveal_request, 0);
    assert_eq!(requested.view_changed_since_reveal, None);
    state.applied(HostViewport::Root, canvas(100_000));
    state.record(HostViewport::Root, Some(canvas(100_000)), None, 2);
    assert_eq!(
        state.observation().unwrap().view_changed_since_reveal,
        Some(false)
    );
    state.begin_frame();
    assert!(!state.observed_this_frame());
    assert_eq!(state.observation().unwrap().applied_reveal_request, 1);
    state.record(
        HostViewport::Root,
        Some(canvas(200_000)),
        Some(HostExclusion::OutsideCanvas),
        3,
    );
    let moved = state.observation().unwrap();
    assert_eq!(moved.view_revision, 2);
    assert_eq!(moved.view_changed_since_reveal, Some(true));
}

#[test]
fn unobserved_detached_canvas_does_not_reuse_root_or_stale_geometry() {
    let mut state = HostState::new();
    state.applied(HostViewport::Detached, canvas(0));
    state.record(
        HostViewport::Detached,
        None,
        Some(HostExclusion::DetachedViewportNotRendered),
        1,
    );
    let observation = state.observation().unwrap();
    assert_eq!(observation.canvas, None);
    assert_eq!(observation.view_changed_since_reveal, None);
    state.record(HostViewport::Root, Some(canvas(0)), None, 2);
    assert_eq!(
        state.observation().unwrap().view_changed_since_reveal,
        Some(true)
    );
}

#[test]
fn late_navigation_and_discard_keep_render_camera_separate() {
    let mut state = HostState::new();
    state.requested();
    state.applied(HostViewport::Root, canvas(0));
    state.record(HostViewport::Root, Some(canvas(0)), None, 1);
    state.finish(Some(canvas(100_000)), true, 7, true, 2);
    let first = state.observation().unwrap();
    assert_eq!(first.canvas, Some(canvas(0)));
    assert_eq!(first.canvas_after_pass, Some(canvas(100_000)));
    assert_eq!(first.ui_pass, 7);
    assert!(first.discarded);
    assert_eq!(first.view_changed_since_reveal, Some(true));
    state.begin_frame();
    state.record(HostViewport::Root, Some(canvas(100_000)), None, 3);
    state.finish(Some(canvas(0)), true, 8, false, 4);
    let second = state.observation().unwrap();
    assert_eq!(second.canvas, Some(canvas(100_000)));
    assert_eq!(second.canvas_after_pass, Some(canvas(0)));
    assert!(!second.discarded);
    assert_eq!(second.view_changed_since_reveal, Some(false));
}

#[test]
fn coalesced_requests_and_independent_viewports_do_not_claim_extra_applications() {
    let mut first = HostState::new();
    let mut second = HostState::new();
    first.requested();
    first.requested();
    first.applied(HostViewport::Detached, canvas(10_000));
    first.record(HostViewport::Detached, Some(canvas(10_000)), None, 1);
    second.record(HostViewport::Detached, Some(canvas(20_000)), None, 1);
    assert_eq!(first.observation().unwrap().applied_reveal_request, 2);
    assert_eq!(second.observation().unwrap().applied_reveal_request, 0);
    assert_eq!(
        second.observation().unwrap().view_changed_since_reveal,
        None
    );
    assert_eq!(first.observation().unwrap().canvas, Some(canvas(10_000)));
    assert_eq!(second.observation().unwrap().canvas, Some(canvas(20_000)));
}

// Input.

fn at(x: i32, y: i32) -> Pos {
    Pos { x, y }
}

#[test]
fn image_points_map_through_the_crop_and_scale_to_desktop_pixels() {
    let image = ScreenRect {
        min_x: 100_000,
        min_y: 50_000,
        max_x: 300_000,
        max_y: 150_000,
    };
    let full = DesktopCrop {
        x: 0,
        y: 0,
        width: 1600,
        height: 800,
    };
    assert_eq!(
        desktop_point(image, full, at(100_000, 50_000)),
        Some(DesktopPoint { x: 0, y: 0 })
    );
    assert_eq!(
        desktop_point(image, full, at(200_000, 100_000)),
        Some(DesktopPoint { x: 800, y: 400 })
    );
    assert_eq!(
        desktop_point(image, full, at(299_900, 149_900)),
        Some(DesktopPoint { x: 1599, y: 799 }),
        "the far edge stays inside the desktop"
    );
    assert_eq!(
        desktop_point(image, full, at(99_000, 50_000)),
        None,
        "outside the image"
    );
    let cropped = DesktopCrop {
        x: 300,
        y: 200,
        width: 400,
        height: 200,
    };
    assert_eq!(
        desktop_point(image, cropped, at(150_000, 75_000)),
        Some(DesktopPoint { x: 400, y: 250 }),
        "a viewport offsets and scales the point"
    );
}

#[test]
fn pointer_moves_and_button_changes_are_sent_once_each() {
    let mut state = InputState::new();
    let at = DesktopPoint { x: 10, y: 20 };
    assert_eq!(pointers(&state.pointer(Some(at), 0)), vec![(10, 20, 0)]);
    assert!(state.pointer(Some(at), 0).is_empty(), "no change, no event");
    assert_eq!(
        pointers(&state.pointer(Some(at), BUTTON_LEFT)),
        vec![(10, 20, 1)]
    );
    assert_eq!(
        pointers(&state.pointer(None, BUTTON_LEFT | BUTTON_RIGHT)),
        vec![(10, 20, 5)],
        "a drag that leaves the image keeps the last position"
    );
    assert!(
        InputState::new().pointer(None, BUTTON_LEFT).is_empty(),
        "nothing before a position"
    );
    assert_eq!(state.buttons(), 5);
    assert_eq!(button_bit(PointerButton::Middle), Some(2));
    assert_eq!(button_bit(PointerButton::Extra1), None);
}

#[test]
fn scroll_travel_becomes_clicks_of_the_wheel_buttons() {
    let mut state = InputState::new();
    assert!(state.scroll(0, 80_000).is_empty(), "no position yet");
    state.pointer(Some(DesktopPoint { x: 1, y: 2 }), BUTTON_LEFT);
    assert_eq!(
        pointers(&state.scroll(0, 80_000)),
        vec![(1, 2, 9), (1, 2, 1), (1, 2, 9), (1, 2, 1)],
        "two notches up keep the held button"
    );
    for _ in 0..3 {
        assert!(
            state.scroll(-10_000, 0).is_empty(),
            "small trackpad deltas accumulate"
        );
    }
    assert_eq!(
        pointers(&state.scroll(-10_000, 0)),
        vec![(1, 2, 65), (1, 2, 1)],
        "four 10-point deltas make one notch, not four"
    );
    assert_eq!(
        state.scroll(0, -100_000_000).len(),
        2 * MAX_SCROLL_NOTCHES_PER_FRAME as usize
    );
    assert!(
        state.scroll(0, 0).is_empty(),
        "the excess beyond the cap is dropped"
    );
    assert!(state.scroll(0, 20_000).is_empty());
    state.release_all();
    assert!(
        state.scroll(0, 20_000).is_empty(),
        "a partial gesture does not carry across the end of capture"
    );
}

#[test]
fn modifiers_are_diffed_and_released_with_everything_else() {
    let mut state = InputState::new();
    assert_eq!(
        keysyms(&state.modifiers(CTRL_SHIFT)),
        vec![(XK_SHIFT_L, true), (XK_CONTROL_L, true)]
    );
    assert!(state.modifiers(CTRL_SHIFT).is_empty());
    assert_eq!(keysyms(&state.modifiers(CTRL)), vec![(XK_SHIFT_L, false)]);
    let c = egui::Key::C.name();
    assert_eq!(
        keysyms(&state.key(c, true, CTRL)),
        vec![(u32::from('c'), true)]
    );
    assert_eq!(
        keysyms(&state.key(c, false, NONE)),
        vec![(u32::from('c'), false)],
        "the release is sent even after Ctrl went up first"
    );
    assert!(state.key(c, false, NONE).is_empty(), "and only once");
    assert_eq!(
        keysyms(&state.key(c, true, CTRL)),
        vec![(u32::from('c'), true)]
    );
    state.pointer(Some(DesktopPoint { x: 3, y: 4 }), BUTTON_LEFT);
    let released = state.release_all();
    assert_eq!(
        keysyms(&released),
        vec![(u32::from('c'), false), (XK_CONTROL_L, false)],
        "held keys go up before the modifiers"
    );
    assert_eq!(pointers(&released), vec![(3, 4, 0)]);
    assert!(state.release_all().is_empty());
}

#[test]
fn printable_keys_are_left_to_text_unless_ctrl_or_command_is_held() {
    let mut state = InputState::new();
    let a = egui::Key::A.name();
    let enter = egui::Key::Enter.name();
    assert!(state.key(a, true, NONE).is_empty());
    assert!(
        state.key(a, true, SHIFT).is_empty(),
        "text carries the shifted character"
    );
    assert!(
        state.key(a, true, ALT).is_empty(),
        "Alt still produces text on X11"
    );
    assert_eq!(
        keysyms(&state.key(a, true, MAC_CMD)),
        vec![(u32::from('a'), true)]
    );
    assert_eq!(
        keysyms(&state.key(enter, true, NONE)),
        vec![(XK_RETURN, true)]
    );
    assert_eq!(
        keysyms(&state.key(enter, false, NONE)),
        vec![(XK_RETURN, false)]
    );
    assert!(
        state
            .key(egui::Key::ShiftLeft.name(), true, SHIFT)
            .is_empty(),
        "modifiers come from the diff"
    );
    assert!(state.key(egui::Key::Copy.name(), true, NONE).is_empty());
    assert_eq!(
        keysyms(&InputState::text("aÉ€\n")),
        vec![
            (u32::from('a'), true),
            (u32::from('a'), false),
            (0xc9, true),
            (0xc9, false),
            (UNICODE_KEYSYM_BASE | 0x20ac, true),
            (UNICODE_KEYSYM_BASE | 0x20ac, false),
        ],
        "Latin-1 is direct, other scripts use the Unicode keysym range, controls are dropped"
    );
}

#[test]
fn key_names_resolve_to_the_expected_keysyms() {
    let keysym = |key: egui::Key| keysym_for_key(key.name());
    assert_eq!(keysym(egui::Key::F1), Some(XK_F1));
    assert_eq!(keysym(egui::Key::F12), Some(XK_F1 + 11));
    assert_eq!(keysym(egui::Key::F35), Some(XK_F1 + 34));
    assert_eq!(keysym(egui::Key::Num7), Some(u32::from('7')));
    assert_eq!(keysym(egui::Key::Z), Some(u32::from('z')));
    assert_eq!(keysym(egui::Key::Colon), Some(u32::from(':')));
    assert_eq!(
        keysym(egui::Key::Minus),
        Some(u32::from('-')),
        "not the typographic minus"
    );
    assert_eq!(keysym(egui::Key::Quote), Some(u32::from('\'')));
    assert_eq!(keysym(egui::Key::Space), Some(u32::from(' ')));
    assert_eq!(keysym(egui::Key::Backtick), Some(u32::from('`')));
    assert_eq!(keysym(egui::Key::Delete), Some(XK_DELETE));
    assert_eq!(keysym(egui::Key::BrowserBack), None);
    assert_eq!(keysym(egui::Key::IntlBackslash), None);
}

// Interaction with the image.

/// The image of a desktop of 160 by 80 pixels on the screen.
const IMAGE: ScreenRect = ScreenRect {
    min_x: 100_000,
    min_y: 100_000,
    max_x: 900_000,
    max_y: 500_000,
};
const MIDDLE: Pos = Pos {
    x: 500_000,
    y: 300_000,
};
const OUTSIDE: Pos = Pos {
    x: 1_196_000,
    y: 796_000,
};

fn place(pos: Pos) -> Place {
    let desktop = DesktopCrop {
        x: 0,
        y: 0,
        width: 160,
        height: 80,
    };
    Place {
        point: desktop_point(IMAGE, desktop, pos),
        at: pos,
        on_top: true,
    }
}

fn quiet(focused: bool) -> CaptureFrame {
    CaptureFrame {
        pointer: Vec::new(),
        start: None,
        latest: None,
        owns_pointer: true,
        focused,
        keys: Vec::new(),
        modifiers: NONE,
    }
}

fn click(pos: Pos, pressed: bool, focused: bool) -> CaptureFrame {
    CaptureFrame {
        pointer: vec![
            PointerInput::Moved(place(pos)),
            PointerInput::Button {
                place: place(pos),
                button: PointerButton::Primary,
                pressed,
            },
        ],
        start: Some(place(pos)),
        ..quiet(focused)
    }
}

fn typed(keys: Vec<KeyInput>) -> CaptureFrame {
    CaptureFrame {
        keys,
        ..quiet(true)
    }
}

fn key(key: egui::Key, pressed: bool, modifiers: Modifiers) -> KeyInput {
    KeyInput::Key {
        name: key.name().to_owned(),
        pressed,
        modifiers,
    }
}

fn run(capture: &mut Capture, frame: &CaptureFrame) -> Vec<InputEvent> {
    capture.frame(true, true, true, frame)
}

fn interacting() -> Capture {
    let mut capture = Capture::new();
    assert!(capture.interact_toggle(true).is_empty());
    capture
}

#[test]
fn read_only_by_default_sends_nothing_and_interact_forwards_pointer_and_keys() {
    let mut capture = Capture::new();
    assert!(run(&mut capture, &click(MIDDLE, true, false)).is_empty());
    assert!(run(&mut capture, &click(MIDDLE, false, true)).is_empty());
    assert!(
        run(&mut capture, &typed(vec![KeyInput::Text("a".into())])).is_empty(),
        "read-only viewers never send input"
    );
    assert!(!capture.captured);

    capture.interact_toggle(true);
    assert!(capture.interact);
    let sent = run(
        &mut capture,
        &CaptureFrame {
            pointer: vec![PointerInput::Moved(place(MIDDLE))],
            ..quiet(false)
        },
    );
    assert_eq!(
        pointers(&sent),
        vec![(80, 40, 0)],
        "the image centre is the desktop centre"
    );
    assert!(keysyms(&sent).is_empty());

    let corner = at(IMAGE.min_x + 1_000, IMAGE.min_y + 1_000);
    let pressed = run(&mut capture, &click(corner, true, true));
    assert_eq!(
        pointers(&pressed).last(),
        Some(&(0, 0, 1)),
        "press at the top-left desktop pixel"
    );
    let released = run(&mut capture, &click(corner, false, true));
    assert_eq!(pointers(&released).last(), Some(&(0, 0, 0)));
    assert!(capture.captured, "the click focused the image");

    let sent = run(
        &mut capture,
        &typed(vec![
            key(egui::Key::A, true, NONE),
            KeyInput::Text("a".into()),
            key(egui::Key::A, false, NONE),
        ]),
    );
    assert_eq!(
        keysyms(&sent),
        vec![(u32::from('a'), true), (u32::from('a'), false)],
        "a printable key is sent once, from its text"
    );
    let sent = run(&mut capture, &typed(vec![key(egui::Key::Enter, true, NONE)]));
    assert_eq!(keysyms(&sent), vec![(0xff0d, true)]);

    // Turning Interact off releases what the desktop still thinks is held.
    let released = keysyms(&capture.interact_toggle(false));
    assert!(!capture.interact);
    assert!(released.contains(&(0xff0d, false)), "{released:?}");
    assert!(!capture.captured);
    assert!(run(&mut capture, &typed(vec![KeyInput::Text("b".into())])).is_empty());
}

#[test]
fn modifiers_and_wheel_reach_the_desktop_and_escape_drops_capture() {
    let mut capture = interacting();
    run(&mut capture, &click(MIDDLE, true, true));
    run(&mut capture, &click(MIDDLE, false, true));
    let wheel = pointers(&run(
        &mut capture,
        &CaptureFrame {
            pointer: vec![
                PointerInput::Moved(place(MIDDLE)),
                PointerInput::Wheel {
                    unit: WheelUnit::Point,
                    dx: 0,
                    dy: -50_000,
                },
            ],
            start: Some(place(MIDDLE)),
            ..quiet(true)
        },
    ));
    assert!(wheel.contains(&(80, 40, 16)), "scroll down is button 5: {wheel:?}");
    assert_eq!(wheel.last(), Some(&(80, 40, 0)));

    let chord = keysyms(&run(
        &mut capture,
        &typed(vec![key(egui::Key::C, true, CTRL)]),
    ));
    assert_eq!(
        &chord[..2],
        [(0xffe3, true), (u32::from('c'), true)],
        "Control_L goes down before c: {chord:?}"
    );

    let after = keysyms(&run(
        &mut capture,
        &typed(vec![
            key(egui::Key::C, false, NONE),
            key(egui::Key::Escape, true, NONE),
        ]),
    ));
    // These frames carry no modifier state, so Control_L goes up at the end of
    // the chord's own frame; either way it must be released before `c` is.
    let control_up = chord
        .iter()
        .chain(&after)
        .position(|event| *event == (0xffe3, false))
        .expect("Control_L released");
    let c_up = chord
        .iter()
        .chain(&after)
        .position(|event| *event == (u32::from('c'), false))
        .expect("c released");
    assert!(control_up < c_up, "{chord:?} then {after:?}");
    assert!(
        after.contains(&(u32::from('c'), false)),
        "c released after Ctrl: {after:?}"
    );
    assert!(
        after.contains(&(0xff1b, true)),
        "Escape goes to the desktop: {after:?}"
    );
    assert!(capture.captured, "Escape does not give the keyboard back");

    // Clicking outside the image does, and releases whatever is still down.
    run(&mut capture, &typed(vec![key(egui::Key::Enter, true, NONE)]));
    let mut released = keysyms(&run(&mut capture, &click(OUTSIDE, true, false)));
    released.extend(keysyms(&run(&mut capture, &click(OUTSIDE, false, false))));
    assert!(
        released.contains(&(0xff0d, false)),
        "Enter released on focus loss: {released:?}"
    );
    assert!(!capture.captured);
    let sent = run(
        &mut capture,
        &CaptureFrame {
            keys: vec![KeyInput::Text("z".into())],
            ..quiet(false)
        },
    );
    assert!(sent.is_empty(), "no capture, no keys");
}

#[test]
fn pointer_positions_are_mapped_through_the_panel_layer_transform() {
    // The canvas draws this panel scaled by half and shifted, as a zoomed-out
    // workspace does; global pointer positions must be mapped back.
    let view = CanvasView {
        pan: Point {
            x: 300_000,
            y: 200_000,
        },
        zoom: 500_000,
    };
    let nowhere = Point { x: 0, y: 0 };
    let center = Point {
        x: i64::from(MIDDLE.x),
        y: i64::from(MIDDLE.y),
    };
    let global_center = canvas_to_screen(view, nowhere, center);
    assert_ne!(global_center, center);
    let local = screen_to_canvas(view, nowhere, global_center);
    let local = at(local.x as i32, local.y as i32);
    let mut capture = interacting();
    let mut sent = run(
        &mut capture,
        &CaptureFrame {
            pointer: vec![PointerInput::Moved(place(local))],
            ..quiet(false)
        },
    );
    sent.extend(run(&mut capture, &click(local, true, true)));
    sent.extend(run(&mut capture, &click(local, false, true)));
    let sent = pointers(&sent);
    assert!(
        sent.contains(&(80, 40, 1)) && sent.last() == Some(&(80, 40, 0)),
        "the desktop centre is pressed and released through the transform: {sent:?}"
    );
}

#[test]
fn a_drag_that_leaves_the_window_or_a_hidden_viewer_releases_what_is_held() {
    let mut capture = interacting();
    run(&mut capture, &click(MIDDLE, true, true));
    let gone = run(
        &mut capture,
        &CaptureFrame {
            pointer: vec![PointerInput::Gone],
            start: Some(place(MIDDLE)),
            ..quiet(true)
        },
    );
    assert_eq!(
        pointers(&gone),
        vec![(80, 40, 0)],
        "the button goes up where the desktop last saw the pointer"
    );

    run(&mut capture, &click(MIDDLE, true, true));
    run(&mut capture, &click(MIDDLE, false, true));
    run(&mut capture, &typed(vec![key(egui::Key::Enter, true, NONE)]));
    // A frame in which the panel is not drawn at all.
    let mut viewer = Viewer::new();
    let mut session = Some(Updates::<()>::start(1, defaults()));
    viewer.begin_frame();
    let released = keysyms(&viewer.finish_frame(&mut capture, &mut session));
    assert!(released.contains(&(0xff0d, false)));
    assert!(!capture.captured);
    assert!(!session.unwrap().visible);
}

#[test]
fn a_frame_starts_where_the_pointer_was_last() {
    let mut capture = interacting();
    assert_eq!(capture.pointer, None);
    assert_eq!(capture.start_at(Some(MIDDLE)), Some(MIDDLE));

    // The events of a frame move the pointer.
    run(&mut capture, &click(MIDDLE, true, true));
    assert_eq!(capture.pointer, Some(MIDDLE));
    assert_eq!(capture.start_at(Some(OUTSIDE)), Some(MIDDLE));

    // Where it is known to be now counts more.
    let known = CaptureFrame {
        pointer: vec![PointerInput::Moved(place(MIDDLE))],
        start: Some(place(MIDDLE)),
        latest: Some(OUTSIDE),
        ..quiet(true)
    };
    run(&mut capture, &known);
    assert_eq!(capture.pointer, Some(OUTSIDE));

    // A pointer that leaves the window is nowhere.
    let gone = CaptureFrame {
        pointer: vec![PointerInput::Gone],
        start: Some(place(MIDDLE)),
        ..quiet(true)
    };
    run(&mut capture, &gone);
    assert_eq!(capture.pointer, None);
    assert_eq!(capture.start_at(None), None);
}

#[test]
fn letting_go_of_the_desktop_forgets_the_pointer() {
    let mut capture = interacting();
    run(&mut capture, &click(MIDDLE, true, true));
    assert_eq!(capture.pointer, Some(MIDDLE));
    capture.interact_toggle(false);
    assert_eq!(capture.pointer, None);

    capture.interact_toggle(true);
    run(&mut capture, &click(MIDDLE, true, true));
    capture.release_input();
    assert_eq!(capture.pointer, None);
    assert_eq!(capture.start_at(Some(OUTSIDE)), Some(OUTSIDE));

    // A frame in which nothing may be sent forgets it too.
    run(&mut capture, &click(MIDDLE, true, true));
    capture.frame(false, true, true, &quiet(true));
    assert_eq!(capture.pointer, None);
}

#[test]
fn a_drawn_viewer_keeps_what_it_holds() {
    let mut capture = interacting();
    run(&mut capture, &typed(vec![key(egui::Key::Enter, true, NONE)]));
    let mut viewer = Viewer::new();
    let mut session = Some(Updates::<()>::start(1, defaults()));
    viewer.begin_frame();
    assert!(!viewer.begin_show(false));
    assert!(viewer.finish_frame(&mut capture, &mut session).is_empty());
    assert!(capture.captured);
    assert!(session.unwrap().visible);
}

// The connection.

fn defaults() -> DeviceViewOptions {
    DeviceViewOptions {
        max_fps: 10,
        max_width: 2048,
        max_height: 2048,
        viewport: None,
    }
}

/// A worker on a desktop of 2 by 2 pixels, fed with the server's messages.
struct Worker {
    stream: ViewerStream,
    updates: Updates<((usize, usize), Vec<u8>)>,
}

/// One rectangle of a framebuffer update.
fn decode(message: &[u8]) -> FrameEvent {
    assert_eq!(&message[..4], [0, 0, 0, 1], "one rectangle");
    let short = |i: usize| u16::from_be_bytes([message[i], message[i + 1]]);
    let (width, height) = (short(8), short(10));
    match i32::from_be_bytes([message[12], message[13], message[14], message[15]]) {
        0 => FrameEvent::RawImage(
            rect(short(4), short(6), width, height),
            message[16..].to_vec(),
        ),
        -223 => FrameEvent::SetResolution { width, height },
        -308 => FrameEvent::DesktopUpdate {
            size: Some((width, height)),
        },
        other => panic!("unexpected encoding {other}"),
    }
}

impl Worker {
    fn connected() -> Self {
        let mut worker = Worker {
            stream: ViewerStream::new(),
            updates: Updates::start(1, defaults()),
        };
        must(worker.stream.apply_frame_event(FrameEvent::SetResolution {
            width: 2,
            height: 2,
        }));
        worker.updates.publish_handshake(None, worker.stream.framebuffer.size());
        worker.updates.publish_status(Status::Connected);
        worker
    }

    /// One pass over what the server sent; the result is the request, as it
    /// goes over the wire.
    fn pass(&mut self, messages: &[&[u8]]) -> Option<[u8; 10]> {
        if self.stream.begin_pass(self.updates.visible) == PassStart::Paused {
            return None;
        }
        for message in messages {
            assert!(self.stream.drains_more(0));
            if let Some(size) = must(self.stream.take_event(decode(message))) {
                self.updates.publish_size(size);
            }
        }
        assert_eq!(self.stream.queue_empty(), QueueEmpty::Yield);
        assert_eq!(self.stream.queue_empty(), QueueEmpty::Done);
        let end = self.stream.end_pass();
        let size = self.stream.framebuffer.size();
        if end.publish {
            let options = self.updates.options;
            let pixels = self.stream.framebuffer.rgba.clone();
            self.updates.publish_frame((size, pixels), options, size, 5);
        }
        let incremental = match end.request {
            RefreshRequest::Incremental => 1,
            RefreshRequest::Full => 0,
        };
        let [w1, w2] = (size.0 as u16).to_be_bytes();
        let [h1, h2] = (size.1 as u16).to_be_bytes();
        Some([3, incremental, 0, 0, 0, 0, w1, w2, h1, h2])
    }

    fn shows_green_pixel(&mut self, size: (usize, usize)) -> bool {
        match self.updates.take_updates(1).image {
            Some((of, pixels)) => of == size && pixels[..4] == [20, 180, 40, 255],
            None => false,
        }
    }
}

const PIXEL: [u8; 20] = [
    0, 0, 0, 1, 0, 0, 0, 0, 0, 1, 0, 1, 0, 0, 0, 0, 20, 180, 40, 0,
];

fn extended_size(width: u16, height: u16) -> Vec<u8> {
    let mut packet = vec![0, 0, 0, 1, 0, 0, 0, 0];
    packet.extend(width.to_be_bytes());
    packet.extend(height.to_be_bytes());
    packet.extend((-308_i32).to_be_bytes());
    packet.extend([1, 0, 0, 0]);
    packet.extend(1_u32.to_be_bytes());
    packet.extend([0; 4]);
    packet.extend(width.to_be_bytes());
    packet.extend(height.to_be_bytes());
    packet.extend([0; 4]);
    packet
}

#[test]
fn resized_desktop_requests_all_pixels_before_incremental_updates() {
    let mut worker = Worker::connected();
    worker.pass(&[&PIXEL]);
    assert!(worker.shows_green_pixel((2, 2)));
    // DesktopSize changes to 1x1 without resending the unchanged pixel. An
    // incremental request alone would leave the newly allocated image blank.
    let resize: &[u8] = &[0, 0, 0, 1, 0, 0, 0, 0, 0, 1, 0, 1, 255, 255, 255, 33];
    assert_eq!(worker.pass(&[resize]), Some([3, 0, 0, 0, 0, 0, 0, 1, 0, 1]));
    assert!(!worker.shows_green_pixel((1, 1)));
    assert_eq!(worker.pass(&[&PIXEL]), Some([3, 1, 0, 0, 0, 0, 0, 1, 0, 1]));
    assert!(worker.shows_green_pixel((1, 1)));
    assert_eq!(worker.pass(&[]), Some([3, 1, 0, 0, 0, 0, 0, 1, 0, 1]));
}

#[test]
fn extended_layout_announcements_do_not_start_full_refresh_loops() {
    let mut worker = Worker::connected();
    worker.pass(&[&PIXEL]);
    assert!(worker.shows_green_pixel((2, 2)));
    assert_eq!(worker.pass(&[]), Some([3, 1, 0, 0, 0, 0, 0, 2, 0, 2]));
    for _ in 0..4 {
        let request = worker.pass(&[&extended_size(2, 2)]);
        assert_eq!(request, Some([3, 1, 0, 0, 0, 0, 0, 2, 0, 2]));
    }
    // Extended resize invalidates pixels; the server supplies the new contents
    // in response to the next incremental request, without a full-refresh loop.
    let request = worker.pass(&[&extended_size(3, 2)]);
    assert_eq!(request, Some([3, 1, 0, 0, 0, 0, 0, 3, 0, 2]));
    assert!(!worker.shows_green_pixel((3, 2)));
    worker.pass(&[&PIXEL]);
    assert!(worker.shows_green_pixel((3, 2)));
}

#[test]
fn hidden_viewer_pauses_requests_and_resumes_with_a_complete_frame() {
    let mut worker = Worker::connected();
    worker.pass(&[&PIXEL]);
    assert!(worker.shows_green_pixel((2, 2)));
    worker.updates.set_visible(false);
    assert_eq!(worker.pass(&[]), None);
    assert_eq!(worker.pass(&[&PIXEL]), None, "hidden viewer requested a frame");
    assert!(worker.updates.take_updates(1).image.is_none());
    worker.updates.set_visible(true);
    assert_eq!(worker.pass(&[]), Some([3, 0, 0, 0, 0, 0, 0, 2, 0, 2]));
    worker.pass(&[&PIXEL]);
    assert!(worker.shows_green_pixel((2, 2)));
}

#[test]
fn shrink_with_an_outside_crop_preserves_the_session() {
    let mut worker = Worker::connected();
    worker.pass(&[&PIXEL]);
    assert!(worker.shows_green_pixel((2, 2)));
    worker.updates.set_options(DeviceViewOptions {
        viewport: Some(DeviceViewport {
            x: 1,
            y: 1,
            width: 1,
            height: 1,
        }),
        ..defaults()
    });
    let request = worker.pass(&[&extended_size(1, 1)]);
    assert_eq!(request, Some([3, 1, 0, 0, 0, 0, 0, 1, 0, 1]));
    assert_eq!(worker.pass(&[&PIXEL]), Some([3, 1, 0, 0, 0, 0, 0, 1, 0, 1]));
    assert!(worker.shows_green_pixel((1, 1)));
}

#[test]
fn decoded_frame_evidence_survives_observation_without_consuming_pixels() {
    let mut worker = Worker::connected();
    worker.pass(&[&PIXEL]);
    let (before, paused) = worker.updates.stream_evidence();
    assert_eq!(before.sequence, 1);
    assert!(!paused);
    assert!(before.last_frame_ms.is_some());
    assert!(matches!(
        worker.updates.observation(),
        (Some(Status::Connected), 1)
    ));
    assert!(worker.updates.take_updates(1).image.is_some());
    assert_eq!(worker.updates.stream_evidence().0.sequence, before.sequence);
    worker.updates.set_visible(false);
    assert!(
        worker.updates.stream_evidence().1,
        "offscreen sampling is explicitly paused"
    );
}

#[test]
fn resize_before_disconnect_retains_the_last_observed_desktop_size() {
    for extended in [false, true] {
        let mut worker = Worker::connected();
        worker.updates.set_visible(false);
        let resize = if extended {
            extended_size(3, 2)
        } else {
            vec![0, 0, 0, 1, 0, 0, 0, 0, 0, 3, 0, 2, 255, 255, 255, 33]
        };
        assert_eq!(worker.pass(&[]), None);
        worker.updates.set_visible(true);
        worker.pass(&[&resize]);
        let ended = Status::ended(Err(ViewError::Io("connection closed".into())));
        worker.updates.publish_status(ended);
        assert_eq!(worker.updates.take_server_details().1, Some((3, 2)));
        assert!(worker.updates.take_updates(1).image.is_none());
    }
}

#[test]
fn extended_resize_waits_for_pixels_but_same_size_announcement_preserves_them() {
    let mut stream = ViewerStream::new();
    for width in [2, 2, 4] {
        let previous_size = stream.framebuffer.size();
        let changed = must(stream.apply_frame_event(FrameEvent::DesktopUpdate {
            size: Some((width, 1)),
        }));
        let resized = previous_size != stream.framebuffer.size();
        assert_eq!(changed, resized);
        assert_eq!(
            stream.received_pixels, !resized,
            "a resized blank buffer is not received pixels"
        );
        must(stream.apply_frame_event(FrameEvent::RawImage(
            rect(0, 0, width, 1),
            vec![255; usize::from(width) * 4],
        )));
        assert!(stream.received_pixels, "new pixels resume image publication");
    }
}

#[test]
fn only_the_newest_picture_is_kept() {
    let mut updates = Updates::<u8>::start(4, defaults());
    assert_eq!(updates.publish_frame(1, defaults(), (2, 2), 10), Some(4));
    updates.set_visible(false);
    assert_eq!(updates.publish_frame(2, defaults(), (2, 2), 20), None);
    let taken = updates.take_updates(4);
    assert_eq!(taken.image, Some(2));
    assert_eq!(taken.received_frame_sequence, 2);
    assert!(updates.take_updates(4).image.is_none());
}

#[test]
fn a_pass_is_bounded() {
    let mut stream = ViewerStream::new();
    assert_eq!(stream.begin_pass(true), PassStart::Drain);
    assert!(stream.drains_more(9));
    assert!(!stream.drains_more(10));
    for _ in 0..4096 {
        assert!(stream.drains_more(0));
        must(stream.take_event(FrameEvent::Aside));
    }
    assert!(!stream.drains_more(0));
}

// The tunnel.

fn tail(lines: &[&str]) -> StderrTail {
    let mut tail = StderrTail::new();
    for line in lines {
        tail.push_line(line);
    }
    tail
}

#[test]
fn a_failed_tunnel_reports_the_cause_and_summary_lines() {
    let error = tail(&[
        "ignored",
        "",
        "channel 0: open failed: connect failed: Connection refused",
        "stdio forwarding failed",
    ])
    .explain(ViewError::Frame("early end of stream"));
    assert_eq!(
        error.message(),
        "early end of stream; ssh: channel 0: open failed: connect failed: Connection refused; \
         stdio forwarding failed"
    );
}

#[test]
fn ssh_prefixed_diagnostics_are_not_prefixed_twice() {
    let error = tail(&[
        "ssh: Could not resolve hostname nowhere.invalid: Name or service not known",
    ])
    .explain(ViewError::Timeout);
    assert_eq!(
        error.message(),
        "connection timed out; ssh: Could not resolve hostname nowhere.invalid: Name or service not known"
    );
}

#[test]
fn an_unknown_host_key_explains_how_to_trust_it_but_a_changed_key_does_not() {
    let text = tail(&[
        "No ED25519 host key is known for [lab]:22 and you have requested strict checking.",
        "Host key verification failed.",
    ])
    .explain(ViewError::Frame("early end of stream"))
    .message();
    assert!(
        text.starts_with("early end of stream; ssh: No ED25519 host key is known"),
        "{text}"
    );
    assert!(text.contains("open the host over SSH once"), "{text}");

    let text = tail(&[
        "WARNING: REMOTE HOST IDENTIFICATION HAS CHANGED!",
        "Host key verification failed.",
    ])
    .explain(ViewError::Frame("early end of stream"))
    .message();
    assert!(text.contains("Host key verification failed."), "{text}");
    assert!(
        !text.contains("open the host over SSH once"),
        "a changed key must not invite a bypass: {text}"
    );
}

#[test]
fn a_silent_failure_keeps_the_original_error() {
    let error = tail(&[]).explain(ViewError::Timeout);
    assert!(matches!(error, ViewError::Timeout));
}

#[test]
fn a_child_is_awaited_for_two_seconds() {
    assert!(matches!(reap_step(true, 0), Reaping::Done));
    assert!(matches!(reap_step(false, 1_999), Reaping::Wait));
    assert!(matches!(reap_step(false, 2_000), Reaping::GiveUp));
}

// The view's controls.

fn unedited(options: DeviceViewOptions) -> ControlsEdit {
    ControlsEdit {
        max_fps: options.max_fps,
        max_width: options.max_width,
        max_height: options.max_height,
        whole_clicked: false,
        draft: None,
        apply_clicked: false,
        layout: Ok(()),
    }
}

#[test]
fn shrink_clears_an_outside_crop_and_its_draft() {
    let viewport = DeviceViewport {
        x: 1800,
        y: 900,
        width: 100,
        height: 100,
    };
    let mut controls = Controls::new(DeviceViewOptions {
        viewport: Some(viewport),
        ..defaults()
    });
    controls.draft = Some(viewport);
    assert!(controls.show(&ControlsFrame {
        desktop: Some((1280, 720)),
        fitted: defaults(),
        edit: None,
    }));
    assert!(controls.options.viewport.is_none());
    assert!(controls.draft.is_none());
}

#[test]
fn an_active_viewport_can_be_cleared_without_desktop_geometry() {
    let options = DeviceViewOptions {
        viewport: Some(DeviceViewport {
            x: 90,
            y: 70,
            width: 10,
            height: 10,
        }),
        ..defaults()
    };
    let mut controls = Controls::new(options);
    controls.set_error("desktop shrank".into());
    assert!(controls.show(&ControlsFrame {
        desktop: None,
        fitted: options,
        edit: Some(ControlsEdit {
            whole_clicked: true,
            ..unedited(options)
        }),
    }));
    assert!(controls.options.viewport.is_none());
    assert!(controls.error.is_none());
}

#[test]
fn desktop_shrink_lets_controls_clear_the_stale_viewport_draft() {
    let crop = DeviceViewport {
        x: 4,
        y: 0,
        width: 4,
        height: 4,
    };
    let mut controls = Controls::new(DeviceViewOptions {
        viewport: Some(crop),
        ..defaults()
    });
    controls.draft = Some(crop);
    controls.show(&ControlsFrame {
        desktop: Some((4, 2)),
        fitted: defaults(),
        edit: Some(unedited(defaults())),
    });
    assert!(controls.options.viewport.is_none());
    assert_eq!(
        controls.draft.map(|draft| [draft.width, draft.height]),
        Some([4, 2])
    );
}

#[test]
fn a_refused_viewport_is_explained_and_not_applied() {
    let mut controls = Controls::new(defaults());
    let draft = DeviceViewport {
        x: 7,
        y: 0,
        width: 4,
        height: 2,
    };
    let changed = controls.show(&ControlsFrame {
        desktop: Some((8, 4)),
        fitted: defaults(),
        edit: Some(ControlsEdit {
            draft: Some(draft),
            apply_clicked: true,
            layout: Err("outside the desktop".into()),
            ..unedited(defaults())
        }),
    });
    assert!(!changed);
    assert_eq!(controls.error.as_deref(), Some("outside the desktop"));
    assert_eq!(controls.draft, Some(draft));
    assert!(controls.options.viewport.is_none());
}

#[test]
fn sizes_are_named_in_pixels() {
    assert_eq!(sizes_label((1920, 1080), (960, 540)), "Desktop 1920×1080 · Image 960×540");
}

// The viewer.

const LIMIT: usize = 2048;

fn disconnected_viewer() -> Viewer {
    let mut viewer = Viewer::new();
    viewer.initialized = true;
    viewer.status =
        Status::Disconnected("The VNC client isn't started. Or it is already closed".into());
    // A desktop of 8 by 4 pixels is kept and shown.
    viewer.desktop = Some((8, 4));
    viewer.source = Some((8, 4));
    assert!(viewer.needs_presentation(defaults()));
    assert!(viewer.refresh_presentation(defaults(), Some((8, 4)), LIMIT, None));
    viewer.record_received_frame(10);
    viewer
}

#[test]
fn narrow_frame_exceeding_gpu_limit_is_rejected_before_texture_upload() {
    let mut viewer = Viewer::new();
    let options = DeviceViewOptions {
        max_width: 8192,
        max_height: 8192,
        ..defaults()
    };
    viewer.source = Some((2049, 1));
    assert!(!viewer.refresh_presentation(options, Some((2049, 1)), 2048, None));
    assert!(!viewer.has_texture);
    assert!(matches!(viewer.status, Status::Disconnected(_)));
    assert_eq!(
        viewer.image.sequence, 0,
        "rejected images are not uploaded frames"
    );
}

#[test]
fn fps_only_change_does_not_resample_the_retained_desktop() {
    let mut viewer = disconnected_viewer();
    let presented = viewer.presented;
    assert!(presented.is_some());
    let slower = DeviceViewOptions {
        max_fps: 1,
        ..defaults()
    };
    assert!(!viewer.apply_view_options(defaults(), slower, None));
    assert_eq!(viewer.presented, presented);
    assert!(!viewer.needs_presentation(slower));
    assert_eq!(viewer.presented, presented);
    assert_eq!(viewer.image.sequence, 1);
}

#[test]
fn image_limits_and_viewport_apply_without_a_live_session() {
    let mut viewer = disconnected_viewer();
    assert_eq!(viewer.zoom.presented, Some((8, 4)));
    assert_eq!(viewer.image.sequence, 1);
    let small = DeviceViewOptions {
        max_width: 4,
        max_height: 4,
        ..defaults()
    };
    assert!(viewer.apply_view_options(defaults(), small, None));
    assert!(viewer.needs_presentation(small));
    assert!(viewer.refresh_presentation(small, Some((4, 2)), LIMIT, None));
    assert_eq!(viewer.presented, Some(small));
    assert_eq!(viewer.zoom.presented, Some((4, 2)));
    assert_eq!(
        viewer.image.sequence, 1,
        "local presentation is not a new received frame"
    );
    let cropped = DeviceViewOptions {
        viewport: Some(DeviceViewport {
            x: 4,
            y: 0,
            width: 4,
            height: 4,
        }),
        ..defaults()
    };
    assert!(viewer.apply_view_options(small, cropped, None));
    assert!(viewer.needs_presentation(cropped));
    assert!(viewer.refresh_presentation(cropped, Some((4, 4)), LIMIT, None));
    assert_eq!(viewer.presented, Some(cropped));
    assert_eq!(viewer.zoom.presented, Some((4, 4)));
    assert_eq!(viewer.image.sequence, 1);
}

fn report(viewer: &Viewer, visible: bool) -> horizon_ui::device::viewer::PanelReport {
    viewer.observation(None, None, visible, "agent", 100, 1_000)
}

#[test]
fn apply_viewport_and_reconnect_keep_the_last_desktop() {
    let mut viewer = disconnected_viewer();
    let mut controls = Controls::new(defaults());
    let draft = DeviceViewport {
        x: 0,
        y: 0,
        width: 2,
        height: 2,
    };
    assert!(controls.show(&ControlsFrame {
        desktop: Some((8, 4)),
        fitted: defaults(),
        edit: Some(ControlsEdit {
            draft: Some(draft),
            apply_clicked: true,
            ..unedited(defaults())
        }),
    }));
    assert_eq!(
        controls
            .options
            .viewport
            .map(|viewport| [viewport.width, viewport.height]),
        Some([2, 2])
    );
    assert!(viewer.apply_view_options(defaults(), controls.options, None));
    assert!(viewer.refresh_presentation(controls.options, Some((2, 2)), LIMIT, None));
    viewer.reconnect(None, Ok(()));
    assert!(matches!(viewer.status, Status::Connecting));
    assert!(viewer.has_texture);
    assert_eq!(viewer.source, Some((8, 4)));
    assert_eq!(viewer.image.sequence, 0);
    assert!(!viewer.image.received);
    let evidence = report(&viewer, true);
    assert!(!evidence.image_received);
    assert!(!evidence.image_displayed);
    assert_eq!(evidence.frame_sequence, 0);
}

#[test]
fn reconnect_does_not_report_a_retained_texture_as_live_evidence() {
    let mut viewer = disconnected_viewer();
    assert!(viewer.image.received);
    assert_eq!(viewer.image.sequence, 1);
    viewer.reconnect(None, Ok(()));
    viewer.status = Status::Connected;
    viewer.begin_frame();
    viewer.begin_show(false);
    viewer.image_drawn(true, 20);
    assert!(viewer.has_texture);
    assert!(!viewer.image.displayed);
    viewer.begin_frame();
    let evidence = report(&viewer, true);
    assert!(!evidence.image_received);
    assert!(!evidence.image_displayed);
    assert_eq!(evidence.frame_sequence, 0);
}

#[test]
fn a_failed_reconnect_says_why() {
    let mut viewer = Viewer::new();
    viewer.reconnect(None, Err("no route".into()));
    assert!(matches!(&viewer.status, Status::Disconnected(error) if error == "no route"));
    let evidence = report(&viewer, true);
    assert_eq!(evidence.connection, Connection::Disconnected);
    assert_eq!(evidence.connection_error.as_deref(), Some("no route"));
    assert_eq!(evidence.connection_generation, 1);
}

#[test]
fn discarded_stale_worker_frame_represents_the_latest_desktop() {
    let mut viewer = disconnected_viewer();
    assert_eq!(viewer.image.sequence, 1);
    let stale = DeviceViewOptions {
        viewport: Some(DeviceViewport {
            x: 0,
            y: 0,
            width: 2,
            height: 2,
        }),
        ..defaults()
    };
    let mut updates = Updates::start(1, stale);
    updates.publish_status(Status::Connected);
    updates.publish_frame("queued", stale, (8, 4), 20);
    viewer.has_session = true;
    viewer.take_incoming(&mut updates, None);
    let plan = viewer.plan_image(Some(stale), defaults(), Some((8, 4)));
    assert_eq!(plan, ImagePlan::Represent);
    viewer.apply_worker_image(
        plan,
        Some((8, 4)),
        LIMIT,
        Some(stale),
        defaults(),
        Some((8, 4)),
        30,
    );
    assert_eq!(viewer.source, Some((8, 4)));
    assert_eq!(viewer.presented, Some(defaults()));
    assert!(viewer.image.received);
    assert_eq!(viewer.image.sequence, 2);
    assert!(matches!(viewer.status, Status::Connected));
}

#[test]
fn worker_frame_with_a_different_fps_is_not_treated_as_stale() {
    let mut viewer = disconnected_viewer();
    let crop = DeviceViewOptions {
        max_fps: 1,
        viewport: Some(DeviceViewport {
            x: 0,
            y: 0,
            width: 2,
            height: 2,
        }),
        ..defaults()
    };
    let current = DeviceViewOptions {
        max_fps: 30,
        ..crop
    };
    let plan = viewer.plan_image(Some(crop), current, Some((8, 4)));
    assert_eq!(
        plan,
        ImagePlan::Upload,
        "matching crop must keep the local source instead of replacing it"
    );
    viewer.apply_worker_image(
        plan,
        Some((2, 2)),
        LIMIT,
        Some(crop),
        current,
        Some((8, 4)),
        30,
    );
    assert_eq!(viewer.presented, Some(crop));
    assert_eq!(viewer.zoom.presented, Some((2, 2)));
    assert_eq!(viewer.image.sequence, 2);
}

#[test]
fn a_stale_frame_without_a_kept_desktop_is_dropped() {
    let mut viewer = disconnected_viewer();
    let other = DeviceViewOptions {
        max_width: 100,
        ..defaults()
    };
    let plan = viewer.plan_image(Some(other), defaults(), None);
    assert_eq!(plan, ImagePlan::Drop);
    viewer.apply_worker_image(plan, None, LIMIT, Some(other), defaults(), None, 30);
    assert_eq!(viewer.image.sequence, 1);
}

#[test]
fn empty_or_edge_touching_image_never_counts_as_displayed() {
    let screen = |min_x, min_y, max_x, max_y| ScreenRect {
        min_x,
        min_y,
        max_x,
        max_y,
    };
    let clip = screen(0, 0, 800_000, 600_000);
    assert!(!visible_image(screen(8_000, 8_000, 8_000, 8_000), clip, true));
    let top = screen(8_000, 8_000, 108_000, 108_000);
    assert!(!visible_image(top, screen(-42_000, -42_000, 8_000, 8_000), true));
    assert!(visible_image(top, clip, true));
}

#[test]
fn invisible_sizing_ui_never_counts_as_displayed_image() {
    let mut viewer = disconnected_viewer();
    viewer.status = Status::Connected;
    let image = ScreenRect {
        min_x: 8_000,
        min_y: 8_000,
        max_x: 16_000,
        max_y: 12_000,
    };
    viewer.begin_show(false);
    let visible = visible_image(image, image, false);
    viewer.image_drawn(visible, 20);
    assert!(viewer.image.received);
    assert!(!viewer.image.displayed);
    assert!(viewer.image.last_displayed_ms.is_none());
}

#[test]
fn connected_texture_is_not_display_proof_when_image_is_clipped() {
    for zoom in [None, Some(PanelZoom::one())] {
        for (clip_height, expected) in [(20_000, false), (600_000, true)] {
            let mut viewer = disconnected_viewer();
            viewer.status = Status::Connected;
            viewer.begin_show(false);
            // The heading and the controls stand above the image.
            let (width, height) = image_size(100, 100, zoom, 784_000, 450_000);
            let image = ScreenRect {
                min_x: 8_000,
                min_y: 150_000,
                max_x: 8_000 + width as i32,
                max_y: 150_000 + height as i32,
            };
            let clip = ScreenRect {
                min_x: 0,
                min_y: 0,
                max_x: 800_000,
                max_y: clip_height,
            };
            viewer.image_drawn(visible_image(image, clip, true), 20);
            assert_eq!(viewer.image.displayed, expected, "zoom={zoom:?}, clip={clip_height}");
            viewer.begin_frame();
            assert_eq!(report(&viewer, true).image_displayed, expected);
        }
    }
}

#[test]
fn images_fit_without_losing_their_shape() {
    assert_eq!(image_size(200, 100, None, 400_000, 400_000), (400_000, 200_000));
    assert_eq!(image_size(200, 100, None, 400_000, 100_000), (200_000, 100_000));
    let one = Some(PanelZoom::one());
    assert_eq!(image_size(200, 100, one, 1, 1), (200_000, 100_000));
    let more = Some(PanelZoom::new(1_500_000));
    assert_eq!(image_size(201, 100, more, 1, 1), (301_500, 150_000));
}

#[test]
fn what_is_reported_follows_what_is_seen() {
    let mut viewer = disconnected_viewer();
    assert_eq!(report(&viewer, true).presentation, Presentation::Disconnected);
    viewer.status = Status::Connected;
    assert_eq!(report(&viewer, false).presentation, Presentation::Hidden);
    assert_eq!(report(&viewer, true).presentation, Presentation::NotRendered);
    viewer.begin_show(false);
    viewer.image_drawn(false, 20);
    viewer.begin_frame();
    assert_eq!(report(&viewer, true).presentation, Presentation::Clipped);
    viewer.begin_show(false);
    viewer.image_drawn(true, 40);
    viewer.begin_frame();
    let evidence = report(&viewer, true);
    assert_eq!(evidence.presentation, Presentation::Displayed);
    assert_eq!(evidence.last_uploaded_age_millis, Some(90));
    assert_eq!(evidence.last_displayed_age_millis, Some(60));
}

// What is known of the machine.

fn rows(rows: Vec<Row>) -> Vec<(&'static str, String)> {
    rows.into_iter().map(|row| (row.label, row.value)).collect()
}

#[test]
fn connection_details_show_supplied_and_observed_values_separately() {
    let identity = DeviceIdentity {
        machine_name: Some("Lab workstation".into()),
        hostname: Some("lab-host".into()),
        tailscale_name: Some("lab-host.example.ts.net".into()),
        ip_addresses: vec!["192.0.2.10".into()],
    };
    let supplied: Vec<String> = rows(machine_rows(&identity)).into_iter().map(|row| row.1).collect();
    assert_eq!(
        supplied,
        [
            "Lab workstation",
            "lab-host",
            "lab-host.example.ts.net",
            "192.0.2.10"
        ]
    );
    assert_eq!(
        rows(route_rows(&None, "127.0.0.1:5900")),
        [("Local endpoint", "127.0.0.1:5900".to_string())]
    );
    let name = Some("Fixture desktop".to_string());
    let observed: Vec<String> =
        rows(server_rows(&name, Some((640, 360)))).into_iter().map(|row| row.1).collect();
    assert_eq!(observed, ["Fixture desktop", "640 × 360"]);

    let mut viewer = Viewer::new();
    viewer.initialized = true;
    viewer.server_name = name;
    viewer.server_size = Some((640, 360));
    viewer.status = Status::Disconnected("fixture ended".into());
    let observation = viewer.observation(None, None, true, "actor", 0, 0);
    assert_eq!(observation.server_name.as_deref(), Some("Fixture desktop"));
    assert_eq!(observation.connection, Connection::Disconnected);
    viewer.reconnect(None, Ok(()));
    let observation = viewer.observation(None, None, true, "actor", 0, 0);
    assert!(observation.server_name.is_none());
    assert!(observation.server_size.is_none());
}

#[test]
fn a_name_stands_above_its_endpoint() {
    let named = heading(&Some("Lab".into()), true, "127.0.0.1:5900", false, &Status::Connected, true);
    assert_eq!((named.title.as_str(), named.subtitle.as_str()), ("Lab", "127.0.0.1:5900"));
    assert_eq!(named.source, Some("Supplied name"));
    assert_eq!(named.status, "Connected");
    assert!(named.note.is_none());
    assert_eq!(named.access, None);
    assert_eq!(name_caption(&Some("Lab".into())), None);
    let bare = heading(&None, false, "127.0.0.1:5900", true, &Status::Stopped, false);
    assert_eq!(bare.access, Some("Read-only"));
    assert_eq!(name_caption(&None), Some("Machine name unavailable"));
    assert_eq!(
        (bare.title.as_str(), bare.subtitle.as_str()),
        ("127.0.0.1:5900", "VNC desktop over SSH")
    );
    assert_eq!(bare.note.as_deref(), Some("Select Reconnect to view this desktop."));
    assert_eq!(server_caption(true, true), Some("Server-reported"));
    assert_eq!(server_caption(true, false), Some("Server-reported (disconnected)"));
    assert_eq!(server_caption(false, true), None);
    let over_ssh = route_rows(
        &Some(SshHop {
            label: "lab".into(),
            port: Some(2222),
        }),
        "127.0.0.1:5900",
    );
    assert!(rows(over_ssh).iter().any(|row| row.1.contains("lab")));
}

#[test]
fn a_new_connection_holds_nothing_and_keeps_the_choice_to_interact() {
    let mut capture = Capture::new();
    capture.interact = true;
    capture.captured = true;
    assert_eq!(capture.input.modifiers(CTRL).len(), 1);
    capture.restart();
    assert!(capture.interact);
    assert!(!capture.captured);
    assert!(capture.release_input().is_empty());
}

#[test]
fn a_crop_shows_part_of_the_desktop_and_no_crop_all_of_it() {
    let whole = defaults().crop((8, 4));
    assert_eq!((whole.x, whole.y, whole.width, whole.height), (0, 0, 8, 4));
    let part = DeviceViewOptions {
        viewport: Some(DeviceViewport {
            x: 4,
            y: 1,
            width: 2,
            height: 3,
        }),
        ..defaults()
    }
    .crop((8, 4));
    assert_eq!((part.x, part.y, part.width, part.height), (4, 1, 2, 3));
}
