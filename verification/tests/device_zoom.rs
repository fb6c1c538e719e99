//! The scale of a device's image: choosing it, pinching it, and where the image
//! then stands.
use horizon_ui::browser::zoom::{PanelZoom, MAX_ZOOM, MIN_ZOOM};
use horizon_ui::device::controls::{Controls, ControlsEdit, ControlsFrame};
use horizon_ui::device::session::{DeviceViewOptions, DeviceViewport};
use horizon_ui::device::viewer::Viewer;
use horizon_ui::device::zoom::{
    zoom_label, ImagePlace, ImageView, ImageZoom, LayerTransform, Scroll, Surface, ZoomAnchor,
    ZoomGesture,
};
use horizon_ui::geometry::{Pos, ScreenRect};

const LIMIT: usize = 2048;

/// Where the image goes in a window of 1200 by 800 points.
const BODY: ScreenRect = ScreenRect {
    min_x: 8_000,
    min_y: 150_000,
    max_x: 1_192_000,
    max_y: 792_000,
};

const CORNER: Scroll = Scroll { x: 0, y: 0 };

const PLAIN: LayerTransform = LayerTransform {
    dx: 0,
    dy: 0,
    micros: 1_000_000,
};

fn defaults() -> DeviceViewOptions {
    DeviceViewOptions {
        max_fps: 10,
        max_width: 2048,
        max_height: 2048,
        viewport: None,
    }
}

/// A viewer that shows a kept desktop of 8 by 4 pixels.
fn viewer() -> Viewer {
    let mut viewer = Viewer::new();
    viewer.initialized = true;
    viewer.desktop = Some((8, 4));
    viewer.source = Some((8, 4));
    assert!(viewer.refresh_presentation(defaults(), Some((8, 4)), LIMIT, None));
    viewer.record_received_frame(10);
    viewer
}

fn at(x: i32, y: i32) -> Pos {
    Pos {
        x: x * 1_000,
        y: y * 1_000,
    }
}

fn area(x: i32, y: i32, width: i32, height: i32) -> ScreenRect {
    ScreenRect {
        min_x: x * 1_000,
        min_y: y * 1_000,
        max_x: (x + width) * 1_000,
        max_y: (y + height) * 1_000,
    }
}

fn to(x: i64, y: i64) -> Scroll {
    Scroll {
        x: x * 1_000,
        y: y * 1_000,
    }
}

fn pinch(delta: u32, pointer: Pos, now_ms: u64) -> Option<ZoomGesture> {
    Some(ZoomGesture {
        delta,
        native_pinch: true,
        pointer,
        layer: PLAIN,
        now_ms,
        hold_ms: 200,
    })
}

fn anchor() -> ZoomAnchor {
    ZoomAnchor {
        captured_at: 1_000,
        native_pinch: false,
        pointer: at(100, 100),
        content: Scroll {
            x: 80_000_000,
            y: 80_000_000,
        },
    }
}

fn zoom(micros: u64) -> Option<PanelZoom> {
    Some(PanelZoom::new(micros))
}

fn whole_desktop(controls: &mut Controls) -> bool {
    let options = controls.options;
    controls.show(&ControlsFrame {
        desktop: Some((8, 4)),
        fitted: options,
        edit: Some(ControlsEdit {
            max_fps: options.max_fps,
            max_width: options.max_width,
            max_height: options.max_height,
            whole_clicked: true,
            draft: None,
            apply_clicked: false,
            layout: Ok(()),
        }),
    })
}

#[test]
fn zoom_and_whole_desktop_clicks_work_without_a_session() {
    let mut viewer = viewer();
    let mut controls = Controls::new(defaults());
    controls.options.viewport = Some(DeviceViewport {
        x: 4,
        y: 0,
        width: 4,
        height: 4,
    });
    assert!(viewer.apply_view_options(defaults(), controls.options, None));
    assert!(viewer.refresh_presentation(controls.options, Some((4, 4)), LIMIT, None));
    assert_eq!(viewer.zoom.presented, Some((4, 4)));
    assert_eq!(zoom_label(controls.zoom), "Fit");
    assert_eq!(zoom_label(Some(PanelZoom::one())), "100%");
    assert!(viewer.zoom.zoom_dropdown(&mut controls, Some(PanelZoom::one()), true));
    assert_eq!(controls.zoom, Some(PanelZoom::one()));
    assert!(!viewer.zoom.zoom_dropdown(&mut controls, Some(PanelZoom::one()), true));
    assert!(viewer.zoom.zoom_dropdown(&mut controls, None, true));
    assert_eq!(controls.zoom, None);
    let previous = controls.options;
    assert!(whole_desktop(&mut controls));
    assert!(controls.options.viewport.is_none());
    assert!(viewer.apply_view_options(previous, controls.options, None));
    assert!(viewer.refresh_presentation(controls.options, Some((8, 4)), LIMIT, None));
    assert_eq!(viewer.zoom.presented, Some((8, 4)));
}

#[test]
fn a_selector_that_only_shows_changes_nothing() {
    let mut state = ImageZoom::new();
    state.anchor = Some(anchor());
    let mut controls = Controls::new(defaults());
    assert!(!state.zoom_dropdown(&mut controls, zoom(2_000_000), false));
    assert_eq!(controls.zoom, None);
    assert_eq!(state.anchor, Some(anchor()));
    assert!(!state.rewind);
}

#[test]
fn a_pinch_over_the_image_zooms_the_panel_and_leaves_the_desktop_alone() {
    let mut viewer = viewer();
    let presented = viewer.zoom.presented;
    let mut selected = None;
    let mut shrunk = Vec::new();
    for step in 0..2 {
        let place = viewer.zoom.show_image(8, 4, selected, BODY, CORNER);
        let gesture = pinch(500_000, at(600, 500), 1_000 + step * 16);
        assert!(viewer.zoom.handle_zoom_gesture(&mut selected, Some(place.view), gesture));
        shrunk.push(selected.expect("the pinch selects an explicit scale"));
    }
    assert!(
        shrunk[1].micros < shrunk[0].micros,
        "each pinch out shrinks further"
    );
    assert_eq!(viewer.zoom.presented, presented, "zoom never resamples the desktop");
    assert_eq!(viewer.image.sequence, 1, "local zoom is not a received frame");
}

#[test]
fn the_zoom_anchor_is_independent_of_the_canvas_transform() {
    let local = at(600, 500);
    let anchored = |pointer: Pos, layer: LayerTransform| {
        let mut state = ImageZoom::new();
        let mut selected = Some(PanelZoom::one());
        let place = state.show_image(8, 4, selected, BODY, CORNER);
        let gesture = ZoomGesture {
            layer,
            ..pinch(1_500_000, pointer, 1_000).expect("a gesture")
        };
        state.handle_zoom_gesture(&mut selected, Some(place.view), Some(gesture));
        assert_eq!(state.anchor.expect("an anchor").pointer, local);
        state.pending_scroll.expect("the pinch anchors the scrolled view")
    };
    let plain = anchored(local, PLAIN);
    let transform = LayerTransform {
        dx: 37_000,
        dy: 19_000,
        micros: 1_500_000,
    };
    let shown = Pos {
        x: local.x / 2 * 3 + 37_000,
        y: local.y / 2 * 3 + 19_000,
    };
    let transformed = anchored(shown, transform);
    assert!(
        (plain.x - transformed.x).abs() < 500 && (plain.y - transformed.y).abs() < 500,
        "canvas transform moved the anchor: {plain:?} vs {transformed:?}"
    );
}

fn middle(rect: ScreenRect) -> (i32, i32) {
    ((rect.min_x + rect.max_x) / 2, (rect.min_y + rect.max_y) / 2)
}

#[test]
fn an_image_smaller_than_the_body_is_centered_rather_than_pinned() {
    let mut state = ImageZoom::new();
    state.pending_scroll = Some(to(400, 300));
    let mut image = BODY;
    for _ in 0..2 {
        let place = state.show_image(8, 4, zoom(2_000_000), BODY, CORNER);
        assert_eq!((place.width, place.height), (16_000, 8_000));
        image = place.view.image;
    }
    let (x, y) = middle(image);
    let (body_x, body_y) = middle(BODY);
    assert!((x - body_x).abs() < 4_000, "image {image:?} is not centered in {BODY:?}");
    assert!((y - body_y).abs() < 4_000);
}

#[test]
fn a_latched_gesture_keeps_its_anchor_after_the_pointer_leaves() {
    let scroll_after = |wander: bool, width: u32, height: u32| {
        let mut state = ImageZoom::new();
        let mut selected = zoom(2_000_000);
        let inside = at(600, 500);
        let outside = at(1190, 30);
        for step in 0..3u64 {
            let pointer = if wander && step == 2 { outside } else { inside };
            let place = state.show_image(width, height, selected, BODY, CORNER);
            if step > 0 {
                let gesture = pinch(1_200_000, pointer, 1_000 + step * 16);
                state.handle_zoom_gesture(&mut selected, Some(place.view), gesture);
            }
        }
        state.pending_scroll.expect("the gesture anchors the view")
    };
    for (width, height) in [(8, 4), (1600, 1000)] {
        let steady = scroll_after(false, width, height);
        let wandered = scroll_after(true, width, height);
        assert_eq!(steady, wandered, "the anchor moved with the pointer");
    }
    assert_ne!(scroll_after(true, 1600, 1000), CORNER);
}

#[test]
fn switching_zoom_input_kind_captures_a_new_device_anchor() {
    let mut state = ImageZoom::new();
    let mut selected = Some(PanelZoom::one());
    for (index, pointer) in [at(100, 100), at(300, 250), at(200, 180)].into_iter().enumerate() {
        let view = ImageView {
            scale: u64::from(selected.expect("explicit scale").micros),
            image: area(0, 0, 2000, 1000),
            body: area(0, 0, 600, 400),
        };
        let now = 1_000 + 20 * u64::try_from(index).expect("small index");
        let gesture = ZoomGesture {
            native_pinch: index == 1,
            ..pinch(1_250_000, pointer, now).expect("a gesture")
        };
        state.handle_zoom_gesture(&mut selected, Some(view), Some(gesture));
        assert_eq!(state.anchor.expect("active gesture").pointer, pointer);
    }
}

#[test]
fn changing_render_layers_discards_the_old_zoom_anchor() {
    let mut viewer = viewer();
    let mut selected = zoom(2_000_000);
    let canvas = Surface {
        viewport: 0,
        layer: 1,
    };
    viewer.zoom.settle_on(canvas);
    let place = viewer.zoom.show_image(8, 4, selected, BODY, CORNER);
    let gesture = pinch(1_200_000, at(600, 500), 1_000);
    viewer.zoom.handle_zoom_gesture(&mut selected, Some(place.view), gesture);
    assert!(viewer.zoom.anchor.is_some());
    let selection = selected;
    viewer.zoom.settle_on(canvas);
    assert!(viewer.zoom.anchor.is_some());
    viewer.zoom.settle_on(Surface {
        viewport: 0,
        layer: 2,
    });
    assert!(viewer.zoom.anchor.is_none());
    assert!(viewer.zoom.pending_scroll.is_none());
    assert_eq!(selected, selection);
}

fn placed(state: &mut ImageZoom, controls: &Controls, scrolled: Scroll) -> ImagePlace {
    state.show_image(1600, 1000, controls.zoom, BODY, scrolled)
}

#[test]
fn choosing_a_zoom_abandons_the_previous_gesture_state() {
    let mut state = ImageZoom::new();
    let mut controls = Controls::new(defaults());
    controls.zoom = zoom(2_000_000);
    let origin = placed(&mut state, &controls, CORNER).view.image;
    state.pending_scroll = Some(to(120, 90));
    let scrolled = placed(&mut state, &controls, CORNER);
    assert_eq!(scrolled.scroll_to, Some(to(120, 90)));
    assert_eq!(origin.min_x - scrolled.view.image.min_x, 120_000);
    assert_eq!(origin.min_y - scrolled.view.image.min_y, 90_000);
    state.anchor = Some(ZoomAnchor {
        captured_at: 0,
        pointer: at(600, 500),
        ..anchor()
    });
    assert_eq!(zoom_label(controls.zoom), "200%");
    assert_eq!(zoom_label(zoom(3_000_000)), "300%");
    assert!(state.zoom_dropdown(&mut controls, zoom(3_000_000), true));
    assert_eq!(controls.zoom, zoom(3_000_000));
    assert!(state.pending_scroll.is_none());
    assert!(state.anchor.is_none());
    let selected = placed(&mut state, &controls, to(120, 90));
    assert_eq!(
        (selected.view.image.min_x, selected.view.image.min_y),
        (origin.min_x, origin.min_y),
        "persisted scroll survived selection"
    );
    state.pending_scroll = Some(to(1, 1));
    state.anchor = Some(anchor());
    assert!(state.zoom_dropdown(&mut controls, None, true));
    assert_eq!(controls.zoom, None);
    assert!(state.pending_scroll.is_none(), "a stale offset survived the selection");
    assert!(state.anchor.is_none(), "a stale anchor survived the selection");
}

#[test]
fn changing_image_body_discards_pending_scroll_and_anchor_before_painting() {
    for next_body in [area(100, 80, 600, 400), area(20, 20, 500, 300)] {
        let mut state = ImageZoom::new();
        let original = area(20, 20, 600, 400);
        let mut scrolled = CORNER;
        for (index, body) in [original, original, next_body].into_iter().enumerate() {
            if index > 0 {
                state.pending_scroll = Some(if index == 1 { to(120, 90) } else { to(300, 200) });
                state.anchor = Some(anchor());
            }
            let place = state.show_image(1600, 1000, Some(PanelZoom::one()), body, scrolled);
            let view = place.view;
            let offset = Scroll {
                x: i64::from(view.body.min_x - view.image.min_x),
                y: i64::from(view.body.min_y - view.image.min_y),
            };
            if index == 2 {
                assert!(state.anchor.is_none(), "anchor outlived body geometry");
                assert_eq!(offset, to(120, 90), "stale offset applied");
            }
            scrolled = offset;
        }
    }
}

#[test]
fn changing_viewports_with_the_same_layer_discards_the_old_zoom_anchor() {
    let mut state = ImageZoom::new();
    let mut controls = Controls::new(defaults());
    controls.zoom = zoom(1_500_000);
    for (index, viewport) in [0u64, 7, 0].into_iter().enumerate() {
        state.anchor = Some(anchor());
        state.pending_scroll = Some(to(30, 40));
        state.settle_on(Surface { viewport, layer: 3 });
        if index > 0 {
            assert!(state.anchor.is_none());
            assert!(state.pending_scroll.is_none());
        }
        assert_eq!(controls.zoom, zoom(1_500_000));
    }
}

#[test]
fn reversing_a_gesture_after_holding_a_zoom_limit_keeps_its_anchor() {
    for (scale, outward, reverse, expected, offset) in [
        (MAX_ZOOM, 1_100_000, 500_000, 2_000_000u64, 0),
        (MIN_ZOOM, 900_000, 2_000_000, 500_000, 300),
    ] {
        let mut state = ImageZoom::new();
        let mut selected = zoom(u64::from(scale));
        let anchor_pointer = at(200, 200);
        let outside = at(900, 700);
        let view = ImageView {
            scale: u64::from(scale),
            image: area(0, 0, 4000, 3200),
            body: area(100, 100, 400, 300),
        };
        for (now, pointer, delta) in [
            (1_000, anchor_pointer, outward),
            (1_100, outside, outward),
            (1_200, outside, outward),
            (1_300, outside, reverse),
        ] {
            let changed =
                state.handle_zoom_gesture(&mut selected, Some(view), pinch(delta, pointer, now));
            assert_eq!(changed, delta == reverse);
            let anchor = state.anchor.expect("active samples retain the initial anchor");
            assert_eq!(anchor.pointer, anchor_pointer);
            assert_eq!(anchor.captured_at, now);
        }
        assert_eq!(selected, zoom(expected));
        assert_eq!(state.pending_scroll, Some(to(offset, offset)));
    }
}

#[test]
fn presentation_changes_discard_anchors_but_ordinary_frames_and_fps_do_not() {
    let mut viewer = viewer();
    let seed = |viewer: &mut Viewer| {
        viewer.zoom.anchor = Some(ZoomAnchor {
            pointer: at(50, 40),
            ..anchor()
        });
        viewer.zoom.pending_scroll = Some(to(10, 20));
    };
    let kept = |viewer: &Viewer| (viewer.zoom.anchor.is_some(), viewer.zoom.pending_scroll.is_some());
    seed(&mut viewer);
    assert!(viewer.refresh_presentation(defaults(), Some((8, 4)), LIMIT, None));
    assert_eq!(kept(&viewer), (true, true));
    let slow = DeviceViewOptions {
        max_fps: 1,
        ..defaults()
    };
    assert!(!viewer.apply_view_options(defaults(), slow, None));
    assert_eq!(kept(&viewer), (true, true));
    let narrow = DeviceViewOptions {
        max_width: 4,
        ..slow
    };
    let cropped = DeviceViewOptions {
        viewport: Some(DeviceViewport {
            x: 1,
            y: 0,
            width: 4,
            height: 4,
        }),
        ..narrow
    };
    for (previous, options) in [(slow, narrow), (narrow, cropped)] {
        seed(&mut viewer);
        assert!(viewer.apply_view_options(previous, options, None));
        assert_eq!(kept(&viewer), (false, false));
    }
    assert!(viewer.refresh_presentation(defaults(), Some((8, 4)), LIMIT, None));
    seed(&mut viewer);
    assert!(viewer.refresh_presentation(defaults(), Some((16, 8)), LIMIT, None));
    assert_eq!(kept(&viewer), (false, false));
}

#[test]
fn a_gesture_after_a_pause_holds_on_to_what_is_there_now() {
    let mut state = ImageZoom::new();
    let mut selected = Some(PanelZoom::one());
    let view = ImageView {
        scale: 1_000_000,
        image: area(0, 0, 2000, 1000),
        body: area(0, 0, 600, 400),
    };
    state.handle_zoom_gesture(&mut selected, Some(view), pinch(1_100_000, at(100, 100), 1_000));
    state.handle_zoom_gesture(&mut selected, Some(view), pinch(1_100_000, at(300, 200), 1_201));
    let anchor = state.anchor.expect("an anchor");
    assert_eq!(anchor.pointer, at(300, 200));
    assert_eq!(
        anchor.content,
        Scroll {
            x: 300_000_000,
            y: 200_000_000
        }
    );
    assert_eq!(state.pending_scroll, Some(to(30, 20)));
}

#[test]
fn the_pixel_under_the_pointer_stays_there() {
    let mut state = ImageZoom::new();
    let mut selected = zoom(2_000_000);
    let scrolled = to(500, 300);
    let before = state.show_image(1600, 1000, selected, BODY, scrolled).view;
    let pointer = at(600, 500);
    let pixel = f64::from(pointer.x - before.image.min_x) / 2.0;
    state.handle_zoom_gesture(&mut selected, Some(before), pinch(1_250_000, pointer, 1_000));
    assert_eq!(selected, zoom(2_500_000));
    let after = state.show_image(1600, 1000, selected, BODY, scrolled).view;
    let shown = f64::from(after.image.min_x) + pixel * 2.5;
    assert!((shown - f64::from(pointer.x)).abs() <= 1.0);
}

#[test]
fn no_gesture_and_no_image_leave_the_scale_alone() {
    let mut state = ImageZoom::new();
    let mut selected = None;
    let flat = ImageView {
        scale: 0,
        image: BODY,
        body: BODY,
    };
    assert!(!state.handle_zoom_gesture(&mut selected, None, pinch(2_000_000, at(1, 1), 5)));
    assert!(!state.handle_zoom_gesture(&mut selected, Some(flat), pinch(2_000_000, at(1, 1), 5)));
    assert!(!state.handle_zoom_gesture(&mut selected, Some(flat), None));
    assert_eq!((selected, state.anchor), (None, None));
}
