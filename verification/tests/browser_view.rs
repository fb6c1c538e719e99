use horizon_ui::browser::body::{
    picture_rect, retry_button, show_body, vertical_scrollbar_geometry, BodyInput, BodyResponse,
    BrowserStatus, PageFrame, PageScroll, ScrollOverlay, TextureState, TextureUpdate,
};
use horizon_ui::browser::chrome::{
    backend_text, chrome_widths, handoff_banner_text, handoff_button, handoff_error_text,
    nav_hover_text, nav_widget_info, ownership_chip_label, picked_backend, sync_url_buffer,
    url_submission, BackendKind, ChipTone, NavAction,
};
use horizon_ui::browser::file_chooser::{
    accept_label, attend, entry_label, heading, origin_label, selected_label, settle,
    DirectoryEntry, DirectoryListing, FileChooserAnswer, FilePicker, PickerFrame,
};
use horizon_ui::browser::keyboard::PageEvent;
use horizon_ui::browser::keys::BrowserKey;
use horizon_ui::browser::pointer::{
    BrowserButton, BrowserPointerClick, ClickThresholds, PointerEvent,
};
use horizon_ui::browser::select_popup::{
    handle_classified_key, handle_key, menu_layout, sync_ui_state, BrowserBounds, MenuLine,
    NativeSelectOption, NativeSelectPopup, SelectCommand, SelectPopupKey, MAX_MENU_HEIGHT,
};
use horizon_ui::browser::teach::{
    can_save, outcome_label, preview_summary, teach_commands, ReviewCandidate, ReviewRow,
    TeachClicks, TeachCommand, TeachPhase,
};
use horizon_ui::browser::view::{
    page_focus_event_filter, page_keyboard_can_route, BrowserFrame, BrowserUiState, HostFocus,
    PageIme,
};
use horizon_ui::browser::viewport::{
    frame_matches_viewport, pointer_viewport_state, viewport_command_due, FrameSize,
    PointerViewportState, Viewport, ViewportFrame, ViewportSync, MAX_VIEWPORT_CONVERGENCE_RETRIES,
};
use horizon_ui::browser::zoom::{
    canvas_fallback, frame_scale, supports_panel_zoom, zoomed_viewport, BodySize, PanelZoom,
    ZoomState, MAX_FRAME_PIXELS, MAX_ZOOM, MIN_STABLE_VIEWPORT_SIDE,
};
use horizon_ui::geometry::{Pos, ScreenRect};
use horizon_ui::modifiers::Modifiers;

fn size(width: u32, height: u32) -> Option<FrameSize> {
    Some(FrameSize { width: width as u16, height: height as u16 })
}

fn view(width: u32, height: u32) -> Viewport {
    Viewport { width, height }
}

fn body(width: u32, height: u32) -> BodySize {
    BodySize { width: width * 1000, height: height * 1000 }
}

fn zoom(micros: u64) -> PanelZoom {
    PanelZoom::new(micros)
}

#[test]
fn a_fixed_viewport_is_pointer_ready_once_any_frame_rendered() {
    assert_eq!(
        pointer_viewport_state(true, size(393, 852), Some(view(1280, 720)), view(0, 0)),
        PointerViewportState::Ready
    );
    assert_eq!(
        pointer_viewport_state(true, None, Some(view(1280, 720)), view(0, 0)),
        PointerViewportState::AwaitingFrame
    );
    assert_eq!(
        pointer_viewport_state(false, size(393, 852), Some(view(1280, 720)), view(1280, 720)),
        PointerViewportState::AwaitingFrame
    );
    assert_eq!(
        pointer_viewport_state(false, size(1280, 720), Some(view(1280, 720)), view(1280, 720)),
        PointerViewportState::Ready
    );
}

#[test]
fn pinned_viewport_rejects_old_frames_then_allows_scaled_pointer_input() {
    assert_eq!(
        pointer_viewport_state(false, size(1280, 800), Some(view(390, 844)), view(390, 844)),
        PointerViewportState::AwaitingFrame
    );
    assert_eq!(
        pointer_viewport_state(false, size(390, 844), Some(view(390, 844)), view(390, 844)),
        PointerViewportState::Ready
    );
    assert_eq!(
        pointer_viewport_state(false, size(390, 844), Some(view(1280, 800)), view(1280, 800)),
        PointerViewportState::AwaitingFrame
    );
}

#[test]
fn pointer_input_waits_for_the_sent_viewport_frame() {
    assert!(frame_matches_viewport(size(800, 600), Some(view(800, 600)), view(800, 600)));
    assert!(frame_matches_viewport(size(796, 604), Some(view(800, 600)), view(800, 600)));
    assert!(!frame_matches_viewport(size(795, 605), Some(view(800, 600)), view(800, 600)));
    assert!(!frame_matches_viewport(size(1280, 800), Some(view(800, 600)), view(800, 600)));
    assert!(!frame_matches_viewport(size(800, 600), Some(view(900, 600)), view(800, 600)));
    assert!(!frame_matches_viewport(None, Some(view(800, 600)), view(800, 600)));
}

#[test]
fn mismatched_viewport_retries_only_after_the_bounded_interval() {
    let due = |frame, desired, now, count| {
        viewport_command_due(frame, desired, view(800, 600), now, 2_000, count)
    };
    assert!(due(size(800, 600), view(900, 600), 1_000, 0));
    assert!(!due(size(805, 600), view(800, 600), 1_000, 0));
    assert!(due(size(805, 600), view(800, 600), 2_000, 0));
    assert!(!due(size(800, 600), view(800, 600), 3_000, 0));
    assert!(!due(size(805, 600), view(800, 600), 3_000, MAX_VIEWPORT_CONVERGENCE_RETRIES));
}

#[test]
fn page_keyboard_requires_window_panel_and_egui_focus() {
    assert!(page_keyboard_can_route(true, false, false));
    assert!(!page_keyboard_can_route(false, false, false));
    assert!(!page_keyboard_can_route(true, true, false));
    assert!(!page_keyboard_can_route(true, false, true));
}

#[test]
fn page_focus_keeps_navigation_keys_out_of_egui() {
    let filter = page_focus_event_filter();
    assert!(filter.tab);
    assert!(filter.horizontal_arrows);
    assert!(filter.vertical_arrows);
    assert!(!filter.escape);
}

fn dragging() -> BrowserUiState {
    let mut state = BrowserUiState::new();
    state.pointer.left = Some(BrowserPointerClick {
        button: BrowserButton::Left,
        position: Pos { x: 0, y: 0 },
        time_ms: 0,
        count: 1,
    });
    state
}

/// A frame of a focused panel in which nothing happens.
fn panel_frame<'a>(
    body: BodyInput,
    pointer_events: &'a Vec<PointerEvent>,
    page_events: &'a Vec<PageEvent>,
) -> BrowserFrame<'a> {
    BrowserFrame {
        backend: BackendKind::ChromiumCdp,
        body,
        popup: None,
        zoom_resolved: false,
        zoom_gesture: None,
        window_focused: true,
        panel_focused: true,
        url_focused: false,
        other_widget_has_focus: false,
        chrome_clicked: false,
        interactive: true,
        fullscreen_active: false,
        fixed_viewport: false,
        explicit_viewport: None,
        accepts_viewport: true,
        now_ms: 1_000,
        thresholds: ClickThresholds { distance: 6_000, duration_ms: 800, double_click_delay_ms: 300 },
        pointer: None,
        frame_has_pointer_button: false,
        pointer_events,
        page_events,
        modifiers: Modifiers::none(),
        mac: false,
    }
}

fn pinned(
    frame: Option<FrameSize>,
    host: Viewport,
    pin: Viewport,
) -> ViewportFrame {
    ViewportFrame {
        frame,
        viewport: Some(host),
        host_viewport: Some(host),
        explicit: Some(pin),
        now_ms: 0,
        accepts: true,
    }
}

#[test]
fn pinned_host_layout_updates_do_not_cancel_an_active_page_drag() {
    let mut state = dragging();
    for host in [view(1280, 800), view(900, 600), view(900, 600)] {
        let outcome = state.sync.synchronize_viewport(pinned(size(390, 844), host, view(390, 844)));
        assert!(!outcome.cancels_pointer);
        assert!(state.pointer.has_pointer_capture());
    }
    assert_eq!(state.sync.last_viewport, view(900, 600));
}

#[test]
fn changing_a_pin_cancels_a_drag_before_a_release_can_be_dropped() {
    let no_pointer = Vec::new();
    let no_keys = Vec::new();
    for picture in [None, Some(PageFrame { seq: 1, width: 390, height: 844 })] {
        let mut state = BrowserUiState::new();
        state.synchronize_backend(BackendKind::ChromiumCdp);
        state.pointer.left = dragging().pointer.left;
        let mut frame = panel_frame(body_input(900, 600, picture), &no_pointer, &no_keys);
        frame.explicit_viewport = Some(view(820, 1180));
        let outcome = state.show(&frame);
        assert!(outcome.viewport.expect("adjustable").cancels_pointer);
        assert_eq!(outcome.cancelled.len(), 1);
        assert!(!state.pointer.has_pointer_capture());
    }
}

#[test]
fn a_layout_is_sent_again_a_bounded_number_of_times() {
    let mut sync = ViewportSync::new();
    let mut sent = 0;
    for step in 0..100u64 {
        let outcome = sync.synchronize_viewport(ViewportFrame {
            frame: size(1, 1),
            viewport: Some(view(800, 600)),
            host_viewport: Some(view(800, 600)),
            explicit: None,
            now_ms: step * 100,
            accepts: true,
        });
        if outcome.send.is_some() {
            sent += 1;
        }
    }
    assert_eq!(sent, 9);
    assert_eq!(sync.retry_count, 8);

    let mut small = ViewportSync::new();
    let outcome = small.synchronize_viewport(ViewportFrame {
        frame: None,
        viewport: Some(view(32, 600)),
        host_viewport: None,
        explicit: None,
        now_ms: 0,
        accepts: true,
    });
    assert_eq!(outcome.send, None);
}

#[test]
fn an_appearance_change_keeps_the_panel_zoom() {
    let mut state = BrowserUiState::new();
    state.zoom = ZoomState { zoom: zoom(1_500_000), effective_zoom: zoom(1_500_000) };
    state.texture.seq = 7;
    state.sync.last_viewport = view(800, 600);
    state.url_buffer = String::from("https://example.test/");
    state.invalidate_theme();
    assert_eq!(state.zoom.zoom, zoom(1_500_000));
    assert_eq!(state.zoom.effective_zoom, zoom(1_500_000));
    assert_eq!(state.texture.seq, 0);
    assert_eq!(state.sync.last_viewport, view(0, 0));
    assert!(state.url_buffer.is_empty());
    assert!(state.active_backend.is_none());
}

#[test]
fn backend_switch_resets_session_owned_viewport_and_input_caches() {
    let mut state = BrowserUiState::new();
    assert!(state.synchronize_backend(BackendKind::ChromiumCdp));
    state.texture.seq = 42;
    state.sync.last_viewport = view(800, 600);
    state.sync.retry_at_ms = 12_500;
    state.sync.retry_count = 3;
    state.pointer.last_mouse = Some(Pos { x: 12_000, y: 34_000 });
    state.url_buffer = String::from("https://example.test/");
    state.keys.url_submit_enter_pending = true;
    state.zoom.zoom = zoom(1_500_000);

    assert!(!state.synchronize_backend(BackendKind::ChromiumCdp));
    assert_eq!(state.texture.seq, 42);
    assert_eq!(state.sync.last_viewport, view(800, 600));

    assert!(state.synchronize_backend(BackendKind::FirefoxBidi));
    assert_eq!(state.active_backend, Some(BackendKind::FirefoxBidi));
    assert_eq!(state.texture.seq, 0);
    assert_eq!(state.sync.last_viewport, view(0, 0));
    assert_eq!(state.sync.retry_at_ms, 0);
    assert_eq!(state.sync.retry_count, 0);
    assert!(state.pointer.last_mouse.is_none());
    assert!(state.url_buffer.is_empty());
    assert!(!state.keys.url_submit_enter_pending);
    assert_eq!(state.zoom.zoom, zoom(1_500_000));
}

#[test]
fn page_zoom_lays_the_body_out_in_scaled_css_pixels() {
    let viewport_for = |factor: u64| {
        let mut state = ZoomState { zoom: zoom(factor), effective_zoom: PanelZoom::one() };
        let sizes = state.sync_viewport_sizes(body(800, 600), 8192);
        (sizes.viewport, sizes.host_viewport)
    };
    let (unscaled, host) = viewport_for(1_000_000);
    assert_eq!(unscaled, host);
    assert_eq!(host, view(800, 600));
    for (factor, ratio) in [(2_000_000u64, 0.5f64), (500_000, 2.0)] {
        let (scaled, host_at_zoom) = viewport_for(factor);
        assert!(
            (f64::from(scaled.width) - f64::from(unscaled.width) * ratio).abs() <= 1.0
                && (f64::from(scaled.height) - f64::from(unscaled.height) * ratio).abs() <= 1.0
        );
        assert_eq!(host_at_zoom, host);
    }
}

#[test]
fn a_zoomed_viewport_stays_above_the_size_the_backend_sync_accepts() {
    let limit = 8192;
    assert_eq!(zoomed_viewport(body(800, 600), zoom(4_000_000), limit), view(200, 150));
    assert_eq!(zoomed_viewport(body(800, 600), zoom(500_000), limit), view(1600, 1200));
    let wide = zoomed_viewport(body(3000, 2000), zoom(250_000), limit);
    assert!(wide.width <= 8192 && wide.height <= 8192);
    assert!(u64::from(wide.width) * u64::from(wide.height) <= u64::from(MAX_FRAME_PIXELS));
    let narrow = zoomed_viewport(body(3000, 200), zoom(250_000), 2048);
    assert!(narrow.width <= 2048);
    let long = zoomed_viewport(body(40_000, 120), zoom(4_000_000), limit);
    assert!(long.height >= MIN_STABLE_VIEWPORT_SIDE && long.width <= 8192);
    let short = zoomed_viewport(body(420, 100), zoom(4_000_000), limit);
    assert!(
        short.height >= MIN_STABLE_VIEWPORT_SIDE && short.width >= MIN_STABLE_VIEWPORT_SIDE
    );
}

#[test]
fn rounded_viewports_stay_within_the_pixel_budget() {
    for panel in [body(254, 2041), body(2041, 254), body(960, 540), body(3000, 2000)] {
        for factor in [250_000u64, 1_000_000, 4_000_000] {
            for side_limit in [2048usize, 4096, 16_384] {
                let viewport = zoomed_viewport(panel, zoom(factor), side_limit);
                assert!(viewport.width >= 33 && viewport.height >= 33);
                let limit = u32::try_from(side_limit).expect("small texture limit");
                assert!(viewport.width <= limit && viewport.height <= limit);
                assert!(
                    u64::from(viewport.width) * u64::from(viewport.height)
                        <= u64::from(MAX_FRAME_PIXELS)
                );
            }
        }
    }
    assert_eq!(zoomed_viewport(body(960, 540), zoom(250_000), 16_384), view(3840, 2160));
}

#[test]
fn a_changed_effective_zoom_refreshes_the_idle_selector_then_settles() {
    let mut state = ZoomState { zoom: zoom(250_000), effective_zoom: PanelZoom::one() };
    let mut available = body(800, 600);
    for next in [body(3000, 2000), available] {
        let _ = state.sync_viewport_sizes(available, 2048);
        assert!(!state.sync_viewport_sizes(available, 2048).repaint, "unchanged layout should idle");
        let previous = state.effective_zoom;
        let changed = state.sync_viewport_sizes(next, 2048);
        assert_ne!(state.effective_zoom, previous);
        assert!(changed.repaint, "the already-painted selector needs another frame");
        assert!(!state.sync_viewport_sizes(next, 2048).repaint);
        available = next;
    }
}

#[test]
fn oversized_bodies_letterbox_at_the_reported_zoom_limit() {
    for available in [body(12_000, 12_000), body(40_000, 120)] {
        let mut state = ZoomState { zoom: zoom(4_000_000), effective_zoom: PanelZoom::one() };
        let viewport = state.sync_viewport_sizes(available, 2048).viewport;
        let frame = FrameSize {
            width: u16::try_from(viewport.width).expect("bounded frame"),
            height: u16::try_from(viewport.height).expect("bounded frame"),
        };
        let scale = frame_scale(available, frame, true);
        assert!(scale <= u64::from(MAX_ZOOM));
        assert_eq!(scale, u64::from(state.effective_zoom.micros));
        assert!(
            u64::from(viewport.width) * u64::from(viewport.height) <= u64::from(MAX_FRAME_PIXELS)
        );
        assert!(u64::from(frame.width) * scale <= u64::from(available.width) * 1000);
        assert!(u64::from(frame.height) * scale <= u64::from(available.height) * 1000);
    }
    let fixed = frame_scale(body(1000, 1000), FrameSize { width: 100, height: 100 }, false);
    assert_eq!(fixed, 10_000_000);
}

#[test]
fn host_dimensions_survive_responsive_frame_limits() {
    for (available, expected) in [
        (BodySize { width: 12_000_400, height: 12_000_600 }, view(12_000, 12_001)),
        (body(24, 30), view(24, 30)),
    ] {
        for factor in [250_000u64, 1_000_000, 4_000_000] {
            let mut state = ZoomState { zoom: zoom(factor), effective_zoom: PanelZoom::one() };
            let sizes = state.sync_viewport_sizes(available, 2048);
            assert_eq!(sizes.host_viewport, expected);
            assert_ne!(sizes.viewport, sizes.host_viewport);
        }
    }
}

#[test]
fn fixed_browser_keeps_its_zoom_preference_during_gestures() {
    let mut state = ZoomState { zoom: zoom(1_500_000), effective_zoom: PanelZoom::one() };
    assert!(!state.apply_zoom_gesture(supports_panel_zoom(false, None), Some(1_250_000)));
    assert_eq!(state.zoom, zoom(1_500_000));
}

#[test]
fn a_capped_selection_still_responds_to_the_first_gesture_back() {
    let gesture = |asked: u64, effective: u64, delta: u32| {
        let mut state = ZoomState { zoom: zoom(asked), effective_zoom: zoom(effective) };
        let _ = state.apply_zoom_gesture(supports_panel_zoom(true, None), Some(delta));
        state.zoom.micros
    };
    assert_eq!(gesture(250_000, 850_000, 1_200_000), 1_020_000);
    assert_eq!(gesture(250_000, 850_000, 500_000), 250_000);
    assert_eq!(gesture(4_000_000, 1_300_000, 500_000), 650_000);
    assert_eq!(gesture(4_000_000, 1_300_000, 1_500_000), 4_000_000);
}

#[test]
fn a_zoom_gesture_rescales_and_asks_for_the_frame_that_resends_the_viewport() {
    let mut state = ZoomState::new();
    assert!(state.apply_zoom_gesture(true, Some(1_250_000)), "a static page needs the frame");
    assert_eq!(state.zoom.micros, 1_250_000);

    let mut untouched = ZoomState::new();
    assert!(!untouched.apply_zoom_gesture(true, None));
    assert_eq!(untouched.zoom, PanelZoom::one());
    let mut clamped = ZoomState { zoom: zoom(4_000_000), effective_zoom: zoom(4_000_000) };
    assert!(!clamped.apply_zoom_gesture(true, Some(1_250_000)));
    assert_eq!(clamped.zoom.micros, MAX_ZOOM);
    assert!(!supports_panel_zoom(true, Some(view(390, 844))));
    assert!(canvas_fallback(false, false, true));
    assert!(!canvas_fallback(true, false, true));
}

#[test]
fn page_scrollbar_overlay_tracks_native_gutter_and_scroll_position() {
    let image = ScreenRect { min_x: 0, min_y: 0, max_x: 1_164_000, max_y: 608_000 };
    let scroll = |thumb_y: u32| PageScroll {
        viewport_width: 1_164_000,
        viewport_height: 608_000,
        overlay: Some(ScrollOverlay { track_width: 12_000, thumb_y, thumb_height: 123_221 }),
    };
    let (track, top_thumb) =
        vertical_scrollbar_geometry(image, scroll(0)).expect("scrollable page");
    let (_, middle_thumb) =
        vertical_scrollbar_geometry(image, scroll(242_389)).expect("scrolled page");
    assert_eq!(track.max_x - track.min_x, 12_000);
    assert_eq!(top_thumb.min_y, image.min_y);
    assert!(middle_thumb.min_y > top_thumb.min_y);
    assert!((top_thumb.max_y - top_thumb.min_y - 123_200).abs() < 100);
    let (_, past) = vertical_scrollbar_geometry(image, scroll(700_000)).expect("past its end");
    assert_eq!((past.min_y, past.max_y), (700_000, 608_000));
    let still = PageScroll { overlay: None, ..scroll(0) };
    assert!(vertical_scrollbar_geometry(image, still).is_none());
    let empty = PageScroll { viewport_width: 0, ..scroll(0) };
    assert!(vertical_scrollbar_geometry(image, empty).is_none());
}

fn quiet() -> BodyResponse {
    BodyResponse {
        clicked: false,
        contains_pointer: false,
        button_down_on: false,
        drag_started: false,
        dragged: false,
        drag_stopped: false,
    }
}

fn body_input(width: i32, height: i32, frame: Option<PageFrame>) -> BodyInput {
    BodyInput {
        available: ScreenRect { min_x: 0, min_y: 0, max_x: width * 1000, max_y: height * 1000 },
        frame,
        response: quiet(),
        max_texture_side: 8192,
        responsive: true,
        retry: false,
    }
}

#[test]
fn a_body_shows_nothing_a_placeholder_or_a_picture() {
    let mut state = ZoomState::new();
    let mut texture = TextureState { size: None, seq: 0 };
    let tiny = show_body(body_input(23, 400, None), &mut state, &mut texture);
    assert!(tiny.viewport_size.is_none() && !tiny.placeholder);

    let empty = show_body(body_input(800, 600, None), &mut state, &mut texture);
    assert!(empty.placeholder);
    assert_eq!(empty.viewport_size, Some(view(800, 600)));
    assert!(!empty.keyboard_focus);

    let mut input =
        body_input(800, 600, Some(PageFrame { seq: 1, width: 400, height: 600 }));
    input.response.drag_stopped = true;
    let shown = show_body(input, &mut state, &mut texture);
    assert_eq!(shown.texture, TextureUpdate::Load);
    assert!(shown.pointer_target);
    assert_eq!(
        shown.image_rect,
        Some(ScreenRect { min_x: 200_000, min_y: 0, max_x: 600_000, max_y: 600_000 })
    );
    assert_eq!(show_body(input, &mut state, &mut texture).texture, TextureUpdate::Keep);
    input.frame = Some(PageFrame { seq: 2, width: 400, height: 600 });
    assert_eq!(show_body(input, &mut state, &mut texture).texture, TextureUpdate::Replace);
    input.frame = Some(PageFrame { seq: 3, width: 401, height: 600 });
    assert_eq!(show_body(input, &mut state, &mut texture).texture, TextureUpdate::Load);
}

#[test]
fn a_responsive_picture_is_magnified_four_times_at_most() {
    let body = ScreenRect { min_x: 0, min_y: 0, max_x: 1_000_000, max_y: 1_000_000 };
    let frame = FrameSize { width: 100, height: 100 };
    assert_eq!(
        picture_rect(body, frame, true),
        ScreenRect { min_x: 300_000, min_y: 300_000, max_x: 700_000, max_y: 700_000 }
    );
    assert_eq!(picture_rect(body, frame, false), body);
}

#[test]
fn placeholders_say_what_the_browser_does() {
    assert_eq!(BrowserStatus::Starting.placeholder(), "Starting browser…");
    assert_eq!(BrowserStatus::Ready.placeholder(), "Waiting for frames…");
    let error = BrowserStatus::Error { message: "no display".to_string() };
    assert_eq!(error.placeholder(), "Browser error: no display");
    assert!(!error.is_alive());
    assert_eq!(
        BrowserStatus::Stopped { code: Some(-9) }.placeholder(),
        "Browser stopped (exit -9)"
    );
    assert_eq!(BrowserStatus::Stopped { code: None }.placeholder(), "Browser stopped");
    assert_eq!(retry_button(true, true, true), (true, "Restart the browser"));
    assert_eq!(
        retry_button(true, true, false),
        (false, "Waiting for the previous browser to finish shutting down")
    );
    assert_eq!(
        retry_button(true, false, true),
        (false, "This remote session ended with a previous run; create the panel again")
    );
    assert_eq!(
        retry_button(false, true, true),
        (false, "Browser controls are unavailable in this view")
    );
}

fn option(index: u32, disabled: bool) -> NativeSelectOption {
    NativeSelectOption {
        index,
        label: format!("Item {index}"),
        group: None,
        disabled,
        selected: false,
    }
}

fn popup_at(y: i32, options: Vec<NativeSelectOption>) -> NativeSelectPopup {
    NativeSelectPopup {
        css_path: "#native-single".to_string(),
        selected_index: 0,
        bounds: BrowserBounds { x: 20_000, y, width: 80_000, height: 22_000 },
        options,
    }
}

fn options(count: u32) -> Vec<NativeSelectOption> {
    (0..count).map(|index| option(index, false)).collect()
}

#[test]
fn menu_opens_below_when_there_is_room_and_flips_near_the_bottom() {
    let image = ScreenRect { min_x: 0, min_y: 0, max_x: 400_000, max_y: 300_000 };
    let below = menu_layout(image, 400, 300, &popup_at(40_000, options(3))).expect("below");
    assert!(below.top > 62_000);
    assert!(below.height < MAX_MENU_HEIGHT);
    let long = menu_layout(image, 400, 300, &popup_at(40_000, options(40))).expect("scrollable");
    assert_eq!(long.height, MAX_MENU_HEIGHT);
    let edge = menu_layout(image, 400, 300, &popup_at(270_000, options(3))).expect("flipped");
    assert!(edge.top + edge.height <= 270_000 + 22_000 + 1_000);
    assert!(edge.top < 270_000);
    assert!(menu_layout(image, 0, 300, &popup_at(0, options(1))).is_none());
    assert!(below.contains(Pos { x: 20_000, y: 70_000 }));
    assert!(!below.contains(Pos { x: 10_000, y: 70_000 }));
}

#[test]
fn sync_ui_state_highlights_the_selected_row_inside_a_windowed_list() {
    let mut popup = popup_at(40_000, (548..552).map(|index| option(index, false)).collect());
    popup.css_path = "#native-long".to_string();
    popup.selected_index = 550;
    let mut state = None;
    sync_ui_state(&mut state, Some(&popup));
    assert_eq!(state.as_ref().expect("open").highlight, 2);
    popup.options.truncate(1);
    sync_ui_state(&mut state, Some(&popup));
    assert_eq!(state.as_ref().expect("open").highlight, 0);
    sync_ui_state(&mut state, None);
    assert!(state.is_none());
}

fn select_key(key: Option<BrowserKey>, text: Option<char>, now_ms: u64) -> SelectPopupKey {
    SelectPopupKey {
        key,
        pressed: true,
        modifiers: Modifiers::none(),
        now_ms,
        text,
        stepped: -1,
    }
}

#[test]
fn menu_keys_move_commit_dismiss_and_search() {
    let mut popup = popup_at(0, vec![option(0, true), option(1, false), option(2, true), option(3, false)]);
    popup.options[3].label = "Zebra".to_string();
    popup.options[1].label = "Änne".to_string();
    let mut state = None;
    sync_ui_state(&mut state, Some(&popup));
    assert_eq!(
        handle_key(&mut state, &popup, select_key(Some(BrowserKey::Enter), None, 0)),
        (Some(SelectCommand::Dismiss), true)
    );
    assert_eq!(
        handle_key(&mut state, &popup, select_key(Some(BrowserKey::Home), None, 0)),
        (None, true)
    );
    assert_eq!(state.as_ref().expect("open").highlight, 1);
    assert_eq!(
        handle_key(&mut state, &popup, select_key(Some(BrowserKey::End), None, 0)),
        (None, true)
    );
    assert_eq!(state.as_ref().expect("open").highlight, 3);
    assert_eq!(
        handle_key(&mut state, &popup, select_key(Some(BrowserKey::Tab), None, 0)),
        (Some(SelectCommand::Choose { index: 3 }), false)
    );
    let mut down = select_key(Some(BrowserKey::ArrowDown), None, 0);
    down.stepped = 1;
    assert_eq!(handle_key(&mut state, &popup, down), (None, true));
    assert_eq!(state.as_ref().expect("open").highlight, 1);
    assert_eq!(
        handle_key(&mut state, &popup, select_key(Some(BrowserKey::Char('z')), Some('Z'), 5_000)),
        (None, true)
    );
    assert_eq!(state.as_ref().expect("open").highlight, 3);
    // Letters of other scripts count, marks do not.
    assert_eq!(
        handle_key(&mut state, &popup, select_key(None, Some('Ä'), 6_001)),
        (None, true)
    );
    assert_eq!(state.as_ref().expect("open").highlight, 1);
    assert_eq!(state.as_ref().expect("open").typeahead, "Ä");
    assert_eq!(handle_key(&mut state, &popup, select_key(None, Some('%'), 6_100)), (None, false));
    assert_eq!(
        handle_classified_key(&mut state, &popup, select_key(None, Some(' '), 6_200), false),
        (None, true)
    );
    assert_eq!(state.as_ref().expect("open").typeahead, "Ä ");
    assert_eq!(
        handle_key(&mut state, &popup, select_key(Some(BrowserKey::Escape), None, 0)),
        (Some(SelectCommand::Dismiss), true)
    );
    let mut release = select_key(Some(BrowserKey::Escape), None, 0);
    release.pressed = false;
    assert_eq!(handle_key(&mut state, &popup, release), (None, false));
}

#[test]
fn menus_have_headings_where_groups_start() {
    let mut popup = popup_at(0, options(4));
    popup.options[1].group = Some("a".to_string());
    popup.options[2].group = Some("a".to_string());
    popup.options[3].group = Some("b".to_string());
    assert_eq!(
        popup.lines(),
        vec![
            MenuLine::Choice { row: 0 },
            MenuLine::Group { row: 1 },
            MenuLine::Choice { row: 1 },
            MenuLine::Choice { row: 2 },
            MenuLine::Group { row: 3 },
            MenuLine::Choice { row: 3 },
        ]
    );
    popup.options[2].disabled = true;
    assert_eq!(popup.clicked(1), Some(SelectCommand::Choose { index: 1 }));
    assert_eq!(popup.clicked(2), None);
    let mut state = None;
    sync_ui_state(&mut state, Some(&popup));
    let open = state.as_mut().expect("open");
    assert_eq!(open.take_scroll(4), Some(0));
    assert_eq!(open.take_scroll(4), None);
}

#[test]
fn navigation_widget_info_names_glyph_only_controls() {
    for action in [NavAction::Back, NavAction::Forward, NavAction::Reload] {
        let info = nav_widget_info(action.label(), true);
        assert!(info.enabled);
        assert_eq!(info.label, action.label());
        assert_ne!(action.glyph(), action.label());
    }
    assert_eq!(NavAction::Back.label(), "Back");
    assert_eq!(NavAction::Forward.label(), "Forward");
    assert_eq!(NavAction::Reload.label(), "Reload");
    assert!(!nav_widget_info("Back", false).enabled);
    assert_eq!(nav_hover_text("Back"), "Back (browser)");
}

#[test]
fn the_strip_names_owners_and_keeps_the_address_wide() {
    assert_eq!(
        ownership_chip_label(true, Some("codex")),
        Some(("waiting".to_string(), ChipTone::Waiting))
    );
    assert_eq!(
        ownership_chip_label(false, Some("codex")),
        Some(("agent: codex".to_string(), ChipTone::Agent))
    );
    assert_eq!(ownership_chip_label(false, None), None);
    assert_eq!(chrome_widths(500_000, None), (0, None));
    assert_eq!(chrome_widths(500_000, Some(90_000)), (90_000, Some(402_000)));
    assert_eq!(chrome_widths(200_000, Some(90_000)), (72_000, Some(120_000)));
    assert_eq!(chrome_widths(100_000, Some(90_000)), (0, Some(120_000)));
    assert_eq!(backend_text("Safari", true), "Safari + BiDi");
    assert_eq!(backend_text("Firefox", false), "Firefox");
    assert_eq!(picked_backend(BackendKind::ChromiumCdp, BackendKind::ChromiumCdp), None);
    assert_eq!(
        picked_backend(BackendKind::ChromiumCdp, BackendKind::SafariWebDriver),
        Some(BackendKind::SafariWebDriver)
    );
    assert_eq!(handoff_button(true, false), (true, "Done — hand back to agent"));
    assert_eq!(handoff_button(true, true), (false, "Handing back…"));
    assert_eq!(handoff_banner_text("captcha"), "🖐 Agent paused: captcha");
    assert_eq!(handoff_error_text("gone"), "Could not hand back: gone");
}

#[test]
fn the_address_is_submitted_trimmed_and_only_when_it_leads_elsewhere() {
    let mut buffer = "old".to_string();
    sync_url_buffer(&mut buffer, true, "new");
    assert_eq!(buffer, "old");
    sync_url_buffer(&mut buffer, false, "new");
    assert_eq!(buffer, "new");
    let go = url_submission("  https://a.test ", true, true, false, "https://b.test");
    assert!(go.submitted && go.enter_pending);
    assert_eq!(go.navigate.as_deref(), Some("https://a.test"));
    let same = url_submission("https://b.test", true, true, true, "https://b.test");
    assert!(same.submitted && !same.enter_pending && same.navigate.is_none());
    assert!(url_submission("   ", true, true, true, "x").navigate.is_none());
    assert!(!url_submission("https://a.test", true, false, false, "x").submitted);
}

fn listing() -> DirectoryListing {
    DirectoryListing {
        entries: vec![
            DirectoryEntry { path: "/home/docs".to_string(), directory: true },
            DirectoryEntry { path: "/home/a.txt".to_string(), directory: false },
            DirectoryEntry { path: "/home/b.txt".to_string(), directory: false },
        ],
        truncated: false,
    }
}

fn picker_frame() -> PickerFrame {
    PickerFrame {
        loaded: None,
        parent: Some("/".to_string()),
        up: false,
        go: false,
        entry: None,
        cancel: false,
        open: false,
    }
}

fn entry(i: usize) -> PickerFrame {
    PickerFrame { entry: Some(i), ..picker_frame() }
}

#[test]
fn a_picker_toggles_files_enters_directories_and_answers() {
    let mut picker = FilePicker::new(7, "/home");
    let (answer, moves) = picker.content(true, PickerFrame { loaded: Some(Ok(listing())), ..picker_frame() });
    assert!(answer.is_none() && !moves && !picker.loading);
    let _ = picker.content(true, entry(1));
    let _ = picker.content(true, entry(2));
    assert_eq!(picker.selected, vec!["/home/a.txt", "/home/b.txt"]);
    let _ = picker.content(true, entry(1));
    assert_eq!(picker.selected, vec!["/home/b.txt"]);
    let (answer, _) = picker.content(true, PickerFrame { open: true, ..picker_frame() });
    assert!(matches!(answer, Some(FileChooserAnswer::Files(files)) if files == vec!["/home/b.txt"]));
    let _ = picker.content(false, entry(1));
    assert_eq!(picker.selected, vec!["/home/a.txt"]);
    let (_, moves) = picker.content(true, entry(0));
    assert!(moves && picker.selected.is_empty() && picker.loading);
    assert_eq!(picker.directory, "/home/docs");
    let (_, moves) = picker.content(true, PickerFrame { up: true, ..picker_frame() });
    assert!(moves);
    assert_eq!(picker.directory, "/");
    picker.path = "  /srv ".to_string();
    let _ = picker.content(true, PickerFrame { go: true, ..picker_frame() });
    assert_eq!(picker.directory, "/srv");
    let _ = picker.content(
        true,
        PickerFrame { loaded: Some(Err("denied".to_string())), ..picker_frame() },
    );
    assert_eq!(picker.error.as_deref(), Some("denied"));
    let (answer, _) = picker.content(true, PickerFrame { open: true, ..picker_frame() });
    assert!(answer.is_none());
    let (answer, _) = picker.content(true, PickerFrame { cancel: true, ..picker_frame() });
    assert!(matches!(answer, Some(FileChooserAnswer::Cancel)));
}

#[test]
fn a_picker_belongs_to_its_request() {
    let mut state = None;
    assert!(attend(&mut state, Some(1), "/home", None));
    assert!(!attend(&mut state, Some(1), "/home", None));
    state.as_mut().expect("open").submitted = true;
    assert!(!attend(&mut state, Some(1), "/home", Some("too large".to_string())));
    let picker = state.as_ref().expect("open");
    assert!(!picker.submitted);
    assert_eq!(picker.error.as_deref(), Some("too large"));
    assert!(attend(&mut state, Some(2), "/home", None));
    assert!(!attend(&mut state, None, "/home", None));
    assert!(state.is_none());

    let (answer, escaped) = settle(false, None, true, true);
    assert!(matches!(answer, Some(FileChooserAnswer::Cancel)) && escaped);
    let (answer, escaped) = settle(true, Some(FileChooserAnswer::Cancel), true, true);
    assert!(answer.is_none() && !escaped);
    assert_eq!(heading(true), "Choose files");
    assert_eq!(heading(false), "Choose a file");
    assert_eq!(origin_label("a.test"), "Upload to a.test");
    assert_eq!(accept_label(""), None);
    assert_eq!(accept_label("image/*").as_deref(), Some("Accepted types: image/*"));
    assert_eq!(accept_label(&"x".repeat(200)).map(|label| label.len()), Some(16 + 160));
    assert_eq!(entry_label("docs", true), "docs/");
    assert_eq!(selected_label(12), "12 selected");
}

#[test]
fn a_recording_shows_its_phase_and_its_latest_actions() {
    assert_eq!(TeachPhase::of(true, true).status(), "Teach stopped");
    assert_eq!(TeachPhase::of(true, false).status(), "Teach paused");
    assert_eq!(TeachPhase::of(false, false).status(), "Teaching");
    assert_eq!(TeachPhase::Paused.pause_label(), Some("Resume"));
    assert_eq!(TeachPhase::Recording.pause_label(), Some("Pause"));
    assert_eq!(TeachPhase::Stopped.pause_label(), None);
    assert!(!TeachPhase::Stopped.name_editable(true));
    let all = TeachClicks { pause: true, stop: true, discard: true };
    assert_eq!(teach_commands(TeachPhase::Stopped, all), vec![TeachCommand::Discard]);
    assert_eq!(
        teach_commands(TeachPhase::Paused, all),
        vec![TeachCommand::Resume, TeachCommand::Stop, TeachCommand::Discard]
    );
    assert_eq!(preview_summary(&Vec::new()), None);
    let previews: Vec<String> = ["a", "b", "c", "d", "e"].iter().map(|s| s.to_string()).collect();
    assert_eq!(preview_summary(&previews).as_deref(), Some("b · c · d · e"));
}

#[test]
fn a_reviewed_step_offers_its_unique_identities() {
    let row = ReviewRow {
        action: "click".to_string(),
        target: "Save".to_string(),
        mutation: "write".to_string(),
        resume: "retry".to_string(),
        mcp: "tool".to_string(),
        selected: Some(1),
        candidates: vec![
            ReviewCandidate { label: "css".to_string(), unique: false },
            ReviewCandidate { label: "role".to_string(), unique: true },
        ],
    };
    assert_eq!(row.text(), "click Save · write · retry · tool");
    assert!(row.offers_identities());
    assert_eq!(row.identity_label(), "role");
    assert_eq!(row.clicked(0), None);
    assert_eq!(row.clicked(1), Some(1));
    let bare = ReviewRow { selected: Some(9), candidates: Vec::new(), ..row };
    assert!(!bare.offers_identities());
    assert_eq!(bare.identity_label(), "select identity");
    assert!(can_save(true, true) && !can_save(true, false));
    assert_eq!(outcome_label("Done"), "Outcome: Done");
}

#[test]
fn a_driver_gives_the_keyboard_back_at_once_or_after_a_while() {
    let mut state = BrowserUiState::new();
    assert_eq!(state.restore_host_focus(None, 0), HostFocus::Idle);
    assert_eq!(state.restore_host_focus(Some(true), 0), HostFocus::Take);
    assert_eq!(state.restore_host_focus(Some(false), 1_000), HostFocus::Wait);
    assert_eq!(state.restore_host_focus(None, 12_999), HostFocus::Wait);
    assert_eq!(state.restore_host_focus(None, 13_000), HostFocus::Take);
    assert_eq!(state.restore_host_focus(None, 20_000), HostFocus::Idle);
}

#[test]
fn a_relaunched_browser_gets_the_layout_at_once_and_holds_nothing() {
    let no_pointer = Vec::new();
    let no_keys: Vec<PageEvent> = Vec::new();
    let mut frame = panel_frame(body_input(800, 600, None), &no_pointer, &no_keys);
    let mut state = dragging();
    state.synchronize_backend(BackendKind::ChromiumCdp);
    let first = state.show(&frame);
    assert_eq!(first.viewport.expect("adjustable").send, Some(view(800, 600)));
    assert_eq!(first.ime, PageIme::Absent);
    let again = state.show(&frame);
    assert_eq!(again.viewport.expect("adjustable").send, None);

    state.pointer.left = dragging().pointer.left;
    frame.body.retry = true;
    let relaunched = state.show(&frame);
    assert!(relaunched.relaunch);
    assert_eq!(relaunched.viewport.expect("adjustable").send, Some(view(800, 600)));
    assert!(!state.pointer.has_pointer_capture());

    frame.body.retry = false;
    frame.body.frame = Some(PageFrame { seq: 1, width: 800, height: 600 });
    frame.body.response.clicked = true;
    let shown = state.show(&frame);
    assert!(shown.requests_focus);
    assert!(matches!(shown.ime, PageIme::Held { rect: Some(_) }));
    frame.interactive = false;
    state.pointer.left = dragging().pointer.left;
    let hidden = state.show(&frame);
    assert_eq!(hidden.input.pointer.len(), 1);
    assert!(hidden.input.keyboard.is_empty());
}

#[test]
fn an_open_menu_is_placed_over_the_picture_and_closed_by_a_zoom() {
    let no_pointer = Vec::new();
    let no_keys = Vec::new();
    let menu = NativeSelectPopup {
        css_path: "#fruit".into(),
        selected_index: 0,
        bounds: BrowserBounds { x: 100_000, y: 50_000, width: 200_000, height: 30_000 },
        options: Vec::new(),
    };
    let mut state = BrowserUiState::new();
    let picture = Some(PageFrame { seq: 1, width: 800, height: 600 });
    let mut frame = panel_frame(body_input(800, 600, picture), &no_pointer, &no_keys);
    assert_eq!(state.show(&frame).native_select_menu, None);
    frame.popup = Some(&menu);
    let shown = state.show(&frame);
    let rect = shown.body.image_rect.expect("a picture");
    assert_eq!(shown.native_select_menu, menu_layout(rect, 800, 600, &menu));
    assert_eq!(shown.native_select_menu.map(|menu| menu.left), Some(100_000));
    assert!(!shown.dismiss_select);
    frame.zoom_resolved = true;
    assert!(state.show(&frame).dismiss_select);
    assert!(state.select_popup_dismissed);
    frame.body.frame = None;
    assert_eq!(state.show(&frame).native_select_menu, None);
}

#[test]
fn a_composition_ends_with_the_keyboard() {
    let no_pointer = Vec::new();
    let no_keys = Vec::new();
    let composing = vec![PageEvent::ImePreedit("に".into())];
    let picture = Some(PageFrame { seq: 1, width: 800, height: 600 });
    let mut state = BrowserUiState::new();
    state.show(&panel_frame(body_input(800, 600, picture), &no_pointer, &composing));
    assert!(state.keys.ime_composing);
    state.show(&panel_frame(body_input(800, 600, picture), &no_pointer, &no_keys));
    assert!(state.keys.ime_composing);
    let mut elsewhere = panel_frame(body_input(800, 600, picture), &no_pointer, &no_keys);
    elsewhere.url_focused = true;
    state.show(&elsewhere);
    assert!(!state.keys.ime_composing);
}
