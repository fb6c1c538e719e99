//! A browser panel from frame to frame: who has the keyboard, what the page is
//! told, and what is forgotten with a session.
use vstd::prelude::*;

use super::body::{body_output, show_body, BodyInput, BodyOutput, TextureState};
use super::chrome::BackendKind;
use super::keyboard::{
    command_views, page_modifiers, replay, to_browser_modifiers, url_replay, BrowserCommand,
    CommandView, KeyState, KeyView, PageEvent,
};
use super::keys::BrowserModifiers;
use super::pointer::{
    frame_result, ClickThresholds, PointerCommand, PointerEvent, PointerFrame, PointerState,
};
use super::select_popup::{
    menu_height, menu_layout, menu_left, menu_top, menu_width, popup_ui_view, popup_view,
    sync_ui_state, synced, NativeSelectPopup, PopupUiView, PopupView, SelectMenuLayout,
    SelectPopupUi,
};
use super::viewport::{
    pointer_ready, pointer_viewport_state, FrameSize, PointerViewportState, Viewport,
    ViewportFrame, ViewportOutcome, ViewportSync,
};
use super::zoom::ZoomState;
use crate::geometry::{Pos, ScreenRect};
use crate::modifiers::Modifiers;

verus! {

/// How long Safari may keep the keyboard before the panel takes it back.
pub const SAFARI_HOST_FOCUS_RECOVERY_MS: u64 = 12_000;

#[derive(Clone, Copy, Debug, PartialEq, Eq, Structural)]
pub enum KeyboardTarget {
    Nobody,
    Url,
    Page,
}

#[derive(Clone, Copy, Debug, PartialEq, Eq, Structural)]
pub enum ShortcutOwner {
    App,
    Page,
}

/// The keys that the page keeps from the host's own navigation.
#[derive(Clone, Copy, Debug, PartialEq, Eq, Structural)]
pub struct EventFilter {
    pub tab: bool,
    pub horizontal_arrows: bool,
    pub vertical_arrows: bool,
    pub escape: bool,
}

pub fn page_focus_event_filter() -> (filter: EventFilter)
    ensures
        filter.tab && filter.horizontal_arrows && filter.vertical_arrows && !filter.escape,
{
    EventFilter { tab: true, horizontal_arrows: true, vertical_arrows: true, escape: false }
}

/// The page has the keyboard in a focused panel of a focused window, unless the
/// address bar or another widget has it.
pub fn page_keyboard_can_route(
    viewport_panel_focused: bool,
    url_focused: bool,
    other_widget_has_focus: bool,
) -> (yes: bool)
    ensures
        yes == (viewport_panel_focused && !url_focused && !other_widget_has_focus),
{
    viewport_panel_focused && !url_focused && !other_widget_has_focus
}

/// What the host does about a keyboard that another program took.
#[derive(Clone, Copy, Debug, PartialEq, Eq, Structural)]
pub enum HostFocus {
    Idle,
    /// The window takes the focus.
    Take,
    /// The time is not over: look again soon.
    Wait,
}

/// What a panel keeps from frame to frame.
pub struct BrowserUiState {
    /// The backend whose session everything below belongs to, but for the zoom.
    pub active_backend: Option<BackendKind>,
    pub texture: TextureState,
    pub sync: ViewportSync,
    pub pointer: PointerState,
    pub keys: KeyState,
    /// The address bar.
    pub url_buffer: String,
    pub fullscreen_active_last_frame: bool,
    pub host_focus_requested_at_ms: Option<u64>,
    pub select_popup: Option<SelectPopupUi>,
    pub select_popup_dismissed: bool,
    /// A preference of the panel, not of the session.
    pub zoom: ZoomState,
}

/// The same, as a value.
pub struct UiView {
    pub active_backend: Option<BackendKind>,
    pub texture: TextureState,
    pub sync: ViewportSync,
    pub pointer: PointerState,
    pub keys: KeyView,
    pub url_buffer: Seq<char>,
    pub fullscreen_active_last_frame: bool,
    pub host_focus_requested_at_ms: Option<u64>,
    pub select_popup: Option<PopupUiView>,
    pub select_popup_dismissed: bool,
    pub zoom: ZoomState,
}

impl View for BrowserUiState {
    type V = UiView;

    open spec fn view(&self) -> UiView {
        UiView {
            active_backend: self.active_backend,
            texture: self.texture,
            sync: self.sync,
            pointer: self.pointer,
            keys: self.keys@,
            url_buffer: self.url_buffer@,
            fullscreen_active_last_frame: self.fullscreen_active_last_frame,
            host_focus_requested_at_ms: self.host_focus_requested_at_ms,
            select_popup: popup_ui_view(self.select_popup),
            select_popup_dismissed: self.select_popup_dismissed,
            zoom: self.zoom,
        }
    }
}

/// A session that has not begun, in a panel with a zoom.
pub open spec fn fresh_view(backend: Option<BackendKind>, zoom: ZoomState) -> UiView {
    UiView {
        active_backend: backend,
        texture: TextureState { size: None, seq: 0 },
        sync: ViewportSync {
            last_viewport: Viewport { width: 0, height: 0 },
            retry_at_ms: 0,
            retry_count: 0,
        },
        pointer: PointerState {
            left: None,
            middle: None,
            right: None,
            last_click: None,
            last_mouse: None,
            modifiers: BrowserModifiers { alt: false, ctrl: false, meta: false, shift: false },
        },
        keys: KeyView {
            pressed: Seq::empty(),
            suppressed: Seq::empty(),
            clipboard: Seq::empty(),
            url_submit_enter_pending: false,
            ime_composing: false,
        },
        url_buffer: Seq::empty(),
        fullscreen_active_last_frame: false,
        host_focus_requested_at_ms: None,
        select_popup: None,
        select_popup_dismissed: false,
        zoom,
    }
}

impl UiView {
    pub open spec fn with_backend(self, backend: BackendKind) -> UiView {
        if self.active_backend == Some(backend) {
            self
        } else {
            fresh_view(Some(backend), self.zoom)
        }
    }

    /// A request that is settled at once takes the focus now; one that is not
    /// does so when its time is over.
    pub open spec fn host_focus(self, request: Option<bool>, now_ms: u64) -> (UiView, HostFocus) {
        let since = if request == Some(false) {
            Some(now_ms)
        } else {
            self.host_focus_requested_at_ms
        };
        if request == Some(true) {
            (UiView { host_focus_requested_at_ms: None, ..self }, HostFocus::Take)
        } else {
            match since {
                None => (self, HostFocus::Idle),
                Some(at) => if now_ms - at >= SAFARI_HOST_FOCUS_RECOVERY_MS {
                    (UiView { host_focus_requested_at_ms: None, ..self }, HostFocus::Take)
                } else {
                    (UiView { host_focus_requested_at_ms: since, ..self }, HostFocus::Wait)
                },
            }
        }
    }
}

fn fresh(backend: Option<BackendKind>, zoom: ZoomState) -> (state: BrowserUiState)
    ensures
        state@ == fresh_view(backend, zoom),
{
    let url_buffer = String::new();
    assert(url_buffer@ =~= Seq::<char>::empty());
    BrowserUiState {
        active_backend: backend,
        texture: TextureState { size: None, seq: 0 },
        sync: ViewportSync::new(),
        pointer: PointerState::new(),
        keys: KeyState::new(),
        url_buffer,
        fullscreen_active_last_frame: false,
        host_focus_requested_at_ms: None,
        select_popup: None,
        select_popup_dismissed: false,
        zoom,
    }
}

/// What the keyboard and the pointer are routed by.
pub struct InputFrame<'a> {
    pub interactive: bool,
    pub keyboard_target: KeyboardTarget,
    pub pointer_viewport: PointerViewportState,
    pub exit_fullscreen_shortcut_owner: ShortcutOwner,
    /// The picture's place and size, where it is shown.
    pub pointer_frame: Option<PointerFrame>,
    pub pointer_events: &'a Vec<PointerEvent>,
    pub page_events: &'a Vec<PageEvent>,
    /// The modifiers at the end of the frame.
    pub modifiers: Modifiers,
    pub mac: bool,
}

/// What the page is told, in this order.
pub struct InputOutcome {
    pub released: Vec<BrowserCommand>,
    pub pointer: Vec<PointerCommand>,
    pub keyboard: Vec<BrowserCommand>,
}

/// Routing as a value: the keyboard, the pointer, and the three parts of what
/// is sent.
pub struct Routed {
    pub keys: KeyView,
    pub pointer: PointerState,
    pub released: Seq<CommandView>,
    pub moved: Seq<PointerCommand>,
    pub keyboard: Seq<CommandView>,
}

/// Losing the keyboard lets every key go; losing it altogether waits for no
/// release either.
pub open spec fn keys_before(
    keys: KeyView,
    interactive: bool,
    target: KeyboardTarget,
    modifiers: Modifiers,
) -> (KeyView, Seq<CommandView>) {
    let (held, sent) = if interactive && target == KeyboardTarget::Page {
        (keys, Seq::empty())
    } else {
        let (freed, sent) = keys.released(page_modifiers(modifiers));
        (KeyView { ime_composing: false, ..freed }, sent)
    };
    if !interactive || target == KeyboardTarget::Nobody {
        (
            KeyView {
                suppressed: Seq::empty(),
                clipboard: Seq::empty(),
                url_submit_enter_pending: false,
                ..held
            },
            sent,
        )
    } else {
        (held, sent)
    }
}

/// A panel in the background has no buttons down; a picture that is not ready
/// leaves the pointer alone.
pub open spec fn pointer_after(
    pointer: PointerState,
    interactive: bool,
    ready: PointerViewportState,
    frame: Option<PointerFrame>,
    events: Seq<PointerEvent>,
    modifiers: Modifiers,
) -> (PointerState, Seq<PointerCommand>) {
    if !interactive {
        let (x, y) = pointer.cancel_place(frame);
        let (after, sent) = pointer.cancelled(x, y);
        (PointerState { modifiers: page_modifiers(modifiers), ..after }, sent)
    } else if ready == PointerViewportState::Ready && frame is Some {
        frame_result(pointer, frame->0, events)
    } else {
        (PointerState { modifiers: page_modifiers(modifiers), ..pointer }, Seq::empty())
    }
}

pub open spec fn keys_after(
    keys: KeyView,
    interactive: bool,
    target: KeyboardTarget,
    owner: ShortcutOwner,
    events: Seq<PageEvent>,
    modifiers: Modifiers,
    mac: bool,
) -> (KeyView, Seq<CommandView>) {
    if !interactive {
        (keys, Seq::empty())
    } else {
        match target {
            KeyboardTarget::Url => url_replay(keys, events, events.len() as int, mac),
            KeyboardTarget::Page => {
                let (after, sent) = replay(
                    keys,
                    events,
                    events.len() as int,
                    owner == ShortcutOwner::App,
                    modifiers,
                    mac,
                );
                (after.keys, sent)
            },
            KeyboardTarget::Nobody => (keys, Seq::empty()),
        }
    }
}

pub open spec fn routed(keys: KeyView, pointer: PointerState, frame: InputFrame) -> Routed {
    let (held, released) = keys_before(
        keys,
        frame.interactive,
        frame.keyboard_target,
        frame.modifiers,
    );
    let (pointer, moved) = pointer_after(
        pointer,
        frame.interactive,
        frame.pointer_viewport,
        frame.pointer_frame,
        frame.pointer_events@,
        frame.modifiers,
    );
    let (keys, keyboard) = keys_after(
        held,
        frame.interactive,
        frame.keyboard_target,
        frame.exit_fullscreen_shortcut_owner,
        frame.page_events@,
        frame.modifiers,
        frame.mac,
    );
    Routed { keys, pointer, released, moved, keyboard }
}

/// Routes a frame's input to the page.
pub fn handle(keys: &mut KeyState, pointer: &mut PointerState, frame: &InputFrame) -> (outcome:
    InputOutcome)
    requires
        frame.pointer_frame matches Some(f) ==> f.valid(),
    ensures
        ({
            let r = routed(old(keys)@, *old(pointer), *frame);
            &&& final(keys)@ == r.keys
            &&& *final(pointer) == r.pointer
            &&& command_views(outcome.released@) == r.released
            &&& outcome.pointer@ == r.moved
            &&& command_views(outcome.keyboard@) == r.keyboard
        }),
{
    let ghost r = routed(keys@, *pointer, *frame);
    let mut released: Vec<BrowserCommand> = Vec::new();
    let mut keyboard: Vec<BrowserCommand> = Vec::new();
    assert(command_views(released@) =~= Seq::<CommandView>::empty());
    assert(command_views(keyboard@) =~= Seq::<CommandView>::empty());
    let page_modifiers_now = to_browser_modifiers(frame.modifiers);
    let page_keyboard_active = frame.interactive && frame.keyboard_target == KeyboardTarget::Page;
    if !page_keyboard_active {
        keys.release_pressed_keys(page_modifiers_now, &mut released);
        keys.ime_composing = false;
        assert(command_views(released@) =~= r.released);
    }
    if !frame.interactive || frame.keyboard_target == KeyboardTarget::Nobody {
        keys.clear_focus_lost_suppressions();
    }
    let moved = if !frame.interactive {
        let sent = pointer.cancel_pointer_capture(frame.pointer_frame);
        pointer.modifiers = page_modifiers_now;
        sent
    } else {
        let ready = frame.pointer_viewport == PointerViewportState::Ready;
        match frame.pointer_frame {
            Some(f) => if ready {
                pointer.events(frame.pointer_events, &f)
            } else {
                pointer.modifiers = page_modifiers_now;
                Vec::new()
            },
            None => {
                pointer.modifiers = page_modifiers_now;
                Vec::new()
            },
        }
    };
    assert(moved@ =~= r.moved);
    if frame.interactive {
        match frame.keyboard_target {
            KeyboardTarget::Url => {
                keys.browser_shortcut_events(frame.page_events, frame.mac, &mut keyboard);
            },
            KeyboardTarget::Page => {
                let app = frame.exit_fullscreen_shortcut_owner == ShortcutOwner::App;
                keys.events(frame.page_events, app, frame.modifiers, frame.mac, &mut keyboard);
            },
            KeyboardTarget::Nobody => {},
        }
    }
    assert(command_views(keyboard@) =~= r.keyboard);
    InputOutcome { released, pointer: moved, keyboard }
}

/// A page that has not the keyboard is told of no key but those it lets go, and
/// a panel in the background holds neither key nor button.
pub proof fn law_background_panels_hold_nothing(
    keys: KeyView,
    pointer: PointerState,
    frame: InputFrame,
)
    requires
        !frame.interactive,
    ensures
        ({
            let r = routed(keys, pointer, frame);
            &&& r.keys.pressed.len() == 0
            &&& r.keyboard.len() == 0
            &&& !r.pointer.captures()
        }),
{
}

/// What the host knows of a frame, beside the input.
pub struct BrowserFrame<'a> {
    /// The backend after the strip above the page, which can switch it. Before
    /// the strip a frame begins with `synchronize_backend`.
    pub backend: BackendKind,
    pub body: BodyInput,
    /// A menu that the page has open.
    pub popup: Option<&'a NativeSelectPopup>,
    /// A zoom gesture has found that it is not the menu's.
    pub zoom_resolved: bool,
    /// A zoom gesture that is the panel's, as a factor in millionths.
    pub zoom_gesture: Option<u32>,
    pub window_focused: bool,
    pub panel_focused: bool,
    pub url_focused: bool,
    pub other_widget_has_focus: bool,
    pub chrome_clicked: bool,
    pub interactive: bool,
    pub fullscreen_active: bool,
    /// The page's layout has a size of its own.
    pub fixed_viewport: bool,
    pub explicit_viewport: Option<Viewport>,
    /// The backend takes a viewport command.
    pub accepts_viewport: bool,
    pub now_ms: u64,
    pub thresholds: ClickThresholds,
    pub pointer: Option<Pos>,
    pub frame_has_pointer_button: bool,
    pub pointer_events: &'a Vec<PointerEvent>,
    pub page_events: &'a Vec<PageEvent>,
    pub modifiers: Modifiers,
    pub mac: bool,
}

/// What the host does with the page's input method.
#[derive(Clone, Copy, Debug, PartialEq, Eq, Structural)]
pub enum PageIme {
    /// The body has no place for the keyboard.
    Absent,
    /// The page has the keyboard; its input method is at the picture.
    Held { rect: Option<ScreenRect> },
    /// The keyboard is somebody else's.
    Cleared,
}

pub struct BrowserOutcome {
    pub body: BodyOutput,
    /// Where the page's menu is painted, over the picture.
    pub native_select_menu: Option<SelectMenuLayout>,
    pub relaunch: bool,
    /// What lets the buttons go before a new layout.
    pub cancelled: Vec<PointerCommand>,
    pub viewport: Option<ViewportOutcome>,
    pub input: InputOutcome,
    pub ime: PageIme,
    /// The page's menu closes: the page is zoomed under it.
    pub dismiss_select: bool,
    pub zoomed: bool,
    /// The panel was clicked and asks for the focus.
    pub requests_focus: bool,
}

pub open spec fn keyboard_target(
    panel_focused: bool,
    url_focused: bool,
    window_focused: bool,
    other_widget_has_focus: bool,
) -> KeyboardTarget {
    if panel_focused && url_focused {
        KeyboardTarget::Url
    } else if window_focused && panel_focused && !url_focused && !other_widget_has_focus {
        KeyboardTarget::Page
    } else {
        KeyboardTarget::Nobody
    }
}

/// A picture with an extent can be pointed at.
pub open spec fn pointable(
    rect: Option<ScreenRect>,
    frame: Option<FrameSize>,
    pointer_target: bool,
    f: BrowserFrame,
) -> Option<PointerFrame> {
    match (rect, frame) {
        (Some(rect), Some(frame)) => if rect.solid() {
            Some(
                PointerFrame {
                    rect,
                    frame_width: (frame.width * 1000) as u32,
                    frame_height: (frame.height * 1000) as u32,
                    pointer_target,
                    frame_has_pointer_button: f.frame_has_pointer_button,
                    pointer: f.pointer,
                    time_ms: f.now_ms,
                    thresholds: f.thresholds,
                    final_modifiers: f.modifiers,
                },
            )
        } else {
            None
        },
        _ => None,
    }
}

/// A menu shows over a picture only, and one that closed can be dismissed again.
pub open spec fn popup_synced(view: UiView, painted: bool, popup: Option<PopupView>) -> UiView {
    if painted {
        UiView {
            select_popup: synced(view.select_popup, popup),
            select_popup_dismissed: view.select_popup_dismissed && popup is Some,
            ..view
        }
    } else {
        view
    }
}

/// The menu is the page's: over its picture, while the page has one open.
pub open spec fn menu_over(
    menu: Option<SelectMenuLayout>,
    body: BodyOutput,
    popup: Option<PopupView>,
) -> bool {
    match (body.image_rect, body.frame_size, popup) {
        (Some(image), Some(frame), Some(popup)) => if frame.width == 0 || frame.height == 0 {
            menu is None
        } else {
            let rows = popup.options.len() as int;
            &&& menu is Some
            &&& menu->0.left == menu_left(image, frame.width, popup.bounds)
            &&& menu->0.top == menu_top(image, frame.height, popup.bounds, rows)
            &&& menu->0.width == menu_width(image, frame.width, popup.bounds)
            &&& menu->0.height == menu_height(image, rows)
        },
        _ => menu is None,
    }
}

/// A zoom of the page closes the menu over it.
pub open spec fn zoom_dismisses(body: BodyOutput, f: BrowserFrame) -> bool {
    f.interactive && f.zoom_resolved && body.image_rect is Some && f.popup is Some
}

/// The panel after its body was laid out and zoomed.
pub open spec fn laid(view: UiView, f: BrowserFrame) -> (UiView, BodyOutput) {
    let begun = view.with_backend(f.backend);
    let (body, zoom, texture) = body_output(f.body, begun.zoom, begun.texture);
    let shown = popup_synced(
        UiView { zoom, texture, ..begun },
        body.image_rect is Some,
        popup_view(f.popup),
    );
    (
        UiView {
            select_popup_dismissed: shown.select_popup_dismissed || zoom_dismisses(body, f),
            zoom: match f.zoom_gesture {
                Some(delta) => if f.interactive && !f.fixed_viewport && f.explicit_viewport is None {
                    ZoomState { zoom: zoom.gestured(delta), ..zoom }
                } else {
                    zoom
                },
                None => zoom,
            },
            ..shown
        },
        body,
    )
}

/// The panel once a retry has begun anew.
pub open spec fn retried(view: UiView, body: BodyOutput) -> UiView {
    if body.retry_clicked {
        fresh_view(None, view.zoom)
    } else {
        view
    }
}

pub open spec fn viewport_frame(body: BodyOutput, f: BrowserFrame) -> ViewportFrame {
    ViewportFrame {
        frame: body.frame_size,
        viewport: body.viewport_size,
        host_viewport: body.host_viewport_size,
        explicit: f.explicit_viewport,
        now_ms: f.now_ms,
        accepts: f.accepts_viewport,
    }
}

/// The layout after this frame, and what lets the buttons go for it.
pub open spec fn converged(view: UiView, body: BodyOutput, f: BrowserFrame) -> (
    UiView,
    Option<ViewportOutcome>,
    Seq<PointerCommand>,
) {
    if f.fixed_viewport {
        (view, None, Seq::empty())
    } else {
        let (sync, outcome) = view.sync.step(viewport_frame(body, f));
        if outcome.cancels_pointer {
            let (x, y) = view.pointer.cancel_place(
                pointable(body.image_rect, body.frame_size, body.pointer_target, f),
            );
            let (pointer, sent) = view.pointer.cancelled(x, y);
            (UiView { sync, pointer, ..view }, Some(outcome), sent)
        } else {
            (UiView { sync, ..view }, Some(outcome), Seq::empty())
        }
    }
}

pub open spec fn input_frame<'a>(view: UiView, body: BodyOutput, f: BrowserFrame<'a>) -> InputFrame<
    'a,
> {
    InputFrame {
        interactive: f.interactive,
        keyboard_target: keyboard_target(
            f.panel_focused,
            f.url_focused,
            f.window_focused,
            f.other_widget_has_focus,
        ),
        pointer_viewport: pointer_ready(
            f.fixed_viewport,
            body.frame_size,
            match f.explicit_viewport {
                Some(v) => Some(v),
                None => body.viewport_size,
            },
            match f.explicit_viewport {
                Some(v) => v,
                None => view.sync.last_viewport,
            },
        ),
        exit_fullscreen_shortcut_owner: if f.fullscreen_active || view.fullscreen_active_last_frame {
            ShortcutOwner::App
        } else {
            ShortcutOwner::Page
        },
        pointer_frame: pointable(body.image_rect, body.frame_size, body.pointer_target, f),
        pointer_events: f.pointer_events,
        page_events: f.page_events,
        modifiers: f.modifiers,
        mac: f.mac,
    }
}

pub open spec fn ime_of(body: BodyOutput, target: KeyboardTarget) -> PageIme {
    if !body.keyboard_focus {
        PageIme::Absent
    } else if target == KeyboardTarget::Page {
        PageIme::Held { rect: body.image_rect }
    } else {
        PageIme::Cleared
    }
}

/// The panel after the frame.
pub open spec fn shown(view: UiView, f: BrowserFrame) -> UiView {
    let (first, body) = laid(view, f);
    let (mid, outcome, cancelled) = converged(retried(first, body), body, f);
    let r = routed(mid.keys, mid.pointer, input_frame(mid, body, f));
    UiView {
        keys: r.keys,
        pointer: r.pointer,
        fullscreen_active_last_frame: f.fullscreen_active,
        ..mid
    }
}

impl BrowserUiState {
    pub fn new() -> (state: Self)
        ensures
            state@ == fresh_view(None, state.zoom),
            state.zoom.zoom.micros == super::zoom::ZOOM_ONE,
            state.zoom.effective_zoom.micros == super::zoom::ZOOM_ONE,
    {
        fresh(None, ZoomState::new())
    }

    /// A new appearance: everything is made anew but the panel's zoom.
    pub fn invalidate_theme(&mut self)
        ensures
            final(self)@ == fresh_view(None, old(self).zoom),
    {
        *self = fresh(None, self.zoom);
    }

    /// Another backend has a session of its own. Says whether one took over.
    pub fn synchronize_backend(&mut self, backend: BackendKind) -> (reset: bool)
        ensures
            final(self)@ == old(self)@.with_backend(backend),
            reset == (old(self).active_backend != Some(backend)),
    {
        if let Some(active) = self.active_backend {
            if active == backend {
                return false;
            }
        }
        *self = fresh(Some(backend), self.zoom);
        true
    }

    /// A driver that took the keyboard gives it back: at once where it says so,
    /// else after a while.
    pub fn restore_host_focus(&mut self, request: Option<bool>, now_ms: u64) -> (focus: HostFocus)
        ensures
            (final(self)@, focus) == old(self)@.host_focus(request, now_ms),
    {
        if let Some(settled) = request {
            if settled {
                self.host_focus_requested_at_ms = None;
                return HostFocus::Take;
            }
            self.host_focus_requested_at_ms = Some(now_ms);
        }
        match self.host_focus_requested_at_ms {
            None => HostFocus::Idle,
            Some(at) => {
                if now_ms >= at && now_ms - at >= SAFARI_HOST_FOCUS_RECOVERY_MS {
                    self.host_focus_requested_at_ms = None;
                    HostFocus::Take
                } else {
                    HostFocus::Wait
                }
            },
        }
    }

    fn lay_out(&mut self, f: &BrowserFrame) -> (out: (BodyOutput, bool, bool))
        requires
            f.body.available.min_x <= f.body.available.max_x,
            f.body.available.min_y <= f.body.available.max_y,
            f.body.frame matches Some(p) ==> p.width > 0 && p.height > 0,
        ensures
            (final(self)@, out.0) == laid(old(self)@, *f),
            out.0.image_rect matches Some(rect) ==> rect.min_x <= rect.max_x && rect.min_y
                <= rect.max_y,
            out.1 == (final(self).zoom.zoom != old(self).zoom.zoom),
            out.2 == zoom_dismisses(out.0, *f),
    {
        self.synchronize_backend(f.backend);
        let body = show_body(f.body, &mut self.zoom, &mut self.texture);
        if body.image_rect.is_some() {
            if f.popup.is_none() {
                self.select_popup_dismissed = false;
            }
            sync_ui_state(&mut self.select_popup, f.popup);
        }
        let dismisses = f.interactive && f.zoom_resolved && body.image_rect.is_some()
            && f.popup.is_some();
        if dismisses {
            self.select_popup_dismissed = true;
        }
        let supports = f.interactive && !f.fixed_viewport && f.explicit_viewport.is_none();
        let zoomed = self.zoom.apply_zoom_gesture(supports, f.zoom_gesture);
        (body, zoomed, dismisses)
    }

    fn converge(&mut self, body: &BodyOutput, f: &BrowserFrame) -> (out: (
        Option<ViewportOutcome>,
        Vec<PointerCommand>,
    ))
        ensures
            (final(self)@, out.0, out.1@) == converged(old(self)@, *body, *f),
            final(self).zoom == old(self).zoom,
    {
        let mut cancelled: Vec<PointerCommand> = Vec::new();
        assert(cancelled@ =~= Seq::<PointerCommand>::empty());
        if f.fixed_viewport {
            return (None, cancelled);
        }
        let outcome = self.sync.synchronize_viewport(
            ViewportFrame {
                frame: body.frame_size,
                viewport: body.viewport_size,
                host_viewport: body.host_viewport_size,
                explicit: f.explicit_viewport,
                now_ms: f.now_ms,
                accepts: f.accepts_viewport,
            },
        );
        if outcome.cancels_pointer {
            cancelled = self.pointer.cancel_pointer_capture(pointer_frame_of(body, f));
        }
        (Some(outcome), cancelled)
    }

    fn route(&mut self, body: &BodyOutput, f: &BrowserFrame) -> (out: (InputOutcome, KeyboardTarget))
        ensures
            ({
                let input = input_frame(old(self)@, *body, *f);
                let r = routed(old(self)@.keys, old(self)@.pointer, input);
                &&& final(self)@ == (UiView {
                    keys: r.keys,
                    pointer: r.pointer,
                    fullscreen_active_last_frame: f.fullscreen_active,
                    ..old(self)@
                })
                &&& command_views(out.0.released@) == r.released
                &&& out.0.pointer@ == r.moved
                &&& command_views(out.0.keyboard@) == r.keyboard
                &&& out.1 == input.keyboard_target
            }),
            final(self).zoom == old(self).zoom,
    {
        let page_active = page_keyboard_can_route(
            f.window_focused && f.panel_focused,
            f.url_focused,
            f.other_widget_has_focus,
        );
        let target = if f.panel_focused && f.url_focused {
            KeyboardTarget::Url
        } else if page_active {
            KeyboardTarget::Page
        } else {
            KeyboardTarget::Nobody
        };
        let desired = match f.explicit_viewport {
            Some(v) => Some(v),
            None => body.viewport_size,
        };
        let sent = match f.explicit_viewport {
            Some(v) => v,
            None => self.sync.last_viewport,
        };
        let input = InputFrame {
            interactive: f.interactive,
            keyboard_target: target,
            pointer_viewport: pointer_viewport_state(
                f.fixed_viewport,
                body.frame_size,
                desired,
                sent,
            ),
            exit_fullscreen_shortcut_owner: if f.fullscreen_active
                || self.fullscreen_active_last_frame {
                ShortcutOwner::App
            } else {
                ShortcutOwner::Page
            },
            pointer_frame: pointer_frame_of(body, f),
            pointer_events: f.pointer_events,
            page_events: f.page_events,
            modifiers: f.modifiers,
            mac: f.mac,
        };
        assert(input == input_frame(self@, *body, *f));
        let told = handle(&mut self.keys, &mut self.pointer, &input);
        self.fullscreen_active_last_frame = f.fullscreen_active;
        (told, target)
    }

    /// One frame of the panel.
    pub fn show(&mut self, f: &BrowserFrame) -> (outcome: BrowserOutcome)
        requires
            f.body.available.min_x <= f.body.available.max_x,
            f.body.available.min_y <= f.body.available.max_y,
            f.body.frame matches Some(p) ==> p.width > 0 && p.height > 0,
        ensures
            final(self)@ == shown(old(self)@, *f),
            ({
                let (first, body) = laid(old(self)@, *f);
                let (mid, viewport, cancelled) = converged(retried(first, body), body, *f);
                let input = input_frame(mid, body, *f);
                let r = routed(mid.keys, mid.pointer, input);
                &&& outcome.body == body
                &&& menu_over(outcome.native_select_menu, body, popup_view(f.popup))
                &&& outcome.relaunch == body.retry_clicked
                &&& outcome.viewport == viewport
                &&& outcome.cancelled@ == cancelled
                &&& command_views(outcome.input.released@) == r.released
                &&& outcome.input.pointer@ == r.moved
                &&& command_views(outcome.input.keyboard@) == r.keyboard
                &&& outcome.dismiss_select == zoom_dismisses(body, *f)
                &&& outcome.ime == ime_of(body, input.keyboard_target)
                &&& outcome.requests_focus == (f.chrome_clicked || body.body_clicked)
            }),
            outcome.zoomed == (final(self).zoom.zoom != old(self).zoom.zoom),
    {
        let (body, zoomed, dismiss_select) = self.lay_out(f);
        let native_select_menu = match (body.image_rect, body.frame_size, f.popup) {
            (Some(image), Some(frame), Some(popup)) => menu_layout(
                image,
                frame.width,
                frame.height,
                popup,
            ),
            _ => None,
        };
        if body.retry_clicked {
            *self = fresh(None, self.zoom);
        }
        let (viewport, cancelled) = self.converge(&body, f);
        let (input, target) = self.route(&body, f);
        let ime = if !body.keyboard_focus {
            PageIme::Absent
        } else if target == KeyboardTarget::Page {
            PageIme::Held { rect: body.image_rect }
        } else {
            PageIme::Cleared
        };
        BrowserOutcome {
            body,
            native_select_menu,
            relaunch: body.retry_clicked,
            cancelled,
            viewport,
            input,
            ime,
            dismiss_select,
            zoomed,
            requests_focus: f.chrome_clicked || body.body_clicked,
        }
    }
}

fn pointer_frame_of(body: &BodyOutput, f: &BrowserFrame) -> (frame: Option<PointerFrame>)
    ensures
        frame == pointable(body.image_rect, body.frame_size, body.pointer_target, *f),
        frame matches Some(p) ==> p.valid(),
{
    match (body.image_rect, body.frame_size) {
        (Some(rect), Some(size)) => if rect.min_x < rect.max_x && rect.min_y < rect.max_y {
            Some(
                PointerFrame {
                    rect,
                    frame_width: size.width as u32 * 1000,
                    frame_height: size.height as u32 * 1000,
                    pointer_target: body.pointer_target,
                    frame_has_pointer_button: f.frame_has_pointer_button,
                    pointer: f.pointer,
                    time_ms: f.now_ms,
                    thresholds: f.thresholds,
                    final_modifiers: f.modifiers,
                },
            )
        } else {
            None
        },
        _ => None,
    }
}

/// A browser that is started again gets the panel's layout in the same frame,
/// and neither key nor button of the one before.
pub proof fn law_relaunches_start_clean(view: UiView, f: BrowserFrame)
    requires
        laid(view, f).1.retry_clicked,
    ensures
        ({
            let (first, body) = laid(view, f);
            let begun = retried(first, body);
            let (mid, outcome, cancelled) = converged(begun, body, f);
            &&& begun.keys.pressed.len() == 0
            &&& !begun.pointer.captures()
            &&& begun.zoom == first.zoom
            &&& cancelled.len() == 0
            &&& !f.fixed_viewport && f.explicit_viewport is None ==> outcome is Some
                && outcome->0.send == body.viewport_size
        }),
{
    let (first, body) = laid(view, f);
    let begun = view.with_backend(f.backend);
    let size = super::body::body_size(f.body.available);
    let (width, height) = super::zoom::laid_out(
        size,
        begun.zoom.zoom,
        f.body.max_texture_side as nat,
    );
    super::zoom::law_layouts_can_be_sent(size, begun.zoom.zoom, f.body.max_texture_side as nat);
    assert(width <= 0xffff_ffff && height <= 0xffff_ffff) by (nonlinear_arith)
        requires
            width >= 33,
            height >= 33,
            width * height <= 8_294_400,
    ;
    let again = retried(first, body);
    assert(body.viewport_size == Some(Viewport { width: width as u32, height: height as u32 }));
    let (x, y) = again.pointer.cancel_place(
        pointable(body.image_rect, body.frame_size, body.pointer_target, f),
    );
    assert(again.pointer.cancelled(x, y).1 =~= Seq::<PointerCommand>::empty());
}

/// The zoom is the panel's: neither another backend nor another appearance nor
/// a new session changes it.
pub proof fn law_zoom_survives_sessions(view: UiView, backend: BackendKind, body: BodyOutput)
    ensures
        view.with_backend(backend).zoom == view.zoom,
        retried(view, body).zoom == view.zoom,
        view.with_backend(backend).with_backend(backend) == view.with_backend(backend),
{
}

/// The address bar has the keyboard in a focused panel; the page has it in a
/// focused panel of a focused window that no other widget is focused in.
pub proof fn law_one_of_them_has_the_keyboard(
    panel_focused: bool,
    url_focused: bool,
    window_focused: bool,
    other_widget_has_focus: bool,
)
    ensures
        ({
            let target = keyboard_target(
                panel_focused,
                url_focused,
                window_focused,
                other_widget_has_focus,
            );
            &&& target is Url <==> panel_focused && url_focused
            &&& target is Page <==> panel_focused && window_focused && !url_focused
                && !other_widget_has_focus
        }),
{
}

/// A request that is settled takes the focus; one that is not waits for twelve
/// seconds first.
pub proof fn law_the_keyboard_comes_back(view: UiView, now_ms: u64, at_ms: u64)
    ensures
        view.host_focus(Some(true), now_ms).1 is Take,
        view.host_focus(Some(true), now_ms).0.host_focus_requested_at_ms is None,
        view.host_focus(Some(false), now_ms).1 is Wait,
        view.host_focus(Some(false), now_ms).0.host_focus_requested_at_ms == Some(now_ms),
        view.host_focus_requested_at_ms is None ==> view.host_focus(None, now_ms) == (
            view,
            HostFocus::Idle,
        ),
        view.host_focus_requested_at_ms == Some(at_ms) && now_ms >= at_ms + 12_000
            ==> view.host_focus(None, now_ms).1 is Take && view.host_focus(
            None,
            now_ms,
        ).0.host_focus_requested_at_ms is None,
        view.host_focus_requested_at_ms == Some(at_ms) && now_ms < at_ms + 12_000
            ==> view.host_focus(None, now_ms).1 is Wait && view.host_focus(
            None,
            now_ms,
        ).0.host_focus_requested_at_ms == Some(at_ms),
{
}

/// Another backend forgets the session before it; the same one forgets nothing.
pub proof fn law_sessions_are_kept_apart(view: UiView, backend: BackendKind)
    ensures
        view.active_backend == Some(backend) ==> view.with_backend(backend) == view,
        view.active_backend != Some(backend) ==> ({
            let after = view.with_backend(backend);
            &&& after.active_backend == Some(backend)
            &&& after.texture.size is None && after.texture.seq == 0
            &&& after.sync.last_viewport.width == 0 && after.sync.last_viewport.height == 0
                && after.sync.retry_count == 0 && after.sync.retry_at_ms == 0
            &&& !after.pointer.captures() && after.pointer.last_click is None
                && after.pointer.last_mouse is None
            &&& after.keys.pressed.len() == 0 && after.keys.suppressed.len() == 0
                && after.keys.clipboard.len() == 0 && !after.keys.ime_composing
                && !after.keys.url_submit_enter_pending
            &&& after.url_buffer.len() == 0
            &&& after.select_popup is None && !after.select_popup_dismissed
            &&& after.host_focus_requested_at_ms is None && !after.fullscreen_active_last_frame
        }),
{
}

/// Keys that the page holds are let go just where it loses the keyboard.
pub proof fn law_lost_keyboards_let_their_keys_go(
    keys: KeyView,
    interactive: bool,
    target: KeyboardTarget,
    modifiers: Modifiers,
)
    ensures
        ({
            let (after, sent) = keys_before(keys, interactive, target, modifiers);
            let page = interactive && target is Page;
            &&& page ==> after == keys && sent.len() == 0
            &&& !page ==> after.pressed.len() == 0 && !after.ime_composing && sent
                == keys.released(page_modifiers(modifiers)).1
            &&& !interactive || target is Nobody ==> after.suppressed.len() == 0
                && after.clipboard.len() == 0 && !after.url_submit_enter_pending
            &&& interactive && target is Url ==> after.suppressed == keys.suppressed
                && after.clipboard == keys.clipboard
        }),
{
}

/// Events reach whoever has the keyboard: the page, or the address bar's keys;
/// nobody in a panel in the background.
pub proof fn law_keys_reach_whoever_has_the_keyboard(
    keys: KeyView,
    interactive: bool,
    target: KeyboardTarget,
    owner: ShortcutOwner,
    events: Seq<PageEvent>,
    modifiers: Modifiers,
    mac: bool,
)
    ensures
        ({
            let (after, sent) = keys_after(
                keys,
                interactive,
                target,
                owner,
                events,
                modifiers,
                mac,
            );
            &&& !interactive || target is Nobody ==> after == keys && sent.len() == 0
            &&& interactive && target is Url ==> (after, sent) == url_replay(
                keys,
                events,
                events.len() as int,
                mac,
            )
            &&& interactive && target is Page ==> sent == replay(
                keys,
                events,
                events.len() as int,
                owner is App,
                modifiers,
                mac,
            ).1 && after == replay(
                keys,
                events,
                events.len() as int,
                owner is App,
                modifiers,
                mac,
            ).0.keys
        }),
{
}

/// The pointer reaches a picture that is ready; one that is not leaves the
/// captures alone, and a panel in the background lets them go.
pub proof fn law_pointers_reach_a_ready_picture(
    pointer: PointerState,
    ready: PointerViewportState,
    frame: Option<PointerFrame>,
    events: Seq<PointerEvent>,
    modifiers: Modifiers,
)
    ensures
        ({
            let (after, sent) = pointer_after(pointer, true, ready, frame, events, modifiers);
            &&& ready is Ready && frame is Some ==> (after, sent) == frame_result(
                pointer,
                frame->0,
                events,
            )
            &&& !(ready is Ready) || frame is None ==> sent.len() == 0 && after.left
                == pointer.left && after.middle == pointer.middle && after.right == pointer.right
                && after.last_mouse == pointer.last_mouse && after.modifiers == page_modifiers(
                modifiers,
            )
            &&& !pointer_after(pointer, false, ready, frame, events, modifiers).0.captures()
        }),
{
}

/// A picture that is pointed at is the one that is shown, in thousandths of its
/// pixels; without an extent it cannot be.
pub proof fn law_shown_pictures_are_pointed_at(
    rect: ScreenRect,
    frame: FrameSize,
    pointer_target: bool,
    f: BrowserFrame,
)
    ensures
        ({
            let at = pointable(Some(rect), Some(frame), pointer_target, f);
            &&& at is Some <==> rect.min_x < rect.max_x && rect.min_y < rect.max_y
            &&& at matches Some(p) ==> p.rect == rect && p.frame_width == frame.width * 1000
                && p.frame_height == frame.height * 1000 && p.pointer_target == pointer_target
                && p.pointer == f.pointer && p.time_ms == f.now_ms && p.thresholds
                == f.thresholds && p.final_modifiers == f.modifiers
                && p.frame_has_pointer_button == f.frame_has_pointer_button
            &&& pointable(None, Some(frame), pointer_target, f) is None
            &&& pointable(Some(rect), None, pointer_target, f) is None
        }),
{
}

/// A page that is zoomed closes the menu over its picture, and a menu that the
/// page closed can be dismissed again.
pub proof fn law_zooming_closes_the_menu(view: UiView, body: BodyOutput, f: BrowserFrame)
    ensures
        zoom_dismisses(body, f) <==> f.interactive && f.zoom_resolved && body.image_rect is Some
            && f.popup is Some,
        popup_synced(view, false, popup_view(f.popup)) == view,
        f.popup is None ==> popup_synced(view, true, popup_view(f.popup)).select_popup is None
            && !popup_synced(view, true, popup_view(f.popup)).select_popup_dismissed,
        f.popup is Some ==> popup_synced(
            view,
            true,
            popup_view(f.popup),
        ).select_popup_dismissed == view.select_popup_dismissed,
{
}

/// A gesture zooms the page of a panel that somebody works with, unless the page
/// has a size of its own; nothing else does.
pub proof fn law_gestures_zoom_pages_that_follow_the_panel(view: UiView, f: BrowserFrame)
    ensures
        ({
            let (after, body) = laid(view, f);
            let follows = f.interactive && !f.fixed_viewport && f.explicit_viewport is None;
            &&& f.zoom_gesture is None || !follows ==> after.zoom.zoom == view.zoom.zoom
            &&& f.zoom_gesture matches Some(delta) ==> (follows ==> after.zoom.zoom
                == body_output(
                f.body,
                view.with_backend(f.backend).zoom,
                view.with_backend(f.backend).texture,
            ).1.gestured(delta))
        }),
{
}

/// A panel that follows its layout sends it and lets the buttons go first where
/// it must; one with a fixed layout sends nothing.
pub proof fn law_layouts_follow_the_panel(view: UiView, body: BodyOutput, f: BrowserFrame)
    ensures
        ({
            let (after, outcome, sent) = converged(view, body, f);
            &&& f.fixed_viewport ==> after == view && outcome is None && sent.len() == 0
            &&& !f.fixed_viewport ==> outcome == Some(view.sync.step(viewport_frame(body, f)).1)
                && after.sync == view.sync.step(viewport_frame(body, f)).0
            &&& outcome matches Some(o) ==> (o.cancels_pointer ==> !after.pointer.captures())
            &&& outcome matches Some(o) ==> (!o.cancels_pointer ==> after.pointer == view.pointer
                && sent.len() == 0)
            &&& viewport_frame(body, f).frame == body.frame_size
            &&& viewport_frame(body, f).viewport == body.viewport_size
            &&& viewport_frame(body, f).host_viewport == body.host_viewport_size
            &&& viewport_frame(body, f).explicit == f.explicit_viewport
        }),
{
}

/// The application owns the way out of full screen in a frame that is, or was
/// just, in it.
pub proof fn law_the_application_owns_the_way_out(view: UiView, body: BodyOutput, f: BrowserFrame)
    ensures
        input_frame(view, body, f).exit_fullscreen_shortcut_owner is App <==> f.fullscreen_active
            || view.fullscreen_active_last_frame,
        shown(view, f).fullscreen_active_last_frame == f.fullscreen_active,
        f.explicit_viewport is None ==> input_frame(view, body, f).pointer_viewport
            == pointer_ready(
            f.fixed_viewport,
            body.frame_size,
            body.viewport_size,
            view.sync.last_viewport,
        ),
        f.explicit_viewport matches Some(v) ==> input_frame(view, body, f).pointer_viewport
            == pointer_ready(f.fixed_viewport, body.frame_size, Some(v), v),
{
}

/// The input method is at the picture while the page has the keyboard, and is
/// cleared when somebody else has it.
pub proof fn law_the_input_method_follows_the_keyboard(body: BodyOutput, target: KeyboardTarget)
    ensures
        !body.keyboard_focus ==> ime_of(body, target) is Absent,
        body.keyboard_focus && target is Page ==> ime_of(body, target) == (PageIme::Held {
            rect: body.image_rect,
        }),
        body.keyboard_focus && !(target is Page) ==> ime_of(body, target) is Cleared,
{
}

/// The page's menu stands over its picture while the page has one open, as tall
/// and wide as that asks; without a picture or a menu there is none.
pub proof fn law_menus_stand_over_the_picture(
    menu: Option<SelectMenuLayout>,
    body: BodyOutput,
    popup: Option<PopupView>,
)
    requires
        menu_over(menu, body, popup),
    ensures
        body.image_rect is None || body.frame_size is None || popup is None ==> menu is None,
        body.image_rect is Some && body.frame_size is Some && popup is Some
            && body.frame_size->0.width > 0 && body.frame_size->0.height > 0 ==> (menu matches
            Some(m) && m.height == menu_height(body.image_rect->0, popup->0.options.len() as int)
            && m.width == menu_width(
            body.image_rect->0,
            body.frame_size->0.width,
            popup->0.bounds,
        ) && m.left == menu_left(body.image_rect->0, body.frame_size->0.width, popup->0.bounds)
            && m.top == menu_top(
            body.image_rect->0,
            body.frame_size->0.height,
            popup->0.bounds,
            popup->0.options.len() as int,
        )),
{
}

/// What is said of a panel is said of what it holds.
pub proof fn law_browser_ui_state_is_seen_as_it_is(value: BrowserUiState)
    ensures
        value@.active_backend == value.active_backend,
        value@.texture == value.texture,
        value@.sync == value.sync,
        value@.pointer == value.pointer,
        value@.keys == value.keys@,
        value@.url_buffer == value.url_buffer@,
        value@.fullscreen_active_last_frame == value.fullscreen_active_last_frame,
        value@.host_focus_requested_at_ms == value.host_focus_requested_at_ms,
        value@.select_popup == popup_ui_view(value.select_popup),
        value@.select_popup_dismissed == value.select_popup_dismissed,
        value@.zoom == value.zoom,
{
}

} // verus!
