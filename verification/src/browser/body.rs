//! A browser panel's body: the page's picture fitted to it, the page's own
//! scrollbar, or a placeholder while there is no picture.
use vstd::prelude::*;

use super::viewport::{FrameSize, Viewport};
use super::zoom::{
    fitted_scale, frame_scale, frame_side, laid_out, law_fitted_frames_fit, rounded_side, BodySize,
    ZoomState,
};
use crate::geometry::{held, hold, ScreenRect};
use crate::text::{concat2, concat3, decimal, decimal_of};

verus! {

/// A body with a side under this shows nothing.
pub const MIN_BODY_SIDE: u32 = 24_000;

/// The newest picture of the page.
#[derive(Clone, Copy, Debug, PartialEq, Eq, Structural)]
pub struct PageFrame {
    pub seq: u64,
    pub width: u32,
    pub height: u32,
}

/// What the pointer does to the body this frame.
#[derive(Clone, Copy, Debug, PartialEq, Eq, Structural)]
pub struct BodyResponse {
    pub clicked: bool,
    pub contains_pointer: bool,
    pub button_down_on: bool,
    pub drag_started: bool,
    pub dragged: bool,
    pub drag_stopped: bool,
}

#[derive(Clone, Copy, Debug, PartialEq, Eq, Structural)]
pub struct BodyInput {
    pub available: ScreenRect,
    pub frame: Option<PageFrame>,
    pub response: BodyResponse,
    pub max_texture_side: usize,
    /// The page's layout follows the panel.
    pub responsive: bool,
    /// The placeholder's retry button was clicked.
    pub retry: bool,
}

/// The picture that the renderer holds.
#[derive(Clone, Copy, Debug, PartialEq, Eq, Structural)]
pub struct TextureState {
    pub size: Option<Viewport>,
    pub seq: u64,
}

#[derive(Clone, Copy, Debug, PartialEq, Eq, Structural)]
pub enum TextureUpdate {
    Keep,
    /// A new texture is made.
    Load,
    /// The texture gets new pixels.
    Replace,
}

#[derive(Clone, Copy, Debug, PartialEq, Eq, Structural)]
pub struct BodyOutput {
    pub image_rect: Option<ScreenRect>,
    pub frame_size: Option<FrameSize>,
    pub viewport_size: Option<Viewport>,
    /// The body's own size, without zoom: a pinned page gives it back later.
    pub host_viewport_size: Option<Viewport>,
    pub pointer_target: bool,
    pub retry_clicked: bool,
    pub body_clicked: bool,
    /// The body can hold the keyboard for the page.
    pub keyboard_focus: bool,
    pub placeholder: bool,
    pub texture: TextureUpdate,
    pub repaint: bool,
}

/// Nothing of a body.
pub open spec fn no_body() -> BodyOutput {
    BodyOutput {
        image_rect: None,
        frame_size: None,
        viewport_size: None,
        host_viewport_size: None,
        pointer_target: false,
        retry_clicked: false,
        body_clicked: false,
        keyboard_focus: false,
        placeholder: false,
        texture: TextureUpdate::Keep,
        repaint: false,
    }
}

impl BodyResponse {
    /// The body owns the pointer. A whole drag can fall into one frame and end
    /// outside; its end still counts, so that the press is not lost.
    pub open spec fn owns_pointer(self) -> bool {
        self.contains_pointer || self.button_down_on || self.drag_started || self.dragged
            || self.drag_stopped
    }
}

pub open spec fn body_size(available: ScreenRect) -> BodySize {
    BodySize {
        width: (available.max_x - available.min_x) as u32,
        height: (available.max_y - available.min_y) as u32,
    }
}

impl TextureState {
    /// A picture is uploaded once; a texture of another size is made anew.
    pub open spec fn updated(self, frame: PageFrame) -> (TextureState, TextureUpdate) {
        let size = Viewport { width: frame.width, height: frame.height };
        if self.seq == frame.seq {
            (self, TextureUpdate::Keep)
        } else {
            (
                TextureState { size: Some(size), seq: frame.seq },
                if self.size == Some(size) {
                    TextureUpdate::Replace
                } else {
                    TextureUpdate::Load
                },
            )
        }
    }

    fn update(&mut self, frame: PageFrame) -> (update: TextureUpdate)
        ensures
            (*final(self), update) == old(self).updated(frame),
    {
        if self.seq == frame.seq {
            return TextureUpdate::Keep;
        }
        let size = Viewport { width: frame.width, height: frame.height };
        let update = match self.size {
            Some(held) => if held == size {
                TextureUpdate::Replace
            } else {
                TextureUpdate::Load
            },
            None => TextureUpdate::Load,
        };
        self.size = Some(size);
        self.seq = frame.seq;
        update
    }
}

pub open spec fn painted_side(side: u16, scale: int) -> int {
    side * scale / 1000
}

pub open spec fn centered(low: i32, high: i32, side: int) -> (int, int) {
    let start = low + (high - low - side) / 2;
    (start, start + side)
}

/// The picture in the middle of the body, as large as fits.
pub open spec fn letterbox(available: ScreenRect, frame: FrameSize, responsive: bool) -> ScreenRect {
    let scale = fitted_scale(body_size(available), frame, responsive);
    let (left, right) = centered(
        available.min_x,
        available.max_x,
        painted_side(frame.width, scale),
    );
    let (top, bottom) = centered(
        available.min_y,
        available.max_y,
        painted_side(frame.height, scale),
    );
    ScreenRect {
        min_x: left as i32,
        min_y: top as i32,
        max_x: right as i32,
        max_y: bottom as i32,
    }
}

pub open spec fn frame_of(frame: PageFrame) -> FrameSize {
    FrameSize { width: frame_side(frame.width as int), height: frame_side(frame.height as int) }
}

/// What a frame of the body comes to.
pub open spec fn body_output(
    input: BodyInput,
    zoom: ZoomState,
    texture: TextureState,
) -> (BodyOutput, ZoomState, TextureState) {
    let size = body_size(input.available);
    if size.width < MIN_BODY_SIDE || size.height < MIN_BODY_SIDE {
        (no_body(), zoom, texture)
    } else {
        let (width, height) = laid_out(size, zoom.zoom, input.max_texture_side as nat);
        let shown = ZoomState {
            zoom: zoom.zoom,
            effective_zoom: zoom.shown(size, input.max_texture_side as nat),
        };
        let base = BodyOutput {
            viewport_size: Some(Viewport { width: width as u32, height: height as u32 }),
            host_viewport_size: Some(
                Viewport { width: rounded_side(size.width), height: rounded_side(size.height) },
            ),
            repaint: shown.effective_zoom != zoom.effective_zoom,
            ..no_body()
        };
        match input.frame {
            None => (
                BodyOutput { placeholder: true, retry_clicked: input.retry, ..base },
                shown,
                texture,
            ),
            Some(frame) => {
                let (held, update) = texture.updated(frame);
                (
                    BodyOutput {
                        image_rect: if held.size is Some {
                            Some(letterbox(input.available, frame_of(frame), input.responsive))
                        } else {
                            None
                        },
                        frame_size: Some(frame_of(frame)),
                        pointer_target: input.response.owns_pointer(),
                        body_clicked: input.response.clicked,
                        keyboard_focus: true,
                        texture: update,
                        ..base
                    },
                    shown,
                    held,
                )
            },
        }
    }
}

fn side_of(side: u32) -> (s: u16)
    ensures
        s == frame_side(side as int),
{
    if side > 0xffff {
        0xffff
    } else {
        side as u16
    }
}

fn center_side(low: i32, high: i32, side: u64) -> (ends: (i32, i32))
    requires
        low <= high,
        side <= high - low,
    ensures
        (ends.0 as int, ends.1 as int) == centered(low, high, side as int),
        low <= ends.0 <= ends.1 <= high,
{
    let room: i64 = high as i64 - low as i64 - side as i64;
    let start: i64 = low as i64 + room / 2;
    (start as i32, (start + side as i64) as i32)
}

/// Where the picture is painted. It never leaves the body.
pub fn picture_rect(available: ScreenRect, frame: FrameSize, responsive: bool) -> (rect: ScreenRect)
    requires
        available.min_x <= available.max_x,
        available.min_y <= available.max_y,
        frame.width > 0,
        frame.height > 0,
    ensures
        rect == letterbox(available, frame, responsive),
        available.min_x <= rect.min_x <= rect.max_x <= available.max_x,
        available.min_y <= rect.min_y <= rect.max_y <= available.max_y,
{
    let size = BodySize {
        width: (available.max_x as i64 - available.min_x as i64) as u32,
        height: (available.max_y as i64 - available.min_y as i64) as u32,
    };
    let scale: u64 = frame_scale(size, frame, responsive);
    proof {
        law_fitted_frames_fit(size, frame, responsive);
    }
    let width: u64 = frame.width as u64 * scale / 1000;
    let height: u64 = frame.height as u64 * scale / 1000;
    let (left, right) = center_side(available.min_x, available.max_x, width);
    let (top, bottom) = center_side(available.min_y, available.max_y, height);
    ScreenRect { min_x: left, min_y: top, max_x: right, max_y: bottom }
}

/// Lays the body out. The whole body drives the page's layout; the picture's
/// rectangle is for painting and for the pointer.
pub fn show_body(input: BodyInput, zoom: &mut ZoomState, texture: &mut TextureState) -> (output:
    BodyOutput)
    requires
        input.available.min_x <= input.available.max_x,
        input.available.min_y <= input.available.max_y,
        input.frame matches Some(f) ==> f.width > 0 && f.height > 0,
    ensures
        (output, *final(zoom), *final(texture)) == body_output(input, *old(zoom), *old(texture)),
        output.image_rect matches Some(rect) ==> rect.min_x <= rect.max_x && rect.min_y
            <= rect.max_y,
{
    let size = BodySize {
        width: (input.available.max_x as i64 - input.available.min_x as i64) as u32,
        height: (input.available.max_y as i64 - input.available.min_y as i64) as u32,
    };
    let mut output = BodyOutput {
        image_rect: None,
        frame_size: None,
        viewport_size: None,
        host_viewport_size: None,
        pointer_target: false,
        retry_clicked: false,
        body_clicked: false,
        keyboard_focus: false,
        placeholder: false,
        texture: TextureUpdate::Keep,
        repaint: false,
    };
    if size.width < MIN_BODY_SIDE || size.height < MIN_BODY_SIDE {
        return output;
    }
    let sizes = zoom.sync_viewport_sizes(size, input.max_texture_side);
    output.viewport_size = Some(sizes.viewport);
    output.host_viewport_size = Some(sizes.host_viewport);
    output.repaint = sizes.repaint;
    match input.frame {
        None => {
            output.placeholder = true;
            output.retry_clicked = input.retry;
        },
        Some(frame) => {
            let frame_size = FrameSize { width: side_of(frame.width), height: side_of(frame.height) };
            output.texture = texture.update(frame);
            output.frame_size = Some(frame_size);
            output.pointer_target = input.response.contains_pointer || input.response.button_down_on
                || input.response.drag_started || input.response.dragged
                || input.response.drag_stopped;
            output.body_clicked = input.response.clicked;
            output.keyboard_focus = true;
            if texture.size.is_some() {
                output.image_rect = Some(
                    picture_rect(input.available, frame_size, input.responsive),
                );
            }
        },
    }
    output
}

/// The page's vertical scrollbar, in thousandths of a page pixel.
#[derive(Clone, Copy, Debug, PartialEq, Eq, Structural)]
pub struct ScrollOverlay {
    pub track_width: u32,
    pub thumb_y: u32,
    pub thumb_height: u32,
}

/// What the page says of its scrolling, in thousandths of a page pixel.
#[derive(Clone, Copy, Debug, PartialEq, Eq, Structural)]
pub struct PageScroll {
    pub viewport_width: u32,
    pub viewport_height: u32,
    /// There is one where the page can scroll.
    pub overlay: Option<ScrollOverlay>,
}

/// A length on the page as it is painted, at most `most`.
pub open spec fn shown_length(v: u32, viewport: u32, shown: int) -> int {
    v * shown / viewport as int
}

pub open spec fn capped(v: int, most: int) -> int {
    if v > most {
        most
    } else {
        v
    }
}

fn shown_of(v: u32, viewport: u32, shown: u32) -> (p: u64)
    requires
        viewport > 0,
    ensures
        p == shown_length(v, viewport, shown as int),
{
    assert(0 <= v * shown <= 0xffff_ffff * 0xffff_ffff) by (nonlinear_arith)
        requires
            0 <= v <= 0xffff_ffff,
            0 <= shown <= 0xffff_ffff,
    ;
    v as u64 * shown as u64 / viewport as u64
}

/// The track at the picture's right edge.
pub open spec fn scroll_track(image: ScreenRect, state: PageScroll, overlay: ScrollOverlay) -> ScreenRect {
    let shown = image.max_x - image.min_x;
    ScreenRect {
        min_x: (image.max_x - capped(
            shown_length(overlay.track_width, state.viewport_width, shown),
            shown,
        )) as i32,
        ..image
    }
}

/// The thumb in it, which ends with the track; on a page scrolled past its end
/// it starts below, and nothing of it shows.
pub open spec fn scroll_thumb(image: ScreenRect, state: PageScroll, overlay: ScrollOverlay) -> ScreenRect {
    let shown = image.max_y - image.min_y;
    let top = shown_length(overlay.thumb_y, state.viewport_height, shown);
    let height = capped(shown_length(overlay.thumb_height, state.viewport_height, shown), shown);
    ScreenRect {
        min_x: scroll_track(image, state, overlay).min_x,
        min_y: held(image.min_y + top),
        max_x: image.max_x,
        max_y: (image.min_y + capped(top + height, shown)) as i32,
    }
}

/// Where the track and the thumb of the page's scrollbar are painted, where it
/// has one and a size.
pub fn vertical_scrollbar_geometry(image: ScreenRect, state: PageScroll) -> (geometry: Option<
    (ScreenRect, ScreenRect),
>)
    requires
        image.min_x <= image.max_x,
        image.min_y <= image.max_y,
    ensures
        geometry is Some <==> state.overlay is Some && state.viewport_width > 0
            && state.viewport_height > 0,
        geometry matches Some((track, thumb)) ==> {
            &&& track == scroll_track(image, state, state.overlay->0)
            &&& thumb == scroll_thumb(image, state, state.overlay->0)
            &&& image.min_x <= track.min_x <= track.max_x
            &&& image.min_y <= thumb.min_y && thumb.max_y <= image.max_y
        },
{
    let overlay = match state.overlay {
        None => {
            return None;
        },
        Some(overlay) => overlay,
    };
    if state.viewport_width == 0 || state.viewport_height == 0 {
        return None;
    }
    let wide: u32 = (image.max_x as i64 - image.min_x as i64) as u32;
    let tall: u32 = (image.max_y as i64 - image.min_y as i64) as u32;
    let mut width: u64 = shown_of(overlay.track_width, state.viewport_width, wide);
    if width > wide as u64 {
        width = wide as u64;
    }
    let top: u64 = shown_of(overlay.thumb_y, state.viewport_height, tall);
    let mut height: u64 = shown_of(overlay.thumb_height, state.viewport_height, tall);
    if height > tall as u64 {
        height = tall as u64;
    }
    let bottom: u64 = if top > tall as u64 || top + height > tall as u64 {
        tall as u64
    } else {
        top + height
    };
    let left: i32 = (image.max_x as i64 - width as i64) as i32;
    Some(
        (
            ScreenRect { min_x: left, ..image },
            ScreenRect {
                min_x: left,
                min_y: hold(image.min_y as i128 + top as i128),
                max_x: image.max_x,
                max_y: (image.min_y as i64 + bottom as i64) as i32,
            },
        ),
    )
}

pub enum BrowserStatus {
    Starting,
    Ready,
    Error { message: String },
    Stopped { code: Option<i32> },
}

pub enum StatusView {
    Starting,
    Ready,
    Error { message: Seq<char> },
    Stopped { code: Option<i32> },
}

impl View for BrowserStatus {
    type V = StatusView;

    open spec fn view(&self) -> StatusView {
        match self {
            BrowserStatus::Starting => StatusView::Starting,
            BrowserStatus::Ready => StatusView::Ready,
            BrowserStatus::Error { message } => StatusView::Error { message: message@ },
            BrowserStatus::Stopped { code } => StatusView::Stopped { code: *code },
        }
    }
}

/// A number with its sign.
pub open spec fn signed_decimal(n: int) -> Seq<char> {
    if n < 0 {
        "-"@ + decimal((-n) as nat)
    } else {
        decimal(n as nat)
    }
}

fn signed_decimal_of(n: i32) -> (s: String)
    ensures
        s@ == signed_decimal(n as int),
{
    if n < 0 {
        let digits = decimal_of((-(n as i64)) as u64);
        concat2("-", digits.as_str())
    } else {
        decimal_of(n as u64)
    }
}

impl StatusView {
    pub open spec fn message(self) -> Seq<char> {
        match self {
            StatusView::Starting => "Starting browser…"@,
            StatusView::Ready => "Waiting for frames…"@,
            StatusView::Error { message } => "Browser error: "@ + message,
            StatusView::Stopped { code } => match code {
                Some(code) => "Browser stopped"@ + (" (exit "@ + signed_decimal(code as int) + ")"@),
                None => "Browser stopped"@,
            },
        }
    }

    pub open spec fn alive(self) -> bool {
        self is Starting || self is Ready
    }
}

impl BrowserStatus {
    pub fn is_alive(&self) -> (yes: bool)
        ensures
            yes == self@.alive(),
    {
        match self {
            BrowserStatus::Starting | BrowserStatus::Ready => true,
            BrowserStatus::Error { .. } | BrowserStatus::Stopped { .. } => false,
        }
    }

    /// What stands in for the picture.
    pub fn placeholder(&self) -> (message: String)
        ensures
            message@ == self@.message(),
    {
        match self {
            BrowserStatus::Starting => "Starting browser…".to_string(),
            BrowserStatus::Ready => "Waiting for frames…".to_string(),
            BrowserStatus::Error { message } => concat2("Browser error: ", message.as_str()),
            BrowserStatus::Stopped { code } => match code {
                Some(code) => {
                    let number = signed_decimal_of(*code);
                    let exit = concat3(" (exit ", number.as_str(), ")");
                    concat2("Browser stopped", exit.as_str())
                },
                None => "Browser stopped".to_string(),
            },
        }
    }
}

pub open spec fn retry_hint(interactive: bool, can_retry: bool, retry_ready: bool) -> Seq<char> {
    if !interactive {
        "Browser controls are unavailable in this view"@
    } else if !can_retry {
        "This remote session ended with a previous run; create the panel again"@
    } else if retry_ready {
        "Restart the browser"@
    } else {
        "Waiting for the previous browser to finish shutting down"@
    }
}

/// The retry button of a browser that is not alive: whether it can be clicked,
/// and what it says when the pointer rests on it. `retry_ready` says that the
/// previous browser is gone.
pub fn retry_button(interactive: bool, can_retry: bool, retry_ready: bool) -> (button: (
    bool,
    &'static str,
))
    ensures
        button.0 == (interactive && can_retry && retry_ready),
        button.1@ == retry_hint(interactive, can_retry, can_retry && retry_ready),
{
    let ready = can_retry && retry_ready;
    let hint = if !interactive {
        "Browser controls are unavailable in this view"
    } else if !can_retry {
        "This remote session ended with a previous run; create the panel again"
    } else if ready {
        "Restart the browser"
    } else {
        "Waiting for the previous browser to finish shutting down"
    };
    (interactive && ready, hint)
}

/// A picture is uploaded once. A texture of its size gets new pixels; another is
/// made anew.
pub proof fn law_pictures_are_uploaded_once(texture: TextureState, frame: PageFrame)
    ensures
        ({
            let (after, update) = texture.updated(frame);
            let fits = texture.size matches Some(size) && size.width == frame.width && size.height
                == frame.height;
            &&& texture.seq == frame.seq ==> update is Keep && after == texture
            &&& texture.seq != frame.seq ==> after.seq == frame.seq && after.size == Some(
                Viewport { width: frame.width, height: frame.height },
            )
            &&& texture.seq != frame.seq && fits ==> update is Replace
            &&& texture.seq != frame.seq && !fits ==> update is Load
            &&& after.updated(frame).1 is Keep
        }),
{
}

/// The body owns the pointer while it is over it, and through a whole drag.
pub proof fn law_the_body_owns_its_drags(response: BodyResponse)
    ensures
        response.owns_pointer() <==> response.contains_pointer || response.button_down_on
            || response.drag_started || response.dragged || response.drag_stopped,
{
}

/// The picture stands in the middle of the body, as large as its scale makes it.
pub proof fn law_pictures_stand_in_the_middle(
    available: ScreenRect,
    frame: FrameSize,
    responsive: bool,
)
    requires
        available.min_x <= available.max_x,
        available.min_y <= available.max_y,
        frame.width > 0,
        frame.height > 0,
    ensures
        ({
            let rect = letterbox(available, frame, responsive);
            let scale = fitted_scale(body_size(available), frame, responsive);
            let width = rect.max_x - rect.min_x;
            let height = rect.max_y - rect.min_y;
            &&& 0 <= (available.max_x - rect.max_x) - (rect.min_x - available.min_x) <= 1
            &&& 0 <= (available.max_y - rect.max_y) - (rect.min_y - available.min_y) <= 1
            &&& width * 1000 <= frame.width * scale < width * 1000 + 1000
            &&& height * 1000 <= frame.height * scale < height * 1000 + 1000
            &&& body_size(available).width == available.max_x - available.min_x
            &&& body_size(available).height == available.max_y - available.min_y
        }),
{
    let size = body_size(available);
    law_fitted_frames_fit(size, frame, responsive);
    let scale = fitted_scale(size, frame, responsive);
    let a = frame.width * scale;
    let b = frame.height * scale;
    assert(a >= 0 && b >= 0) by (nonlinear_arith)
        requires
            a == frame.width * scale,
            b == frame.height * scale,
            scale >= 0,
            frame.width >= 0,
            frame.height >= 0,
    ;
    assert(painted_side(frame.width, scale) == a / 1000);
    assert(painted_side(frame.height, scale) == b / 1000);
}

/// A body with a side under 24 points shows nothing and changes nothing.
pub proof fn law_tiny_bodies_show_nothing(
    input: BodyInput,
    zoom: ZoomState,
    texture: TextureState,
)
    requires
        input.available.min_x <= input.available.max_x,
        input.available.min_y <= input.available.max_y,
    ensures
        ({
            let (output, after, held) = body_output(input, zoom, texture);
            let tiny = input.available.max_x - input.available.min_x < 24_000
                || input.available.max_y - input.available.min_y < 24_000;
            &&& tiny ==> after == zoom && held == texture && output.viewport_size is None
                && output.image_rect is None && !output.placeholder && !output.keyboard_focus
                && !output.retry_clicked && !output.pointer_target && !output.repaint
                && !output.body_clicked && output.texture is Keep && output.frame_size is None
                && output.host_viewport_size is None
            &&& !tiny ==> output.viewport_size is Some && output.host_viewport_size is Some
        }),
{
}

/// Without a picture a placeholder stands, with a button to try again; with one
/// the body takes clicks, the pointer and the keyboard.
pub proof fn law_pictures_take_the_input(input: BodyInput, zoom: ZoomState, texture: TextureState)
    requires
        24_000 <= input.available.max_x - input.available.min_x,
        24_000 <= input.available.max_y - input.available.min_y,
    ensures
        ({
            let (output, after, held) = body_output(input, zoom, texture);
            &&& after.zoom == zoom.zoom
            &&& output.repaint <==> after.effective_zoom != zoom.effective_zoom
            &&& input.frame is None ==> output.placeholder && output.retry_clicked == input.retry
                && !output.keyboard_focus && !output.pointer_target && !output.body_clicked
                && output.image_rect is None && output.frame_size is None && held == texture
            &&& input.frame matches Some(frame) ==> {
                &&& !output.placeholder && !output.retry_clicked
                &&& output.keyboard_focus
                &&& output.body_clicked == input.response.clicked
                &&& output.pointer_target == input.response.owns_pointer()
                &&& (held, output.texture) == texture.updated(frame)
                &&& output.frame_size is Some
                &&& output.image_rect is Some <==> held.size is Some
                &&& frame.width <= 65_535 && frame.height <= 65_535 ==> output.frame_size->0.width
                    == frame.width && output.frame_size->0.height == frame.height
                &&& output.image_rect matches Some(rect) ==> rect == letterbox(
                    input.available,
                    output.frame_size->0,
                    input.responsive,
                )
            }
        }),
{
}

/// The track ends with the picture and takes the same part of its width as on
/// the page; the thumb takes the same part of its height, and starts at the same
/// part of it.
pub proof fn law_scrollbars_keep_their_proportions(
    image: ScreenRect,
    state: PageScroll,
    overlay: ScrollOverlay,
)
    requires
        image.min_x <= image.max_x,
        image.min_y <= image.max_y,
        state.viewport_width > 0,
        state.viewport_height > 0,
        overlay.track_width <= state.viewport_width,
        overlay.thumb_y + overlay.thumb_height <= state.viewport_height,
    ensures
        ({
            let track = scroll_track(image, state, overlay);
            let thumb = scroll_thumb(image, state, overlay);
            let wide = image.max_x - image.min_x;
            let tall = image.max_y - image.min_y;
            let vw = state.viewport_width as int;
            let vh = state.viewport_height as int;
            let width = track.max_x - track.min_x;
            let top = thumb.min_y - image.min_y;
            let height = thumb.max_y - thumb.min_y;
            &&& track.max_x == image.max_x && track.min_y == image.min_y && track.max_y
                == image.max_y
            &&& vw * width <= overlay.track_width * wide < vw * width + vw
            &&& thumb.min_x == track.min_x && thumb.max_x == image.max_x
            &&& vh * top <= overlay.thumb_y * tall < vh * top + vh
            &&& vh * height <= overlay.thumb_height * tall < vh * height + vh
            &&& thumb.max_y <= image.max_y
        }),
{
    let wide = image.max_x - image.min_x;
    let tall = image.max_y - image.min_y;
    let vw = state.viewport_width as int;
    let vh = state.viewport_height as int;
    lemma_share(overlay.track_width as int, wide, vw);
    lemma_share(overlay.thumb_y as int, tall, vh);
    lemma_share(overlay.thumb_height as int, tall, vh);
    let top = shown_length(overlay.thumb_y, state.viewport_height, tall);
    let height = shown_length(overlay.thumb_height, state.viewport_height, tall);
    assert(top + height <= tall) by (nonlinear_arith)
        requires
            vh > 0,
            vh * top <= overlay.thumb_y * tall,
            vh * height <= overlay.thumb_height * tall,
            overlay.thumb_y + overlay.thumb_height <= vh,
            tall >= 0,
    ;
}

proof fn lemma_share(v: int, shown: int, viewport: int)
    requires
        0 <= v <= viewport,
        shown >= 0,
        viewport > 0,
    ensures
        viewport * (v * shown / viewport) <= v * shown < viewport * (v * shown / viewport)
            + viewport,
        0 <= v * shown / viewport <= shown,
{
    vstd::arithmetic::div_mod::lemma_fundamental_div_mod(v * shown, viewport);
    vstd::arithmetic::div_mod::lemma_mod_bound(v * shown, viewport);
    let q = v * shown / viewport;
    assert(0 <= q <= shown) by (nonlinear_arith)
        requires
            viewport * q <= v * shown,
            v * shown < viewport * q + viewport,
            0 <= v <= viewport,
            shown >= 0,
            viewport > 0,
    ;
}

/// What stands in for a picture says what the browser does, and with which code
/// it stopped.
pub proof fn law_placeholders_say_what_the_browser_does(status: StatusView)
    ensures
        status is Starting ==> status.message() == "Starting browser…"@ && status.alive(),
        status is Ready ==> status.message() == "Waiting for frames…"@ && status.alive(),
        status matches StatusView::Error { message } ==> status.message() == "Browser error: "@
            + message && !status.alive(),
        status matches StatusView::Stopped { code: None } ==> status.message()
            == "Browser stopped"@ && !status.alive(),
        status matches StatusView::Stopped { code: Some(code) } ==> !status.alive() && (code >= 0
            ==> status.message() == "Browser stopped"@ + (" (exit "@ + decimal(code as nat) + ")"@))
            && (code < 0 ==> status.message() == "Browser stopped"@ + (" (exit "@ + ("-"@
            + decimal((-code) as nat)) + ")"@)),
{
}

/// A browser is tried again by hand, where it can be and the old one is gone;
/// what is in the way is said.
pub proof fn law_retries_say_what_is_in_the_way(
    interactive: bool,
    can_retry: bool,
    retry_ready: bool,
)
    ensures
        !interactive ==> retry_hint(interactive, can_retry, retry_ready)
            == "Browser controls are unavailable in this view"@,
        interactive && !can_retry ==> retry_hint(interactive, can_retry, retry_ready)
            == "This remote session ended with a previous run; create the panel again"@,
        interactive && can_retry && retry_ready ==> retry_hint(interactive, can_retry, retry_ready)
            == "Restart the browser"@,
        interactive && can_retry && !retry_ready ==> retry_hint(
            interactive,
            can_retry,
            retry_ready,
        ) == "Waiting for the previous browser to finish shutting down"@,
{
}

/// A status is seen as it is, with its message and its code.
pub proof fn law_statuses_are_seen_as_they_are(status: BrowserStatus)
    ensures
        status is Starting ==> status@ is Starting,
        status is Ready ==> status@ is Ready,
        status matches BrowserStatus::Error { message } ==> status@ == (StatusView::Error {
            message: message@,
        }),
        status matches BrowserStatus::Stopped { code } ==> status@ == (StatusView::Stopped { code }),
{
}

} // verus!
