//! The scale of the image: the one that is chosen, the pinch that keeps what is
//! under the pointer, and where the image stands in the panel's body. Lengths
//! are thousandths of a point, scales millionths.
use vstd::prelude::*;

use super::controls::Controls;
use crate::browser::zoom::{in_range, PanelZoom};
use crate::geometry::{held, hold, Pos, ScreenRect};
use crate::text::{concat2, decimal, decimal_of};

verus! {

/// How a layer is painted: scaled, in millionths, and then moved.
#[derive(Clone, Copy, Debug, PartialEq, Eq, Structural)]
pub struct LayerTransform {
    pub dx: i32,
    pub dy: i32,
    pub micros: u32,
}

/// How far the image is scrolled.
#[derive(Clone, Copy, Debug, PartialEq, Eq, Structural)]
pub struct Scroll {
    pub x: i64,
    pub y: i64,
}

/// Where the image is painted: the window and the layer in it.
#[derive(Clone, Copy, Debug, PartialEq, Eq, Structural)]
pub struct Surface {
    pub viewport: u64,
    pub layer: u64,
}

/// The image as it is painted.
#[derive(Clone, Copy, Debug, PartialEq, Eq, Structural)]
pub struct ImageView {
    /// Points for a pixel, in millionths.
    pub scale: u64,
    pub image: ScreenRect,
    pub body: ScreenRect,
}

/// What a gesture holds on to.
#[derive(Clone, Copy, Debug, PartialEq, Eq, Structural)]
pub struct ZoomAnchor {
    /// When it was last asked for.
    pub captured_at: u64,
    /// A pinch, not a turn of the wheel.
    pub native_pinch: bool,
    /// Where the pointer was, in the layer's coordinates.
    pub pointer: Pos,
    /// What of the image was there, in millionths of a pixel.
    pub content: Scroll,
}

/// One frame's part of a gesture that is this image's.
#[derive(Clone, Copy, Debug, PartialEq, Eq, Structural)]
pub struct ZoomGesture {
    /// The factor, in millionths.
    pub delta: u32,
    pub native_pinch: bool,
    /// Where the pointer is on the screen.
    pub pointer: Pos,
    pub layer: LayerTransform,
    pub now_ms: u64,
    /// How long a gesture outlasts its last sample.
    pub hold_ms: u64,
}

/// The state of the scaled image between frames.
#[derive(Clone, Copy, Debug)]
pub struct ImageZoom {
    pub anchor: Option<ZoomAnchor>,
    /// Where to scroll to before the image is painted next.
    pub pending_scroll: Option<Scroll>,
    /// A scale was chosen: the image starts at its corner.
    pub rewind: bool,
    pub surface: Option<Surface>,
    pub body: Option<ScreenRect>,
    /// The size of the picture, in pixels.
    pub presented: Option<(usize, usize)>,
}

/// Where the image goes in this frame.
#[derive(Clone, Copy, Debug, PartialEq, Eq, Structural)]
pub struct ImagePlace {
    pub view: ImageView,
    pub width: u64,
    pub height: u64,
    /// What the image leaves free before it.
    pub margin: Scroll,
    /// The scroll to set; without one it stays.
    pub scroll_to: Option<Scroll>,
}

/// The largest integer that is not above `n / d`, in whole numbers.
fn floor_div(n: i128, d: i128) -> (q: i128)
    requires
        d > 0,
        -0x100_0000_0000_0000_0000_0000_0000_0000 <= n
            <= 0x100_0000_0000_0000_0000_0000_0000_0000,
        d <= 0x1_0000_0000_0000_0000,
    ensures
        q == n as int / d as int,
        n >= 0 ==> 0 <= q <= n,
        n < 0 ==> n <= q < 0,
{
    if n >= 0 {
        let q: u128 = n as u128 / d as u128;
        assert(0 <= q <= n) by (nonlinear_arith)
            requires
                q == n / d,
                n >= 0,
                d > 0,
        ;
        q as i128
    } else {
        let up: u128 = ((-n) as u128 + (d as u128 - 1)) / d as u128;
        proof {
            let a = (-n) + (d - 1);
            vstd::arithmetic::div_mod::lemma_fundamental_div_mod(a, d as int);
            vstd::arithmetic::div_mod::lemma_mod_bound(a, d as int);
            vstd::arithmetic::div_mod::lemma_fundamental_div_mod(n as int, d as int);
            vstd::arithmetic::div_mod::lemma_mod_bound(n as int, d as int);
            let q = n as int / d as int;
            let u = up as int;
            assert(u == -q) by (nonlinear_arith)
                requires
                    a == d * u + a % (d as int),
                    0 <= a % (d as int) < d,
                    n == d * q + n as int % (d as int),
                    0 <= n as int % (d as int) < d,
                    a == -n + d - 1,
                    d > 0,
            ;
            assert(1 <= u <= -n) by (nonlinear_arith)
                requires
                    a == d * u + a % (d as int),
                    0 <= a % (d as int) < d,
                    a == -n + d - 1,
                    n < 0,
                    d > 0,
            ;
        }
        -(up as i128)
    }
}

impl LayerTransform {
    /// The point of the layer that is painted at a point of the screen.
    pub open spec fn inward(self, at: Pos) -> Pos {
        Pos {
            x: held((at.x - self.dx) * 1_000_000 / self.micros as int),
            y: held((at.y - self.dy) * 1_000_000 / self.micros as int),
        }
    }

    /// A layer that is painted at no size at all has no points; the screen's
    /// own stand for them.
    pub open spec fn point(self, at: Pos) -> Pos {
        if self.micros == 0 {
            at
        } else {
            self.inward(at)
        }
    }

    pub fn from_screen(self, at: Pos) -> (p: Pos)
        ensures
            p == self.point(at),
    {
        if self.micros == 0 {
            return at;
        }
        let x: i128 = (at.x as i128 - self.dx as i128) * 1_000_000;
        let y: i128 = (at.y as i128 - self.dy as i128) * 1_000_000;
        Pos {
            x: hold(floor_div(x, self.micros as i128)),
            y: hold(floor_div(y, self.micros as i128)),
        }
    }
}

/// The room of a body; one that is inside out has none.
pub open spec fn span(low: i32, high: i32) -> int {
    if high > low {
        high - low
    } else {
        0
    }
}

fn span_of(low: i32, high: i32) -> (room: u32)
    ensures
        room == span(low, high),
{
    if high > low {
        (high as i64 - low as i64) as u32
    } else {
        0
    }
}

/// The size an image is drawn at: at the scale that is chosen, or as large as
/// the room allows without changing its shape.
pub open spec fn image_extent(
    width: u32,
    height: u32,
    zoom: Option<PanelZoom>,
    room_width: u32,
    room_height: u32,
) -> (int, int) {
    match zoom {
        Some(zoom) => (width * zoom.micros / 1000, height * zoom.micros / 1000),
        None => if room_width * height <= room_height * width {
            (room_width as int, height * room_width / width as int)
        } else {
            (width * room_height / height as int, room_height as int)
        },
    }
}

pub fn image_size(
    width: u32,
    height: u32,
    zoom: Option<PanelZoom>,
    room_width: u32,
    room_height: u32,
) -> (size: (u64, u64))
    requires
        width > 0,
        height > 0,
    ensures
        (size.0 as int, size.1 as int) == image_extent(
            width,
            height,
            zoom,
            room_width,
            room_height,
        ),
        zoom is None ==> size.0 <= room_width && size.1 <= room_height,
{
    if let Some(zoom) = zoom {
        let micros: u64 = zoom.micros as u64;
        assert(0 <= width * micros <= 0xffff_ffff * 0xffff_ffff) by (nonlinear_arith)
            requires
                0 <= width <= 0xffff_ffff,
                0 <= micros <= 0xffff_ffff,
        ;
        assert(0 <= height * micros <= 0xffff_ffff * 0xffff_ffff) by (nonlinear_arith)
            requires
                0 <= height <= 0xffff_ffff,
                0 <= micros <= 0xffff_ffff,
        ;
        return (width as u64 * micros / 1000, height as u64 * micros / 1000);
    }
    assert(0 <= room_width * height <= 0xffff_ffff * 0xffff_ffff) by (nonlinear_arith)
        requires
            0 <= room_width <= 0xffff_ffff,
            0 <= height <= 0xffff_ffff,
    ;
    assert(0 <= room_height * width <= 0xffff_ffff * 0xffff_ffff) by (nonlinear_arith)
        requires
            0 <= room_height <= 0xffff_ffff,
            0 <= width <= 0xffff_ffff,
    ;
    let by_width: u64 = room_width as u64 * height as u64;
    let by_height: u64 = room_height as u64 * width as u64;
    assert(height * room_width == room_width * height) by (nonlinear_arith);
    assert(width * room_height == room_height * width) by (nonlinear_arith);
    if by_width <= by_height {
        assert(by_width / width as u64 <= room_height) by (nonlinear_arith)
            requires
                by_width <= room_height * width,
                width > 0,
        ;
        (room_width as u64, by_width / width as u64)
    } else {
        assert(by_height / height as u64 <= room_width) by (nonlinear_arith)
            requires
                by_height <= room_width * height,
                height > 0,
        ;
        (by_height / height as u64, room_height as u64)
    }
}

/// Points for a pixel: the chosen scale, or that of the side that fills the
/// room.
pub open spec fn image_scale(
    width: u32,
    height: u32,
    zoom: Option<PanelZoom>,
    room_width: u32,
    room_height: u32,
) -> int {
    match zoom {
        Some(zoom) => zoom.micros as int,
        None => if room_width * height <= room_height * width {
            room_width * 1000 / width as int
        } else {
            room_height * 1000 / height as int
        },
    }
}

/// A scroll offset as far as the image goes beyond the room.
pub open spec fn scrolled_within(at: int, size: int, room: int) -> int {
    if at <= 0 || size <= room {
        0
    } else if at > size - room {
        size - room
    } else {
        at
    }
}

/// Half of what an image leaves of the room.
pub open spec fn margin_of(size: int, room: int) -> int {
    if size < room {
        (room - size) / 2
    } else {
        0
    }
}

fn scroll_within(at: i64, size: u64, room: u32) -> (s: i64)
    requires
        size <= 0x40_0000_0000_0000,
    ensures
        s == scrolled_within(at as int, size as int, room as int),
        0 <= s <= 0x40_0000_0000_0000,
{
    if at <= 0 || size <= room as u64 {
        0
    } else if at > size as i64 - room as i64 {
        size as i64 - room as i64
    } else {
        at
    }
}

fn margin_in(size: u64, room: u32) -> (m: i64)
    ensures
        m == margin_of(size as int, room as int),
        0 <= m <= room,
{
    if size < room as u64 {
        ((room as u64 - size) / 2) as i64
    } else {
        0
    }
}

/// The factor a gesture leads to.
pub open spec fn stepped(scale: u64, delta: u32) -> PanelZoom {
    PanelZoom { micros: in_range(scale * delta / 1_000_000) as u32 }
}

fn step_zoom(scale: u64, delta: u32) -> (zoom: PanelZoom)
    ensures
        zoom == stepped(scale, delta),
        zoom.valid(),
{
    assert(0 <= scale * delta <= 0xffff_ffff_ffff_ffff * 0xffff_ffff) by (nonlinear_arith)
        requires
            0 <= scale <= 0xffff_ffff_ffff_ffff,
            0 <= delta <= 0xffff_ffff,
    ;
    let target: u128 = scale as u128 * delta as u128 / 1_000_000;
    if target > 0xffff_ffff {
        PanelZoom::new(0xffff_ffff)
    } else {
        PanelZoom::new(target as u64)
    }
}

impl ZoomAnchor {
    /// What a gesture holds on to when it begins.
    pub open spec fn captured(view: ImageView, gesture: ZoomGesture) -> ZoomAnchor {
        let pointer = gesture.layer.point(gesture.pointer);
        ZoomAnchor {
            captured_at: gesture.now_ms,
            native_pinch: gesture.native_pinch,
            pointer,
            content: Scroll {
                x: ((pointer.x - view.image.min_x) * 1_000_000_000 / view.scale as int) as i64,
                y: ((pointer.y - view.image.min_y) * 1_000_000_000 / view.scale as int) as i64,
            },
        }
    }

    /// The same gesture goes on: of the same kind, and in time.
    pub open spec fn outlasts(self, gesture: ZoomGesture) -> bool {
        self.native_pinch == gesture.native_pinch && gesture.now_ms - self.captured_at
            <= gesture.hold_ms
    }

    /// How far along the image its point stands at a scale.
    pub open spec fn reach_x(self, zoom: PanelZoom) -> int {
        self.content.x * zoom.micros / 1_000_000_000
    }

    pub open spec fn reach_y(self, zoom: PanelZoom) -> int {
        self.content.y * zoom.micros / 1_000_000_000
    }

    /// The offset that puts the image's point under the pointer again; an image
    /// cannot be scrolled to before its corner.
    pub open spec fn offset(self, zoom: PanelZoom, body: ScreenRect) -> Scroll {
        Scroll {
            x: forward(self.reach_x(zoom) - (self.pointer.x - body.min_x)),
            y: forward(self.reach_y(zoom) - (self.pointer.y - body.min_y)),
        }
    }
}

/// An offset that is not before the corner.
pub open spec fn forward(at: int) -> i64 {
    if at < 0 {
        0
    } else if at > i64::MAX {
        i64::MAX
    } else {
        at as i64
    }
}

fn content_side(pointer: i32, corner: i32, scale: u64) -> (at: i64)
    requires
        scale > 0,
    ensures
        at == (pointer - corner) * 1_000_000_000 / scale as int,
{
    let n: i128 = (pointer as i128 - corner as i128) * 1_000_000_000;
    floor_div(n, scale as i128) as i64
}

fn offset_side(content: i64, zoom: PanelZoom, pointer: i32, low: i32) -> (at: i64)
    ensures
        at == forward(content * zoom.micros / 1_000_000_000 - (pointer - low)),
{
    proof {
        assert(-0x8000_0000_0000_0000 * 0xffff_ffff <= content * zoom.micros
            <= 0x8000_0000_0000_0000 * 0xffff_ffff) by (nonlinear_arith)
            requires
                -0x8000_0000_0000_0000 <= content <= 0x8000_0000_0000_0000,
                0 <= zoom.micros <= 0xffff_ffff,
        ;
    }
    let n: i128 = content as i128 * zoom.micros as i128;
    let at: i128 = floor_div(n, 1_000_000_000) - (pointer as i128 - low as i128);
    if at < 0 {
        0
    } else if at > 0x7fff_ffff_ffff_ffff {
        0x7fff_ffff_ffff_ffff
    } else {
        at as i64
    }
}

impl ImageZoom {
    pub open spec fn start() -> ImageZoom {
        ImageZoom {
            anchor: None,
            pending_scroll: None,
            rewind: false,
            surface: None,
            body: None,
            presented: None,
        }
    }

    /// Nothing is held on to, and nothing waits to be scrolled to.
    pub open spec fn let_go(self) -> ImageZoom {
        ImageZoom { anchor: None, pending_scroll: None, ..self }
    }

    /// A picture of another size lets go; another picture of the same size does
    /// not.
    pub open spec fn showing(self, size: (usize, usize)) -> ImageZoom {
        let kept = if self.presented is Some && self.presented != Some(size) {
            self.let_go()
        } else {
            self
        };
        ImageZoom { presented: Some(size), ..kept }
    }

    pub open spec fn painted_on(self, surface: Surface) -> ImageZoom {
        let kept = if self.surface is Some && self.surface != Some(surface) {
            self.let_go()
        } else {
            self
        };
        ImageZoom { surface: Some(surface), ..kept }
    }

    pub open spec fn laid_in(self, body: ScreenRect) -> ImageZoom {
        let kept = if self.body is Some && self.body != Some(body) {
            self.let_go()
        } else {
            self
        };
        ImageZoom { body: Some(body), ..kept }
    }

    pub open spec fn chosen(self) -> ImageZoom {
        ImageZoom { rewind: true, ..self.let_go() }
    }

    /// What waits to be scrolled to before the image is painted.
    pub open spec fn wanted(self) -> Option<Scroll> {
        if self.pending_scroll is Some {
            self.pending_scroll
        } else if self.rewind {
            Some(Scroll { x: 0, y: 0 })
        } else {
            None
        }
    }

    pub open spec fn anchored(self, view: ImageView, gesture: ZoomGesture) -> ZoomAnchor {
        match self.anchor {
            Some(anchor) => if anchor.outlasts(gesture) {
                ZoomAnchor { captured_at: gesture.now_ms, ..anchor }
            } else {
                ZoomAnchor::captured(view, gesture)
            },
            None => ZoomAnchor::captured(view, gesture),
        }
    }

    /// A gesture over an image that has a size: a scale is chosen, within the
    /// selector's range, and the image will scroll to keep what is held on to.
    /// Samples that a limit makes vain keep the anchor too.
    pub open spec fn gestured(
        self,
        zoom: Option<PanelZoom>,
        view: Option<ImageView>,
        gesture: Option<ZoomGesture>,
    ) -> (ImageZoom, Option<PanelZoom>) {
        if view is Some && gesture is Some && view->0.scale > 0 {
            let anchor = self.anchored(view->0, gesture->0);
            let next = stepped(view->0.scale, gesture->0.delta);
            (
                ImageZoom {
                    anchor: Some(anchor),
                    pending_scroll: Some(anchor.offset(next, view->0.body)),
                    ..self
                },
                Some(next),
            )
        } else {
            (self, zoom)
        }
    }

    pub fn new() -> (zoom: Self)
        ensures
            zoom == ImageZoom::start(),
    {
        ImageZoom {
            anchor: None,
            pending_scroll: None,
            rewind: false,
            surface: None,
            body: None,
            presented: None,
        }
    }

    pub fn release(&mut self)
        ensures
            *final(self) == old(self).let_go(),
    {
        self.anchor = None;
        self.pending_scroll = None;
    }

    /// The picture that is shown has this size.
    pub fn show_picture(&mut self, size: (usize, usize))
        ensures
            *final(self) == old(self).showing(size),
    {
        if let Some(before) = self.presented {
            if before.0 != size.0 || before.1 != size.1 {
                self.release();
            }
        }
        self.presented = Some(size);
    }

    /// The image is painted on this layer of this window. What was held on to
    /// on another is let go; the chosen scale stays.
    pub fn settle_on(&mut self, surface: Surface)
        ensures
            *final(self) == old(self).painted_on(surface),
    {
        if let Some(before) = self.surface {
            if before != surface {
                self.release();
            }
        }
        self.surface = Some(surface);
    }

    /// The zoom selector shows `picked`; says whether that is another choice.
    /// Another scale starts at the image's corner, with nothing held on to.
    pub fn zoom_dropdown(
        &mut self,
        controls: &mut Controls,
        picked: Option<PanelZoom>,
        interactive: bool,
    ) -> (changed: bool)
        ensures
            changed == (interactive && picked != old(controls).zoom),
            final(controls)@ == old(controls)@.picked(picked, interactive),
            *final(self) == if changed {
                old(self).chosen()
            } else {
                *old(self)
            },
    {
        let changed = controls.zoom_dropdown(picked, interactive);
        if changed {
            self.release();
            self.rewind = true;
        }
        changed
    }

    /// A zoom gesture of this frame, over the image as it was painted; says
    /// whether the scale changed.
    pub fn handle_zoom_gesture(
        &mut self,
        zoom: &mut Option<PanelZoom>,
        view: Option<ImageView>,
        gesture: Option<ZoomGesture>,
    ) -> (changed: bool)
        ensures
            (*final(self), *final(zoom)) == old(self).gestured(*old(zoom), view, gesture),
            changed == (*final(zoom) != *old(zoom)),
    {
        match (view, gesture) {
            (Some(view), Some(gesture)) => {
                if view.scale == 0 {
                    return false;
                }
                let pointer = gesture.layer.from_screen(gesture.pointer);
                let fresh = ZoomAnchor {
                    captured_at: gesture.now_ms,
                    native_pinch: gesture.native_pinch,
                    pointer,
                    content: Scroll {
                        x: content_side(pointer.x, view.image.min_x, view.scale),
                        y: content_side(pointer.y, view.image.min_y, view.scale),
                    },
                };
                let anchor = match self.anchor {
                    Some(held) => if held.native_pinch == gesture.native_pinch && (gesture.now_ms
                        < held.captured_at || gesture.now_ms - held.captured_at
                        <= gesture.hold_ms) {
                        ZoomAnchor { captured_at: gesture.now_ms, ..held }
                    } else {
                        fresh
                    },
                    None => fresh,
                };
                let next = step_zoom(view.scale, gesture.delta);
                let (at, low) = (anchor.pointer, view.body);
                self.anchor = Some(anchor);
                self.pending_scroll = Some(
                    Scroll {
                        x: offset_side(anchor.content.x, next, at.x, low.min_x),
                        y: offset_side(anchor.content.y, next, at.y, low.min_y),
                    },
                );
                let changed = match *zoom {
                    Some(before) => before != next,
                    None => true,
                };
                *zoom = Some(next);
                changed
            },
            _ => false,
        }
    }

    /// Where an image of `width` by `height` pixels goes in a body. What waits to
    /// be scrolled to counts first, else where the image is scrolled to already;
    /// in a body that moved or changed its size nothing waits. An image smaller
    /// than the body is put in its middle; one that fits starts at the corner.
    pub open spec fn place(
        self,
        width: u32,
        height: u32,
        zoom: Option<PanelZoom>,
        body: ScreenRect,
        scrolled: Scroll,
    ) -> ImagePlace {
        let wanted = self.laid_in(body).wanted();
        let room_x = span(body.min_x, body.max_x);
        let room_y = span(body.min_y, body.max_y);
        let (size_x, size_y) = image_extent(width, height, zoom, room_x as u32, room_y as u32);
        let asked = match wanted {
            Some(scroll) => scroll,
            None => scrolled,
        };
        let (at_x, at_y) = if zoom is None {
            (0, 0)
        } else {
            (
                scrolled_within(asked.x as int, size_x, room_x),
                scrolled_within(asked.y as int, size_y, room_y),
            )
        };
        let (free_x, free_y) = if zoom is None {
            (0, 0)
        } else {
            (margin_of(size_x, room_x), margin_of(size_y, room_y))
        };
        ImagePlace {
            view: ImageView {
                scale: image_scale(width, height, zoom, room_x as u32, room_y as u32) as u64,
                image: ScreenRect {
                    min_x: held(body.min_x + free_x - at_x),
                    min_y: held(body.min_y + free_y - at_y),
                    max_x: held(body.min_x + free_x - at_x + size_x),
                    max_y: held(body.min_y + free_y - at_y + size_y),
                },
                body,
            },
            width: size_x as u64,
            height: size_y as u64,
            margin: Scroll { x: free_x as i64, y: free_y as i64 },
            scroll_to: if zoom is Some && wanted is Some {
                Some(Scroll { x: at_x as i64, y: at_y as i64 })
            } else {
                None
            },
        }
    }

    pub fn show_image(
        &mut self,
        width: u32,
        height: u32,
        zoom: Option<PanelZoom>,
        body: ScreenRect,
        scrolled: Scroll,
    ) -> (place: ImagePlace)
        requires
            width > 0,
            height > 0,
            zoom matches Some(z) ==> z.valid(),
        ensures
            place == old(self).place(width, height, zoom, body, scrolled),
            *final(self) == (ImageZoom {
                pending_scroll: None,
                rewind: false,
                ..old(self).laid_in(body)
            }),
    {
        if let Some(before) = self.body {
            if before != body {
                self.release();
            }
        }
        self.body = Some(body);
        let wanted = match self.pending_scroll {
            Some(scroll) => Some(scroll),
            None => if self.rewind {
                Some(Scroll { x: 0, y: 0 })
            } else {
                None
            },
        };
        self.pending_scroll = None;
        self.rewind = false;
        let room_x: u32 = span_of(body.min_x, body.max_x);
        let room_y: u32 = span_of(body.min_y, body.max_y);
        let size = image_size(width, height, zoom, room_x, room_y);
        let scale: u64 = scale_of(width, height, zoom, room_x, room_y);
        let (at, free, scroll_to): (Scroll, Scroll, Option<Scroll>) = match zoom {
            None => (Scroll { x: 0, y: 0 }, Scroll { x: 0, y: 0 }, None),
            Some(factor) => {
                assert(0 <= width * factor.micros <= 0xffff_ffff * 4_000_000) by (nonlinear_arith)
                    requires
                        0 <= width <= 0xffff_ffff,
                        0 <= factor.micros <= 4_000_000,
                ;
                assert(0 <= height * factor.micros <= 0xffff_ffff * 4_000_000) by (nonlinear_arith)
                    requires
                        0 <= height <= 0xffff_ffff,
                        0 <= factor.micros <= 4_000_000,
                ;
                let asked = match wanted {
                    Some(scroll) => scroll,
                    None => scrolled,
                };
                let at = Scroll {
                    x: scroll_within(asked.x, size.0, room_x),
                    y: scroll_within(asked.y, size.1, room_y),
                };
                let free = Scroll {
                    x: margin_in(size.0, room_x),
                    y: margin_in(size.1, room_y),
                };
                let scroll_to = match wanted {
                    Some(_) => Some(at),
                    None => None,
                };
                (at, free, scroll_to)
            },
        };
        let left: i128 = body.min_x as i128 + free.x as i128 - at.x as i128;
        let top: i128 = body.min_y as i128 + free.y as i128 - at.y as i128;
        ImagePlace {
            view: ImageView {
                scale,
                image: ScreenRect {
                    min_x: hold(left),
                    min_y: hold(top),
                    max_x: hold(left + size.0 as i128),
                    max_y: hold(top + size.1 as i128),
                },
                body,
            },
            width: size.0,
            height: size.1,
            margin: free,
            scroll_to,
        }
    }
}

fn scale_of(
    width: u32,
    height: u32,
    zoom: Option<PanelZoom>,
    room_width: u32,
    room_height: u32,
) -> (scale: u64)
    requires
        width > 0,
        height > 0,
    ensures
        scale == image_scale(width, height, zoom, room_width, room_height),
{
    match zoom {
        Some(zoom) => zoom.micros as u64,
        None => {
            assert(0 <= room_width * height <= 0xffff_ffff * 0xffff_ffff) by (nonlinear_arith)
                requires
                    0 <= room_width <= 0xffff_ffff,
                    0 <= height <= 0xffff_ffff,
            ;
            assert(0 <= room_height * width <= 0xffff_ffff * 0xffff_ffff) by (nonlinear_arith)
                requires
                    0 <= room_height <= 0xffff_ffff,
                    0 <= width <= 0xffff_ffff,
            ;
            if room_width as u64 * height as u64 <= room_height as u64 * width as u64 {
                room_width as u64 * 1000 / width as u64
            } else {
                room_height as u64 * 1000 / height as u64
            }
        },
    }
}

/// The percentage of a scale, rounded.
pub open spec fn percent(zoom: PanelZoom) -> nat {
    ((zoom.micros + 5_000) / 10_000) as nat
}

/// What the selector calls a scale.
pub fn zoom_label(zoom: Option<PanelZoom>) -> (label: String)
    ensures
        label@ == match zoom {
            Some(zoom) => decimal(percent(zoom)) + "%"@,
            None => "Fit"@,
        },
{
    match zoom {
        Some(zoom) => {
            let parts: u64 = (zoom.micros as u64 + 5_000) / 10_000;
            concat2(decimal_of(parts).as_str(), "%")
        },
        None => "Fit".to_owned(),
    }
}

/// What the pointer was on stays under it: once the image is painted at the new
/// scale, the point that the gesture holds on to stands where it was, as far as
/// the image can be scrolled to there.
pub proof fn law_a_pinch_keeps_what_is_under_the_pointer(
    before: ImageZoom,
    view: ImageView,
    gesture: ZoomGesture,
    width: u32,
    height: u32,
    scrolled: Scroll,
)
    requires
        view.scale > 0,
        width > 0,
        height > 0,
        before.body == Some(view.body),
    ensures
        ({
            let (after, zoom) = before.gestured(None, Some(view), Some(gesture));
            let anchor = before.anchored(view, gesture);
            let place = after.place(width, height, zoom, view.body, scrolled);
            let body = view.body;
            let most_x = place.width - span(body.min_x, body.max_x);
            let most_y = place.height - span(body.min_y, body.max_y);
            let at_x = anchor.reach_x(zoom->0) - (anchor.pointer.x - body.min_x);
            let at_y = anchor.reach_y(zoom->0) - (anchor.pointer.y - body.min_y);
            &&& 0 <= at_x <= most_x && i32::MIN <= body.min_x - at_x ==> place.view.image.min_x
                + anchor.reach_x(zoom->0) == anchor.pointer.x
            &&& 0 <= at_y <= most_y && i32::MIN <= body.min_y - at_y ==> place.view.image.min_y
                + anchor.reach_y(zoom->0) == anchor.pointer.y
        }),
{
    let next = stepped(view.scale, gesture.delta);
    assert(0 <= width * next.micros <= 0xffff_ffff * 4_000_000) by (nonlinear_arith)
        requires
            0 <= width <= 0xffff_ffff,
            0 <= next.micros <= 4_000_000,
    ;
    assert(0 <= height * next.micros <= 0xffff_ffff * 4_000_000) by (nonlinear_arith)
        requires
            0 <= height <= 0xffff_ffff,
            0 <= next.micros <= 4_000_000,
    ;
}

/// While a gesture goes on, where the pointer has moved to does not matter.
pub proof fn law_a_gesture_keeps_its_anchor(
    before: ImageZoom,
    zoom: Option<PanelZoom>,
    view: Option<ImageView>,
    gesture: ZoomGesture,
    pointer: Pos,
    layer: LayerTransform,
)
    requires
        before.anchor matches Some(anchor) && anchor.outlasts(gesture),
    ensures
        before.gestured(zoom, view, Some(ZoomGesture { pointer, layer, ..gesture }))
            == before.gestured(zoom, view, Some(gesture)),
        view matches Some(v) && v.scale > 0 ==> before.gestured(
            zoom,
            view,
            Some(gesture),
        ).0.anchor == Some(ZoomAnchor { captured_at: gesture.now_ms, ..before.anchor->0 }),
{
}

/// However a layer is painted, the point that shows at a place of the screen is
/// found there again.
pub proof fn law_layer_points_are_found_again(layer: LayerTransform, p: Pos, at: Pos)
    requires
        layer.micros > 0,
        (at.x - layer.dx) * 1_000_000 == p.x * layer.micros,
        (at.y - layer.dy) * 1_000_000 == p.y * layer.micros,
    ensures
        layer.point(at) == p,
{
    let m = layer.micros as int;
    assert(p.x * m / m == p.x) by (nonlinear_arith)
        requires
            m > 0,
    ;
    assert(p.y * m / m == p.y) by (nonlinear_arith)
        requires
            m > 0,
    ;
}

/// At a chosen scale an image that leaves room leaves as much before it as
/// after, but for the rounding, whatever was to be scrolled to.
pub proof fn law_small_images_are_centred(
    state: ImageZoom,
    width: u32,
    height: u32,
    zoom: PanelZoom,
    body: ScreenRect,
    scrolled: Scroll,
)
    requires
        zoom.valid(),
        body.solid(),
    ensures
        ({
            let place = state.place(width, height, Some(zoom), body, scrolled);
            let image = place.view.image;
            &&& place.width <= span(body.min_x, body.max_x) ==> 0 <= (body.max_x - image.max_x) - (
            image.min_x - body.min_x) <= 1
            &&& place.height <= span(body.min_y, body.max_y) ==> 0 <= (body.max_y - image.max_y) - (
            image.min_y - body.min_y) <= 1
        }),
{
    assert(0 <= width * zoom.micros <= 0xffff_ffff * 4_000_000) by (nonlinear_arith)
        requires
            0 <= width <= 0xffff_ffff,
            0 <= zoom.micros <= 4_000_000,
    ;
    assert(0 <= height * zoom.micros <= 0xffff_ffff * 4_000_000) by (nonlinear_arith)
        requires
            0 <= height <= 0xffff_ffff,
            0 <= zoom.micros <= 4_000_000,
    ;
}

proof fn lemma_quotient(n: int, d: int)
    requires
        d > 0,
    ensures
        d * (n / d) <= n < d * (n / d) + d,
{
    vstd::arithmetic::div_mod::lemma_fundamental_div_mod(n, d);
    vstd::arithmetic::div_mod::lemma_mod_bound(n, d);
}

/// At a chosen scale a pixel has that many millionths of a point, and a side is
/// cut to a whole thousandth.
pub proof fn law_chosen_scales_are_applied(
    width: u32,
    height: u32,
    zoom: PanelZoom,
    room_width: u32,
    room_height: u32,
)
    ensures
        ({
            let (x, y) = image_extent(width, height, Some(zoom), room_width, room_height);
            &&& x * 1000 <= width * zoom.micros < x * 1000 + 1000
            &&& y * 1000 <= height * zoom.micros < y * 1000 + 1000
            &&& zoom.micros == 1_000_000 ==> x == width * 1000 && y == height * 1000
            &&& image_scale(width, height, Some(zoom), room_width, room_height) == zoom.micros
        }),
{
    lemma_quotient(width * zoom.micros, 1000);
    lemma_quotient(height * zoom.micros, 1000);
    if zoom.micros == 1_000_000 {
        assert(width * zoom.micros == width * 1_000_000);
        assert(height * zoom.micros == height * 1_000_000);
    }
}

/// Without a chosen scale the image fills one side of the room, fits the other
/// and keeps its shape.
pub proof fn law_fitting_images_keep_their_shape(
    width: u32,
    height: u32,
    room_width: u32,
    room_height: u32,
)
    requires
        width > 0,
        height > 0,
    ensures
        ({
            let (x, y) = image_extent(width, height, None, room_width, room_height);
            &&& 0 <= x <= room_width && 0 <= y <= room_height
            &&& x == room_width || y == room_height
            &&& x == room_width && y < room_height ==> y * width <= height * x < y * width + width
            &&& y == room_height && x < room_width ==> x * height <= width * y < x * height
                + height
        }),
{
    let w = width as int;
    let h = height as int;
    let rw = room_width as int;
    let rh = room_height as int;
    let (x, y) = image_extent(width, height, None, room_width, room_height);
    lemma_quotient(h * rw, w);
    lemma_quotient(w * rh, h);
    assert(h * rw == rw * h && w * rh == rh * w) by (nonlinear_arith);
    assert(w * (h * rw / w) == (h * rw / w) * w) by (nonlinear_arith);
    assert(h * (w * rh / h) == (w * rh / h) * h) by (nonlinear_arith);
    if rw * h <= rh * w {
        let q = h * rw / w;
        assert(q >= 0 && q <= rh) by (nonlinear_arith)
            requires
                w > 0,
                h >= 0,
                rw >= 0,
                w * q <= h * rw,
                h * rw < w * q + w,
                h * rw == rw * h,
                rw * h <= rh * w,
        ;
    } else {
        let q = w * rh / h;
        assert(q >= 0 && q < rw) by (nonlinear_arith)
            requires
                h > 0,
                w >= 0,
                rh >= 0,
                h * q <= w * rh,
                w * rh < h * q + h,
                w * rh == rh * w,
                rw * h > rh * w,
        ;
    }
}

/// A gesture multiplies the scale that is shown and ends within a quarter and
/// four times; one that does nothing leaves the scale.
pub proof fn law_gestures_multiply_the_scale(scale: u64, delta: u32)
    ensures
        ({
            let z = stepped(scale, delta).micros;
            let product = scale * delta;
            &&& 250_000 <= z <= 4_000_000
            &&& 250_000_000_000 <= product < 4_000_000_000_000 ==> z * 1_000_000 <= product < z
                * 1_000_000 + 1_000_000
            &&& product < 250_000_000_000 ==> z == 250_000
            &&& product >= 4_000_000_000_000 ==> z == 4_000_000
        }),
{
    lemma_quotient(scale * delta, 1_000_000);
    assert(scale * delta >= 0) by (nonlinear_arith)
        requires
            scale >= 0,
            delta >= 0,
    ;
}

/// A gesture takes hold of what of the image is under the pointer.
pub proof fn law_gestures_take_hold_under_the_pointer(view: ImageView, gesture: ZoomGesture)
    requires
        view.scale > 0,
    ensures
        ({
            let anchor = ZoomAnchor::captured(view, gesture);
            let pointer = gesture.layer.point(gesture.pointer);
            let scale = view.scale as int;
            let dx = pointer.x - view.image.min_x;
            let dy = pointer.y - view.image.min_y;
            &&& anchor.pointer == pointer
            &&& anchor.captured_at == gesture.now_ms
            &&& anchor.native_pinch == gesture.native_pinch
            &&& scale * anchor.content.x <= dx * 1_000_000_000 < scale * anchor.content.x + scale
            &&& scale * anchor.content.y <= dy * 1_000_000_000 < scale * anchor.content.y + scale
        }),
{
    let pointer = gesture.layer.point(gesture.pointer);
    let scale = view.scale as int;
    let nx = (pointer.x - view.image.min_x) * 1_000_000_000;
    let ny = (pointer.y - view.image.min_y) * 1_000_000_000;
    lemma_quotient(nx, scale);
    lemma_quotient(ny, scale);
    lemma_quotient_fits(nx, scale);
    lemma_quotient_fits(ny, scale);
}

proof fn lemma_quotient_fits(n: int, d: int)
    requires
        d > 0,
        -5_000_000_000_000_000_000 <= n <= 5_000_000_000_000_000_000,
    ensures
        -5_000_000_000_000_000_000 <= n / d <= 5_000_000_000_000_000_000,
{
    let q = n / d;
    lemma_quotient(n, d);
    assert(-5_000_000_000_000_000_000 <= q <= 5_000_000_000_000_000_000) by (nonlinear_arith)
        requires
            d >= 1,
            d * q <= n,
            n < d * q + d,
            -5_000_000_000_000_000_000 <= n <= 5_000_000_000_000_000_000,
    ;
}

/// A gesture's point stands as far along the image as its content takes at the
/// scale, and the image is scrolled by what that is beyond the pointer's place
/// in the body, but never to before its corner.
pub proof fn law_anchors_scroll_to_the_pointer(
    anchor: ZoomAnchor,
    zoom: PanelZoom,
    body: ScreenRect,
)
    ensures
        ({
            let rx = anchor.reach_x(zoom);
            let ry = anchor.reach_y(zoom);
            let at = anchor.offset(zoom, body);
            &&& rx * 1_000_000_000 <= anchor.content.x * zoom.micros < rx * 1_000_000_000
                + 1_000_000_000
            &&& ry * 1_000_000_000 <= anchor.content.y * zoom.micros < ry * 1_000_000_000
                + 1_000_000_000
            &&& at.x >= 0 && at.y >= 0
            &&& 0 < at.x < i64::MAX ==> body.min_x + rx - at.x == anchor.pointer.x
            &&& 0 < at.y < i64::MAX ==> body.min_y + ry - at.y == anchor.pointer.y
            &&& at.x == 0 ==> body.min_x + rx <= anchor.pointer.x
            &&& at.y == 0 ==> body.min_y + ry <= anchor.pointer.y
        }),
{
    lemma_quotient(anchor.content.x * zoom.micros, 1_000_000_000);
    lemma_quotient(anchor.content.y * zoom.micros, 1_000_000_000);
}

/// A gesture goes on while its samples are of one kind and come in time.
pub proof fn law_gestures_end_with_their_time(anchor: ZoomAnchor, gesture: ZoomGesture)
    ensures
        anchor.outlasts(gesture) <==> anchor.native_pinch == gesture.native_pinch && gesture.now_ms
            <= anchor.captured_at + gesture.hold_ms,
{
}

/// Another picture, place or body of the same size lets a gesture go on; one
/// that differs ends it, and the first one ever does not.
pub proof fn law_changes_let_go(
    state: ImageZoom,
    size: (usize, usize),
    surface: Surface,
    body: ScreenRect,
)
    ensures
        ({
            let a = state.showing(size);
            let b = state.painted_on(surface);
            let c = state.laid_in(body);
            &&& a.presented == Some(size) && b.surface == Some(surface) && c.body == Some(body)
            &&& state.presented is None || state.presented == Some(size) ==> a.anchor
                == state.anchor && a.pending_scroll == state.pending_scroll
            &&& state.presented is Some && state.presented != Some(size) ==> a.anchor is None
                && a.pending_scroll is None
            &&& state.surface is None || state.surface == Some(surface) ==> b.anchor
                == state.anchor && b.pending_scroll == state.pending_scroll
            &&& state.surface is Some && state.surface != Some(surface) ==> b.anchor is None
                && b.pending_scroll is None
            &&& state.body is None || state.body == Some(body) ==> c.anchor == state.anchor
                && c.pending_scroll == state.pending_scroll
            &&& state.body is Some && state.body != Some(body) ==> c.anchor is None
                && c.pending_scroll is None
            &&& a.rewind == state.rewind && b.rewind == state.rewind && c.rewind == state.rewind
        }),
{
}

/// A scale that is chosen shows the image from its corner; a gesture's own
/// offset counts before that.
pub proof fn law_chosen_scales_start_at_the_corner(state: ImageZoom, scroll: Scroll)
    ensures
        state.chosen().wanted() == Some(Scroll { x: 0, y: 0 }),
        state.chosen().anchor is None,
        (ImageZoom { pending_scroll: Some(scroll), ..state }).wanted() == Some(scroll),
        (ImageZoom { pending_scroll: None, rewind: false, ..state }).wanted() is None,
{
}

/// A gesture over an image that has a size chooses a scale and waits to scroll;
/// without an image or a gesture nothing changes.
pub proof fn law_gestures_choose_a_scale(
    state: ImageZoom,
    zoom: Option<PanelZoom>,
    view: Option<ImageView>,
    gesture: Option<ZoomGesture>,
)
    ensures
        ({
            let (after, chosen) = state.gestured(zoom, view, gesture);
            &&& view is None || gesture is None || view->0.scale == 0 ==> after == state && chosen
                == zoom
            &&& view is Some && gesture is Some && view->0.scale > 0 ==> chosen == Some(
                stepped(view->0.scale, gesture->0.delta),
            ) && after.anchor is Some && after.pending_scroll == Some(
                after.anchor->0.offset(chosen->0, view->0.body),
            ) && after.anchor->0.captured_at == gesture->0.now_ms
            &&& after.rewind == state.rewind && after.presented == state.presented && after.body
                == state.body && after.surface == state.surface
        }),
{
}

/// A fitting image stands at the body's corner and is not scrolled; one at a
/// chosen scale is moved back by as much as it is scrolled, which is kept within
/// the image.
pub proof fn law_images_move_as_they_are_scrolled(
    state: ImageZoom,
    width: u32,
    height: u32,
    zoom: Option<PanelZoom>,
    body: ScreenRect,
    scrolled: Scroll,
)
    requires
        width > 0,
        height > 0,
        zoom matches Some(z) ==> z.valid(),
        body.solid(),
        state.body == Some(body),
    ensures
        ({
            let place = state.place(width, height, zoom, body, scrolled);
            let image = place.view.image;
            let room_x = body.max_x - body.min_x;
            let asked = match state.wanted() {
                Some(scroll) => scroll,
                None => scrolled,
            };
            &&& place.view.body == body
            &&& zoom is None ==> image.min_x == body.min_x && image.min_y == body.min_y
                && place.scroll_to is None && place.margin == (Scroll { x: 0, y: 0 })
            &&& zoom is Some && state.wanted() is None ==> place.scroll_to is None
            &&& zoom is Some && state.wanted() is Some ==> place.scroll_to is Some
            &&& zoom is Some && 0 <= asked.x <= place.width - room_x && body.min_x - asked.x
                >= i32::MIN ==> image.min_x == body.min_x - asked.x
            &&& zoom is Some && 0 <= asked.y <= place.height - (body.max_y - body.min_y)
                && body.min_y - asked.y >= i32::MIN ==> image.min_y == body.min_y - asked.y
            &&& zoom is Some && place.width > room_x && asked.x < 0 ==> image.min_x == body.min_x
            &&& place.scroll_to matches Some(to) ==> 0 <= to.x && (to.x == 0 || to.x <= place.width
                - room_x)
        }),
{
    if let Some(z) = zoom {
        assert(0 <= width * z.micros <= 0xffff_ffff * 4_000_000) by (nonlinear_arith)
            requires
                0 <= width <= 0xffff_ffff,
                0 <= z.micros <= 4_000_000,
        ;
        assert(0 <= height * z.micros <= 0xffff_ffff * 4_000_000) by (nonlinear_arith)
            requires
                0 <= height <= 0xffff_ffff,
                0 <= z.micros <= 4_000_000,
        ;
    }
}

/// A percentage is the nearest whole one.
pub proof fn law_percentages_are_rounded(zoom: PanelZoom)
    ensures
        percent(zoom) * 10_000 <= zoom.micros + 5_000 < percent(zoom) * 10_000 + 10_000,
{
}

} // verus!
