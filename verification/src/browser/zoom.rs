//! Page zoom: the body is laid out in fewer, or more, page pixels than it has
//! points, and the frame that comes back is fitted to the body.
use vstd::prelude::*;

use super::viewport::{FrameSize, Viewport};
use crate::geometry::{least_root, lemma_root_exists, root_up};

verus! {

/// Zoom factors are in millionths.
pub const ZOOM_ONE: u32 = 1_000_000;

pub const MIN_ZOOM: u32 = 250_000;

pub const MAX_ZOOM: u32 = 4_000_000;

/// The smallest side of a layout that is sent.
pub const MIN_STABLE_VIEWPORT_SIDE: u32 = 33;

pub const FRAME_BUDGET_WIDTH: u16 = 3840;

pub const FRAME_BUDGET_HEIGHT: u16 = 2160;

/// The most pixels that a decoded frame may have.
pub const MAX_FRAME_PIXELS: u32 = 8_294_400;

/// The size of a panel's body, in thousandths of a point.
#[derive(Clone, Copy, Debug, PartialEq, Eq, Structural)]
pub struct BodySize {
    pub width: u32,
    pub height: u32,
}

/// A zoom factor, within the range of the selector.
#[derive(Clone, Copy, Debug, PartialEq, Eq, Structural)]
pub struct PanelZoom {
    pub micros: u32,
}

pub open spec fn in_range(micros: int) -> int {
    if micros < MIN_ZOOM {
        MIN_ZOOM as int
    } else if micros > MAX_ZOOM {
        MAX_ZOOM as int
    } else {
        micros
    }
}

impl PanelZoom {
    pub open spec fn valid(self) -> bool {
        MIN_ZOOM <= self.micros <= MAX_ZOOM
    }

    pub fn new(micros: u64) -> (zoom: Self)
        ensures
            zoom.valid(),
            zoom.micros == in_range(micros as int),
    {
        if micros < MIN_ZOOM as u64 {
            PanelZoom { micros: MIN_ZOOM }
        } else if micros > MAX_ZOOM as u64 {
            PanelZoom { micros: MAX_ZOOM }
        } else {
            PanelZoom { micros: micros as u32 }
        }
    }

    pub fn one() -> (zoom: Self)
        ensures
            zoom.micros == ZOOM_ONE,
            zoom.valid(),
    {
        PanelZoom { micros: ZOOM_ONE }
    }
}

pub open spec fn larger(a: int, b: int) -> int {
    if a >= b {
        a
    } else {
        b
    }
}

pub open spec fn smaller(a: int, b: int) -> int {
    if a <= b {
        a
    } else {
        b
    }
}

/// The longest side of a layout: the renderer's, but never one too small to be
/// sent.
pub open spec fn side_limit(max_texture_side: nat) -> int {
    larger(max_texture_side as int, MIN_STABLE_VIEWPORT_SIDE as int)
}

pub open spec fn divided_up(a: int, b: int) -> int {
    (a + b - 1) / b
}

/// The least zoom factor: that of the selector, or the one at which the layout
/// has the longest side or the most pixels allowed.
pub open spec fn zoom_floor(size: BodySize, max_texture_side: nat) -> int {
    let limit = side_limit(max_texture_side);
    larger(
        larger(divided_up(size.width * 1000, limit), divided_up(size.height * 1000, limit)),
        larger(
            least_root(
                (size.width * size.height * 1_000_000) as nat,
                MAX_FRAME_PIXELS as nat,
            ) as int,
            MIN_ZOOM as int,
        ),
    )
}

/// The greatest: where the shorter side would become too small to be sent.
pub open spec fn zoom_ceiling(size: BodySize, max_texture_side: nat) -> int {
    larger(
        smaller(size.width as int, size.height as int) * 1000 / MIN_STABLE_VIEWPORT_SIDE as int,
        zoom_floor(size, max_texture_side),
    )
}

pub open spec fn applied_zoom(size: BodySize, zoom: PanelZoom, max_texture_side: nat) -> int {
    let floor = zoom_floor(size, max_texture_side);
    let ceiling = zoom_ceiling(size, max_texture_side);
    if zoom.micros < floor {
        floor
    } else if zoom.micros > ceiling {
        ceiling
    } else {
        zoom.micros as int
    }
}

fn limit_of(max_texture_side: usize) -> (limit: u64)
    ensures
        limit == side_limit(max_texture_side as nat),
{
    let side: u64 = max_texture_side as u64;
    if side >= MIN_STABLE_VIEWPORT_SIDE as u64 {
        side
    } else {
        MIN_STABLE_VIEWPORT_SIDE as u64
    }
}

fn divide_up(a: u64, b: u64) -> (q: u64)
    requires
        b > 0,
        a <= 0x3ff_ffff_ffff,
    ensures
        q == divided_up(a as int, b as int),
        q <= a,
{
    let q: u128 = (a as u128 + (b as u128 - 1)) / (b as u128);
    assert(q <= a) by (nonlinear_arith)
        requires
            b > 0,
            a >= 0,
            q == (a + (b - 1)) / (b as int),
    ;
    q as u64
}

fn larger_of(a: u64, b: u64) -> (m: u64)
    ensures
        m == larger(a as int, b as int),
{
    if a >= b {
        a
    } else {
        b
    }
}

/// The zoom that a panel can apply, and so the one that its selector shows.
pub fn effective_zoom(size: BodySize, zoom: PanelZoom, max_texture_side: usize) -> (micros: u64)
    ensures
        micros == applied_zoom(size, zoom, max_texture_side as nat),
        MIN_ZOOM <= zoom_floor(size, max_texture_side as nat) <= micros,
        micros <= 0x3ff_ffff_ffff,
{
    let limit: u64 = limit_of(max_texture_side);
    let w: u64 = size.width as u64;
    let h: u64 = size.height as u64;
    assert(0 <= w * h <= 0xffff_ffff * 0xffff_ffff) by (nonlinear_arith)
        requires
            0 <= w <= 0xffff_ffff,
            0 <= h <= 0xffff_ffff,
    ;
    let area: u128 = w as u128 * h as u128;
    let root: u64 = root_up(area * 1_000_000, MAX_FRAME_PIXELS as u128);
    let floor: u64 = larger_of(
        larger_of(divide_up(w * 1000, limit), divide_up(h * 1000, limit)),
        larger_of(root, MIN_ZOOM as u64),
    );
    let short: u64 = if w <= h {
        w
    } else {
        h
    };
    let ceiling: u64 = larger_of(short * 1000 / MIN_STABLE_VIEWPORT_SIDE as u64, floor);
    let asked: u64 = zoom.micros as u64;
    if asked < floor {
        floor
    } else if asked > ceiling {
        ceiling
    } else {
        asked
    }
}

/// A side of the layout at a zoom factor, rounded to a page pixel and kept
/// within what can be sent.
pub open spec fn layout_side(side: u32, zoom: int, limit: int) -> int {
    let rounded = (2 * side * 1000 + zoom) / (2 * zoom);
    if rounded < MIN_STABLE_VIEWPORT_SIDE {
        MIN_STABLE_VIEWPORT_SIDE as int
    } else if rounded > limit {
        limit
    } else {
        rounded
    }
}

/// Rounding both sides can pass the pixel budget; shortening the longer side
/// takes the fewest pixels.
pub open spec fn within_budget(width: int, height: int) -> (int, int) {
    if width * height > MAX_FRAME_PIXELS {
        if width >= height {
            (MAX_FRAME_PIXELS as int / height, height)
        } else {
            (width, MAX_FRAME_PIXELS as int / width)
        }
    } else {
        (width, height)
    }
}

pub open spec fn laid_out(size: BodySize, zoom: PanelZoom, max_texture_side: nat) -> (int, int) {
    let z = applied_zoom(size, zoom, max_texture_side);
    let limit = side_limit(max_texture_side);
    within_budget(layout_side(size.width, z, limit), layout_side(size.height, z, limit))
}

fn side_at(side: u32, zoom: u64, limit: u64) -> (s: u32)
    requires
        MIN_ZOOM <= zoom <= 0x3ff_ffff_ffff,
        limit >= MIN_STABLE_VIEWPORT_SIDE,
    ensures
        s == layout_side(side, zoom as int, limit as int),
        s >= MIN_STABLE_VIEWPORT_SIDE,
        s <= limit,
{
    let doubled: u64 = 2 * (side as u64) * 1000 + zoom;
    let rounded: u64 = doubled / (2 * zoom);
    let ghost d: int = 2 * zoom;
    assert(rounded * d <= doubled) by (nonlinear_arith)
        requires
            d > 0,
            rounded == doubled / (d as u64),
            d == d as u64,
    ;
    if rounded > 0xffff_ffff {
        assert(rounded * d >= 0x1_0000_0000 * d) by (nonlinear_arith)
            requires
                rounded >= 0x1_0000_0000,
                d > 0,
        ;
    }
    if rounded < MIN_STABLE_VIEWPORT_SIDE as u64 {
        MIN_STABLE_VIEWPORT_SIDE
    } else if rounded > limit {
        limit as u32
    } else {
        rounded as u32
    }
}

/// The layout size of a body at a zoom factor. One factor cannot always serve
/// both sides of a very long body: each is then kept within what can be sent,
/// and the frame is fitted as usual.
pub fn zoomed_viewport(size: BodySize, zoom: PanelZoom, max_texture_side: usize) -> (viewport:
    Viewport)
    ensures
        (viewport.width as int, viewport.height as int) == laid_out(
            size,
            zoom,
            max_texture_side as nat,
        ),
{
    let z: u64 = effective_zoom(size, zoom, max_texture_side);
    let limit: u64 = limit_of(max_texture_side);
    let width: u32 = side_at(size.width, z, limit);
    let height: u32 = side_at(size.height, z, limit);
    assert(0 <= width * height <= 0xffff_ffff * 0xffff_ffff) by (nonlinear_arith)
        requires
            0 <= width <= 0xffff_ffff,
            0 <= height <= 0xffff_ffff,
    ;
    if width as u64 * height as u64 > MAX_FRAME_PIXELS as u64 {
        if width >= height {
            Viewport { width: MAX_FRAME_PIXELS / height, height }
        } else {
            Viewport { width, height: MAX_FRAME_PIXELS / width }
        }
    } else {
        Viewport { width, height }
    }
}

/// At a factor whose square covers the body's pixels, the shorter side is at
/// most that of a square of the budget.
proof fn lemma_shorter_side(size: BodySize, z: int, limit: int)
    requires
        z >= MIN_ZOOM,
        z * z * MAX_FRAME_PIXELS >= size.width * size.height * 1_000_000,
        limit >= MIN_STABLE_VIEWPORT_SIDE,
    ensures
        layout_side(size.width, z, limit) <= 2881 || layout_side(size.height, z, limit) <= 2881,
{
    let w = layout_side(size.width, z, limit);
    let h = layout_side(size.height, z, limit);
    if w > 2881 && h > 2881 {
        let x = 2000 * size.width;
        let y = 2000 * size.height;
        lemma_rounded(size.width as int, z, w);
        lemma_rounded(size.height as int, z, h);
        assert(x * y >= 5763 * z * (5763 * z)) by (nonlinear_arith)
            requires
                x >= 5763 * z,
                y >= 5763 * z,
                z > 0,
        ;
        assert(x * y == 4 * (size.width * size.height * 1_000_000)) by (nonlinear_arith)
            requires
                x == 2000 * size.width,
                y == 2000 * size.height,
        ;
        assert(5763 * z * (5763 * z) == 33_212_169 * (z * z)) by (nonlinear_arith);
        assert(z * z * 8_294_400 == 8_294_400 * (z * z)) by (nonlinear_arith);
        assert(z * z > 0) by (nonlinear_arith)
            requires
                z > 0,
        ;
        assert(false);
    }
}

proof fn lemma_rounded(side: int, z: int, s: int)
    requires
        z > 0,
        s >= 2882,
        s <= (2 * side * 1000 + z) / (2 * z),
    ensures
        2000 * side >= 5763 * z,
{
    let q = (2 * side * 1000 + z) / (2 * z);
    assert(q * (2 * z) <= 2 * side * 1000 + z) by (nonlinear_arith)
        requires
            z > 0,
            q == (2 * side * 1000 + z) / (2 * z),
    ;
    assert(q * (2 * z) >= 2882 * (2 * z)) by (nonlinear_arith)
        requires
            q >= 2882,
            z > 0,
    ;
}

/// A layout has sides that are sent, no side that the renderer refuses, and no
/// more pixels than a frame may have.
pub proof fn law_layouts_can_be_sent(size: BodySize, zoom: PanelZoom, max_texture_side: nat)
    ensures
        ({
            let (width, height) = laid_out(size, zoom, max_texture_side);
            &&& MIN_STABLE_VIEWPORT_SIDE <= width <= side_limit(max_texture_side)
            &&& MIN_STABLE_VIEWPORT_SIDE <= height <= side_limit(max_texture_side)
            &&& width * height <= MAX_FRAME_PIXELS
        }),
{
    let z = applied_zoom(size, zoom, max_texture_side);
    let limit = side_limit(max_texture_side);
    let w = layout_side(size.width, z, limit);
    let h = layout_side(size.height, z, limit);
    let floor = zoom_floor(size, max_texture_side);
    let n = (size.width * size.height * 1_000_000) as nat;
    assert(size.width * size.height >= 0) by (nonlinear_arith)
        requires
            size.width >= 0,
            size.height >= 0,
    ;
    lemma_root_exists(n, MAX_FRAME_PIXELS as nat);
    let root = least_root(n, MAX_FRAME_PIXELS as nat);
    assert(z * z * MAX_FRAME_PIXELS >= n) by (nonlinear_arith)
        requires
            z >= root,
            root * root * MAX_FRAME_PIXELS >= n,
    ;
    lemma_shorter_side(size, z, limit);
    if w * h > MAX_FRAME_PIXELS {
        if w >= h {
            assert(MAX_FRAME_PIXELS as int / h >= 33 && (MAX_FRAME_PIXELS as int / h) * h
                <= MAX_FRAME_PIXELS && MAX_FRAME_PIXELS as int / h <= w) by (nonlinear_arith)
                requires
                    33 <= h <= 2881,
                    w * h > MAX_FRAME_PIXELS,
                    MAX_FRAME_PIXELS == 8_294_400,
            ;
        } else {
            assert(MAX_FRAME_PIXELS as int / w >= 33 && w * (MAX_FRAME_PIXELS as int / w)
                <= MAX_FRAME_PIXELS && MAX_FRAME_PIXELS as int / w <= h) by (nonlinear_arith)
                requires
                    33 <= w <= 2881,
                    w * h > MAX_FRAME_PIXELS,
                    MAX_FRAME_PIXELS == 8_294_400,
            ;
        }
    }
}

/// How much a frame is magnified to fit: no further than the selector goes
/// where the layout follows the panel; a fixed one always fills its body.
pub open spec fn fitted_scale(size: BodySize, frame: FrameSize, responsive: bool) -> int {
    let fitted = smaller(
        size.width * 1000 / frame.width as int,
        size.height * 1000 / frame.height as int,
    );
    if responsive {
        smaller(fitted, MAX_ZOOM as int)
    } else {
        fitted
    }
}

pub fn frame_scale(size: BodySize, frame: FrameSize, responsive: bool) -> (micros: u64)
    requires
        frame.width > 0,
        frame.height > 0,
    ensures
        micros == fitted_scale(size, frame, responsive),
        micros <= 0x3ff_ffff_ffff,
{
    let x: u64 = size.width as u64 * 1000 / frame.width as u64;
    let y: u64 = size.height as u64 * 1000 / frame.height as u64;
    assert(x <= size.width * 1000) by (nonlinear_arith)
        requires
            x == (size.width * 1000) as u64 / (frame.width as u64),
            frame.width > 0,
            size.width * 1000 <= u64::MAX,
    ;
    let fitted: u64 = if x <= y {
        x
    } else {
        y
    };
    if responsive && fitted > MAX_ZOOM as u64 {
        MAX_ZOOM as u64
    } else {
        fitted
    }
}

/// A fitted frame is no larger than its body.
pub proof fn law_fitted_frames_fit(size: BodySize, frame: FrameSize, responsive: bool)
    requires
        frame.width > 0,
        frame.height > 0,
    ensures
        frame.width * fitted_scale(size, frame, responsive) <= size.width * 1000,
        frame.height * fitted_scale(size, frame, responsive) <= size.height * 1000,
        fitted_scale(size, frame, responsive) >= 0,
{
    let s = fitted_scale(size, frame, responsive);
    let a = size.width * 1000;
    let b = size.height * 1000;
    let w = frame.width as int;
    let h = frame.height as int;
    assert(w * (a / w) <= a && a / w >= 0) by (nonlinear_arith)
        requires
            w > 0,
            a >= 0,
    ;
    assert(h * (b / h) <= b && b / h >= 0) by (nonlinear_arith)
        requires
            h > 0,
            b >= 0,
    ;
    assert(w * s <= w * (a / w)) by (nonlinear_arith)
        requires
            w > 0,
            s <= a / w,
    ;
    assert(h * s <= h * (b / h)) by (nonlinear_arith)
        requires
            h > 0,
            s <= b / h,
    ;
}

pub open spec fn rounded_side(side: u32) -> u32 {
    ((side + 500) / 1000) as u32
}

/// A body's own size in whole points.
pub fn rounded_viewport(size: BodySize) -> (viewport: Viewport)
    ensures
        viewport == (Viewport {
            width: rounded_side(size.width),
            height: rounded_side(size.height),
        }),
{
    Viewport {
        width: ((size.width as u64 + 500) / 1000) as u32,
        height: ((size.height as u64 + 500) / 1000) as u32,
    }
}

/// The zoom that a panel asks for, and the one it shows.
#[derive(Clone, Copy, Debug, PartialEq, Eq, Structural)]
pub struct ZoomState {
    pub zoom: PanelZoom,
    pub effective_zoom: PanelZoom,
}

/// What one frame's layout comes to.
#[derive(Clone, Copy, Debug, PartialEq, Eq, Structural)]
pub struct LayoutSizes {
    pub viewport: Viewport,
    pub host_viewport: Viewport,
    /// The selector has painted another factor already.
    pub repaint: bool,
}

pub open spec fn frame_side(side: int) -> u16 {
    if side > u16::MAX {
        u16::MAX
    } else {
        side as u16
    }
}

fn frame_side_of(side: u32) -> (s: u16)
    ensures
        s == frame_side(side as int),
{
    if side > 0xffff {
        0xffff
    } else {
        side as u16
    }
}

impl ZoomState {
    pub open spec fn valid(self) -> bool {
        self.zoom.valid() && self.effective_zoom.valid()
    }

    /// The factor at which the layout is shown.
    pub open spec fn shown(self, size: BodySize, max_texture_side: nat) -> PanelZoom {
        let (width, height) = laid_out(size, self.zoom, max_texture_side);
        PanelZoom {
            micros: in_range(
                fitted_scale(
                    size,
                    FrameSize { width: frame_side(width), height: frame_side(height) },
                    true,
                ),
            ) as u32,
        }
    }

    pub fn new() -> (state: Self)
        ensures
            state.valid(),
            state.zoom.micros == ZOOM_ONE,
            state.effective_zoom.micros == ZOOM_ONE,
    {
        ZoomState { zoom: PanelZoom::one(), effective_zoom: PanelZoom::one() }
    }

    /// Lays a body out and records the factor that it is really shown at.
    pub fn sync_viewport_sizes(&mut self, size: BodySize, max_texture_side: usize) -> (sizes:
        LayoutSizes)
        ensures
            (sizes.viewport.width as int, sizes.viewport.height as int) == laid_out(
                size,
                old(self).zoom,
                max_texture_side as nat,
            ),
            sizes.host_viewport.width == rounded_side(size.width),
            sizes.host_viewport.height == rounded_side(size.height),
            final(self).zoom == old(self).zoom,
            final(self).effective_zoom == old(self).shown(size, max_texture_side as nat),
            sizes.repaint == (final(self).effective_zoom != old(self).effective_zoom),
    {
        proof {
            law_layouts_can_be_sent(size, self.zoom, max_texture_side as nat);
        }
        let viewport = zoomed_viewport(size, self.zoom, max_texture_side);
        let frame = FrameSize {
            width: frame_side_of(viewport.width),
            height: frame_side_of(viewport.height),
        };
        let effective = PanelZoom::new(frame_scale(size, frame, true));
        let repaint = self.effective_zoom != effective;
        self.effective_zoom = effective;
        LayoutSizes { viewport, host_viewport: rounded_viewport(size), repaint }
    }

    /// A gesture acts on the factor that is shown. One that a limit held back is
    /// kept only while the gesture pushes further past it, so that coming back
    /// answers at once.
    pub open spec fn gesture_base(self, delta: u32) -> PanelZoom {
        if (self.zoom.micros > self.effective_zoom.micros && delta > ZOOM_ONE) || (
        self.zoom.micros < self.effective_zoom.micros && delta < ZOOM_ONE) {
            self.zoom
        } else {
            self.effective_zoom
        }
    }

    pub open spec fn gestured(self, delta: u32) -> PanelZoom {
        PanelZoom {
            micros: in_range(self.gesture_base(delta).micros * delta / ZOOM_ONE as int) as u32,
        }
    }

    /// A zoom gesture over the panel, as a factor in millionths; a panel whose
    /// page keeps its own size has no zoom. Says whether a frame is due: a page
    /// at rest makes none of its own.
    pub fn apply_zoom_gesture(&mut self, supports_zoom: bool, delta: Option<u32>) -> (repaint: bool)
        ensures
            repaint == (final(self).zoom != old(self).zoom),
            final(self).effective_zoom == old(self).effective_zoom,
            final(self).zoom == match delta {
                Some(d) => if supports_zoom {
                    old(self).gestured(d)
                } else {
                    old(self).zoom
                },
                None => old(self).zoom,
            },
    {
        if !supports_zoom {
            return false;
        }
        match delta {
            None => false,
            Some(delta) => {
                let requested: u32 = self.zoom.micros;
                let effective: u32 = self.effective_zoom.micros;
                let pushes_past_cap = (requested > effective && delta > ZOOM_ONE) || (requested
                    < effective && delta < ZOOM_ONE);
                let base: u32 = if pushes_past_cap {
                    requested
                } else {
                    effective
                };
                assert(base * delta <= 0xffff_ffff * 0xffff_ffff) by (nonlinear_arith)
                    requires
                        0 <= base <= 0xffff_ffff,
                        0 <= delta <= 0xffff_ffff,
                ;
                let target = PanelZoom::new(base as u64 * delta as u64 / ZOOM_ONE as u64);
                let changed = target != self.zoom;
                self.zoom = target;
                changed
            },
        }
    }
}

/// Whether a panel's page can be zoomed: its layout follows the panel and is not
/// pinned.
pub fn supports_panel_zoom(adjustable: bool, explicit: Option<Viewport>) -> (yes: bool)
    ensures
        yes == (adjustable && explicit is None),
{
    adjustable && explicit.is_none()
}

/// Whether a pinch that the panel does not take may zoom the canvas behind it.
pub fn canvas_fallback(fullscreen: bool, supports_zoom: bool, native_pinch: bool) -> (yes: bool)
    ensures
        yes == (!fullscreen && !supports_zoom && native_pinch),
{
    !fullscreen && !supports_zoom && native_pinch
}

/// A factor is kept between a quarter and four times.
pub proof fn law_factors_are_kept_in_range(micros: int)
    ensures
        250_000 <= in_range(micros) <= 4_000_000,
        250_000 <= micros <= 4_000_000 ==> in_range(micros) == micros,
        micros < 250_000 ==> in_range(micros) == 250_000,
        micros > 4_000_000 ==> in_range(micros) == 4_000_000,
{
}

/// A factor that leaves every side between 33 pixels and what the renderer
/// takes, and no more than 3840 by 2160 pixels, is applied as it is.
pub proof fn law_factors_are_applied_where_they_can(
    size: BodySize,
    zoom: PanelZoom,
    max_texture_side: nat,
)
    requires
        zoom.valid(),
        max_texture_side >= 33,
        size.width * 1000 <= zoom.micros * max_texture_side,
        size.height * 1000 <= zoom.micros * max_texture_side,
        size.width * 1000 >= zoom.micros * 33,
        size.height * 1000 >= zoom.micros * 33,
        size.width * size.height * 1_000_000 <= zoom.micros * zoom.micros * 8_294_400,
    ensures
        applied_zoom(size, zoom, max_texture_side) == zoom.micros,
{
    let z = zoom.micros as int;
    let m = max_texture_side as int;
    let n = (size.width * size.height * 1_000_000) as nat;
    let b = MAX_FRAME_PIXELS as nat;
    assert(size.width * size.height >= 0) by (nonlinear_arith)
        requires
            size.width >= 0,
            size.height >= 0,
    ;
    lemma_root_exists(n, b);
    let root = least_root(n, b);
    if root > z {
        assert((root - 1) * (root - 1) * b >= z * z * b) by (nonlinear_arith)
            requires
                root - 1 >= z,
                z >= 0,
                b >= 0,
        ;
        assert(false);
    }
    lemma_divided_up(size.width * 1000, m, z);
    lemma_divided_up(size.height * 1000, m, z);
    let short = smaller(size.width as int, size.height as int);
    assert(short * 1000 / 33 >= z) by (nonlinear_arith)
        requires
            short * 1000 >= z * 33,
    ;
}

proof fn lemma_divided_up(a: int, b: int, z: int)
    requires
        b > 0,
        a <= z * b,
    ensures
        divided_up(a, b) <= z,
{
    let q = (a + b - 1) / b;
    vstd::arithmetic::div_mod::lemma_fundamental_div_mod(a + b - 1, b);
    vstd::arithmetic::div_mod::lemma_mod_bound(a + b - 1, b);
    assert(q <= z) by (nonlinear_arith)
        requires
            b > 0,
            b * q <= a + b - 1,
            a <= z * b,
    ;
}

/// The layout of a body is its size divided by the factor, rounded.
pub proof fn law_layouts_are_the_body_divided_by_the_factor(side: u32, zoom: int, limit: int)
    requires
        zoom > 0,
        limit >= 33,
    ensures
        ({
            let s = layout_side(side, zoom, limit);
            let exact = side * 1000;
            &&& 33 <= s <= limit
            &&& 33 < s < limit ==> 2 * s * zoom - zoom <= 2 * exact < 2 * s * zoom + zoom
            &&& s == 33 && limit > 33 ==> 2 * exact < 67 * zoom
            &&& s == limit && s > 33 ==> 2 * exact >= 2 * limit * zoom - zoom
        }),
{
    let n = 2 * side * 1000 + zoom;
    let d = 2 * zoom;
    let q = n / d;
    let s = layout_side(side, zoom, limit);
    vstd::arithmetic::div_mod::lemma_fundamental_div_mod(n, d);
    vstd::arithmetic::div_mod::lemma_mod_bound(n, d);
    assert(d * q == 2 * q * zoom) by (nonlinear_arith)
        requires
            d == 2 * zoom,
    ;
    if q < 33 {
        assert(2 * q * zoom <= 64 * zoom) by (nonlinear_arith)
            requires
                q <= 32,
                zoom > 0,
        ;
    } else if q > limit {
        assert(2 * q * zoom >= 2 * limit * zoom) by (nonlinear_arith)
            requires
                q >= limit,
                zoom > 0,
        ;
    }
    if s == 33 {
        assert(2 * s * zoom == 66 * zoom);
    }
}

/// Shortening takes the longer side, and no more of it than it must.
pub proof fn law_the_longer_side_is_shortened(width: int, height: int)
    requires
        width > 0,
        height > 0,
    ensures
        ({
            let (w, h) = within_budget(width, height);
            &&& width * height <= 8_294_400 ==> w == width && h == height
            &&& width * height > 8_294_400 && width >= height ==> h == height && w * height
                <= 8_294_400 < (w + 1) * height
            &&& width * height > 8_294_400 && width < height ==> w == width && width * h
                <= 8_294_400 < width * (h + 1)
        }),
{
    vstd::arithmetic::div_mod::lemma_fundamental_div_mod(8_294_400, height);
    vstd::arithmetic::div_mod::lemma_mod_bound(8_294_400, height);
    vstd::arithmetic::div_mod::lemma_fundamental_div_mod(8_294_400, width);
    vstd::arithmetic::div_mod::lemma_mod_bound(8_294_400, width);
    let a = 8_294_400int / height;
    let b = 8_294_400int / width;
    assert(height * a == a * height && (a + 1) * height == a * height + height) by (
    nonlinear_arith);
    assert(width * (b + 1) == width * b + width) by (nonlinear_arith);
}

/// A fitted frame cannot be magnified any further: the next millionth would make
/// it larger than its body, or pass four times where the layout follows the
/// panel.
pub proof fn law_fitted_frames_fill_their_body(size: BodySize, frame: FrameSize, responsive: bool)
    requires
        frame.width > 0,
        frame.height > 0,
    ensures
        ({
            let next = fitted_scale(size, frame, responsive) + 1;
            ||| frame.width * next > size.width * 1000
            ||| frame.height * next > size.height * 1000
            ||| responsive && next == 4_000_001
        }),
{
    let w = frame.width as int;
    let h = frame.height as int;
    let a = size.width * 1000;
    let b = size.height * 1000;
    vstd::arithmetic::div_mod::lemma_fundamental_div_mod(a, w);
    vstd::arithmetic::div_mod::lemma_mod_bound(a, w);
    vstd::arithmetic::div_mod::lemma_fundamental_div_mod(b, h);
    vstd::arithmetic::div_mod::lemma_mod_bound(b, h);
    assert(w * (a / w + 1) == w * (a / w) + w) by (nonlinear_arith);
    assert(h * (b / h + 1) == h * (b / h) + h) by (nonlinear_arith);
}

/// A body's own size is rounded to whole points.
pub proof fn law_points_are_rounded(side: u32)
    ensures
        rounded_side(side) * 1000 <= side + 500 < rounded_side(side) * 1000 + 1000,
{
}

/// A gesture multiplies the factor that is shown, or the one that was asked for
/// while it is pushed further past a limit.
pub proof fn law_gestures_multiply_the_factor(state: ZoomState, delta: u32)
    requires
        state.valid(),
    ensures
        ({
            let past = (state.zoom.micros > state.effective_zoom.micros && delta > 1_000_000) || (
            state.zoom.micros < state.effective_zoom.micros && delta < 1_000_000);
            let base = if past {
                state.zoom.micros
            } else {
                state.effective_zoom.micros
            };
            let product = base * delta;
            let z = state.gestured(delta).micros;
            &&& 250_000 <= z <= 4_000_000
            &&& 250_000_000_000 <= product < 4_000_000_000_000 ==> z * 1_000_000 <= product < z
                * 1_000_000 + 1_000_000
            &&& product < 250_000_000_000 ==> z == 250_000
            &&& product >= 4_000_000_000_000 ==> z == 4_000_000
        }),
{
    let base = state.gesture_base(delta).micros;
    vstd::arithmetic::div_mod::lemma_fundamental_div_mod(base * delta, 1_000_000);
    vstd::arithmetic::div_mod::lemma_mod_bound(base * delta, 1_000_000);
    assert(base * delta >= 0) by (nonlinear_arith)
        requires
            base >= 0,
            delta >= 0,
    ;
}

/// A frame's side is what it says, as far as it can be said.
pub proof fn law_frame_sides_are_kept(side: int)
    ensures
        0 <= side <= 65_535 ==> frame_side(side) == side,
        side > 65_535 ==> frame_side(side) == 65_535,
{
}

} // verus!
