//! The camera over the canvas: where canvas points stand on the screen, and how
//! the view pans and zooms. Lengths are thousandths of a point, zoom factors
//! millionths; what falls between is rounded to the nearest.
use vstd::prelude::*;

verus! {

/// One to one.
pub const UNIT_ZOOM: u32 = 1_000_000;

/// A region brought to the left edge stands this far from it.
pub const PAN_MARGIN: i64 = 40_000;

/// How much of the remaining way an animated pan covers in a second.
pub const PAN_RATE: u64 = 20;

/// A pan that is nearer to its target than this has arrived.
pub const PAN_ARRIVED: i64 = 1_000;

/// A point or an offset, on the canvas or on the screen.
#[derive(Clone, Copy, Debug, PartialEq, Eq, Structural)]
pub struct Point {
    pub x: i64,
    pub y: i64,
}

/// A coordinate; one that the numbers cannot hold stands at their end.
pub open spec fn held(v: int) -> i64 {
    if v < i64::MIN {
        i64::MIN
    } else if v > i64::MAX {
        i64::MAX
    } else {
        v as i64
    }
}

fn hold(v: i128) -> (h: i64)
    ensures
        h == held(v as int),
{
    if v < -0x8000_0000_0000_0000 {
        -0x8000_0000_0000_0000
    } else if v > 0x7fff_ffff_ffff_ffff {
        0x7fff_ffff_ffff_ffff
    } else {
        v as i64
    }
}

/// The fraction `n / d` to the nearest integer, upward from the middle.
pub open spec fn nearest(n: int, d: int) -> int {
    (2 * n + d) / (2 * d)
}

/// What it means to be nearest.
proof fn lemma_nearest(n: int, d: int)
    requires
        d > 0,
    ensures
        -d <= 2 * (n - nearest(n, d) * d) < d,
{
    let k = nearest(n, d);
    let m = 2 * n + d;
    let w = 2 * d;
    vstd::arithmetic::div_mod::lemma_fundamental_div_mod(m, w);
    vstd::arithmetic::div_mod::lemma_mod_bound(m, w);
    assert(w * k == 2 * (k * d)) by (nonlinear_arith)
        requires
            w == 2 * d,
    ;
}

/// A nearest integer is bounded where the fraction is.
proof fn lemma_nearest_bounds(n: int, d: int, low: int, high: int)
    requires
        d > 0,
        low * d <= n <= high * d,
    ensures
        low <= nearest(n, d) <= high,
{
    lemma_nearest(n, d);
    let k = nearest(n, d);
    assert(low <= k) by (nonlinear_arith)
        requires
            low * d <= n,
            2 * (n - k * d) < d,
            d > 0,
    ;
    assert(k <= high) by (nonlinear_arith)
        requires
            n <= high * d,
            -d <= 2 * (n - k * d),
            d > 0,
    ;
}

/// Whatever is near enough is the nearest.
proof fn lemma_nearest_is(n: int, d: int, k: int)
    requires
        d > 0,
        -d <= 2 * (n - k * d) < d,
    ensures
        nearest(n, d) == k,
{
    lemma_nearest(n, d);
    let j = nearest(n, d);
    assert(j == k) by (nonlinear_arith)
        requires
            -d <= 2 * (n - k * d) < d,
            -d <= 2 * (n - j * d) < d,
            d > 0,
    ;
}

fn divide_nearest(n: i128, d: i128) -> (k: i128)
    requires
        d > 0,
        d <= 0x1_0000_0000_0000,
        -0x100_0000_0000_0000_0000_0000_0000_0000 <= n
            <= 0x100_0000_0000_0000_0000_0000_0000_0000,
    ensures
        k == nearest(n as int, d as int),
{
    let m: i128 = 2 * n + d;
    let w: i128 = 2 * d;
    if m >= 0 {
        let q: u128 = m as u128 / w as u128;
        assert(0 <= q <= m) by (nonlinear_arith)
            requires
                q == m / w,
                m >= 0,
                w > 0,
        ;
        q as i128
    } else {
        let up: u128 = ((-m) as u128 + (w as u128 - 1)) / w as u128;
        proof {
            let a = (-m) + (w - 1);
            vstd::arithmetic::div_mod::lemma_fundamental_div_mod(a, w as int);
            vstd::arithmetic::div_mod::lemma_mod_bound(a, w as int);
            vstd::arithmetic::div_mod::lemma_fundamental_div_mod(m as int, w as int);
            vstd::arithmetic::div_mod::lemma_mod_bound(m as int, w as int);
            let q = m as int / w as int;
            let u = up as int;
            assert(u == -q) by (nonlinear_arith)
                requires
                    a == w * u + a % (w as int),
                    0 <= a % (w as int) < w,
                    m == w * q + m as int % (w as int),
                    0 <= m as int % (w as int) < w,
                    a == -m + w - 1,
                    w > 0,
            ;
            assert(0 <= u <= a) by (nonlinear_arith)
                requires
                    u == a / (w as int),
                    a >= 0,
                    w > 0,
            ;
        }
        -(up as i128)
    }
}

/// A canvas length as it shows on the screen.
pub open spec fn zoomed(length: int, zoom: u32) -> int {
    nearest(length * zoom, UNIT_ZOOM as int)
}

/// A screen length as it measures on the canvas.
pub open spec fn unzoomed(length: int, zoom: u32) -> int {
    nearest(length * UNIT_ZOOM, zoom as int)
}

/// Where the camera is.
#[derive(Clone, Copy, Debug, PartialEq, Eq, Structural)]
pub struct CanvasView {
    pub pan: Point,
    pub zoom: u32,
}

impl CanvasView {
    pub open spec fn valid(self) -> bool {
        self.zoom > 0
    }

    /// A canvas coordinate on the screen: scaled, then moved by the pan and by
    /// where the canvas begins.
    pub open spec fn screen_x(self, origin: Point, x: int) -> int {
        origin.x + self.pan.x + zoomed(x, self.zoom)
    }

    pub open spec fn screen_y(self, origin: Point, y: int) -> int {
        origin.y + self.pan.y + zoomed(y, self.zoom)
    }

    pub open spec fn canvas_x(self, origin: Point, x: int) -> int {
        unzoomed(x - origin.x - self.pan.x, self.zoom)
    }

    pub open spec fn canvas_y(self, origin: Point, y: int) -> int {
        unzoomed(y - origin.y - self.pan.y, self.zoom)
    }

    /// The pan that brings a region of `size` at `at` to the middle of the room;
    /// aligned to the left, only the height is centred.
    pub open spec fn heading(
        self,
        room: Point,
        at: (int, int),
        size: (int, int),
        left_align: bool,
    ) -> Point {
        Point {
            x: held(
                if left_align {
                    PAN_MARGIN - zoomed(at.0, self.zoom)
                } else {
                    centred(at.0, size.0, room.x as int, self.zoom)
                },
            ),
            y: held(centred(at.1, size.1, room.y as int, self.zoom)),
        }
    }
}

fn zoom_length(length: i128, zoom: u32) -> (shown: i128)
    requires
        -0x40_0000_0000_0000_0000_0000 <= length <= 0x40_0000_0000_0000_0000_0000,
    ensures
        shown == zoomed(length as int, zoom),
        -0x40_0000_0000_0000_0000_0000_0000 <= shown <= 0x40_0000_0000_0000_0000_0000_0000,
{
    proof {
        assert(-0x40_0000_0000_0000_0000_0000 * 0xffff_ffff <= length * zoom
            <= 0x40_0000_0000_0000_0000_0000 * 0xffff_ffff) by (nonlinear_arith)
            requires
                -0x40_0000_0000_0000_0000_0000 <= length <= 0x40_0000_0000_0000_0000_0000,
                0 <= zoom <= 0xffff_ffff,
        ;
        lemma_nearest_bounds(
            length * zoom,
            UNIT_ZOOM as int,
            -0x40_0000_0000_0000_0000_0000_0000,
            0x40_0000_0000_0000_0000_0000_0000,
        );
    }
    divide_nearest(length * zoom as i128, UNIT_ZOOM as i128)
}

fn unzoom_length(length: i128, zoom: u32) -> (measured: i128)
    requires
        zoom > 0,
        -0x4_0000_0000_0000_0000 <= length <= 0x4_0000_0000_0000_0000,
    ensures
        measured == unzoomed(length as int, zoom),
        -0x40_0000_0000_0000_0000_0000 <= measured <= 0x40_0000_0000_0000_0000_0000,
{
    assert(UNIT_ZOOM == 1_000_000);
    let n: i128 = length * 1_000_000;
    proof {
        let most = 0x40_0000_0000_0000_0000_0000int;
        let factor = zoom as int;
        let product = n as int;
        assert(-most <= product <= most);
        assert(-most * factor <= product <= most * factor) by (nonlinear_arith)
            requires
                -most <= product <= most,
                most == 0x40_0000_0000_0000_0000_0000int,
                factor >= 1,
        ;
        lemma_nearest_bounds(product, factor, -most, most);
    }
    divide_nearest(n, zoom as i128)
}

/// A coordinate of the canvas on the screen, however far out.
pub(crate) fn screen_side(origin: i64, pan: i64, at: i128, zoom: u32) -> (side: i128)
    requires
        -0x4_0000_0000_0000_0000 <= at <= 0x4_0000_0000_0000_0000,
    ensures
        side == origin + pan + zoomed(at as int, zoom),
{
    origin as i128 + pan as i128 + zoom_length(at, zoom)
}

/// Where a canvas point stands on the screen.
pub fn canvas_to_screen(view: CanvasView, origin: Point, position: Point) -> (screen: Point)
    ensures
        screen.x == held(view.screen_x(origin, position.x as int)),
        screen.y == held(view.screen_y(origin, position.y as int)),
{
    Point {
        x: hold(screen_side(origin.x, view.pan.x, position.x as i128, view.zoom)),
        y: hold(screen_side(origin.y, view.pan.y, position.y as i128, view.zoom)),
    }
}

/// Which canvas point stands at a place on the screen.
pub fn screen_to_canvas(view: CanvasView, origin: Point, screen: Point) -> (position: Point)
    requires
        view.valid(),
    ensures
        position.x == held(view.canvas_x(origin, screen.x as int)),
        position.y == held(view.canvas_y(origin, screen.y as int)),
{
    let x: i128 = screen.x as i128 - origin.x as i128 - view.pan.x as i128;
    let y: i128 = screen.y as i128 - origin.y as i128 - view.pan.y as i128;
    Point { x: hold(unzoom_length(x, view.zoom)), y: hold(unzoom_length(y, view.zoom)) }
}

/// The size of a canvas region on the screen.
pub fn canvas_size_to_screen(view: CanvasView, size: Point) -> (shown: Point)
    ensures
        shown.x == held(zoomed(size.x as int, view.zoom)),
        shown.y == held(zoomed(size.y as int, view.zoom)),
{
    Point {
        x: hold(zoom_length(size.x as i128, view.zoom)),
        y: hold(zoom_length(size.y as i128, view.zoom)),
    }
}

/// The view and where it is heading.
#[derive(Clone, Copy, Debug, PartialEq, Eq, Structural)]
pub struct Camera {
    pub view: CanvasView,
    pub pan_target: Option<Point>,
}

pub open spec fn home_view() -> CanvasView {
    CanvasView { pan: Point { x: 0, y: 0 }, zoom: UNIT_ZOOM }
}

/// How much of the remaining way is covered, in millionths, when `dt_us`
/// microseconds have passed.
pub open spec fn stride(dt_us: u32) -> int {
    if PAN_RATE * dt_us < 1_000_000 {
        PAN_RATE * dt_us
    } else {
        1_000_000
    }
}

/// One step of a coordinate toward its target.
pub open spec fn approach(from: int, to: int, dt_us: u32) -> int {
    from + nearest((to - from) * stride(dt_us), 1_000_000)
}

/// Both coordinates together are nearer than arrival asks.
pub open spec fn arrived(at: Point, target: Point) -> bool {
    (at.x - target.x) * (at.x - target.x) + (at.y - target.y) * (at.y - target.y) < PAN_ARRIVED
        * PAN_ARRIVED
}

fn approach_step(from: i64, to: i64, dt_us: u32) -> (at: i64)
    ensures
        at == approach(from as int, to as int, dt_us),
        from <= to ==> from <= at <= to,
        to <= from ==> to <= at <= from,
{
    let way: u64 = PAN_RATE * dt_us as u64;
    let share: i128 = if way < 1_000_000 {
        way as i128
    } else {
        1_000_000
    };
    let rest: i128 = to as i128 - from as i128;
    proof {
        law_pans_do_not_overshoot(from as int, to as int, dt_us);
        assert(-0x10_0000_0000_0000_0000_0000 <= rest * share <= 0x10_0000_0000_0000_0000_0000)
            by (nonlinear_arith)
            requires
                -0x1_0000_0000_0000_0000 <= rest <= 0x1_0000_0000_0000_0000,
                0 <= share <= 1_000_000,
        ;
    }
    let moved: i128 = divide_nearest(rest * share, 1_000_000);
    (from as i128 + moved) as i64
}

fn has_arrived(at: Point, target: Point) -> (yes: bool)
    ensures
        yes == arrived(at, target),
{
    let dx: i128 = at.x as i128 - target.x as i128;
    let dy: i128 = at.y as i128 - target.y as i128;
    let least: i128 = PAN_ARRIVED as i128;
    if dx <= -least || dx >= least || dy <= -least || dy >= least {
        proof {
            assert(dx * dx >= 0 && dy * dy >= 0) by (nonlinear_arith);
            if dx <= -least || dx >= least {
                assert(dx * dx >= 1_000_000) by (nonlinear_arith)
                    requires
                        dx <= -1_000 || dx >= 1_000,
                ;
            } else {
                assert(dy * dy >= 1_000_000) by (nonlinear_arith)
                    requires
                        dy <= -1_000 || dy >= 1_000,
                ;
            }
        }
        return false;
    }
    proof {
        assert(0 <= dx * dx <= 1_000_000) by (nonlinear_arith)
            requires
                -1_000 < dx < 1_000,
        ;
        assert(0 <= dy * dy <= 1_000_000) by (nonlinear_arith)
            requires
                -1_000 < dy < 1_000,
        ;
    }
    dx * dx + dy * dy < least * least
}

/// Where a region has to be panned to: into the middle of a canvas side of
/// `room`, at zoom `zoom`.
pub open spec fn centred(at: int, size: int, room: int, zoom: u32) -> int {
    nearest(room * UNIT_ZOOM - (2 * at + size) * zoom, 2 * UNIT_ZOOM as int)
}

fn centre_side(at: i128, size: i128, room: i64, zoom: u32) -> (pan: i64)
    requires
        -0x4_0000_0000_0000_0000 <= at <= 0x4_0000_0000_0000_0000,
        -0x4_0000_0000_0000_0000 <= size <= 0x4_0000_0000_0000_0000,
    ensures
        pan == held(centred(at as int, size as int, room as int, zoom)),
{
    let twice: i128 = 2 * at + size;
    proof {
        assert(-0xc_0000_0000_0000_0000 * 0xffff_ffff <= twice * zoom <= 0xc_0000_0000_0000_0000
            * 0xffff_ffff) by (nonlinear_arith)
            requires
                -0xc_0000_0000_0000_0000 <= twice <= 0xc_0000_0000_0000_0000,
                0 <= zoom <= 0xffff_ffff,
        ;
    }
    assert(UNIT_ZOOM == 1_000_000);
    let n: i128 = room as i128 * 1_000_000 - twice * zoom as i128;
    hold(divide_nearest(n, 2_000_000))
}

impl Camera {
    pub open spec fn valid(self) -> bool {
        self.view.valid()
    }

    pub fn reset_view(&mut self)
        ensures
            *final(self) == (Camera { view: home_view(), pan_target: None }),
    {
        self.view = CanvasView { pan: Point { x: 0, y: 0 }, zoom: UNIT_ZOOM };
        self.pan_target = None;
    }

    /// One frame of an animated pan; the result tells whether there was one.
    pub fn animate_pan(&mut self, dt_us: u32) -> (moved: bool)
        ensures
            moved == (old(self).pan_target is Some),
            final(self).view.zoom == old(self).view.zoom,
            match old(self).pan_target {
                None => *final(self) == *old(self),
                Some(target) => {
                    let near = Point {
                        x: approach(old(self).view.pan.x as int, target.x as int, dt_us) as i64,
                        y: approach(old(self).view.pan.y as int, target.y as int, dt_us) as i64,
                    };
                    if arrived(near, target) {
                        final(self).view.pan == target && final(self).pan_target is None
                    } else {
                        final(self).view.pan == near && final(self).pan_target == Some(target)
                    }
                },
            },
    {
        match self.pan_target {
            None => false,
            Some(target) => {
                let near = Point {
                    x: approach_step(self.view.pan.x, target.x, dt_us),
                    y: approach_step(self.view.pan.y, target.y, dt_us),
                };
                if has_arrived(near, target) {
                    self.view.pan = target;
                    self.pan_target = None;
                } else {
                    self.view.pan = near;
                }
                true
            },
        }
    }

    fn head_for(&mut self, room: Point, at: (i128, i128), size: (i128, i128), left_align: bool)
        requires
            -0x2_0000_0000_0000_0000 <= at.0 <= 0x2_0000_0000_0000_0000,
            -0x2_0000_0000_0000_0000 <= at.1 <= 0x2_0000_0000_0000_0000,
            -0x2_0000_0000_0000_0000 <= size.0 <= 0x2_0000_0000_0000_0000,
            -0x2_0000_0000_0000_0000 <= size.1 <= 0x2_0000_0000_0000_0000,
        ensures
            final(self).view == old(self).view,
            final(self).pan_target == Some(
                old(self).view.heading(
                    room,
                    (at.0 as int, at.1 as int),
                    (size.0 as int, size.1 as int),
                    left_align,
                ),
            ),
    {
        let zoom: u32 = self.view.zoom;
        let x: i64 = if left_align {
            hold(PAN_MARGIN as i128 - zoom_length(at.0, zoom))
        } else {
            centre_side(at.0, size.0, room.x, zoom)
        };
        let y: i64 = centre_side(at.1, size.1, room.y, zoom);
        self.pan_target = Some(Point { x, y });
    }

    /// Heads for a region of the canvas: to the left edge or to the middle, and
    /// always to the middle of the height. `room` is the size of the canvas on
    /// the screen.
    pub fn pan_to_canvas_pos_aligned(
        &mut self,
        room: Point,
        position: Point,
        size: Point,
        left_align: bool,
    )
        ensures
            final(self).view == old(self).view,
            final(self).pan_target == Some(
                old(self).view.heading(
                    room,
                    (position.x as int, position.y as int),
                    (size.x as int, size.y as int),
                    left_align,
                ),
            ),
    {
        self.head_for(
            room,
            (position.x as i128, position.y as i128),
            (size.x as i128, size.y as i128),
            left_align,
        );
    }

    /// Heads for a workspace, its frame and title included.
    pub fn focus_workspace_bounds(
        &mut self,
        room: Point,
        min: Point,
        max: Point,
        padding: u32,
        title_height: u32,
        left_align: bool,
    )
        ensures
            final(self).view == old(self).view,
            final(self).pan_target == Some(
                old(self).view.heading(
                    room,
                    (min.x - padding, min.y - padding - title_height),
                    (max.x - min.x + 2 * padding, max.y - min.y + 2 * padding + title_height),
                    left_align,
                ),
            ),
    {
        let pad: i128 = padding as i128;
        let title: i128 = title_height as i128;
        let (left, top): (i128, i128) = (min.x as i128, min.y as i128);
        self.head_for(
            room,
            (left - pad, top - pad - title),
            (max.x as i128 - left + 2 * pad, max.y as i128 - top + 2 * pad + title),
            left_align,
        );
    }

    /// Zooms so that what is under `anchor` stays there, within the limits; the
    /// result tells whether the zoom changed, which also ends a pan.
    pub fn zoom_canvas_at(
        &mut self,
        origin: Point,
        anchor: Point,
        zoom: u32,
        least: u32,
        most: u32,
    ) -> (changed: bool)
        requires
            old(self).valid(),
            0 < least <= most,
        ensures
            final(self).valid(),
            ({
                let next = if zoom < least {
                    least
                } else if zoom > most {
                    most
                } else {
                    zoom
                };
                let view = old(self).view;
                let held_x = view.canvas_x(origin, anchor.x as int);
                let held_y = view.canvas_y(origin, anchor.y as int);
                &&& changed == (next != view.zoom)
                &&& !changed ==> *final(self) == *old(self)
                &&& changed ==> {
                    &&& final(self).pan_target is None
                    &&& final(self).view.zoom == next
                    &&& final(self).view.pan.x == held(
                        anchor.x - origin.x - zoomed(held_x, next),
                    )
                    &&& final(self).view.pan.y == held(
                        anchor.y - origin.y - zoomed(held_y, next),
                    )
                }
            }),
    {
        let next: u32 = if zoom < least {
            least
        } else if zoom > most {
            most
        } else {
            zoom
        };
        if next == self.view.zoom {
            return false;
        }
        let (x, y): (i128, i128) = (
            anchor.x as i128 - origin.x as i128,
            anchor.y as i128 - origin.y as i128,
        );
        let held_x: i128 = unzoom_length(x - self.view.pan.x as i128, self.view.zoom);
        let held_y: i128 = unzoom_length(y - self.view.pan.y as i128, self.view.zoom);
        self.pan_target = None;
        self.view =
        CanvasView {
            pan: Point {
                x: hold(x - zoom_length(held_x, next)),
                y: hold(y - zoom_length(held_y, next)),
            },
            zoom: next,
        };
        true
    }
}

/// A length that is zoomed and measured again is off by the rounding of both.
pub open spec fn nearly(length: int, again: int, zoom: u32) -> bool {
    &&& -(zoom + UNIT_ZOOM) <= 2 * zoom * (again - length) <= zoom + UNIT_ZOOM
    &&& zoom >= UNIT_ZOOM ==> again == length
}

proof fn lemma_zoomed_and_measured(length: int, zoom: u32)
    requires
        zoom > 0,
    ensures
        nearly(length, unzoomed(zoomed(length, zoom), zoom), zoom),
{
    let z = zoom as int;
    let u = UNIT_ZOOM as int;
    let s = zoomed(length, zoom);
    let again = unzoomed(s, zoom);
    lemma_nearest(length * z, u);
    lemma_nearest(s * u, z);
    assert(-(z + u) <= 2 * z * (again - length) <= z + u) by (nonlinear_arith)
        requires
            -u <= 2 * (length * z - s * u) < u,
            -z <= 2 * (s * u - again * z) < z,
    ;
    if z == u {
        assert(s == length) by (nonlinear_arith)
            requires
                -u <= 2 * (length * z - s * u) < u,
                z == u,
                u > 0,
        ;
        assert(again == length) by (nonlinear_arith)
            requires
                -z <= 2 * (s * u - again * z) < z,
                z == u,
                s == length,
                z > 0,
        ;
    } else if z > u {
        assert(again == length) by (nonlinear_arith)
            requires
                -(z + u) <= 2 * z * (again - length) <= z + u,
                z > u,
                u > 0,
        ;
    }
}

/// Going to the screen and back loses at most the rounding of both ways, and
/// nothing at all while the canvas is not zoomed out.
pub proof fn law_screen_points_lead_back(view: CanvasView, origin: Point, x: int, y: int)
    requires
        view.valid(),
    ensures
        nearly(x, view.canvas_x(origin, view.screen_x(origin, x)), view.zoom),
        nearly(y, view.canvas_y(origin, view.screen_y(origin, y)), view.zoom),
{
    assert(view.screen_x(origin, x) - origin.x - view.pan.x == zoomed(x, view.zoom));
    assert(view.screen_y(origin, y) - origin.y - view.pan.y == zoomed(y, view.zoom));
    lemma_zoomed_and_measured(x, view.zoom);
    lemma_zoomed_and_measured(y, view.zoom);
}

/// What was under the anchor when the canvas was zoomed stands there after.
pub proof fn law_zooming_holds_the_anchor(
    before: CanvasView,
    after: CanvasView,
    origin: Point,
    anchor: Point,
)
    requires
        after.pan.x == anchor.x - origin.x - zoomed(
            before.canvas_x(origin, anchor.x as int),
            after.zoom,
        ),
        after.pan.y == anchor.y - origin.y - zoomed(
            before.canvas_y(origin, anchor.y as int),
            after.zoom,
        ),
    ensures
        after.screen_x(origin, before.canvas_x(origin, anchor.x as int)) == anchor.x,
        after.screen_y(origin, before.canvas_y(origin, anchor.y as int)) == anchor.y,
{
}

/// An animated pan never overshoots, and a step as long as the animation takes
/// arrives.
pub proof fn law_pans_do_not_overshoot(from: int, to: int, dt_us: u32)
    ensures
        from <= to ==> from <= approach(from, to, dt_us) <= to,
        to <= from ==> to <= approach(from, to, dt_us) <= from,
        PAN_RATE * dt_us >= 1_000_000 ==> approach(from, to, dt_us) == to,
{
    let r = to - from;
    let s = stride(dt_us);
    let low = if r < 0 {
        r
    } else {
        0
    };
    let high = if r < 0 {
        0
    } else {
        r
    };
    assert(low * 1_000_000 <= r * s <= high * 1_000_000) by (nonlinear_arith)
        requires
            0 <= s <= 1_000_000,
            r < 0 ==> low == r && high == 0,
            r >= 0 ==> low == 0 && high == r,
    ;
    lemma_nearest_bounds(r * s, 1_000_000, low, high);
    if s == 1_000_000 {
        lemma_nearest_is(r * s, 1_000_000, r);
    }
}

/// A canvas length shows as long as the zoom makes it, and a screen length
/// measures as much less, each to the nearest thousandth.
pub proof fn law_zoom_multiplies_lengths(length: int, zoom: u32)
    requires
        zoom > 0,
    ensures
        -1_000_000 <= 2 * (length * zoom - zoomed(length, zoom) * 1_000_000) < 1_000_000,
        -zoom <= 2 * (length * 1_000_000 - unzoomed(length, zoom) * zoom) < zoom,
        zoom == 1_000_000 ==> zoomed(length, zoom) == length && unzoomed(length, zoom) == length,
{
    lemma_nearest(length * zoom, 1_000_000);
    lemma_nearest(length * 1_000_000, zoom as int);
    if zoom == 1_000_000 {
        assert(length * zoom == length * 1_000_000);
        lemma_nearest_is(length * 1_000_000, 1_000_000, length);
    }
}

/// A point moves on the screen with the pan and with where the canvas begins.
pub proof fn law_points_move_with_the_pan(
    view: CanvasView,
    origin: Point,
    moved: CanvasView,
    other: Point,
    x: int,
    y: int,
)
    requires
        view.zoom == moved.zoom,
    ensures
        moved.screen_x(other, x) - view.screen_x(origin, x) == (moved.pan.x - view.pan.x) + (other.x
            - origin.x),
        moved.screen_y(other, y) - view.screen_y(origin, y) == (moved.pan.y - view.pan.y) + (other.y
            - origin.y),
        view.pan.x == 0 && origin.x == 0 ==> view.screen_x(origin, x) == zoomed(x, view.zoom),
        view.pan.y == 0 && origin.y == 0 ==> view.screen_y(origin, y) == zoomed(y, view.zoom),
{
}

/// A region that is headed for comes to stand with its middle in the middle of
/// the room.
pub proof fn law_regions_come_to_the_middle(at: int, size: int, room: int, zoom: u32)
    ensures
        ({
            let pan = centred(at, size, room, zoom);
            -2_000_000 <= 2 * (room * 1_000_000 - (2 * at + size) * zoom - pan * 2_000_000)
                < 2_000_000
        }),
{
    lemma_nearest(room * 1_000_000 - (2 * at + size) * zoom, 2_000_000);
}

/// Aligned to the left, a region comes to stand forty points from the edge; its
/// height is always centred.
pub proof fn law_left_regions_come_to_the_margin(
    view: CanvasView,
    room: Point,
    at: (int, int),
    size: (int, int),
)
    ensures
        ({
            let left = view.heading(room, at, size, true);
            let middle = view.heading(room, at, size, false);
            &&& left.y == middle.y
            &&& i64::MIN < left.x < i64::MAX ==> left.x + zoomed(at.0, view.zoom) == 40_000
            &&& i64::MIN < middle.x < i64::MAX ==> middle.x == centred(
                at.0,
                size.0,
                room.x as int,
                view.zoom,
            )
            &&& i64::MIN < middle.y < i64::MAX ==> middle.y == centred(
                at.1,
                size.1,
                room.y as int,
                view.zoom,
            )
        }),
{
}

/// A pan covers twenty times the remaining way in a second, so a twentieth of
/// one finishes it, and it has arrived within a point of its target.
pub proof fn law_pans_take_a_twentieth_of_a_second(from: int, to: int, dt_us: u32, a: Point, b: Point)
    ensures
        dt_us >= 50_000 ==> approach(from, to, dt_us) == to,
        dt_us < 50_000 ==> -1_000_000 <= 2 * ((to - from) * (20 * dt_us) - (approach(
            from,
            to,
            dt_us,
        ) - from) * 1_000_000) < 1_000_000,
        arrived(a, b) <==> (a.x - b.x) * (a.x - b.x) + (a.y - b.y) * (a.y - b.y) < 1_000_000,
        home_view().pan == (Point { x: 0, y: 0 }),
        home_view().zoom == 1_000_000,
{
    law_pans_do_not_overshoot(from, to, dt_us);
    lemma_nearest((to - from) * stride(dt_us), 1_000_000);
    if dt_us < 50_000 {
        assert(stride(dt_us) == 20 * dt_us);
    }
}

} // verus!
