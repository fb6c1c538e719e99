//! The program's name and its icon, which is drawn from shapes.
use vstd::prelude::*;

verus! {

pub const APP_NAME: &'static str = "Horizon";

pub const APP_ID: &'static str = "horizon";

pub const APP_TAGLINE: &'static str = "spatial terminal observatory for multi-agent development";

pub const ICON_SIZE: u32 = 256;

#[derive(Clone, Copy, Debug, PartialEq, Eq, Structural)]
pub struct Rgba {
    pub r: u8,
    pub g: u8,
    pub b: u8,
    pub a: u8,
}

#[derive(Clone, Copy, Debug, PartialEq, Eq, Structural)]
pub enum Paint {
    Background,
    Shell,
    ShellStroke,
    Panel,
    PanelStroke,
    Horizon,
    Sunset,
    Agent,
    Text,
}

pub open spec fn color_of(paint: Paint) -> Rgba {
    match paint {
        Paint::Background => Rgba { r: 10, g: 22, b: 34, a: 255 },
        Paint::Shell => Rgba { r: 17, g: 32, b: 48, a: 255 },
        Paint::ShellStroke => Rgba { r: 54, g: 88, b: 122, a: 255 },
        Paint::Panel => Rgba { r: 20, g: 38, b: 56, a: 255 },
        Paint::PanelStroke => Rgba { r: 94, g: 132, b: 173, a: 255 },
        Paint::Horizon => Rgba { r: 118, g: 216, b: 255, a: 255 },
        Paint::Sunset => Rgba { r: 255, g: 170, b: 114, a: 255 },
        Paint::Agent => Rgba { r: 126, g: 225, b: 198, a: 255 },
        Paint::Text => Rgba { r: 239, g: 245, b: 251, a: 255 },
    }
}

/// The glow's colour; its last part says how strong it is.
pub open spec fn glow_color() -> Rgba {
    Rgba { r: 70, g: 122, b: 196, a: 138 }
}

fn paint_color(paint: Paint) -> (color: Rgba)
    ensures
        color == color_of(paint),
{
    match paint {
        Paint::Background => Rgba { r: 10, g: 22, b: 34, a: 255 },
        Paint::Shell => Rgba { r: 17, g: 32, b: 48, a: 255 },
        Paint::ShellStroke => Rgba { r: 54, g: 88, b: 122, a: 255 },
        Paint::Panel => Rgba { r: 20, g: 38, b: 56, a: 255 },
        Paint::PanelStroke => Rgba { r: 94, g: 132, b: 173, a: 255 },
        Paint::Horizon => Rgba { r: 118, g: 216, b: 255, a: 255 },
        Paint::Sunset => Rgba { r: 255, g: 170, b: 114, a: 255 },
        Paint::Agent => Rgba { r: 126, g: 225, b: 198, a: 255 },
        Paint::Text => Rgba { r: 239, g: 245, b: 251, a: 255 },
    }
}

#[derive(Clone, Copy, Debug, PartialEq, Eq, Structural)]
pub struct IconRect {
    pub left: i64,
    pub top: i64,
    pub width: i64,
    pub height: i64,
    pub radius: i64,
}

#[derive(Clone, Copy, Debug, PartialEq, Eq, Structural)]
pub enum Shape {
    Circle { x: i64, y: i64, radius: i64, paint: Paint },
    Plate { rect: IconRect, paint: Paint },
    Outline { rect: IconRect, thickness: i64, paint: Paint },
    Ring { x: i64, y: i64, radius_x: i64, radius_y: i64, thickness: i64, paint: Paint },
    Line { from_x: i64, from_y: i64, to_x: i64, to_y: i64, thickness: i64, paint: Paint },
    Glow { x: i64, y: i64, radius: i64 },
}

pub open spec fn square(n: int) -> int {
    n * n
}

/// The square of the distance of two points.
pub open spec fn apart(ax: int, ay: int, bx: int, by: int) -> int {
    square(ax - bx) + square(ay - by)
}

pub open spec fn held(v: int, low: int, high: int) -> int {
    if v < low {
        low
    } else if v > high {
        high
    } else {
        v
    }
}

/// The point is within a rectangle with rounded corners.
pub open spec fn rounded_covers(
    x: int,
    y: int,
    left: int,
    top: int,
    right: int,
    bottom: int,
    radius: int,
) -> bool {
    apart(x, y, held(x, left + radius, right - radius), held(y, top + radius, bottom - radius))
        <= square(radius)
}

pub open spec fn rect_spans(rect: IconRect, x: int, y: int) -> bool {
    rect.left <= x < rect.left + rect.width && rect.top <= y < rect.top + rect.height
}

/// A plate is rounded at the corners that a point is near to.
pub open spec fn plate_covers(rect: IconRect, x: int, y: int) -> bool {
    let right = rect.left + rect.width;
    let bottom = rect.top + rect.height;
    let near_left = x < rect.left + rect.radius;
    let near_right = x > right - rect.radius;
    let near_top = y < rect.top + rect.radius;
    let near_bottom = y > bottom - rect.radius;
    rect_spans(rect, x, y) && if near_left && near_top {
        apart(x, y, rect.left + rect.radius, rect.top + rect.radius) <= square(rect.radius as int)
    } else if near_right && near_top {
        apart(x, y, right - rect.radius, rect.top + rect.radius) <= square(rect.radius as int)
    } else if near_left && near_bottom {
        apart(x, y, rect.left + rect.radius, bottom - rect.radius) <= square(rect.radius as int)
    } else if near_right && near_bottom {
        apart(x, y, right - rect.radius, bottom - rect.radius) <= square(rect.radius as int)
    } else {
        true
    }
}

/// An outline is the rectangle without the one that lies `thickness` inside.
pub open spec fn outline_covers(rect: IconRect, thickness: int, x: int, y: int) -> bool {
    let right = rect.left + rect.width;
    let bottom = rect.top + rect.height;
    let inner = if rect.radius > thickness {
        rect.radius - thickness
    } else {
        0
    };
    rect_spans(rect, x, y) && rounded_covers(
        x,
        y,
        rect.left as int,
        rect.top as int,
        right,
        bottom,
        rect.radius as int,
    ) && !rounded_covers(
        x,
        y,
        rect.left + thickness,
        rect.top + thickness,
        right - thickness,
        bottom - thickness,
        inner,
    )
}

/// A ring is what lies within `thickness` of an ellipse, measured along its
/// longer radius.
pub open spec fn ring_covers(
    cx: int,
    cy: int,
    radius_x: int,
    radius_y: int,
    thickness: int,
    x: int,
    y: int,
) -> bool {
    let longer = if radius_x > radius_y {
        radius_x
    } else {
        radius_y
    };
    let level = (square(x - cx) * square(radius_y) + square(y - cy) * square(radius_x)) * square(
        longer,
    );
    let whole = square(radius_x * radius_y);
    &&& thickness >= longer || level >= square(longer - thickness) * whole
    &&& level <= square(longer + thickness) * whole
}

/// A line has round ends.
pub open spec fn line_covers(
    from_x: int,
    from_y: int,
    to_x: int,
    to_y: int,
    thickness: int,
    x: int,
    y: int,
) -> bool {
    let along = (x - from_x) * (to_x - from_x) + (y - from_y) * (to_y - from_y);
    let length = apart(to_x, to_y, from_x, from_y);
    let across = (x - from_x) * (to_y - from_y) - (y - from_y) * (to_x - from_x);
    if along <= 0 {
        4 * apart(x, y, from_x, from_y) <= square(thickness)
    } else if along >= length {
        4 * apart(x, y, to_x, to_y) <= square(thickness)
    } else {
        4 * square(across) <= square(thickness) * length
    }
}

/// One part of a colour under the glow is `k` or more, rounded. The glow takes
/// 45 hundredths of its strength in the middle and nothing at its radius, so
/// that the part is `under + (over - under) * 0.45 * a / 255 * (1 - d / radius)`
/// at the distance `d`. That is compared with `k - 1 / 2` over squares.
pub open spec fn glow_reaches(under: u8, over: u8, radius: int, square_distance: int, k: int) -> bool {
    let slope = 2 * 45 * glow_color().a * (over - under);
    let room = 100 * 255 * radius * (2 * under - 2 * k + 1) + slope * radius;
    if slope >= 0 {
        room >= 0 && square(room) >= square(slope) * square_distance
    } else {
        room >= 0 || square(room) <= square(slope) * square_distance
    }
}

/// The greatest step up to `k` that the part reaches.
pub open spec fn glow_part(under: u8, over: u8, radius: int, square_distance: int, k: int) -> int
    decreases k,
{
    if k <= 0 {
        0
    } else if glow_reaches(under, over, radius, square_distance, k) {
        k
    } else {
        glow_part(under, over, radius, square_distance, k - 1)
    }
}

/// The glow is strongest at its middle, and ends at its radius.
pub open spec fn glowing(cx: int, cy: int, radius: int, x: int, y: int, under: Rgba) -> Rgba {
    let square_distance = apart(x, y, cx, cy);
    if square_distance <= square(radius) {
        Rgba {
            r: glow_part(under.r, glow_color().r, radius, square_distance, 255) as u8,
            g: glow_part(under.g, glow_color().g, radius, square_distance, 255) as u8,
            b: glow_part(under.b, glow_color().b, radius, square_distance, 255) as u8,
            a: 255,
        }
    } else {
        under
    }
}

/// What a shape makes of the pixel below it.
pub open spec fn shaded(shape: Shape, x: int, y: int, under: Rgba) -> Rgba {
    match shape {
        Shape::Circle { x: cx, y: cy, radius, paint } => if apart(x, y, cx as int, cy as int)
            <= square(radius as int) {
            color_of(paint)
        } else {
            under
        },
        Shape::Plate { rect, paint } => if plate_covers(rect, x, y) {
            color_of(paint)
        } else {
            under
        },
        Shape::Outline { rect, thickness, paint } => if outline_covers(
            rect,
            thickness as int,
            x,
            y,
        ) {
            color_of(paint)
        } else {
            under
        },
        Shape::Ring { x: cx, y: cy, radius_x, radius_y, thickness, paint } => if ring_covers(
            cx as int,
            cy as int,
            radius_x as int,
            radius_y as int,
            thickness as int,
            x,
            y,
        ) {
            color_of(paint)
        } else {
            under
        },
        Shape::Line { from_x, from_y, to_x, to_y, thickness, paint } => if line_covers(
            from_x as int,
            from_y as int,
            to_x as int,
            to_y as int,
            thickness as int,
            x,
            y,
        ) {
            color_of(paint)
        } else {
            under
        },
        Shape::Glow { x: cx, y: cy, radius } => glowing(
            cx as int,
            cy as int,
            radius as int,
            x,
            y,
            under,
        ),
    }
}

/// How many of the 28 steps of the vignette a distance has reached: the distance
/// over 170, times 28, rounded.
pub open spec fn vignette(square_distance: int, steps: int) -> int
    decreases steps,
{
    if steps <= 0 {
        0
    } else if square(2 * steps - 1) * square(170) <= 4 * square(28) * square_distance {
        steps
    } else {
        vignette(square_distance, steps - 1)
    }
}

/// The background gets lighter towards the edges.
pub open spec fn backdrop(x: int, y: int) -> Rgba {
    let step = vignette(apart(x, y, 128, 116), 28);
    let base = color_of(Paint::Background);
    Rgba {
        r: (base.r + step / 4) as u8,
        g: (base.g + step / 3) as u8,
        b: (base.b + step / 2) as u8,
        a: 255,
    }
}

/// A pixel under the first `n` shapes.
pub open spec fn pixel(shapes: Seq<Shape>, n: int, x: int, y: int) -> Rgba
    decreases n,
{
    if n <= 0 {
        backdrop(x, y)
    } else {
        shaded(shapes[n - 1], x, y, pixel(shapes, n - 1, x, y))
    }
}

/// Coordinates and sizes of icons.
pub open spec fn small(n: i64) -> bool {
    0 <= n <= 512
}

/// A shape that can be drawn without leaving the numbers.
pub open spec fn drawable(shape: Shape) -> bool {
    match shape {
        Shape::Circle { x, y, radius, .. } => small(x) && small(y) && small(radius),
        Shape::Plate { rect, .. } => drawable_rect(rect),
        Shape::Outline { rect, thickness, .. } => drawable_rect(rect) && small(thickness),
        Shape::Ring { x, y, radius_x, radius_y, thickness, .. } => small(x) && small(y) && small(
            radius_x,
        ) && small(radius_y) && small(thickness),
        Shape::Line { from_x, from_y, to_x, to_y, thickness, .. } => small(from_x) && small(from_y)
            && small(to_x) && small(to_y) && small(thickness),
        Shape::Glow { x, y, radius } => small(x) && small(y) && small(radius) && radius > 0,
    }
}

pub open spec fn drawable_rect(rect: IconRect) -> bool {
    small(rect.left) && small(rect.top) && small(rect.width) && small(rect.height) && small(
        rect.radius,
    )
}

fn square_of(n: i64) -> (s: i64)
    requires
        -10_000 <= n <= 10_000,
    ensures
        s == square(n as int),
        0 <= s <= 100_000_000,
{
    assert(0 <= n * n <= 100_000_000) by (nonlinear_arith)
        requires
            -10_000 <= n <= 10_000,
    ;
    n * n
}

fn apart_of(ax: i64, ay: i64, bx: i64, by: i64) -> (s: i64)
    requires
        -4_000 <= ax <= 4_000,
        -4_000 <= ay <= 4_000,
        -4_000 <= bx <= 4_000,
        -4_000 <= by <= 4_000,
    ensures
        s == apart(ax as int, ay as int, bx as int, by as int),
        0 <= s <= 200_000_000,
{
    square_of(ax - bx) + square_of(ay - by)
}

fn held_of(v: i64, low: i64, high: i64) -> (h: i64)
    ensures
        h == held(v as int, low as int, high as int),
{
    if v < low {
        low
    } else if v > high {
        high
    } else {
        v
    }
}

fn is_rounded_covered(
    x: i64,
    y: i64,
    left: i64,
    top: i64,
    right: i64,
    bottom: i64,
    radius: i64,
) -> (yes: bool)
    requires
        0 <= x <= 512,
        0 <= y <= 512,
        -1_024 <= left <= 2_048,
        -1_024 <= top <= 2_048,
        -1_024 <= right <= 2_048,
        -1_024 <= bottom <= 2_048,
        0 <= radius <= 512,
    ensures
        yes == rounded_covers(
            x as int,
            y as int,
            left as int,
            top as int,
            right as int,
            bottom as int,
            radius as int,
        ),
{
    let nearest_x: i64 = held_of(x, left + radius, right - radius);
    let nearest_y: i64 = held_of(y, top + radius, bottom - radius);
    apart_of(x, y, nearest_x, nearest_y) <= square_of(radius)
}

fn is_plate_covered(rect: IconRect, x: i64, y: i64) -> (yes: bool)
    requires
        drawable_rect(rect),
        0 <= x <= 512,
        0 <= y <= 512,
    ensures
        yes == plate_covers(rect, x as int, y as int),
{
    let right: i64 = rect.left + rect.width;
    let bottom: i64 = rect.top + rect.height;
    if !(rect.left <= x && x < right && rect.top <= y && y < bottom) {
        return false;
    }
    let inner_left: i64 = rect.left + rect.radius;
    let inner_right: i64 = right - rect.radius;
    let inner_top: i64 = rect.top + rect.radius;
    let inner_bottom: i64 = bottom - rect.radius;
    let reach: i64 = square_of(rect.radius);
    if x < inner_left && y < inner_top {
        apart_of(x, y, inner_left, inner_top) <= reach
    } else if x > inner_right && y < inner_top {
        apart_of(x, y, inner_right, inner_top) <= reach
    } else if x < inner_left && y > inner_bottom {
        apart_of(x, y, inner_left, inner_bottom) <= reach
    } else if x > inner_right && y > inner_bottom {
        apart_of(x, y, inner_right, inner_bottom) <= reach
    } else {
        true
    }
}

fn is_outline_covered(rect: IconRect, thickness: i64, x: i64, y: i64) -> (yes: bool)
    requires
        drawable_rect(rect),
        small(thickness),
        0 <= x <= 512,
        0 <= y <= 512,
    ensures
        yes == outline_covers(rect, thickness as int, x as int, y as int),
{
    let right: i64 = rect.left + rect.width;
    let bottom: i64 = rect.top + rect.height;
    if !(rect.left <= x && x < right && rect.top <= y && y < bottom) {
        return false;
    }
    let inner: i64 = if rect.radius > thickness {
        rect.radius - thickness
    } else {
        0
    };
    is_rounded_covered(x, y, rect.left, rect.top, right, bottom, rect.radius)
        && !is_rounded_covered(
        x,
        y,
        rect.left + thickness,
        rect.top + thickness,
        right - thickness,
        bottom - thickness,
        inner,
    )
}

fn times(a: i128, b: i128) -> (p: i128)
    requires
        0 <= a <= 0x1_0000_0000_0000_0000,
        0 <= b <= 0x100_0000_0000,
    ensures
        p == a * b,
        p >= 0,
{
    assert(0 <= a * b <= 0x1_0000_0000_0000_0000 * 0x100_0000_0000) by (nonlinear_arith)
        requires
            0 <= a <= 0x1_0000_0000_0000_0000,
            0 <= b <= 0x100_0000_0000,
    ;
    a * b
}

fn is_ring_covered(
    cx: i64,
    cy: i64,
    radius_x: i64,
    radius_y: i64,
    thickness: i64,
    x: i64,
    y: i64,
) -> (yes: bool)
    requires
        small(cx),
        small(cy),
        small(radius_x),
        small(radius_y),
        small(thickness),
        0 <= x <= 512,
        0 <= y <= 512,
    ensures
        yes == ring_covers(
            cx as int,
            cy as int,
            radius_x as int,
            radius_y as int,
            thickness as int,
            x as int,
            y as int,
        ),
{
    let longer: i64 = if radius_x > radius_y {
        radius_x
    } else {
        radius_y
    };
    let dx: i128 = square_of(x - cx) as i128;
    let dy: i128 = square_of(y - cy) as i128;
    let rx: i128 = square_of(radius_x) as i128;
    let ry: i128 = square_of(radius_y) as i128;
    let a: i128 = times(dx, ry);
    let b: i128 = times(dy, rx);
    assert(a <= 100_000_000 * 100_000_000 && b <= 100_000_000 * 100_000_000) by (nonlinear_arith)
        requires
            a == dx * ry,
            b == dy * rx,
            0 <= dx <= 100_000_000,
            0 <= dy <= 100_000_000,
            0 <= rx <= 100_000_000,
            0 <= ry <= 100_000_000,
    ;
    let level: i128 = times(a + b, square_of(longer) as i128);
    assert(0 <= radius_x * radius_y <= 512 * 512) by (nonlinear_arith)
        requires
            0 <= radius_x <= 512,
            0 <= radius_y <= 512,
    ;
    let area: i64 = radius_x * radius_y;
    assert(0 <= area * area <= 512 * 512 * (512 * 512)) by (nonlinear_arith)
        requires
            0 <= area <= 512 * 512,
    ;
    let whole: i128 = (area * area) as i128;
    let inside: i128 = if thickness >= longer {
        0
    } else {
        times(square_of(longer - thickness) as i128, whole)
    };
    let outside: i128 = times(square_of(longer + thickness) as i128, whole);
    (thickness >= longer || level >= inside) && level <= outside
}

fn is_line_covered(
    from_x: i64,
    from_y: i64,
    to_x: i64,
    to_y: i64,
    thickness: i64,
    x: i64,
    y: i64,
) -> (yes: bool)
    requires
        small(from_x),
        small(from_y),
        small(to_x),
        small(to_y),
        small(thickness),
        0 <= x <= 512,
        0 <= y <= 512,
    ensures
        yes == line_covers(
            from_x as int,
            from_y as int,
            to_x as int,
            to_y as int,
            thickness as int,
            x as int,
            y as int,
        ),
{
    let px: i64 = x - from_x;
    let py: i64 = y - from_y;
    let vx: i64 = to_x - from_x;
    let vy: i64 = to_y - from_y;
    assert(-512 * 512 <= px * vx <= 512 * 512 && -512 * 512 <= py * vy <= 512 * 512 && -512 * 512
        <= px * vy <= 512 * 512 && -512 * 512 <= py * vx <= 512 * 512) by (nonlinear_arith)
        requires
            -512 <= px <= 512,
            -512 <= py <= 512,
            -512 <= vx <= 512,
            -512 <= vy <= 512,
    ;
    let along: i64 = px * vx + py * vy;
    let length: i64 = apart_of(to_x, to_y, from_x, from_y);
    let across: i64 = px * vy - py * vx;
    let reach: i64 = square_of(thickness);
    if along <= 0 {
        4 * apart_of(x, y, from_x, from_y) <= reach
    } else if along >= length {
        4 * apart_of(x, y, to_x, to_y) <= reach
    } else {
        assert(0 <= across * across <= 0x10_0000 * 0x10_0000) by (nonlinear_arith)
            requires
                -0x10_0000 <= across <= 0x10_0000,
        ;
        assert(0 <= reach * length <= 100_000_000 * 200_000_000) by (nonlinear_arith)
            requires
                0 <= reach <= 100_000_000,
                0 <= length <= 200_000_000,
        ;
        4 * (across * across) <= reach * length
    }
}

fn glow_part_of(under: u8, over: u8, radius: i64, square_distance: i64) -> (part: u8)
    requires
        small(radius),
        0 <= square_distance <= 200_000_000,
    ensures
        part == glow_part(under, over, radius as int, square_distance as int, 255),
{
    let slope: i64 = 12_420 * (over as i64 - under as i64);
    let mut k: u8 = 255;
    while k > 0
        invariant
            small(radius),
            0 <= square_distance <= 200_000_000,
            slope == 12_420 * (over - under),
            glow_part(under, over, radius as int, square_distance as int, 255) == glow_part(
                under,
                over,
                radius as int,
                square_distance as int,
                k as int,
            ),
        decreases k,
    {
        let step: i64 = 2 * under as i64 - 2 * k as i64 + 1;
        assert(-25_500 * 512 * 512 <= 25_500 * radius * step <= 25_500 * 512 * 512)
            by (nonlinear_arith)
            requires
                0 <= radius <= 512,
                -512 <= step <= 512,
        ;
        assert(-12_420 * 255 * 512 <= slope * radius <= 12_420 * 255 * 512) by (nonlinear_arith)
            requires
                0 <= radius <= 512,
                -12_420 * 255 <= slope <= 12_420 * 255,
        ;
        let room: i64 = 25_500 * radius * step + slope * radius;
        let reached: i128 = square_of_room(room);
        let steep: i128 = square_of_room(slope);
        assert(0 <= steep * square_distance <= 0x1_0000_0000_0000_0000_0000 * 200_000_000)
            by (nonlinear_arith)
            requires
                0 <= steep <= 0x1_0000_0000_0000_0000_0000,
                0 <= square_distance <= 200_000_000,
        ;
        let needed: i128 = steep * square_distance as i128;
        let reaches = if slope >= 0 {
            room >= 0 && reached >= needed
        } else {
            room >= 0 || reached <= needed
        };
        proof {
            assert(glow_color().a == 138);
            assert(2 * 45 * glow_color().a * (over - under) == slope);
            assert(100 * 255 * radius * (2 * under - 2 * k + 1) == 25_500 * radius * step);
            assert(reaches == glow_reaches(
                under,
                over,
                radius as int,
                square_distance as int,
                k as int,
            ));
        }
        if reaches {
            return k;
        }
        k = k - 1;
    }
    0
}

fn square_of_room(n: i64) -> (s: i128)
    requires
        -0x100_0000_0000 <= n <= 0x100_0000_0000,
    ensures
        s == square(n as int),
        0 <= s <= 0x1_0000_0000_0000_0000_0000,
{
    assert(0 <= n * n <= 0x100_0000_0000 * 0x100_0000_0000) by (nonlinear_arith)
        requires
            -0x100_0000_0000 <= n <= 0x100_0000_0000,
    ;
    n as i128 * n as i128
}

fn glow_at(cx: i64, cy: i64, radius: i64, x: i64, y: i64, under: Rgba) -> (color: Rgba)
    requires
        small(cx),
        small(cy),
        small(radius),
        radius > 0,
        0 <= x <= 512,
        0 <= y <= 512,
    ensures
        color == glowing(cx as int, cy as int, radius as int, x as int, y as int, under),
{
    let square_distance: i64 = apart_of(x, y, cx, cy);
    if square_distance > square_of(radius) {
        return under;
    }
    Rgba {
        r: glow_part_of(under.r, 70, radius, square_distance),
        g: glow_part_of(under.g, 122, radius, square_distance),
        b: glow_part_of(under.b, 196, radius, square_distance),
        a: 255,
    }
}

fn shade(shape: &Shape, x: i64, y: i64, under: Rgba) -> (color: Rgba)
    requires
        drawable(*shape),
        0 <= x <= 512,
        0 <= y <= 512,
    ensures
        color == shaded(*shape, x as int, y as int, under),
{
    match *shape {
        Shape::Circle { x: cx, y: cy, radius, paint } => if apart_of(x, y, cx, cy) <= square_of(
            radius,
        ) {
            paint_color(paint)
        } else {
            under
        },
        Shape::Plate { rect, paint } => if is_plate_covered(rect, x, y) {
            paint_color(paint)
        } else {
            under
        },
        Shape::Outline { rect, thickness, paint } => if is_outline_covered(rect, thickness, x, y) {
            paint_color(paint)
        } else {
            under
        },
        Shape::Ring { x: cx, y: cy, radius_x, radius_y, thickness, paint } => if is_ring_covered(
            cx,
            cy,
            radius_x,
            radius_y,
            thickness,
            x,
            y,
        ) {
            paint_color(paint)
        } else {
            under
        },
        Shape::Line { from_x, from_y, to_x, to_y, thickness, paint } => if is_line_covered(
            from_x,
            from_y,
            to_x,
            to_y,
            thickness,
            x,
            y,
        ) {
            paint_color(paint)
        } else {
            under
        },
        Shape::Glow { x: cx, y: cy, radius } => glow_at(cx, cy, radius, x, y, under),
    }
}

fn is_reached(square_distance: i64, step: i64) -> (yes: bool)
    requires
        0 < step <= 28,
        0 <= square_distance <= 200_000_000,
    ensures
        yes == (square(2 * step - 1) * square(170) <= 4 * square(28) * square_distance),
{
    let edge: i64 = square_of(2 * step - 1);
    edge * square_of(170) <= 4 * square_of(28) * square_distance
}

fn backdrop_at(x: i64, y: i64) -> (color: Rgba)
    requires
        0 <= x <= 512,
        0 <= y <= 512,
    ensures
        color == backdrop(x as int, y as int),
{
    let square_distance: i64 = apart_of(x, y, 128, 116);
    let mut step: i64 = 28;
    while step > 0 && !is_reached(square_distance, step)
        invariant
            0 <= step <= 28,
            0 <= square_distance <= 200_000_000,
            vignette(square_distance as int, 28) == vignette(square_distance as int, step as int),
        decreases step,
    {
        step = step - 1;
    }
    assert(vignette(square_distance as int, step as int) == step);
    let s: u8 = step as u8;
    Rgba { r: 10 + s / 4, g: 22 + s / 3, b: 34 + s / 2, a: 255 }
}

pub open spec fn bytes_of(color: Rgba) -> Seq<u8> {
    seq![color.r, color.g, color.b, color.a]
}

/// A picture of whole pixels, row by row.
pub struct IconData {
    pub rgba: Vec<u8>,
    pub width: u32,
    pub height: u32,
}

/// Where a pixel's bytes start.
pub open spec fn pixel_index(x: int, y: int) -> int {
    (y * ICON_SIZE + x) * 4
}

/// Draws the shapes over the backdrop, one after the other.
pub fn draw_icon(shapes: &Vec<Shape>) -> (icon: IconData)
    requires
        forall|i: int| 0 <= i < shapes@.len() ==> drawable(#[trigger] shapes@[i]),
    ensures
        icon.width == ICON_SIZE && icon.height == ICON_SIZE,
        icon.rgba@.len() == ICON_SIZE * ICON_SIZE * 4,
        forall|x: int, y: int|
            0 <= x < ICON_SIZE && 0 <= y < ICON_SIZE ==> icon.rgba@.subrange(
                #[trigger] pixel_index(x, y),
                pixel_index(x, y) + 4,
            ) == bytes_of(pixel(shapes@, shapes@.len() as int, x, y)),
{
    let mut rgba: Vec<u8> = Vec::new();
    let size: i64 = 256;
    let mut y: i64 = 0;
    while y < size
        invariant
            size == 256,
            0 <= y <= size,
            forall|i: int| 0 <= i < shapes@.len() ==> drawable(#[trigger] shapes@[i]),
            rgba@.len() == pixel_index(0, y as int),
            forall|px: int, py: int|
                0 <= px < ICON_SIZE && 0 <= py < y ==> rgba@.subrange(
                    #[trigger] pixel_index(px, py),
                    pixel_index(px, py) + 4,
                ) == bytes_of(pixel(shapes@, shapes@.len() as int, px, py)),
        decreases size - y,
    {
        let mut x: i64 = 0;
        while x < size
            invariant
                size == 256,
                0 <= y < size,
                0 <= x <= size,
                forall|i: int| 0 <= i < shapes@.len() ==> drawable(#[trigger] shapes@[i]),
                rgba@.len() == pixel_index(x as int, y as int),
                forall|px: int, py: int|
                    0 <= px < ICON_SIZE && 0 <= py && (py < y || (py == y && px < x))
                        ==> rgba@.subrange(
                        #[trigger] pixel_index(px, py),
                        pixel_index(px, py) + 4,
                    ) == bytes_of(pixel(shapes@, shapes@.len() as int, px, py)),
            decreases size - x,
        {
            let mut color = backdrop_at(x, y);
            let mut i: usize = 0;
            while i < shapes.len()
                invariant
                    0 <= x < 256,
                    0 <= y < 256,
                    i <= shapes@.len(),
                    forall|j: int| 0 <= j < shapes@.len() ==> drawable(#[trigger] shapes@[j]),
                    color == pixel(shapes@, i as int, x as int, y as int),
                decreases shapes@.len() - i,
            {
                assert(drawable(shapes@[i as int]));
                color = shade(&shapes[i], x, y, color);
                i = i + 1;
            }
            let ghost before = rgba@;
            rgba.push(color.r);
            rgba.push(color.g);
            rgba.push(color.b);
            rgba.push(color.a);
            assert(rgba@ =~= before + bytes_of(color));
            assert forall|px: int, py: int|
                0 <= px < ICON_SIZE && 0 <= py && (py < y || (py == y && px < x
                    + 1)) implies rgba@.subrange(
                #[trigger] pixel_index(px, py),
                pixel_index(px, py) + 4,
            ) == bytes_of(pixel(shapes@, shapes@.len() as int, px, py)) by {
                if py == y && px == x {
                    assert(rgba@.subrange(pixel_index(px, py), pixel_index(px, py) + 4)
                        =~= bytes_of(color));
                } else {
                    assert(pixel_index(px, py) + 4 <= before.len());
                    assert(rgba@.subrange(pixel_index(px, py), pixel_index(px, py) + 4)
                        =~= before.subrange(pixel_index(px, py), pixel_index(px, py) + 4));
                }
            }
            x = x + 1;
        }
        y = y + 1;
    }
    IconData { rgba, width: ICON_SIZE, height: ICON_SIZE }
}

pub open spec fn shell_rect() -> IconRect {
    IconRect { left: 24, top: 24, width: 208, height: 208, radius: 46 }
}

pub open spec fn terminal_rect() -> IconRect {
    IconRect { left: 66, top: 88, width: 124, height: 84, radius: 22 }
}

pub open spec fn agent_rect(left: i64) -> IconRect {
    IconRect { left, top: 122, width: 24, height: 18, radius: 6 }
}

pub open spec fn dot(x: i64, y: i64, radius: i64, paint: Paint) -> Shape {
    Shape::Circle { x, y, radius, paint }
}

/// The shell with its glow and the agents above the horizon.
pub open spec fn sky_shapes() -> Seq<Shape> {
    seq![
        Shape::Plate { rect: shell_rect(), paint: Paint::Shell },
        Shape::Outline { rect: shell_rect(), thickness: 3, paint: Paint::ShellStroke },
        Shape::Glow { x: 128, y: 118, radius: 94 },
        Shape::Ring {
            x: 128,
            y: 96,
            radius_x: 56,
            radius_y: 24,
            thickness: 3,
            paint: Paint::ShellStroke,
        },
        dot(90, 74, 10, Paint::Agent),
        dot(90, 74, 4, Paint::Text),
        dot(128, 60, 10, Paint::Horizon),
        dot(128, 60, 4, Paint::Text),
        dot(166, 74, 10, Paint::Sunset),
        dot(166, 74, 4, Paint::Text),
        Shape::Ring {
            x: 128,
            y: 168,
            radius_x: 96,
            radius_y: 42,
            thickness: 6,
            paint: Paint::Horizon,
        },
        Shape::Ring {
            x: 128,
            y: 180,
            radius_x: 130,
            radius_y: 60,
            thickness: 4,
            paint: Paint::Sunset,
        },
    ]
}

/// The terminal with its three agents and a prompt.
pub open spec fn terminal_shapes() -> Seq<Shape> {
    seq![
        Shape::Plate { rect: terminal_rect(), paint: Paint::Panel },
        Shape::Outline { rect: terminal_rect(), thickness: 3, paint: Paint::PanelStroke },
        Shape::Line {
            from_x: 84,
            from_y: 108,
            to_x: 170,
            to_y: 108,
            thickness: 4,
            paint: Paint::ShellStroke,
        },
        dot(82, 108, 3, Paint::Sunset),
        dot(94, 108, 3, Paint::Agent),
        dot(106, 108, 3, Paint::Horizon),
        Shape::Plate { rect: agent_rect(84), paint: Paint::Shell },
        Shape::Outline { rect: agent_rect(84), thickness: 2, paint: Paint::Agent },
        Shape::Plate { rect: agent_rect(116), paint: Paint::Shell },
        Shape::Outline { rect: agent_rect(116), thickness: 2, paint: Paint::Horizon },
        Shape::Plate { rect: agent_rect(148), paint: Paint::Shell },
        Shape::Outline { rect: agent_rect(148), thickness: 2, paint: Paint::Sunset },
        Shape::Line {
            from_x: 88,
            from_y: 152,
            to_x: 102,
            to_y: 140,
            thickness: 5,
            paint: Paint::Horizon,
        },
        Shape::Line {
            from_x: 88,
            from_y: 152,
            to_x: 102,
            to_y: 164,
            thickness: 5,
            paint: Paint::Horizon,
        },
        Shape::Line {
            from_x: 114,
            from_y: 152,
            to_x: 164,
            to_y: 152,
            thickness: 6,
            paint: Paint::Text,
        },
    ]
}

fn push_circle(shapes: &mut Vec<Shape>, x: i64, y: i64, radius: i64, paint: Paint)
    ensures
        final(shapes)@ == old(shapes)@.push(dot(x, y, radius, paint)),
{
    shapes.push(Shape::Circle { x, y, radius, paint });
}

fn push_frame(shapes: &mut Vec<Shape>, rect: IconRect, fill: Paint, thickness: i64, stroke: Paint)
    ensures
        final(shapes)@ == old(shapes)@.push(Shape::Plate { rect, paint: fill }).push(
            Shape::Outline { rect, thickness, paint: stroke },
        ),
{
    shapes.push(Shape::Plate { rect, paint: fill });
    shapes.push(Shape::Outline { rect, thickness, paint: stroke });
}

fn sky() -> (shapes: Vec<Shape>)
    ensures
        shapes@ == sky_shapes(),
        forall|i: int| 0 <= i < shapes@.len() ==> drawable(#[trigger] shapes@[i]),
{
    let mut shapes: Vec<Shape> = Vec::new();
    let shell = IconRect { left: 24, top: 24, width: 208, height: 208, radius: 46 };
    push_frame(&mut shapes, shell, Paint::Shell, 3, Paint::ShellStroke);
    shapes.push(Shape::Glow { x: 128, y: 118, radius: 94 });
    shapes.push(
        Shape::Ring {
            x: 128,
            y: 96,
            radius_x: 56,
            radius_y: 24,
            thickness: 3,
            paint: Paint::ShellStroke,
        },
    );
    push_circle(&mut shapes, 90, 74, 10, Paint::Agent);
    push_circle(&mut shapes, 90, 74, 4, Paint::Text);
    push_circle(&mut shapes, 128, 60, 10, Paint::Horizon);
    push_circle(&mut shapes, 128, 60, 4, Paint::Text);
    push_circle(&mut shapes, 166, 74, 10, Paint::Sunset);
    push_circle(&mut shapes, 166, 74, 4, Paint::Text);
    shapes.push(
        Shape::Ring {
            x: 128,
            y: 168,
            radius_x: 96,
            radius_y: 42,
            thickness: 6,
            paint: Paint::Horizon,
        },
    );
    shapes.push(
        Shape::Ring {
            x: 128,
            y: 180,
            radius_x: 130,
            radius_y: 60,
            thickness: 4,
            paint: Paint::Sunset,
        },
    );
    assert(shapes@ =~= sky_shapes());
    shapes
}

fn terminal() -> (shapes: Vec<Shape>)
    ensures
        shapes@ == terminal_shapes(),
        forall|i: int| 0 <= i < shapes@.len() ==> drawable(#[trigger] shapes@[i]),
{
    let mut shapes: Vec<Shape> = Vec::new();
    let frame = IconRect { left: 66, top: 88, width: 124, height: 84, radius: 22 };
    push_frame(&mut shapes, frame, Paint::Panel, 3, Paint::PanelStroke);
    shapes.push(
        Shape::Line {
            from_x: 84,
            from_y: 108,
            to_x: 170,
            to_y: 108,
            thickness: 4,
            paint: Paint::ShellStroke,
        },
    );
    push_circle(&mut shapes, 82, 108, 3, Paint::Sunset);
    push_circle(&mut shapes, 94, 108, 3, Paint::Agent);
    push_circle(&mut shapes, 106, 108, 3, Paint::Horizon);
    let first = IconRect { left: 84, top: 122, width: 24, height: 18, radius: 6 };
    let second = IconRect { left: 116, top: 122, width: 24, height: 18, radius: 6 };
    let third = IconRect { left: 148, top: 122, width: 24, height: 18, radius: 6 };
    push_frame(&mut shapes, first, Paint::Shell, 2, Paint::Agent);
    push_frame(&mut shapes, second, Paint::Shell, 2, Paint::Horizon);
    push_frame(&mut shapes, third, Paint::Shell, 2, Paint::Sunset);
    shapes.push(
        Shape::Line {
            from_x: 88,
            from_y: 152,
            to_x: 102,
            to_y: 140,
            thickness: 5,
            paint: Paint::Horizon,
        },
    );
    shapes.push(
        Shape::Line {
            from_x: 88,
            from_y: 152,
            to_x: 102,
            to_y: 164,
            thickness: 5,
            paint: Paint::Horizon,
        },
    );
    shapes.push(
        Shape::Line {
            from_x: 114,
            from_y: 152,
            to_x: 164,
            to_y: 152,
            thickness: 6,
            paint: Paint::Text,
        },
    );
    assert(shapes@ =~= terminal_shapes());
    shapes
}

/// The drawn icon: a terminal under a horizon with three agents above it.
pub open spec fn is_drawn_icon(icon: IconData) -> bool {
    &&& icon.width == ICON_SIZE && icon.height == ICON_SIZE
    &&& icon.rgba@.len() == ICON_SIZE * ICON_SIZE * 4
    &&& forall|x: int, y: int|
        0 <= x < ICON_SIZE && 0 <= y < ICON_SIZE ==> icon.rgba@.subrange(
            #[trigger] pixel_index(x, y),
            pixel_index(x, y) + 4,
        ) == bytes_of(
            pixel(
                sky_shapes() + terminal_shapes(),
                (sky_shapes() + terminal_shapes()).len() as int,
                x,
                y,
            ),
        )
}

/// The application's icon: the embedded picture, and one that is drawn where
/// that does not decode. The embedded one is small for a reason: a window
/// property as large as the drawn icon exceeds what X11 takes in one request,
/// and the icon then fails without a word.
pub fn app_icon(decoded: Option<IconData>) -> (icon: IconData)
    ensures
        match decoded {
            Some(embedded) => icon.width == embedded.width && icon.height == embedded.height
                && icon.rgba@ == embedded.rgba@,
            None => is_drawn_icon(icon),
        },
{
    if let Some(embedded) = decoded {
        return embedded;
    }
    let mut shapes = sky();
    let mut rest = terminal();
    let ghost upper = shapes@;
    let ghost lower = rest@;
    shapes.append(&mut rest);
    assert forall|i: int| 0 <= i < shapes@.len() implies drawable(#[trigger] shapes@[i]) by {
        if i < upper.len() {
            assert(shapes@[i] == upper[i]);
        } else {
            assert(shapes@[i] == lower[i - upper.len()]);
        }
    }
    draw_icon(&shapes)
}

/// No pixel lets anything through, whatever shapes are drawn.
pub proof fn law_icons_are_opaque(shapes: Seq<Shape>, n: int, x: int, y: int)
    requires
        0 <= n <= shapes.len(),
    ensures
        pixel(shapes, n, x, y).a == 255,
    decreases n,
{
    if n > 0 {
        law_icons_are_opaque(shapes, n - 1, x, y);
    }
}

/// Every paint has its own colour.
pub proof fn law_paints_have_their_colours(paint: Paint)
    ensures
        ({
            let c = color_of(paint);
            &&& c.a == 255
            &&& paint is Background ==> c.r == 10 && c.g == 22 && c.b == 34
            &&& paint is Shell ==> c.r == 17 && c.g == 32 && c.b == 48
            &&& paint is ShellStroke ==> c.r == 54 && c.g == 88 && c.b == 122
            &&& paint is Panel ==> c.r == 20 && c.g == 38 && c.b == 56
            &&& paint is PanelStroke ==> c.r == 94 && c.g == 132 && c.b == 173
            &&& paint is Horizon ==> c.r == 118 && c.g == 216 && c.b == 255
            &&& paint is Sunset ==> c.r == 255 && c.g == 170 && c.b == 114
            &&& paint is Agent ==> c.r == 126 && c.g == 225 && c.b == 198
            &&& paint is Text ==> c.r == 239 && c.g == 245 && c.b == 251
        }),
{
}

/// A pixel's bytes are red, green, blue and its opacity, and pixels stand row by
/// row, 256 to each.
pub proof fn law_bytes_are_red_green_blue(color: Rgba, x: int, y: int)
    ensures
        bytes_of(color).len() == 4,
        bytes_of(color)[0] == color.r,
        bytes_of(color)[1] == color.g,
        bytes_of(color)[2] == color.b,
        bytes_of(color)[3] == color.a,
        pixel_index(x + 1, y) == pixel_index(x, y) + 4,
        pixel_index(x, y + 1) == pixel_index(x, y) + 1024,
        pixel_index(0, 0) == 0,
{
}

/// A circle paints the points that are no further from its middle than its
/// radius.
pub proof fn law_circles_are_round(
    cx: i64,
    cy: i64,
    radius: i64,
    paint: Paint,
    x: int,
    y: int,
    under: Rgba,
)
    ensures
        ({
            let after = shaded(Shape::Circle { x: cx, y: cy, radius, paint }, x, y, under);
            let inside = (x - cx) * (x - cx) + (y - cy) * (y - cy) <= radius * radius;
            &&& inside ==> after == color_of(paint)
            &&& !inside ==> after == under
        }),
{
}

/// A plate paints its rectangle but for the corners, which are rounded; it paints
/// nothing outside.
pub proof fn law_plates_are_rounded_at_the_corners(
    rect: IconRect,
    paint: Paint,
    x: int,
    y: int,
    under: Rgba,
)
    ensures
        ({
            let after = shaded(Shape::Plate { rect, paint }, x, y, under);
            let right = rect.left + rect.width;
            let bottom = rect.top + rect.height;
            let spans = rect.left <= x < right && rect.top <= y < bottom;
            let middle_x = rect.left + rect.radius <= x <= right - rect.radius;
            let middle_y = rect.top + rect.radius <= y <= bottom - rect.radius;
            let dx = rect.left + rect.radius - x;
            let dy = rect.top + rect.radius - y;
            &&& !spans ==> after == under
            &&& spans && (middle_x || middle_y) ==> after == color_of(paint)
            &&& spans && dx > 0 && dy > 0 ==> after == (if dx * dx + dy * dy <= rect.radius
                * rect.radius {
                color_of(paint)
            } else {
                under
            })
        }),
{
    let dx = rect.left + rect.radius - x;
    let dy = rect.top + rect.radius - y;
    assert((x - (rect.left + rect.radius)) * (x - (rect.left + rect.radius)) == dx * dx)
        by (nonlinear_arith)
        requires
            dx == rect.left + rect.radius - x,
    ;
    assert((y - (rect.top + rect.radius)) * (y - (rect.top + rect.radius)) == dy * dy)
        by (nonlinear_arith)
        requires
            dy == rect.top + rect.radius - y,
    ;
}

/// Away from the corners an outline paints what is within its thickness of an
/// edge, and leaves what is further in.
pub proof fn law_outlines_follow_the_edge(
    rect: IconRect,
    thickness: i64,
    paint: Paint,
    x: int,
    y: int,
    under: Rgba,
)
    requires
        0 < thickness <= rect.radius,
        2 * rect.radius < rect.height,
        2 * rect.radius < rect.width,
        rect.top + rect.radius <= y <= rect.top + rect.height - rect.radius,
    ensures
        ({
            let after = shaded(Shape::Outline { rect, thickness, paint }, x, y, under);
            let right = rect.left + rect.width;
            &&& rect.left <= x < rect.left + thickness ==> after == color_of(paint)
            &&& rect.left + thickness <= x <= right - thickness ==> after == under
            &&& right - thickness < x < right ==> after == color_of(paint)
            &&& x < rect.left || x >= right ==> after == under
        }),
{
    let right = rect.left + rect.width;
    let bottom = rect.top + rect.height;
    let radius = rect.radius as int;
    let inner = radius - thickness;
    assert(square(0) == 0);
    let outer_x = held(x, rect.left + radius, right - radius);
    let inner_x = held(x, rect.left + thickness + inner, right - thickness - inner);
    assert(outer_x == inner_x);
    let d = x - outer_x;
    assert(held(y, rect.top + radius, bottom - radius) == y);
    assert(held(y, rect.top + thickness + inner, bottom - thickness - inner) == y);
    assert(y - y == 0);
    assert(apart(x, y, outer_x, y) == d * d);
    if rect.left <= x < right {
        assert(-radius <= d <= radius);
        assert(d * d <= radius * radius) by (nonlinear_arith)
            requires
                -radius <= d <= radius,
        ;
        if x < rect.left + thickness || x > right - thickness {
            assert(d < -inner || d > inner);
            assert(d * d > inner * inner) by (nonlinear_arith)
                requires
                    d < -inner || d > inner,
                    inner >= 0,
            ;
        } else {
            assert(-inner <= d <= inner);
            assert(d * d <= inner * inner) by (nonlinear_arith)
                requires
                    -inner <= d <= inner,
            ;
        }
    }
}

/// A ring is the same to the left and right of its middle, and above and below
/// it.
pub proof fn law_rings_are_symmetric(
    cx: int,
    cy: int,
    radius_x: int,
    radius_y: int,
    thickness: int,
    dx: int,
    dy: int,
)
    ensures
        ring_covers(cx, cy, radius_x, radius_y, thickness, cx + dx, cy + dy) == ring_covers(
            cx,
            cy,
            radius_x,
            radius_y,
            thickness,
            cx - dx,
            cy + dy,
        ),
        ring_covers(cx, cy, radius_x, radius_y, thickness, cx + dx, cy + dy) == ring_covers(
            cx,
            cy,
            radius_x,
            radius_y,
            thickness,
            cx + dx,
            cy - dy,
        ),
{
    assert((-dx) * (-dx) == dx * dx) by (nonlinear_arith);
    assert((-dy) * (-dy) == dy * dy) by (nonlinear_arith);
    assert(cx + dx - cx == dx && cx - dx - cx == -dx);
    assert(cy + dy - cy == dy && cy - dy - cy == -dy);
}

/// Along its longer radius a ring covers what is within its thickness of that
/// radius, and nothing else.
pub proof fn law_rings_lie_along_their_radius(
    cx: int,
    cy: int,
    radius_x: int,
    radius_y: int,
    thickness: int,
    d: int,
)
    requires
        0 < radius_y <= radius_x,
        0 <= thickness < radius_x,
        d >= 0,
    ensures
        ring_covers(cx, cy, radius_x, radius_y, thickness, cx + d, cy) <==> radius_x - thickness
            <= d <= radius_x + thickness,
{
    let w = square(radius_x * radius_y);
    let low = radius_x - thickness;
    let high = radius_x + thickness;
    assert(cx + d - cx == d && cy - cy == 0);
    assert(square(0) == 0);
    let level = (square(d) * square(radius_y) + square(0) * square(radius_x)) * square(radius_x);
    assert(level == square(d) * w) by (nonlinear_arith)
        requires
            level == (d * d * (radius_y * radius_y) + 0 * (radius_x * radius_x)) * (radius_x
                * radius_x),
            w == radius_x * radius_y * (radius_x * radius_y),
            square(d) == d * d,
    ;
    assert(w > 0) by (nonlinear_arith)
        requires
            w == radius_x * radius_y * (radius_x * radius_y),
            radius_x > 0,
            radius_y > 0,
    ;
    assert(d * d * w >= low * low * w <==> d >= low) by (nonlinear_arith)
        requires
            w > 0,
            d >= 0,
            low > 0,
    ;
    assert(d * d * w <= high * high * w <==> d <= high) by (nonlinear_arith)
        requires
            w > 0,
            d >= 0,
            high >= 0,
    ;
}

/// A level line covers what is no further than half its thickness from it, and
/// ends in half circles.
pub proof fn law_lines_are_as_thick_as_they_say(
    from_x: int,
    y0: int,
    to_x: int,
    thickness: int,
    x: int,
    y: int,
)
    requires
        from_x < to_x,
    ensures
        ({
            let covered = line_covers(from_x, y0, to_x, y0, thickness, x, y);
            let d = y - y0;
            &&& from_x < x < to_x ==> (covered <==> 4 * (d * d) <= thickness * thickness)
            &&& x <= from_x ==> (covered <==> 4 * ((x - from_x) * (x - from_x) + d * d) <= thickness
                * thickness)
            &&& x >= to_x ==> (covered <==> 4 * ((x - to_x) * (x - to_x) + d * d) <= thickness
                * thickness)
        }),
{
    let run = to_x - from_x;
    let d = y - y0;
    let along = (x - from_x) * run + d * 0;
    assert(square(0) == 0);
    assert(apart(to_x, y0, from_x, y0) == run * run);
    assert(along <= 0 <==> x <= from_x) by (nonlinear_arith)
        requires
            along == (x - from_x) * run + d * 0,
            run > 0,
    ;
    assert(along >= run * run <==> x >= to_x) by (nonlinear_arith)
        requires
            along == (x - from_x) * run + d * 0,
            run == to_x - from_x,
            run > 0,
    ;
    let across = (x - from_x) * 0 - d * run;
    assert(4 * (across * across) <= thickness * thickness * (run * run) <==> 4 * (d * d)
        <= thickness * thickness) by (nonlinear_arith)
        requires
            across == (x - from_x) * 0 - d * run,
            run > 0,
    ;
    assert(y0 - y0 == 0);
}

proof fn lemma_glow_part(under: u8, over: u8, radius: int, square_distance: int, k: int, v: int)
    requires
        0 <= v <= k,
        v == 0 || glow_reaches(under, over, radius, square_distance, v),
        forall|j: int|
            v < j <= k ==> !#[trigger] glow_reaches(under, over, radius, square_distance, j),
    ensures
        glow_part(under, over, radius, square_distance, k) == v,
    decreases k,
{
    if k > v {
        assert(!glow_reaches(under, over, radius, square_distance, k));
        lemma_glow_part(under, over, radius, square_distance, k - 1, v);
    }
}

/// A glow leaves what is further away than its radius, and at its radius it has
/// ended.
pub proof fn law_glows_end_at_their_radius(
    cx: int,
    cy: int,
    radius: int,
    x: int,
    y: int,
    under: Rgba,
)
    requires
        radius > 0,
        under.a == 255,
    ensures
        (x - cx) * (x - cx) + (y - cy) * (y - cy) >= radius * radius ==> glowing(
            cx,
            cy,
            radius,
            x,
            y,
            under,
        ) == under,
{
    let distance = apart(x, y, cx, cy);
    if distance == square(radius) {
        lemma_glow_at_the_radius(under.r, 70, radius);
        lemma_glow_at_the_radius(under.g, 122, radius);
        lemma_glow_at_the_radius(under.b, 196, radius);
    }
}

proof fn lemma_glow_at_the_radius(under: u8, over: u8, radius: int)
    requires
        radius > 0,
    ensures
        glow_part(under, over, radius, square(radius), 255) == under,
{
    let slope = 2 * 45 * 138 * (over - under);
    assert forall|k: int| #[trigger] glow_reaches(under, over, radius, square(radius), k) == (k
        <= under) by {
        let room = 100 * 255 * radius * (2 * under - 2 * k + 1) + slope * radius;
        let lift = 25_500 * (2 * under - 2 * k + 1);
        assert(100 * 255 * radius * (2 * under - 2 * k + 1) == lift * radius) by (nonlinear_arith)
            requires
                lift == 25_500 * (2 * under - 2 * k + 1),
        ;
        assert(room == (lift + slope) * radius) by (nonlinear_arith)
            requires
                room == lift * radius + slope * radius,
        ;
        let sum = lift + slope;
        assert(room * room == sum * sum * (radius * radius)) by (nonlinear_arith)
            requires
                room == sum * radius,
        ;
        let area = radius * radius;
        assert(area > 0) by (nonlinear_arith)
            requires
                area == radius * radius,
                radius > 0,
        ;
        assert(room >= 0 <==> sum >= 0) by (nonlinear_arith)
            requires
                room == sum * radius,
                radius > 0,
        ;
        if slope >= 0 {
            if sum >= 0 {
                assert(sum * sum * area >= slope * slope * area <==> sum >= slope)
                    by (nonlinear_arith)
                    requires
                        sum >= 0,
                        slope >= 0,
                        area > 0,
                ;
            }
        } else if sum < 0 {
            assert(sum * sum * area <= slope * slope * area <==> sum >= slope) by (nonlinear_arith)
                requires
                    sum < 0,
                    slope < 0,
                    area > 0,
            ;
        }
        assert(square(slope) * square(radius) == slope * slope * area);
    }
    lemma_glow_part(under, over, radius, square(radius), 255, under as int);
}

/// In its middle a glow mixes a part of a colour with its own, 138 of 255 parts
/// at 45 hundredths, rounded.
pub proof fn law_glows_are_strongest_in_the_middle(under: u8, over: u8, radius: int)
    requires
        radius > 0,
    ensures
        ({
            let v = glow_part(under, over, radius, 0, 255);
            let mixed = 45 * 138 * (over - under);
            25_500 * (2 * (v - under) - 1) <= 2 * mixed < 25_500 * (2 * (v - under) + 1)
        }),
        glow_color().r == 70 && glow_color().g == 122 && glow_color().b == 196 && glow_color().a
            == 138,
{
    let slope = 2 * 45 * 138 * (over - under);
    let n = slope + 25_500 * (2 * under + 1);
    let v = n / 51_000;
    assert(slope == 12_420 * over - 12_420 * under) by (nonlinear_arith)
        requires
            slope == 2 * 45 * 138 * (over - under),
    ;
    assert(n == 12_420 * over + 38_580 * under + 25_500);
    vstd::arithmetic::div_mod::lemma_fundamental_div_mod(n, 51_000);
    vstd::arithmetic::div_mod::lemma_mod_bound(n, 51_000);
    assert(0 <= v <= 255);
    assert(45 * 138 * (over - under) == 6_210 * over - 6_210 * under) by (nonlinear_arith);
    assert forall|k: int| #[trigger] glow_reaches(under, over, radius, 0, k) == (51_000 * k <= n) by {
        let room = 100 * 255 * radius * (2 * under - 2 * k + 1) + slope * radius;
        let sum = 25_500 * (2 * under - 2 * k + 1) + slope;
        assert(room == sum * radius) by (nonlinear_arith)
            requires
                room == 100 * 255 * radius * (2 * under - 2 * k + 1) + slope * radius,
                sum == 25_500 * (2 * under - 2 * k + 1) + slope,
        ;
        assert(room >= 0 <==> sum >= 0) by (nonlinear_arith)
            requires
                room == sum * radius,
                radius > 0,
        ;
        assert(room * room >= 0) by (nonlinear_arith);
        assert(square(slope) * 0 == 0);
        if room < 0 {
            assert(room * room > 0) by (nonlinear_arith)
                requires
                    room < 0,
            ;
        }
    }
    lemma_glow_part(under, over, radius, 0, 255, v);
}

proof fn lemma_vignette(square_distance: int, steps: int)
    requires
        steps >= 0,
    ensures
        ({
            let s = vignette(square_distance, steps);
            &&& 0 <= s <= steps
            &&& s > 0 ==> square(2 * s - 1) * square(170) <= 4 * square(28) * square_distance
            &&& s < steps ==> square(2 * (s + 1) - 1) * square(170) > 4 * square(28)
                * square_distance
        }),
    decreases steps,
{
    if steps > 0 && !(square(2 * steps - 1) * square(170) <= 4 * square(28) * square_distance) {
        lemma_vignette(square_distance, steps - 1);
        let s = vignette(square_distance, steps - 1);
        assert(vignette(square_distance, steps) == s);
    }
}

/// The background is the paint itself in its middle, at 128 by 116, and gets
/// lighter outward, by at most 28 steps at 170 pixels: a fourth of them in red, a
/// third in green and a half in blue.
pub proof fn law_backgrounds_get_lighter_outward(x: int, y: int)
    ensures
        ({
            let d = (x - 128) * (x - 128) + (y - 116) * (y - 116);
            let s = vignette(d, 28);
            let c = backdrop(x, y);
            &&& c.r == 10 + s / 4 && c.g == 22 + s / 3 && c.b == 34 + s / 2 && c.a == 255
            &&& 0 <= s <= 28
            &&& s > 0 ==> (2 * s - 1) * (2 * s - 1) * 28_900 <= 3_136 * d
            &&& s < 28 ==> (2 * s + 1) * (2 * s + 1) * 28_900 > 3_136 * d
            &&& d == 0 ==> c == color_of(Paint::Background)
        }),
{
    let d = (x - 128) * (x - 128) + (y - 116) * (y - 116);
    assert(apart(x, y, 128, 116) == d);
    lemma_vignette(d, 28);
    assert(square(170) == 28_900 && square(28) == 784);
    let s = vignette(d, 28);
    assert(2 * (s + 1) - 1 == 2 * s + 1);
    if d == 0 && s > 0 {
        assert((2 * s - 1) * (2 * s - 1) > 0) by (nonlinear_arith)
            requires
                s > 0,
        ;
    }
}

/// A later shape is drawn over the earlier ones.
pub proof fn law_later_shapes_are_drawn_on_top(shapes: Seq<Shape>, shape: Shape, x: int, y: int)
    ensures
        pixel(shapes.push(shape), (shapes.len() + 1) as int, x, y) == shaded(
            shape,
            x,
            y,
            pixel(shapes, shapes.len() as int, x, y),
        ),
        pixel(shapes, 0, x, y) == backdrop(x, y),
{
    lemma_same_below(shapes, shapes.push(shape), shapes.len() as int, x, y);
    assert(shapes.push(shape)[shapes.len() as int] == shape);
}

proof fn lemma_same_below(a: Seq<Shape>, b: Seq<Shape>, n: int, x: int, y: int)
    requires
        0 <= n <= a.len(),
        n <= b.len(),
        forall|i: int| 0 <= i < n ==> #[trigger] a[i] == b[i],
    ensures
        pixel(a, n, x, y) == pixel(b, n, x, y),
    decreases n,
{
    if n > 0 {
        lemma_same_below(a, b, n - 1, x, y);
        assert(a[n - 1] == b[n - 1]);
    }
}

/// The icon is drawn around its middle line: its frames stand as far from the
/// left edge as from the right, and every agent in the sky has a light in its
/// middle.
pub proof fn law_the_icon_is_balanced(k: int)
    requires
        0 <= k < 3,
    ensures
        2 * shell_rect().left + shell_rect().width == 256,
        2 * shell_rect().top + shell_rect().height == 256,
        2 * terminal_rect().left + terminal_rect().width == 256,
        shell_rect().left < terminal_rect().left && terminal_rect().left + terminal_rect().width
            < shell_rect().left + shell_rect().width,
        ({
            let agent = sky_shapes()[4 + 2 * k];
            let light = sky_shapes()[5 + 2 * k];
            let across = sky_shapes()[4 + 2 * (2 - k)];
            &&& agent is Circle && light is Circle && across is Circle
            &&& light->Circle_x == agent->Circle_x && light->Circle_y == agent->Circle_y
            &&& light->Circle_radius == 4 && agent->Circle_radius == 10
            &&& light->Circle_paint is Text
            &&& agent->Circle_x + across->Circle_x == 256
            &&& agent->Circle_y == across->Circle_y
            &&& agent->Circle_paint == (if k == 0 {
                Paint::Agent
            } else if k == 1 {
                Paint::Horizon
            } else {
                Paint::Sunset
            })
        }),
        sky_shapes().len() == 12,
        terminal_shapes().len() == 15,
{
    let shapes = sky_shapes();
    assert(shapes[4] == dot(90, 74, 10, Paint::Agent));
    assert(shapes[5] == dot(90, 74, 4, Paint::Text));
    assert(shapes[6] == dot(128, 60, 10, Paint::Horizon));
    assert(shapes[7] == dot(128, 60, 4, Paint::Text));
    assert(shapes[8] == dot(166, 74, 10, Paint::Sunset));
    assert(shapes[9] == dot(166, 74, 4, Paint::Text));
}

} // verus!
