//! Points and rectangles on the screen, in thousandths of a logical point.
use vstd::prelude::*;

verus! {

#[derive(Clone, Copy, Debug, PartialEq, Eq, Structural)]
pub struct Pos {
    pub x: i32,
    pub y: i32,
}

/// A rectangle; both ends belong to it.
#[derive(Clone, Copy, Debug, PartialEq, Eq, Structural)]
pub struct ScreenRect {
    pub min_x: i32,
    pub min_y: i32,
    pub max_x: i32,
    pub max_y: i32,
}

/// A coordinate; one that the numbers cannot hold stands at their end.
pub open spec fn held(v: int) -> i32 {
    if v < i32::MIN {
        i32::MIN
    } else if v > i32::MAX {
        i32::MAX
    } else {
        v as i32
    }
}

pub(crate) fn hold(v: i128) -> (h: i32)
    ensures
        h == held(v as int),
{
    if v < -0x8000_0000 {
        -0x8000_0000
    } else if v > 0x7fff_ffff {
        0x7fff_ffff
    } else {
        v as i32
    }
}

/// The square of the distance between two points.
pub open spec fn square_distance(a: Pos, b: Pos) -> int {
    (a.x - b.x) * (a.x - b.x) + (a.y - b.y) * (a.y - b.y)
}

fn square(d: i64) -> (s: u128)
    requires
        -0xffff_ffff <= d <= 0xffff_ffff,
    ensures
        s == d * d,
        s <= 0xffff_ffff * 0xffff_ffff,
{
    let m: u64 = if d >= 0 {
        d as u64
    } else {
        (-d) as u64
    };
    assert(m * m == d * d) by (nonlinear_arith)
        requires
            m == d || m == -d,
    ;
    assert(0 <= m * m <= 0xffff_ffff * 0xffff_ffff) by (nonlinear_arith)
        requires
            0 <= m <= 0xffff_ffff,
    ;
    (m as u128) * (m as u128)
}

/// Whether two points are at most `distance` apart.
pub fn within_distance(a: Pos, b: Pos, distance: u32) -> (yes: bool)
    ensures
        yes == (square_distance(a, b) <= distance * distance),
{
    let dx: i64 = a.x as i64 - b.x as i64;
    let dy: i64 = a.y as i64 - b.y as i64;
    let limit: u128 = square(distance as i64);
    square(dx) + square(dy) <= limit
}

/// Whether two points are at least `distance` apart.
pub fn beyond_distance(a: Pos, b: Pos, distance: u32) -> (yes: bool)
    ensures
        yes == (square_distance(a, b) >= distance * distance),
{
    let dx: i64 = a.x as i64 - b.x as i64;
    let dy: i64 = a.y as i64 - b.y as i64;
    let limit: u128 = square(distance as i64);
    square(dx) + square(dy) >= limit
}

impl ScreenRect {
    /// Both sides have an extent.
    pub open spec fn solid(self) -> bool {
        self.min_x < self.max_x && self.min_y < self.max_y
    }

    /// What two rectangles share; no rectangle where they share nothing.
    pub open spec fn overlap(self, other: ScreenRect) -> ScreenRect {
        ScreenRect {
            min_x: if self.min_x > other.min_x {
                self.min_x
            } else {
                other.min_x
            },
            min_y: if self.min_y > other.min_y {
                self.min_y
            } else {
                other.min_y
            },
            max_x: if self.max_x < other.max_x {
                self.max_x
            } else {
                other.max_x
            },
            max_y: if self.max_y < other.max_y {
                self.max_y
            } else {
                other.max_y
            },
        }
    }

    pub open spec fn holds(self, p: Pos) -> bool {
        self.min_x <= p.x <= self.max_x && self.min_y <= p.y <= self.max_y
    }

    pub fn contains(self, p: Pos) -> (yes: bool)
        ensures
            yes == self.holds(p),
    {
        self.min_x <= p.x && p.x <= self.max_x && self.min_y <= p.y && p.y <= self.max_y
    }

    pub open spec fn middle(self) -> Pos {
        Pos {
            x: ((self.min_x + self.max_x) / 2) as i32,
            y: ((self.min_y + self.max_y) / 2) as i32,
        }
    }

    pub fn center(self) -> (p: Pos)
        requires
            self.solid(),
        ensures
            p == self.middle(),
            self.holds(p),
    {
        Pos { x: mean(self.min_x, self.max_x), y: mean(self.min_y, self.max_y) }
    }

    /// The point of the rectangle that is nearest to `p`.
    pub open spec fn nearest(self, p: Pos) -> Pos {
        Pos {
            x: nearest_in(p.x, self.min_x, self.max_x),
            y: nearest_in(p.y, self.min_y, self.max_y),
        }
    }

    pub fn clamp(self, p: Pos) -> (q: Pos)
        ensures
            q == self.nearest(p),
    {
        Pos { x: clamp_axis(p.x, self.min_x, self.max_x), y: clamp_axis(p.y, self.min_y, self.max_y)
        }
    }
}

pub open spec fn nearest_in(v: i32, low: i32, high: i32) -> i32 {
    if v < low {
        low
    } else if v > high {
        high
    } else {
        v
    }
}

fn clamp_axis(v: i32, low: i32, high: i32) -> (c: i32)
    ensures
        c == nearest_in(v, low, high),
{
    if v < low {
        low
    } else if v > high {
        high
    } else {
        v
    }
}

fn mean(low: i32, high: i32) -> (m: i32)
    requires
        low <= high,
    ensures
        m == (low + high) / 2,
        low <= m <= high,
{
    let span: u32 = (high as i64 - low as i64) as u32;
    let half: u32 = span / 2;
    (low as i64 + half as i64) as i32
}

/// Where a point `offset` from the start of a side of `size` lies on a side of
/// `target`, both ends kept.
pub open spec fn scaled(offset: int, size: int, target: int) -> int {
    let at = offset * target / size;
    if offset <= 0 {
        0
    } else if at > target {
        target
    } else {
        at
    }
}

pub fn scale_offset(offset: i64, size: u32, target: u32) -> (at: u32)
    requires
        0 < size,
        -0xffff_ffff <= offset <= 0xffff_ffff,
    ensures
        at == scaled(offset as int, size as int, target as int),
{
    if offset <= 0 {
        return 0;
    }
    assert(0 <= offset * target <= 0xffff_ffff * 0xffff_ffff) by (nonlinear_arith)
        requires
            0 <= offset <= 0xffff_ffff,
            0 <= target <= 0xffff_ffff,
    ;
    let at: u64 = (offset as u64) * (target as u64) / (size as u64);
    if at > target as u64 {
        target
    } else {
        at as u32
    }
}

/// `k` is the least number whose square, `b` times, reaches `n`.
pub open spec fn least_root_is(k: nat, n: nat, b: nat) -> bool {
    k * k * b >= n && (k > 0 ==> (k - 1) * (k - 1) * b < n)
}

pub open spec fn least_root(n: nat, b: nat) -> nat {
    choose|k: nat| least_root_is(k, n, b)
}

proof fn lemma_least_root(k: nat, n: nat, b: nat)
    requires
        b > 0,
        least_root_is(k, n, b),
    ensures
        least_root(n, b) == k,
{
    let other = least_root(n, b);
    assert(least_root_is(other, n, b));
    if other < k {
        assert(other * other * b <= (k - 1) * (k - 1) * b) by (nonlinear_arith)
            requires
                0 <= other <= k - 1,
                b > 0,
        ;
    }
    if k < other {
        assert(k * k * b <= (other - 1) * (other - 1) * b) by (nonlinear_arith)
            requires
                0 <= k <= other - 1,
                b > 0,
        ;
    }
}

/// The least number whose square, `b` times, reaches `n`.
pub fn root_up(n: u128, b: u128) -> (k: u64)
    requires
        0 < b <= 0xffff_ffff,
        n <= 0x4000_0000_0000_0000 * b,
    ensures
        k == least_root(n as nat, b as nat),
        k <= 0x8000_0000,
{
    let mut low: u128 = 0;
    let mut high: u128 = 0x8000_0000;
    assert(0x8000_0000 * 0x8000_0000 * b == 0x4000_0000_0000_0000 * b) by (nonlinear_arith);
    // The square of `high` reaches `n`; that of everything below `low` does not.
    while low < high
        invariant
            0 < b <= 0xffff_ffff,
            low <= high <= 0x8000_0000,
            high * high * b >= n,
            low > 0 ==> (low - 1) * (low - 1) * b < n,
        decreases high - low,
    {
        let mid: u128 = low + (high - low) / 2;
        assert(mid * mid <= 0x8000_0000 * 0x8000_0000) by (nonlinear_arith)
            requires
                0 <= mid <= 0x8000_0000,
        ;
        assert(mid * mid * b <= 0x4000_0000_0000_0000 * 0xffff_ffff) by (nonlinear_arith)
            requires
                0 <= mid * mid <= 0x4000_0000_0000_0000,
                0 < b <= 0xffff_ffff,
        ;
        if mid * mid * b >= n {
            high = mid;
        } else {
            low = mid + 1;
        }
    }
    proof {
        lemma_least_root(low as nat, n as nat, b as nat);
    }
    low as u64
}

pub proof fn lemma_root_exists(n: nat, b: nat)
    requires
        b > 0,
    ensures
        least_root_is(least_root(n, b), n, b),
{
    let k = lemma_root_search(n, b, n);
    assert(least_root_is(k, n, b));
}

proof fn lemma_root_search(n: nat, b: nat, k: nat) -> (root: nat)
    requires
        b > 0,
        k <= n,
    ensures
        k * k * b >= n ==> least_root_is(root, n, b),
        n * n * b >= n,
    decreases k,
{
    assert(n * n * b >= n) by (nonlinear_arith)
        requires
            b > 0,
            n >= 0,
    ;
    if k > 0 && (k - 1) * (k - 1) * b >= n {
        lemma_root_search(n, b, (k - 1) as nat)
    } else {
        k
    }
}

/// A rectangle holds a point just where it holds it along both axes, its ends
/// among it; what two rectangles share are the points that both hold.
pub proof fn law_rectangles_share_their_points(a: ScreenRect, b: ScreenRect, p: Pos)
    ensures
        a.holds(p) <==> a.min_x <= p.x <= a.max_x && a.min_y <= p.y <= a.max_y,
        a.overlap(b).holds(p) <==> a.holds(p) && b.holds(p),
        a.solid() <==> a.min_x < a.max_x && a.min_y < a.max_y,
{
}

/// A point is brought into a rectangle by the shortest way, and one that is in
/// it stays.
pub proof fn law_points_are_brought_in_by_the_shortest_way(area: ScreenRect, p: Pos, q: Pos)
    requires
        area.min_x <= area.max_x && area.min_y <= area.max_y,
        area.holds(q),
    ensures
        area.holds(area.nearest(p)),
        area.holds(p) ==> area.nearest(p) == p,
        p.x < area.nearest(p).x ==> area.nearest(p).x <= q.x,
        p.x > area.nearest(p).x ==> area.nearest(p).x >= q.x,
        p.y < area.nearest(p).y ==> area.nearest(p).y <= q.y,
        p.y > area.nearest(p).y ==> area.nearest(p).y >= q.y,
{
}

/// The middle of a rectangle is as far from one side as from the other, to the
/// rounding.
pub proof fn law_the_middle_is_half_way(area: ScreenRect)
    requires
        area.solid(),
    ensures
        0 <= (area.max_x - area.middle().x) - (area.middle().x - area.min_x) <= 1,
        0 <= (area.max_y - area.middle().y) - (area.middle().y - area.min_y) <= 1,
{
}

/// A number that fits is kept; one that does not stands at the nearer end.
pub proof fn law_numbers_are_held_at_the_ends(v: int)
    ensures
        -0x8000_0000 <= v <= 0x7fff_ffff ==> held(v) == v,
        v < -0x8000_0000 ==> held(v) == -0x8000_0000,
        v > 0x7fff_ffff ==> held(v) == 0x7fff_ffff,
{
}

/// Scaling keeps both ends and the order, and lies as far along as before.
pub proof fn law_scaling_keeps_the_proportion(offset: int, size: int, target: int)
    requires
        0 < size,
        0 <= target,
    ensures
        offset <= 0 ==> scaled(offset, size, target) == 0,
        offset >= size ==> scaled(offset, size, target) == target,
        0 <= offset <= size ==> scaled(offset, size, target) * size <= offset * target < (scaled(
            offset,
            size,
            target,
        ) + 1) * size,
{
    let at = offset * target / size;
    assert(at * size <= offset * target < (at + 1) * size) by (nonlinear_arith)
        requires
            at == offset * target / size,
            0 < size,
    ;
    if offset <= 0 {
        if offset == 0 {
            assert(offset * target == 0) by (nonlinear_arith)
                requires
                    offset == 0,
            ;
        }
    } else if offset >= size {
        assert(at >= target) by (nonlinear_arith)
            requires
                at == offset * target / size,
                offset >= size,
                0 < size,
                0 <= target,
        ;
        if offset == size {
            assert(at == target) by (nonlinear_arith)
                requires
                    at == offset * target / size,
                    offset == size,
                    0 < size,
            ;
        }
    } else {
        assert(at <= target) by (nonlinear_arith)
            requires
                at == offset * target / size,
                0 <= offset <= size,
                0 < size,
                0 <= target,
        ;
    }
}

/// Distance is measured along both axes, and is the same both ways.
pub proof fn law_distances_are_measured_along_both_axes(a: Pos, b: Pos)
    ensures
        square_distance(a, b) == square_distance(b, a),
        a.y == b.y ==> square_distance(a, b) == (a.x - b.x) * (a.x - b.x),
        a.x == b.x ==> square_distance(a, b) == (a.y - b.y) * (a.y - b.y),
        square_distance(a, b) == 0 <==> a == b,
{
    let (dx, dy) = (a.x - b.x, a.y - b.y);
    assert(dx * dx == (-dx) * (-dx) && dy * dy == (-dy) * (-dy)) by (nonlinear_arith);
    assert(dx * dx + dy * dy == 0 <==> dx == 0 && dy == 0) by (nonlinear_arith);
    assert(dx == 0 ==> dx * dx == 0) by (nonlinear_arith);
    assert(dy == 0 ==> dy * dy == 0) by (nonlinear_arith);
}

} // verus!
