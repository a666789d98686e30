use vstd::prelude::*;

verus! {

/// Length of a heading's direction vector: `(cos, sin)` of a heading are
/// stored multiplied by this factor.
pub const HEADING_UNIT: i64 = 1_000_000;

/// Largest magnitude of a position coordinate, in thousandths of an inch.
/// Displacements that would leave the range are clamped to it.
pub const COORD_LIMIT: i64 = 1_000_000_000_000_000;

/// Direction of travel as a scaled direction vector.
#[derive(Clone, Copy, Debug, PartialEq, Eq, Structural)]
pub struct Heading {
    pub cos: i64,
    pub sin: i64,
}

/// Position in thousandths of an inch together with a heading.
#[derive(Clone, Copy, Debug, PartialEq, Eq, Structural)]
pub struct Pose {
    pub x: i64,
    pub y: i64,
    pub heading: Heading,
}

/// Mathematical value of a pose.
pub struct PoseModel {
    pub x: int,
    pub y: int,
    pub cos: int,
    pub sin: int,
}

impl View for Pose {
    type V = PoseModel;

    open spec fn view(&self) -> PoseModel {
        PoseModel {
            x: self.x as int,
            y: self.y as int,
            cos: self.heading.cos as int,
            sin: self.heading.sin as int,
        }
    }
}

impl Pose {
    /// Whether the pose is in range, as `valid_pose` states it.
    pub fn is_valid(&self) -> (r: bool)
        ensures
            r == valid_pose(self@),
    {
        -COORD_LIMIT <= self.x && self.x <= COORD_LIMIT && -COORD_LIMIT <= self.y && self.y
            <= COORD_LIMIT && -HEADING_UNIT <= self.heading.cos && self.heading.cos <= HEADING_UNIT
            && -HEADING_UNIT <= self.heading.sin && self.heading.sin <= HEADING_UNIT
    }
}

pub open spec fn valid_heading(cos: int, sin: int) -> bool {
    -HEADING_UNIT <= cos <= HEADING_UNIT && -HEADING_UNIT <= sin <= HEADING_UNIT
}

pub open spec fn valid_coord(v: int) -> bool {
    -COORD_LIMIT <= v <= COORD_LIMIT
}

/// A pose whose coordinates are in range and whose heading is at most unit length
/// in each component.
pub open spec fn valid_pose(p: PoseModel) -> bool {
    valid_coord(p.x) && valid_coord(p.y) && valid_heading(p.cos, p.sin)
}

/// Division rounding toward zero, for a positive divisor.
pub open spec fn trunc_div(a: int, b: int) -> int {
    if a >= 0 {
        a / b
    } else {
        -((-a) / b)
    }
}

pub open spec fn clamp_coord(v: int) -> int {
    if v < -COORD_LIMIT {
        -COORD_LIMIT as int
    } else if v > COORD_LIMIT {
        COORD_LIMIT as int
    } else {
        v
    }
}

/// Offset travelled along a heading component over a distance.
pub open spec fn offset(distance: int, component: int) -> int {
    trunc_div(distance * component, HEADING_UNIT as int)
}

/// The pose reached by travelling `distance` along the heading of `p`;
/// the heading is kept.
pub open spec fn displaced(p: PoseModel, distance: int) -> PoseModel {
    PoseModel {
        x: clamp_coord(p.x + offset(distance, p.cos)),
        y: clamp_coord(p.y + offset(distance, p.sin)),
        cos: p.cos,
        sin: p.sin,
    }
}

/// The integer square root: the largest `r` with `r * r <= n`.
pub open spec fn floor_sqrt(n: int) -> int
    recommends
        n >= 0,
{
    choose|r: int| is_floor_sqrt(n, r)
}

pub open spec fn is_floor_sqrt(n: int, r: int) -> bool {
    0 <= r && r * r <= n && n < (r + 1) * (r + 1)
}

/// Heading of the vector `(dx, dy)`; the zero vector points along the x axis.
pub open spec fn direction(dx: int, dy: int) -> (int, int) {
    if dx == 0 && dy == 0 {
        (HEADING_UNIT as int, 0)
    } else {
        let len = floor_sqrt(dx * dx + dy * dy);
        (trunc_div(dx * HEADING_UNIT, len), trunc_div(dy * HEADING_UNIT, len))
    }
}

/// Heading of travel from `from` to `to`, turned around when `reverse` holds.
pub open spec fn heading_between(from: PoseModel, to: PoseModel, reverse: bool) -> (int, int) {
    let d = direction(to.x - from.x, to.y - from.y);
    if reverse {
        (-d.0, -d.1)
    } else {
        d
    }
}

pub proof fn lemma_floor_sqrt_unique(n: int, r: int)
    requires
        0 <= r,
        r * r <= n,
        n < (r + 1) * (r + 1),
    ensures
        floor_sqrt(n) == r,
{
    let s = floor_sqrt(n);
    assert(is_floor_sqrt(n, r));
    assert(exists|q: int| is_floor_sqrt(n, q));
    assert(is_floor_sqrt(n, s));
    if s < r {
        assert((s + 1) * (s + 1) <= r * r) by (nonlinear_arith)
            requires
                0 <= s < r,
        ;
    } else if r < s {
        assert((r + 1) * (r + 1) <= s * s) by (nonlinear_arith)
            requires
                0 <= r < s,
        ;
    }
}

/// Relies on num::integer::sqrt: for an unsigned integer it returns the
/// truncated square root, `r * r <= n < (r + 1) * (r + 1)`.
#[verifier::external_body]
fn integer_sqrt(n: u128) -> (r: u128)
    ensures
        r * r <= n,
        n < (r + 1) * (r + 1),
{
    num::integer::sqrt(n)
}

/// Exact integer square root, as `floor_sqrt` states it.
pub fn isqrt(n: u128) -> (r: u128)
    ensures
        r == floor_sqrt(n as int),
        is_floor_sqrt(n as int, r as int),
{
    let r = integer_sqrt(n);
    proof {
        lemma_floor_sqrt_unique(n as int, r as int);
    }
    r
}

/// Division rounding toward zero, as `trunc_div` states it.
pub(crate) fn trunc_div_i128(a: i128, b: i128) -> (q: i128)
    requires
        b > 0,
        a > i128::MIN,
    ensures
        q == trunc_div(a as int, b as int),
{
    if a >= 0 {
        a / b
    } else {
        let m = -a;
        let q = m / b;
        -q
    }
}

fn clamp_i128(v: i128) -> (r: i64)
    ensures
        r == clamp_coord(v as int),
{
    if v < -(COORD_LIMIT as i128) {
        -COORD_LIMIT
    } else if v > COORD_LIMIT as i128 {
        COORD_LIMIT
    } else {
        v as i64
    }
}

pub proof fn lemma_offset_bound(distance: int, component: int)
    requires
        -COORD_LIMIT <= distance <= COORD_LIMIT,
        -HEADING_UNIT <= component <= HEADING_UNIT,
    ensures
        -COORD_LIMIT <= offset(distance, component) <= COORD_LIMIT,
        -COORD_LIMIT * HEADING_UNIT <= distance * component <= COORD_LIMIT * HEADING_UNIT,
{
    let u = HEADING_UNIT as int;
    let lim = COORD_LIMIT as int;
    let p = distance * component;
    assert(-lim * u <= p <= lim * u) by (nonlinear_arith)
        requires
            -lim <= distance <= lim,
            -u <= component <= u,
            lim > 0,
            u > 0,
            p == distance * component,
    ;
    if p >= 0 {
        assert(p / u <= lim) by (nonlinear_arith)
            requires
                0 <= p <= lim * u,
                u > 0,
        ;
        assert(p / u >= 0) by (nonlinear_arith)
            requires
                0 <= p,
                u > 0,
        ;
    } else {
        assert((-p) / u <= lim) by (nonlinear_arith)
            requires
                0 <= -p <= lim * u,
                u > 0,
        ;
        assert((-p) / u >= 0) by (nonlinear_arith)
            requires
                0 <= -p,
                u > 0,
        ;
    }
}

/// The pose reached by travelling `distance` along the heading of `p`.
pub fn displace(p: Pose, distance: i64) -> (r: Pose)
    requires
        valid_pose(p@),
        valid_coord(distance as int),
    ensures
        r@ == displaced(p@, distance as int),
        valid_pose(r@),
{
    proof {
        lemma_offset_bound(distance as int, p.heading.cos as int);
        lemma_offset_bound(distance as int, p.heading.sin as int);
    }
    let dx = trunc_div_i128((distance as i128) * (p.heading.cos as i128), HEADING_UNIT as i128);
    let dy = trunc_div_i128((distance as i128) * (p.heading.sin as i128), HEADING_UNIT as i128);
    Pose {
        x: clamp_i128(p.x as i128 + dx),
        y: clamp_i128(p.y as i128 + dy),
        heading: p.heading,
    }
}

pub proof fn lemma_direction_bound(dx: int, dy: int)
    requires
        -2 * COORD_LIMIT <= dx <= 2 * COORD_LIMIT,
        -2 * COORD_LIMIT <= dy <= 2 * COORD_LIMIT,
    ensures
        valid_heading(direction(dx, dy).0, direction(dx, dy).1),
{
    if !(dx == 0 && dy == 0) {
        let n = dx * dx + dy * dy;
        let len = floor_sqrt(n);
        assert(n >= 0) by (nonlinear_arith)
            requires
                n == dx * dx + dy * dy,
        ;
        assert(exists|q: int| is_floor_sqrt(n, q)) by {
            lemma_sqrt_exists(n);
        }
        assert(is_floor_sqrt(n, len));
        lemma_component_le_len(dx, dy, len);
        lemma_component_le_len(dy, dx, len);
        lemma_scaled_bound(dx, len);
        lemma_scaled_bound(dy, len);
    }
}

proof fn lemma_component_le_len(a: int, b: int, len: int)
    requires
        0 <= len,
        !(a == 0 && b == 0),
        a * a + b * b < (len + 1) * (len + 1),
    ensures
        -len <= a <= len,
        len >= 1,
{
    assert(a * a <= a * a + b * b) by (nonlinear_arith);
    assert(a * a + b * b >= 1) by (nonlinear_arith)
        requires
            !(a == 0 && b == 0),
    ;
    if a > len {
        assert((len + 1) * (len + 1) <= a * a) by (nonlinear_arith)
            requires
                a >= len + 1,
                len >= 0,
        ;
    }
    if a < -len {
        assert((len + 1) * (len + 1) <= a * a) by (nonlinear_arith)
            requires
                -a >= len + 1,
                len >= 0,
        ;
    }
    if len == 0 {
        assert(a * a + b * b < 1) by (nonlinear_arith)
            requires
                len == 0,
                a * a + b * b < (len + 1) * (len + 1),
        ;
    }
}

proof fn lemma_scaled_bound(a: int, len: int)
    requires
        len >= 1,
        -len <= a <= len,
    ensures
        -HEADING_UNIT <= trunc_div(a * HEADING_UNIT, len) <= HEADING_UNIT,
{
    let u = HEADING_UNIT as int;
    if a >= 0 {
        assert(0 <= a * u <= len * u) by (nonlinear_arith)
            requires
                0 <= a <= len,
                u > 0,
        ;
        assert((a * u) / len <= u) by (nonlinear_arith)
            requires
                0 <= a * u <= len * u,
                len >= 1,
        ;
        assert((a * u) / len >= 0) by (nonlinear_arith)
            requires
                0 <= a * u,
                len >= 1,
        ;
    } else {
        assert(0 < -(a * u) <= len * u) by (nonlinear_arith)
            requires
                0 < -a <= len,
                u > 0,
        ;
        assert((-(a * u)) / len <= u) by (nonlinear_arith)
            requires
                0 <= -(a * u) <= len * u,
                len >= 1,
        ;
        assert((-(a * u)) / len >= 0) by (nonlinear_arith)
            requires
                0 <= -(a * u),
                len >= 1,
        ;
    }
}

proof fn lemma_sqrt_exists(n: int)
    requires
        n >= 0,
    ensures
        exists|q: int| is_floor_sqrt(n, q),
    decreases n,
{
    if n == 0 {
        assert(is_floor_sqrt(n, 0));
    } else {
        lemma_sqrt_exists(n - 1);
        let q = choose|q: int| #[trigger] is_floor_sqrt(n - 1, q);
        if n < (q + 1) * (q + 1) {
            assert(is_floor_sqrt(n, q));
        } else {
            assert((q + 1) * (q + 1) <= n && n < (q + 2) * (q + 2)) by (nonlinear_arith)
                requires
                    n - 1 < (q + 1) * (q + 1),
                    (q + 1) * (q + 1) <= n,
                    q >= 0,
            ;
            assert(is_floor_sqrt(n, q + 1));
        }
    }
}

/// Heading of travel from `from` to `to`, turned around when `reverse` holds:
/// `atan2(dy, dx)`, less a half turn when reversed.
pub fn heading_from_to(from: Pose, to: Pose, reverse: bool) -> (r: Heading)
    requires
        valid_pose(from@),
        valid_pose(to@),
    ensures
        (r.cos as int, r.sin as int) == heading_between(from@, to@, reverse),
        valid_heading(r.cos as int, r.sin as int),
{
    let dx: i128 = to.x as i128 - from.x as i128;
    let dy: i128 = to.y as i128 - from.y as i128;
    proof {
        lemma_direction_bound(dx as int, dy as int);
    }
    let d = if dx == 0 && dy == 0 {
        Heading { cos: HEADING_UNIT, sin: 0 }
    } else {
        assert(0 <= dx * dx <= 4 * COORD_LIMIT * COORD_LIMIT) by (nonlinear_arith)
            requires
                -2 * COORD_LIMIT <= dx <= 2 * COORD_LIMIT,
        ;
        assert(0 <= dy * dy <= 4 * COORD_LIMIT * COORD_LIMIT) by (nonlinear_arith)
            requires
                -2 * COORD_LIMIT <= dy <= 2 * COORD_LIMIT,
        ;
        let sq: u128 = (dx * dx) as u128 + (dy * dy) as u128;
        let len = isqrt(sq);
        proof {
            assert(sq as int == dx * dx + dy * dy);
            lemma_component_le_len(dx as int, dy as int, len as int);
            lemma_component_le_len(dy as int, dx as int, len as int);
            if len >= 0x1_0000_0000_0000_0000 {
                assert(len * len >= 0x1_0000_0000_0000_0000 * 0x1_0000_0000_0000_0000) by (nonlinear_arith)
                    requires
                        len >= 0x1_0000_0000_0000_0000,
                ;
            }
            lemma_scaled_bound(dx as int, len as int);
            lemma_scaled_bound(dy as int, len as int);
        }
        let l = len as i128;
        assert(-(2 * COORD_LIMIT) * HEADING_UNIT <= dx * HEADING_UNIT <= 2 * COORD_LIMIT * HEADING_UNIT) by (nonlinear_arith)
            requires
                -2 * COORD_LIMIT <= dx <= 2 * COORD_LIMIT,
        ;
        assert(-(2 * COORD_LIMIT) * HEADING_UNIT <= dy * HEADING_UNIT <= 2 * COORD_LIMIT * HEADING_UNIT) by (nonlinear_arith)
            requires
                -2 * COORD_LIMIT <= dy <= 2 * COORD_LIMIT,
        ;
        let c = trunc_div_i128(dx * (HEADING_UNIT as i128), l);
        let s = trunc_div_i128(dy * (HEADING_UNIT as i128), l);
        Heading { cos: c as i64, sin: s as i64 }
    };
    if reverse {
        Heading { cos: -d.cos, sin: -d.sin }
    } else {
        d
    }
}

} // verus!
