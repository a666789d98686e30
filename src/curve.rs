use vstd::prelude::*;

use crate::geometry::{trunc_div, trunc_div_i128, valid_coord, Pose};

verus! {

/// Why a curve could not be sampled.
#[derive(Clone, Copy, Debug, PartialEq, Eq, Structural)]
pub enum CurveError {
    /// No control points: the curve is undefined.
    Empty,
}

/// The point a fraction `k / m` of the way from `a` to `b`, the offset
/// rounded toward zero.
pub open spec fn lerp(a: int, b: int, k: int, m: int) -> int {
    a + trunc_div((b - a) * k, m)
}

/// One round of de Casteljau's construction: each pair of neighbouring
/// coordinates replaced by the point `k / m` of the way between them.
pub open spec fn casteljau_step(xs: Seq<int>, k: int, m: int) -> Seq<int> {
    Seq::new((xs.len() - 1) as nat, |i: int| lerp(xs[i], xs[i + 1], k, m))
}

/// Coordinate of the Bezier curve through the control coordinates `xs` at the
/// parameter `k / m`, by de Casteljau's construction, each interpolation
/// rounded toward zero.
pub open spec fn bezier_at(xs: Seq<int>, k: int, m: int) -> int
    decreases xs.len(),
{
    if xs.len() <= 1 {
        xs[0]
    } else {
        bezier_at(casteljau_step(xs, k, m), k, m)
    }
}

/// Number of parameter steps between the first and the last sample.
pub open spec fn steps(n_times: int) -> int {
    if n_times <= 1 {
        1
    } else {
        n_times - 1
    }
}

pub open spec fn xs_of(points: Seq<Pose>) -> Seq<int> {
    points.map_values(|p: Pose| p.x as int)
}

pub open spec fn ys_of(points: Seq<Pose>) -> Seq<int> {
    points.map_values(|p: Pose| p.y as int)
}

/// Every control point lies in the coordinate range.
pub open spec fn coords_valid(points: Seq<Pose>) -> bool {
    &&& forall|k: int| 0 <= k < points.len() ==> valid_coord(#[trigger] points[k].x as int)
    &&& forall|k: int| 0 <= k < points.len() ==> valid_coord(#[trigger] points[k].y as int)
}

pub open spec fn ints(v: Seq<i64>) -> Seq<int> {
    v.map_values(|x: i64| x as int)
}

/// An interpolated point lies between its two ends.
proof fn lemma_lerp_between(a: int, b: int, k: int, m: int)
    requires
        0 <= k <= m,
        m >= 1,
    ensures
        a <= b ==> a <= lerp(a, b, k, m) <= b,
        b <= a ==> b <= lerp(a, b, k, m) <= a,
{
    let d = b - a;
    if d >= 0 {
        assert(0 <= d * k <= d * m) by (nonlinear_arith)
            requires
                d >= 0,
                0 <= k <= m,
        ;
        assert(0 <= (d * k) / m <= d) by (nonlinear_arith)
            requires
                0 <= d * k <= d * m,
                m >= 1,
        ;
    } else {
        assert(0 <= (-d) * k <= (-d) * m) by (nonlinear_arith)
            requires
                d < 0,
                0 <= k <= m,
        ;
        assert(-(d * k) == (-d) * k) by (nonlinear_arith);
        assert(0 <= ((-d) * k) / m <= -d) by (nonlinear_arith)
            requires
                0 <= (-d) * k <= (-d) * m,
                m >= 1,
        ;
    }
}

/// The curve coordinate at the parameter `k / m`.
fn sample_coord(xs: &Vec<i64>, k: u64, m: u64) -> (r: i64)
    requires
        xs.len() >= 1,
        k <= m,
        m >= 1,
        forall|q: int| 0 <= q < xs.len() ==> valid_coord(#[trigger] xs@[q] as int),
    ensures
        r == bezier_at(ints(xs@), k as int, m as int),
{
    let mut w: Vec<i64> = Vec::new();
    let mut j: usize = 0;
    while j < xs.len()
        invariant
            j <= xs.len(),
            w@ =~= xs@.take(j as int),
        decreases xs.len() - j,
    {
        w.push(xs[j]);
        j += 1;
    }
    assert(w@ =~= xs@);
    assert(ints(w@).take(xs.len() as int) =~= ints(xs@));
    let mut level: usize = xs.len() - 1;
    while level > 0
        invariant
            w.len() == xs.len(),
            level < xs.len(),
            k <= m,
            m >= 1,
            bezier_at(ints(w@).take(level + 1), k as int, m as int) == bezier_at(
                ints(xs@),
                k as int,
                m as int,
            ),
            forall|q: int| 0 <= q <= level ==> valid_coord(#[trigger] w@[q] as int),
        decreases level,
    {
        let ghost prev = ints(w@).take(level + 1);
        let mut i: usize = 0;
        while i < level
            invariant
                w.len() == xs.len(),
                i <= level,
                level < xs.len(),
                k <= m,
                m >= 1,
                prev.len() == level + 1,
                forall|q: int| 0 <= q < i ==> #[trigger] w@[q] as int == lerp(prev[q], prev[q + 1], k as int, m as int),
                forall|q: int| i <= q <= level ==> #[trigger] w@[q] as int == prev[q],
                forall|q: int| 0 <= q <= level ==> valid_coord(#[trigger] w@[q] as int),
            decreases level - i,
        {
            let a = w[i] as i128;
            let b = w[i + 1] as i128;
            proof {
                assert(valid_coord(w@[i as int] as int));
                assert(valid_coord(w@[i + 1] as int));
                assert(-0x8_0000_0000_0000_0000_0000_0000_0000 <= (b - a) * (k as int) <= 0x8_0000_0000_0000_0000_0000_0000_0000) by (nonlinear_arith)
                    requires
                        -2_000_000_000_000_000 <= b - a <= 2_000_000_000_000_000,
                        0 <= k < 0x1_0000_0000_0000_0000,
                ;
                lemma_lerp_between(a as int, b as int, k as int, m as int);
            }
            let v = a + trunc_div_i128((b - a) * (k as i128), m as i128);
            w.set(i, v as i64);
            i += 1;
        }
        proof {
            assert(ints(w@).take(level as int) =~= casteljau_step(prev, k as int, m as int));
            assert(casteljau_step(prev, k as int, m as int).len() == level);
        }
        level -= 1;
    }
    proof {
        assert(ints(w@).take(1).len() == 1);
    }
    w[0]
}

/// Samples the Bezier curve whose control points are `points` (order one less
/// than their number) at `n_times` evenly spaced parameters from 0 to 1
/// inclusive; sample `k` lies at the parameter `k / steps(n_times)`, computed
/// by de Casteljau's construction with each interpolation rounded toward
/// zero. Headings are not sampled. It fails only on an empty list.
pub fn bezier_curve(points: &Vec<Pose>, n_times: usize) -> (r: Result<(Vec<i64>, Vec<i64>), CurveError>)
    requires
        coords_valid(points@),
    ensures
        r is Err <==> points.len() == 0,
        r matches Ok((xs, ys)) ==> {
            &&& xs.len() == n_times
            &&& ys.len() == n_times
            &&& forall|k: int|
                0 <= k < n_times ==> #[trigger] xs@[k] == bezier_at(xs_of(points@), k, steps(n_times as int))
            &&& forall|k: int|
                0 <= k < n_times ==> #[trigger] ys@[k] == bezier_at(ys_of(points@), k, steps(n_times as int))
        },
{
    if points.len() == 0 {
        return Err(CurveError::Empty);
    }
    let mut px: Vec<i64> = Vec::new();
    let mut py: Vec<i64> = Vec::new();
    let mut j: usize = 0;
    while j < points.len()
        invariant
            j <= points.len(),
            coords_valid(points@),
            px@.len() == j,
            py@.len() == j,
            forall|q: int| 0 <= q < j ==> #[trigger] px@[q] == points@[q].x,
            forall|q: int| 0 <= q < j ==> #[trigger] py@[q] == points@[q].y,
        decreases points.len() - j,
    {
        px.push(points[j].x);
        py.push(points[j].y);
        j += 1;
    }
    assert(ints(px@) =~= xs_of(points@));
    assert(ints(py@) =~= ys_of(points@));
    assert forall|q: int| 0 <= q < px@.len() implies valid_coord(#[trigger] px@[q] as int) by {
        assert(px@[q] == points@[q].x);
    }
    assert forall|q: int| 0 <= q < py@.len() implies valid_coord(#[trigger] py@[q] as int) by {
        assert(py@[q] == points@[q].y);
    }
    let m: u64 = if n_times <= 1 {
        1
    } else {
        (n_times - 1) as u64
    };
    let mut xs: Vec<i64> = Vec::new();
    let mut ys: Vec<i64> = Vec::new();
    let mut k: usize = 0;
    while k < n_times
        invariant
            points.len() >= 1,
            px@.len() == points.len(),
            py@.len() == points.len(),
            forall|q: int| 0 <= q < px@.len() ==> valid_coord(#[trigger] px@[q] as int),
            forall|q: int| 0 <= q < py@.len() ==> valid_coord(#[trigger] py@[q] as int),
            ints(px@) == xs_of(points@),
            ints(py@) == ys_of(points@),
            m == steps(n_times as int),
            k <= n_times,
            xs.len() == k,
            ys.len() == k,
            forall|q: int| 0 <= q < k ==> #[trigger] xs@[q] == bezier_at(xs_of(points@), q, m as int),
            forall|q: int| 0 <= q < k ==> #[trigger] ys@[q] == bezier_at(ys_of(points@), q, m as int),
        decreases n_times - k,
    {
        let kk = if n_times <= 1 {
            0
        } else {
            k as u64
        };
        assert(kk == k);
        let x = sample_coord(&px, kk, m);
        let y = sample_coord(&py, kk, m);
        xs.push(x);
        ys.push(y);
        k += 1;
    }
    Ok((xs, ys))
}

} // verus!
