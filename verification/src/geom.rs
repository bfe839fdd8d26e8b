//! Exact integer geometry: 3-vectors with bounded integer coordinates and
//! exact rational squared distances between points and line segments.
//!
//! Working with squared distances keeps every computation in integer
//! arithmetic: the distance between two objects is at most `r` exactly when
//! the squared distance, a rational number, is at most `r * r`.

use vstd::prelude::*;

verus! {

/// Largest coordinate magnitude the distance routines accept.  The bound
/// keeps every intermediate product comfortably inside `i128`.
pub const COORD_LIMIT: i64 = 8192;

/// Bound on a dot product of two difference vectors of in-range points:
/// `3 * (2 * COORD_LIMIT)^2`.
pub const DOT_CAP: i128 = 805306368;

/// Bound on the numerator and denominator of a point-segment squared
/// distance: `DOT_CAP^2`.
pub const PT_NUM_CAP: i128 = 648518346341351424;

/// Bound on the denominator of a segment-segment squared distance:
/// `DOT_CAP^2`.
pub const DELTA_CAP: i128 = 648518346341351424;

/// Bound on the numerator of a segment-segment squared distance:
/// `5 * DOT_CAP^3`.
pub const SEG_NUM_CAP: i128 = 2611279770367599017365340160;

/// Mathematical 3-vector over unbounded integers: the model of `Vec3`.
pub ghost struct V3 {
    pub x: int,
    pub y: int,
    pub z: int,
}

/// Mathematical non-negative rational: the model of `DistSq`.
pub ghost struct Rat {
    pub num: int,
    pub den: int,
}

/// Executable integer 3-vector.  Coordinates are fixed-point: the caller
/// picks one scale (units per world unit) and uses it consistently.
#[derive(Clone, Copy, Debug, PartialEq, Eq, Structural)]
pub struct Vec3 {
    pub x: i64,
    pub y: i64,
    pub z: i64,
}

impl View for Vec3 {
    type V = V3;

    open spec fn view(&self) -> V3 {
        V3 { x: self.x as int, y: self.y as int, z: self.z as int }
    }
}

impl Vec3 {
    pub fn new(x: i64, y: i64, z: i64) -> (v: Vec3)
        ensures
            v@ == (V3 { x: x as int, y: y as int, z: z as int }),
    {
        Vec3 { x, y, z }
    }
}

pub open spec fn v3_sub(a: V3, b: V3) -> V3 {
    V3 { x: a.x - b.x, y: a.y - b.y, z: a.z - b.z }
}

pub open spec fn v3_neg(a: V3) -> V3 {
    V3 { x: -a.x, y: -a.y, z: -a.z }
}

pub open spec fn v3_dot(a: V3, b: V3) -> int {
    a.x * b.x + a.y * b.y + a.z * b.z
}

pub open spec fn v3_norm_sq(a: V3) -> int {
    v3_dot(a, a)
}

/// All three coordinates within `bound` in magnitude.
pub open spec fn v3_bounded(a: V3, bound: int) -> bool {
    &&& -bound <= a.x <= bound
    &&& -bound <= a.y <= bound
    &&& -bound <= a.z <= bound
}

pub open spec fn in_coord_bounds(a: V3) -> bool {
    v3_bounded(a, COORD_LIMIT as int)
}

/// Validity of a rational squared distance: positive denominator,
/// non-negative numerator.
pub open spec fn rat_wf(r: Rat) -> bool {
    r.den >= 1 && r.num >= 0
}

/// `r1 < r2` as rationals, assuming positive denominators.
pub open spec fn rat_lt(r1: Rat, r2: Rat) -> bool {
    r1.num * r2.den < r2.num * r1.den
}

/// `r1 <= r2` as rationals, assuming positive denominators.
pub open spec fn rat_le(r1: Rat, r2: Rat) -> bool {
    r1.num * r2.den <= r2.num * r1.den
}

/// Equality as rationals (the representations may differ).
pub open spec fn rat_eq(r1: Rat, r2: Rat) -> bool {
    r1.num * r2.den == r2.num * r1.den
}

/// The smaller of two rationals; ties keep the first.
pub open spec fn rat_min(r1: Rat, r2: Rat) -> Rat {
    if rat_lt(r2, r1) {
        r2
    } else {
        r1
    }
}

/// `r <= t * t` as rationals: the squared distance `r` is within distance
/// `t`.
pub open spec fn rat_le_sq(r: Rat, t: int) -> bool {
    r.num <= t * t * r.den
}

/// Executable exact rational squared distance.
#[derive(Clone, Copy, Debug)]
pub struct DistSq {
    pub num: i128,
    pub den: i128,
}

impl View for DistSq {
    type V = Rat;

    open spec fn view(&self) -> Rat {
        Rat { num: self.num as int, den: self.den as int }
    }
}

impl DistSq {
    pub open spec fn wf(&self) -> bool {
        rat_wf(self@)
    }
}

/// Squared distance from point `p` to the segment `[a, b]`, as an exact
/// rational.  If the projection of `p` onto the line through `a` and `b`
/// falls outside the segment, the distance is to the nearer endpoint;
/// otherwise it is the perpendicular distance to the line.
pub open spec fn pt_seg_dist_sq(p: V3, a: V3, b: V3) -> Rat {
    let d = v3_sub(b, a);
    let e = v3_sub(p, a);
    let dd = v3_dot(d, d);
    let ed = v3_dot(e, d);
    if dd == 0 || ed <= 0 {
        Rat { num: v3_norm_sq(e), den: 1 }
    } else if ed >= dd {
        Rat { num: v3_norm_sq(v3_sub(p, b)), den: 1 }
    } else {
        Rat { num: v3_norm_sq(e) * dd - ed * ed, den: dd }
    }
}

/// `|a * b| <= ab * bb` for `|a| <= ab`, `|b| <= bb`.
pub proof fn lemma_mul_bound(a: int, b: int, ab: int, bb: int)
    by (nonlinear_arith)
    requires
        -ab <= a <= ab,
        -bb <= b <= bb,
        0 <= ab,
        0 <= bb,
    ensures
        -(ab * bb) <= a * b <= ab * bb,
{
}

/// The weighted combination `c0*w + c1*u + c2*v`, componentwise.
pub open spec fn v3_comb3(w: V3, u: V3, v: V3, c0: int, c1: int, c2: int) -> V3 {
    V3 {
        x: c0 * w.x + c1 * u.x + c2 * v.x,
        y: c0 * w.y + c1 * u.y + c2 * v.y,
        z: c0 * w.z + c1 * u.z + c2 * v.z,
    }
}

proof fn lemma_sq3_scalar(p: int, q: int, r: int)
    by (nonlinear_arith)
    ensures
        (p + q + r) * (p + q + r) == p * p + q * q + r * r + 2 * (p * q) + 2 * (p * r) + 2 * (q
            * r),
{
}

proof fn lemma_comb3_component(wx: int, ux: int, vx: int, c0: int, c1: int, c2: int)
    ensures
        (c0 * wx + c1 * ux + c2 * vx) * (c0 * wx + c1 * ux + c2 * vx) == c0 * c0 * (wx * wx) + c1
            * c1 * (ux * ux) + c2 * c2 * (vx * vx) + 2 * c0 * c1 * (wx * ux) + 2 * c0 * c2 * (wx
            * vx) + 2 * c1 * c2 * (ux * vx),
{
    let p = c0 * wx;
    let q = c1 * ux;
    let r = c2 * vx;
    lemma_sq3_scalar(p, q, r);
    assert(p * p == c0 * c0 * (wx * wx)) by (nonlinear_arith)
        requires
            p == c0 * wx,
    ;
    assert(q * q == c1 * c1 * (ux * ux)) by (nonlinear_arith)
        requires
            q == c1 * ux,
    ;
    assert(r * r == c2 * c2 * (vx * vx)) by (nonlinear_arith)
        requires
            r == c2 * vx,
    ;
    assert(p * q == c0 * c1 * (wx * ux) && 2 * (p * q) == 2 * c0 * c1 * (wx * ux))
        by (nonlinear_arith)
        requires
            p == c0 * wx && q == c1 * ux,
    ;
    assert(p * r == c0 * c2 * (wx * vx) && 2 * (p * r) == 2 * c0 * c2 * (wx * vx))
        by (nonlinear_arith)
        requires
            p == c0 * wx && r == c2 * vx,
    ;
    assert(q * r == c1 * c2 * (ux * vx) && 2 * (q * r) == 2 * c1 * c2 * (ux * vx))
        by (nonlinear_arith)
        requires
            q == c1 * ux && r == c2 * vx,
    ;
}

proof fn lemma_distribute3(c: int, x: int, y: int, z: int)
    by (nonlinear_arith)
    ensures
        c * (x + y + z) == c * x + c * y + c * z,
{
}

/// Expanding the squared norm of a weighted combination of three vectors
/// into dot products (bilinearity of the dot product).
pub proof fn lemma_comb3_norm_sq(w: V3, u: V3, v: V3, c0: int, c1: int, c2: int)
    ensures
        v3_norm_sq(v3_comb3(w, u, v, c0, c1, c2)) == c0 * c0 * v3_norm_sq(w) + c1 * c1 * v3_norm_sq(
            u,
        ) + c2 * c2 * v3_norm_sq(v) + 2 * c0 * c1 * v3_dot(w, u) + 2 * c0 * c2 * v3_dot(w, v) + 2
            * c1 * c2 * v3_dot(u, v),
{
    lemma_comb3_component(w.x, u.x, v.x, c0, c1, c2);
    lemma_comb3_component(w.y, u.y, v.y, c0, c1, c2);
    lemma_comb3_component(w.z, u.z, v.z, c0, c1, c2);
    lemma_distribute3(c0 * c0, w.x * w.x, w.y * w.y, w.z * w.z);
    lemma_distribute3(c1 * c1, u.x * u.x, u.y * u.y, u.z * u.z);
    lemma_distribute3(c2 * c2, v.x * v.x, v.y * v.y, v.z * v.z);
    lemma_distribute3(2 * c0 * c1, w.x * u.x, w.y * u.y, w.z * u.z);
    lemma_distribute3(2 * c0 * c2, w.x * v.x, w.y * v.y, w.z * v.z);
    lemma_distribute3(2 * c1 * c2, u.x * v.x, u.y * v.y, u.z * v.z);
}

/// The dot product is symmetric.
pub proof fn lemma_dot_symmetric(a: V3, b: V3)
    ensures
        v3_dot(a, b) == v3_dot(b, a),
{
    assert(a.x * b.x == b.x * a.x) by (nonlinear_arith);
    assert(a.y * b.y == b.y * a.y) by (nonlinear_arith);
    assert(a.z * b.z == b.z * a.z) by (nonlinear_arith);
}

/// A squared norm of zero forces the zero vector.
pub proof fn lemma_norm_sq_zero(a: V3)
    requires
        v3_norm_sq(a) == 0,
    ensures
        a.x == 0 && a.y == 0 && a.z == 0,
{
    assert(a.x * a.x >= 0 && a.y * a.y >= 0 && a.z * a.z >= 0) by (nonlinear_arith);
    assert(a.x * a.x == 0 ==> a.x == 0) by (nonlinear_arith);
    assert(a.y * a.y == 0 ==> a.y == 0) by (nonlinear_arith);
    assert(a.z * a.z == 0 ==> a.z == 0) by (nonlinear_arith);
}

/// The Cauchy-Schwarz inequality: `(a . b)^2 <= |a|^2 |b|^2`.
pub proof fn lemma_cauchy_schwarz(a: V3, b: V3)
    ensures
        v3_dot(a, b) * v3_dot(a, b) <= v3_dot(a, a) * v3_dot(b, b),
{
    let aa = v3_dot(a, a);
    let ab = v3_dot(a, b);
    let bb = v3_dot(b, b);
    lemma_norm_sq_nonneg(a);
    lemma_norm_sq_nonneg(b);
    if aa == 0 {
        lemma_norm_sq_zero(a);
        assert(ab == 0);
        assert(ab * ab <= aa * bb);
    } else {
        // |aa * b - ab * a|^2 == aa * (aa * bb - ab^2), and norms are
        // non-negative.
        let q = v3_comb3(b, a, a, aa, -ab, 0);
        lemma_comb3_norm_sq(b, a, a, aa, -ab, 0);
        lemma_norm_sq_nonneg(q);
        lemma_dot_symmetric(b, a);
        assert(aa * bb - ab * ab >= 0) by (nonlinear_arith)
            requires
                aa * aa * bb + (-ab) * (-ab) * aa + 0 * 0 * aa + 2 * aa * (-ab) * ab + 2 * aa * 0
                    * ab + 2 * (-ab) * 0 * aa >= 0,
                aa > 0,
        ;
    }
}

/// A sum of three squares is non-negative.
pub proof fn lemma_norm_sq_nonneg(a: V3)
    by (nonlinear_arith)
    ensures
        v3_norm_sq(a) >= 0,
{
}

/// The point-segment squared distance is a well-formed rational, and both
/// parts are bounded for in-range inputs.
pub proof fn lemma_pt_seg_wf(p: V3, a: V3, b: V3)
    requires
        in_coord_bounds(p),
        in_coord_bounds(a),
        in_coord_bounds(b),
    ensures
        rat_wf(pt_seg_dist_sq(p, a, b)),
        pt_seg_dist_sq(p, a, b).num <= PT_NUM_CAP as int,
        pt_seg_dist_sq(p, a, b).den <= DOT_CAP as int,
{
    let d = v3_sub(b, a);
    let e = v3_sub(p, a);
    let dd = v3_dot(d, d);
    let ed = v3_dot(e, d);
    let ee = v3_norm_sq(e);
    lemma_norm_sq_nonneg(d);
    lemma_norm_sq_nonneg(e);
    lemma_norm_sq_nonneg(v3_sub(p, b));
    lemma_dot_cap(e, e);
    lemma_dot_cap(d, d);
    lemma_dot_cap(v3_sub(p, b), v3_sub(p, b));
    if !(dd == 0 || ed <= 0) && !(ed >= dd) {
        lemma_cauchy_schwarz(e, d);
        lemma_mul_bound(ee, dd, DOT_CAP as int, DOT_CAP as int);
        assert(ed * ed >= 0) by (nonlinear_arith);
    }
}

/// Dot products of difference vectors of in-range points stay within
/// `DOT_CAP`.
pub proof fn lemma_dot_cap(a: V3, b: V3)
    requires
        v3_bounded(a, 2 * COORD_LIMIT as int),
        v3_bounded(b, 2 * COORD_LIMIT as int),
    ensures
        -DOT_CAP as int <= v3_dot(a, b) <= DOT_CAP as int,
{
    lemma_mul_bound(a.x, b.x, 16384, 16384);
    lemma_mul_bound(a.y, b.y, 16384, 16384);
    lemma_mul_bound(a.z, b.z, 16384, 16384);
}

/// Squared distance between the segments `[a0, a1]` and `[b0, b1]`, as an
/// exact rational: the least of
///  - the squared distances from each endpoint to the other segment, and
///  - when the segments are not parallel and the closest points of the two
///    infinite lines fall inside both segments, the squared distance of
///    that closest pair.
///
/// The minimum of a convex quadratic over the parameter square is attained
/// either at the interior critical point or on the boundary, and the
/// boundary restrictions are exactly the four point-segment problems, so
/// this minimum is the true squared distance between the segments.
pub open spec fn seg_seg_dist_sq(a0: V3, a1: V3, b0: V3, b1: V3) -> Rat {
    let u = v3_sub(a1, a0);
    let v = v3_sub(b1, b0);
    let w = v3_sub(a0, b0);
    let aa = v3_dot(u, u);
    let bb = v3_dot(u, v);
    let cc = v3_dot(v, v);
    let dd = v3_dot(u, w);
    let ee = v3_dot(v, w);
    let delta = aa * cc - bb * bb;
    let sn = bb * ee - cc * dd;
    let tn = aa * ee - bb * dd;
    let edges = rat_min(
        rat_min(
            rat_min(pt_seg_dist_sq(a0, b0, b1), pt_seg_dist_sq(a1, b0, b1)),
            pt_seg_dist_sq(b0, a0, a1),
        ),
        pt_seg_dist_sq(b1, a0, a1),
    );
    if delta > 0 && 0 <= sn <= delta && 0 <= tn <= delta {
        rat_min(edges, Rat { num: v3_dot(w, w) * delta + dd * sn - ee * tn, den: delta })
    } else {
        edges
    }
}

proof fn lemma_elim_quadratic(aa: int, bb: int, cc: int, sn: int, tn: int)
    ensures
        aa * (sn * sn * aa + tn * tn * cc - 2 * sn * tn * bb) == (aa * sn - bb * tn) * (aa * sn
            - bb * tn) + (aa * cc - bb * bb) * (tn * tn),
{
    broadcast use vstd::arithmetic::mul::group_mul_properties;

    assert((aa * sn - bb * tn) * (aa * sn - bb * tn) == (aa * sn) * (aa * sn) - 2 * ((aa * sn) * (bb
        * tn)) + (bb * tn) * (bb * tn)) by (nonlinear_arith);
    assert((aa * sn) * (aa * sn) == aa * (sn * sn * aa)) by (nonlinear_arith);
    assert((aa * sn) * (bb * tn) == aa * (sn * tn * bb)) by (nonlinear_arith);
    assert((bb * tn) * (bb * tn) == (bb * bb) * (tn * tn)) by (nonlinear_arith);
    assert((aa * cc - bb * bb) * (tn * tn) == (aa * cc) * (tn * tn) - (bb * bb) * (tn * tn))
        by (nonlinear_arith);
    assert((aa * cc) * (tn * tn) == aa * (tn * tn * cc)) by (nonlinear_arith);
    assert(aa * (sn * sn * aa + tn * tn * cc - 2 * sn * tn * bb) == aa * (sn * sn * aa) + aa * (tn
        * tn * cc) - 2 * (aa * (sn * tn * bb))) by (nonlinear_arith);
}

proof fn lemma_critical_distribute(delta: int, ww: int, dd: int, sn: int, ee: int, tn: int)
    ensures
        delta * (ww * delta + dd * sn - ee * tn) == delta * delta * ww + delta * sn * dd - delta
            * tn * ee,
{
    assert(delta * (ww * delta + dd * sn - ee * tn) == delta * (ww * delta) + delta * (dd * sn)
        - delta * (ee * tn)) by (nonlinear_arith);
    assert(delta * (ww * delta) == delta * delta * ww) by (nonlinear_arith);
    assert(delta * (dd * sn) == delta * sn * dd) by (nonlinear_arith);
    assert(delta * (ee * tn) == delta * tn * ee) by (nonlinear_arith);
}

/// The value of the critical-point candidate, times `delta`, is the squared
/// norm of an integer vector; in particular it is non-negative.
pub proof fn lemma_critical_nonneg(u: V3, v: V3, w: V3)
    requires
        v3_dot(u, u) * v3_dot(v, v) - v3_dot(u, v) * v3_dot(u, v) > 0,
    ensures
        v3_dot(w, w) * (v3_dot(u, u) * v3_dot(v, v) - v3_dot(u, v) * v3_dot(u, v)) + v3_dot(u, w)
            * (v3_dot(u, v) * v3_dot(v, w) - v3_dot(v, v) * v3_dot(u, w)) - v3_dot(v, w) * (v3_dot(
            u,
            u,
        ) * v3_dot(v, w) - v3_dot(u, v) * v3_dot(u, w)) >= 0,
{
    let aa = v3_dot(u, u);
    let bb = v3_dot(u, v);
    let cc = v3_dot(v, v);
    let dd = v3_dot(u, w);
    let ee = v3_dot(v, w);
    let ww = v3_dot(w, w);
    let delta = aa * cc - bb * bb;
    let sn = bb * ee - cc * dd;
    let tn = aa * ee - bb * dd;
    let fnum = ww * delta + dd * sn - ee * tn;
    lemma_norm_sq_nonneg(u);
    lemma_norm_sq_nonneg(v);
    assert(aa > 0) by (nonlinear_arith)
        requires
            aa * cc - bb * bb > 0 && aa >= 0 && cc >= 0,
    ;
    let p = v3_comb3(w, u, v, delta, sn, -tn);
    lemma_comb3_norm_sq(w, u, v, delta, sn, -tn);
    lemma_norm_sq_nonneg(p);
    lemma_dot_symmetric(w, u);
    lemma_dot_symmetric(w, v);
    // |p|^2 in terms of the Gram values.
    assert(v3_norm_sq(p) == delta * delta * ww + sn * sn * aa + tn * tn * cc + 2 * delta * sn * dd
        - 2 * delta * tn * ee - 2 * sn * tn * bb) by (nonlinear_arith)
        requires
            v3_norm_sq(p) == delta * delta * ww + sn * sn * aa + (-tn) * (-tn) * cc + 2 * delta
                * sn * dd + 2 * delta * (-tn) * ee + 2 * sn * (-tn) * bb,
    ;
    // aa * |p|^2 == aa * delta * fnum, shown by eliminating sn and tn.
    assert(aa * sn - bb * tn == -(dd * delta)) by (nonlinear_arith)
        requires
            sn == bb * ee - cc * dd && tn == aa * ee - bb * dd && delta == aa * cc - bb * bb,
    ;
    lemma_elim_quadratic(aa, bb, cc, sn, tn);
    assert(aa * (sn * sn * aa + tn * tn * cc - 2 * sn * tn * bb) == (aa * sn - bb * tn) * (aa * sn
        - bb * tn) + delta * (tn * tn));
    assert((aa * sn - bb * tn) * (aa * sn - bb * tn) == (dd * delta) * (dd * delta))
        by (nonlinear_arith)
        requires
            aa * sn - bb * tn == -(dd * delta),
    ;
    assert(aa * (delta * sn * dd) == delta * dd * (bb * tn) - (dd * delta) * (dd * delta))
        by (nonlinear_arith)
        requires
            aa * sn == bb * tn - dd * delta,
    ;
    assert(aa * (delta * tn * ee) == delta * tn * (aa * ee)) by (nonlinear_arith);
    assert(delta * tn * (tn + bb * dd) == delta * (tn * tn) + delta * dd * (bb * tn))
        by (nonlinear_arith);
    assert(aa * (delta * tn * ee) == delta * (tn * tn) + delta * dd * (bb * tn));
    assert(aa * (sn * sn * aa + tn * tn * cc - 2 * sn * tn * bb + delta * sn * dd - delta * tn * ee)
        == 0) by (nonlinear_arith)
        requires
            aa * (sn * sn * aa + tn * tn * cc - 2 * sn * tn * bb) == (dd * delta) * (dd * delta)
                + delta * (tn * tn),
            aa * (delta * sn * dd) == delta * dd * (bb * tn) - (dd * delta) * (dd * delta),
            aa * (delta * tn * ee) == delta * (tn * tn) + delta * dd * (bb * tn),
    ;
    assert(sn * sn * aa + tn * tn * cc - 2 * sn * tn * bb + delta * sn * dd - delta * tn * ee == 0)
        by (nonlinear_arith)
        requires
            aa > 0,
            aa * (sn * sn * aa + tn * tn * cc - 2 * sn * tn * bb + delta * sn * dd - delta * tn
                * ee) == 0,
    ;
    lemma_critical_distribute(delta, ww, dd, sn, ee, tn);
    assert(2 * delta * sn * dd == 2 * (delta * sn * dd)) by (nonlinear_arith);
    assert(2 * delta * tn * ee == 2 * (delta * tn * ee)) by (nonlinear_arith);
    assert(v3_norm_sq(p) == delta * fnum);
    assert(fnum >= 0) by (nonlinear_arith)
        requires
            delta * fnum >= 0 && delta > 0,
    ;
}

/// The segment-segment squared distance is a well-formed rational with both
/// parts bounded for in-range inputs.
pub proof fn lemma_seg_seg_wf(a0: V3, a1: V3, b0: V3, b1: V3)
    requires
        in_coord_bounds(a0),
        in_coord_bounds(a1),
        in_coord_bounds(b0),
        in_coord_bounds(b1),
    ensures
        rat_wf(seg_seg_dist_sq(a0, a1, b0, b1)),
        seg_seg_dist_sq(a0, a1, b0, b1).num <= SEG_NUM_CAP as int,
        seg_seg_dist_sq(a0, a1, b0, b1).den <= DELTA_CAP as int,
{
    lemma_pt_seg_wf(a0, b0, b1);
    lemma_pt_seg_wf(a1, b0, b1);
    lemma_pt_seg_wf(b0, a0, a1);
    lemma_pt_seg_wf(b1, a0, a1);
    let u = v3_sub(a1, a0);
    let v = v3_sub(b1, b0);
    let w = v3_sub(a0, b0);
    let aa = v3_dot(u, u);
    let bb = v3_dot(u, v);
    let cc = v3_dot(v, v);
    let dd = v3_dot(u, w);
    let ee = v3_dot(v, w);
    let ww = v3_dot(w, w);
    let delta = aa * cc - bb * bb;
    let sn = bb * ee - cc * dd;
    let tn = aa * ee - bb * dd;
    if delta > 0 && 0 <= sn <= delta && 0 <= tn <= delta {
        lemma_critical_nonneg(u, v, w);
        lemma_dot_cap(u, u);
        lemma_dot_cap(u, v);
        lemma_dot_cap(v, v);
        lemma_dot_cap(u, w);
        lemma_dot_cap(v, w);
        lemma_dot_cap(w, w);
        lemma_mul_bound(aa, cc, DOT_CAP as int, DOT_CAP as int);
        assert(bb * bb >= 0) by (nonlinear_arith);
        assert(DOT_CAP as int * DOT_CAP as int == PT_NUM_CAP as int) by (nonlinear_arith);
        lemma_mul_bound(ww, delta, DOT_CAP as int, PT_NUM_CAP as int);
        lemma_mul_bound(dd, sn, DOT_CAP as int, PT_NUM_CAP as int);
        lemma_mul_bound(ee, tn, DOT_CAP as int, PT_NUM_CAP as int);
        assert(3 * (DOT_CAP as int * PT_NUM_CAP as int) <= SEG_NUM_CAP as int)
            by (nonlinear_arith);
    }
}

/// Squared distance from `p` to the point of `[a, b]` at parameter
/// `tn / td`, scaled by `td * td` to stay within the integers.
pub open spec fn pt_seg_at_sq(p: V3, a: V3, b: V3, tn: int, td: int) -> int {
    let d = v3_sub(b, a);
    let e = v3_sub(p, a);
    v3_norm_sq(v3_comb3(e, d, d, td, -tn, 0))
}

/// The point-segment squared distance is a lower bound on the squared
/// distance from the point to every point of the segment: for every
/// rational parameter `tn / td` in `[0, 1]`,
/// `pt_seg_dist_sq(p,a,b) <= pt_seg_at_sq(p,a,b,tn,td) / (td * td)`.
pub proof fn lemma_pt_seg_minimal(p: V3, a: V3, b: V3, tn: int, td: int)
    requires
        0 <= tn <= td,
        td >= 1,
    ensures
        pt_seg_dist_sq(p, a, b).num * (td * td) <= pt_seg_at_sq(p, a, b, tn, td) * pt_seg_dist_sq(
            p,
            a,
            b,
        ).den,
{
    let d = v3_sub(b, a);
    let e = v3_sub(p, a);
    let aa = v3_dot(d, d);
    let bb = v3_dot(e, d);
    let cc = v3_dot(e, e);
    let at = pt_seg_at_sq(p, a, b, tn, td);
    lemma_comb3_norm_sq(e, d, d, td, -tn, 0);
    lemma_dot_symmetric(e, d);
    assert(at == td * td * cc + tn * tn * aa - 2 * td * tn * bb) by (nonlinear_arith)
        requires
            at == td * td * cc + (-tn) * (-tn) * aa + 0 * 0 * aa + 2 * td * (-tn) * bb + 2 * td * 0
                * aa + 2 * (-tn) * 0 * aa,
    ;
    lemma_norm_sq_nonneg(d);
    lemma_norm_sq_nonneg(e);
    if aa == 0 {
        lemma_norm_sq_zero(d);
        assert(bb == 0);
        assert(at == td * td * cc + tn * tn * 0 - 2 * td * tn * 0);
        assert(tn * tn * 0 == 0) by (nonlinear_arith);
        assert(2 * td * tn * 0 == 0) by (nonlinear_arith);
        assert(cc * (td * td) <= at * 1) by (nonlinear_arith)
            requires
                at == td * td * cc,
        ;
    } else if bb <= 0 {
        assert(cc * (td * td) <= at * 1) by (nonlinear_arith)
            requires
                at == td * td * cc + tn * tn * aa - 2 * td * tn * bb,
                bb <= 0,
                aa >= 0,
                0 <= tn <= td,
    } else if bb >= aa {
        // The distance is to the endpoint `b`.
        lemma_comb3_norm_sq(e, d, d, 1, -1, 0);
        assert(v3_sub(p, b) == v3_comb3(e, d, d, 1, -1, 0));
        assert(v3_norm_sq(v3_sub(p, b)) == cc - 2 * bb + aa) by (nonlinear_arith)
            requires
                v3_norm_sq(v3_sub(p, b)) == 1 * 1 * cc + (-1) * (-1) * aa + 0 * 0 * aa + 2 * 1 * (
                -1) * bb + 2 * 1 * 0 * aa + 2 * (-1) * 0 * aa,
        ;
        assert((td - tn) * (2 * bb * td - aa * (td + tn)) == (td - tn) * (2 * bb * td) - (td - tn)
            * (aa * (td + tn))) by (nonlinear_arith);
        assert((td - tn) * (2 * bb * td) == 2 * (bb * (td * td)) - 2 * (bb * (td * tn)))
            by (nonlinear_arith);
        assert((td - tn) * (aa * (td + tn)) == aa * (td * td) - aa * (tn * tn))
            by (nonlinear_arith);
        assert(at - (cc - 2 * bb + aa) * (td * td) == aa * (tn * tn) - aa * (td * td) + 2 * (bb * (
        td * td)) - 2 * (bb * (td * tn))) by (nonlinear_arith)
            requires
                at == td * td * cc + tn * tn * aa - 2 * td * tn * bb,
        ;
        assert(at - (cc - 2 * bb + aa) * (td * td) == (td - tn) * (2 * bb * td - aa * (td + tn)));
        assert((td - tn) * (2 * bb * td - aa * (td + tn)) >= 0) by (nonlinear_arith)
            requires
                bb >= aa >= 0,
                0 <= tn <= td,
        ;
        assert((cc - 2 * bb + aa) * (td * td) <= at * 1);
    } else {
        // Interior case: completing the square around the true minimizer.
        assert((aa * tn - bb * td) * (aa * tn - bb * td) == (aa * tn) * (aa * tn) - 2 * ((aa * tn)
            * (bb * td)) + (bb * td) * (bb * td)) by (nonlinear_arith);
        assert((aa * tn) * (aa * tn) == aa * (tn * tn * aa)) by (nonlinear_arith);
        assert((aa * tn) * (bb * td) == aa * (td * tn * bb)) by (nonlinear_arith);
        assert((bb * td) * (bb * td) == (bb * bb) * (td * td)) by (nonlinear_arith);
        assert(at * aa == aa * (td * td * cc) + aa * (tn * tn * aa) - 2 * (aa * (td * tn * bb)))
            by (nonlinear_arith)
            requires
                at == td * td * cc + tn * tn * aa - 2 * td * tn * bb,
        ;
        assert((cc * aa - bb * bb) * (td * td) == aa * (td * td * cc) - (bb * bb) * (td * td))
            by (nonlinear_arith);
        assert((at * aa) - (cc * aa - bb * bb) * (td * td) == (aa * tn - bb * td) * (aa * tn - bb
            * td));
        assert((aa * tn - bb * td) * (aa * tn - bb * td) >= 0) by (nonlinear_arith);
        assert((cc * aa - bb * bb) * (td * td) <= at * aa) by (nonlinear_arith)
            requires
                (at * aa) - (cc * aa - bb * bb) * (td * td) >= 0,
        ;
    }
}

/// The point-segment squared distance is attained at some point of the
/// segment: together with `lemma_pt_seg_minimal` this pins it as exactly
/// the least squared distance from the point to the segment.
pub proof fn lemma_pt_seg_achieved(p: V3, a: V3, b: V3)
    ensures
        exists|tn: int, td: int|
            0 <= tn <= td && td >= 1 && #[trigger] pt_seg_at_sq(p, a, b, tn, td) * pt_seg_dist_sq(
                p,
                a,
                b,
            ).den == pt_seg_dist_sq(p, a, b).num * (td * td),
{
    let d = v3_sub(b, a);
    let e = v3_sub(p, a);
    let aa = v3_dot(d, d);
    let bb = v3_dot(e, d);
    let cc = v3_dot(e, e);
    lemma_norm_sq_nonneg(d);
    if aa == 0 || bb <= 0 {
        // Attained at the endpoint `a`.
        assert(v3_comb3(e, d, d, 1, 0, 0) == e);
        assert(pt_seg_at_sq(p, a, b, 0, 1) * 1 == cc * (1 * 1));
        assert(0 <= 0 <= 1 && 1 >= 1 && pt_seg_at_sq(p, a, b, 0, 1) * pt_seg_dist_sq(
            p,
            a,
            b,
        ).den == pt_seg_dist_sq(p, a, b).num * (1 * 1));
    } else if bb >= aa {
        // Attained at the endpoint `b`.
        assert(v3_comb3(e, d, d, 1, -1, 0) == v3_sub(p, b));
        assert(pt_seg_at_sq(p, a, b, 1, 1) * 1 == v3_norm_sq(v3_sub(p, b)) * (1 * 1));
        assert(0 <= 1 <= 1 && 1 >= 1 && pt_seg_at_sq(p, a, b, 1, 1) * pt_seg_dist_sq(
            p,
            a,
            b,
        ).den == pt_seg_dist_sq(p, a, b).num * (1 * 1));
    } else {
        // Attained at the interior parameter `bb / aa`.
        let at = pt_seg_at_sq(p, a, b, bb, aa);
        lemma_comb3_norm_sq(e, d, d, aa, -bb, 0);
        lemma_dot_symmetric(e, d);
        assert(at == aa * aa * cc + bb * bb * aa - 2 * (aa * bb * bb)) by (nonlinear_arith)
            requires
                at == aa * aa * cc + (-bb) * (-bb) * aa + 0 * 0 * aa + 2 * aa * (-bb) * bb + 2 * aa
                    * 0 * aa + 2 * (-bb) * 0 * aa,
        ;
        assert(at * aa == (aa * aa * cc) * aa + (bb * bb * aa) * aa - 2 * ((aa * bb * bb) * aa))
            by (nonlinear_arith)
            requires
                at == aa * aa * cc + bb * bb * aa - 2 * (aa * bb * bb),
        ;
        assert((cc * aa - bb * bb) * (aa * aa) == (aa * aa * cc) * aa - (aa * bb * bb) * aa)
            by (nonlinear_arith);
        assert((bb * bb * aa) * aa == (aa * bb * bb) * aa) by (nonlinear_arith);
        assert(at * aa == (cc * aa - bb * bb) * (aa * aa));
        assert(0 <= bb <= aa && aa >= 1 && pt_seg_at_sq(p, a, b, bb, aa) * pt_seg_dist_sq(
            p,
            a,
            b,
        ).den == pt_seg_dist_sq(p, a, b).num * (aa * aa));
    }
}

proof fn lemma_rat_le_trans_scalar(an: int, ad: int, bn: int, bd: int, cn: int, cd: int)
    by (nonlinear_arith)
    requires
        ad >= 1,
        bd >= 1,
        cd >= 1,
        an * bd <= bn * ad,
        bn * cd <= cn * bd,
    ensures
        an * cd <= cn * ad,
{
}

/// The minimum of two rationals is one of them and at most both.
proof fn lemma_rat_min_le(a: Rat, b: Rat)
    requires
        a.den >= 1,
        b.den >= 1,
    ensures
        rat_min(a, b) == a || rat_min(a, b) == b,
        rat_le(rat_min(a, b), a),
        rat_le(rat_min(a, b), b),
{
}

/// Two rationals below each other are equal as rationals.
proof fn lemma_rat_le_antisymmetric(a: Rat, b: Rat)
    requires
        rat_le(a, b),
        rat_le(b, a),
    ensures
        rat_eq(a, b),
{
}

/// The least of four rationals does not depend on pairing the four as
/// front pair then back pair or back pair then front pair.
proof fn lemma_min4_swap(c1: Rat, c2: Rat, c3: Rat, c4: Rat)
    requires
        c1.den >= 1,
        c2.den >= 1,
        c3.den >= 1,
        c4.den >= 1,
    ensures
        rat_eq(
            rat_min(rat_min(rat_min(c1, c2), c3), c4),
            rat_min(rat_min(rat_min(c3, c4), c1), c2),
        ),
        rat_min(rat_min(rat_min(c1, c2), c3), c4).den >= 1,
        rat_min(rat_min(rat_min(c3, c4), c1), c2).den >= 1,
{
    let m1 = rat_min(rat_min(rat_min(c1, c2), c3), c4);
    let m2 = rat_min(rat_min(rat_min(c3, c4), c1), c2);
    lemma_rat_min_le(c1, c2);
    lemma_rat_min_le(rat_min(c1, c2), c3);
    lemma_rat_min_le(rat_min(rat_min(c1, c2), c3), c4);
    lemma_rat_min_le(c3, c4);
    lemma_rat_min_le(rat_min(c3, c4), c1);
    lemma_rat_min_le(rat_min(rat_min(c3, c4), c1), c2);
    // m1 is below every candidate, hence below whichever m2 is.
    lemma_rat_le_trans_scalar(
        m1.num,
        m1.den,
        rat_min(rat_min(c1, c2), c3).num,
        rat_min(rat_min(c1, c2), c3).den,
        c3.num,
        c3.den,
    );
    lemma_rat_le_trans_scalar(
        m1.num,
        m1.den,
        rat_min(rat_min(c1, c2), c3).num,
        rat_min(rat_min(c1, c2), c3).den,
        rat_min(c1, c2).num,
        rat_min(c1, c2).den,
    );
    lemma_rat_le_trans_scalar(m1.num, m1.den, rat_min(c1, c2).num, rat_min(c1, c2).den, c1.num, c1.den);
    lemma_rat_le_trans_scalar(m1.num, m1.den, rat_min(c1, c2).num, rat_min(c1, c2).den, c2.num, c2.den);
    lemma_rat_le_trans_scalar(
        m2.num,
        m2.den,
        rat_min(rat_min(c3, c4), c1).num,
        rat_min(rat_min(c3, c4), c1).den,
        c1.num,
        c1.den,
    );
    lemma_rat_le_trans_scalar(
        m2.num,
        m2.den,
        rat_min(rat_min(c3, c4), c1).num,
        rat_min(rat_min(c3, c4), c1).den,
        rat_min(c3, c4).num,
        rat_min(c3, c4).den,
    );
    lemma_rat_le_trans_scalar(m2.num, m2.den, rat_min(c3, c4).num, rat_min(c3, c4).den, c3.num, c3.den);
    lemma_rat_le_trans_scalar(m2.num, m2.den, rat_min(c3, c4).num, rat_min(c3, c4).den, c4.num, c4.den);
    assert(rat_le(m1, m2));
    assert(rat_le(m2, m1));
    lemma_rat_le_antisymmetric(m1, m2);
}

proof fn lemma_dot_neg_right(a: V3, b: V3)
    ensures
        v3_dot(a, v3_neg(b)) == -v3_dot(a, b),
{
    assert(a.x * (-b.x) == -(a.x * b.x)) by (nonlinear_arith);
    assert(a.y * (-b.y) == -(a.y * b.y)) by (nonlinear_arith);
    assert(a.z * (-b.z) == -(a.z * b.z)) by (nonlinear_arith);
}

proof fn lemma_dot_neg_both(a: V3, b: V3)
    ensures
        v3_dot(v3_neg(a), v3_neg(b)) == v3_dot(a, b),
{
    assert((-a.x) * (-b.x) == a.x * b.x) by (nonlinear_arith);
    assert((-a.y) * (-b.y) == a.y * b.y) by (nonlinear_arith);
    assert((-a.z) * (-b.z) == a.z * b.z) by (nonlinear_arith);
}

/// The distance between two segments does not depend on which segment is
/// named first: `seg_seg_dist_sq(a0,a1,b0,b1)` and
/// `seg_seg_dist_sq(b0,b1,a0,a1)` are equal as rationals.
pub proof fn lemma_segment_distance_symmetric(a0: V3, a1: V3, b0: V3, b1: V3)
    requires
        in_coord_bounds(a0),
        in_coord_bounds(a1),
        in_coord_bounds(b0),
        in_coord_bounds(b1),
    ensures
        rat_eq(seg_seg_dist_sq(a0, a1, b0, b1), seg_seg_dist_sq(b0, b1, a0, a1)),
{
    lemma_pt_seg_wf(a0, b0, b1);
    lemma_pt_seg_wf(a1, b0, b1);
    lemma_pt_seg_wf(b0, a0, a1);
    lemma_pt_seg_wf(b1, a0, a1);
    let u = v3_sub(a1, a0);
    let v = v3_sub(b1, b0);
    let w = v3_sub(a0, b0);
    let w2 = v3_sub(b0, a0);
    let aa = v3_dot(u, u);
    let bb = v3_dot(u, v);
    let cc = v3_dot(v, v);
    let dd = v3_dot(u, w);
    let ee = v3_dot(v, w);
    let ww = v3_dot(w, w);
    let delta = aa * cc - bb * bb;
    let sn = bb * ee - cc * dd;
    let tn = aa * ee - bb * dd;
    // Gram values of the swapped call.
    assert(w2 == v3_neg(w));
    lemma_dot_symmetric(v, u);
    lemma_dot_neg_right(v, w);
    lemma_dot_neg_right(u, w);
    lemma_dot_neg_both(w, w);
    assert(v3_dot(v, w2) == -ee);
    assert(v3_dot(u, w2) == -dd);
    assert(v3_dot(w2, w2) == ww);
    assert(cc * aa - bb * bb == delta) by (nonlinear_arith)
        requires
            delta == aa * cc - bb * bb,
    ;
    assert(bb * (-dd) - aa * (-ee) == tn) by (nonlinear_arith)
        requires
            tn == aa * ee - bb * dd,
    ;
    assert(cc * (-dd) - bb * (-ee) == sn) by (nonlinear_arith)
        requires
            sn == bb * ee - cc * dd,
    ;
    assert(ww * delta + (-ee) * tn - (-dd) * sn == ww * delta + dd * sn - ee * tn)
        by (nonlinear_arith);
    let c1 = pt_seg_dist_sq(a0, b0, b1);
    let c2 = pt_seg_dist_sq(a1, b0, b1);
    let c3 = pt_seg_dist_sq(b0, a0, a1);
    let c4 = pt_seg_dist_sq(b1, a0, a1);
    lemma_min4_swap(c1, c2, c3, c4);
    let edges = rat_min(rat_min(rat_min(c1, c2), c3), c4);
    let edges2 = rat_min(rat_min(rat_min(c3, c4), c1), c2);
    if delta > 0 && 0 <= sn <= delta && 0 <= tn <= delta {
        let crit = Rat { num: ww * delta + dd * sn - ee * tn, den: delta };
        assert(seg_seg_dist_sq(a0, a1, b0, b1) == rat_min(edges, crit));
        assert(seg_seg_dist_sq(b0, b1, a0, a1) == rat_min(edges2, crit));
        lemma_rat_min_le(edges, crit);
        lemma_rat_min_le(edges2, crit);
        let m1 = rat_min(edges, crit);
        let m2 = rat_min(edges2, crit);
        // Each side's minimum is below the other side's choice.
        if m2 == crit {
            if m1 == crit {
            } else {
                assert(m1 == edges);
                assert(rat_le(m1, crit));
            }
        } else {
            assert(m2 == edges2);
            lemma_rat_le_trans_scalar(m1.num, m1.den, edges.num, edges.den, edges2.num, edges2.den);
        }
        if m1 == crit {
            if m2 == crit {
            } else {
                assert(rat_le(m2, crit));
            }
        } else {
            lemma_rat_le_trans_scalar(m2.num, m2.den, edges2.num, edges2.den, edges.num, edges.den);
        }
        lemma_rat_le_antisymmetric(m1, m2);
    } else {
        assert(seg_seg_dist_sq(a0, a1, b0, b1) == edges);
        assert(seg_seg_dist_sq(b0, b1, a0, a1) == edges2);
    }
}

/// Dot product of two small vectors, computed exactly in `i128`.
fn dot3(ax: i64, ay: i64, az: i64, bx: i64, by: i64, bz: i64) -> (r: i128)
    requires
        -16384 <= ax <= 16384,
        -16384 <= ay <= 16384,
        -16384 <= az <= 16384,
        -16384 <= bx <= 16384,
        -16384 <= by <= 16384,
        -16384 <= bz <= 16384,
    ensures
        r == ax * bx + ay * by + az * bz,
        -DOT_CAP <= r <= DOT_CAP,
{
    proof {
        lemma_mul_bound(ax as int, bx as int, 16384, 16384);
        lemma_mul_bound(ay as int, by as int, 16384, 16384);
        lemma_mul_bound(az as int, bz as int, 16384, 16384);
    }
    (ax as i128) * (bx as i128) + (ay as i128) * (by as i128) + (az as i128) * (bz as i128)
}

/// Product of two `i128` values whose mathematical product the caller has
/// shown to fit.
fn mul_i128(a: i128, b: i128) -> (r: i128)
    requires
        i128::MIN <= a * b <= i128::MAX,
    ensures
        r == a * b,
{
    a * b
}

/// Distance from `point` to the closest point on the segment `[a, b]`,
/// squared, as an exact rational.  If the projection of the point onto the
/// segment's line falls outside the segment, the result is the squared
/// distance to the nearer endpoint.
pub fn distance_between_point_and_line_segment(point: &Vec3, a: &Vec3, b: &Vec3) -> (d: DistSq)
    requires
        in_coord_bounds(point@),
        in_coord_bounds(a@),
        in_coord_bounds(b@),
    ensures
        d@ == pt_seg_dist_sq(point@, a@, b@),
        d.wf(),
        d@.num <= PT_NUM_CAP as int,
        d@.den <= DOT_CAP as int,
{
    proof {
        lemma_pt_seg_wf(point@, a@, b@);
    }
    let dx: i64 = b.x - a.x;
    let dy: i64 = b.y - a.y;
    let dz: i64 = b.z - a.z;
    let ex: i64 = point.x - a.x;
    let ey: i64 = point.y - a.y;
    let ez: i64 = point.z - a.z;
    let dd: i128 = dot3(dx, dy, dz, dx, dy, dz);
    let ed: i128 = dot3(ex, ey, ez, dx, dy, dz);
    if dd == 0 || ed <= 0 {
        let ee: i128 = dot3(ex, ey, ez, ex, ey, ez);
        DistSq { num: ee, den: 1 }
    } else if ed >= dd {
        let fx: i64 = point.x - b.x;
        let fy: i64 = point.y - b.y;
        let fz: i64 = point.z - b.z;
        let ff: i128 = dot3(fx, fy, fz, fx, fy, fz);
        DistSq { num: ff, den: 1 }
    } else {
        let ee: i128 = dot3(ex, ey, ez, ex, ey, ez);
        proof {
            lemma_mul_bound(ee as int, dd as int, DOT_CAP as int, DOT_CAP as int);
            lemma_mul_bound(ed as int, ed as int, DOT_CAP as int, DOT_CAP as int);
            assert(DOT_CAP as int * DOT_CAP as int == PT_NUM_CAP as int) by (nonlinear_arith);
        }
        let num: i128 = mul_i128(ee, dd) - mul_i128(ed, ed);
        DistSq { num, den: dd }
    }
}

/// The smaller of two exact rationals; ties keep the first.
fn min2(r1: DistSq, r2: DistSq) -> (r: DistSq)
    requires
        r1.wf(),
        r2.wf(),
        r1@.num * r2@.den <= i128::MAX as int,
        r2@.num * r1@.den <= i128::MAX as int,
    ensures
        r@ == rat_min(r1@, r2@),
        r@ == r1@ || r@ == r2@,
        r.wf(),
{
    proof {
        assert(r1@.num * r2@.den >= 0) by (nonlinear_arith)
            requires
                r1@.num >= 0 && r2@.den >= 1,
        ;
        assert(r2@.num * r1@.den >= 0) by (nonlinear_arith)
            requires
                r2@.num >= 0 && r1@.den >= 1,
        ;
    }
    let x1: i128 = r1.num * r2.den;
    let x2: i128 = r2.num * r1.den;
    if x2 < x1 {
        r2
    } else {
        r1
    }
}

/// Minimum distance between the 3D segments `[a0, a1]` and `[b0, b1]`,
/// squared, as an exact rational.  Parallel, touching and crossing segments
/// need no special treatment: the result is the least of the four
/// endpoint-to-segment distances and, for skew lines whose closest points
/// fall inside both segments, the distance of that closest pair.
pub fn distance_between_line_segments(a0: &Vec3, a1: &Vec3, b0: &Vec3, b1: &Vec3) -> (d: DistSq)
    requires
        in_coord_bounds(a0@),
        in_coord_bounds(a1@),
        in_coord_bounds(b0@),
        in_coord_bounds(b1@),
    ensures
        d@ == seg_seg_dist_sq(a0@, a1@, b0@, b1@),
        d.wf(),
        d@.num <= SEG_NUM_CAP as int,
        d@.den <= DELTA_CAP as int,
{
    proof {
        lemma_seg_seg_wf(a0@, a1@, b0@, b1@);
        lemma_pt_seg_wf(a0@, b0@, b1@);
        lemma_pt_seg_wf(a1@, b0@, b1@);
        lemma_pt_seg_wf(b0@, a0@, a1@);
        lemma_pt_seg_wf(b1@, a0@, a1@);
    }
    let c1 = distance_between_point_and_line_segment(a0, b0, b1);
    let c2 = distance_between_point_and_line_segment(a1, b0, b1);
    let c3 = distance_between_point_and_line_segment(b0, a0, a1);
    let c4 = distance_between_point_and_line_segment(b1, a0, a1);
    proof {
        lemma_mul_bound(c1@.num, c2@.den, PT_NUM_CAP as int, DOT_CAP as int);
        lemma_mul_bound(c2@.num, c1@.den, PT_NUM_CAP as int, DOT_CAP as int);
        assert(PT_NUM_CAP as int * DOT_CAP as int <= i128::MAX as int) by (nonlinear_arith);
    }
    let m12 = min2(c1, c2);
    proof {
        lemma_mul_bound(m12@.num, c3@.den, PT_NUM_CAP as int, DOT_CAP as int);
        lemma_mul_bound(c3@.num, m12@.den, PT_NUM_CAP as int, DOT_CAP as int);
    }
    let m123 = min2(m12, c3);
    proof {
        lemma_mul_bound(m123@.num, c4@.den, PT_NUM_CAP as int, DOT_CAP as int);
        lemma_mul_bound(c4@.num, m123@.den, PT_NUM_CAP as int, DOT_CAP as int);
    }
    let edges = min2(m123, c4);
    let ux: i64 = a1.x - a0.x;
    let uy: i64 = a1.y - a0.y;
    let uz: i64 = a1.z - a0.z;
    let vx: i64 = b1.x - b0.x;
    let vy: i64 = b1.y - b0.y;
    let vz: i64 = b1.z - b0.z;
    let wx: i64 = a0.x - b0.x;
    let wy: i64 = a0.y - b0.y;
    let wz: i64 = a0.z - b0.z;
    let aa: i128 = dot3(ux, uy, uz, ux, uy, uz);
    let bb: i128 = dot3(ux, uy, uz, vx, vy, vz);
    let cc: i128 = dot3(vx, vy, vz, vx, vy, vz);
    let dd: i128 = dot3(ux, uy, uz, wx, wy, wz);
    let ee: i128 = dot3(vx, vy, vz, wx, wy, wz);
    proof {
        lemma_mul_bound(aa as int, cc as int, DOT_CAP as int, DOT_CAP as int);
        lemma_mul_bound(bb as int, bb as int, DOT_CAP as int, DOT_CAP as int);
        lemma_mul_bound(bb as int, ee as int, DOT_CAP as int, DOT_CAP as int);
        lemma_mul_bound(cc as int, dd as int, DOT_CAP as int, DOT_CAP as int);
        lemma_mul_bound(aa as int, ee as int, DOT_CAP as int, DOT_CAP as int);
        lemma_mul_bound(bb as int, dd as int, DOT_CAP as int, DOT_CAP as int);
        assert(DOT_CAP as int * DOT_CAP as int == PT_NUM_CAP as int) by (nonlinear_arith);
    }
    let delta: i128 = mul_i128(aa, cc) - mul_i128(bb, bb);
    let sn: i128 = mul_i128(bb, ee) - mul_i128(cc, dd);
    let tn: i128 = mul_i128(aa, ee) - mul_i128(bb, dd);
    if delta > 0 && 0 <= sn && sn <= delta && 0 <= tn && tn <= delta {
        let ww: i128 = dot3(wx, wy, wz, wx, wy, wz);
        proof {
            assert(bb as int * bb as int >= 0) by (nonlinear_arith);
            lemma_mul_bound(ww as int, delta as int, DOT_CAP as int, PT_NUM_CAP as int);
            lemma_mul_bound(dd as int, sn as int, DOT_CAP as int, PT_NUM_CAP as int);
            lemma_mul_bound(ee as int, tn as int, DOT_CAP as int, PT_NUM_CAP as int);
        }
        let fnum: i128 = mul_i128(ww, delta) + mul_i128(dd, sn) - mul_i128(ee, tn);
        let crit = DistSq { num: fnum, den: delta };
        proof {
            lemma_critical_nonneg(
                v3_sub(a1@, a0@),
                v3_sub(b1@, b0@),
                v3_sub(a0@, b0@),
            );
            lemma_mul_bound(edges@.num, crit@.den, PT_NUM_CAP as int, PT_NUM_CAP as int);
            lemma_mul_bound(crit@.num, edges@.den, SEG_NUM_CAP as int, DOT_CAP as int);
            assert(PT_NUM_CAP as int * PT_NUM_CAP as int <= i128::MAX as int)
                by (nonlinear_arith);
            assert(SEG_NUM_CAP as int * DOT_CAP as int <= i128::MAX as int) by (nonlinear_arith);
            assert(3 * (DOT_CAP as int * PT_NUM_CAP as int) <= SEG_NUM_CAP as int)
                by (nonlinear_arith);
        }
        min2(edges, crit)
    } else {
        edges
    }
}

} // verus!
