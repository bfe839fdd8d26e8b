//! Quaternion-rotate-vector over fixed-point integers.
//!
//! A rotation is applied as `q * v * conj(q)` through two partial Hamilton
//! products.  The components are exact integer polynomials: a quaternion at
//! fixed-point scale `s` rotates a vector into one carrying scale `s * s`,
//! and the caller divides the scale back out.

use vstd::prelude::*;

use crate::geom::{Vec3, V3};

verus! {

/// Largest component magnitude the Hamilton products accept; keeps every
/// intermediate sum inside `i64`.
pub const QUAT_COMPONENT_LIMIT: i64 = 32768;

/// Mathematical quaternion over unbounded integers: the model of `Quat`.
pub ghost struct Q4 {
    pub x: int,
    pub y: int,
    pub z: int,
    pub w: int,
}

/// Executable fixed-point quaternion.
#[derive(Clone, Copy, Debug, PartialEq, Eq, Structural)]
pub struct Quat {
    pub x: i64,
    pub y: i64,
    pub z: i64,
    pub w: i64,
}

impl View for Quat {
    type V = Q4;

    open spec fn view(&self) -> Q4 {
        Q4 { x: self.x as int, y: self.y as int, z: self.z as int, w: self.w as int }
    }
}

impl Quat {
    pub fn from_xyzw(x: i64, y: i64, z: i64, w: i64) -> (q: Quat)
        ensures
            q@ == (Q4 { x: x as int, y: y as int, z: z as int, w: w as int }),
    {
        Quat { x, y, z, w }
    }
}

pub open spec fn q4_bounded(q: Q4, bound: int) -> bool {
    &&& -bound <= q.x <= bound
    &&& -bound <= q.y <= bound
    &&& -bound <= q.z <= bound
    &&& -bound <= q.w <= bound
}

/// The conjugate quaternion.
pub open spec fn q4_conj(q: Q4) -> Q4 {
    Q4 { x: -q.x, y: -q.y, z: -q.z, w: q.w }
}

/// Hamilton product of a quaternion and a pure vector, `q * (v, 0)`.
pub open spec fn ham_quat_vec(q: Q4, v: V3) -> Q4 {
    Q4 {
        x: q.w * v.x + q.y * v.z - q.z * v.y,
        y: q.w * v.y - q.x * v.z + q.z * v.x,
        z: q.w * v.z + q.x * v.y - q.y * v.x,
        w: -(q.x * v.x) - q.y * v.y - q.z * v.z,
    }
}

/// Vector part of the Hamilton product of two quaternions.
pub open spec fn ham_quat_quat_vec(a: Q4, b: Q4) -> V3 {
    V3 {
        x: a.w * b.x + a.x * b.w + a.y * b.z - a.z * b.y,
        y: a.w * b.y - a.x * b.z + a.y * b.w + a.z * b.x,
        z: a.w * b.z + a.x * b.y - a.y * b.x + a.z * b.w,
    }
}

proof fn lemma_ham_term_bound(a: int, b: int, m: int, n: int)
    by (nonlinear_arith)
    requires
        -m <= a <= m,
        -n <= b <= n,
        0 <= m,
        0 <= n,
    ensures
        -(m * n) <= a * b <= m * n,
{
}

/// `q * (v, 0)`: the first half of a quaternion rotation.  Exact integer
/// arithmetic; the result carries the product of the two inputs' scales.
pub fn partial_hamilton_product2(quat: &Quat, vec: &Vec3) -> (r: Quat)
    requires
        q4_bounded(quat@, QUAT_COMPONENT_LIMIT as int),
        -QUAT_COMPONENT_LIMIT <= vec.x <= QUAT_COMPONENT_LIMIT,
        -QUAT_COMPONENT_LIMIT <= vec.y <= QUAT_COMPONENT_LIMIT,
        -QUAT_COMPONENT_LIMIT <= vec.z <= QUAT_COMPONENT_LIMIT,
    ensures
        r@ == ham_quat_vec(quat@, vec@),
        q4_bounded(r@, 0xC000_0000),
{
    proof {
        let m = QUAT_COMPONENT_LIMIT as int;
        lemma_ham_term_bound(quat@.w, vec@.x, m, m);
        lemma_ham_term_bound(quat@.w, vec@.y, m, m);
        lemma_ham_term_bound(quat@.w, vec@.z, m, m);
        lemma_ham_term_bound(quat@.x, vec@.x, m, m);
        lemma_ham_term_bound(quat@.x, vec@.y, m, m);
        lemma_ham_term_bound(quat@.x, vec@.z, m, m);
        lemma_ham_term_bound(quat@.y, vec@.x, m, m);
        lemma_ham_term_bound(quat@.y, vec@.y, m, m);
        lemma_ham_term_bound(quat@.y, vec@.z, m, m);
        lemma_ham_term_bound(quat@.z, vec@.x, m, m);
        lemma_ham_term_bound(quat@.z, vec@.y, m, m);
        lemma_ham_term_bound(quat@.z, vec@.z, m, m);
    }
    Quat {
        x: quat.w * vec.x + quat.y * vec.z - quat.z * vec.y,
        y: quat.w * vec.y - quat.x * vec.z + quat.z * vec.x,
        z: quat.w * vec.z + quat.x * vec.y - quat.y * vec.x,
        w: -(quat.x * vec.x) - quat.y * vec.y - quat.z * vec.z,
    }
}

/// Vector part of `a * b`: the second half of a quaternion rotation.
pub fn partial_hamilton_product(q1: &Quat, q2: &Quat) -> (r: Vec3)
    requires
        q4_bounded(q1@, 0xC000_0000),
        q4_bounded(q2@, QUAT_COMPONENT_LIMIT as int),
    ensures
        r@ == ham_quat_quat_vec(q1@, q2@),
{
    proof {
        let m: int = 0xC000_0000;
        let n = QUAT_COMPONENT_LIMIT as int;
        lemma_ham_term_bound(q1@.w, q2@.x, m, n);
        lemma_ham_term_bound(q1@.x, q2@.w, m, n);
        lemma_ham_term_bound(q1@.y, q2@.z, m, n);
        lemma_ham_term_bound(q1@.z, q2@.y, m, n);
        lemma_ham_term_bound(q1@.w, q2@.y, m, n);
        lemma_ham_term_bound(q1@.x, q2@.z, m, n);
        lemma_ham_term_bound(q1@.y, q2@.w, m, n);
        lemma_ham_term_bound(q1@.z, q2@.x, m, n);
        lemma_ham_term_bound(q1@.w, q2@.z, m, n);
        lemma_ham_term_bound(q1@.x, q2@.y, m, n);
        lemma_ham_term_bound(q1@.y, q2@.x, m, n);
        lemma_ham_term_bound(q1@.z, q2@.w, m, n);
    }
    Vec3 {
        x: q1.w * q2.x + q1.x * q2.w + q1.y * q2.z - q1.z * q2.y,
        y: q1.w * q2.y - q1.x * q2.z + q1.y * q2.w + q1.z * q2.x,
        z: q1.w * q2.z + q1.x * q2.y - q1.y * q2.x + q1.z * q2.w,
    }
}

/// Rotates `v` by the quaternion `q` as `q * (v, 0) * conj(q)`.  The result
/// carries the vector's scale times the square of the quaternion's scale.
pub fn rotate_by_quat(v: &Vec3, q: &Quat) -> (r: Vec3)
    requires
        q4_bounded(q@, QUAT_COMPONENT_LIMIT as int),
        -QUAT_COMPONENT_LIMIT <= v.x <= QUAT_COMPONENT_LIMIT,
        -QUAT_COMPONENT_LIMIT <= v.y <= QUAT_COMPONENT_LIMIT,
        -QUAT_COMPONENT_LIMIT <= v.z <= QUAT_COMPONENT_LIMIT,
    ensures
        r@ == ham_quat_quat_vec(ham_quat_vec(q@, v@), q4_conj(q@)),
{
    let q_prime = Quat { x: -q.x, y: -q.y, z: -q.z, w: q.w };
    let first = partial_hamilton_product2(q, v);
    partial_hamilton_product(&first, &q_prime)
}

} // verus!
