//! Three-component vectors over fixed-point scalars, with the handful of
//! geometric operations the renderer needs: sum, difference, dot product,
//! scaling, componentwise (color) product, normalization and mirror
//! reflection.  Each executable operation is pinned to a spec-level function
//! on the mathematical view `V3`.

use vstd::prelude::*;

verus! {

use crate::fixed::{
    FX_ONE, tdiv, fx_mul_spec, fx_mul, isqrt_spec, isqrt, lemma_isqrt_bounds,
    lemma_isqrt_unique, lemma_tdiv_bound, tdiv128,
};

/// Mathematical view of a vector: three unbounded integers, each a raw
/// fixed-point scalar.
pub ghost struct V3 {
    pub x: int,
    pub y: int,
    pub z: int,
}

#[derive(Clone, Copy, PartialEq, Eq, Structural, Debug)]
pub struct Vec3 {
    pub x: i64,
    pub y: i64,
    pub z: i64,
}

impl View for Vec3 {
    type V = V3;

    open spec fn view(&self) -> V3 {
        V3 { x: self.x as int, y: self.y as int, z: self.z as int }
    }
}

/// A color: every channel in `[0, FX_ONE]`, that is `[0.0, 1.0]`.
pub open spec fn color_ok(c: V3) -> bool {
    &&& 0 <= c.x <= FX_ONE as int
    &&& 0 <= c.y <= FX_ONE as int
    &&& 0 <= c.z <= FX_ONE as int
}

/// Every component lies in `[-b, b]`.
pub open spec fn in_bound(v: V3, b: int) -> bool {
    &&& -b <= v.x <= b
    &&& -b <= v.y <= b
    &&& -b <= v.z <= b
}

pub open spec fn v3_zero() -> V3 {
    V3 { x: 0, y: 0, z: 0 }
}

pub open spec fn v3_add(a: V3, b: V3) -> V3 {
    V3 { x: a.x + b.x, y: a.y + b.y, z: a.z + b.z }
}

pub open spec fn v3_sub(a: V3, b: V3) -> V3 {
    V3 { x: a.x - b.x, y: a.y - b.y, z: a.z - b.z }
}

pub open spec fn v3_neg(a: V3) -> V3 {
    V3 { x: -a.x, y: -a.y, z: -a.z }
}

/// Exact dot product of raw components (scale `FX_ONE^2`).
pub open spec fn v3_dot(a: V3, b: V3) -> int {
    a.x * b.x + a.y * b.y + a.z * b.z
}

/// Scale by a fixed-point factor `k`, one truncation per component.
pub open spec fn v3_scale(a: V3, k: int) -> V3 {
    V3 { x: fx_mul_spec(a.x, k), y: fx_mul_spec(a.y, k), z: fx_mul_spec(a.z, k) }
}

/// Componentwise fixed-point product (used for color attenuation).
pub open spec fn v3_mul(a: V3, b: V3) -> V3 {
    V3 {
        x: fx_mul_spec(a.x, b.x),
        y: fx_mul_spec(a.y, b.y),
        z: fx_mul_spec(a.z, b.z),
    }
}

/// Floor of the Euclidean length of the raw components.
pub open spec fn v3_len(a: V3) -> int {
    isqrt_spec(v3_dot(a, a) as nat) as int
}

/// Unit vector in the direction of `a`, scaled by `FX_ONE`; the zero vector
/// normalizes to itself.
pub open spec fn v3_norm(a: V3) -> V3 {
    if v3_dot(a, a) == 0 {
        v3_zero()
    } else {
        let l = v3_len(a);
        V3 {
            x: tdiv(a.x * (FX_ONE as int), l),
            y: tdiv(a.y * (FX_ONE as int), l),
            z: tdiv(a.z * (FX_ONE as int), l),
        }
    }
}

/// Mirror reflection of `a` about `b`: `a - 2 (a . b) b`, with one truncation
/// per component (both arguments at scale `FX_ONE`).
pub open spec fn v3_reflect(a: V3, b: V3) -> V3 {
    let d = v3_dot(a, b);
    V3 {
        x: a.x - tdiv(2 * d * b.x, (FX_ONE as int) * (FX_ONE as int)),
        y: a.y - tdiv(2 * d * b.y, (FX_ONE as int) * (FX_ONE as int)),
        z: a.z - tdiv(2 * d * b.z, (FX_ONE as int) * (FX_ONE as int)),
    }
}

/// The dot product of a vector with itself is a sum of squares.
pub proof fn lemma_dot_self_nonneg(a: V3)
    ensures
        v3_dot(a, a) >= 0,
        v3_dot(a, a) >= a.x * a.x,
        v3_dot(a, a) >= a.y * a.y,
        v3_dot(a, a) >= a.z * a.z,
{
    assert(a.x * a.x >= 0 && a.y * a.y >= 0 && a.z * a.z >= 0) by (nonlinear_arith);
}

/// A bound on the components bounds the dot product.
pub proof fn lemma_dot_bound(a: V3, b: V3, ba: int, bb: int)
    requires
        in_bound(a, ba),
        in_bound(b, bb),
        0 <= ba,
        0 <= bb,
    ensures
        -(3 * (ba * bb)) <= v3_dot(a, b) <= 3 * (ba * bb),
        -(ba * bb) <= a.x * b.x <= ba * bb,
        -(ba * bb) <= a.y * b.y <= ba * bb,
        -(ba * bb) <= a.z * b.z <= ba * bb,
{
    assert(-(ba * bb) <= a.x * b.x <= ba * bb) by (nonlinear_arith)
        requires
            -ba <= a.x <= ba,
            -bb <= b.x <= bb,
            0 <= ba,
            0 <= bb;
    assert(-(ba * bb) <= a.y * b.y <= ba * bb) by (nonlinear_arith)
        requires
            -ba <= a.y <= ba,
            -bb <= b.y <= bb,
            0 <= ba,
            0 <= bb;
    assert(-(ba * bb) <= a.z * b.z <= ba * bb) by (nonlinear_arith)
        requires
            -ba <= a.z <= ba,
            -bb <= b.z <= bb,
            0 <= ba,
            0 <= bb;
}

/// The square root of a perfect square.
pub proof fn lemma_isqrt_square(k: nat)
    ensures
        isqrt_spec(k * k) == k,
{
    assert(k * k < (k + 1) * (k + 1)) by (nonlinear_arith);
    lemma_isqrt_unique(k * k, k);
}

/// The floor square root is monotone.
pub proof fn lemma_isqrt_monotone(a: nat, b: nat)
    requires
        a <= b,
    ensures
        isqrt_spec(a) <= isqrt_spec(b),
{
    lemma_isqrt_bounds(a);
    lemma_isqrt_bounds(b);
    let sa = isqrt_spec(a);
    let sb = isqrt_spec(b);
    if sa > sb {
        assert(false) by (nonlinear_arith)
            requires
                sb < sa,
                sa * sa <= a,
                b < (sb + 1) * (sb + 1),
                a <= b;
    }
}

impl Vec3 {
    pub fn new(x: i64, y: i64, z: i64) -> (r: Vec3)
        ensures
            r@ == (V3 { x: x as int, y: y as int, z: z as int }),
    {
        Vec3 { x, y, z }
    }

    pub fn add(&self, o: &Vec3) -> (r: Vec3)
        requires
            in_bound(self@, 0x2000_0000_0000_0000),
            in_bound(o@, 0x2000_0000_0000_0000),
        ensures
            r@ == v3_add(self@, o@),
    {
        Vec3 { x: self.x + o.x, y: self.y + o.y, z: self.z + o.z }
    }

    pub fn sub(&self, o: &Vec3) -> (r: Vec3)
        requires
            in_bound(self@, 0x2000_0000_0000_0000),
            in_bound(o@, 0x2000_0000_0000_0000),
        ensures
            r@ == v3_sub(self@, o@),
    {
        Vec3 { x: self.x - o.x, y: self.y - o.y, z: self.z - o.z }
    }

    pub fn neg(&self) -> (r: Vec3)
        requires
            in_bound(self@, 0x2000_0000_0000_0000),
        ensures
            r@ == v3_neg(self@),
    {
        Vec3 { x: -self.x, y: -self.y, z: -self.z }
    }

    /// Exact dot product, computed in 128 bits.
    pub fn dot(&self, o: &Vec3) -> (r: i128)
        requires
            in_bound(self@, 0x1000_0000_0000_0000),
            in_bound(o@, 0x1000_0000_0000_0000),
        ensures
            r == v3_dot(self@, o@),
    {
        proof {
            lemma_dot_bound(self@, o@, 0x1000_0000_0000_0000, 0x1000_0000_0000_0000);
        }
        (self.x as i128) * (o.x as i128) + (self.y as i128) * (o.y as i128)
            + (self.z as i128) * (o.z as i128)
    }

    /// Scale by the fixed-point factor `k`.
    pub fn scale(&self, k: i64) -> (r: Vec3)
        requires
            in_bound(self@, 0x100_0000_0000),
            -0x40_0000_0000 <= k <= 0x40_0000_0000,
        ensures
            r@ == v3_scale(self@, k as int),
            in_bound(r@, (0x100_0000_0000 * 0x40_0000_0000) as int / (FX_ONE as int)),
    {
        proof {
            lemma_scale_component(self@.x, k as int, 0x100_0000_0000, 0x40_0000_0000);
            lemma_scale_component(self@.y, k as int, 0x100_0000_0000, 0x40_0000_0000);
            lemma_scale_component(self@.z, k as int, 0x100_0000_0000, 0x40_0000_0000);
        }
        Vec3 { x: fx_mul(self.x, k), y: fx_mul(self.y, k), z: fx_mul(self.z, k) }
    }

    /// Componentwise fixed-point product; used for color attenuation.
    pub fn mul_comp(&self, o: &Vec3) -> (r: Vec3)
        requires
            in_bound(self@, 0x100_0000_0000),
            in_bound(o@, 0x40_0000_0000),
        ensures
            r@ == v3_mul(self@, o@),
    {
        proof {
            lemma_scale_component(self@.x, o@.x, 0x100_0000_0000, 0x40_0000_0000);
            lemma_scale_component(self@.y, o@.y, 0x100_0000_0000, 0x40_0000_0000);
            lemma_scale_component(self@.z, o@.z, 0x100_0000_0000, 0x40_0000_0000);
        }
        Vec3 { x: fx_mul(self.x, o.x), y: fx_mul(self.y, o.y), z: fx_mul(self.z, o.z) }
    }

    /// Floor of the Euclidean length of the raw components.
    pub fn length(&self) -> (r: i64)
        requires
            in_bound(self@, 0x100_0000_0000),
        ensures
            r == v3_len(self@),
            0 <= r < 0x400_0000_0000,
            self@.x <= r && -r <= self@.x,
            self@.y <= r && -r <= self@.y,
            self@.z <= r && -r <= self@.z,
    {
        let d: i128 = self.dot(self);
        proof {
            lemma_dot_self_nonneg(self@);
            lemma_dot_bound(self@, self@, 0x100_0000_0000, 0x100_0000_0000);
        }
        let s: u128 = isqrt(d as u128);
        proof {
            lemma_len_component_bound(self@);
            lemma_isqrt_upper((d as u128) as nat, 0x400_0000_0000);
        }
        s as i64
    }

    /// Unit vector in the direction of `self`, at scale `FX_ONE`; the zero
    /// vector is returned unchanged.
    pub fn normalize(&self) -> (r: Vec3)
        requires
            in_bound(self@, 0x100_0000_0000),
        ensures
            r@ == v3_norm(self@),
            in_bound(r@, FX_ONE as int),
    {
        let d: i128 = self.dot(self);
        proof {
            lemma_dot_self_nonneg(self@);
            lemma_dot_bound(self@, self@, 0x100_0000_0000, 0x100_0000_0000);
        }
        if d == 0 {
            Vec3 { x: 0, y: 0, z: 0 }
        } else {
            let s: u128 = isqrt(d as u128);
            proof {
                lemma_len_component_bound(self@);
                lemma_isqrt_upper((d as u128) as nat, 0x400_0000_0000);
                if s == 0 {
                    assert((0 + 1) * (0 + 1) == 1) by (nonlinear_arith);
                    lemma_isqrt_bounds((d as u128) as nat);
                }
                lemma_norm_component(self@.x, s as int);
                lemma_norm_component(self@.y, s as int);
                lemma_norm_component(self@.z, s as int);
            }
            let si: i128 = s as i128;
            Vec3 {
                x: tdiv128((self.x as i128) * 65536, si) as i64,
                y: tdiv128((self.y as i128) * 65536, si) as i64,
                z: tdiv128((self.z as i128) * 65536, si) as i64,
            }
        }
    }
}

/// A normalized vector has components within the unit scale.
pub proof fn lemma_norm_unit(a: V3)
    ensures
        in_bound(v3_norm(a), FX_ONE as int),
{
    lemma_dot_self_nonneg(a);
    if v3_dot(a, a) == 0 {
    } else {
        let d = v3_dot(a, a) as nat;
        lemma_isqrt_bounds(d);
        let s = isqrt_spec(d) as int;
        if s == 0 {
            assert((0 + 1) * (0 + 1) == 1) by (nonlinear_arith);
        }
        lemma_len_component_bound(a);
        lemma_norm_component(a.x, s);
        lemma_norm_component(a.y, s);
        lemma_norm_component(a.z, s);
    }
}

/// Each component of a vector is bounded in magnitude by the vector's floor
/// length.
proof fn lemma_len_component_bound(a: V3)
    ensures
        -v3_len(a) <= a.x <= v3_len(a),
        -v3_len(a) <= a.y <= v3_len(a),
        -v3_len(a) <= a.z <= v3_len(a),
{
    lemma_dot_self_nonneg(a);
    let d = v3_dot(a, a) as nat;
    lemma_axis_le_len(a.x, d);
    lemma_axis_le_len(a.y, d);
    lemma_axis_le_len(a.z, d);
}

/// Helper: if `c * c <= d` then `|c| <= isqrt_spec(d)`.
proof fn lemma_axis_le_len(c: int, d: nat)
    requires
        c * c <= d,
    ensures
        -(isqrt_spec(d) as int) <= c <= isqrt_spec(d) as int,
{
    let m: nat = (if c >= 0 { c } else { -c }) as nat;
    assert(m * m == c * c) by (nonlinear_arith)
        requires
            m == (if c >= 0 { c } else { -c });
    lemma_isqrt_square(m);
    lemma_isqrt_monotone(m * m, d);
}

/// Helper: `|c| <= s` gives `|tdiv(c * FX_ONE, s)| <= FX_ONE`.
proof fn lemma_norm_component(c: int, s: int)
    requires
        0 < s,
        -s <= c <= s,
    ensures
        -(FX_ONE as int) <= tdiv(c * (FX_ONE as int), s) <= FX_ONE as int,
{
    let f = FX_ONE as int;
    assert(-(s * f) <= c * f <= s * f) by (nonlinear_arith)
        requires
            -s <= c <= s,
            0 < f;
    lemma_tdiv_mag_monotone(c * f, s * f, s);
    vstd::arithmetic::div_mod::lemma_div_by_multiple(f, s);
    assert(s * f == f * s) by (nonlinear_arith);
}

/// The floor square root of anything below `b * b` is below `b`.
pub proof fn lemma_isqrt_upper(n: nat, b: nat)
    requires
        n < b * b,
    ensures
        isqrt_spec(n) < b,
{
    lemma_isqrt_bounds(n);
    let s = isqrt_spec(n);
    if s >= b {
        assert(false) by (nonlinear_arith)
            requires
                s >= b,
                s * s <= n,
                n < b * b;
    }
}

/// Bound on one scaled component: `|a| <= ba` and `|k| <= bk` give
/// `|a * k / FX_ONE| <= ba * bk / FX_ONE`.
pub proof fn lemma_scale_component(a: int, k: int, ba: int, bk: int)
    requires
        -ba <= a <= ba,
        -bk <= k <= bk,
        0 <= ba,
        0 <= bk,
    ensures
        -(ba * bk / (FX_ONE as int)) <= fx_mul_spec(a, k) <= ba * bk / (FX_ONE as int),
{
    let p = a * k;
    assert(-(ba * bk) <= p <= ba * bk) by (nonlinear_arith)
        requires
            p == a * k,
            -ba <= a <= ba,
            -bk <= k <= bk,
            0 <= ba,
            0 <= bk;
    lemma_tdiv_mag_monotone(p, ba * bk, FX_ONE as int);
}

/// `|p| <= bp` and `|q| <= bq` bound the product.
pub proof fn lemma_mul_bound(p: int, q: int, bp: int, bq: int)
    requires
        -bp <= p <= bp,
        -bq <= q <= bq,
        0 <= bp,
        0 <= bq,
    ensures
        -(bp * bq) <= p * q <= bp * bq,
{
    assert(-(bp * bq) <= p * q <= bp * bq) by (nonlinear_arith)
        requires
            -bp <= p <= bp,
            -bq <= q <= bq,
            0 <= bp,
            0 <= bq;
}

/// Mirror reflection `a - 2 (a . b) b` on fixed-point vectors.
pub fn reflect(a: &Vec3, b: &Vec3) -> (r: Vec3)
    requires
        in_bound(a@, 131072),
        in_bound(b@, 131072),
    ensures
        r@ == v3_reflect(a@, b@),
        in_bound(r@, 3276800),
{
    proof {
        lemma_dot_bound(a@, b@, 131072, 131072);
    }
    let d: i128 = a.dot(b);
    let den: i128 = 4294967296;
    proof {
        lemma_mul_bound(2 * v3_dot(a@, b@), b@.x, 103079215104, 131072);
        lemma_mul_bound(2 * v3_dot(a@, b@), b@.y, 103079215104, 131072);
        lemma_mul_bound(2 * v3_dot(a@, b@), b@.z, 103079215104, 131072);
        lemma_tdiv_mag_monotone(2 * v3_dot(a@, b@) * b@.x, 13510798882111488, 4294967296);
        lemma_tdiv_mag_monotone(2 * v3_dot(a@, b@) * b@.y, 13510798882111488, 4294967296);
        lemma_tdiv_mag_monotone(2 * v3_dot(a@, b@) * b@.z, 13510798882111488, 4294967296);
    }
    let tx: i128 = tdiv128(2 * d * (b.x as i128), den);
    let ty: i128 = tdiv128(2 * d * (b.y as i128), den);
    let tz: i128 = tdiv128(2 * d * (b.z as i128), den);
    Vec3 { x: a.x - (tx as i64), y: a.y - (ty as i64), z: a.z - (tz as i64) }
}

/// Snell refraction of `v` about the unit normal `n` with relative index
/// ratio `ni_over_nt` (scale `FX_ONE`): `None` means total internal
/// reflection.  Mirrors `v3_refract`.
pub open spec fn v3_refract(v: V3, n: V3, ni: int) -> Option<V3> {
    let f = FX_ONE as int;
    let f2 = f * f;
    let uv = v3_norm(v);
    let dt = tdiv(v3_dot(uv, n), f);
    let det2 = f2 - tdiv(ni * ni * (f2 - dt * dt), f2);
    if det2 > 0 {
        let s = isqrt_spec(det2 as nat) as int;
        Some(
            V3 {
                x: fx_mul_spec(ni, uv.x) - tdiv(ni * n.x * dt, f2) - tdiv(n.x * s, f),
                y: fx_mul_spec(ni, uv.y) - tdiv(ni * n.y * dt, f2) - tdiv(n.y * s, f),
                z: fx_mul_spec(ni, uv.z) - tdiv(ni * n.z * dt, f2) - tdiv(n.z * s, f),
            },
        )
    } else {
        None
    }
}

pub fn refract(v: &Vec3, n: &Vec3, ni_over_nt: i64) -> (r: Option<Vec3>)
    requires
        in_bound(v@, 0x100_0000_0000),
        in_bound(n@, 131072),
        1 <= ni_over_nt <= 524288,
    ensures
        match r {
            Some(w) => v3_refract(v@, n@, ni_over_nt as int) == Some(w@) && in_bound(
                w@,
                16777216,
            ),
            None => v3_refract(v@, n@, ni_over_nt as int) is None,
        },
{
    let ghost ni: int = ni_over_nt as int;
    let uv = v.normalize();
    let dotun: i128 = uv.dot(n);
    proof {
        lemma_dot_bound(uv@, n@, 65536, 131072);
        lemma_tdiv_mag_monotone(v3_dot(uv@, n@), 25769803776, 65536);
    }
    let dt: i128 = tdiv128(dotun, 65536);
    let f2: i128 = 4294967296;
    proof {
        lemma_mul_bound(dt as int, dt as int, 393216, 393216);
        lemma_mul_bound(ni, ni, 524288, 524288);
        lemma_mul_bound(ni * ni, f2 - dt * dt, 274877906944, 158913789952);
        lemma_tdiv_mag_monotone(
            ni * ni * (f2 - dt * dt),
            43681889966544218226688,
            4294967296,
        );
    }
    let det2: i128 = f2 - tdiv128((ni_over_nt as i128) * (ni_over_nt as i128) * (f2 - dt * dt), f2);
    if det2 > 0 {
        let s: u128 = isqrt(det2 as u128);
        proof {
            lemma_isqrt_upper((det2 as u128) as nat, 4194304);
            lemma_scale_component(ni, uv@.x, 524288, 65536);
            lemma_scale_component(ni, uv@.y, 524288, 65536);
            lemma_scale_component(ni, uv@.z, 524288, 65536);
            lemma_mul_bound(ni, n@.x, 524288, 131072);
            lemma_mul_bound(ni, n@.y, 524288, 131072);
            lemma_mul_bound(ni, n@.z, 524288, 131072);
            lemma_mul_bound(ni * n@.x, dt as int, 68719476736, 393216);
            lemma_mul_bound(ni * n@.y, dt as int, 68719476736, 393216);
            lemma_mul_bound(ni * n@.z, dt as int, 68719476736, 393216);
            lemma_tdiv_mag_monotone(ni * n@.x * dt, 27021597764222976, 4294967296);
            lemma_tdiv_mag_monotone(ni * n@.y * dt, 27021597764222976, 4294967296);
            lemma_tdiv_mag_monotone(ni * n@.z * dt, 27021597764222976, 4294967296);
            lemma_mul_bound(n@.x, s as int, 131072, 4194304);
            lemma_mul_bound(n@.y, s as int, 131072, 4194304);
            lemma_mul_bound(n@.z, s as int, 131072, 4194304);
            lemma_tdiv_mag_monotone(n@.x * s, 549755813888, 65536);
            lemma_tdiv_mag_monotone(n@.y * s, 549755813888, 65536);
            lemma_tdiv_mag_monotone(n@.z * s, 549755813888, 65536);
        }
        let si: i128 = s as i128;
        let t2x: i128 = tdiv128((ni_over_nt as i128) * (n.x as i128) * dt, f2);
        let t2y: i128 = tdiv128((ni_over_nt as i128) * (n.y as i128) * dt, f2);
        let t2z: i128 = tdiv128((ni_over_nt as i128) * (n.z as i128) * dt, f2);
        let t3x: i128 = tdiv128((n.x as i128) * si, 65536);
        let t3y: i128 = tdiv128((n.y as i128) * si, 65536);
        let t3z: i128 = tdiv128((n.z as i128) * si, 65536);
        Some(
            Vec3 {
                x: fx_mul(ni_over_nt, uv.x) - (t2x as i64) - (t3x as i64),
                y: fx_mul(ni_over_nt, uv.y) - (t2y as i64) - (t3y as i64),
                z: fx_mul(ni_over_nt, uv.z) - (t2z as i64) - (t3z as i64),
            },
        )
    } else {
        None
    }
}

/// A relative index ratio of exactly one leaves the direction of light
/// unchanged: refraction returns the normalized incoming vector itself
/// whenever the incoming ray runs against the normal.
pub proof fn lemma_refract_identity(v: V3, n: V3)
    requires
        tdiv(v3_dot(v3_norm(v), n), FX_ONE as int) < 0,
    ensures
        v3_refract(v, n, FX_ONE as int) == Some(v3_norm(v)),
{
    let f = FX_ONE as int;
    let f2 = f * f;
    let uv = v3_norm(v);
    let dt = tdiv(v3_dot(uv, n), f);
    let det2 = f2 - tdiv(f * f * (f2 - dt * dt), f2);
    assert(f * f * (f2 - dt * dt) == f2 * (f2 - dt * dt)) by (nonlinear_arith)
        requires
            f2 == f * f;
    crate::fixed::lemma_tdiv_cancel(f2 - dt * dt, f2);
    assert(det2 == dt * dt);
    assert(dt * dt > 0) by (nonlinear_arith)
        requires
            dt < 0;
    let m: nat = (-dt) as nat;
    assert(m * m == dt * dt) by (nonlinear_arith)
        requires
            m == -dt;
    lemma_isqrt_square(m);
    let s = isqrt_spec(det2 as nat) as int;
    assert(s == -dt);
    lemma_refract_identity_component(n.x, uv.x, dt, s);
    lemma_refract_identity_component(n.y, uv.y, dt, s);
    lemma_refract_identity_component(n.z, uv.z, dt, s);
}

/// One component of the identity refraction: the scaled term is the
/// component itself and the two normal terms cancel.
proof fn lemma_refract_identity_component(c: int, u: int, dt: int, s: int)
    requires
        s == -dt,
    ensures
        fx_mul_spec(FX_ONE as int, u) - tdiv((FX_ONE as int) * c * dt, (FX_ONE as int) * (FX_ONE as int))
            - tdiv(c * s, FX_ONE as int) == u,
{
    let f = FX_ONE as int;
    crate::fixed::lemma_tdiv_cancel(u, f);
    assert(f * c * dt == f * (c * dt)) by (nonlinear_arith);
    crate::fixed::lemma_tdiv_scale(f, c * dt, f);
    assert(c * s == -(c * dt)) by (nonlinear_arith)
        requires
            s == -dt;
    crate::fixed::lemma_tdiv_neg(c * dt, f);
}

/// `|p| <= m` gives `|tdiv(p, d)| <= m / d`.
pub proof fn lemma_tdiv_mag_monotone(p: int, m: int, d: int)
    requires
        -m <= p <= m,
        0 <= m,
        0 < d,
    ensures
        -(m / d) <= tdiv(p, d) <= m / d,
{
    if p >= 0 {
        vstd::arithmetic::div_mod::lemma_div_is_ordered(p, m, d);
        vstd::arithmetic::div_mod::lemma_div_pos_is_pos(p, d);
    } else {
        vstd::arithmetic::div_mod::lemma_div_is_ordered(-p, m, d);
        vstd::arithmetic::div_mod::lemma_div_pos_is_pos(-p, d);
    }
}

} // verus!
