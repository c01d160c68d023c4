//! Integer-unit plane geometry: vectors, axis-aligned bounding boxes,
//! and fixed-point affine transforms.
//!
//! Document coordinates are integer document units. A transform maps a
//! shape's local frame into document space; its entries are fixed-point
//! numbers scaled by [`TF_UNIT`], and every fixed-point division rounds
//! toward minus infinity (floor).

use vstd::prelude::*;
use vstd::arithmetic::div_mod::lemma_div_nonincreasing;

verus! {

/// Fixed-point scale of transform entries: an entry `e` stands for the
/// real number `e / TF_UNIT`.
pub const TF_UNIT: i64 = 65536;

/// Largest magnitude a transform entry may have while staying well-formed.
pub const TF_MAX: i64 = 0x4_0000_0000_0000;

/// Largest extent (width or height) of a shape's local frame, in units.
pub const EXTENT_MAX: i64 = 1048576;

/// Largest magnitude a document coordinate of a well-formed shape's
/// bounds can reach.
pub const COORD_MAX: i64 = 0x100_0000_0000_0000;

/// A point or offset in document space, in integer document units.
#[derive(Clone, Copy, PartialEq, Eq, Structural, Debug)]
pub struct Vec2 {
    pub x: i64,
    pub y: i64,
}

impl Vec2 {
    pub fn new(x: i64, y: i64) -> (r: Vec2)
        ensures
            r == (Vec2 { x, y }),
    {
        Vec2 { x, y }
    }
}

/// Floor division: rounds the exact quotient toward minus infinity (for
/// a positive divisor this is Euclidean division). This is the rounding
/// rule of every fixed-point operation here; floor, unlike rounding
/// toward zero, satisfies `floor((a + c*b)/b) == floor(a/b) + c`, so a
/// whole-unit translation shifts every coordinate exactly.
pub open spec fn div_floor(a: int, b: int) -> int
    recommends
        b > 0,
{
    a / b
}

/// Floor division on machine integers, matching [`div_floor`].
pub fn div_floor_i128(a: i128, b: i128) -> (r: i128)
    requires
        b > 0,
        a > i128::MIN,
    ensures
        r == div_floor(a as int, b as int),
        a >= 0 ==> 0 <= r <= a,
        a < 0 ==> -a >= r && r <= 0,
{
    if a >= 0 {
        let q: u128 = (a as u128) / (b as u128);
        proof {
            lemma_div_nonincreasing(a as int, b as int);
            lemma_div_pos(a as int, b as int);
        }
        q as i128
    } else {
        let n: u128 = (-a) as u128;
        let bb: u128 = b as u128;
        let q: u128 = (n + bb - 1) / bb;
        proof {
            lemma_neg_ceil((-a) as int, b as int);
        }
        -(q as i128)
    }
}

proof fn lemma_div_pos(x: int, d: int)
    requires
        0 <= x,
        0 < d,
    ensures
        0 <= x / d,
{
    vstd::arithmetic::div_mod::lemma_div_pos_is_pos(x, d);
}

/// Floor division of a negative numerator is the negated rounded-up
/// quotient of its magnitude: `(-n)/b == -((n + b - 1)/b)`, a quotient
/// that stays within `[0, n]`.
proof fn lemma_neg_ceil(n: int, b: int)
    requires
        n > 0,
        b > 0,
    ensures
        (-n) / b == -((n + b - 1) / b),
        0 <= (n + b - 1) / b <= n,
        (-n) / b <= 0,
{
    let q0 = n / b;
    let r0 = n % b;
    vstd::arithmetic::div_mod::lemma_fundamental_div_mod(n, b);
    vstd::arithmetic::div_mod::lemma_mod_bound(n, b);
    lemma_div_pos(n, b);
    if r0 == 0 {
        assert(n + b - 1 == b * q0 + (b - 1));
        vstd::arithmetic::div_mod::lemma_fundamental_div_mod_converse_div(
            n + b - 1, b, q0, b - 1);
        vstd::arithmetic::mul::lemma_mul_unary_negation(b, q0);
        assert(-n == b * (-q0) + 0);
        vstd::arithmetic::div_mod::lemma_fundamental_div_mod_converse_div(-n, b, -q0, 0);
    } else {
        vstd::arithmetic::mul::lemma_mul_is_distributive_add(b, q0, 1);
        assert(n + b - 1 == b * (q0 + 1) + (r0 - 1));
        vstd::arithmetic::div_mod::lemma_fundamental_div_mod_converse_div(
            n + b - 1, b, q0 + 1, r0 - 1);
        vstd::arithmetic::mul::lemma_mul_is_distributive_add(b, -q0, -1);
        vstd::arithmetic::mul::lemma_mul_unary_negation(b, q0);
        assert(b * (-q0 - 1) == -(b * q0) - b);
        assert(-n == b * (-q0 - 1) + (b - r0));
        vstd::arithmetic::div_mod::lemma_fundamental_div_mod_converse_div(
            -n, b, -q0 - 1, b - r0);
    }
    assert(n + b - 1 <= n * b) by (nonlinear_arith)
        requires
            n >= 1,
            b >= 1,
    ;
    vstd::arithmetic::div_mod::lemma_div_is_ordered(n + b - 1, n * b, b);
    vstd::arithmetic::mul::lemma_mul_is_commutative(b, n);
    vstd::arithmetic::div_mod::lemma_div_multiples_vanish(n, b);
    lemma_div_pos(n + b - 1, b);
}

/// A numerator within `m * b` keeps the floored quotient within `m`.
pub(crate) proof fn lemma_div_floor_bounded(a: int, b: int, m: int)
    requires
        b > 0,
        0 <= m,
        -(m * b) <= a,
        a <= m * b,
    ensures
        -m <= div_floor(a, b) <= m,
{
    vstd::arithmetic::mul::lemma_mul_is_commutative(b, m);
    vstd::arithmetic::div_mod::lemma_div_multiples_vanish(m, b);
    vstd::arithmetic::div_mod::lemma_div_multiples_vanish(-m, b);
    vstd::arithmetic::mul::lemma_mul_unary_negation(b, m);
    vstd::arithmetic::div_mod::lemma_div_is_ordered(a, m * b, b);
    vstd::arithmetic::div_mod::lemma_div_is_ordered(-(m * b), a, b);
}

/// An affine map from a shape's local frame into document space:
/// `world = floor((linear * local + translation) / TF_UNIT)`.
/// All six entries are fixed-point numbers scaled by [`TF_UNIT`];
/// the translation is therefore `TF_UNIT` times its value in units.
#[derive(Clone, Copy, PartialEq, Eq, Structural, Debug)]
pub struct Transform {
    pub m11: i64,
    pub m12: i64,
    pub m21: i64,
    pub m22: i64,
    pub tx: i64,
    pub ty: i64,
}

impl Transform {
    /// All entries small enough that applying and composing stays in range.
    pub open spec fn wf(self) -> bool {
        &&& -TF_MAX <= self.m11 <= TF_MAX
        &&& -TF_MAX <= self.m12 <= TF_MAX
        &&& -TF_MAX <= self.m21 <= TF_MAX
        &&& -TF_MAX <= self.m22 <= TF_MAX
        &&& -TF_MAX <= self.tx <= TF_MAX
        &&& -TF_MAX <= self.ty <= TF_MAX
    }

    /// The identity map.
    pub open spec fn identity_spec() -> Transform {
        Transform { m11: TF_UNIT, m12: 0, m21: 0, m22: TF_UNIT, tx: 0, ty: 0 }
    }

    pub fn identity() -> (r: Transform)
        ensures
            r == Transform::identity_spec(),
            r.wf(),
    {
        Transform { m11: TF_UNIT, m12: 0, m21: 0, m22: TF_UNIT, tx: 0, ty: 0 }
    }

    /// A pure translation by `off` document units.
    pub open spec fn translation_spec(off: Vec2) -> Transform {
        Transform {
            m11: TF_UNIT,
            m12: 0,
            m21: 0,
            m22: TF_UNIT,
            tx: (off.x * TF_UNIT) as i64,
            ty: (off.y * TF_UNIT) as i64,
        }
    }

    pub fn translation(off: Vec2) -> (r: Transform)
        requires
            -EXTENT_MAX * 1024 <= off.x <= EXTENT_MAX * 1024,
            -EXTENT_MAX * 1024 <= off.y <= EXTENT_MAX * 1024,
        ensures
            r == Transform::translation_spec(off),
            r.wf(),
    {
        Transform { m11: TF_UNIT, m12: 0, m21: 0, m22: TF_UNIT, tx: off.x * TF_UNIT, ty: off.y * TF_UNIT }
    }

    /// The document-space point of the local point `(lx, ly)` under `self`.
    pub open spec fn apply_spec(self, lx: int, ly: int) -> (int, int) {
        (
            div_floor(self.m11 * lx + self.m12 * ly + self.tx, TF_UNIT as int),
            div_floor(self.m21 * lx + self.m22 * ly + self.ty, TF_UNIT as int),
        )
    }

    /// Applies the transform to a local point.
    pub fn apply(&self, lx: i64, ly: i64) -> (r: (i64, i64))
        requires
            self.wf(),
            0 <= lx <= EXTENT_MAX,
            0 <= ly <= EXTENT_MAX,
        ensures
            (r.0 as int, r.1 as int) == self.apply_spec(lx as int, ly as int),
    {
        proof {
            lemma_mul_bound(self.m11 as int, lx as int, TF_MAX as int, EXTENT_MAX as int);
            lemma_mul_bound(self.m12 as int, ly as int, TF_MAX as int, EXTENT_MAX as int);
            lemma_mul_bound(self.m21 as int, lx as int, TF_MAX as int, EXTENT_MAX as int);
            lemma_mul_bound(self.m22 as int, ly as int, TF_MAX as int, EXTENT_MAX as int);
        }
        let xn: i128 = (self.m11 as i128) * (lx as i128) + (self.m12 as i128) * (ly as i128)
            + (self.tx as i128);
        let yn: i128 = (self.m21 as i128) * (lx as i128) + (self.m22 as i128) * (ly as i128)
            + (self.ty as i128);
        proof {
            lemma_div_floor_bounded(xn as int, TF_UNIT as int, 0x100_0000_0000_0000);
            lemma_div_floor_bounded(yn as int, TF_UNIT as int, 0x100_0000_0000_0000);
        }
        let x: i128 = div_floor_i128(xn, TF_UNIT as i128);
        let y: i128 = div_floor_i128(yn, TF_UNIT as i128);
        (x as i64, y as i64)
    }

    /// Fixed-point composition: the map that applies `b` first, then `a`,
    /// with each resulting entry rounded by [`div_floor`].
    pub open spec fn compose_spec(a: Transform, b: Transform) -> Transform {
        Transform {
            m11: div_floor(a.m11 * b.m11 + a.m12 * b.m21, TF_UNIT as int) as i64,
            m12: div_floor(a.m11 * b.m12 + a.m12 * b.m22, TF_UNIT as int) as i64,
            m21: div_floor(a.m21 * b.m11 + a.m22 * b.m21, TF_UNIT as int) as i64,
            m22: div_floor(a.m21 * b.m12 + a.m22 * b.m22, TF_UNIT as int) as i64,
            tx: (div_floor(a.m11 * b.tx + a.m12 * b.ty, TF_UNIT as int) + a.tx) as i64,
            ty: (div_floor(a.m21 * b.tx + a.m22 * b.ty, TF_UNIT as int) + a.ty) as i64,
        }
    }

    /// Whether the composition of `a` after `b` keeps every entry within
    /// the well-formed range (stated over the exact quotients, before any
    /// narrowing to a machine integer).
    pub open spec fn compose_in_range(a: Transform, b: Transform) -> bool {
        let u = TF_UNIT as int;
        &&& -TF_MAX <= div_floor(a.m11 * b.m11 + a.m12 * b.m21, u) <= TF_MAX
        &&& -TF_MAX <= div_floor(a.m11 * b.m12 + a.m12 * b.m22, u) <= TF_MAX
        &&& -TF_MAX <= div_floor(a.m21 * b.m11 + a.m22 * b.m21, u) <= TF_MAX
        &&& -TF_MAX <= div_floor(a.m21 * b.m12 + a.m22 * b.m22, u) <= TF_MAX
        &&& -TF_MAX <= div_floor(a.m11 * b.tx + a.m12 * b.ty, u) + a.tx <= TF_MAX
        &&& -TF_MAX <= div_floor(a.m21 * b.tx + a.m22 * b.ty, u) + a.ty <= TF_MAX
    }

    /// Composes `a` after `b`; `None` when an entry would leave the
    /// well-formed range.
    pub fn compose(a: &Transform, b: &Transform) -> (r: Option<Transform>)
        requires
            a.wf(),
            b.wf(),
        ensures
            r matches Some(c) ==> c == Transform::compose_spec(*a, *b) && c.wf(),
            r is Some <==> Transform::compose_in_range(*a, *b),
    {
        proof {
            lemma_mul_bound(a.m11 as int, b.m11 as int, TF_MAX as int, TF_MAX as int);
            lemma_mul_bound(a.m12 as int, b.m21 as int, TF_MAX as int, TF_MAX as int);
            lemma_mul_bound(a.m11 as int, b.m12 as int, TF_MAX as int, TF_MAX as int);
            lemma_mul_bound(a.m12 as int, b.m22 as int, TF_MAX as int, TF_MAX as int);
            lemma_mul_bound(a.m21 as int, b.m11 as int, TF_MAX as int, TF_MAX as int);
            lemma_mul_bound(a.m22 as int, b.m21 as int, TF_MAX as int, TF_MAX as int);
            lemma_mul_bound(a.m21 as int, b.m12 as int, TF_MAX as int, TF_MAX as int);
            lemma_mul_bound(a.m22 as int, b.m22 as int, TF_MAX as int, TF_MAX as int);
            lemma_mul_bound(a.m11 as int, b.tx as int, TF_MAX as int, TF_MAX as int);
            lemma_mul_bound(a.m12 as int, b.ty as int, TF_MAX as int, TF_MAX as int);
            lemma_mul_bound(a.m21 as int, b.tx as int, TF_MAX as int, TF_MAX as int);
            lemma_mul_bound(a.m22 as int, b.ty as int, TF_MAX as int, TF_MAX as int);
        }
        let u: i128 = TF_UNIT as i128;
        let m11: i128 = div_floor_i128(
            (a.m11 as i128) * (b.m11 as i128) + (a.m12 as i128) * (b.m21 as i128), u);
        let m12: i128 = div_floor_i128(
            (a.m11 as i128) * (b.m12 as i128) + (a.m12 as i128) * (b.m22 as i128), u);
        let m21: i128 = div_floor_i128(
            (a.m21 as i128) * (b.m11 as i128) + (a.m22 as i128) * (b.m21 as i128), u);
        let m22: i128 = div_floor_i128(
            (a.m21 as i128) * (b.m12 as i128) + (a.m22 as i128) * (b.m22 as i128), u);
        let tx: i128 = div_floor_i128(
            (a.m11 as i128) * (b.tx as i128) + (a.m12 as i128) * (b.ty as i128), u)
            + (a.tx as i128);
        let ty: i128 = div_floor_i128(
            (a.m21 as i128) * (b.tx as i128) + (a.m22 as i128) * (b.ty as i128), u)
            + (a.ty as i128);
        let lim: i128 = TF_MAX as i128;
        if -lim <= m11 && m11 <= lim && -lim <= m12 && m12 <= lim && -lim <= m21 && m21 <= lim
            && -lim <= m22 && m22 <= lim && -lim <= tx && tx <= lim && -lim <= ty && ty <= lim {
            Some(Transform {
                m11: m11 as i64,
                m12: m12 as i64,
                m21: m21 as i64,
                m22: m22 as i64,
                tx: tx as i64,
                ty: ty as i64,
            })
        } else {
            None
        }
    }
}

/// `|x| <= xb` and `|y| <= yb` bound the product `x * y` by `xb * yb`.
pub(crate) proof fn lemma_mul_bound(x: int, y: int, xb: int, yb: int)
    requires
        -xb <= x <= xb,
        -yb <= y <= yb,
        0 <= xb,
        0 <= yb,
    ensures
        -(xb * yb) <= x * y <= xb * yb,
{
    assert(-(xb * yb) <= x * y <= xb * yb) by (nonlinear_arith)
        requires
            -xb <= x <= xb,
            -yb <= y <= yb,
            0 <= xb,
            0 <= yb,
    ;
}

/// An axis-aligned box in document space; `mins` is the top-left corner.
#[derive(Clone, Copy, PartialEq, Eq, Structural, Debug)]
pub struct Aabb {
    pub mins: Vec2,
    pub maxs: Vec2,
}

impl Aabb {
    pub open spec fn wf(self) -> bool {
        self.mins.x <= self.maxs.x && self.mins.y <= self.maxs.y
    }

    pub fn new(mins: Vec2, maxs: Vec2) -> (r: Aabb)
        ensures
            r == (Aabb { mins, maxs }),
    {
        Aabb { mins, maxs }
    }

    /// Whether `self` contains `other` entirely (borders included).
    pub open spec fn contains_spec(self, other: Aabb) -> bool {
        &&& self.mins.x <= other.mins.x
        &&& self.mins.y <= other.mins.y
        &&& other.maxs.x <= self.maxs.x
        &&& other.maxs.y <= self.maxs.y
    }

    pub fn contains(&self, other: &Aabb) -> (r: bool)
        ensures
            r == self.contains_spec(*other),
    {
        self.mins.x <= other.mins.x && self.mins.y <= other.mins.y
            && other.maxs.x <= self.maxs.x && other.maxs.y <= self.maxs.y
    }

    /// Whether the two boxes overlap (touching borders count).
    pub open spec fn intersects_spec(self, other: Aabb) -> bool {
        &&& self.mins.x <= other.maxs.x
        &&& other.mins.x <= self.maxs.x
        &&& self.mins.y <= other.maxs.y
        &&& other.mins.y <= self.maxs.y
    }

    /// The overlapping region of the two boxes.
    pub open spec fn intersection_spec(self, other: Aabb) -> Aabb {
        Aabb {
            mins: Vec2 {
                x: if self.mins.x >= other.mins.x { self.mins.x } else { other.mins.x },
                y: if self.mins.y >= other.mins.y { self.mins.y } else { other.mins.y },
            },
            maxs: Vec2 {
                x: if self.maxs.x <= other.maxs.x { self.maxs.x } else { other.maxs.x },
                y: if self.maxs.y <= other.maxs.y { self.maxs.y } else { other.maxs.y },
            },
        }
    }

    pub fn intersection(&self, other: &Aabb) -> (r: Option<Aabb>)
        ensures
            r is Some <==> self.intersects_spec(*other),
            r matches Some(b) ==> b == self.intersection_spec(*other),
    {
        if self.mins.x <= other.maxs.x && other.mins.x <= self.maxs.x
            && self.mins.y <= other.maxs.y && other.mins.y <= self.maxs.y {
            Some(Aabb {
                mins: Vec2 {
                    x: if self.mins.x >= other.mins.x { self.mins.x } else { other.mins.x },
                    y: if self.mins.y >= other.mins.y { self.mins.y } else { other.mins.y },
                },
                maxs: Vec2 {
                    x: if self.maxs.x <= other.maxs.x { self.maxs.x } else { other.maxs.x },
                    y: if self.maxs.y <= other.maxs.y { self.maxs.y } else { other.maxs.y },
                },
            })
        } else {
            None
        }
    }
}

/// One mutation step of a shape's transform.
#[derive(Clone, Copy, PartialEq, Eq, Structural, Debug)]
pub enum TransformOp {
    /// Move by an offset in document units.
    Translate(Vec2),
    /// Rotate by the angle whose cosine and sine, scaled by [`TF_UNIT`],
    /// are given, about a center in document units.
    Rotate { cos_u: i64, sin_u: i64, center: Vec2 },
    /// Scale the two axes by factors scaled by [`TF_UNIT`], about the origin.
    Scale { sx_u: i64, sy_u: i64 },
}

/// The document-space map of one mutation step. A rotation about a center
/// is the composition: move the center to the origin, rotate, move it back.
pub open spec fn op_transform(op: TransformOp) -> Transform {
    match op {
        TransformOp::Translate(off) => Transform::translation_spec(off),
        TransformOp::Rotate { cos_u, sin_u, center } => Transform::compose_spec(
            Transform::translation_spec(center),
            Transform::compose_spec(
                Transform { m11: cos_u, m12: (-sin_u) as i64, m21: sin_u, m22: cos_u, tx: 0, ty: 0 },
                Transform::translation_spec(Vec2 { x: (-center.x) as i64, y: (-center.y) as i64 }),
            ),
        ),
        TransformOp::Scale { sx_u, sy_u } => Transform { m11: sx_u, m12: 0, m21: 0, m22: sy_u, tx: 0, ty: 0 },
    }
}

/// The magnitude limits on a step's parameters.
pub open spec fn op_args_ok(op: TransformOp) -> bool {
    match op {
        TransformOp::Translate(off) => {
            &&& -EXTENT_MAX * 1024 <= off.x <= EXTENT_MAX * 1024
            &&& -EXTENT_MAX * 1024 <= off.y <= EXTENT_MAX * 1024
        }
        TransformOp::Rotate { cos_u, sin_u, center } => {
            &&& -TF_UNIT <= cos_u <= TF_UNIT
            &&& -TF_UNIT <= sin_u <= TF_UNIT
            &&& -EXTENT_MAX * 1024 <= center.x <= EXTENT_MAX * 1024
            &&& -EXTENT_MAX * 1024 <= center.y <= EXTENT_MAX * 1024
        }
        TransformOp::Scale { sx_u, sy_u } => {
            &&& -TF_MAX <= sx_u <= TF_MAX
            &&& -TF_MAX <= sy_u <= TF_MAX
        }
    }
}

/// Whether the compositions inside the step's own map stay in range.
pub open spec fn op_in_range(op: TransformOp) -> bool {
    match op {
        TransformOp::Rotate { cos_u, sin_u, center } => {
            let rot = Transform { m11: cos_u, m12: (-sin_u) as i64, m21: sin_u, m22: cos_u, tx: 0, ty: 0 };
            let back = Transform::translation_spec(Vec2 { x: (-center.x) as i64, y: (-center.y) as i64 });
            &&& Transform::compose_in_range(rot, back)
            &&& Transform::compose_in_range(
                Transform::translation_spec(center),
                Transform::compose_spec(rot, back),
            )
        }
        _ => true,
    }
}

/// A rectangle shape: a local frame `[0, extents.x] x [0, extents.y]`
/// together with the transform that places it in document space.
#[derive(Clone, Copy, PartialEq, Eq, Structural, Debug)]
pub struct Rectangle {
    pub extents: Vec2,
    pub transform: Transform,
}

impl Rectangle {
    pub open spec fn wf(self) -> bool {
        &&& 0 <= self.extents.x <= EXTENT_MAX
        &&& 0 <= self.extents.y <= EXTENT_MAX
        &&& self.transform.wf()
    }

    /// Axis-aligned bounds of the four transformed corners of the local
    /// frame: always derived from the current transform, never cached.
    pub open spec fn bounds_spec(self) -> Aabb {
        rect_bounds(self.transform, self.extents)
    }

    pub fn new(extents: Vec2, transform: Transform) -> (r: Rectangle)
        ensures
            r == (Rectangle { extents, transform }),
    {
        Rectangle { extents, transform }
    }

    pub fn bounds(&self) -> (r: Aabb)
        requires
            self.wf(),
        ensures
            r == self.bounds_spec(),
            r.wf(),
    {
        let c00 = self.transform.apply(0, 0);
        let c10 = self.transform.apply(self.extents.x, 0);
        let c01 = self.transform.apply(0, self.extents.y);
        let c11 = self.transform.apply(self.extents.x, self.extents.y);
        let min_x = min4(c00.0, c10.0, c01.0, c11.0);
        let max_x = max4(c00.0, c10.0, c01.0, c11.0);
        let min_y = min4(c00.1, c10.1, c01.1, c11.1);
        let max_y = max4(c00.1, c10.1, c01.1, c11.1);
        Aabb { mins: Vec2 { x: min_x, y: min_y }, maxs: Vec2 { x: max_x, y: max_y } }
    }

    /// Applies one mutation step: the new transform is the step's map
    /// composed after the current one. Returns whether the step fit in
    /// range; out of range, the rectangle is left untouched.
    pub fn apply_op(&mut self, op: TransformOp) -> (r: bool)
        requires
            old(self).wf(),
            op_args_ok(op),
        ensures
            r == (op_in_range(op) && Transform::compose_in_range(op_transform(op), old(self).transform)),
            r ==> *final(self) == apply_op_spec(*old(self), op) && final(self).wf(),
            !r ==> *final(self) == *old(self),
    {
        match op_matrix(op) {
            Some(m) => {
                match Transform::compose(&m, &self.transform) {
                    Some(t) => {
                        self.transform = t;
                        true
                    }
                    None => false,
                }
            }
            None => false,
        }
    }

    /// Move the rectangle by `off` document units.
    pub fn translate(&mut self, off: Vec2) -> (r: bool)
        requires
            old(self).wf(),
            -EXTENT_MAX * 1024 <= off.x <= EXTENT_MAX * 1024,
            -EXTENT_MAX * 1024 <= off.y <= EXTENT_MAX * 1024,
        ensures
            r == Transform::compose_in_range(op_transform(TransformOp::Translate(off)), old(self).transform),
            r ==> *final(self) == apply_op_spec(*old(self), TransformOp::Translate(off)) && final(self).wf(),
            !r ==> *final(self) == *old(self),
    {
        self.apply_op(TransformOp::Translate(off))
    }

    /// Rotate about `center` by the angle with the given scaled cosine
    /// and sine.
    pub fn rotate(&mut self, cos_u: i64, sin_u: i64, center: Vec2) -> (r: bool)
        requires
            old(self).wf(),
            -TF_UNIT <= cos_u <= TF_UNIT,
            -TF_UNIT <= sin_u <= TF_UNIT,
            -EXTENT_MAX * 1024 <= center.x <= EXTENT_MAX * 1024,
            -EXTENT_MAX * 1024 <= center.y <= EXTENT_MAX * 1024,
    ensures
            r == (op_in_range(TransformOp::Rotate { cos_u, sin_u, center })
                && Transform::compose_in_range(
                    op_transform(TransformOp::Rotate { cos_u, sin_u, center }), old(self).transform)),
            r ==> *final(self) == apply_op_spec(*old(self), TransformOp::Rotate { cos_u, sin_u, center })
                && final(self).wf(),
            !r ==> *final(self) == *old(self),
    {
        self.apply_op(TransformOp::Rotate { cos_u, sin_u, center })
    }

    /// Scale both axes about the origin by factors scaled by [`TF_UNIT`].
    pub fn scale(&mut self, sx_u: i64, sy_u: i64) -> (r: bool)
        requires
            old(self).wf(),
            -TF_MAX <= sx_u <= TF_MAX,
            -TF_MAX <= sy_u <= TF_MAX,
        ensures
            r == Transform::compose_in_range(op_transform(TransformOp::Scale { sx_u, sy_u }), old(self).transform),
            r ==> *final(self) == apply_op_spec(*old(self), TransformOp::Scale { sx_u, sy_u }) && final(self).wf(),
            !r ==> *final(self) == *old(self),
    {
        self.apply_op(TransformOp::Scale { sx_u, sy_u })
    }
}

/// Executable form of [`op_transform`]; `None` when a composition inside
/// the step's own map leaves the well-formed range.
fn op_matrix(op: TransformOp) -> (r: Option<Transform>)
    requires
        op_args_ok(op),
    ensures
        r is Some <==> op_in_range(op),
        r matches Some(t) ==> t == op_transform(op) && t.wf(),
{
    match op {
        TransformOp::Translate(off) => Some(Transform::translation(off)),
        TransformOp::Rotate { cos_u, sin_u, center } => {
            let rot = Transform { m11: cos_u, m12: -sin_u, m21: sin_u, m22: cos_u, tx: 0, ty: 0 };
            let back = Transform::translation(Vec2 { x: -center.x, y: -center.y });
            match Transform::compose(&rot, &back) {
                Some(inner) => {
                    let fwd = Transform::translation(center);
                    Transform::compose(&fwd, &inner)
                }
                None => None,
            }
        }
        TransformOp::Scale { sx_u, sy_u } => Some(
            Transform { m11: sx_u, m12: 0, m21: 0, m22: sy_u, tx: 0, ty: 0 },
        ),
    }
}

/// The bounds of the local frame `[0, ex.x] x [0, ex.y]` under `t`.
pub open spec fn rect_bounds(t: Transform, ex: Vec2) -> Aabb {
    let c00 = t.apply_spec(0, 0);
    let c10 = t.apply_spec(ex.x as int, 0);
    let c01 = t.apply_spec(0, ex.y as int);
    let c11 = t.apply_spec(ex.x as int, ex.y as int);
    Aabb {
        mins: Vec2 {
            x: min4_spec(c00.0, c10.0, c01.0, c11.0) as i64,
            y: min4_spec(c00.1, c10.1, c01.1, c11.1) as i64,
        },
        maxs: Vec2 {
            x: max4_spec(c00.0, c10.0, c01.0, c11.0) as i64,
            y: max4_spec(c00.1, c10.1, c01.1, c11.1) as i64,
        },
    }
}

pub open spec fn min4_spec(a: int, b: int, c: int, d: int) -> int {
    let ab = if a <= b { a } else { b };
    let cd = if c <= d { c } else { d };
    if ab <= cd { ab } else { cd }
}

pub open spec fn max4_spec(a: int, b: int, c: int, d: int) -> int {
    let ab = if a >= b { a } else { b };
    let cd = if c >= d { c } else { d };
    if ab >= cd { ab } else { cd }
}

fn min4(a: i64, b: i64, c: i64, d: i64) -> (r: i64)
    ensures
        r == min4_spec(a as int, b as int, c as int, d as int),
{
    let ab = if a <= b { a } else { b };
    let cd = if c <= d { c } else { d };
    if ab <= cd { ab } else { cd }
}

fn max4(a: i64, b: i64, c: i64, d: i64) -> (r: i64)
    ensures
        r == max4_spec(a as int, b as int, c as int, d as int),
{
    let ab = if a >= b { a } else { b };
    let cd = if c >= d { c } else { d };
    if ab >= cd { ab } else { cd }
}

/// The rectangle after one mutation step.
pub open spec fn apply_op_spec(r: Rectangle, op: TransformOp) -> Rectangle {
    Rectangle {
        extents: r.extents,
        transform: Transform::compose_spec(op_transform(op), r.transform),
    }
}

/// The rectangle after a whole sequence of mutation steps, first step first.
pub open spec fn apply_ops_spec(r: Rectangle, ops: Seq<TransformOp>) -> Rectangle
    decreases ops.len(),
{
    if ops.len() == 0 {
        r
    } else {
        apply_ops_spec(apply_op_spec(r, ops[0]), ops.drop_first())
    }
}

/// The single transform equivalent to a whole sequence of steps applied
/// after `t0`, composed incrementally in application order.
pub open spec fn compose_ops_spec(t0: Transform, ops: Seq<TransformOp>) -> Transform
    decreases ops.len(),
{
    if ops.len() == 0 {
        t0
    } else {
        compose_ops_spec(Transform::compose_spec(op_transform(ops[0]), t0), ops.drop_first())
    }
}

/// Multiplying by `b` and then dividing by `b` gives the
/// factor back exactly.
proof fn lemma_div_floor_mul(b: int, m: int)
    requires
        b > 0,
    ensures
        div_floor(b * m, b) == m,
{
    vstd::arithmetic::div_mod::lemma_div_multiples_vanish(m, b);
    if b * m >= 0 {
    } else {
        vstd::arithmetic::mul::lemma_mul_unary_negation(b, m);
        vstd::arithmetic::div_mod::lemma_div_multiples_vanish(-m, b);
    }
}

/// Composing the identity on the left changes nothing and always stays in
/// range.
pub proof fn lemma_compose_identity_left(t: Transform)
    requires
        t.wf(),
    ensures
        Transform::compose_spec(Transform::identity_spec(), t) == t,
        Transform::compose_in_range(Transform::identity_spec(), t),
{
    let u = TF_UNIT as int;
    lemma_div_floor_mul(u, t.m11 as int);
    lemma_div_floor_mul(u, t.m12 as int);
    lemma_div_floor_mul(u, t.m21 as int);
    lemma_div_floor_mul(u, t.m22 as int);
    lemma_div_floor_mul(u, t.tx as int);
    lemma_div_floor_mul(u, t.ty as int);
    assert(Transform::compose_spec(Transform::identity_spec(), t) == t);
}

/// Two translations compose exactly into the translation by the summed
/// offset: no rounding is involved, so chains of translations may be
/// regrouped freely.
pub proof fn lemma_translations_compose_exactly(a: Vec2, b: Vec2)
    requires
        -EXTENT_MAX * 1024 <= a.x <= EXTENT_MAX * 1024,
        -EXTENT_MAX * 1024 <= a.y <= EXTENT_MAX * 1024,
        -EXTENT_MAX * 1024 <= b.x <= EXTENT_MAX * 1024,
        -EXTENT_MAX * 1024 <= b.y <= EXTENT_MAX * 1024,
    ensures
        Transform::compose_spec(Transform::translation_spec(a), Transform::translation_spec(b))
            == Transform::translation_spec(Vec2 { x: (a.x + b.x) as i64, y: (a.y + b.y) as i64 }),
{
    let u = TF_UNIT as int;
    lemma_div_floor_mul(u, u);
    lemma_div_floor_mul(u, b.x * TF_UNIT);
    lemma_div_floor_mul(u, b.y * TF_UNIT);
}

/// Translating a rectangle shifts its bounds by exactly the offset: the
/// composed transform keeps the linear part and moves the translation by
/// a whole-unit amount, and floor rounding carries a whole-unit shift of
/// the numerator out of the division unchanged.
pub proof fn lemma_translate_shifts_bounds(r: Rectangle, off: Vec2)
    requires
        r.wf(),
        op_args_ok(TransformOp::Translate(off)),
        Transform::compose_in_range(op_transform(TransformOp::Translate(off)), r.transform),
    ensures
        ({
            let b0 = r.bounds_spec();
            let b1 = apply_op_spec(r, TransformOp::Translate(off)).bounds_spec();
            &&& b1.mins.x == b0.mins.x + off.x
            &&& b1.mins.y == b0.mins.y + off.y
            &&& b1.maxs.x == b0.maxs.x + off.x
            &&& b1.maxs.y == b0.maxs.y + off.y
        }),
{
    let t = r.transform;
    let u = TF_UNIT as int;
    let c = Transform::compose_spec(Transform::translation_spec(off), t);
    vstd::arithmetic::div_mod::lemma_div_multiples_vanish(t.m11 as int, u);
    vstd::arithmetic::div_mod::lemma_div_multiples_vanish(t.m12 as int, u);
    vstd::arithmetic::div_mod::lemma_div_multiples_vanish(t.m21 as int, u);
    vstd::arithmetic::div_mod::lemma_div_multiples_vanish(t.m22 as int, u);
    vstd::arithmetic::div_mod::lemma_div_multiples_vanish(t.tx as int, u);
    vstd::arithmetic::div_mod::lemma_div_multiples_vanish(t.ty as int, u);
    assert(c.m11 == t.m11 && c.m12 == t.m12 && c.m21 == t.m21 && c.m22 == t.m22);
    assert(c.tx == t.tx + off.x * TF_UNIT && c.ty == t.ty + off.y * TF_UNIT);
    let ex = r.extents;
    lemma_corner_shift(t, off, 0, 0);
    lemma_corner_shift(t, off, ex.x as int, 0);
    lemma_corner_shift(t, off, 0, ex.y as int);
    lemma_corner_shift(t, off, ex.x as int, ex.y as int);
    lemma_corner_in_range(t, 0, 0);
    lemma_corner_in_range(t, ex.x as int, 0);
    lemma_corner_in_range(t, 0, ex.y as int);
    lemma_corner_in_range(t, ex.x as int, ex.y as int);
}

/// One transformed corner under a translated transform is the original
/// corner shifted by the offset.
proof fn lemma_corner_shift(t: Transform, off: Vec2, lx: int, ly: int)
    requires
        t.wf(),
        -TF_MAX <= t.tx + off.x * TF_UNIT <= TF_MAX,
        -TF_MAX <= t.ty + off.y * TF_UNIT <= TF_MAX,
    ensures
        ({
            let shifted = Transform {
                m11: t.m11,
                m12: t.m12,
                m21: t.m21,
                m22: t.m22,
                tx: (t.tx + off.x * TF_UNIT) as i64,
                ty: (t.ty + off.y * TF_UNIT) as i64,
            };
            &&& shifted.apply_spec(lx, ly).0 == t.apply_spec(lx, ly).0 + off.x
            &&& shifted.apply_spec(lx, ly).1 == t.apply_spec(lx, ly).1 + off.y
        }),
{
    vstd::arithmetic::div_mod::lemma_hoist_over_denominator(
        t.m11 * lx + t.m12 * ly + t.tx, off.x as int, TF_UNIT as nat);
    vstd::arithmetic::div_mod::lemma_hoist_over_denominator(
        t.m21 * lx + t.m22 * ly + t.ty, off.y as int, TF_UNIT as nat);
}

/// The bounds of a well-formed rectangle stay within [`COORD_MAX`] on
/// every coordinate.
pub proof fn lemma_rect_bounds_in_range(r: Rectangle)
    requires
        r.wf(),
    ensures
        -COORD_MAX <= r.bounds_spec().mins.x <= COORD_MAX,
        -COORD_MAX <= r.bounds_spec().mins.y <= COORD_MAX,
        -COORD_MAX <= r.bounds_spec().maxs.x <= COORD_MAX,
        -COORD_MAX <= r.bounds_spec().maxs.y <= COORD_MAX,
        r.bounds_spec().wf(),
{
    let t = r.transform;
    let ex = r.extents;
    lemma_corner_in_range(t, 0, 0);
    lemma_corner_in_range(t, ex.x as int, 0);
    lemma_corner_in_range(t, 0, ex.y as int);
    lemma_corner_in_range(t, ex.x as int, ex.y as int);
}

/// One transformed corner stays within [`COORD_MAX`].
proof fn lemma_corner_in_range(t: Transform, lx: int, ly: int)
    requires
        t.wf(),
        0 <= lx <= EXTENT_MAX,
        0 <= ly <= EXTENT_MAX,
    ensures
        -COORD_MAX <= t.apply_spec(lx, ly).0 <= COORD_MAX,
        -COORD_MAX <= t.apply_spec(lx, ly).1 <= COORD_MAX,
{
    lemma_mul_bound(t.m11 as int, lx, TF_MAX as int, EXTENT_MAX as int);
    lemma_mul_bound(t.m12 as int, ly, TF_MAX as int, EXTENT_MAX as int);
    lemma_mul_bound(t.m21 as int, lx, TF_MAX as int, EXTENT_MAX as int);
    lemma_mul_bound(t.m22 as int, ly, TF_MAX as int, EXTENT_MAX as int);
    lemma_div_floor_bounded(t.m11 * lx + t.m12 * ly + t.tx, TF_UNIT as int, COORD_MAX as int);
    lemma_div_floor_bounded(t.m21 * lx + t.m22 * ly + t.ty, TF_UNIT as int, COORD_MAX as int);
}

/// After any sequence of translate/rotate/scale steps, the rectangle's
/// bounds equal the bounds of its original local extents under the single
/// equivalent composed transform: bounds are always recomputed from the
/// current transform state, and the steps never touch the local extents.
pub proof fn lemma_bounds_after_op_sequence(r: Rectangle, ops: Seq<TransformOp>)
    ensures
        apply_ops_spec(r, ops).extents == r.extents,
        apply_ops_spec(r, ops).transform == compose_ops_spec(r.transform, ops),
        apply_ops_spec(r, ops).bounds_spec() == rect_bounds(compose_ops_spec(r.transform, ops), r.extents),
    decreases ops.len(),
{
    if ops.len() == 0 {
    } else {
        lemma_bounds_after_op_sequence(apply_op_spec(r, ops[0]), ops.drop_first());
    }
}

} // verus!
