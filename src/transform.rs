use vstd::prelude::*;

verus! {

/// Magnitude bound on every integer handed to the exact arithmetic below, so
/// that products of two of them and the sum of two such products fit in `i128`.
pub const BOUND: i128 = 0x4000_0000_0000_0000;

/// A rational number, as a mathematical value.
pub ghost struct Ratio {
    pub num: int,
    pub den: int,
}

impl Ratio {
    /// Two ratios with positive denominators denote the same number.
    pub open spec fn eqv(self, o: Ratio) -> bool {
        self.num * o.den == o.num * self.den
    }

    pub open spec fn of_int(v: int) -> Ratio {
        Ratio { num: v, den: 1 }
    }

    /// `self <= o`, for positive denominators.
    pub open spec fn le(self, o: Ratio) -> bool {
        self.num * o.den <= o.num * self.den
    }
}

/// A map of one axis, `v |-> (m * v + b) / d`, as a mathematical value.
pub ghost struct AxisModel {
    pub m: int,
    pub b: int,
    pub d: int,
}

impl AxisModel {
    /// Invertible, with a positive denominator.
    pub open spec fn wf(self) -> bool {
        self.d > 0 && self.m != 0
    }

    pub open spec fn apply(self, v: Ratio) -> Ratio {
        Ratio { num: self.m * v.num + self.b * v.den, den: self.d * v.den }
    }

    /// `v |-> (d * v - b) / m`, written with a positive denominator.
    pub open spec fn inverse(self) -> AxisModel {
        if self.m > 0 {
            AxisModel { m: self.d, b: -self.b, d: self.m }
        } else {
            AxisModel { m: -self.d, b: self.b, d: -self.m }
        }
    }
}

/// A point with exact rational coordinates.
pub ghost struct PointModel {
    pub x: Ratio,
    pub y: Ratio,
}

impl PointModel {
    pub open spec fn eqv(self, o: PointModel) -> bool {
        self.x.eqv(o.x) && self.y.eqv(o.y)
    }
}

/// An axis-aligned affine transform: a diagonal linear part and a translation.
pub ghost struct TransformModel {
    pub x: AxisModel,
    pub y: AxisModel,
}

impl TransformModel {
    pub open spec fn wf(self) -> bool {
        self.x.wf() && self.y.wf()
    }

    pub open spec fn apply(self, p: PointModel) -> PointModel {
        PointModel { x: self.x.apply(p.x), y: self.y.apply(p.y) }
    }

    pub open spec fn inverse(self) -> TransformModel {
        TransformModel { x: self.x.inverse(), y: self.y.inverse() }
    }
}

pub open spec fn in_bound(v: int) -> bool {
    -BOUND <= v <= BOUND
}

/// An exact rational number `num / den`.
#[derive(Clone, Copy, Debug, PartialEq, Eq, Structural)]
pub struct Frac {
    pub num: i128,
    pub den: i128,
}

impl View for Frac {
    type V = Ratio;

    open spec fn view(&self) -> Ratio {
        Ratio { num: self.num as int, den: self.den as int }
    }
}

impl Frac {
    pub open spec fn wf(self) -> bool {
        self.den > 0
    }

    pub open spec fn bounded(self) -> bool {
        in_bound(self.num as int) && in_bound(self.den as int)
    }

    /// The integer `v` as a fraction.
    pub fn from_int(v: i64) -> (r: Frac)
        ensures
            r@ == Ratio::of_int(v as int),
            r.wf(),
    {
        Frac { num: v as i128, den: 1 }
    }
}

/// An exact point.
#[derive(Clone, Copy, Debug, PartialEq, Eq, Structural)]
pub struct Point {
    pub x: Frac,
    pub y: Frac,
}

impl View for Point {
    type V = PointModel;

    open spec fn view(&self) -> PointModel {
        PointModel { x: self.x@, y: self.y@ }
    }
}

impl Point {
    pub open spec fn wf(self) -> bool {
        self.x.wf() && self.y.wf()
    }

    pub open spec fn bounded(self) -> bool {
        self.x.bounded() && self.y.bounded()
    }

    /// The point with integer coordinates `(x, y)`.
    pub fn from_ints(x: i64, y: i64) -> (r: Point)
        ensures
            r@ == (PointModel { x: Ratio::of_int(x as int), y: Ratio::of_int(y as int) }),
            r.wf(),
    {
        Point { x: Frac::from_int(x), y: Frac::from_int(y) }
    }
}

/// The map of one axis, `v |-> (m * v + b) / d`.
#[derive(Clone, Copy, Debug, PartialEq, Eq, Structural)]
pub struct AxisMap {
    pub m: i128,
    pub b: i128,
    pub d: i128,
}

impl View for AxisMap {
    type V = AxisModel;

    open spec fn view(&self) -> AxisModel {
        AxisModel { m: self.m as int, b: self.b as int, d: self.d as int }
    }
}

impl AxisMap {
    pub open spec fn bounded(self) -> bool {
        in_bound(self.m as int) && in_bound(self.b as int) && in_bound(self.d as int)
    }

    pub fn apply(&self, v: Frac) -> (r: Frac)
        requires
            self.bounded(),
            v.bounded(),
        ensures
            r@ == self@.apply(v@),
    {
        proof {
            lemma_product_bound(self.m as int, v.num as int);
            lemma_product_bound(self.b as int, v.den as int);
            lemma_product_bound(self.d as int, v.den as int);
        }
        Frac { num: self.m * v.num + self.b * v.den, den: self.d * v.den }
    }

    pub fn invert(&self) -> (r: AxisMap)
        requires
            self.bounded(),
            self@.wf(),
        ensures
            r@ == self@.inverse(),
            r.bounded(),
    {
        if self.m > 0 {
            AxisMap { m: self.d, b: -self.b, d: self.m }
        } else {
            AxisMap { m: -self.d, b: self.b, d: -self.m }
        }
    }
}

proof fn lemma_product_bound(a: int, b: int)
    requires
        in_bound(a),
        in_bound(b),
    ensures
        -BOUND * BOUND <= a * b <= BOUND * BOUND,
{
    assert(-BOUND * BOUND <= a * b <= BOUND * BOUND) by (nonlinear_arith)
        requires
            -BOUND <= a <= BOUND,
            -BOUND <= b <= BOUND,
            BOUND > 0,
    ;
}

/// An axis-aligned affine transform with exact coefficients.
#[derive(Clone, Copy, Debug, PartialEq, Eq, Structural)]
pub struct AffineTransform {
    pub x: AxisMap,
    pub y: AxisMap,
}

impl View for AffineTransform {
    type V = TransformModel;

    open spec fn view(&self) -> TransformModel {
        TransformModel { x: self.x@, y: self.y@ }
    }
}

impl AffineTransform {
    pub open spec fn bounded(self) -> bool {
        self.x.bounded() && self.y.bounded()
    }

    /// Maps `p` through the transform, exactly.
    pub fn apply(&self, p: &Point) -> (r: Point)
        requires
            self.bounded(),
            p.bounded(),
        ensures
            r@ == self@.apply(p@),
    {
        Point { x: self.x.apply(p.x), y: self.y.apply(p.y) }
    }

    /// The transform that undoes this one.
    pub fn invert(&self) -> (r: AffineTransform)
        requires
            self.bounded(),
            self@.wf(),
        ensures
            r@ == self@.inverse(),
            r@.wf(),
            r.bounded(),
    {
        AffineTransform { x: self.x.invert(), y: self.y.invert() }
    }

    /// Maps `p` back through the transform: `invert` followed by `apply`.
    pub fn apply_inverse(&self, p: &Point) -> (r: Point)
        requires
            self.bounded(),
            self@.wf(),
            p.bounded(),
        ensures
            r@ == self@.inverse().apply(p@),
    {
        let inv = self.invert();
        inv.apply(p)
    }
}

/// Mapping a point through an invertible transform and then through its
/// inverse gives back the same point.
pub proof fn lemma_inverse_undoes_apply(t: TransformModel, p: PointModel)
    requires
        t.wf(),
        p.x.den > 0,
        p.y.den > 0,
    ensures
        t.inverse().apply(t.apply(p)).eqv(p),
{
    lemma_axis_inverse_undoes_apply(t.x, p.x);
    lemma_axis_inverse_undoes_apply(t.y, p.y);
}

proof fn lemma_axis_inverse_undoes_apply(a: AxisModel, v: Ratio)
    requires
        a.wf(),
        v.den > 0,
    ensures
        a.inverse().apply(a.apply(v)).eqv(v),
{
    let (m, b, d, n, e) = (a.m, a.b, a.d, v.num, v.den);
    let q = m * n + b * e;
    assert(d * q == d * (m * n) + d * (b * e)) by (nonlinear_arith)
        requires
            q == m * n + b * e,
    ;
    assert(d * (b * e) == b * (d * e)) by (nonlinear_arith);
    assert((d * (m * n)) * e == n * (m * (d * e))) by (nonlinear_arith);
    if m > 0 {
        assert(d * q + (-b) * (d * e) == d * (m * n)) by (nonlinear_arith)
            requires
                d * q == d * (m * n) + d * (b * e),
                d * (b * e) == b * (d * e),
        ;
    } else {
        assert((-d) * q + b * (d * e) == -(d * (m * n))) by (nonlinear_arith)
            requires
                d * q == d * (m * n) + d * (b * e),
                d * (b * e) == b * (d * e),
        ;
        assert((-(d * (m * n))) * e == n * ((-m) * (d * e))) by (nonlinear_arith)
            requires
                (d * (m * n)) * e == n * (m * (d * e)),
        ;
    }
}

} // verus!
