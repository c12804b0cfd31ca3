//! Exact rational scalars.
//!
//! Every coordinate and color channel in this crate is a rational number:
//! an `i64` numerator over a positive `i64` denominator. The ghost view of
//! a scalar is a [`Ratio`], a pair of unbounded integers, and all contracts
//! are stated over that view. Results are not reduced to lowest terms, so
//! mathematical equality is the cross-multiplication relation [`ratio_eqv`],
//! not structural equality.

use vstd::prelude::*;

verus! {

/// A rational value in ghost space: numerator `n` over denominator `d`.
pub struct Ratio {
    pub n: int,
    pub d: int,
}

/// A well-formed ratio has a positive denominator.
pub open spec fn ratio_wf(q: Ratio) -> bool {
    q.d > 0
}

/// Mathematical equality of two ratios, by cross-multiplication.
pub open spec fn ratio_eqv(a: Ratio, b: Ratio) -> bool {
    a.n * b.d == b.n * a.d
}

/// The ratio denoting the integer `i`.
pub open spec fn ratio_int(i: int) -> Ratio {
    Ratio { n: i, d: 1 }
}

pub open spec fn ratio_add(a: Ratio, b: Ratio) -> Ratio {
    Ratio { n: a.n * b.d + b.n * a.d, d: a.d * b.d }
}

pub open spec fn ratio_sub(a: Ratio, b: Ratio) -> Ratio {
    Ratio { n: a.n * b.d - b.n * a.d, d: a.d * b.d }
}

pub open spec fn ratio_neg(a: Ratio) -> Ratio {
    Ratio { n: -a.n, d: a.d }
}

pub open spec fn ratio_mul(a: Ratio, b: Ratio) -> Ratio {
    Ratio { n: a.n * b.n, d: a.d * b.d }
}

/// Division, with the sign moved into the numerator so that a well-formed
/// dividend and divisor give a well-formed quotient.
pub open spec fn ratio_div(a: Ratio, b: Ratio) -> Ratio {
    if b.n < 0 {
        Ratio { n: -(a.n * b.d), d: a.d * (-b.n) }
    } else {
        Ratio { n: a.n * b.d, d: a.d * b.n }
    }
}

pub open spec fn ratio_abs(a: Ratio) -> Ratio {
    Ratio { n: if a.n < 0 { -a.n } else { a.n }, d: a.d }
}

/// `a <= b` over well-formed ratios.
pub open spec fn ratio_le(a: Ratio, b: Ratio) -> bool {
    a.n * b.d <= b.n * a.d
}

/// `a < b` over well-formed ratios.
pub open spec fn ratio_lt(a: Ratio, b: Ratio) -> bool {
    a.n * b.d < b.n * a.d
}

/// `x` is representable as an `i64` numerator or denominator. The bound is
/// symmetric so that the negation of a representable value is representable.
pub open spec fn fits_i64(x: int) -> bool {
    -0x7fff_ffff_ffff_ffff <= x <= 0x7fff_ffff_ffff_ffff
}

/// The sum `a + b` is representable without overflow.
pub open spec fn ratio_add_fits(a: Ratio, b: Ratio) -> bool {
    &&& fits_i64(a.n * b.d)
    &&& fits_i64(b.n * a.d)
    &&& fits_i64(a.n * b.d + b.n * a.d)
    &&& fits_i64(a.d * b.d)
}

/// The difference `a - b` is representable without overflow.
pub open spec fn ratio_sub_fits(a: Ratio, b: Ratio) -> bool {
    &&& fits_i64(a.n * b.d)
    &&& fits_i64(b.n * a.d)
    &&& fits_i64(a.n * b.d - b.n * a.d)
    &&& fits_i64(a.d * b.d)
}

/// The product `a * b` is representable without overflow.
pub open spec fn ratio_mul_fits(a: Ratio, b: Ratio) -> bool {
    &&& fits_i64(a.n * b.n)
    &&& fits_i64(a.d * b.d)
}

/// The quotient `a / b` is representable without overflow.
pub open spec fn ratio_div_fits(a: Ratio, b: Ratio) -> bool {
    &&& fits_i64(b.n)
    &&& fits_i64(a.n * b.d)
    &&& fits_i64(a.d * b.n)
}

/// `q` is representable and within magnitude `b`: numerator in `[-b, b]`,
/// denominator in `(0, b]`.
pub open spec fn ratio_bounded(q: Ratio, b: int) -> bool {
    &&& -b <= q.n <= b
    &&& 0 < q.d <= b
}

/// Bounds on two factors bound their product.
pub proof fn lemma_mul_bound(a: int, b: int, aa: int, bb: int)
    by (nonlinear_arith)
    requires
        -aa <= a <= aa,
        -bb <= b <= bb,
    ensures
        -(aa * bb) <= a * b <= aa * bb,
{
}

/// Bounds on the factors bound a product's numerator and denominator.
pub proof fn lemma_mul_result_bounded(a: Ratio, b: Ratio, an: int, ad: int, bn: int, bd: int)
    requires
        ratio_wf(a),
        ratio_wf(b),
        -an <= a.n <= an,
        a.d <= ad,
        -bn <= b.n <= bn,
        b.d <= bd,
    ensures
        -(an * bn) <= ratio_mul(a, b).n <= an * bn,
        0 < ratio_mul(a, b).d <= ad * bd,
        -(an * bn) <= a.n * b.n <= an * bn,
        0 < a.d * b.d <= ad * bd,
{
    lemma_mul_bound(a.n, b.n, an, bn);
    lemma_mul_bound(a.d, b.d, ad, bd);
    assert(a.d * b.d > 0) by (nonlinear_arith)
        requires
            a.d > 0,
            b.d > 0;
}

/// Bounds on the operands bound a difference's numerator and denominator.
pub proof fn lemma_sub_result_bounded(a: Ratio, b: Ratio, an: int, ad: int, bn: int, bd: int)
    requires
        ratio_wf(a),
        ratio_wf(b),
        -an <= a.n <= an,
        a.d <= ad,
        -bn <= b.n <= bn,
        b.d <= bd,
    ensures
        -(an * bd + bn * ad) <= ratio_sub(a, b).n <= an * bd + bn * ad,
        0 < ratio_sub(a, b).d <= ad * bd,
        -(an * bd) <= a.n * b.d <= an * bd,
        -(bn * ad) <= b.n * a.d <= bn * ad,
        0 < a.d * b.d <= ad * bd,
{
    lemma_mul_bound(a.n, b.d, an, bd);
    lemma_mul_bound(b.n, a.d, bn, ad);
    lemma_mul_bound(a.d, b.d, ad, bd);
    assert(a.d * b.d > 0) by (nonlinear_arith)
        requires
            a.d > 0,
            b.d > 0;
}

/// Bounds on the operands bound a sum's numerator and denominator.
pub proof fn lemma_add_result_bounded(a: Ratio, b: Ratio, an: int, ad: int, bn: int, bd: int)
    requires
        ratio_wf(a),
        ratio_wf(b),
        -an <= a.n <= an,
        a.d <= ad,
        -bn <= b.n <= bn,
        b.d <= bd,
    ensures
        -(an * bd + bn * ad) <= ratio_add(a, b).n <= an * bd + bn * ad,
        0 < ratio_add(a, b).d <= ad * bd,
        -(an * bd) <= a.n * b.d <= an * bd,
        -(bn * ad) <= b.n * a.d <= bn * ad,
        0 < a.d * b.d <= ad * bd,
{
    lemma_mul_bound(a.n, b.d, an, bd);
    lemma_mul_bound(b.n, a.d, bn, ad);
    lemma_mul_bound(a.d, b.d, ad, bd);
    assert(a.d * b.d > 0) by (nonlinear_arith)
        requires
            a.d > 0,
            b.d > 0;
}

/// Bounds on the operands bound a quotient's numerator and denominator.
pub proof fn lemma_div_result_bounded(a: Ratio, b: Ratio, an: int, ad: int, bn: int, bd: int)
    requires
        ratio_wf(a),
        ratio_wf(b),
        b.n != 0,
        -an <= a.n <= an,
        a.d <= ad,
        -bn <= b.n <= bn,
        b.d <= bd,
    ensures
        -(an * bd) <= ratio_div(a, b).n <= an * bd,
        0 < ratio_div(a, b).d <= ad * bn,
        -(an * bd) <= a.n * b.d <= an * bd,
        -(ad * bn) <= a.d * b.n <= ad * bn,
{
    lemma_mul_bound(a.n, b.d, an, bd);
    lemma_mul_bound(a.d, b.n, ad, bn);
    if b.n < 0 {
        assert(a.d * (-b.n) == -(a.d * b.n)) by (nonlinear_arith);
        assert(a.d * (-b.n) > 0) by (nonlinear_arith)
            requires
                a.d > 0,
                -b.n > 0;
    } else {
        assert(a.d * b.n > 0) by (nonlinear_arith)
            requires
                a.d > 0,
                b.n > 0;
    }
}


proof fn lemma_eqv_add_parts(an: int, ad: int, bn: int, bd: int, cn: int, cd: int, en: int, ed: int)
    requires
        an * cd == cn * ad,
        bn * ed == en * bd,
    ensures
        (an * bd + bn * ad) * (cd * ed) == (cn * ed + en * cd) * (ad * bd),
{
    assert((an * bd) * (cd * ed) == (an * cd) * (bd * ed)) by (nonlinear_arith);
    assert((cn * ad) * (bd * ed) == (cn * ed) * (ad * bd)) by (nonlinear_arith);
    assert((bn * ad) * (cd * ed) == (bn * ed) * (ad * cd)) by (nonlinear_arith);
    assert((en * bd) * (ad * cd) == (en * cd) * (ad * bd)) by (nonlinear_arith);
    assert((an * bd + bn * ad) * (cd * ed) == (an * bd) * (cd * ed) + (bn * ad) * (cd * ed))
        by (nonlinear_arith);
    assert((cn * ed + en * cd) * (ad * bd) == (cn * ed) * (ad * bd) + (en * cd) * (ad * bd))
        by (nonlinear_arith);
}

proof fn lemma_eqv_sub_parts(an: int, ad: int, bn: int, bd: int, cn: int, cd: int, en: int, ed: int)
    requires
        an * cd == cn * ad,
        bn * ed == en * bd,
    ensures
        (an * bd - bn * ad) * (cd * ed) == (cn * ed - en * cd) * (ad * bd),
{
    assert((an * bd) * (cd * ed) == (an * cd) * (bd * ed)) by (nonlinear_arith);
    assert((cn * ad) * (bd * ed) == (cn * ed) * (ad * bd)) by (nonlinear_arith);
    assert((bn * ad) * (cd * ed) == (bn * ed) * (ad * cd)) by (nonlinear_arith);
    assert((en * bd) * (ad * cd) == (en * cd) * (ad * bd)) by (nonlinear_arith);
    assert((an * bd - bn * ad) * (cd * ed) == (an * bd) * (cd * ed) - (bn * ad) * (cd * ed))
        by (nonlinear_arith);
    assert((cn * ed - en * cd) * (ad * bd) == (cn * ed) * (ad * bd) - (en * cd) * (ad * bd))
        by (nonlinear_arith);
}

proof fn lemma_eqv_mul_parts(an: int, ad: int, bn: int, bd: int, cn: int, cd: int, en: int, ed: int)
    by (nonlinear_arith)
    requires
        an * cd == cn * ad,
        bn * ed == en * bd,
    ensures
        (an * bn) * (cd * ed) == (cn * en) * (ad * bd),
{
}

/// Equal rationals stay equal under addition.
pub proof fn lemma_ratio_eqv_add(a: Ratio, b: Ratio, a2: Ratio, b2: Ratio)
    requires
        ratio_wf(a),
        ratio_wf(b),
        ratio_wf(a2),
        ratio_wf(b2),
        ratio_eqv(a, a2),
        ratio_eqv(b, b2),
    ensures
        ratio_eqv(ratio_add(a, b), ratio_add(a2, b2)),
{
    lemma_eqv_add_parts(a.n, a.d, b.n, b.d, a2.n, a2.d, b2.n, b2.d);
}

/// Equal rationals stay equal under subtraction.
pub proof fn lemma_ratio_eqv_sub(a: Ratio, b: Ratio, a2: Ratio, b2: Ratio)
    requires
        ratio_wf(a),
        ratio_wf(b),
        ratio_wf(a2),
        ratio_wf(b2),
        ratio_eqv(a, a2),
        ratio_eqv(b, b2),
    ensures
        ratio_eqv(ratio_sub(a, b), ratio_sub(a2, b2)),
{
    lemma_eqv_sub_parts(a.n, a.d, b.n, b.d, a2.n, a2.d, b2.n, b2.d);
}

/// Equal rationals stay equal under multiplication.
pub proof fn lemma_ratio_eqv_mul(a: Ratio, b: Ratio, a2: Ratio, b2: Ratio)
    requires
        ratio_wf(a),
        ratio_wf(b),
        ratio_wf(a2),
        ratio_wf(b2),
        ratio_eqv(a, a2),
        ratio_eqv(b, b2),
    ensures
        ratio_eqv(ratio_mul(a, b), ratio_mul(a2, b2)),
{
    lemma_eqv_mul_parts(a.n, a.d, b.n, b.d, a2.n, a2.d, b2.n, b2.d);
}

/// Equal dividends give equal quotients.
pub proof fn lemma_ratio_eqv_div(a: Ratio, a2: Ratio, b: Ratio)
    requires
        ratio_wf(a),
        ratio_wf(a2),
        ratio_wf(b),
        b.n != 0,
        ratio_eqv(a, a2),
    ensures
        ratio_eqv(ratio_div(a, b), ratio_div(a2, b)),
{
    if b.n < 0 {
        assert((-(a.n * b.d)) * (a2.d * (-b.n)) == (-(a2.n * b.d)) * (a.d * (-b.n)))
            by (nonlinear_arith)
            requires
                a.n * a2.d == a2.n * a.d,
        ;
    } else {
        assert((a.n * b.d) * (a2.d * b.n) == (a2.n * b.d) * (a.d * b.n)) by (nonlinear_arith)
            requires
                a.n * a2.d == a2.n * a.d,
        ;
    }
}

/// Equal rationals have equal absolute values.
pub proof fn lemma_ratio_eqv_abs(a: Ratio, a2: Ratio)
    requires
        ratio_wf(a),
        ratio_wf(a2),
        ratio_eqv(a, a2),
    ensures
        ratio_eqv(ratio_abs(a), ratio_abs(a2)),
{
    if a.n < 0 {
        assert(a2.n < 0) by (nonlinear_arith)
            requires
                a.n * a2.d == a2.n * a.d,
                a.d > 0,
                a2.d > 0,
                a.n < 0,
        ;
        assert((-a.n) * a2.d == (-a2.n) * a.d) by (nonlinear_arith)
            requires
                a.n * a2.d == a2.n * a.d,
        ;
    } else {
        assert(a2.n >= 0) by (nonlinear_arith)
            requires
                a.n * a2.d == a2.n * a.d,
                a.d > 0,
                a2.d > 0,
                a.n >= 0,
        ;
    }
}


/// Equal values compare equally on the left of `<=`.
pub proof fn lemma_ratio_le_eqv_left(a: Ratio, b: Ratio, c: Ratio)
    requires
        ratio_wf(a),
        ratio_wf(b),
        ratio_wf(c),
        ratio_eqv(a, b),
        ratio_le(b, c),
    ensures
        ratio_le(a, c),
{
    assert((a.n * c.d) * b.d <= (c.n * a.d) * b.d) by (nonlinear_arith)
        requires
            a.n * b.d == b.n * a.d,
            b.n * c.d <= c.n * b.d,
            a.d > 0,
            b.d > 0,
            c.d > 0,
    ;
    assert(a.n * c.d <= c.n * a.d) by (nonlinear_arith)
        requires
            (a.n * c.d) * b.d <= (c.n * a.d) * b.d,
            b.d > 0,
    ;
}

/// `<=` is transitive over well-formed ratios.
pub proof fn lemma_ratio_le_trans(a: Ratio, b: Ratio, c: Ratio)
    requires
        ratio_wf(a),
        ratio_wf(b),
        ratio_wf(c),
        ratio_le(a, b),
        ratio_le(b, c),
    ensures
        ratio_le(a, c),
{
    assert((a.n * c.d) * b.d <= (c.n * a.d) * b.d) by (nonlinear_arith)
        requires
            a.n * b.d <= b.n * a.d,
            b.n * c.d <= c.n * b.d,
            a.d > 0,
            b.d > 0,
            c.d > 0,
    ;
    assert(a.n * c.d <= c.n * a.d) by (nonlinear_arith)
        requires
            (a.n * c.d) * b.d <= (c.n * a.d) * b.d,
            b.d > 0,
    ;
}

/// Taking a nonnegative amount away does not increase the value.
pub proof fn lemma_ratio_sub_nonneg_le(a: Ratio, p: Ratio)
    requires
        ratio_wf(a),
        ratio_wf(p),
        p.n >= 0,
    ensures
        ratio_le(ratio_sub(a, p), a),
{
    assert((a.n * p.d - p.n * a.d) * a.d <= a.n * (a.d * p.d)) by (nonlinear_arith)
        requires
            p.n >= 0,
            a.d > 0,
            p.d > 0,
    ;
}

/// Adding a nonnegative amount does not decrease the value.
pub proof fn lemma_ratio_add_nonneg_ge(a: Ratio, p: Ratio)
    requires
        ratio_wf(a),
        ratio_wf(p),
        p.n >= 0,
    ensures
        ratio_le(a, ratio_add(a, p)),
{
    assert(a.n * (a.d * p.d) <= (a.n * p.d + p.n * a.d) * a.d) by (nonlinear_arith)
        requires
            p.n >= 0,
            a.d > 0,
            p.d > 0,
    ;
}

/// `(a + c) - (c + b)` denotes `a - b`: the shared summand cancels.
pub proof fn lemma_ratio_sub_add_cancel(a: Ratio, b: Ratio, c: Ratio)
    requires
        ratio_wf(a),
        ratio_wf(b),
        ratio_wf(c),
    ensures
        ratio_eqv(ratio_sub(ratio_add(a, c), ratio_add(c, b)), ratio_sub(a, b)),
{
    let an = a.n;
    let ad = a.d;
    let bn = b.n;
    let bd = b.d;
    let cn = c.n;
    let cd = c.d;
    assert((an * cd + cn * ad) * (cd * bd) == (an * cd) * (cd * bd) + (cn * ad) * (cd * bd))
        by (nonlinear_arith);
    assert((cn * bd + bn * cd) * (ad * cd) == (cn * bd) * (ad * cd) + (bn * cd) * (ad * cd))
        by (nonlinear_arith);
    assert((cn * ad) * (cd * bd) == (cn * bd) * (ad * cd)) by (nonlinear_arith);
    assert((an * cd) * (cd * bd) == (cd * cd) * (an * bd)) by (nonlinear_arith);
    assert((bn * cd) * (ad * cd) == (cd * cd) * (bn * ad)) by (nonlinear_arith);
    assert((cd * cd) * (an * bd) - (cd * cd) * (bn * ad) == (cd * cd) * (an * bd - bn * ad))
        by (nonlinear_arith);
    let w = an * bd - bn * ad;
    assert(((cd * cd) * w) * (ad * bd) == w * ((ad * cd) * (cd * bd))) by (nonlinear_arith);
}

/// Mathematical equality of ratios is transitive.
pub proof fn lemma_ratio_eqv_trans(a: Ratio, b: Ratio, c: Ratio)
    requires
        ratio_wf(a),
        ratio_wf(b),
        ratio_wf(c),
        ratio_eqv(a, b),
        ratio_eqv(b, c),
    ensures
        ratio_eqv(a, c),
{
    assert((a.n * c.d) * b.d == (c.n * a.d) * b.d) by (nonlinear_arith)
        requires
            a.n * b.d == b.n * a.d,
            b.n * c.d == c.n * b.d,
    ;
    assert(a.n * c.d == c.n * a.d) by (nonlinear_arith)
        requires
            (a.n * c.d) * b.d == (c.n * a.d) * b.d,
            b.d > 0,
    ;
}

/// Addition is monotone in its second operand.
pub proof fn lemma_ratio_add_mono(a: Ratio, b1: Ratio, b2: Ratio)
    requires
        ratio_wf(a),
        ratio_wf(b1),
        ratio_wf(b2),
        ratio_le(b1, b2),
    ensures
        ratio_le(ratio_add(a, b1), ratio_add(a, b2)),
{
    assert((a.n * b1.d + b1.n * a.d) * (a.d * b2.d) <= (a.n * b2.d + b2.n * a.d) * (a.d * b1.d))
        by (nonlinear_arith)
        requires
            b1.n * b2.d <= b2.n * b1.d,
            a.d > 0,
            b1.d > 0,
            b2.d > 0,
    ;
}

/// `a + (b - a)` denotes `b`.
pub proof fn lemma_ratio_add_sub_recover(a: Ratio, b: Ratio)
    requires
        ratio_wf(a),
        ratio_wf(b),
    ensures
        ratio_eqv(ratio_add(a, ratio_sub(b, a)), b),
{
    assert((a.n * (b.d * a.d) + (b.n * a.d - a.n * b.d) * a.d) * b.d == b.n * (a.d * (b.d * a.d)))
        by (nonlinear_arith);
}

/// `(a + h) + h` denotes `a + 2h`.
pub proof fn lemma_ratio_add_twice(a: Ratio, h: Ratio)
    requires
        ratio_wf(a),
        ratio_wf(h),
    ensures
        ratio_eqv(
            ratio_add(ratio_add(a, h), h),
            ratio_add(a, ratio_mul(h, ratio_int(2))),
        ),
{
    assert(((a.n * h.d + h.n * a.d) * h.d + h.n * (a.d * h.d)) * (a.d * (h.d * 1)) == (a.n * (h.d
        * 1) + (h.n * 2) * a.d) * ((a.d * h.d) * h.d)) by (nonlinear_arith);
}


proof fn lemma_mul_pos(a: int, b: int)
    by (nonlinear_arith)
    requires
        a > 0,
        b > 0,
    ensures
        a * b > 0,
{
}

proof fn lemma_i64_prod_fits_i128(a: int, b: int)
    by (nonlinear_arith)
    requires
        -0x8000_0000_0000_0000 <= a <= 0x7fff_ffff_ffff_ffff,
        -0x8000_0000_0000_0000 <= b <= 0x7fff_ffff_ffff_ffff,
    ensures
        -0x8000_0000_0000_0000_0000_0000_0000_0000 <= a * b
            <= 0x7fff_ffff_ffff_ffff_ffff_ffff_ffff_ffff,
{
}

/// An exact rational scalar: `num / den` with `den > 0`.
#[derive(Clone, Copy, Debug, PartialEq, Eq, Structural)]
pub struct Rat {
    num: i64,
    den: i64,
}

impl View for Rat {
    type V = Ratio;

    closed spec fn view(&self) -> Ratio {
        Ratio { n: self.num as int, d: self.den as int }
    }
}

impl Rat {
    /// Well-formedness: the denominator is positive.
    pub open spec fn wf(self) -> bool {
        ratio_wf(self@)
    }

    pub fn new(num: i64, den: i64) -> (r: Rat)
        requires
            den > 0,
        ensures
            r@ == (Ratio { n: num as int, d: den as int }),
            r.wf(),
    {
        Rat { num, den }
    }

    pub fn from_int(i: i64) -> (r: Rat)
        ensures
            r@ == ratio_int(i as int),
            r.wf(),
    {
        Rat { num: i, den: 1 }
    }

    pub fn from_u32(u: u32) -> (r: Rat)
        ensures
            r@ == ratio_int(u as int),
            r.wf(),
    {
        Rat { num: u as i64, den: 1 }
    }

    pub fn zero() -> (r: Rat)
        ensures
            r@ == ratio_int(0),
            r.wf(),
    {
        Rat { num: 0, den: 1 }
    }

    pub fn one() -> (r: Rat)
        ensures
            r@ == ratio_int(1),
            r.wf(),
    {
        Rat { num: 1, den: 1 }
    }

    pub fn num(&self) -> (n: i64)
        ensures
            n as int == self@.n,
    {
        self.num
    }

    pub fn den(&self) -> (d: i64)
        ensures
            d as int == self@.d,
    {
        self.den
    }

    pub fn add(self, rhs: Rat) -> (r: Rat)
        requires
            self.wf(),
            rhs.wf(),
            ratio_add_fits(self@, rhs@),
        ensures
            r@ == ratio_add(self@, rhs@),
            r.wf(),
    {
        proof {
            lemma_mul_pos(self@.d, rhs@.d);
        }
        Rat { num: self.num * rhs.den + rhs.num * self.den, den: self.den * rhs.den }
    }

    pub fn sub(self, rhs: Rat) -> (r: Rat)
        requires
            self.wf(),
            rhs.wf(),
            ratio_sub_fits(self@, rhs@),
        ensures
            r@ == ratio_sub(self@, rhs@),
            r.wf(),
    {
        proof {
            lemma_mul_pos(self@.d, rhs@.d);
        }
        Rat { num: self.num * rhs.den - rhs.num * self.den, den: self.den * rhs.den }
    }

    pub fn neg(self) -> (r: Rat)
        requires
            self.wf(),
            fits_i64(self@.n),
        ensures
            r@ == ratio_neg(self@),
            r.wf(),
    {
        Rat { num: -self.num, den: self.den }
    }

    pub fn mul(self, rhs: Rat) -> (r: Rat)
        requires
            self.wf(),
            rhs.wf(),
            ratio_mul_fits(self@, rhs@),
        ensures
            r@ == ratio_mul(self@, rhs@),
            r.wf(),
    {
        proof {
            lemma_mul_pos(self@.d, rhs@.d);
        }
        Rat { num: self.num * rhs.num, den: self.den * rhs.den }
    }

    pub fn div(self, rhs: Rat) -> (r: Rat)
        requires
            self.wf(),
            rhs.wf(),
            rhs@.n != 0,
            ratio_div_fits(self@, rhs@),
        ensures
            r@ == ratio_div(self@, rhs@),
            r.wf(),
    {
        if rhs.num > 0 {
            proof {
                lemma_mul_pos(self@.d, rhs@.n);
            }
            Rat { num: self.num * rhs.den, den: self.den * rhs.num }
        } else {
            proof {
                lemma_mul_pos(self@.d, -rhs@.n);
                assert(self@.d * (-rhs@.n) == -(self@.d * rhs@.n)) by (nonlinear_arith);
            }
            Rat { num: -(self.num * rhs.den), den: self.den * (-rhs.num) }
        }
    }

    pub fn abs(self) -> (r: Rat)
        requires
            self.wf(),
            fits_i64(self@.n),
        ensures
            r@ == ratio_abs(self@),
            r.wf(),
    {
        if self.num < 0 {
            Rat { num: -self.num, den: self.den }
        } else {
            Rat { num: self.num, den: self.den }
        }
    }

    /// Whether the scalar is within magnitude `b`: numerator in
    /// `[-b, b]`, denominator in `(0, b]`. The callers' magnitude
    /// preconditions are stated with [`ratio_bounded`]; this tests them.
    pub fn is_bounded(&self, b: i64) -> (r: bool)
        requires
            0 <= b,
        ensures
            r == ratio_bounded(self@, b as int),
    {
        -b <= self.num && self.num <= b && 0 < self.den && self.den <= b
    }

    /// Mathematical equality: `self` and `rhs` denote the same rational.
    pub fn eqv(&self, rhs: &Rat) -> (r: bool)
        requires
            self.wf(),
            rhs.wf(),
        ensures
            r == ratio_eqv(self@, rhs@),
    {
        proof {
            lemma_i64_prod_fits_i128(self@.n, rhs@.d);
            lemma_i64_prod_fits_i128(rhs@.n, self@.d);
        }
        let a: i128 = (self.num as i128) * (rhs.den as i128);
        let b: i128 = (rhs.num as i128) * (self.den as i128);
        a == b
    }

    pub fn lt(&self, rhs: &Rat) -> (r: bool)
        requires
            self.wf(),
            rhs.wf(),
        ensures
            r == ratio_lt(self@, rhs@),
    {
        proof {
            lemma_i64_prod_fits_i128(self@.n, rhs@.d);
            lemma_i64_prod_fits_i128(rhs@.n, self@.d);
        }
        let a: i128 = (self.num as i128) * (rhs.den as i128);
        let b: i128 = (rhs.num as i128) * (self.den as i128);
        a < b
    }

    pub fn le(&self, rhs: &Rat) -> (r: bool)
        requires
            self.wf(),
            rhs.wf(),
        ensures
            r == ratio_le(self@, rhs@),
    {
        proof {
            lemma_i64_prod_fits_i128(self@.n, rhs@.d);
            lemma_i64_prod_fits_i128(rhs@.n, self@.d);
        }
        let a: i128 = (self.num as i128) * (rhs.den as i128);
        let b: i128 = (rhs.num as i128) * (self.den as i128);
        a <= b
    }
}

} // verus!
