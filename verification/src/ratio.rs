//! Exact non-negative rational arithmetic.
//!
//! Reservoir bookkeeping is defined over real numbers; this module gives the
//! library an exact executable model of the non-negative rationals.  A value
//! is a `u64` numerator over a positive `u64` denominator, and every
//! operation states precisely which rational it returns.  Results are kept
//! small by dividing through by the greatest common divisor; an operation
//! whose reduced result does not fit in `u64` is refused (`None`), never
//! rounded.

use vstd::prelude::*;
use vstd::arithmetic::div_mod::{
    lemma_fundamental_div_mod, lemma_mod_division_less_than_divisor, lemma_mod_self_0,
    lemma_small_mod,
};
use vstd::arithmetic::mul::{
    lemma_mul_is_commutative, lemma_mul_is_distributive_add_other_way,
    lemma_mul_is_distributive_sub_other_way, lemma_mul_upper_bound,
};

verus! {

/// Mathematical value of a ratio: an unbounded numerator over a denominator.
pub ghost struct Rat {
    pub n: int,
    pub d: int,
}

/// A well-formed mathematical ratio: non-negative, with a positive denominator.
pub open spec fn rat_wf(r: Rat) -> bool {
    r.n >= 0 && r.d > 0
}

/// Two ratios denote the same rational number (cross multiplication).
pub open spec fn rat_eq(a: Rat, b: Rat) -> bool {
    a.n * b.d == b.n * a.d
}

/// `a` denotes a strictly smaller rational than `b`.
pub open spec fn rat_lt(a: Rat, b: Rat) -> bool {
    a.n * b.d < b.n * a.d
}

/// `a` denotes a rational no larger than `b`.
pub open spec fn rat_le(a: Rat, b: Rat) -> bool {
    a.n * b.d <= b.n * a.d
}

/// The ratio denotes zero.
pub open spec fn rat_is_zero(r: Rat) -> bool {
    r.n == 0
}

/// Exact sum of two ratios, over the product of the denominators.
pub open spec fn rat_add(a: Rat, b: Rat) -> Rat {
    Rat { n: a.n * b.d + b.n * a.d, d: a.d * b.d }
}

/// Exact difference of two ratios, over the product of the denominators.
pub open spec fn rat_sub(a: Rat, b: Rat) -> Rat {
    Rat { n: a.n * b.d - b.n * a.d, d: a.d * b.d }
}

/// Exact product of two ratios.
pub open spec fn rat_mul(a: Rat, b: Rat) -> Rat {
    Rat { n: a.n * b.n, d: a.d * b.d }
}

/// Exact quotient of two ratios.
pub open spec fn rat_div(a: Rat, b: Rat) -> Rat {
    Rat { n: a.n * b.d, d: a.d * b.n }
}

/// The whole number `k` as a ratio.
pub open spec fn rat_whole(k: int) -> Rat {
    Rat { n: k, d: 1 }
}

/// Greatest common divisor, by Euclid's algorithm.
pub open spec fn gcd(a: nat, b: nat) -> nat
    decreases b,
{
    if b == 0 {
        a
    } else {
        gcd(b, (a % b) as nat)
    }
}

/// The fully reduced representative of a ratio's value.
pub open spec fn rat_norm(r: Rat) -> Rat {
    let g = gcd(r.n as nat, r.d as nat) as int;
    Rat { n: r.n / g, d: r.d / g }
}

/// The reduced representative of `r` has both components within `bound`.
pub open spec fn norm_fits(r: Rat, bound: int) -> bool {
    rat_norm(r).n <= bound && rat_norm(r).d <= bound
}

/// The gcd of two naturals divides both, and is positive unless both are zero.
pub proof fn lemma_gcd_properties(a: nat, b: nat)
    ensures
        a > 0 || b > 0 ==> gcd(a, b) > 0,
        gcd(a, b) > 0 ==> a as int % (gcd(a, b) as int) == 0,
        gcd(a, b) > 0 ==> b as int % (gcd(a, b) as int) == 0,
    decreases b,
{
    if b == 0 {
        if a > 0 {
            lemma_mod_self_0(a as int);
            lemma_small_mod(0, a);
        }
    } else {
        lemma_mod_division_less_than_divisor(a as int, b as int);
        lemma_gcd_properties(b, (a % b) as nat);
        let g = gcd(b, (a % b) as nat);
        assert(g == gcd(a, b));
        assert(g > 0);
        // a == b * (a / b) + a % b, and g divides both b and a % b.
        lemma_fundamental_div_mod(a as int, b as int);
        let q = a as int / b as int;
        let kb = b as int / g as int;
        let kr = (a % b) as int / g as int;
        lemma_fundamental_div_mod(b as int, g as int);
        lemma_fundamental_div_mod((a % b) as int, g as int);
        assert(b as int == g * kb);
        assert((a % b) as int == g * kr);
        assert(a as int == g * (kb * q + kr)) by (nonlinear_arith)
            requires
                a as int == b as int * q + (a % b) as int,
                b as int == g * kb,
                (a % b) as int == g * kr,
        ;
        lemma_mul_mod_zero(a as int, g as int, kb * q + kr);
    }
}

/// A multiple of a positive `g` leaves remainder zero.
proof fn lemma_mul_mod_zero(x: int, g: int, k: int)
    requires
        g > 0,
        x == g * k,
    ensures
        x % g == 0,
{
    vstd::arithmetic::div_mod::lemma_mod_multiples_basic(k, g);
    assert(k * g == g * k) by (nonlinear_arith);
}

/// Euclid's algorithm on machine integers.
fn gcd_u128(a: u128, b: u128) -> (g: u128)
    ensures
        g == gcd(a as nat, b as nat),
{
    let mut x = a;
    let mut y = b;
    while y != 0
        invariant
            gcd(x as nat, y as nat) == gcd(a as nat, b as nat),
        decreases y,
    {
        let r = x % y;
        x = y;
        y = r;
    }
    x
}

/// Dividing numerator and denominator by a common divisor keeps the value.
pub proof fn lemma_norm_keeps_value(r: Rat)
    requires
        rat_wf(r),
    ensures
        rat_wf(rat_norm(r)),
        rat_eq(rat_norm(r), r),
        rat_eq(r, rat_norm(r)),
        rat_is_zero(rat_norm(r)) == rat_is_zero(r),
{
    lemma_gcd_properties(r.n as nat, r.d as nat);
    let g = gcd(r.n as nat, r.d as nat) as int;
    assert(g > 0);
    lemma_fundamental_div_mod(r.n, g);
    lemma_fundamental_div_mod(r.d, g);
    let rn = r.n / g;
    let rd = r.d / g;
    assert(r.n == g * rn);
    assert(r.d == g * rd);
    assert(rn >= 0 && rd > 0) by (nonlinear_arith)
        requires
            r.n == g * rn,
            r.d == g * rd,
            r.n >= 0,
            r.d > 0,
            g > 0,
    ;
    assert(rn * r.d == r.n * rd) by (nonlinear_arith)
        requires
            r.n == g * rn,
            r.d == g * rd,
    ;
    assert(rn == 0 <==> r.n == 0) by (nonlinear_arith)
        requires
            r.n == g * rn,
            g > 0,
            rn >= 0,
    ;
}

/// The reduced form of an exact sum fits in `u64` components, and the sum's
/// numerator itself can be formed in `u128` arithmetic.
pub open spec fn add_fits(a: Rat, b: Rat) -> bool {
    rat_add(a, b).n <= u128::MAX && norm_fits(rat_add(a, b), u64::MAX as int)
}

/// The reduced form of an exact difference fits in `u64` components.
pub open spec fn sub_fits(a: Rat, b: Rat) -> bool {
    norm_fits(rat_sub(a, b), u64::MAX as int)
}

/// The reduced form of an exact product fits in `u64` components.
pub open spec fn mul_fits(a: Rat, b: Rat) -> bool {
    norm_fits(rat_mul(a, b), u64::MAX as int)
}

/// The reduced form of an exact quotient fits in `u64` components.
pub open spec fn div_fits(a: Rat, b: Rat) -> bool {
    norm_fits(rat_div(a, b), u64::MAX as int)
}

/// An exact non-negative rational number: `num / den` with `den > 0`.
///
/// The fields are exposed so that specifications can speak about them
/// directly; every operation requires `wf()`, so a value built by hand with a
/// zero denominator is rejected at the first use.
#[derive(Clone, Copy, Debug)]
pub struct Ratio {
    /// Numerator.
    pub num: u64,
    /// Denominator; well-formed values keep it positive.
    pub den: u64,
}

impl View for Ratio {
    type V = Rat;

    open spec fn view(&self) -> Rat {
        Rat { n: self.num as int, d: self.den as int }
    }
}

/// Builds the reduced ratio `n / d` when its reduced form fits in `u64`.
fn reduced(n: u128, d: u128) -> (r: Option<Ratio>)
    requires
        d > 0,
    ensures
        r is Some <==> norm_fits(Rat { n: n as int, d: d as int }, u64::MAX as int),
        r matches Some(q) ==> q.wf() && q@ == rat_norm(Rat { n: n as int, d: d as int }),
        r matches Some(q) ==> rat_eq(q@, Rat { n: n as int, d: d as int }),
        r matches Some(q) ==> (rat_is_zero(q@) <==> n == 0),
{
    let g = gcd_u128(n, d);
    proof {
        lemma_gcd_properties(n as nat, d as nat);
        lemma_norm_keeps_value(Rat { n: n as int, d: d as int });
    }
    let rn = n / g;
    let rd = d / g;
    if rn <= u64::MAX as u128 && rd <= u64::MAX as u128 {
        Some(Ratio { num: rn as u64, den: rd as u64 })
    } else {
        None
    }
}

impl Ratio {
    /// A well-formed ratio: positive denominator.
    pub open spec fn wf(self) -> bool {
        self.den > 0
    }

    /// The whole number `k`.
    pub fn whole(k: u64) -> (r: Ratio)
        ensures
            r.wf(),
            r@ == rat_whole(k as int),
    {
        Ratio { num: k, den: 1 }
    }

    /// Zero.
    pub fn zero() -> (r: Ratio)
        ensures
            r.wf(),
            r@ == rat_whole(0),
            rat_is_zero(r@),
    {
        Ratio { num: 0, den: 1 }
    }

    /// The reduced ratio `num / den`; `None` exactly when `den` is zero.
    pub fn new(num: u64, den: u64) -> (r: Option<Ratio>)
        ensures
            r is Some <==> den > 0,
            r matches Some(q) ==> q.wf() && q@ == rat_norm(Rat { n: num as int, d: den as int }),
            r matches Some(q) ==> rat_eq(q@, Rat { n: num as int, d: den as int }),
    {
        if den == 0 {
            None
        } else {
            proof {
                lemma_gcd_properties(num as nat, den as nat);
                let g = gcd(num as nat, den as nat) as int;
                lemma_fundamental_div_mod(num as int, g);
                lemma_fundamental_div_mod(den as int, g);
                assert(num as int / g <= num && den as int / g <= den) by (nonlinear_arith)
                    requires
                        g >= 1,
                        num as int == g * (num as int / g),
                        den as int == g * (den as int / g),
                        num as int / g >= 0 || num as int == g * (num as int / g),
                        num >= 0,
                        den >= 0,
                ;
            }
            reduced(num as u128, den as u128)
        }
    }

    /// True exactly when the value is zero.
    pub fn is_zero(&self) -> (r: bool)
        requires
            self.wf(),
        ensures
            r == rat_is_zero(self@),
    {
        self.num == 0
    }

    /// Exact comparison: `self < other` as rational numbers.
    pub fn lt(&self, other: &Ratio) -> (r: bool)
        requires
            self.wf(),
            other.wf(),
        ensures
            r == rat_lt(self@, other@),
    {
        proof {
            lemma_cross_products_fit(*self, *other);
        }
        (self.num as u128) * (other.den as u128) < (other.num as u128) * (self.den as u128)
    }

    /// Exact comparison: `self <= other` as rational numbers.
    pub fn le(&self, other: &Ratio) -> (r: bool)
        requires
            self.wf(),
            other.wf(),
        ensures
            r == rat_le(self@, other@),
    {
        proof {
            lemma_cross_products_fit(*self, *other);
        }
        (self.num as u128) * (other.den as u128) <= (other.num as u128) * (self.den as u128)
    }

    /// Exact comparison: `self == other` as rational numbers.
    pub fn eq_value(&self, other: &Ratio) -> (r: bool)
        requires
            self.wf(),
            other.wf(),
        ensures
            r == rat_eq(self@, other@),
    {
        proof {
            lemma_cross_products_fit(*self, *other);
        }
        (self.num as u128) * (other.den as u128) == (other.num as u128) * (self.den as u128)
    }

    /// Exact sum; `None` exactly when the reduced result leaves `u64`.
    pub fn try_add(&self, other: &Ratio) -> (r: Option<Ratio>)
        requires
            self.wf(),
            other.wf(),
        ensures
            r is Some <==> add_fits(self@, other@),
            r matches Some(q) ==> q.wf() && q@ == rat_norm(rat_add(self@, other@)),
            r matches Some(q) ==> rat_eq(q@, rat_add(self@, other@)),
            r matches Some(q) ==> (rat_is_zero(q@) <==> rat_is_zero(self@) && rat_is_zero(
                other@,
            )),
    {
        proof {
            lemma_add_zero_iff(self@, other@);
        }
        proof {
            lemma_cross_products_fit(*self, *other);
        }
        let n1 = (self.num as u128) * (other.den as u128);
        let n2 = (other.num as u128) * (self.den as u128);
        if n1 > u128::MAX - n2 {
            return None;
        }
        let d = (self.den as u128) * (other.den as u128);
        assert(d > 0) by (nonlinear_arith)
            requires
                self.den > 0,
                other.den > 0,
                d == self.den as int * other.den as int,
        ;
        reduced(n1 + n2, d)
    }

    /// Exact difference; requires `other <= self` so the result stays
    /// non-negative.  `None` exactly when the reduced result leaves `u64`.
    pub fn try_sub(&self, other: &Ratio) -> (r: Option<Ratio>)
        requires
            self.wf(),
            other.wf(),
            rat_le(other@, self@),
        ensures
            r is Some <==> sub_fits(self@, other@),
            r matches Some(q) ==> q.wf() && q@ == rat_norm(rat_sub(self@, other@)),
            r matches Some(q) ==> rat_eq(q@, rat_sub(self@, other@)),
    {
        proof {
            lemma_cross_products_fit(*self, *other);
        }
        let n1 = (self.num as u128) * (other.den as u128);
        let n2 = (other.num as u128) * (self.den as u128);
        let d = (self.den as u128) * (other.den as u128);
        assert(d > 0) by (nonlinear_arith)
            requires
                self.den > 0,
                other.den > 0,
                d == self.den as int * other.den as int,
        ;
        reduced(n1 - n2, d)
    }

    /// Exact product; `None` exactly when the reduced result leaves `u64`.
    pub fn try_mul(&self, other: &Ratio) -> (r: Option<Ratio>)
        requires
            self.wf(),
            other.wf(),
        ensures
            r is Some <==> mul_fits(self@, other@),
            r matches Some(q) ==> q.wf() && q@ == rat_norm(rat_mul(self@, other@)),
            r matches Some(q) ==> rat_eq(q@, rat_mul(self@, other@)),
    {
        proof {
            lemma_cross_products_fit(*self, *other);
        }
        let n = (self.num as u128) * (other.num as u128);
        let d = (self.den as u128) * (other.den as u128);
        assert(d > 0) by (nonlinear_arith)
            requires
                self.den > 0,
                other.den > 0,
                d == self.den as int * other.den as int,
        ;
        reduced(n, d)
    }

    /// Exact quotient; requires a non-zero divisor.  `None` exactly when the
    /// reduced result leaves `u64`.
    pub fn try_div(&self, other: &Ratio) -> (r: Option<Ratio>)
        requires
            self.wf(),
            other.wf(),
            !rat_is_zero(other@),
        ensures
            r is Some <==> div_fits(self@, other@),
            r matches Some(q) ==> q.wf() && q@ == rat_norm(rat_div(self@, other@)),
            r matches Some(q) ==> rat_eq(q@, rat_div(self@, other@)),
            r matches Some(q) ==> (rat_is_zero(q@) <==> rat_is_zero(self@)),
    {
        proof {
            lemma_cross_products_fit(*self, *other);
        }
        let n = (self.num as u128) * (other.den as u128);
        let d = (self.den as u128) * (other.num as u128);
        assert(d > 0) by (nonlinear_arith)
            requires
                self.den > 0,
                other.num > 0,
                d == self.den as int * other.num as int,
        ;
        assert(n == 0 <==> self.num == 0) by (nonlinear_arith)
            requires
                other.den > 0,
                n == self.num as int * other.den as int,
        ;
        reduced(n, d)
    }
}

/// Reduction never grows a component.
pub proof fn lemma_norm_shrinks(r: Rat)
    requires
        rat_wf(r),
    ensures
        rat_wf(rat_norm(r)),
        rat_norm(r).n <= r.n,
        rat_norm(r).d <= r.d,
{
    lemma_norm_keeps_value(r);
    lemma_gcd_properties(r.n as nat, r.d as nat);
    let g = gcd(r.n as nat, r.d as nat) as int;
    lemma_fundamental_div_mod(r.n, g);
    lemma_fundamental_div_mod(r.d, g);
    assert(r.n / g <= r.n && r.d / g <= r.d) by (nonlinear_arith)
        requires
            g >= 1,
            r.n >= 0,
            r.d > 0,
            r.n == g * (r.n / g),
            r.d == g * (r.d / g),
            r.n / g >= 0,
            r.d / g > 0,
    ;
}

/// Denoting the same rational is transitive across a well-formed middle term.
pub proof fn lemma_rat_eq_trans(a: Rat, b: Rat, c: Rat)
    requires
        b.d > 0,
        rat_eq(a, b),
        rat_eq(b, c),
    ensures
        rat_eq(a, c),
{
    assert(a.n * c.d == c.n * a.d) by (nonlinear_arith)
        requires
            b.d > 0,
            a.n * b.d == b.n * a.d,
            b.n * c.d == c.n * b.d,
    ;
}

/// Rearranging a product of four factors.
proof fn lemma_swap4(x: int, y: int, z: int, w: int)
    ensures
        (x * y) * (z * w) == (x * z) * (y * w),
{
    assert((x * y) * (z * w) == (x * z) * (y * w)) by (nonlinear_arith);
}

/// Substituting cross-equal pairs inside a product of four factors.
proof fn lemma_mono4(an: int, a2d: int, a2n: int, ad: int, p: int, q: int)
    requires
        an * a2d == a2n * ad,
    ensures
        (an * p) * (a2d * q) == (a2n * p) * (ad * q),
{
    lemma_swap4(an, p, a2d, q);
    lemma_swap4(a2n, p, ad, q);
}

/// Replacing one addend by an equal-valued ratio keeps the sum's value.
proof fn lemma_add_congruence_left(a: Rat, a2: Rat, b: Rat)
    requires
        rat_eq(a, a2),
    ensures
        rat_eq(rat_add(a, b), rat_add(a2, b)),
{
    lemma_mul_is_distributive_add_other_way(a2.d * b.d, a.n * b.d, b.n * a.d);
    lemma_mul_is_distributive_add_other_way(a.d * b.d, a2.n * b.d, b.n * a2.d);
    lemma_mono4(a.n, a2.d, a2.n, a.d, b.d, b.d);
    lemma_swap4(b.n, a.d, a2.d, b.d);
    lemma_swap4(b.n, a2.d, a.d, b.d);
    lemma_mul_is_commutative(a.d, a2.d);
    lemma_mul_is_commutative(a2.d, a.d);
}

/// Sums of equal-valued ratios are equal-valued.
pub proof fn lemma_add_congruence(a: Rat, b: Rat, a2: Rat, b2: Rat)
    requires
        a.d > 0,
        b.d > 0,
        a2.d > 0,
        b2.d > 0,
        rat_eq(a, a2),
        rat_eq(b, b2),
    ensures
        rat_eq(rat_add(a, b), rat_add(a2, b2)),
{
    lemma_add_congruence_left(a, a2, b);
    lemma_add_congruence_left(b, b2, a2);
    assert(rat_eq(rat_add(b, a2), rat_add(b2, a2)));
    assert(rat_eq(rat_add(a2, b), rat_add(b, a2))) by (nonlinear_arith);
    assert(rat_eq(rat_add(b2, a2), rat_add(a2, b2))) by (nonlinear_arith);
    assert(a2.d * b.d > 0 && b.d * a2.d > 0 && b2.d * a2.d > 0) by (nonlinear_arith)
        requires
            a2.d > 0,
            b.d > 0,
            b2.d > 0,
    ;
    lemma_rat_eq_trans(rat_add(a, b), rat_add(a2, b), rat_add(b, a2));
    lemma_rat_eq_trans(rat_add(a, b), rat_add(b, a2), rat_add(b2, a2));
    lemma_rat_eq_trans(rat_add(a, b), rat_add(b2, a2), rat_add(a2, b2));
}

/// Products of equal-valued ratios are equal-valued.
pub proof fn lemma_mul_congruence(a: Rat, b: Rat, a2: Rat, b2: Rat)
    requires
        rat_eq(a, a2),
        rat_eq(b, b2),
    ensures
        rat_eq(rat_mul(a, b), rat_mul(a2, b2)),
{
    assert((a.n * b.n) * (a2.d * b2.d) == (a2.n * b2.n) * (a.d * b.d)) by (nonlinear_arith)
        requires
            a.n * a2.d == a2.n * a.d,
            b.n * b2.d == b2.n * b.d,
    ;
}

/// Quotients of equal-valued ratios are equal-valued.
pub proof fn lemma_div_congruence(a: Rat, b: Rat, a2: Rat, b2: Rat)
    requires
        rat_eq(a, a2),
        rat_eq(b, b2),
    ensures
        rat_eq(rat_div(a, b), rat_div(a2, b2)),
{
    assert((a.n * b.d) * (a2.d * b2.n) == (a2.n * b2.d) * (a.d * b.n)) by (nonlinear_arith)
        requires
            a.n * a2.d == a2.n * a.d,
            b.n * b2.d == b2.n * b.d,
    ;
}

/// Addition of ratios is commutative up to value.
pub proof fn lemma_add_comm(x: Rat, y: Rat)
    ensures
        rat_eq(rat_add(x, y), rat_add(y, x)),
{
    lemma_mul_is_commutative(x.d, y.d);
}

/// Addition of ratios is associative up to value.
pub proof fn lemma_add_assoc(x: Rat, y: Rat, z: Rat)
    ensures
        rat_eq(rat_add(rat_add(x, y), z), rat_add(x, rat_add(y, z))),
{
    let a = rat_add(rat_add(x, y), z);
    let b = rat_add(x, rat_add(y, z));
    lemma_mul_is_distributive_add_other_way(z.d, x.n * y.d, y.n * x.d);
    lemma_mul_is_distributive_add_other_way(x.d, y.n * z.d, z.n * y.d);
    vstd::arithmetic::mul::lemma_mul_is_associative(x.n, y.d, z.d);
    vstd::arithmetic::mul::lemma_mul_is_associative(y.n, x.d, z.d);
    lemma_mul_is_commutative(x.d, z.d);
    vstd::arithmetic::mul::lemma_mul_is_associative(y.n, z.d, x.d);
    lemma_mul_is_commutative(x.d, y.d);
    vstd::arithmetic::mul::lemma_mul_is_associative(z.n, y.d, x.d);
    vstd::arithmetic::mul::lemma_mul_is_associative(x.d, y.d, z.d);
    assert(y.n * x.d * z.d == y.n * z.d * x.d) by {
        vstd::arithmetic::mul::lemma_mul_is_associative(y.n, x.d, z.d);
        lemma_mul_is_commutative(x.d, z.d);
        vstd::arithmetic::mul::lemma_mul_is_associative(y.n, z.d, x.d);
    }
    assert(z.n * (x.d * y.d) == z.n * y.d * x.d) by {
        lemma_mul_is_commutative(x.d, y.d);
        vstd::arithmetic::mul::lemma_mul_is_associative(z.n, y.d, x.d);
    }
    assert(a.n == x.n * (y.d * z.d) + y.n * z.d * x.d + z.n * y.d * x.d) by {
        vstd::arithmetic::mul::lemma_mul_is_associative(x.n, y.d, z.d);
    }
    assert(b.n == x.n * (y.d * z.d) + y.n * z.d * x.d + z.n * y.d * x.d);
    assert(a.d == b.d) by {
        vstd::arithmetic::mul::lemma_mul_is_associative(x.d, y.d, z.d);
    }
}

/// Adding a zero-valued ratio keeps the value.
pub proof fn lemma_add_zero(a: Rat, z: Rat)
    requires
        rat_is_zero(z),
    ensures
        rat_eq(rat_add(a, z), a),
        rat_eq(rat_add(z, a), a),
{
    assert((a.n * z.d + z.n * a.d) * a.d == a.n * (a.d * z.d)) by (nonlinear_arith)
        requires
            z.n == 0,
    ;
    assert((z.n * a.d + a.n * z.d) * a.d == a.n * (z.d * a.d)) by (nonlinear_arith)
        requires
            z.n == 0,
    ;
}

/// Ordering of ratios respects equality of values.
pub proof fn lemma_le_congruence(a: Rat, b: Rat, a2: Rat, b2: Rat)
    requires
        a.d > 0,
        b.d > 0,
        a2.d > 0,
        b2.d > 0,
        rat_eq(a, a2),
        rat_eq(b, b2),
        rat_le(a, b),
    ensures
        rat_le(a2, b2),
{
    assert(a2.n * b2.d <= b2.n * a2.d) by (nonlinear_arith)
        requires
            a.d > 0,
            b.d > 0,
            a2.d > 0,
            b2.d > 0,
            a.n * a2.d == a2.n * a.d,
            b.n * b2.d == b2.n * b.d,
            a.n * b.d <= b.n * a.d,
    ;
}

/// Of two well-formed ratios, one is always no larger than the other.
pub proof fn lemma_lt_flips(a: Rat, b: Rat)
    requires
        !rat_le(b, a),
    ensures
        rat_le(a, b),
{
}

/// A sum of well-formed ratios dominates each addend.
pub proof fn lemma_add_le(a: Rat, b: Rat)
    requires
        rat_wf(a),
        rat_wf(b),
    ensures
        rat_le(a, rat_add(a, b)),
        rat_le(b, rat_add(a, b)),
        rat_wf(rat_add(a, b)),
    {
    assert(a.n * (a.d * b.d) <= (a.n * b.d + b.n * a.d) * a.d && b.n * (a.d * b.d) <= (a.n * b.d
        + b.n * a.d) * b.d && a.n * b.d + b.n * a.d >= 0 && a.d * b.d > 0) by (nonlinear_arith)
        requires
            a.n >= 0,
            a.d > 0,
            b.n >= 0,
            b.d > 0,
    ;
}

/// Taking away one addend of a sum leaves the other addend's value.
pub proof fn lemma_add_then_sub(a: Rat, b: Rat, s: Rat)
    requires
        rat_wf(a),
        rat_wf(b),
        s.d > 0,
        rat_eq(s, rat_add(a, b)),
    ensures
        rat_eq(rat_sub(s, b), a),
    {
    assert((s.n * b.d - b.n * s.d) * a.d == a.n * (s.d * b.d)) by (nonlinear_arith)
        requires
            a.d > 0,
            b.d > 0,
            s.d > 0,
            s.n * (a.d * b.d) == (a.n * b.d + b.n * a.d) * s.d,
    ;
}

/// A sum of well-formed ratios is zero exactly when both addends are.
pub proof fn lemma_add_zero_iff(a: Rat, b: Rat)
    requires
        rat_wf(a),
        rat_wf(b),
    ensures
        rat_is_zero(rat_add(a, b)) <==> rat_is_zero(a) && rat_is_zero(b),
{
    assert(a.n * b.d + b.n * a.d == 0 <==> a.n == 0 && b.n == 0) by (nonlinear_arith)
        requires
            a.n >= 0,
            a.d > 0,
            b.n >= 0,
            b.d > 0,
    ;
}

/// Dividing a ratio by an equal-valued positive ratio gives equal components.
pub proof fn lemma_div_self_like(x: Rat, y: Rat)
    requires
        x.d > 0,
        y.d > 0,
        x.n > 0,
        rat_eq(x, y),
    ensures
        rat_div(x, y).n == rat_div(x, y).d,
        rat_div(x, y).n > 0,
{
    assert(x.n * y.d == x.d * y.n && x.n * y.d > 0) by (nonlinear_arith)
        requires
            x.n * y.d == y.n * x.d,
            x.n > 0,
            x.d > 0,
            y.d > 0,
    ;
}

/// A ratio equal in value to one with equal positive components has equal
/// components itself.
pub proof fn lemma_eq_components(p: Rat, x: Rat)
    requires
        rat_eq(p, x),
        x.n == x.d,
        x.n > 0,
    ensures
        p.n == p.d,
{
    assert(p.n == p.d) by (nonlinear_arith)
        requires
            p.n * x.d == x.n * p.d,
            x.n == x.d,
            x.n > 0,
    ;
}

/// Dividing first by a ratio and then by a whole number is dividing by their
/// product.
pub proof fn lemma_div_div_whole(a: Rat, b: Rat, k: int)
    ensures
        rat_eq(rat_div(rat_div(a, b), rat_whole(k)), rat_div(a, rat_mul(rat_whole(k), b))),
{
    assert((a.n * b.d * 1) * (a.d * (k * b.n)) == (a.n * (1 * b.d)) * (a.d * b.n * k))
        by (nonlinear_arith);
}

/// Scaling by `k / m` and then dividing by `k` is dividing by `m`.
pub proof fn lemma_scale_then_div(a: Rat, k: int, m: int)
    ensures
        rat_eq(
            rat_div(rat_mul(a, Rat { n: k, d: m }), rat_whole(k)),
            rat_div(a, rat_whole(m)),
        ),
{
    assert((a.n * k * 1) * (a.d * m) == (a.n * 1) * (a.d * m * k)) by (nonlinear_arith);
}

/// Products of two `u64`-range factors stay within `u128`.
proof fn lemma_cross_products_fit(a: Ratio, b: Ratio)
    ensures
        a.num * b.den <= u128::MAX,
        b.num * a.den <= u128::MAX,
        a.num * b.num <= u128::MAX,
        a.den * b.den <= u128::MAX,
        b.den * a.den <= u128::MAX,
        a.den * b.num <= u128::MAX,
{
    lemma_mul_upper_bound(a.den as int, u64::MAX as int, b.num as int, u64::MAX as int);
    lemma_mul_upper_bound(a.num as int, u64::MAX as int, b.den as int, u64::MAX as int);
    lemma_mul_upper_bound(b.num as int, u64::MAX as int, a.den as int, u64::MAX as int);
    lemma_mul_upper_bound(a.num as int, u64::MAX as int, b.num as int, u64::MAX as int);
    lemma_mul_upper_bound(a.den as int, u64::MAX as int, b.den as int, u64::MAX as int);
    lemma_mul_upper_bound(b.den as int, u64::MAX as int, a.den as int, u64::MAX as int);
}

} // verus!
