//! Exact rational arithmetic for the grid engine.
//!
//! Every quantity the engine works with (prices, sizes, percentages) is a
//! `Rat`: a numerator over a strictly positive denominator, both `i64`.
//! Operations compute the textbook numerator/denominator formulas in wide
//! integers (where they cannot overflow), reduce the result to lowest
//! terms, and succeed exactly when the reduced components fit back into
//! `i64`; otherwise they return `None`.
//!
//! A `Rat` built directly from a numerator and denominator is stored as
//! given, so two `Rat`s representing the same rational number may differ
//! componentwise; `eq_rat` and `lt_rat` compare by value
//! (cross-multiplication), which is sound because denominators are
//! positive.

use vstd::arithmetic::div_mod::{
    lemma_fundamental_div_mod, lemma_mod_multiples_basic, lemma_mod_self_0, lemma_small_mod,
};
use vstd::prelude::*;
use vstd::string::{StrSliceExecFns, StringExecFns};

verus! {

/// A rational number: `n / d` with `d > 0` (see [`Rat::wf`]).
#[derive(Clone, Copy, Debug, PartialEq, Eq, Structural)]
pub struct Rat {
    n: i64,
    d: i64,
}

impl View for Rat {
    type V = (int, int);

    closed spec fn view(&self) -> (int, int) {
        (self.n as int, self.d as int)
    }
}

/// Absolute value of a mathematical integer.
pub open spec fn abs_int(x: int) -> int {
    if x >= 0 {
        x
    } else {
        -x
    }
}

/// Euclid's greatest common divisor.
pub open spec fn spec_gcd(a: nat, b: nat) -> nat
    decreases b,
{
    if b == 0 {
        a
    } else {
        spec_gcd(b, a % b)
    }
}

/// A numerator/denominator pair in lowest terms: both components divided
/// by their greatest common divisor, the sign kept on the numerator.
pub open spec fn rat_norm(p: (int, int)) -> (int, int) {
    let g = spec_gcd(abs_int(p.0) as nat, p.1 as nat) as int;
    if p.0 >= 0 {
        (p.0 / g, p.1 / g)
    } else {
        (-((-p.0) / g), p.1 / g)
    }
}

/// Numerator and denominator of the (mathematical) product.
pub open spec fn rat_mul(a: (int, int), b: (int, int)) -> (int, int) {
    (a.0 * b.0, a.1 * b.1)
}

/// Numerator and denominator of the (mathematical) sum.
pub open spec fn rat_add(a: (int, int), b: (int, int)) -> (int, int) {
    (a.0 * b.1 + b.0 * a.1, a.1 * b.1)
}

/// Numerator and denominator of the (mathematical) difference.
pub open spec fn rat_sub(a: (int, int), b: (int, int)) -> (int, int) {
    (a.0 * b.1 - b.0 * a.1, a.1 * b.1)
}

/// Numerator and denominator of the quotient, with the sign moved into the
/// numerator so that the denominator stays positive.
pub open spec fn rat_div(a: (int, int), b: (int, int)) -> (int, int) {
    if b.0 >= 0 {
        (a.0 * b.1, a.1 * b.0)
    } else {
        (-(a.0 * b.1), -(a.1 * b.0))
    }
}

/// The product, in lowest terms: what [`Rat::checked_mul`] computes.
pub open spec fn norm_mul(a: (int, int), b: (int, int)) -> (int, int) {
    rat_norm(rat_mul(a, b))
}

/// The sum, in lowest terms: what [`Rat::checked_add`] computes.
pub open spec fn norm_add(a: (int, int), b: (int, int)) -> (int, int) {
    rat_norm(rat_add(a, b))
}

/// The difference, in lowest terms: what [`Rat::checked_sub`] computes.
pub open spec fn norm_sub(a: (int, int), b: (int, int)) -> (int, int) {
    rat_norm(rat_sub(a, b))
}

/// The quotient, in lowest terms: what [`Rat::checked_div`] computes.
pub open spec fn norm_div(a: (int, int), b: (int, int)) -> (int, int) {
    rat_norm(rat_div(a, b))
}

/// Value equality of two rationals with positive denominators.
pub open spec fn rat_eq(a: (int, int), b: (int, int)) -> bool {
    a.0 * b.1 == b.0 * a.1
}

/// Value ordering of two rationals with positive denominators.
pub open spec fn rat_lt(a: (int, int), b: (int, int)) -> bool {
    a.0 * b.1 < b.0 * a.1
}

/// Whether a mathematical integer fits into an `i64`.
pub open spec fn fits_i64(x: int) -> bool {
    i64::MIN as int <= x <= i64::MAX as int
}

/// Whether both components of a numerator/denominator pair fit into `i64`,
/// i.e. whether the pair is representable as a `Rat`.
pub open spec fn fits_rat(p: (int, int)) -> bool {
    fits_i64(p.0) && fits_i64(p.1)
}

proof fn lemma_gcd_divides(a: nat, b: nat)
    ensures
        a > 0 || b > 0 ==> spec_gcd(a, b) > 0 && a as int % (spec_gcd(a, b) as int) == 0 && (
        b as int) % (spec_gcd(a, b) as int) == 0,
    decreases b,
{
    if b == 0 {
        if a > 0 {
            lemma_mod_self_0(a as int);
            lemma_small_mod(0, a);
        }
    } else {
        lemma_gcd_divides(b, a % b);
        let g = spec_gcd(b, a % b) as int;
        let q = a as int / b as int;
        let k1 = b as int / g;
        let k2 = (a % b) as int / g;
        lemma_fundamental_div_mod(a as int, b as int);
        lemma_fundamental_div_mod(b as int, g);
        lemma_fundamental_div_mod((a % b) as int, g);
        assert(a as int == (k1 * q + k2) * g) by (nonlinear_arith)
            requires
                a as int == b as int * q + (a % b),
                b as int == g * k1 + 0,
                (a % b) as int == g * k2 + 0,
        ;
        lemma_mod_multiples_basic(k1 * q + k2, g);
    }
}

/// Reducing a pair with a positive denominator to lowest terms keeps the
/// denominator positive and does not change the value.
pub proof fn lemma_norm_preserves_value(p: (int, int))
    requires
        p.1 > 0,
    ensures
        rat_norm(p).1 > 0,
        rat_eq(rat_norm(p), p),
{
    let a = abs_int(p.0) as nat;
    let b = p.1 as nat;
    lemma_gcd_divides(a, b);
    let g = spec_gcd(a, b) as int;
    lemma_fundamental_div_mod(a as int, g);
    lemma_fundamental_div_mod(p.1, g);
    let qa = a as int / g;
    let qb = p.1 / g;
    assert(qb > 0) by (nonlinear_arith)
        requires
            p.1 == g * qb + 0,
            g > 0,
            p.1 > 0,
    ;
    if p.0 >= 0 {
        assert(qa * (g * qb) == (g * qa) * qb) by (nonlinear_arith);
    } else {
        assert((-qa) * (g * qb) == (-(g * qa)) * qb) by (nonlinear_arith);
    }
}

/// Cross-multiplication equality is transitive while the middle
/// denominator is positive.
pub proof fn lemma_rat_eq_trans(a: (int, int), b: (int, int), c: (int, int))
    by (nonlinear_arith)
    requires
        a.0 * b.1 == b.0 * a.1,
        b.0 * c.1 == c.0 * b.1,
        b.1 > 0,
    ensures
        a.0 * c.1 == c.0 * a.1,
{
}

proof fn lemma_i64_mul_in_i128(a: int, b: int)
    by (nonlinear_arith)
    requires
        -0x8000_0000_0000_0000 <= a <= 0x7FFF_FFFF_FFFF_FFFF,
        -0x8000_0000_0000_0000 <= b <= 0x7FFF_FFFF_FFFF_FFFF,
    ensures
        -0x4000_0000_0000_0000_0000_0000_0000_0000 <= a * b,
        a * b <= 0x4000_0000_0000_0000_0000_0000_0000_0000,
{
}

proof fn lemma_num_times_den_bound(a: int, d: int)
    by (nonlinear_arith)
    requires
        -0x8000_0000_0000_0000 <= a <= 0x7FFF_FFFF_FFFF_FFFF,
        1 <= d <= 0x7FFF_FFFF_FFFF_FFFF,
    ensures
        -0x3FFF_FFFF_FFFF_FFFF_8000_0000_0000_0000 <= a * d,
        a * d <= 0x3FFF_FFFF_FFFF_FFFF_8000_0000_0000_0000,
{
}

pub(crate) proof fn lemma_pos_times_pos(a: int, b: int)
    by (nonlinear_arith)
    requires
        a > 0,
        b > 0,
    ensures
        a * b > 0,
{
}

pub(crate) proof fn lemma_pos_times_neg(a: int, b: int)
    by (nonlinear_arith)
    requires
        a > 0,
        b < 0,
    ensures
        a * b < 0,
{
}

fn gcd_u128(a: u128, b: u128) -> (g: u128)
    requires
        1 <= b,
    ensures
        g as nat == spec_gcd(a as nat, b as nat),
        1 <= g,
        a as int % (g as int) == 0,
        b as int % (g as int) == 0,
{
    proof {
        lemma_gcd_divides(a as nat, b as nat);
    }
    let mut x: u128 = a;
    let mut y: u128 = b;
    while y != 0
        invariant
            x >= 1 || y >= 1,
            spec_gcd(x as nat, y as nat) == spec_gcd(a as nat, b as nat),
        decreases y,
    {
        let t: u128 = x % y;
        x = y;
        y = t;
    }
    x
}

/// Reduces `n / d` to lowest terms and packs it into a `Rat` if it fits.
fn reduce_and_check(n: i128, d: i128) -> (r: Option<Rat>)
    requires
        -0x7FFF_FFFF_FFFF_FFFF_FFFF_FFFF_FFFF_FFFF <= n,
        1 <= d,
    ensures
        r is Some <==> fits_rat(rat_norm((n as int, d as int))),
        r matches Some(p) ==> p@ == rat_norm((n as int, d as int)) && p.wf(),
{
    let neg = n < 0;
    let na: u128 = if neg {
        (-n) as u128
    } else {
        n as u128
    };
    let du: u128 = d as u128;
    let g: u128 = gcd_u128(na, du);
    proof {
        lemma_fundamental_div_mod(na as int, g as int);
        lemma_fundamental_div_mod(du as int, g as int);
        assert(du as int / g as int >= 1) by (nonlinear_arith)
            requires
                du as int == (g as int) * (du as int / g as int) + 0,
                g as int >= 1,
                du as int >= 1,
        ;
    }
    let rn: u128 = na / g;
    let rd: u128 = d as u128 / g;
    if neg {
        if rn <= 0x8000_0000_0000_0000u128 && rd <= i64::MAX as u128 {
            let sn: i64 = (-(rn as i128)) as i64;
            Some(Rat { n: sn, d: rd as i64 })
        } else {
            None
        }
    } else {
        if rn <= i64::MAX as u128 && rd <= i64::MAX as u128 {
            Some(Rat { n: rn as i64, d: rd as i64 })
        } else {
            None
        }
    }
}


/// The character for one decimal digit.
pub open spec fn spec_digit(d: nat) -> char {
    if d == 0 {
        '0'
    } else if d == 1 {
        '1'
    } else if d == 2 {
        '2'
    } else if d == 3 {
        '3'
    } else if d == 4 {
        '4'
    } else if d == 5 {
        '5'
    } else if d == 6 {
        '6'
    } else if d == 7 {
        '7'
    } else if d == 8 {
        '8'
    } else {
        '9'
    }
}

/// Decimal digits of a nonnegative number, most significant first.
pub open spec fn spec_nat_text(n: nat) -> Seq<char>
    decreases n,
{
    if n < 10 {
        seq![spec_digit(n)]
    } else {
        spec_nat_text(n / 10).push(spec_digit(n % 10))
    }
}

/// Decimal text of an integer, with a leading minus sign when negative.
pub open spec fn spec_int_text(n: int) -> Seq<char> {
    if n >= 0 {
        spec_nat_text(n as nat)
    } else {
        seq!['-'] + spec_nat_text((-n) as nat)
    }
}

/// Text of a numerator/denominator pair: the numerator alone when the
/// denominator is one, otherwise numerator, slash, denominator.
pub open spec fn spec_rat_text(p: (int, int)) -> Seq<char> {
    if p.1 == 1 {
        spec_int_text(p.0)
    } else {
        spec_int_text(p.0) + "/"@ + spec_int_text(p.1)
    }
}

fn digit_text(d: u64) -> (r: String)
    requires
        d < 10,
    ensures
        r@ == seq![spec_digit(d as nat)],
{
    let s: String = if d == 0 {
        String::from_str("0")
    } else if d == 1 {
        String::from_str("1")
    } else if d == 2 {
        String::from_str("2")
    } else if d == 3 {
        String::from_str("3")
    } else if d == 4 {
        String::from_str("4")
    } else if d == 5 {
        String::from_str("5")
    } else if d == 6 {
        String::from_str("6")
    } else if d == 7 {
        String::from_str("7")
    } else if d == 8 {
        String::from_str("8")
    } else {
        String::from_str("9")
    };
    proof {
        reveal_strlit("0");
        reveal_strlit("1");
        reveal_strlit("2");
        reveal_strlit("3");
        reveal_strlit("4");
        reveal_strlit("5");
        reveal_strlit("6");
        reveal_strlit("7");
        reveal_strlit("8");
        reveal_strlit("9");
        assert(s@ =~= seq![spec_digit(d as nat)]);
    }
    s
}

fn nat_text_u64(n: u64) -> (r: String)
    ensures
        r@ == spec_nat_text(n as nat),
    decreases n,
{
    if n < 10 {
        digit_text(n)
    } else {
        let prefix = nat_text_u64(n / 10);
        let last = digit_text(n % 10);
        let r = prefix.concat(last.as_str());
        proof {
            assert(r@ =~= spec_nat_text(n as nat));
        }
        r
    }
}

fn int_text_i64(n: i64) -> (r: String)
    ensures
        r@ == spec_int_text(n as int),
{
    if n >= 0 {
        nat_text_u64(n as u64)
    } else {
        let m: u64 = (-(n as i128)) as u64;
        let digits = nat_text_u64(m);
        let r = String::from_str("-").concat(digits.as_str());
        proof {
            reveal_strlit("-");
            assert(r@ =~= spec_int_text(n as int));
        }
        r
    }
}

impl Rat {
    /// The denominator is strictly positive. Every `Rat` this library hands
    /// out satisfies this, and every operation requires it.
    pub open spec fn wf(self) -> bool {
        self@.1 > 0
    }

    pub fn new(n: i64, d: i64) -> (r: Rat)
        requires
            d > 0,
        ensures
            r@ == (n as int, d as int),
            r.wf(),
    {
        Rat { n, d }
    }

    pub fn from_int(n: i64) -> (r: Rat)
        ensures
            r@ == (n as int, 1int),
            r.wf(),
    {
        Rat { n, d: 1 }
    }


    /// The value as text: the numerator alone when the denominator is one,
    /// otherwise numerator, slash, denominator.
    pub fn to_text(&self) -> (r: String)
        ensures
            r@ == spec_rat_text(self@),
    {
        if self.d == 1 {
            int_text_i64(self.n)
        } else {
            let r = int_text_i64(self.n).concat("/").concat(int_text_i64(self.d).as_str());
            proof {
                assert(r@ =~= spec_rat_text(self@));
            }
            r
        }
    }

    pub fn num(&self) -> (r: i64)
        ensures
            r as int == self@.0,
    {
        self.n
    }

    pub fn den(&self) -> (r: i64)
        ensures
            r as int == self@.1,
    {
        self.d
    }

    /// True exactly when the value is zero (the numerator is zero).
    pub fn is_zero(&self) -> (r: bool)
        ensures
            r == (self@.0 == 0),
    {
        self.n == 0
    }

    /// True exactly when the value is strictly positive.
    pub fn is_pos(&self) -> (r: bool)
        ensures
            r == (self@.0 > 0),
    {
        self.n > 0
    }

    /// Value equality by cross-multiplication.
    pub fn eq_rat(&self, other: &Rat) -> (r: bool)
        requires
            self.wf(),
            other.wf(),
        ensures
            r == rat_eq(self@, other@),
    {
        proof {
            lemma_num_times_den_bound(self.n as int, other.d as int);
            lemma_num_times_den_bound(other.n as int, self.d as int);
        }
        (self.n as i128) * (other.d as i128) == (other.n as i128) * (self.d as i128)
    }

    /// Value ordering by cross-multiplication.
    pub fn lt_rat(&self, other: &Rat) -> (r: bool)
        requires
            self.wf(),
            other.wf(),
        ensures
            r == rat_lt(self@, other@),
    {
        proof {
            lemma_num_times_den_bound(self.n as int, other.d as int);
            lemma_num_times_den_bound(other.n as int, self.d as int);
        }
        (self.n as i128) * (other.d as i128) < (other.n as i128) * (self.d as i128)
    }

    pub fn checked_add(&self, other: &Rat) -> (r: Option<Rat>)
        requires
            self.wf(),
            other.wf(),
        ensures
            r is Some <==> fits_rat(norm_add(self@, other@)),
            r matches Some(p) ==> p@ == norm_add(self@, other@) && p.wf(),
    {
        proof {
            lemma_num_times_den_bound(self.n as int, other.d as int);
            lemma_num_times_den_bound(other.n as int, self.d as int);
            lemma_i64_mul_in_i128(self.d as int, other.d as int);
            lemma_pos_times_pos(self.d as int, other.d as int);
        }
        let n: i128 = (self.n as i128) * (other.d as i128) + (other.n as i128) * (self.d as i128);
        let d: i128 = (self.d as i128) * (other.d as i128);
        reduce_and_check(n, d)
    }

    pub fn checked_sub(&self, other: &Rat) -> (r: Option<Rat>)
        requires
            self.wf(),
            other.wf(),
        ensures
            r is Some <==> fits_rat(norm_sub(self@, other@)),
            r matches Some(p) ==> p@ == norm_sub(self@, other@) && p.wf(),
    {
        proof {
            lemma_num_times_den_bound(self.n as int, other.d as int);
            lemma_num_times_den_bound(other.n as int, self.d as int);
            lemma_i64_mul_in_i128(self.d as int, other.d as int);
            lemma_pos_times_pos(self.d as int, other.d as int);
        }
        let n: i128 = (self.n as i128) * (other.d as i128) - (other.n as i128) * (self.d as i128);
        let d: i128 = (self.d as i128) * (other.d as i128);
        reduce_and_check(n, d)
    }

    pub fn checked_mul(&self, other: &Rat) -> (r: Option<Rat>)
        requires
            self.wf(),
            other.wf(),
        ensures
            r is Some <==> fits_rat(norm_mul(self@, other@)),
            r matches Some(p) ==> p@ == norm_mul(self@, other@) && p.wf(),
    {
        proof {
            lemma_i64_mul_in_i128(self.n as int, other.n as int);
            lemma_i64_mul_in_i128(self.d as int, other.d as int);
            lemma_pos_times_pos(self.d as int, other.d as int);
        }
        let n: i128 = (self.n as i128) * (other.n as i128);
        let d: i128 = (self.d as i128) * (other.d as i128);
        reduce_and_check(n, d)
    }

    /// Division. `None` when the divisor is zero or the reduced result
    /// does not fit.
    pub fn checked_div(&self, other: &Rat) -> (r: Option<Rat>)
        requires
            self.wf(),
            other.wf(),
        ensures
            r is Some <==> other@.0 != 0 && fits_rat(norm_div(self@, other@)),
            r matches Some(p) ==> p@ == norm_div(self@, other@) && p.wf(),
    {
        if other.n == 0 {
            return None;
        }
        proof {
            lemma_num_times_den_bound(self.n as int, other.d as int);
            lemma_i64_mul_in_i128(self.d as int, other.n as int);
            if other.n > 0 {
                lemma_pos_times_pos(self.d as int, other.n as int);
            } else {
                lemma_pos_times_neg(self.d as int, other.n as int);
            }
        }
        let mut n: i128 = (self.n as i128) * (other.d as i128);
        let mut d: i128 = (self.d as i128) * (other.n as i128);
        if d < 0 {
            n = -n;
            d = -d;
        }
        reduce_and_check(n, d)
    }
}

} // verus!
