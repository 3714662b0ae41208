//! IEEE 754 binary64 numbers, held as their 64 bits and read with integer
//! arithmetic only: each finite number is an exact fraction of two naturals.

use crate::decimal::{
    decimal, digit, digit_char, is_digit, lemma_decimal_is_digits, push_decimal, Natural,
};
use crate::text::push_char;
use vstd::arithmetic::div_mod::{
    lemma_basic_div, lemma_fundamental_div_mod, lemma_mod_bound, lemma_mod_decreases,
    lemma_small_mod,
};
use vstd::arithmetic::power2::{
    lemma2_to64, lemma2_to64_rest, lemma_pow2_pos, lemma_pow2_strictly_increases,
    lemma_pow2_unfold, pow2,
};
use vstd::prelude::*;

verus! {

/// Two to the power 52: the weight of the lowest bit of the exponent field.
pub const FRACTION_SPAN: u64 = 0x0010_0000_0000_0000;

/// Two to the power 63: the weight of the sign bit.
pub const SIGN_SPAN: u64 = 0x8000_0000_0000_0000;

/// The exponent field of an infinity or a NaN.
pub const EXPONENT_TOP: u64 = 2047;

/// A binary64 number as its bits: one sign bit, eleven exponent bits and
/// fifty-two fraction bits, from the highest bit down.
#[derive(Clone, Copy, Debug, PartialEq, Eq)]
pub struct Binary64 {
    pub bits: u64,
}

impl Binary64 {
    /// The sign bit is set. This holds of negative zero too.
    pub open spec fn negative(self) -> bool {
        self.bits >= SIGN_SPAN
    }

    /// The eleven exponent bits as a number.
    pub open spec fn exponent_field(self) -> int {
        (self.bits as int / FRACTION_SPAN as int) % 2048
    }

    /// The fifty-two fraction bits as a number.
    pub open spec fn fraction_field(self) -> int {
        self.bits as int % FRACTION_SPAN as int
    }

    /// The bits stand for no number.
    pub open spec fn nan(self) -> bool {
        self.exponent_field() == EXPONENT_TOP && self.fraction_field() != 0
    }

    /// The bits stand for an infinity, of either sign.
    pub open spec fn infinite(self) -> bool {
        self.exponent_field() == EXPONENT_TOP && self.fraction_field() == 0
    }

    /// The bits stand for a number: a zero, a subnormal or a normal one.
    pub open spec fn finite(self) -> bool {
        self.exponent_field() < EXPONENT_TOP
    }

    /// The integer that the fraction bits stand for, with the hidden bit of
    /// a normal number.
    pub open spec fn significand(self) -> nat {
        if self.exponent_field() == 0 {
            self.fraction_field() as nat
        } else {
            (FRACTION_SPAN + self.fraction_field()) as nat
        }
    }

    /// The power of two that scales the significand: the magnitude of a
    /// finite number is `significand() * 2^exponent()`.
    pub open spec fn exponent(self) -> int {
        if self.exponent_field() == 0 {
            -1074
        } else {
            self.exponent_field() - 1075
        }
    }

    /// How far the significand is scaled up: the exponent where it is
    /// positive, else zero.
    pub open spec fn scale_up(self) -> nat {
        if self.exponent() >= 0 {
            self.exponent() as nat
        } else {
            0
        }
    }

    /// How far the significand is scaled down: the exponent's distance
    /// below zero.
    pub open spec fn scale_down(self) -> nat {
        if self.exponent() >= 0 {
            0
        } else {
            (-self.exponent()) as nat
        }
    }

    /// Numerator of the magnitude of a finite number.
    pub open spec fn numerator(self) -> nat {
        self.significand() * pow2(self.scale_up())
    }

    /// Denominator of the magnitude of a finite number: a power of two.
    pub open spec fn denominator(self) -> nat {
        pow2(self.scale_down())
    }

    /// The number is less than the integer `k`. A NaN is less than nothing.
    pub open spec fn less_than(self, k: int) -> bool {
        if self.nan() {
            false
        } else if self.infinite() {
            self.negative()
        } else if self.negative() {
            -(self.numerator() as int) < k * self.denominator()
        } else {
            self.numerator() < k * self.denominator()
        }
    }

    /// The number is the integer `k` or more. A NaN is never.
    pub open spec fn at_least(self, k: int) -> bool {
        !self.nan() && !self.less_than(k)
    }

    /// The magnitude of a finite number in tenths, rounded to the nearest
    /// whole number of them, a tie to the even one.
    pub open spec fn tenths(self) -> nat {
        round_half_even(10 * self.numerator(), self.denominator())
    }

    /// The number in decimal notation with one digit after the point: as
    /// `{:.1}` formats it.
    pub open spec fn one_decimal(self) -> Seq<char> {
        if self.nan() {
            "NaN"@
        } else if self.infinite() {
            if self.negative() {
                "-inf"@
            } else {
                "inf"@
            }
        } else {
            self.sign_text() + decimal(self.tenths() / 10) + seq![
                '.',
                digit_char(self.tenths() % 10),
            ]
        }
    }

    /// The minus sign of a number whose sign bit is set.
    pub open spec fn sign_text(self) -> Seq<char> {
        if self.negative() {
            seq!['-']
        } else {
            Seq::empty()
        }
    }

    /// The number with these bits, as `f64::to_bits` gives them.
    pub fn from_bits(bits: u64) -> (out: Self)
        ensures
            out.bits == bits,
    {
        Binary64 { bits }
    }

    /// The bits of the number, as `f64::from_bits` takes them.
    pub fn to_bits(&self) -> (out: u64)
        ensures
            out == self.bits,
    {
        self.bits
    }

    /// Whether the sign bit is set.
    pub fn is_negative(&self) -> (out: bool)
        ensures
            out == self.negative(),
    {
        self.bits >= SIGN_SPAN
    }

    fn exponent_bits(&self) -> (out: u64)
        ensures
            out == self.exponent_field(),
            out <= EXPONENT_TOP,
    {
        (self.bits / FRACTION_SPAN) % 2048
    }

    fn fraction_bits(&self) -> (out: u64)
        ensures
            out == self.fraction_field(),
            out < FRACTION_SPAN,
    {
        self.bits % FRACTION_SPAN
    }

    fn significand_bits(&self) -> (out: u64)
        ensures
            out == self.significand(),
            out < 2 * FRACTION_SPAN,
            self.exponent_field() != 0 ==> out >= FRACTION_SPAN,
    {
        if self.exponent_bits() == 0 {
            self.fraction_bits()
        } else {
            FRACTION_SPAN + self.fraction_bits()
        }
    }

    /// Whether the bits stand for no number.
    pub fn is_nan(&self) -> (out: bool)
        ensures
            out == self.nan(),
    {
        self.exponent_bits() == EXPONENT_TOP && self.fraction_bits() != 0
    }

    /// Whether the bits stand for an infinity.
    pub fn is_infinite(&self) -> (out: bool)
        ensures
            out == self.infinite(),
    {
        self.exponent_bits() == EXPONENT_TOP && self.fraction_bits() == 0
    }

    /// Whether the bits stand for a number.
    pub fn is_finite(&self) -> (out: bool)
        ensures
            out == self.finite(),
    {
        self.exponent_bits() < EXPONENT_TOP
    }

    /// Compares the number with a small integer, as `<` on floating-point
    /// numbers does: exactly, and with `false` for a NaN.
    pub fn is_less_than(&self, k: u8) -> (out: bool)
        ensures
            out == self.less_than(k as int),
    {
        if self.is_nan() {
            return false;
        }
        if self.is_infinite() {
            return self.is_negative();
        }
        let m: u64 = self.significand_bits();
        let field: u64 = self.exponent_bits();
        let ghost num = self.numerator();
        let ghost den = self.denominator();
        proof {
            self.lemma_fraction();
            assert(k == 0 ==> k * den == 0) by (nonlinear_arith);
            assert(den == 1 ==> k * den == k) by (nonlinear_arith);
            assert(k > 0 ==> k * den >= den) by (nonlinear_arith)
                requires
                    den > 0,
            ;
        }
        if self.is_negative() {
            return m > 0 || k > 0;
        }
        if k == 0 {
            return false;
        }
        if field >= 1075 {
            assert(self.exponent() >= 0 && num >= FRACTION_SPAN);
            return false;
        }
        let j: u64 = if field == 0 {
            1074
        } else {
            1075 - field
        };
        assert(j == self.scale_down());
        if j >= 53 {
            proof {
                lemma2_to64_rest();
                if j > 53 {
                    lemma_pow2_strictly_increases(53, j as nat);
                }
            }
            return true;
        }
        let span: u64 = pow2_u64(j);
        proof {
            lemma2_to64_rest();
            if j < 52 {
                lemma_pow2_strictly_increases(j as nat, 52);
            }
            assert(k * span <= 255 * 0x0010_0000_0000_0000) by (nonlinear_arith)
                requires
                    k <= 255,
                    span <= 0x0010_0000_0000_0000,
            ;
        }
        m < (k as u64) * span
    }

    /// Writes the number with one digit after the decimal point, rounded
    /// to the nearest tenth and, between two, to the even one.
    pub fn to_one_decimal(&self) -> (out: String)
        ensures
            out@ == self.one_decimal(),
    {
        if self.is_nan() {
            return "NaN".to_owned();
        }
        if self.is_infinite() {
            if self.is_negative() {
                return "-inf".to_owned();
            }
            return "inf".to_owned();
        }
        let mut out = String::new();
        if self.is_negative() {
            push_char(&mut out, '-');
        }
        assert(out@ =~= self.sign_text());
        let m: u64 = self.significand_bits();
        let field: u64 = self.exponent_bits();
        proof {
            self.lemma_fraction();
        }
        if field >= 1075 {
            let shifts: u64 = field - 1075;
            let mut whole = Natural::from_u64(m);
            let mut i: u64 = 0;
            proof {
                lemma2_to64();
                assert(m * 1 == m);
            }
            while i < shifts
                invariant
                    i <= shifts,
                    whole@ == m * pow2(i as nat),
                decreases shifts - i,
            {
                whole = whole.doubled();
                proof {
                    lemma_pow2_unfold((i + 1) as nat);
                    let p = pow2(i as nat);
                    assert(2 * (m * p) == m * (2 * p)) by (nonlinear_arith);
                }
                i = i + 1;
            }
            whole.append_to(&mut out);
            push_char(&mut out, '.');
            push_char(&mut out, '0');
            proof {
                lemma_whole_tenths(self.numerator());
                assert(out@ =~= self.one_decimal());
            }
        } else {
            let j: u64 = if field == 0 {
                1074
            } else {
                1075 - field
            };
            assert(j == self.scale_down());
            let tenths: u64 = if j >= 64 {
                proof {
                    lemma2_to64();
                    if j > 64 {
                        lemma_pow2_strictly_increases(64, j as nat);
                    }
                    lemma_basic_div(10 * m as int, pow2(j as nat) as int);
                    lemma_small_mod((10 * m) as nat, pow2(j as nat));
                }
                0
            } else {
                let span: u64 = pow2_u64(j);
                let ten: u64 = 10 * m;
                let q: u64 = ten / span;
                let r: u64 = ten % span;
                proof {
                    lemma_mod_decreases(ten as nat, span as nat);
                }
                if 2 * r > span || (2 * r == span && q % 2 == 1) {
                    q + 1
                } else {
                    q
                }
            };
            assert(tenths == self.tenths());
            push_decimal(&mut out, tenths / 10);
            push_char(&mut out, '.');
            push_char(&mut out, digit((tenths % 10) as u8));
            assert(out@ =~= self.one_decimal());
        }
        out
    }

    /// A finite number is written as a minus sign where its sign bit is
    /// set, then digits, then the point, then one digit, and nothing more.
    pub proof fn lemma_one_decimal_shape(self)
        requires
            self.finite(),
        ensures
            ({
                let text = self.one_decimal();
                let sign = self.sign_text().len() as int;
                let end = text.len() as int;
                &&& end >= sign + 3
                &&& self.negative() ==> text[0] == '-'
                &&& forall|i: int| sign <= i < end - 2 ==> is_digit(#[trigger] text[i])
                &&& text[end - 2] == '.'
                &&& is_digit(text[end - 1])
            }),
    {
        let whole = decimal(self.tenths() / 10);
        lemma_decimal_is_digits(self.tenths() / 10);
        let text = self.one_decimal();
        let sign = self.sign_text().len() as int;
        assert forall|i: int| sign <= i < text.len() - 2 implies is_digit(#[trigger] text[i]) by {
            assert(text[i] == whole[i - sign]);
        }
    }

    /// What is less than an integer is less than every greater one.
    pub proof fn lemma_less_than_grows(self, a: int, b: int)
        requires
            a <= b,
        ensures
            self.less_than(a) ==> self.less_than(b),
    {
        let den = self.denominator();
        self.lemma_fraction();
        assert(a * den <= b * den) by (nonlinear_arith)
            requires
                a <= b,
                den > 0,
        ;
    }

    /// The fraction of a number: its denominator is positive, and is one
    /// where the numerator is scaled up; the numerator is the significand
    /// where it is not, and is zero only where the significand is.
    pub proof fn lemma_fraction(self)
        ensures
            self.denominator() > 0,
            self.numerator() >= self.significand(),
            self.numerator() == 0 <==> self.significand() == 0,
            self.exponent() >= 0 ==> self.denominator() == 1,
            self.exponent() <= 0 ==> self.numerator() == self.significand(),
    {
        let m = self.significand();
        let up = pow2(self.scale_up());
        lemma2_to64();
        lemma_pow2_pos(self.scale_down());
        lemma_pow2_pos(self.scale_up());
        assert(m * up >= m) by (nonlinear_arith)
            requires
                up >= 1,
        ;
        assert(m == 0 ==> m * up == 0) by (nonlinear_arith);
        assert(up == 1 ==> m * up == m) by (nonlinear_arith);
    }
}

/// The whole number nearest to `num / den`; of two that are equally near,
/// the even one.
pub open spec fn round_half_even(num: nat, den: nat) -> nat {
    let q = num / den;
    let r = num % den;
    if 2 * r > den || (2 * r == den && q % 2 == 1) {
        q + 1
    } else {
        q
    }
}

/// Rounding goes to a nearest whole number: the result is half a unit from
/// the fraction at most, and where it is just half a unit away it is even.
pub proof fn lemma_round_half_even_is_nearest(num: nat, den: nat)
    requires
        den > 0,
    ensures
        ({
            let rounded = round_half_even(num, den);
            let twice_off = 2 * (rounded * den - num);
            &&& -den <= twice_off <= den
            &&& (twice_off == den || twice_off == -den) ==> rounded % 2 == 0
        }),
{
    let q = num / den;
    let r = num % den;
    lemma_fundamental_div_mod(num as int, den as int);
    lemma_mod_bound(num as int, den as int);
    assert((q + 1) * den == q * den + den) by (nonlinear_arith);
    assert(den * q == q * den) by (nonlinear_arith);
}

/// A whole number has ten times as many tenths, and none left over.
proof fn lemma_whole_tenths(n: nat)
    ensures
        round_half_even(10 * n, 1) == 10 * n,
        (10 * n) / 10 == n,
        (10 * n) % 10 == 0,
{
}

/// Two to the power `e`, for an `e` whose power fits.
pub fn pow2_u64(e: u64) -> (out: u64)
    requires
        e < 64,
    ensures
        out == pow2(e as nat),
{
    let mut out: u64 = 1;
    let mut i: u64 = 0;
    proof {
        lemma2_to64();
    }
    while i < e
        invariant
            i <= e,
            e < 64,
            out == pow2(i as nat),
        decreases e - i,
    {
        proof {
            lemma2_to64();
            lemma_pow2_unfold((i + 1) as nat);
            lemma_pow2_strictly_increases((i + 1) as nat, 64);
        }
        out = out * 2;
        i = i + 1;
    }
    out
}

} // verus!
