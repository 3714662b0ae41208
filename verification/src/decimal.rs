//! Decimal notation for natural numbers.

use crate::text::push_char;
use vstd::prelude::*;

verus! {

/// The character of a decimal digit.
pub open spec fn digit_char(d: nat) -> char {
    (d + 48) as char
}

/// The decimal notation of `n`, without leading zeros.
pub open spec fn decimal(n: nat) -> Seq<char>
    decreases n,
{
    if n < 10 {
        seq![digit_char(n)]
    } else {
        decimal(n / 10).push(digit_char(n % 10))
    }
}

/// The character is one of the ten decimal digits.
pub open spec fn is_digit(c: char) -> bool {
    48 <= c as int <= 57
}

/// The decimal notation of a number is one digit or more, and digits only.
pub proof fn lemma_decimal_is_digits(n: nat)
    ensures
        decimal(n).len() >= 1,
        forall|i: int| 0 <= i < decimal(n).len() ==> is_digit(#[trigger] decimal(n)[i]),
    decreases n,
{
    if n >= 10 {
        lemma_decimal_is_digits(n / 10);
    }
}

/// The character of the digit `d`.
pub fn digit(d: u8) -> (out: char)
    requires
        d < 10,
    ensures
        out == digit_char(d as nat),
{
    (48u8 + d) as char
}

/// Appends the decimal notation of `n` to `out`.
pub fn push_decimal(out: &mut String, n: u64)
    ensures
        final(out)@ == old(out)@ + decimal(n as nat),
    decreases n,
{
    if n >= 10 {
        push_decimal(out, n / 10);
    }
    push_char(out, digit((n % 10) as u8));
}

/// The number that decimal digits stand for, the lowest digit first.
pub open spec fn digits_value(d: Seq<u8>) -> nat
    decreases d.len(),
{
    if d.len() == 0 {
        0
    } else {
        d[0] as nat + 10 * digits_value(d.drop_first())
    }
}

/// Each item is a decimal digit.
pub open spec fn all_digits(d: Seq<u8>) -> bool {
    forall|i: int| 0 <= i < d.len() ==> d[i] < 10
}

/// The digits of `n` from the lowest up, none for zero.
pub open spec fn digits_of(n: nat) -> Seq<u8>
    decreases n,
{
    if n == 0 {
        Seq::empty()
    } else {
        seq![(n % 10) as u8] + digits_of(n / 10)
    }
}

/// The characters of digits that are held lowest first, written highest
/// first.
pub open spec fn highest_first(d: Seq<u8>) -> Seq<char> {
    Seq::new(d.len(), |i: int| digit_char(d[d.len() - 1 - i] as nat))
}

/// The digits of a number are digits, stand for it, and end in no zero.
pub proof fn lemma_digits_of(n: nat)
    ensures
        all_digits(digits_of(n)),
        digits_value(digits_of(n)) == n,
        n > 0 ==> digits_of(n).len() > 0 && digits_of(n).last() != 0,
    decreases n,
{
    if n > 0 {
        lemma_digits_of(n / 10);
        let d = digits_of(n);
        assert(d.drop_first() =~= digits_of(n / 10));
        if n / 10 > 0 {
            assert(d.last() == digits_of(n / 10).last());
        }
    }
}

/// Digits that end in no zero stand for a positive number, and written
/// highest first they are its decimal notation.
pub proof fn lemma_highest_first(d: Seq<u8>)
    requires
        all_digits(d),
        d.len() > 0,
        d.last() != 0,
    ensures
        digits_value(d) > 0,
        decimal(digits_value(d)) == highest_first(d),
    decreases d.len(),
{
    let rest = d.drop_first();
    if d.len() == 1 {
        assert(digits_value(rest) == 0);
        assert(decimal(digits_value(d)) =~= highest_first(d));
    } else {
        assert(rest.last() == d.last());
        lemma_highest_first(rest);
        let n = digits_value(d);
        assert(n / 10 == digits_value(rest));
        assert(n % 10 == d[0]);
        assert(decimal(n) =~= highest_first(d));
    }
}

/// A natural number of any size, held as its decimal digits.
pub struct Natural {
    /// The digits from the lowest up; the highest is not zero.
    digits: Vec<u8>,
}

impl View for Natural {
    type V = nat;

    closed spec fn view(&self) -> nat {
        digits_value(self.digits@)
    }
}

impl Natural {
    #[verifier::type_invariant]
    spec fn well_formed(self) -> bool {
        &&& all_digits(self.digits@)
        &&& self.digits@.len() > 0 ==> self.digits@.last() != 0
    }

    /// The number `n`.
    pub fn from_u64(n: u64) -> (out: Natural)
        ensures
            out@ == n,
    {
        let mut digits: Vec<u8> = Vec::new();
        let mut left: u64 = n;
        while left > 0
            invariant
                digits@ + digits_of(left as nat) == digits_of(n as nat),
            decreases left,
        {
            assert(digits@.push((left % 10) as u8) + digits_of((left / 10) as nat) =~= digits@
                + digits_of(left as nat));
            digits.push((left % 10) as u8);
            left = left / 10;
        }
        proof {
            lemma_digits_of(n as nat);
            assert(digits@ =~= digits_of(n as nat));
        }
        Natural { digits }
    }

    /// Twice the number.
    pub fn doubled(self) -> (out: Natural)
        ensures
            out@ == 2 * self@,
    {
        proof {
            use_type_invariant(&self);
        }
        let mut digits = self.digits;
        assert(digits@.skip(0) =~= digits@);
        double_digits(&mut digits, 0, 0);
        assert(digits@.skip(0) =~= digits@);
        Natural { digits }
    }

    /// Appends the decimal notation of the number to `out`.
    pub fn append_to(&self, out: &mut String)
        ensures
            final(out)@ == old(out)@ + decimal(self@),
    {
        proof {
            use_type_invariant(self);
        }
        let n: usize = self.digits.len();
        if n == 0 {
            push_char(out, digit(0));
            assert(decimal(0) =~= seq![digit_char(0)]);
            return ;
        }
        proof {
            lemma_highest_first(self.digits@);
        }
        let ghost text = highest_first(self.digits@);
        let mut i: usize = 0;
        while i < n
            invariant
                i <= n,
                n == self.digits@.len(),
                all_digits(self.digits@),
                text == highest_first(self.digits@),
                out@ == old(out)@ + text.take(i as int),
            decreases n - i,
        {
            push_char(out, digit(self.digits[n - 1 - i]));
            assert(text.take(i as int).push(text[i as int]) =~= text.take(i + 1));
            i = i + 1;
        }
        assert(text.take(n as int) =~= text);
    }
}

/// Doubles the number that the digits from place `i` up stand for, and adds
/// `carry` to it; the digits below stay.
fn double_digits(d: &mut Vec<u8>, i: usize, carry: u8)
    requires
        i <= old(d)@.len(),
        carry <= 1,
        all_digits(old(d)@),
        old(d)@.len() > 0 && old(d)@.last() == 0 ==> i == old(d)@.len() && carry > 0,
    ensures
        all_digits(final(d)@),
        final(d)@.len() >= old(d)@.len(),
        final(d)@.take(i as int) == old(d)@.take(i as int),
        digits_value(final(d)@.skip(i as int)) == 2 * digits_value(old(d)@.skip(i as int)) + carry,
        final(d)@.len() > 0 ==> final(d)@.last() != 0,
    decreases old(d)@.len() - i,
{
    if i == d.len() {
        if carry > 0 {
            d.push(carry);
            assert(d@.skip(i as int) =~= seq![carry]);
            assert(seq![carry].drop_first() =~= Seq::<u8>::empty());
        }
        assert(old(d)@.skip(i as int) =~= Seq::<u8>::empty());
        assert(d@.take(i as int) =~= old(d)@.take(i as int));
    } else {
        let x: u8 = 2 * d[i] + carry;
        d.set(i, x % 10);
        let ghost mid = d@;
        double_digits(d, i + 1, x / 10);
        proof {
            assert(mid.skip(i + 1) =~= old(d)@.skip(i + 1));
            assert(old(d)@.skip(i as int).drop_first() =~= old(d)@.skip(i + 1));
            assert(d@.skip(i as int).drop_first() =~= d@.skip(i + 1));
            assert(d@[i as int] == d@.take(i + 1)[i as int]);
            assert(mid[i as int] == mid.take(i + 1)[i as int]);
            assert(d@.take(i as int) =~= d@.take(i + 1).take(i as int));
            assert(mid.take(i as int) =~= mid.take(i + 1).take(i as int));
            assert(mid.take(i as int) =~= old(d)@.take(i as int));
        }
    }
}

} // verus!
