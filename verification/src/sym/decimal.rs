//! Decimal approximations: the values that a literal such as `123.3e3`
//! writes, held exactly as far as the exponent reaches.
//!
//! A number is held as digits and a power of ten. The power of ten is an
//! `i64`; a number that asks for a power beyond that range is held with
//! the same digits at the nearest power in range, much as a floating-point
//! number that is too large or too small is held at the end of its range.

use vstd::prelude::*;

verus! {

/// What a [`Decimal`] is: the number `digits * 10^exponent`, negated if
/// `negative`, where `digits` is read as a decimal numeral, most
/// significant digit first.
pub struct DecimalView {
    pub negative: bool,
    pub digits: Seq<u8>,
    pub exponent: int,
}

/// How many zeros `s` begins with.
pub open spec fn leading_zeros(s: Seq<u8>) -> nat
    decreases s.len(),
{
    if s.len() > 0 && s[0] == 0 {
        1 + leading_zeros(s.skip(1))
    } else {
        0
    }
}

/// How many zeros `s` ends with.
pub open spec fn trailing_zeros(s: Seq<u8>) -> nat
    decreases s.len(),
{
    if s.len() > 0 && s.last() == 0 {
        1 + trailing_zeros(s.drop_last())
    } else {
        0
    }
}

/// Every item of `s` is below ten.
pub open spec fn decimal_digits(s: Seq<u8>) -> bool {
    forall|i: int| 0 <= i < s.len() ==> #[trigger] s[i] < 10
}

/// Zero.
pub open spec fn zero_view() -> DecimalView {
    DecimalView { negative: false, digits: Seq::empty(), exponent: 0 }
}

/// The one way to hold a number: no zero at either end of the digits, and
/// zero itself with no digit, no sign and no exponent.
pub open spec fn is_canonical(v: DecimalView) -> bool {
    &&& decimal_digits(v.digits)
    &&& v.digits.len() == 0 ==> v == zero_view()
    &&& v.digits.len() > 0 ==> v.digits[0] != 0 && v.digits.last() != 0
}

/// The canonical form of `digits * 10^exponent`, negated if `negative`:
/// the zeros in front are dropped, and those at the end go to the exponent.
pub open spec fn canonical(negative: bool, digits: Seq<u8>, exponent: int) -> DecimalView {
    let tail = digits.skip(leading_zeros(digits) as int);
    let shift = trailing_zeros(tail);
    if tail.len() == shift {
        zero_view()
    } else {
        DecimalView {
            negative,
            digits: tail.take(tail.len() - shift),
            exponent: exponent + shift,
        }
    }
}

/// `v` as it can be held: where the exponent is beyond the range of `i64`,
/// it is the nearest end of that range, and the sign and the digits stay.
pub open spec fn saturated(v: DecimalView) -> DecimalView {
    DecimalView {
        negative: v.negative,
        digits: v.digits,
        exponent: if v.exponent > i64::MAX {
            i64::MAX as int
        } else if v.exponent < i64::MIN {
            i64::MIN as int
        } else {
            v.exponent
        },
    }
}

/// The characters of the digits `d`.
pub open spec fn digit_chars(d: Seq<u8>) -> Seq<char> {
    Seq::new(d.len(), |i: int| ((d[i] as int) + ('0' as int)) as char)
}

/// `n` zeros.
pub open spec fn zeros(n: int) -> Seq<char> {
    Seq::new(
        if n > 0 {
            n as nat
        } else {
            0
        },
        |i: int| '0',
    )
}

/// The sign of a number in text: `-` or nothing.
pub open spec fn sign_text(negative: bool) -> Seq<char> {
    if negative {
        seq!['-']
    } else {
        Seq::empty()
    }
}

/// A decimal number in plain positional notation, without an exponent:
/// `0`, `-123.3`, `0.05`, `123300`.
pub open spec fn decimal_text(v: DecimalView) -> Seq<char> {
    let n = v.digits.len() as int;
    if n == 0 {
        seq!['0']
    } else if v.exponent >= 0 {
        sign_text(v.negative) + digit_chars(v.digits) + zeros(v.exponent)
    } else if -v.exponent < n {
        sign_text(v.negative) + digit_chars(v.digits.take(n + v.exponent)) + seq!['.']
            + digit_chars(v.digits.skip(n + v.exponent))
    } else {
        sign_text(v.negative) + seq!['0', '.'] + zeros(-v.exponent - n) + digit_chars(v.digits)
    }
}

/// A decimal number, held exactly and in canonical form.
#[derive(Debug, PartialEq, Eq)]
pub struct Decimal {
    negative: bool,
    digits: Vec<u8>,
    exponent: i64,
}

impl View for Decimal {
    type V = DecimalView;

    closed spec fn view(&self) -> DecimalView {
        DecimalView { negative: self.negative, digits: self.digits@, exponent: self.exponent as int }
    }
}

impl Clone for Decimal {
    fn clone(&self) -> (r: Decimal)
        ensures
            r@ == self@,
    {
        proof {
            use_type_invariant(self);
        }
        let digits = self.digits.clone();
        assert(digits@ =~= self.digits@);
        Decimal { negative: self.negative, digits, exponent: self.exponent }
    }
}

proof fn lemma_leading_zeros_step(s: Seq<u8>, i: int)
    requires
        0 <= i < s.len(),
        s[i] == 0,
    ensures
        leading_zeros(s.skip(i)) == 1 + leading_zeros(s.skip(i + 1)),
{
    assert(s.skip(i).skip(1) =~= s.skip(i + 1));
}

proof fn lemma_trailing_zeros_step(s: Seq<u8>, n: int)
    requires
        0 < n <= s.len(),
        s[n - 1] == 0,
    ensures
        trailing_zeros(s.take(n)) == 1 + trailing_zeros(s.take(n - 1)),
{
    assert(s.take(n).drop_last() =~= s.take(n - 1));
}

/// The text of one digit.
fn digit_str(d: u8) -> (s: &'static str)
    requires
        d < 10,
    ensures
        s@ == seq![((d as int) + ('0' as int)) as char],
{
    proof {
        reveal_strlit("0");
        reveal_strlit("1");
        reveal_strlit("2");
        reveal_strlit("3");
        reveal_strlit("4");
        reveal_strlit("5");
        reveal_strlit("6");
        reveal_strlit("7");
        reveal_strlit("8");
        reveal_strlit("9");
    }
    let s = if d == 0 {
        "0"
    } else if d == 1 {
        "1"
    } else if d == 2 {
        "2"
    } else if d == 3 {
        "3"
    } else if d == 4 {
        "4"
    } else if d == 5 {
        "5"
    } else if d == 6 {
        "6"
    } else if d == 7 {
        "7"
    } else if d == 8 {
        "8"
    } else {
        "9"
    };
    assert(s@ =~= seq![((d as int) + ('0' as int)) as char]);
    s
}

impl Decimal {
    /// The invariant of the type: the number is held in canonical form.
    #[verifier::type_invariant]
    spec fn canonical_form(&self) -> bool {
        is_canonical(self@)
    }

    /// Zero.
    pub fn zero() -> (d: Decimal)
        ensures
            d@ == zero_view(),
    {
        Decimal { negative: false, digits: Vec::new(), exponent: 0 }
    }

    /// The number `digits * 10^exponent`, negated if `negative`, where
    /// `digits` holds decimal digits, most significant first. Where the
    /// exponent of the canonical form does not fit, it is the nearest that
    /// does.
    ///
    /// There is none if an item of `digits` is no digit.
    pub fn new(negative: bool, digits: &Vec<u8>, exponent: i64) -> (r: Option<Decimal>)
        ensures
            r is Some <==> decimal_digits(digits@),
            r matches Some(d) ==> d@ == saturated(canonical(negative, digits@, exponent as int))
                && is_canonical(d@),
    {
        Decimal::scaled(negative, digits, exponent as i128)
    }

    /// As [`Decimal::new`], for an exponent that need not fit.
    pub(crate) fn scaled(negative: bool, digits: &Vec<u8>, exponent: i128) -> (r: Option<Decimal>)
        requires
            -0x1_0000_0000_0000_0000_0000 <= exponent <= 0x1_0000_0000_0000_0000_0000,
        ensures
            r is Some <==> decimal_digits(digits@),
            r matches Some(d) ==> d@ == saturated(canonical(negative, digits@, exponent as int))
                && is_canonical(d@),
    {
        let n = digits.len();
        let mut k: usize = 0;
        while k < n
            invariant
                n == digits.len(),
                k <= n,
                forall|j: int| 0 <= j < k ==> #[trigger] digits[j] < 10,
            decreases n - k,
        {
            if digits[k] >= 10 {
                return None;
            }
            k += 1;
        }
        let mut first: usize = 0;
        assert(digits@.skip(0) =~= digits@);
        while first < n && digits[first] == 0
            invariant
                n == digits.len(),
                first <= n,
                leading_zeros(digits@) == first + leading_zeros(digits@.skip(first as int)),
            decreases n - first,
        {
            proof {
                lemma_leading_zeros_step(digits@, first as int);
            }
            first += 1;
        }
        assert(leading_zeros(digits@) == first) by {
            if first < n {
                assert(digits@.skip(first as int)[0] == digits@[first as int]);
            }
        }
        let ghost tail = digits@.skip(first as int);
        let mut last: usize = n;
        assert(tail.take(n - first) =~= tail);
        while last > first && digits[last - 1] == 0
            invariant
                n == digits.len(),
                first <= last <= n,
                tail == digits@.skip(first as int),
                trailing_zeros(tail) == (n - last) + trailing_zeros(tail.take(last - first)),
            decreases last,
        {
            proof {
                assert(tail[last - first - 1] == digits@[last - 1]);
                lemma_trailing_zeros_step(tail, last - first);
            }
            last -= 1;
        }
        assert(trailing_zeros(tail) == n - last) by {
            if last > first {
                assert(tail.take(last - first).last() == digits@[last - 1]);
            }
        }
        if first == last {
            return Some(Decimal::zero());
        }
        let moved: i128 = exponent + (n - last) as i128;
        let moved: i128 = if moved > i64::MAX as i128 {
            i64::MAX as i128
        } else if moved < i64::MIN as i128 {
            i64::MIN as i128
        } else {
            moved
        };
        let mut kept: Vec<u8> = Vec::new();
        let mut i: usize = first;
        while i < last
            invariant
                n == digits.len(),
                first <= i <= last <= n,
                kept@ == digits@.subrange(first as int, i as int),
            decreases last - i,
        {
            kept.push(digits[i]);
            assert(kept@ =~= digits@.subrange(first as int, i + 1));
            i += 1;
        }
        assert(kept@ =~= tail.take(tail.len() - (n - last)));
        Some(Decimal { negative, digits: kept, exponent: moved as i64 })
    }

    /// Whether the number is below zero.
    pub fn is_negative(&self) -> (r: bool)
        ensures
            r == self@.negative,
    {
        self.negative
    }

    /// The power of ten that the digits are multiplied by.
    pub fn exponent(&self) -> (r: i64)
        ensures
            r == self@.exponent,
    {
        self.exponent
    }

    /// The digits of the number, most significant first.
    pub fn digits(&self) -> (r: &Vec<u8>)
        ensures
            r@ == self@.digits,
            is_canonical(self@),
    {
        proof {
            use_type_invariant(self);
        }
        &self.digits
    }

    /// The number in plain positional notation.
    pub fn to_text(&self) -> (text: String)
        ensures
            text@ == decimal_text(self@),
    {
        proof {
            use_type_invariant(self);
        }
        let n = self.digits.len();
        if n == 0 {
            proof {
                reveal_strlit("0");
            }
            let text = "0".to_owned();
            assert(text@ =~= seq!['0']);
            return text;
        }
        let mut text = String::new();
        if self.negative {
            proof {
                reveal_strlit("-");
            }
            text.append("-");
        }
        assert(text@ =~= sign_text(self.negative));
        let exponent = self.exponent as i128;
        if exponent >= 0 {
            push_digits(&mut text, &self.digits, 0, n);
            push_zeros(&mut text, exponent);
            assert(self.digits@.subrange(0, n as int) =~= self.digits@);
        } else if -exponent < n as i128 {
            let whole = (n as i128 + exponent) as usize;
            push_digits(&mut text, &self.digits, 0, whole);
            proof {
                reveal_strlit(".");
            }
            text.append(".");
            push_digits(&mut text, &self.digits, whole, n);
            assert(self.digits@.subrange(0, whole as int) =~= self.digits@.take(whole as int));
            assert(self.digits@.subrange(whole as int, n as int) =~= self.digits@.skip(
                whole as int,
            ));
            assert(text@ =~= decimal_text(self@));
        } else {
            proof {
                reveal_strlit("0.");
            }
            text.append("0.");
            push_zeros(&mut text, -exponent - n as i128);
            push_digits(&mut text, &self.digits, 0, n);
            assert(self.digits@.subrange(0, n as int) =~= self.digits@);
            assert(text@ =~= decimal_text(self@));
        }
        text
    }
}

/// Appends the digits `digits[from..to]` to `text`.
fn push_digits(text: &mut String, digits: &Vec<u8>, from: usize, to: usize)
    requires
        from <= to <= digits.len(),
        decimal_digits(digits@),
    ensures
        final(text)@ == old(text)@ + digit_chars(digits@.subrange(from as int, to as int)),
{
    let mut i: usize = from;
    assert(text@ =~= old(text)@ + digit_chars(digits@.subrange(from as int, i as int)));
    while i < to
        invariant
            from <= i <= to <= digits.len(),
            decimal_digits(digits@),
            text@ == old(text)@ + digit_chars(digits@.subrange(from as int, i as int)),
        decreases to - i,
    {
        text.append(digit_str(digits[i]));
        i += 1;
        assert(text@ =~= old(text)@ + digit_chars(digits@.subrange(from as int, i as int)));
    }
}

/// Appends `n` zeros to `text`.
fn push_zeros(text: &mut String, n: i128)
    ensures
        final(text)@ == old(text)@ + zeros(n as int),
{
    let mut i: i128 = 0;
    assert(text@ =~= old(text)@ + zeros(0));
    while i < n
        invariant
            0 <= i,
            i <= n || (n < 0 && i == 0),
            text@ == old(text)@ + zeros(i as int),
        decreases n - i,
    {
        proof {
            reveal_strlit("0");
        }
        text.append("0");
        i += 1;
        assert(text@ =~= old(text)@ + zeros(i as int));
    }
    assert(zeros(i as int) =~= zeros(n as int));
}

} // verus!
