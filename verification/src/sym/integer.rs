//! Arbitrary-precision integers, by `num`'s `BigInt`, and the decimal
//! notation that joins them to text.

use num::bigint::ParseBigIntError;
use num::BigInt;
use vstd::prelude::*;

verus! {

/// `num::BigInt`, an integer of any size.
#[verifier::external_type_specification]
#[verifier::external_body]
pub struct ExBigInt(BigInt);

/// `num::bigint::ParseBigIntError`, the error of a text that writes no
/// integer.
#[verifier::external_type_specification]
#[verifier::external_body]
pub struct ExParseBigIntError(ParseBigIntError);

/// The integer that a `BigInt` holds.
pub uninterp spec fn bigint_value(b: BigInt) -> int;

/// One of the characters `0` to `9`.
pub open spec fn is_digit(c: char) -> bool {
    '0' <= c <= '9'
}

/// The number that a digit character stands for.
pub open spec fn digit_value(c: char) -> nat
    recommends
        is_digit(c),
{
    (c as int - '0' as int) as nat
}

/// The character of a number below ten.
pub open spec fn digit_char(d: int) -> char
    recommends
        0 <= d < 10,
{
    (d + '0' as int) as char
}

/// Every character of `s` is a digit.
pub open spec fn all_digits(s: Seq<char>) -> bool {
    forall|i: int| 0 <= i < s.len() ==> is_digit(#[trigger] s[i])
}

/// The number written by the digits `s`, most significant first.
pub open spec fn digits_value(s: Seq<char>) -> nat
    decreases s.len(),
{
    if s.len() == 0 {
        0
    } else {
        10 * digits_value(s.drop_last()) + digit_value(s.last())
    }
}

/// `s` is an optional `-` and then one digit or more.
pub open spec fn is_digit_run(s: Seq<char>) -> bool {
    if s.len() > 0 && s[0] == '-' {
        s.len() > 1 && all_digits(s.skip(1))
    } else {
        s.len() > 0 && all_digits(s)
    }
}

/// The integer written by the digit run `s`.
pub open spec fn digit_run_value(s: Seq<char>) -> int
    recommends
        is_digit_run(s),
{
    if s.len() > 0 && s[0] == '-' {
        -(digits_value(s.skip(1)) as int)
    } else {
        digits_value(s) as int
    }
}

/// The digits of `n`, most significant first; none for zero.
pub open spec fn nat_digits(n: nat) -> Seq<char>
    decreases n,
{
    if n == 0 {
        Seq::<char>::empty()
    } else {
        nat_digits(n / 10).push(digit_char((n % 10) as int))
    }
}

/// The decimal notation of `v`: `0` for zero, else its digits without
/// leading zeros, after a `-` if it is negative.
pub open spec fn integer_text(v: int) -> Seq<char> {
    if v == 0 {
        seq!['0']
    } else if v < 0 {
        seq!['-'] + nat_digits((-v) as nat)
    } else {
        nat_digits(v as nat)
    }
}

/// `BigInt`'s `Clone`: a `BigInt` with the same integer.
pub assume_specification[ <BigInt as Clone>::clone ](b: &BigInt) -> (r: BigInt)
    ensures
        bigint_value(r) == bigint_value(*b),
;

/// `BigInt::from_str` on a digit run: the integer that the run writes.
/// On any other text nothing is said.
#[verifier::external_body]
pub(crate) fn bigint_from_digit_run(text: &str) -> (r: Result<BigInt, ParseBigIntError>)
    ensures
        is_digit_run(text@) ==> r is Ok,
        is_digit_run(text@) ==> bigint_value(r->Ok_0) == digit_run_value(text@),
{
    text.parse::<BigInt>()
}

/// `BigInt`'s `Display`: the decimal notation of the integer.
#[verifier::external_body]
pub(crate) fn bigint_to_text(b: &BigInt) -> (text: String)
    ensures
        text@ == integer_text(bigint_value(*b)),
{
    b.to_string()
}

/// `BigInt`'s `From<i8>`: the same integer.
pub assume_specification[ <BigInt as From<i8>>::from ](i: i8) -> (r: BigInt)
    ensures
        bigint_value(r) == i,
;

/// `BigInt`'s `From<i16>`: the same integer.
pub assume_specification[ <BigInt as From<i16>>::from ](i: i16) -> (r: BigInt)
    ensures
        bigint_value(r) == i,
;

/// `BigInt`'s `From<i32>`: the same integer.
pub assume_specification[ <BigInt as From<i32>>::from ](i: i32) -> (r: BigInt)
    ensures
        bigint_value(r) == i,
;

/// `BigInt`'s `From<i64>`: the same integer.
pub assume_specification[ <BigInt as From<i64>>::from ](i: i64) -> (r: BigInt)
    ensures
        bigint_value(r) == i,
;

/// `BigInt`'s `From<isize>`: the same integer.
pub assume_specification[ <BigInt as From<isize>>::from ](i: isize) -> (r: BigInt)
    ensures
        bigint_value(r) == i,
;

/// `BigInt`'s `From<u8>`: the same integer.
pub assume_specification[ <BigInt as From<u8>>::from ](i: u8) -> (r: BigInt)
    ensures
        bigint_value(r) == i,
;

/// `BigInt`'s `From<u16>`: the same integer.
pub assume_specification[ <BigInt as From<u16>>::from ](i: u16) -> (r: BigInt)
    ensures
        bigint_value(r) == i,
;

/// `BigInt`'s `From<u32>`: the same integer.
pub assume_specification[ <BigInt as From<u32>>::from ](i: u32) -> (r: BigInt)
    ensures
        bigint_value(r) == i,
;

/// `BigInt`'s `From<u64>`: the same integer.
pub assume_specification[ <BigInt as From<u64>>::from ](i: u64) -> (r: BigInt)
    ensures
        bigint_value(r) == i,
;

/// `BigInt`'s `From<usize>`: the same integer.
pub assume_specification[ <BigInt as From<usize>>::from ](i: usize) -> (r: BigInt)
    ensures
        bigint_value(r) == i,
;

} // verus!
