//! Arbitrary-precision integers held as plain data: a sign and base 2^32
//! limbs. The arithmetic itself is done by `num`'s `BigInt`.
use vstd::prelude::*;
use num::bigint::{BigInt, Sign};

verus! {

/// The radix of one limb.
pub open spec fn limb_radix() -> nat {
    0x1_0000_0000
}

/// The number whose base 2^32 digits, least significant first, are `limbs`.
pub open spec fn limbs_value(limbs: Seq<u32>) -> nat
    decreases limbs.len(),
{
    if limbs.len() == 0 {
        0
    } else {
        limbs[0] as nat + limb_radix() * limbs_value(limbs.drop_first())
    }
}

pub open spec fn is_decimal_digit(c: char) -> bool {
    '0' <= c && c <= '9'
}

/// A run of decimal digits that may hold underscores, but not in front.
pub open spec fn is_digit_run(s: Seq<char>) -> bool {
    &&& s.len() > 0
    &&& is_decimal_digit(s[0])
    &&& forall|i: int| 0 <= i < s.len() ==> is_decimal_digit(#[trigger] s[i]) || s[i] == '_'
}

/// The text after one leading sign, if there is one.
pub open spec fn unsigned_part(s: Seq<char>) -> Seq<char> {
    if s.len() > 0 && (s[0] == '-' || s[0] == '+') {
        s.drop_first()
    } else {
        s
    }
}

/// Text that denotes a decimal integer: an optional `-` or `+`, then a
/// digit, then digits and underscores.
pub open spec fn is_integer_literal(s: Seq<char>) -> bool {
    is_digit_run(unsigned_part(s))
}

/// The value of a run of decimal digits; underscores are skipped.
pub open spec fn digits_value(s: Seq<char>) -> nat
    decreases s.len(),
{
    if s.len() == 0 {
        0
    } else if s.last() == '_' {
        digits_value(s.drop_last())
    } else {
        10 * digits_value(s.drop_last()) + (s.last() as nat - '0' as nat) as nat
    }
}

/// The integer that an integer literal denotes.
pub open spec fn literal_value(s: Seq<char>) -> int {
    if s.len() > 0 && s[0] == '-' {
        -(digits_value(unsigned_part(s)) as int)
    } else {
        digits_value(unsigned_part(s)) as int
    }
}

/// The decimal text of a natural number, without leading zeros ("0" for 0).
pub open spec fn natural_text(n: nat) -> Seq<char>
    decreases n,
{
    if n < 10 {
        seq![(n + '0' as nat) as char]
    } else {
        natural_text(n / 10) + seq![((n % 10) + '0' as nat) as char]
    }
}

/// The decimal text of an integer, with `-` in front of a negative one.
pub open spec fn integer_text(v: int) -> Seq<char> {
    if v < 0 {
        seq!['-'] + natural_text((-v) as nat)
    } else {
        natural_text(v as nat)
    }
}

/// An integer of any size: a sign and a magnitude in base 2^32 limbs,
/// least significant first.
pub struct Integer {
    pub negative: bool,
    pub magnitude: Vec<u32>,
}

impl Integer {
    /// The number this integer stands for.
    pub open spec fn value(&self) -> int {
        if self.negative {
            -(limbs_value(self.magnitude@) as int)
        } else {
            limbs_value(self.magnitude@) as int
        }
    }

    pub fn zero() -> (r: Integer)
        ensures
            r.value() == 0,
    {
        Integer { negative: false, magnitude: Vec::new() }
    }

    pub fn duplicate(&self) -> (r: Integer)
        ensures
            r.value() == self.value(),
    {
        let magnitude = self.magnitude.clone();
        proof {
            assert(magnitude@ =~= self.magnitude@);
        }
        Integer { negative: self.negative, magnitude }
    }
}

/// Relies on `BigInt::parse_bytes` in base 10: it takes an optional `-` or
/// `+` (not both), then a digit, then digits and underscores, and gives the
/// value of the digits with the sign; on other text it gives `None`.
/// `BigInt::to_u32_digits` then hands out the sign and the limbs.
#[verifier::external_body]
pub(crate) fn parse_integer(text: &str) -> (r: Option<Integer>)
    ensures
        r is Some <==> is_integer_literal(text@),
        r matches Some(i) ==> i.value() == literal_value(text@),
{
    match BigInt::parse_bytes(text.as_bytes(), 10) {
        Some(n) => {
            let (sign, magnitude) = n.to_u32_digits();
            Some(Integer { negative: sign == Sign::Minus, magnitude })
        },
        None => None,
    }
}

/// Relies on `BigInt::from_slice`, `BigInt`'s `+` and `BigInt::to_u32_digits`:
/// the sum of the two numbers.
#[verifier::external_body]
pub(crate) fn add_integers(a: &Integer, b: &Integer) -> (r: Integer)
    ensures
        r.value() == a.value() + b.value(),
{
    let x = BigInt::from_slice(if a.negative { Sign::Minus } else { Sign::Plus }, &a.magnitude);
    let y = BigInt::from_slice(if b.negative { Sign::Minus } else { Sign::Plus }, &b.magnitude);
    let (sign, magnitude) = (x + y).to_u32_digits();
    Integer { negative: sign == Sign::Minus, magnitude }
}

/// Relies on `BigInt::from_slice`, `BigInt`'s `-` and `BigInt::to_u32_digits`:
/// the difference of the two numbers.
#[verifier::external_body]
pub(crate) fn subtract_integers(a: &Integer, b: &Integer) -> (r: Integer)
    ensures
        r.value() == a.value() - b.value(),
{
    let x = BigInt::from_slice(if a.negative { Sign::Minus } else { Sign::Plus }, &a.magnitude);
    let y = BigInt::from_slice(if b.negative { Sign::Minus } else { Sign::Plus }, &b.magnitude);
    let (sign, magnitude) = (x - y).to_u32_digits();
    Integer { negative: sign == Sign::Minus, magnitude }
}

/// Relies on `BigInt::from_slice` and `BigInt`'s `==`: whether the two
/// numbers are equal.
#[verifier::external_body]
pub(crate) fn integers_equal(a: &Integer, b: &Integer) -> (r: bool)
    ensures
        r == (a.value() == b.value()),
{
    let x = BigInt::from_slice(if a.negative { Sign::Minus } else { Sign::Plus }, &a.magnitude);
    let y = BigInt::from_slice(if b.negative { Sign::Minus } else { Sign::Plus }, &b.magnitude);
    x == y
}

/// Relies on `BigInt::from_slice` and `BigInt::to_str_radix` in base 10:
/// the decimal digits of the number, with `-` in front of a negative one.
#[verifier::external_body]
pub(crate) fn integer_to_text(a: &Integer) -> (r: String)
    ensures
        r@ == integer_text(a.value()),
{
    BigInt::from_slice(if a.negative { Sign::Minus } else { Sign::Plus }, &a.magnitude).to_str_radix(10)
}

} // verus!
