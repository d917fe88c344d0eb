//! Evaluation of parsed literal constants.

use vstd::prelude::*;
use crate::c_model::{Expression, IntegerBase, IntegerLiteral};
use crate::text::chars_of;

verus! {

/// Why a constant could not be evaluated.
#[derive(Debug, Clone, Copy, PartialEq, Eq, Structural)]
pub enum ConstantError {
    /// The expression is not an integer literal.
    NotAnInteger,
    /// The literal has no digits, or a character that is no digit of its base.
    MalformedLiteral,
    /// The value does not fit in 32 bits.
    OutOfRange,
    /// No value expression was written.
    Missing,
}

pub open spec fn radix_of(base: IntegerBase) -> nat {
    match base {
        IntegerBase::Decimal => 10,
        IntegerBase::Octal => 8,
        IntegerBase::Hexadecimal => 16,
        IntegerBase::Binary => 2,
    }
}

/// The value of a character read as a digit (letters of either case
/// standing for 10 and up).
pub open spec fn digit_of(c: char) -> Option<nat> {
    if '0' <= c <= '9' {
        Some((c as nat - '0' as nat) as nat)
    } else if 'a' <= c <= 'z' {
        Some((c as nat - 'a' as nat + 10) as nat)
    } else if 'A' <= c <= 'Z' {
        Some((c as nat - 'A' as nat + 10) as nat)
    } else {
        None
    }
}

pub open spec fn is_digit_in(c: char, radix: nat) -> bool {
    digit_of(c) matches Some(d) && d < radix
}

pub open spec fn all_digits_in(s: Seq<char>, radix: nat) -> bool {
    forall|i: int| 0 <= i < s.len() ==> is_digit_in(#[trigger] s[i], radix)
}

/// The number that a sequence of digits denotes in a radix.
pub open spec fn digits_value(s: Seq<char>, radix: nat) -> nat
    decreases s.len(),
{
    if s.len() == 0 {
        0
    } else {
        digits_value(s.drop_last(), radix) * radix + match digit_of(s.last()) {
            Some(d) => d,
            None => 0,
        }
    }
}

/// What an integer literal evaluates to.
pub open spec fn literal_value(lit: IntegerLiteral) -> Result<u32, ConstantError> {
    let s = lit.number@;
    let radix = radix_of(lit.base);
    if s.len() == 0 || !all_digits_in(s, radix) {
        Err(ConstantError::MalformedLiteral)
    } else if digits_value(s, radix) > u32::MAX {
        Err(ConstantError::OutOfRange)
    } else {
        Ok(digits_value(s, radix) as u32)
    }
}

/// What an expression evaluates to as a numeric constant.
pub open spec fn expression_value(e: Expression) -> Result<u32, ConstantError> {
    match e {
        Expression::Integer(lit) => literal_value(lit),
        _ => Err(ConstantError::NotAnInteger),
    }
}

fn digit_value(c: char) -> (r: Option<u32>)
    ensures
        match digit_of(c) {
            Some(d) => r == Some(d as u32),
            None => r is None,
        },
{
    if '0' <= c && c <= '9' {
        Some((c as u32) - ('0' as u32))
    } else if 'a' <= c && c <= 'z' {
        Some((c as u32) - ('a' as u32) + 10)
    } else if 'A' <= c && c <= 'Z' {
        Some((c as u32) - ('A' as u32) + 10)
    } else {
        None
    }
}

fn base_radix(base: IntegerBase) -> (r: u64)
    ensures
        r == radix_of(base),
{
    match base {
        IntegerBase::Decimal => 10,
        IntegerBase::Octal => 8,
        IntegerBase::Hexadecimal => 16,
        IntegerBase::Binary => 2,
    }
}

/// Evaluates an integer literal in its own base.
pub fn value_of_literal(lit: &IntegerLiteral) -> (r: Result<u32, ConstantError>)
    ensures
        r == literal_value(*lit),
{
    let digits = chars_of(lit.number.as_str());
    let radix = base_radix(lit.base);
    let ghost s = lit.number@;
    if digits.len() == 0 {
        return Err(ConstantError::MalformedLiteral);
    }
    let mut acc: u64 = 0;
    let mut too_large = false;
    let mut i: usize = 0;
    while i < digits.len()
        invariant
            digits@ == s,
            s == lit.number@,
            radix == radix_of(lit.base),
            2 <= radix <= 16,
            i <= s.len(),
            all_digits_in(s.take(i as int), radix as nat),
            !too_large ==> acc == digits_value(s.take(i as int), radix as nat) && acc <= u32::MAX,
            too_large ==> digits_value(s.take(i as int), radix as nat) > u32::MAX,
        decreases s.len() - i,
    {
        let c = digits[i];
        let d = match digit_value(c) {
            Some(d) => d,
            None => {
                proof {
                    assert(!is_digit_in(s[i as int], radix as nat));
                }
                return Err(ConstantError::MalformedLiteral);
            },
        };
        if d as u64 >= radix {
            proof {
                assert(!is_digit_in(s[i as int], radix as nat));
            }
            return Err(ConstantError::MalformedLiteral);
        }
        proof {
            assert(s.take(i + 1).drop_last() =~= s.take(i as int));
            assert(s.take(i + 1).last() == c);
            assert forall|j: int| 0 <= j < i + 1 implies is_digit_in(#[trigger] s.take(i + 1)[j], radix as nat) by {
                if j < i {
                    assert(s.take(i + 1)[j] == s.take(i as int)[j]);
                }
            }
        }
        if !too_large {
            assert(acc * radix <= u32::MAX * 16) by (nonlinear_arith)
                requires acc <= u32::MAX, radix <= 16;
            let next = acc * radix + d as u64;
            if next > u32::MAX as u64 {
                too_large = true;
            } else {
                acc = next;
            }
        } else {
            proof {
                let v = digits_value(s.take(i as int), radix as nat);
                assert(v * radix >= v) by (nonlinear_arith)
                    requires radix >= 2;
            }
        }
        i = i + 1;
    }
    proof {
        assert(s.take(s.len() as int) =~= s);
    }
    if too_large {
        Err(ConstantError::OutOfRange)
    } else {
        Ok(acc as u32)
    }
}

/// Evaluates the value expression of an enumerator or constant.
pub fn value_from_discriminant(e: &Expression) -> (r: Result<u32, ConstantError>)
    ensures
        r == expression_value(*e),
{
    match e {
        Expression::Integer(lit) => value_of_literal(lit),
        _ => Err(ConstantError::NotAnInteger),
    }
}

} // verus!
