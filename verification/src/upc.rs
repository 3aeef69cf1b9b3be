//! UPC-A: a 12-digit retail barcode whose last digit is a mod-10 check
//! digit computed with weights 3, 1, 3, 1, ... over the first 11 digits.

use vstd::prelude::*;
use crate::digits::{
    pow10, all_digits, str_num, digits_of, render_digits, weighted_sum, check_from_sum,
    lemma_str_num_bound, lemma_pow10_values, lemma_render_all_digits, lemma_str_num_render,
    lemma_render_str_num, parse_decimal, weighted_sum_of, check_digit_from_sum, render_decimal,
};

verus! {

/// The check digit that the UPC-A rule assigns to a 12-digit magnitude:
/// the weighted sum of the first 11 digits, each counted 3 times at even
/// zero-based positions and once at odd ones, turned into a mod-10 digit.
pub open spec fn upc_check(n: nat) -> nat {
    check_from_sum(weighted_sum(digits_of(n / 10, 11), 3, 1))
}

/// A magnitude whose stored check digit agrees with the UPC-A rule.
pub open spec fn upc_valid(n: nat) -> bool {
    upc_check(n) == n % 10
}

/// A validated 12-digit UPC-A code. Its view is the stored magnitude,
/// always below `10^12`.
#[derive(Clone, Copy, PartialEq, Eq, Structural, PartialOrd, Ord, Hash, Debug)]
pub struct UPC {
    code: u64,
}

/// Why constructing a UPC from a string failed.
#[derive(PartialEq, Eq, Structural, Debug)]
pub enum UPCParseError {
    /// The input was not exactly 12 characters; carries the actual length.
    Length(usize),
    /// Some character was not a decimal digit.
    Parse,
    /// The computed check digit differs from the supplied one; carries the
    /// computed and the supplied digit.
    CheckDigit(u8, u8),
}

impl View for UPC {
    type V = nat;

    closed spec fn view(&self) -> nat {
        self.code as nat
    }
}

impl UPC {
    /// The stored magnitude always fits 12 decimal digits.
    #[verifier::type_invariant]
    spec fn wf(self) -> bool {
        self.code < 1000000000000
    }

    /// Validates a 12-character decimal string against the UPC-A check
    /// digit rule and wraps its magnitude.
    pub fn new(barcode: &str) -> (r: Result<UPC, UPCParseError>)
        ensures
            barcode@.len() != 12 ==> r == Err::<UPC, UPCParseError>(
                UPCParseError::Length(barcode@.len() as usize)),
            barcode@.len() == 12 && !all_digits(barcode@) ==> r == Err::<UPC, UPCParseError>(
                UPCParseError::Parse),
            barcode@.len() == 12 && all_digits(barcode@) ==> ({
                let v = str_num(barcode@);
                if upc_check(v) != v % 10 {
                    r == Err::<UPC, UPCParseError>(
                        UPCParseError::CheckDigit(upc_check(v) as u8, (v % 10) as u8))
                } else {
                    r matches Ok(u) && u@ == v
                }
            }),
            r matches Ok(u) ==> barcode@.len() == 12 && all_digits(barcode@)
                && u@ == str_num(barcode@) && u@ < pow10(12) && upc_valid(u@),
    {
        let len = barcode.unicode_len();
        if len != 12 {
            return Err(UPCParseError::Length(len));
        }
        match parse_decimal(barcode) {
            None => Err(UPCParseError::Parse),
            Some(v) => {
                proof {
                    lemma_str_num_bound(barcode@);
                    lemma_pow10_values();
                }
                let e = UPC { code: v };
                let calc = e.calculate_check_digit();
                let existing = e.check_digit();
                if calc != existing {
                    Err(UPCParseError::CheckDigit(calc, existing))
                } else {
                    Ok(e)
                }
            },
        }
    }

    /// Computes the check digit that the first 11 stored digits demand.
    fn calculate_check_digit(&self) -> (r: u8)
        ensures
            r == upc_check(self@),
    {
        let sum = weighted_sum_of(self.code / 10, 11, 3, 1);
        check_digit_from_sum(sum)
    }

    /// The stored check digit: the last digit of the magnitude.
    pub fn check_digit(&self) -> (r: u8)
        ensures
            r == self@ % 10,
    {
        (self.code % 10) as u8
    }

    /// Renders the magnitude as the canonical zero-padded 12-character
    /// decimal string; reading that string back yields the magnitude.
    pub fn render(&self) -> (r: String)
        ensures
            r@ == render_digits(self@, 12),
            r@.len() == 12,
            all_digits(r@),
            str_num(r@) == self@,
    {
        proof {
            use_type_invariant(self);
            lemma_pow10_values();
            lemma_render_all_digits(self@, 12);
            lemma_str_num_render(self@, 12);
        }
        render_decimal(self.code, 12)
    }

    /// Law: on a 12-digit string with a correct check digit, `new`
    /// succeeds (by its contract) with the string's magnitude, and
    /// `render` reproduces the string exactly.
    pub proof fn lemma_round_trip(s: Seq<char>)
        requires
            s.len() == 12,
            all_digits(s),
            upc_valid(str_num(s)),
        ensures
            render_digits(str_num(s), 12) == s,
    {
        lemma_render_str_num(s);
    }

    /// The view is the stored machine word, so it always fits one.
    pub proof fn lemma_view_fits_u64(&self)
        ensures
            self@ <= u64::MAX,
    {
    }

    /// The stored magnitude, for reuse inside the crate.
    pub(crate) fn raw_code(&self) -> (r: u64)
        ensures
            r == self@,
            r < 1000000000000,
    {
        proof {
            use_type_invariant(self);
        }
        self.code
    }
}

} // verus!
