//! EAN-13: a 13-digit retail barcode whose last digit is a mod-10 check
//! digit computed with weights 1, 3, 1, 3, ... over the first 12 digits —
//! the complement of the UPC-A weighting. A UPC-A code converts to an
//! EAN-13 of the same magnitude without revalidation.

use vstd::prelude::*;
use crate::digits::{
    pow10, all_digits, str_num, digits_of, render_digits, weighted_sum, check_from_sum,
    lemma_str_num_bound, lemma_pow10_values, lemma_render_all_digits, lemma_str_num_render,
    lemma_digits_leading_zero, lemma_render_leading_zero, lemma_weighted_sum_prepend_zero,
    parse_decimal, weighted_sum_of, check_digit_from_sum, render_decimal,
};
use crate::upc::{UPC, upc_check, upc_valid};

verus! {

/// The check digit that the EAN-13 rule assigns to a 13-digit magnitude:
/// the weighted sum of the first 12 digits, each counted once at even
/// zero-based positions and 3 times at odd ones, turned into a mod-10 digit.
pub open spec fn ean13_check(n: nat) -> nat {
    check_from_sum(weighted_sum(digits_of(n / 10, 12), 1, 3))
}

/// A magnitude whose stored check digit agrees with the EAN-13 rule.
pub open spec fn ean13_valid(n: nat) -> bool {
    ean13_check(n) == n % 10
}

/// A 13-digit EAN-13 code. Its view is the stored magnitude, always below
/// `10^13`. Values made by `new` satisfy the EAN-13 check digit rule;
/// values converted from a UPC keep the UPC's magnitude unchecked.
#[derive(Clone, Copy, PartialEq, Eq, Structural, PartialOrd, Ord, Hash, Debug)]
pub struct EAN13 {
    code: u64,
}

/// Why constructing an EAN13 from a string failed.
#[derive(PartialEq, Eq, Structural, Debug)]
pub enum EAN13ParseError {
    /// The input was not exactly 13 characters; carries the actual length.
    Length(usize),
    /// Some character was not a decimal digit.
    Parse,
    /// The computed check digit differs from the supplied one; carries the
    /// computed and the supplied digit.
    CheckDigit(u8, u8),
}

impl View for EAN13 {
    type V = nat;

    closed spec fn view(&self) -> nat {
        self.code as nat
    }
}

impl EAN13 {
    /// The stored magnitude always fits 13 decimal digits.
    #[verifier::type_invariant]
    spec fn wf(self) -> bool {
        self.code < 10000000000000
    }

    /// Validates a 13-character decimal string against the EAN-13 check
    /// digit rule and wraps its magnitude.
    pub fn new(barcode: &str) -> (r: Result<EAN13, EAN13ParseError>)
        ensures
            barcode@.len() != 13 ==> r == Err::<EAN13, EAN13ParseError>(
                EAN13ParseError::Length(barcode@.len() as usize)),
            barcode@.len() == 13 && !all_digits(barcode@) ==> r == Err::<EAN13, EAN13ParseError>(
                EAN13ParseError::Parse),
            barcode@.len() == 13 && all_digits(barcode@) ==> ({
                let v = str_num(barcode@);
                if ean13_check(v) != v % 10 {
                    r == Err::<EAN13, EAN13ParseError>(
                        EAN13ParseError::CheckDigit(ean13_check(v) as u8, (v % 10) as u8))
                } else {
                    r matches Ok(e) && e@ == v
                }
            }),
            r matches Ok(e) ==> barcode@.len() == 13 && all_digits(barcode@)
                && e@ == str_num(barcode@) && e@ < pow10(13) && ean13_valid(e@),
    {
        let len = barcode.unicode_len();
        if len != 13 {
            return Err(EAN13ParseError::Length(len));
        }
        match parse_decimal(barcode) {
            None => Err(EAN13ParseError::Parse),
            Some(v) => {
                proof {
                    lemma_str_num_bound(barcode@);
                    lemma_pow10_values();
                }
                let e = EAN13 { code: v };
                let calc = e.calculate_check_digit();
                let existing = e.check_digit();
                if calc != existing {
                    Err(EAN13ParseError::CheckDigit(calc, existing))
                } else {
                    Ok(e)
                }
            },
        }
    }

    /// Computes the check digit that the first 12 stored digits demand.
    fn calculate_check_digit(&self) -> (r: u8)
        ensures
            r == ean13_check(self@),
    {
        let sum = weighted_sum_of(self.code / 10, 12, 1, 3);
        check_digit_from_sum(sum)
    }

    /// The stored check digit: the last digit of the magnitude.
    pub fn check_digit(&self) -> (r: u8)
        ensures
            r == self@ % 10,
    {
        (self.code % 10) as u8
    }

    /// Renders the magnitude as the canonical zero-padded 13-character
    /// decimal string; reading that string back yields the magnitude.
    pub fn render(&self) -> (r: String)
        ensures
            r@ == render_digits(self@, 13),
            r@.len() == 13,
            all_digits(r@),
            str_num(r@) == self@,
    {
        proof {
            use_type_invariant(self);
            lemma_pow10_values();
            lemma_render_all_digits(self@, 13);
            lemma_str_num_render(self@, 13);
        }
        render_decimal(self.code, 13)
    }
}

impl From<UPC> for EAN13 {
    /// Reinterprets a UPC's 12 digits as a 13-digit magnitude with a
    /// leading zero. No new check digit is computed: the conversion
    /// trusts the UPC's own validated digits.
    fn from(u: UPC) -> (r: EAN13) {
        EAN13 { code: u.raw_code() }
    }
}

impl vstd::std_specs::convert::FromSpecImpl<UPC> for EAN13 {
    open spec fn obeys_from_spec() -> bool {
        true
    }

    closed spec fn from_spec(u: UPC) -> EAN13 {
        EAN13 { code: u@ as u64 }
    }
}

/// Law: converting a UPC to an EAN13 preserves the stored magnitude, and
/// with it the stored check digit.
pub proof fn lemma_from_upc_magnitude(u: UPC)
    ensures
        (<EAN13 as vstd::std_specs::convert::FromSpec<UPC>>::from_spec(u))@ == u@,
{
    u.lemma_view_fits_u64();
}

/// Law: the two weightings are complementary. On a magnitude that fits 12
/// digits the EAN-13 rule sees the UPC's 11 payload digits shifted one
/// position right behind a leading zero, so both rules demand the same
/// check digit.
pub proof fn lemma_check_complement(n: nat)
    requires
        n < pow10(12),
    ensures
        ean13_check(n) == upc_check(n),
{
    crate::digits::lemma_div10_bound(n, 11);
    lemma_digits_leading_zero(n / 10, 11);
    lemma_weighted_sum_prepend_zero(digits_of(n / 10, 11), 1, 3);
}

/// Law: a magnitude that satisfies the UPC rule satisfies the EAN-13 rule
/// as well, so a converted UPC is check-digit valid as an EAN-13.
pub proof fn lemma_from_upc_valid(n: nat)
    requires
        n < pow10(12),
        upc_valid(n),
    ensures
        ean13_valid(n),
{
    lemma_check_complement(n);
}

/// Law: an EAN13 converted from a UPC renders as the UPC's 12-character
/// rendering with one character, a zero, prepended.
pub proof fn lemma_from_upc_render(n: nat)
    requires
        n < pow10(12),
    ensures
        render_digits(n, 13) == seq!['0'] + render_digits(n, 12),
{
    lemma_render_leading_zero(n, 12);
}

} // verus!
