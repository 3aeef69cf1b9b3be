//! PLU: a 4-or-5-digit produce lookup code. Only the length is validated;
//! PLU codes carry no check digit. Rendering is always 4 characters wide,
//! so a 5-digit code does not round-trip.

use vstd::prelude::*;
use crate::digits::{
    pow10, all_digits, str_num, render_digits, lemma_str_num_bound, lemma_pow10_values,
    lemma_render_all_digits, parse_decimal, render_decimal,
};

verus! {

/// A validated PLU code. Its view is the stored magnitude, always below
/// `10^5`.
#[derive(Clone, Copy, PartialEq, Eq, Structural, PartialOrd, Ord, Hash, Debug)]
pub struct PLU {
    code: u32,
}

/// Why constructing a PLU from a string failed.
#[derive(PartialEq, Eq, Structural, Debug)]
pub enum PLUParseError {
    /// The input was not 4 or 5 characters; carries the actual length.
    Length(usize),
    /// Some character was not a decimal digit.
    Parse,
}

impl View for PLU {
    type V = nat;

    closed spec fn view(&self) -> nat {
        self.code as nat
    }
}

impl PLU {
    /// The stored magnitude always fits 5 decimal digits.
    #[verifier::type_invariant]
    spec fn wf(self) -> bool {
        self.code < 100000
    }

    /// Validates a 4-or-5-character decimal string and wraps its magnitude.
    pub fn new(plu: &str) -> (r: Result<PLU, PLUParseError>)
        ensures
            plu@.len() < 4 || plu@.len() > 5 ==> r == Err::<PLU, PLUParseError>(
                PLUParseError::Length(plu@.len() as usize)),
            4 <= plu@.len() <= 5 && !all_digits(plu@) ==> r == Err::<PLU, PLUParseError>(
                PLUParseError::Parse),
            4 <= plu@.len() <= 5 && all_digits(plu@) ==> (
                r matches Ok(p) && p@ == str_num(plu@)),
            r matches Ok(p) ==> 4 <= plu@.len() <= 5 && all_digits(plu@)
                && p@ == str_num(plu@) && p@ < pow10(5),
    {
        let len = plu.unicode_len();
        if len < 4 || len > 5 {
            return Err(PLUParseError::Length(len));
        }
        match parse_decimal(plu) {
            None => Err(PLUParseError::Parse),
            Some(v) => {
                proof {
                    lemma_str_num_bound(plu@);
                    lemma_pow10_values();
                    crate::digits::lemma_pow10_le(plu@.len(), 5);
                }
                Ok(PLU { code: v as u32 })
            },
        }
    }

    /// Renders the low 4 digits of the magnitude as a zero-padded
    /// 4-character decimal string. A 5-digit code loses its leading digit
    /// here: the width is fixed at 4 whatever the validated input length.
    pub fn render(&self) -> (r: String)
        ensures
            r@ == render_digits(self@, 4),
            r@.len() == 4,
            all_digits(r@),
    {
        proof {
            lemma_render_all_digits(self@, 4);
        }
        render_decimal(self.code as u64, 4)
    }
}

} // verus!
