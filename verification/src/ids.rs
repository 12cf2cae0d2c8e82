//! Customer ID validation.

use vstd::prelude::*;

use crate::error::GoogleAdsError;
use crate::text::{all_digits, is_digit, lemma_trim_idempotent, string_of, trim, trim_str};

verus! {

/// A customer ID is accepted when, trimmed, it is a non-empty run of ASCII digits.
pub open spec fn valid_customer_id(s: Seq<char>) -> bool {
    trim(s).len() > 0 && all_digits(trim(s))
}

pub open spec fn customer_id_help() -> Seq<char> {
    "customer ID must be digits only (no hyphens), e.g. 1234567890"@
}

/// A customer ID that was accepted is accepted again as it came out, and comes out
/// unchanged: normalizing twice is normalizing once.
pub proof fn lemma_normalize_idempotent(s: Seq<char>)
    requires
        valid_customer_id(s),
    ensures
        valid_customer_id(trim(s)),
        trim(trim(s)) == trim(s),
{
    lemma_trim_idempotent(s);
}

/// Whether every character of `s` is an ASCII digit.
pub fn all_ascii_digits(s: &str) -> (r: bool)
    ensures
        r == all_digits(s@),
{
    let n = s.unicode_len();
    let mut i: usize = 0;
    while i < n
        invariant
            n == s@.len(),
            i <= n,
            forall|j: int| 0 <= j < i ==> #[trigger] is_digit(s@[j]),
        decreases n - i,
    {
        let c = s.get_char(i);
        if !('0' <= c && c <= '9') {
            assert(!is_digit(s@[i as int]));
            return false;
        }
        i = i + 1;
    }
    true
}

/// The trimmed customer ID, or the reason it is refused.
pub fn normalize_customer_id_impl(value: &str) -> (r: Result<String, String>)
    ensures
        match r {
            Ok(v) => valid_customer_id(value@) && v@ == trim(value@),
            Err(m) => !valid_customer_id(value@) && m@ == customer_id_help(),
        },
{
    let trimmed = trim_str(value);
    if trimmed.as_str().unicode_len() == 0 {
        return Err(string_of("customer ID must be digits only (no hyphens), e.g. 1234567890"));
    }
    if !all_ascii_digits(trimmed.as_str()) {
        return Err(string_of("customer ID must be digits only (no hyphens), e.g. 1234567890"));
    }
    Ok(trimmed)
}

/// Parses a customer ID given on the command line.
pub fn parse_customer_id_arg(value: &str) -> (r: Result<String, String>)
    ensures
        match r {
            Ok(v) => valid_customer_id(value@) && v@ == trim(value@),
            Err(m) => !valid_customer_id(value@) && m@ == customer_id_help(),
        },
{
    normalize_customer_id_impl(value)
}

/// The trimmed customer ID; `InvalidCustomerId` naming `field` and the given value when it
/// is refused.
pub fn normalize_customer_id(value: &str, field: &'static str) -> (r: Result<String, GoogleAdsError>)
    ensures
        match r {
            Ok(v) => valid_customer_id(value@) && v@ == trim(value@),
            Err(e) => !valid_customer_id(value@) && (e matches GoogleAdsError::InvalidCustomerId {
                field: f,
                value: v,
            } && f == field && v@ == value@),
        },
{
    match normalize_customer_id_impl(value) {
        Ok(v) => Ok(v),
        Err(_) => Err(GoogleAdsError::InvalidCustomerId { field, value: string_of(value) }),
    }
}

} // verus!
