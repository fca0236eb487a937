//! Text as Rust's formatter writes it.

use vstd::prelude::*;
use crate::decimal::{decimal_bytes, decimal_chars, lemma_decimal_is_text};
use crate::wire::text_from_utf8;

verus! {

/// What `{:?}` writes for a string: the string between double quotes, with
/// the characters that Rust escapes written as their escapes.
pub uninterp spec fn str_debug_text(s: Seq<char>) -> Seq<char>;

/// `format!` with `{:?}` on a `&str`.
#[verifier::external_body]
pub(crate) fn debug_text(s: &str) -> (r: String)
    ensures
        r@ == str_debug_text(s@),
{
    format!("{:?}", s)
}

/// `n` in decimal, with a minus sign where it is negative: what `{:?}`
/// writes for an integer.
pub fn integer_text(n: i128) -> (r: String)
    ensures
        r@ == decimal_chars(n as int),
{
    let bytes = decimal_bytes(n);
    proof {
        lemma_decimal_is_text(n as int);
    }
    match text_from_utf8(bytes) {
        Some(text) => text,
        None => unreached(),
    }
}

} // verus!
