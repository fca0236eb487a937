//! Integers as decimal text.

use vstd::prelude::*;
use vstd::utf8::{decode_utf8, encode_utf8, is_ascii_chars, valid_utf8};

verus! {

/// The decimal digits of `n` in ASCII, most significant first, without
/// leading zeros.
pub open spec fn digits(n: nat) -> Seq<u8>
    decreases n,
{
    if n < 10 {
        seq![(48 + n) as u8]
    } else {
        digits(n / 10).push((48 + n % 10) as u8)
    }
}

/// `n` in decimal, in ASCII: a minus sign for a negative number, then the
/// digits.
pub open spec fn decimal(n: int) -> Seq<u8> {
    if n < 0 {
        seq![45u8] + digits((-n) as nat)
    } else {
        digits(n as nat)
    }
}

/// `n` in decimal, as characters.
pub open spec fn decimal_chars(n: int) -> Seq<char> {
    Seq::new(decimal(n).len(), |i: int| decimal(n)[i] as char)
}

/// The number that the ASCII digits `text` spell.
pub open spec fn digits_value(text: Seq<u8>) -> nat
    decreases text.len(),
{
    if text.len() == 0 {
        0
    } else {
        (digits_value(text.drop_last()) * 10 + (text.last() - 48)) as nat
    }
}

pub proof fn lemma_digits(n: nat)
    ensures
        digits(n).len() > 0,
        forall|i: int| 0 <= i < digits(n).len() ==> 48 <= #[trigger] digits(n)[i] <= 57,
        digits_value(digits(n)) == n,
    decreases n,
{
    if n < 10 {
        assert(digits(n).drop_last() =~= Seq::<u8>::empty());
        assert(digits_value(digits(n).drop_last()) == 0);
    } else {
        lemma_digits(n / 10);
        assert(digits(n).drop_last() =~= digits(n / 10));
    }
}

/// Two numbers with the same decimal text are the same number.
pub proof fn lemma_decimal_injective(a: int, b: int)
    requires
        decimal(a) == decimal(b),
    ensures
        a == b,
{
    if a < 0 {
        lemma_digits((-a) as nat);
    } else {
        lemma_digits(a as nat);
    }
    if b < 0 {
        lemma_digits((-b) as nat);
    } else {
        lemma_digits(b as nat);
    }
    if a < 0 && b < 0 {
        let da = digits((-a) as nat);
        let db = digits((-b) as nat);
        assert(decimal(a).drop_first() =~= da);
        assert(decimal(b).drop_first() =~= db);
    } else if a < 0 {
        assert(decimal(a)[0] == 45);
        assert(decimal(b)[0] == digits(b as nat)[0]);
    } else if b < 0 {
        assert(decimal(b)[0] == 45);
        assert(decimal(a)[0] == digits(a as nat)[0]);
    }
}

/// The decimal text of a number is ASCII: its bytes are the UTF-8 form of
/// its characters.
pub proof fn lemma_decimal_is_text(n: int)
    ensures
        valid_utf8(decimal(n)),
        decode_utf8(decimal(n)) == decimal_chars(n),
{
    let bytes = decimal(n);
    let chars = decimal_chars(n);
    if n < 0 {
        lemma_digits((-n) as nat);
    } else {
        lemma_digits(n as nat);
    }
    assert forall|i: int| 0 <= i < bytes.len() implies #[trigger] bytes[i] < 128 by {
        if n < 0 && i > 0 {
            assert(bytes[i] == digits((-n) as nat)[i - 1]);
        }
    }
    assert(is_ascii_chars(chars)) by {
        assert forall|i: int| 0 <= i < chars.len() implies '\0' <= #[trigger] chars[i]
            <= '\u{7f}' by {
            assert(chars[i] == bytes[i] as char);
        }
    }
    vstd::utf8::is_ascii_chars_encode_utf8(chars);
    assert(encode_utf8(chars) =~= bytes) by {
        assert forall|i: int| 0 <= i < chars.len() implies encode_utf8(chars)[i] == bytes[i] by {
            assert(chars[i] as u8 == encode_utf8(chars)[i]);
            assert(chars[i] == bytes[i] as char);
        }
    }
    vstd::utf8::encode_utf8_valid_utf8(chars);
    vstd::utf8::encode_utf8_decode_utf8(chars);
}

/// Appends the decimal digits of `n` to `out`.
fn push_digits(out: &mut Vec<u8>, n: u128)
    ensures
        final(out)@ == old(out)@ + digits(n as nat),
    decreases n,
{
    if n >= 10 {
        push_digits(out, n / 10);
    }
    let ghost before = out@;
    out.push((48 + n % 10) as u8);
    proof {
        if n >= 10 {
            assert(before.push((48 + n % 10) as u8) =~= old(out)@ + digits((n / 10) as nat).push(
                (48 + n % 10) as u8,
            ));
        } else {
            assert(before.push((48 + n) as u8) =~= old(out)@ + seq![(48 + n) as u8]);
        }
    }
}

/// `n` in decimal, in ASCII.
pub fn decimal_bytes(n: i128) -> (r: Vec<u8>)
    ensures
        r@ == decimal(n as int),
{
    let mut out: Vec<u8> = Vec::new();
    if n < 0 {
        out.push(45u8);
        let magnitude: u128 = (-(n + 1)) as u128 + 1;
        push_digits(&mut out, magnitude);
        assert(out@ =~= seq![45u8] + digits((-n) as nat));
    } else {
        push_digits(&mut out, n as u128);
        assert(out@ =~= digits(n as nat));
    }
    out
}

} // verus!
