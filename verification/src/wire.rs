//! The parts of the binary payloads: fixed-width integers as little-endian
//! bytes, and text as UTF-8 behind its length.

use vstd::prelude::*;
use vstd::string::StringSliceAdditionalSpecFns;
use vstd::utf8::{decode_utf8, encode_utf8, valid_utf8};

verus! {

/// `256` to the power `width`: the number of values that `width` bytes can hold.
pub open spec fn radix_limit(width: nat) -> nat
    decreases width,
{
    if width == 0 {
        1
    } else {
        256 * radix_limit((width - 1) as nat)
    }
}

/// The `width` lowest bytes of `x`, lowest first.
pub open spec fn le_bytes(x: nat, width: nat) -> Seq<u8>
    decreases width,
{
    if width == 0 {
        Seq::empty()
    } else {
        seq![(x % 256) as u8] + le_bytes(x / 256, (width - 1) as nat)
    }
}

/// The number that `bytes` spell, lowest byte first.
pub open spec fn le_value(bytes: Seq<u8>) -> nat
    decreases bytes.len(),
{
    if bytes.len() == 0 {
        0
    } else {
        bytes[0] as nat + 256 * le_value(bytes.drop_first())
    }
}

/// The two's complement of `v` in `width` bytes.
pub open spec fn to_unsigned(v: int, width: nat) -> nat {
    if v >= 0 {
        v as nat
    } else {
        (v + radix_limit(width)) as nat
    }
}

/// The signed number whose two's complement in `width` bytes is `u`.
pub open spec fn to_signed(u: nat, width: nat) -> int {
    if 2 * u < radix_limit(width) {
        u as int
    } else {
        u - radix_limit(width)
    }
}

pub proof fn lemma_radix_limits()
    ensures
        radix_limit(1) == 0x100,
        radix_limit(2) == 0x1_0000,
        radix_limit(3) == 0x100_0000,
        radix_limit(4) == 0x1_0000_0000,
        radix_limit(5) == 0x100_0000_0000,
        radix_limit(6) == 0x1_0000_0000_0000,
        radix_limit(7) == 0x100_0000_0000_0000,
        radix_limit(8) == 0x1_0000_0000_0000_0000,
{
    reveal_with_fuel(radix_limit, 9);
}

pub proof fn lemma_le_bytes_len(x: nat, width: nat)
    ensures
        le_bytes(x, width).len() == width,
    decreases width,
{
    if width > 0 {
        lemma_le_bytes_len(x / 256, (width - 1) as nat);
    }
}

/// Reading what was written gives the number back, where the number fits.
pub proof fn lemma_le_round_trip(x: nat, width: nat)
    requires
        x < radix_limit(width),
    ensures
        le_value(le_bytes(x, width)) == x,
    decreases width,
{
    if width > 0 {
        let rest = le_bytes(x / 256, (width - 1) as nat);
        let all = le_bytes(x, width);
        lemma_le_round_trip(x / 256, (width - 1) as nat);
        lemma_le_bytes_len(x, width);
        assert(all.drop_first() =~= rest);
        assert(all[0] == (x % 256) as u8);
    }
}

/// What `bytes` spell fits in as many bytes.
pub proof fn lemma_le_value_bound(bytes: Seq<u8>)
    ensures
        le_value(bytes) < radix_limit(bytes.len()),
    decreases bytes.len(),
{
    if bytes.len() > 0 {
        lemma_le_value_bound(bytes.drop_first());
    }
}

/// Two's complement and back is the identity on the numbers that fit.
pub proof fn lemma_signed_round_trip(v: int, width: nat)
    requires
        -(radix_limit(width) as int) <= 2 * v < radix_limit(width),
    ensures
        to_unsigned(v, width) < radix_limit(width),
        to_signed(to_unsigned(v, width), width) == v,
{
}

/// Appends the `width` lowest bytes of `x` to `out`.
pub fn push_le(out: &mut Vec<u8>, x: u64, width: usize)
    requires
        width <= 8,
    ensures
        final(out)@ == old(out)@ + le_bytes(x as nat, width as nat),
{
    let mut rest: u64 = x;
    let mut i: usize = 0;
    while i < width
        invariant
            i <= width <= 8,
            out@ + le_bytes(rest as nat, (width - i) as nat) == old(out)@ + le_bytes(
                x as nat,
                width as nat,
            ),
        decreases width - i,
    {
        let ghost before = out@;
        let low: u8 = (rest % 256) as u8;
        out.push(low);
        proof {
            let tail = le_bytes((rest / 256) as nat, (width - i - 1) as nat);
            assert(le_bytes(rest as nat, (width - i) as nat) == seq![low] + tail);
            assert(before.push(low) + tail =~= before + (seq![low] + tail));
        }
        rest = rest / 256;
        i = i + 1;
    }
    assert(out@ + le_bytes(rest as nat, 0) =~= out@);
}

/// The number that the `width` bytes of `bytes` from `start` on spell.
pub fn read_le(bytes: &Vec<u8>, start: usize, width: usize) -> (r: u64)
    requires
        start + width <= bytes.len(),
        width <= 8,
    ensures
        r == le_value(bytes@.subrange(start as int, start + width)),
{
    let mut r: u64 = 0;
    let mut i: usize = width;
    proof {
        lemma_radix_limits();
        assert(bytes@.subrange(start + width, start + width).len() == 0);
    }
    while i > 0
        invariant
            i <= width <= 8,
            start + width <= bytes.len(),
            r == le_value(bytes@.subrange(start + i, start + width)),
            r < radix_limit((width - i) as nat),
        decreases i,
    {
        i = i - 1;
        proof {
            let now = bytes@.subrange(start + i, start + width);
            let before = bytes@.subrange(start + i + 1, start + width);
            assert(now.drop_first() =~= before);
            assert(now[0] == bytes@[start + i]);
            lemma_radix_limits();
            assert(radix_limit((width - i) as nat) == 256 * radix_limit((width - i - 1) as nat));
            assert(radix_limit((width - i) as nat) <= 0x1_0000_0000_0000_0000) by {
                lemma_radix_limits();
                if width - i == 1 {
                } else if width - i == 2 {
                } else if width - i == 3 {
                } else if width - i == 4 {
                } else if width - i == 5 {
                } else if width - i == 6 {
                } else if width - i == 7 {
                } else {
                }
            }
        }
        r = bytes[start + i] as u64 + 256 * r;
    }
    r
}

/// The bytes of `text`: the length of its UTF-8 form in four bytes, then that
/// form. `None` where the length does not fit in four bytes.
pub open spec fn text_field(text: Seq<char>) -> Option<Seq<u8>> {
    if encode_utf8(text).len() < radix_limit(4) {
        Some(le_bytes(encode_utf8(text).len(), 4) + encode_utf8(text))
    } else {
        None
    }
}

/// The text at the front of `bytes`, and the bytes after it. `None` where
/// `bytes` do not begin with a length and as many bytes of UTF-8.
pub open spec fn text_taken(bytes: Seq<u8>) -> Option<(Seq<char>, Seq<u8>)> {
    if bytes.len() < 4 {
        None
    } else {
        let n = le_value(bytes.subrange(0, 4)) as int;
        if 4 + n > bytes.len() {
            None
        } else if !valid_utf8(bytes.subrange(4, 4 + n)) {
            None
        } else {
            Some((decode_utf8(bytes.subrange(4, 4 + n)), bytes.subrange(4 + n, bytes.len() as int)))
        }
    }
}

/// Text that was written is read back, and what follows it is left over.
pub proof fn lemma_text_round_trip(text: Seq<char>, rest: Seq<u8>)
    ensures
        text_field(text) matches Some(field) ==> text_taken(field + rest) == Some((text, rest)),
{
    if let Some(field) = text_field(text) {
        let body = encode_utf8(text);
        let all = field + rest;
        lemma_le_bytes_len(body.len(), 4);
        lemma_le_round_trip(body.len(), 4);
        assert(all.subrange(0, 4) =~= le_bytes(body.len(), 4));
        assert(all.subrange(4, 4 + body.len() as int) =~= body);
        assert(all.subrange(4 + body.len() as int, all.len() as int) =~= rest);
        vstd::utf8::encode_utf8_valid_utf8(text);
        vstd::utf8::encode_utf8_decode_utf8(text);
    }
}

/// `String::from_utf8`: the text that `bytes` are the UTF-8 form of, or
/// `None` where they are the form of no text.
#[verifier::external_body]
pub(crate) fn text_from_utf8(bytes: Vec<u8>) -> (r: Option<String>)
    ensures
        r is Some <==> valid_utf8(bytes@),
        r matches Some(text) ==> text@ == decode_utf8(bytes@),
{
    match String::from_utf8(bytes) {
        Ok(text) => Some(text),
        Err(_) => None,
    }
}

/// Appends `text` to `out` as a text field. Where the text is too long for
/// one, `out` stays as it is and the result is `false`.
pub fn push_text(out: &mut Vec<u8>, text: &str) -> (r: bool)
    ensures
        r == text_field(text@).is_some(),
        r ==> final(out)@ == old(out)@ + text_field(text@).unwrap(),
        !r ==> final(out)@ == old(out)@,
{
    let body = text.as_bytes();
    proof {
        lemma_radix_limits();
    }
    if body.len() as u64 >= 0x1_0000_0000u64 {
        return false;
    }
    push_le(out, body.len() as u64, 4);
    let ghost with_length = out@;
    let mut i: usize = 0;
    while i < body.len()
        invariant
            i <= body@.len(),
            out@ == with_length + body@.subrange(0, i as int),
        decreases body@.len() - i,
    {
        out.push(body[i]);
        assert(out@ =~= with_length + body@.subrange(0, i + 1));
        i = i + 1;
    }
    proof {
        assert(body@.subrange(0, i as int) =~= body@);
        assert(out@ =~= old(out)@ + (le_bytes(body@.len(), 4) + body@));
    }
    true
}

/// Reads the text field that begins at `start`. Gives the text and the
/// position after it.
pub fn read_text(bytes: &Vec<u8>, start: usize) -> (r: Option<(String, usize)>)
    requires
        start <= bytes.len(),
    ensures
        match r {
            Some((text, next)) => {
                &&& start <= next <= bytes.len()
                &&& text_taken(bytes@.subrange(start as int, bytes.len() as int)) == Some(
                    (text@, bytes@.subrange(next as int, bytes.len() as int)),
                )
            },
            None => text_taken(bytes@.subrange(start as int, bytes.len() as int)) is None,
        },
{
    let ghost tail = bytes@.subrange(start as int, bytes.len() as int);
    if bytes.len() - start < 4 {
        return None;
    }
    let n = read_le(bytes, start, 4);
    proof {
        lemma_radix_limits();
        assert(bytes@.subrange(start as int, start + 4) =~= tail.subrange(0, 4));
        lemma_le_value_bound(tail.subrange(0, 4));
    }
    if n > (bytes.len() - start - 4) as u64 {
        return None;
    }
    let from = start + 4;
    let to = from + n as usize;
    let mut body: Vec<u8> = Vec::new();
    let mut i: usize = from;
    while i < to
        invariant
            from <= i <= to <= bytes.len(),
            body@ == bytes@.subrange(from as int, i as int),
        decreases to - i,
    {
        body.push(bytes[i]);
        assert(body@ =~= bytes@.subrange(from as int, i + 1));
        i = i + 1;
    }
    proof {
        assert(body@ =~= tail.subrange(4, 4 + n));
        assert(bytes@.subrange(to as int, bytes.len() as int) =~= tail.subrange(
            4 + n,
            tail.len() as int,
        ));
    }
    match text_from_utf8(body) {
        Some(text) => Some((text, to)),
        None => None,
    }
}

} // verus!
