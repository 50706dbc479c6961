//! ASCII text: digits in a radix, padding, and the step from bytes to `String`.

use vstd::prelude::*;
use vstd::utf8::{
    decode_utf8, encode_utf8, encode_utf8_decode_utf8, encode_utf8_valid_utf8,
    is_ascii_chars, is_ascii_chars_encode_utf8, valid_utf8,
};

verus! {

/// Every byte is in the 7-bit range.
pub open spec fn all_ascii(bytes: Seq<u8>) -> bool {
    forall|i: int| 0 <= i < bytes.len() ==> #[trigger] bytes[i] < 128
}

/// The characters that a sequence of ASCII bytes stands for, one per byte.
pub open spec fn ascii_chars(bytes: Seq<u8>) -> Seq<char> {
    Seq::new(bytes.len(), |i: int| bytes[i] as char)
}

/// The lowercase digit for a value below 16: `0`-`9`, then `a`-`f`.
pub open spec fn digit_byte(d: nat) -> u8 {
    if d < 10 {
        (48 + d) as u8
    } else {
        (87 + d) as u8
    }
}

/// The digits of `value` in `base`, most significant first, without leading
/// zeros; zero is the single digit `0`.
pub open spec fn digits(value: nat, base: nat) -> Seq<u8>
    recommends
        2 <= base <= 16,
    decreases value,
    via digits_decreases
{
    if value < base || base < 2 {
        seq![digit_byte(value)]
    } else {
        digits(value / base, base).push(digit_byte(value % base))
    }
}

#[via_fn]
proof fn digits_decreases(value: nat, base: nat) {
    if !(value < base || base < 2) {
        lemma_quotient_remainder(value, base);
    }
}

/// Bounds on quotient and remainder by a base of at least two.
pub proof fn lemma_quotient_remainder(value: nat, base: nat)
    requires
        base >= 2,
    ensures
        value % base < base,
        value >= base ==> 0 < value / base < value,
        value < base ==> value / base == 0 && value % base == value,
{
    assert(value % base < base) by (nonlinear_arith)
        requires
            base >= 2,
    ;
    assert(value >= base ==> 0 < value / base < value) by (nonlinear_arith)
        requires
            base >= 2,
    ;
    assert(value < base ==> value / base == 0 && value % base == value) by (nonlinear_arith)
        requires
            base >= 2,
    ;
}

/// `text` with as many copies of `fill` in front as it takes to reach
/// `width`; unchanged when it is already that long.
pub open spec fn padded(text: Seq<u8>, width: nat, fill: u8) -> Seq<u8> {
    if text.len() >= width {
        text
    } else {
        Seq::new((width - text.len()) as nat, |i: int| fill) + text
    }
}

/// Lowercase hexadecimal digits of `value`, zero-padded to `width`.
pub open spec fn hex_field(value: nat, width: nat) -> Seq<u8> {
    padded(digits(value, 16), width, 48)
}

/// Number of decimal digits of `value`.
pub open spec fn decimal_width(value: nat) -> nat {
    digits(value, 10).len()
}

/// `digits` yields ASCII only.
pub proof fn lemma_digits_ascii(value: nat, base: nat)
    requires
        2 <= base <= 16,
    ensures
        all_ascii(digits(value, base)),
        digits(value, base).len() >= 1,
    decreases value,
{
    if value >= base {
        lemma_quotient_remainder(value, base);
        lemma_digits_ascii(value / base, base);
    }
}

/// Padding ASCII text with an ASCII byte leaves it ASCII.
pub proof fn lemma_padded_ascii(text: Seq<u8>, width: nat, fill: u8)
    requires
        all_ascii(text),
        fill < 128,
    ensures
        all_ascii(padded(text, width, fill)),
        padded(text, width, fill).len() >= width,
        padded(text, width, fill).len() >= text.len(),
{
}

/// `String::from_utf8`: the bytes decode exactly when they are well-formed
/// UTF-8, and the text is then the decoding of the bytes.
#[verifier::external_body]
fn decode_bytes(bytes: Vec<u8>) -> (res: Option<String>)
    ensures
        res is Some <==> valid_utf8(bytes@),
        res matches Some(s) ==> s@ == decode_utf8(bytes@),
{
    match String::from_utf8(bytes) {
        Ok(s) => Some(s),
        Err(_) => None,
    }
}

/// ASCII bytes are well-formed UTF-8 and decode to one character per byte.
pub proof fn lemma_ascii_decodes(bytes: Seq<u8>)
    requires
        all_ascii(bytes),
    ensures
        valid_utf8(bytes),
        decode_utf8(bytes) == ascii_chars(bytes),
{
    let chars = ascii_chars(bytes);
    assert(is_ascii_chars(chars)) by {
        assert forall|i: int| 0 <= i < chars.len() implies '\0' <= #[trigger] chars[i]
            <= '\u{7f}' by {
            assert(bytes[i] < 128);
        }
    }
    is_ascii_chars_encode_utf8(chars);
    assert(encode_utf8(chars) =~= bytes) by {
        assert forall|i: int| 0 <= i < bytes.len() implies encode_utf8(chars)[i] == bytes[i] by {
            assert(bytes[i] < 128);
            assert(chars[i] as u8 == bytes[i]);
        }
    }
    encode_utf8_valid_utf8(chars);
    encode_utf8_decode_utf8(chars);
}

/// Decodes bytes as UTF-8 text; `None` when they are not well-formed.
pub fn decode_text(bytes: Vec<u8>) -> (res: Option<String>)
    ensures
        res is Some <==> valid_utf8(bytes@),
        res matches Some(s) ==> s@ == decode_utf8(bytes@),
        all_ascii(bytes@) ==> res is Some && res->Some_0@ == ascii_chars(bytes@),
{
    proof {
        if all_ascii(bytes@) {
            lemma_ascii_decodes(bytes@);
        }
    }
    decode_bytes(bytes)
}

/// The text made of the given ASCII bytes.
pub fn text_from_ascii(bytes: Vec<u8>) -> (res: String)
    requires
        all_ascii(bytes@),
    ensures
        res@ == ascii_chars(bytes@),
{
    decode_text(bytes).unwrap()
}

/// The digit for a value below 16.
pub fn digit_of(d: u8) -> (res: u8)
    requires
        d < 16,
    ensures
        res == digit_byte(d as nat),
{
    if d < 10 {
        48 + d
    } else {
        87 + d
    }
}

/// The digits of `value` in `base`, most significant first.
pub fn radix_digits(value: u128, base: u8) -> (res: Vec<u8>)
    requires
        2 <= base <= 16,
    ensures
        res@ == digits(value as nat, base as nat),
{
    let wide: u128 = base as u128;
    let mut out: Vec<u8> = Vec::new();
    proof {
        lemma_quotient_remainder(value as nat, base as nat);
    }
    let mut rest: u128 = value / wide;
    out.push(digit_of((value % wide) as u8));
    proof {
        if value >= wide {
            assert(digits(value as nat, base as nat) == digits(rest as nat, base as nat).push(
                digit_byte((value % wide) as nat),
            ));
            assert(digits(value as nat, base as nat) =~= digits(rest as nat, base as nat) + out@);
        } else {
            assert(digits(value as nat, base as nat) =~= out@);
        }
    }
    while rest > 0
        invariant
            wide == base,
            2 <= base <= 16,
            rest > 0 ==> digits(value as nat, base as nat) == digits(rest as nat, base as nat)
                + out@,
            rest == 0 ==> digits(value as nat, base as nat) == out@,
        decreases rest,
    {
        let ghost before = out@;
        let ghost prev = rest;
        proof {
            lemma_quotient_remainder(rest as nat, base as nat);
        }
        out.insert(0, digit_of((rest % wide) as u8));
        rest = rest / wide;
        proof {
            let d = digit_byte((prev % wide) as nat);
            assert(out@ =~= seq![d] + before);
            if prev >= wide {
                assert(digits(prev as nat, base as nat) == digits(rest as nat, base as nat).push(
                    d,
                ));
                assert(digits(value as nat, base as nat) =~= digits(rest as nat, base as nat)
                    + out@);
            } else {
                assert(digits(prev as nat, base as nat) =~= seq![d]);
                assert(digits(value as nat, base as nat) =~= out@);
            }
        }
    }
    out
}

/// Puts copies of `fill` in front of `text` until it is `width` long.
pub fn pad_left(text: Vec<u8>, width: usize, fill: u8) -> (res: Vec<u8>)
    ensures
        res@ == padded(text@, width as nat, fill),
{
    let mut out = text;
    let ghost given = out@;
    while out.len() < width
        invariant
            out@.len() >= given.len(),
            out@ =~= Seq::new((out@.len() - given.len()) as nat, |i: int| fill) + given,
            given.len() >= width ==> out@ == given,
            out@.len() <= width || out@.len() == given.len(),
        decreases width - out.len(),
    {
        out.insert(0, fill);
    }
    out
}

/// Number of decimal digits of `value`; 1 for zero.
pub fn decimal_digit_count(value: usize) -> (res: usize)
    ensures
        res == decimal_width(value as nat),
{
    radix_digits(value as u128, 10).len()
}

/// `value` in lowercase hexadecimal, zero-padded to at least `width` digits.
pub fn hex_padded(value: u128, width: usize) -> (res: Vec<u8>)
    ensures
        res@ == hex_field(value as nat, width as nat),
{
    pad_left(radix_digits(value, 16), width, 48)
}

} // verus!
