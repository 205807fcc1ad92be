//! Hexadecimal text, as the module exchanges keys, addresses and payloads:
//! two digits per byte, most significant first.

use base16::DecodeError;
use vstd::prelude::*;

verus! {

/// The error that `base16::decode_slice` reports. The driver reads nothing
/// of it: every failure to decode is a `ParsingError`.
#[verifier::external_type_specification]
#[verifier::external_body]
pub struct ExDecodeError(DecodeError);

/// The lower-case hex digit for `n`, where `n` is below sixteen.
pub open spec fn hex_digit(n: nat) -> u8 {
    if n < 10 {
        (0x30 + n) as u8
    } else {
        (0x61 + n - 10) as u8
    }
}

/// The lower-case hex text of `bytes`: for each byte the digit of its high
/// half, then that of its low half.
pub open spec fn hex_lower(bytes: Seq<u8>) -> Seq<u8> {
    Seq::new(
        2 * bytes.len(),
        |i: int|
            if i % 2 == 0 {
                hex_digit((bytes[i / 2] / 16) as nat)
            } else {
                hex_digit((bytes[i / 2] % 16) as nat)
            },
    )
}

/// The lower-case hex digits of `n`, most significant first, without
/// leading zeros; a single `0` for zero.
pub open spec fn hex_number(n: nat) -> Seq<u8>
    decreases n,
{
    if n < 16 {
        seq![hex_digit(n)]
    } else {
        hex_number(n / 16).push(hex_digit(n % 16))
    }
}

/// The value of a hex digit of either case, if `c` is one.
pub open spec fn hex_digit_value(c: u8) -> Option<nat> {
    if 0x30 <= c <= 0x39 {
        Some((c - 0x30) as nat)
    } else if 0x61 <= c <= 0x66 {
        Some((c - 0x61 + 10) as nat)
    } else if 0x41 <= c <= 0x46 {
        Some((c - 0x41 + 10) as nat)
    } else {
        None
    }
}

/// Whether `text` is hex text for whole bytes: an even number of hex digits.
pub open spec fn is_hex(text: Seq<u8>) -> bool {
    &&& text.len() % 2 == 0
    &&& forall|i: int| 0 <= i < text.len() ==> (#[trigger] hex_digit_value(text[i])) is Some
}

/// The bytes that the hex text `text` stands for.
pub open spec fn hex_bytes(text: Seq<u8>) -> Seq<u8> {
    Seq::new(
        text.len() / 2,
        |i: int|
            (16 * hex_digit_value(text[2 * i]).unwrap() + hex_digit_value(
                text[2 * i + 1],
            ).unwrap()) as u8,
    )
}

/// Hex text that was made from bytes is hex text, and stands for just
/// these bytes: decoding undoes encoding.
pub proof fn lemma_hex_round_trip(bytes: Seq<u8>)
    ensures
        is_hex(hex_lower(bytes)),
        hex_bytes(hex_lower(bytes)) == bytes,
{
    let text = hex_lower(bytes);
    assert forall|i: int| 0 <= i < text.len() implies (#[trigger] hex_digit_value(
        text[i],
    )) is Some by {
        let b = bytes[i / 2];
        assert(0 <= b / 16 < 16 && 0 <= b % 16 < 16);
    }
    assert forall|i: int| 0 <= i < bytes.len() implies hex_bytes(text)[i] == bytes[i] by {
        let b = bytes[i];
        assert((2 * i) / 2 == i && (2 * i + 1) / 2 == i);
        assert((2 * i) % 2 == 0 && (2 * i + 1) % 2 == 1);
        assert(0 <= b / 16 < 16 && 0 <= b % 16 < 16);
        assert(hex_digit_value(hex_digit((b / 16) as nat)) == Some((b / 16) as nat));
        assert(hex_digit_value(hex_digit((b % 16) as nat)) == Some((b % 16) as nat));
        assert(16 * (b / 16) + b % 16 == b);
    }
    assert(hex_bytes(text) =~= bytes);
}

/// Hex text that was made from bytes is ASCII text.
pub proof fn lemma_hex_is_ascii(bytes: Seq<u8>)
    ensures
        forall|i: int| 0 <= i < hex_lower(bytes).len() ==> #[trigger] hex_lower(bytes)[i] < 0x80,
{
    assert forall|i: int| 0 <= i < hex_lower(bytes).len() implies #[trigger] hex_lower(bytes)[i]
        < 0x80 by {
        let b = bytes[i / 2];
        assert(0 <= b / 16 < 16 && 0 <= b % 16 < 16);
    }
}

/// Write the lower-case hex text of `input` to the start of `dst` and
/// return its length.
///
/// Calls `base16::encode_config_slice` with `EncodeLower`. It panics where
/// `dst` is too short for twice the length of `input`, and leaves the rest
/// of `dst` as it was.
#[verifier::external_body]
pub(crate) fn encode_hex(input: &[u8], dst: &mut [u8]) -> (n: usize)
    requires
        2 * input@.len() <= old(dst)@.len(),
    ensures
        n == 2 * input@.len(),
        final(dst)@ == hex_lower(input@) + old(dst)@.skip(n as int),
{
    base16::encode_config_slice(input, base16::EncodeLower, dst)
}

/// The two lower-case hex digits of one byte.
///
/// Calls `base16::encode_byte_l`.
#[verifier::external_body]
pub(crate) fn encode_hex_byte(byte: u8) -> (r: [u8; 2])
    ensures
        r@ == hex_lower(seq![byte]),
{
    base16::encode_byte_l(byte)
}

/// Decode the hex text `input` to the start of `out` and return the number
/// of bytes decoded.
///
/// Calls `base16::decode_slice`. It fails on text of odd length and on any
/// byte that is no hex digit, of either case; on text of even length it
/// panics where `out` is too short for half the length of `input`. On
/// success the rest of `out` is as it was; on failure nothing is said of
/// what `out` holds.
#[verifier::external_body]
pub(crate) fn decode_hex(input: &[u8], out: &mut [u8]) -> (r: Result<usize, DecodeError>)
    requires
        input@.len() % 2 == 0 ==> input@.len() / 2 <= old(out)@.len(),
    ensures
        final(out)@.len() == old(out)@.len(),
        r is Ok <==> is_hex(input@),
        r matches Ok(n) ==> n == input@.len() / 2 && final(out)@ == hex_bytes(input@) + old(
            out,
        )@.skip(n as int),
{
    base16::decode_slice(input, out)
}

} // verus!
