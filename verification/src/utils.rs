//! Small helpers shared by the commands.

use crate::decimal::decimal;
use crate::errors::{Error, RnResult};
use crate::text::{from_utf8, lemma_ascii_is_utf8, text};
use vstd::prelude::*;
use vstd::slice::slice_subrange;
use vstd::string::StringSliceAdditionalSpecFns;

verus! {

/// Convert a byte to a decimal string.
///
/// The digits are written to the start of `buf`, and the text is that part
/// of it. If the buffer is too small, `Error::BadParameter` is returned and
/// the buffer is left as it was.
pub fn u8_to_str<'a, S>(val: u8, buf: &'a mut [u8]) -> (r: RnResult<&'a str, S>)
    ensures
        old(buf)@.len() < decimal(val as nat).len() ==> r == Err::<&str, Error<S>>(
            Error::BadParameter,
        ) && final(buf)@ == old(buf)@,
        old(buf)@.len() >= decimal(val as nat).len() ==> r is Ok && r->Ok_0.spec_bytes()
            == decimal(val as nat) && final(buf)@ == decimal(val as nat) + old(buf)@.skip(
            decimal(val as nat).len() as int,
        ),
{
    proof {
        reveal_with_fuel(decimal, 3);
    }
    let chars: usize = if val < 10 {
        1
    } else if val < 100 {
        2
    } else {
        3
    };
    assert(chars == decimal(val as nat).len());
    if buf.len() < chars {
        return Err(Error::BadParameter);
    }
    let mut rest: u8 = val;
    let mut i: usize = 0;
    while i < chars
        invariant
            0 <= i <= chars <= 3,
            chars <= buf@.len(),
            buf@.len() == old(buf)@.len(),
            chars == decimal(val as nat).len(),
            forall|j: int| chars - i <= j < chars ==> buf@[j] == decimal(val as nat)[j],
            forall|j: int| chars <= j < buf@.len() ==> buf@[j] == old(buf)@[j],
            i == 0 ==> rest == val,
            i == 1 ==> rest == val / 10,
            i == 2 ==> rest == val / 100,
        decreases chars - i,
    {
        proof {
            reveal_with_fuel(decimal, 3);
        }
        let pos = chars - i - 1;
        buf[pos] = rest % 10 + 48;
        rest = rest / 10;
        i += 1;
    }
    proof {
        assert(buf@ =~= decimal(val as nat) + old(buf)@.skip(chars as int));
        let digits = buf@.subrange(0, chars as int);
        assert(digits =~= decimal(val as nat));
        assert forall|j: int| 0 <= j < digits.len() implies #[trigger] digits[j] < 0x80 by {}
        lemma_ascii_is_utf8(digits);
    }
    match from_utf8(slice_subrange(buf, 0, chars)) {
        Ok(s) => Ok(s),
        Err(e) => Err(Error::from(e)),
    }
}

/// `s` without the zero digits that it begins with.
pub open spec fn trim_zeros(s: Seq<u8>) -> Seq<u8>
    decreases s.len(),
{
    if s.len() > 0 && s[0] == 0x30 {
        trim_zeros(s.drop_first())
    } else {
        s
    }
}

/// A hex number without leading zeros: what is left of `s` behind the
/// zeros that it begins with, but a single `0` where nothing is left of a
/// text that is not empty.
pub open spec fn ltrim(s: Seq<u8>) -> Seq<u8> {
    if s.len() == 0 {
        s
    } else if trim_zeros(s).len() == 0 {
        text("0")
    } else {
        trim_zeros(s)
    }
}

/// `val` without the `0` characters that it begins with.
///
/// Calls `str::trim_start_matches` with the pattern `'0'`, which removes
/// every match of the pattern from the start of the text. In UTF-8 the
/// character `0` is the byte `0x30`, and that byte is part of no other
/// character.
#[verifier::external_body]
fn trim_start_zeros(val: &str) -> (r: &str)
    ensures
        r.spec_bytes() == trim_zeros(val.spec_bytes()),
{
    val.trim_start_matches('0')
}

/// Trim leading zeroes from a hex string.
///
/// Examples:
///
/// - "1234" -> "1234"
/// - "0123" -> "123"
///
/// All-zero values will be returned as a single zero:
///
/// - "000" -> "0"
///
/// Empty values will remain empty:
///
/// - "" -> ""
///
/// Non-hex characters will be ignored:
///
/// - "zzz" -> "zzz"
pub fn ltrim_hex(val: &str) -> (r: &str)
    ensures
        r.spec_bytes() == ltrim(val.spec_bytes()),
{
    if val.as_bytes().len() == 0 {
        return val;
    }
    let trimmed = trim_start_zeros(val);
    if trimmed.as_bytes().len() == 0 {
        "0"
    } else {
        trimmed
    }
}

/// The application ports that the module accepts.
pub open spec fn is_valid_port(port: u8) -> bool {
    1 <= port <= 223
}

/// Accept `port` if it lies in `1..=223`, and hand back `err` otherwise.
pub fn validate_port<T>(port: u8, err: T) -> (r: Result<(), T>)
    ensures
        is_valid_port(port) ==> r == Ok::<(), T>(()),
        !is_valid_port(port) ==> r == Err::<(), T>(err),
{
    if port >= 1 && port <= 223 {
        Ok(())
    } else {
        Err(err)
    }
}

} // verus!
