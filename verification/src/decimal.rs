//! Numbers as the module writes them: decimal digits in ASCII.

use numtoa::NumToA;
use vstd::prelude::*;
use vstd::string::StringSliceAdditionalSpecFns;

verus! {

/// The ASCII digit for `d`, where `d` is below ten.
pub open spec fn digit(d: nat) -> u8 {
    (0x30 + d) as u8
}

/// Whether `b` is an ASCII digit.
pub open spec fn is_digit(b: u8) -> bool {
    0x30 <= b <= 0x39
}

/// The decimal digits of `n`, most significant first, without leading
/// zeros; a single `0` for zero.
pub open spec fn decimal(n: nat) -> Seq<u8>
    decreases n,
{
    if n < 10 {
        seq![digit(n)]
    } else {
        decimal(n / 10).push(digit(n % 10))
    }
}

/// The number that a run of ASCII digits stands for.
pub open spec fn digits_value(s: Seq<u8>) -> nat
    decreases s.len(),
{
    if s.len() == 0 {
        0
    } else {
        digits_value(s.drop_last()) * 10 + (s.last() - 0x30) as nat
    }
}

/// Whether every byte of `s` is an ASCII digit.
pub open spec fn all_digits(s: Seq<u8>) -> bool {
    forall|i: int| 0 <= i < s.len() ==> is_digit(#[trigger] s[i])
}

/// The digits of a number text: the text itself, without a leading `+`.
pub open spec fn unsigned_digits(s: Seq<u8>) -> Seq<u8> {
    if s.len() > 0 && s[0] == 0x2b {
        s.drop_first()
    } else {
        s
    }
}

/// The number that the text `s` stands for, if it is an unsigned decimal
/// number of at most `max`: an optional `+`, then one digit or more, and
/// nothing else. Leading zeros count for nothing.
pub open spec fn unsigned_of(s: Seq<u8>, max: nat) -> Option<nat> {
    let body = unsigned_digits(s);
    if body.len() > 0 && all_digits(body) && digits_value(body) <= max {
        Some(digits_value(body))
    } else {
        None
    }
}

/// More digits behind a run of digits do not make its value smaller.
pub proof fn lemma_digits_grow(s: Seq<u8>, i: int)
    requires
        0 <= i <= s.len(),
        all_digits(s),
    ensures
        digits_value(s.take(i)) <= digits_value(s),
    decreases s.len() - i,
{
    if i == s.len() {
        assert(s.take(i) =~= s);
    } else {
        lemma_digits_grow(s, i + 1);
        assert(s.take(i + 1).drop_last() =~= s.take(i));
        assert(is_digit(s[i]));
    }
}

/// Read `bytes` as an unsigned decimal number of at most `max`.
pub fn parse_unsigned(bytes: &[u8], max: u32) -> (r: Option<u32>)
    ensures
        r matches Some(n) ==> unsigned_of(bytes@, max as nat) == Some(n as nat),
        r is None ==> unsigned_of(bytes@, max as nat) is None,
{
    let start: usize = if bytes.len() > 0 && bytes[0] == 0x2b {
        1
    } else {
        0
    };
    let ghost body = unsigned_digits(bytes@);
    assert(body =~= bytes@.skip(start as int));
    if start >= bytes.len() {
        return None;
    }
    let mut value: u64 = 0;
    let mut i: usize = start;
    assert(body.take(0) =~= Seq::<u8>::empty());
    while i < bytes.len()
        invariant
            start <= i <= bytes.len(),
            body == bytes@.skip(start as int),
            body == unsigned_digits(bytes@),
            all_digits(body.take(i - start)),
            value == digits_value(body.take(i - start)),
            value <= max,
        decreases bytes.len() - i,
    {
        let b = bytes[i];
        if b < 0x30 || b > 0x39 {
            assert(body[i - start] == b);
            assert(!all_digits(body));
            return None;
        }
        let next: u64 = value * 10 + (b - 0x30) as u64;
        proof {
            let longer = body.take(i - start + 1);
            assert(longer.drop_last() =~= body.take(i - start));
            assert(longer.last() == b);
            assert(next == digits_value(longer));
            assert forall|j: int| 0 <= j < longer.len() implies is_digit(#[trigger] longer[j]) by {
                if j < longer.len() - 1 {
                    assert(longer[j] == body.take(i - start)[j]);
                }
            }
            if next > max && all_digits(body) {
                lemma_digits_grow(body, i - start + 1);
                assert(digits_value(body) > max);
            }
        }
        if next > max as u64 {
            return None;
        }
        value = next;
        i += 1;
    }
    proof {
        assert(body.take(i - start) =~= body);
    }
    Some(value as u32)
}

/// Write `n` in decimal into `buf` and return the text.
///
/// Calls `numtoa_str` of the `numtoa` crate with base 10, which writes the
/// digits of the number, without leading zeros, to the end of the buffer
/// and returns that part of it. Ten bytes hold every `u32`.
#[verifier::external_body]
pub(crate) fn u32_to_str(n: u32, buf: &mut [u8; 10]) -> (r: &str)
    ensures
        r.spec_bytes() == decimal(n as nat),
{
    n.numtoa_str(10, buf)
}

} // verus!
