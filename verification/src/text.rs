//! Bytes and text: comparing response lines with the module's tokens, and
//! reading a line as UTF-8.

use core::str::Utf8Error;
use vstd::prelude::*;
use vstd::string::StringSliceAdditionalSpecFns;
use vstd::utf8::{pop_first_scalar, valid_first_scalar, valid_utf8};

verus! {

/// The bytes of a piece of text, as they go over the link.
pub open spec fn text(s: &str) -> Seq<u8> {
    s.spec_bytes()
}

/// Whether every byte of `bytes` is an ASCII character.
pub open spec fn is_ascii_bytes(bytes: Seq<u8>) -> bool {
    forall|i: int| 0 <= i < bytes.len() ==> #[trigger] bytes[i] < 0x80
}

/// ASCII text is UTF-8.
pub proof fn lemma_ascii_is_utf8(bytes: Seq<u8>)
    requires
        is_ascii_bytes(bytes),
    ensures
        valid_utf8(bytes),
    decreases bytes.len(),
{
    if bytes.len() > 0 {
        let b = bytes[0];
        assert(b < 0x80);
        assert((b & 0x7f) as u32 <= 0x7f) by (bit_vector);
        assert(valid_first_scalar(bytes));
        let rest = pop_first_scalar(bytes);
        assert(rest =~= bytes.subrange(1, bytes.len() as int));
        assert forall|i: int| 0 <= i < rest.len() implies #[trigger] rest[i] < 0x80 by {
            assert(rest[i] == bytes[i + 1]);
        }
        lemma_ascii_is_utf8(rest);
    }
}

/// Read `bytes` as UTF-8 text.
///
/// Calls `core::str::from_utf8`, which succeeds exactly on well-formed
/// UTF-8 and then returns the same bytes as a string slice.
#[verifier::external_body]
pub(crate) fn from_utf8(bytes: &[u8]) -> (r: Result<&str, Utf8Error>)
    ensures
        r is Ok <==> valid_utf8(bytes@),
        r matches Ok(s) ==> s.spec_bytes() == bytes@,
{
    core::str::from_utf8(bytes)
}

/// Whether two byte strings are the same.
pub fn bytes_eq(a: &[u8], b: &[u8]) -> (r: bool)
    ensures
        r == (a@ == b@),
{
    if a.len() != b.len() {
        return false;
    }
    let mut i: usize = 0;
    while i < a.len()
        invariant
            0 <= i <= a.len(),
            a.len() == b.len(),
            a@.take(i as int) == b@.take(i as int),
        decreases a.len() - i,
    {
        if a[i] != b[i] {
            return false;
        }
        proof {
            assert(a@.take(i + 1) =~= a@.take(i as int).push(a@[i as int]));
            assert(b@.take(i + 1) =~= b@.take(i as int).push(b@[i as int]));
        }
        i += 1;
    }
    proof {
        assert(a@.take(i as int) =~= a@);
        assert(b@.take(i as int) =~= b@);
    }
    true
}

/// Whether `line` is exactly the token `word`.
pub fn is_token(line: &[u8], word: &str) -> (r: bool)
    ensures
        r == (line@ == text(word)),
{
    bytes_eq(line, word.as_bytes())
}

/// Whether `line` begins with the bytes of `word`.
pub fn begins_with(line: &[u8], word: &str) -> (r: bool)
    ensures
        r == text(word).is_prefix_of(line@),
{
    let head = word.as_bytes();
    if head.len() > line.len() {
        return false;
    }
    let r = bytes_eq(vstd::slice::slice_subrange(line, 0, head.len()), head);
    proof {
        if r {
            assert(text(word) =~= line@.subrange(0, head.len() as int));
        } else {
            if text(word).is_prefix_of(line@) {
                assert(line@.subrange(0, head.len() as int) =~= text(word));
            }
        }
    }
    r
}

} // verus!
