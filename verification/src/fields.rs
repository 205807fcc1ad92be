//! Fields of a response line: runs of bytes that ASCII white space
//! separates.

use vstd::prelude::*;
use vstd::utf8::{
    is_char_boundary, is_char_boundary_iff_not_is_continuation_byte,
    is_char_boundary_start_end_of_seq, pop_first_scalar, valid_first_scalar, valid_utf8,
    valid_utf8_split,
};

verus! {

/// Whether `b` is ASCII white space: space, tab, line feed, form feed or
/// carriage return.
pub open spec fn is_space(b: u8) -> bool {
    b == 0x20 || b == 0x09 || b == 0x0a || b == 0x0c || b == 0x0d
}

/// The first position at or behind `from` that holds no white space, or the
/// length of `s` where only white space follows.
pub open spec fn skip_spaces(s: Seq<u8>, from: int) -> int
    decreases s.len() - from,
{
    if 0 <= from < s.len() && is_space(s[from]) {
        skip_spaces(s, from + 1)
    } else {
        from
    }
}

/// The first position at or behind `from` that holds white space, or the
/// length of `s` where none follows.
pub open spec fn skip_word(s: Seq<u8>, from: int) -> int
    decreases s.len() - from,
{
    if 0 <= from < s.len() && !is_space(s[from]) {
        skip_word(s, from + 1)
    } else {
        from
    }
}

/// Where field number `k` of `s` begins, counting from zero.
pub open spec fn field_start(s: Seq<u8>, k: nat) -> int
    decreases k, 0nat,
{
    if k == 0 {
        skip_spaces(s, 0)
    } else {
        skip_spaces(s, field_end(s, (k - 1) as nat))
    }
}

/// Where field number `k` of `s` ends.
pub open spec fn field_end(s: Seq<u8>, k: nat) -> int
    decreases k, 1nat,
{
    skip_word(s, field_start(s, k))
}

/// Field number `k` of `s`, counting from zero; empty where `s` has no
/// such field.
pub open spec fn field(s: Seq<u8>, k: nat) -> Seq<u8> {
    s.subrange(field_start(s, k), field_end(s, k))
}

/// Whether `b` is ASCII white space.
pub fn is_space_byte(b: u8) -> (r: bool)
    ensures
        r == is_space(b),
{
    b == 0x20 || b == 0x09 || b == 0x0a || b == 0x0c || b == 0x0d
}

/// Find the next field of `line` at or behind `from`: where it begins and
/// where it ends. Both are the length of `line` where no field follows, and
/// both are `from` where `from` lies behind the end of the line.
///
/// A field that is there begins right behind white space or at `from`,
/// ends at white space or with the line, and holds no white space.
pub fn next_field(line: &[u8], from: usize) -> (r: (usize, usize))
    ensures
        r.0 == skip_spaces(line@, from as int),
        r.1 == skip_word(line@, r.0 as int),
        from <= r.0 <= r.1,
        from <= line@.len() ==> {
            &&& r.1 <= line@.len()
            &&& r.0 < r.1 || r.0 == line@.len()
            &&& r.0 > from ==> is_space(line@[r.0 - 1])
            &&& r.1 < line@.len() ==> is_space(line@[r.1 as int])
        },
{
    if from > line.len() {
        return (from, from);
    }
    let mut start: usize = from;
    while start < line.len() && is_space_byte(line[start])
        invariant
            from <= start <= line@.len(),
            skip_spaces(line@, from as int) == skip_spaces(line@, start as int),
            start > from ==> is_space(line@[start - 1]),
        decreases line@.len() - start,
    {
        start += 1;
    }
    let mut end: usize = start;
    while end < line.len() && !is_space_byte(line[end])
        invariant
            start <= end <= line@.len(),
            skip_word(line@, start as int) == skip_word(line@, end as int),
            end > start || start == line@.len() || !is_space(line@[start as int]),
        decreases line@.len() - end,
    {
        end += 1;
    }
    (start, end)
}

/// In UTF-8 text, the position behind an ASCII byte is a character
/// boundary.
pub proof fn lemma_boundary_behind_ascii(bytes: Seq<u8>, i: int)
    requires
        valid_utf8(bytes),
        0 < i <= bytes.len(),
        bytes[i - 1] < 0x80,
    ensures
        is_char_boundary(bytes, i),
{
    if i == bytes.len() {
        is_char_boundary_start_end_of_seq(bytes);
    } else {
        is_char_boundary_iff_not_is_continuation_byte(bytes, i - 1);
        valid_utf8_split(bytes, i - 1);
        let tail = bytes.subrange(i - 1, bytes.len() as int);
        assert(tail[0] == bytes[i - 1]);
        assert(valid_first_scalar(tail));
        let rest = pop_first_scalar(tail);
        assert(rest =~= bytes.subrange(i, bytes.len() as int));
        assert(valid_utf8(rest));
        assert(rest[0] == bytes[i]);
        assert(valid_first_scalar(rest));
        is_char_boundary_iff_not_is_continuation_byte(bytes, i);
    }
}

/// A stretch of UTF-8 text that begins at the start of the text or behind
/// an ASCII byte, and ends with the text or before an ASCII byte, is UTF-8
/// text.
pub proof fn lemma_stretch_is_utf8(bytes: Seq<u8>, from: int, to: int)
    requires
        valid_utf8(bytes),
        0 <= from <= to <= bytes.len(),
        from == 0 || bytes[from - 1] < 0x80,
        to == bytes.len() || bytes[to] < 0x80,
    ensures
        valid_utf8(bytes.subrange(from, to)),
{
    if from == 0 {
        is_char_boundary_start_end_of_seq(bytes);
    } else {
        lemma_boundary_behind_ascii(bytes, from);
    }
    valid_utf8_split(bytes, from);
    let tail = bytes.subrange(from, bytes.len() as int);
    if to == bytes.len() {
        is_char_boundary_start_end_of_seq(tail);
    } else {
        assert(tail[to - from] == bytes[to]);
        is_char_boundary_iff_not_is_continuation_byte(tail, to - from);
    }
    valid_utf8_split(tail, to - from);
    assert(tail.subrange(0, to - from) =~= bytes.subrange(from, to));
}

} // verus!
