//! Facts about UTF-8 around ASCII bytes: where text may be cut.

use vstd::prelude::*;
use vstd::utf8::{is_char_boundary, valid_utf8};

verus! {

/// In valid UTF-8, a character begins at an ASCII byte, and another begins
/// behind it.
pub proof fn lemma_ascii_boundaries(bytes: Seq<u8>, i: int)
    requires
        valid_utf8(bytes),
        0 <= i < bytes.len(),
        bytes[i] < 0x80,
    ensures
        is_char_boundary(bytes, i),
        is_char_boundary(bytes, i + 1),
{
    vstd::utf8::is_char_boundary_iff_not_is_continuation_byte(bytes, i);
    vstd::utf8::valid_utf8_split(bytes, i);
    let rest = bytes.subrange(i, bytes.len() as int);
    assert(rest[0] == bytes[i]);
    if i + 1 == bytes.len() {
        vstd::utf8::is_char_boundary_start_end_of_seq(bytes);
    } else {
        assert(vstd::utf8::length_of_first_scalar(rest) == 1);
        assert(valid_utf8(vstd::utf8::pop_first_scalar(rest)));
        assert(is_char_boundary(rest, 1)) by {
            reveal_with_fuel(vstd::utf8::is_char_boundary, 2);
        }
        vstd::utf8::is_char_boundary_iff_not_is_continuation_byte(rest, 1);
        assert(rest[1] == bytes[i + 1]);
        vstd::utf8::is_char_boundary_iff_not_is_continuation_byte(bytes, i + 1);
    }
}

/// The stretch of valid UTF-8 between two places where characters begin
/// is valid UTF-8.
pub proof fn lemma_valid_between(bytes: Seq<u8>, from: int, to: int)
    requires
        valid_utf8(bytes),
        0 <= from <= to <= bytes.len(),
        is_char_boundary(bytes, from),
        is_char_boundary(bytes, to),
    ensures
        valid_utf8(bytes.subrange(from, to)),
{
    vstd::utf8::valid_utf8_split(bytes, to);
    let head = bytes.subrange(0, to);
    if from == to {
        assert(bytes.subrange(from, to).len() == 0);
    } else {
        if from > 0 {
            vstd::utf8::is_char_boundary_iff_not_is_continuation_byte(bytes, from);
            assert(head[from] == bytes[from]);
            vstd::utf8::is_char_boundary_iff_not_is_continuation_byte(head, from);
        }
        vstd::utf8::valid_utf8_split(head, from);
        assert(head.subrange(from, head.len() as int) =~= bytes.subrange(from, to));
    }
}

} // verus!
