//! Small verified operations on byte strings and the trusted conversions
//! between bytes and text.

use vstd::prelude::*;
use vstd::utf8::{decode_utf8, valid_utf8};

verus! {

/// Tells whether `text` begins with `prefix`.
pub fn starts_with(text: &[u8], prefix: &[u8]) -> (r: bool)
    ensures
        r == prefix@.is_prefix_of(text@),
{
    if prefix.len() > text.len() {
        return false;
    }
    let mut i: usize = 0;
    while i < prefix.len()
        invariant
            i <= prefix.len() <= text.len(),
            forall|j: int| 0 <= j < i ==> text@[j] == prefix@[j],
        decreases prefix.len() - i,
    {
        if text[i] != prefix[i] {
            proof {
                assert(text@.subrange(0, prefix@.len() as int)[i as int] == text@[i as int]);
            }
            return false;
        }
        i = i + 1;
    }
    proof {
        assert(prefix@ =~= text@.subrange(0, prefix@.len() as int));
    }
    true
}

/// Tells whether two byte strings hold the same bytes.
pub fn bytes_equal(a: &[u8], b: &[u8]) -> (r: bool)
    ensures
        r == (a@ == b@),
{
    if a.len() != b.len() {
        return false;
    }
    let r = starts_with(a, b);
    proof {
        assert(a@.subrange(0, a@.len() as int) =~= a@);
    }
    r
}

/// The index of the first `byte` in `text`, or the length of `text` where
/// it holds none.
pub open spec fn first_index(text: Seq<u8>, byte: u8) -> int
    decreases text.len(),
{
    if text.len() == 0 || text[0] == byte {
        0
    } else {
        1 + first_index(text.drop_first(), byte)
    }
}

/// An index of the byte behind a stretch without it is `first_index`; so
/// is the length of a text without the byte.
pub proof fn lemma_first_index_unique(text: Seq<u8>, byte: u8, k: int)
    requires
        0 <= k <= text.len(),
        forall|j: int| 0 <= j < k ==> text[j] != byte,
        k < text.len() ==> text[k] == byte,
    ensures
        first_index(text, byte) == k,
    decreases text.len(),
{
    if text.len() == 0 || text[0] == byte {
    } else {
        let rest = text.drop_first();
        assert forall|j: int| 0 <= j < k - 1 implies rest[j] != byte by {
            assert(rest[j] == text[j + 1]);
        }
        lemma_first_index_unique(rest, byte, k - 1);
    }
}

/// Finds the first `byte` at or behind `start`: its index, or the length of
/// the text where there is none.
pub fn find_byte(text: &[u8], start: usize, byte: u8) -> (end: usize)
    requires
        start <= text.len(),
    ensures
        start <= end <= text.len(),
        end - start == first_index(text@.skip(start as int), byte),
{
    let mut i: usize = start;
    while i < text.len() && text[i] != byte
        invariant
            start <= i <= text.len(),
            forall|j: int| start <= j < i ==> text@[j] != byte,
        decreases text.len() - i,
    {
        i = i + 1;
    }
    proof {
        lemma_first_index_unique(text@.skip(start as int), byte, i - start);
    }
    i
}

/// The first index from `i` on at which `p` holds of `s`, or the length of
/// `s` where there is none.
pub open spec fn first_from(s: Seq<u8>, i: int, p: spec_fn(Seq<u8>, int) -> bool) -> int
    decreases s.len() - i,
{
    if i >= s.len() {
        s.len() as int
    } else if p(s, i) {
        i
    } else {
        first_from(s, i + 1, p)
    }
}

/// An index at which `p` holds, behind a stretch from `i` on where it does
/// not, is `first_from`; so is the length where `p` holds nowhere.
pub proof fn lemma_first_from(s: Seq<u8>, i: int, p: spec_fn(Seq<u8>, int) -> bool, k: int)
    requires
        0 <= i <= k <= s.len(),
        forall|j: int| i <= j < k ==> !#[trigger] p(s, j),
        k < s.len() ==> p(s, k),
    ensures
        first_from(s, i, p) == k,
    decreases k - i,
{
    if i < k {
        lemma_first_from(s, i + 1, p, k);
    }
}

/// What `String::from_utf8_lossy` makes of a byte string.
pub uninterp spec fn lossy_text(bytes: Seq<u8>) -> Seq<char>;

/// Decodes bytes as UTF-8 by `String::from_utf8`: the decoded text where the
/// bytes are valid UTF-8, nothing where they are not.
#[verifier::external_body]
pub(crate) fn text_from_utf8(bytes: Vec<u8>) -> (r: Option<String>)
    ensures
        valid_utf8(bytes@) ==> r.is_some() && r.unwrap()@ == decode_utf8(bytes@),
        !valid_utf8(bytes@) ==> r.is_none(),
{
    match String::from_utf8(bytes) {
        Ok(s) => Some(s),
        Err(_) => None,
    }
}

/// Where `first_from` finds an index within the text, `p` holds at it.
pub proof fn lemma_first_from_found(s: Seq<u8>, i: int, p: spec_fn(Seq<u8>, int) -> bool)
    requires
        0 <= i,
        first_from(s, i, p) < s.len(),
    ensures
        i <= first_from(s, i, p),
        p(s, first_from(s, i, p)),
    decreases s.len() - i,
{
    if i < s.len() && !p(s, i) {
        lemma_first_from_found(s, i + 1, p);
    }
}

/// The text of bytes that are valid UTF-8.
pub(crate) fn text_of_valid(bytes: Vec<u8>) -> (r: String)
    requires
        valid_utf8(bytes@),
    ensures
        r@ == decode_utf8(bytes@),
{
    match text_from_utf8(bytes) {
        Some(text) => text,
        None => String::new(),
    }
}

/// Decodes bytes by `String::from_utf8_lossy`, which replaces what is not
/// UTF-8 by U+FFFD: the result is named, and is the decoded text where the
/// bytes are valid UTF-8.
#[verifier::external_body]
pub(crate) fn text_from_utf8_lossy(bytes: &[u8]) -> (r: String)
    ensures
        r@ == lossy_text(bytes@),
        valid_utf8(bytes@) ==> r@ == decode_utf8(bytes@),
{
    String::from_utf8_lossy(bytes).into_owned()
}

} // verus!
