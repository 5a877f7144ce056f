//! Verified operations on text.

use crate::util::bytes::bytes_equal;
use vstd::prelude::*;
use vstd::string::{StrSliceExecFns, StringExecFns};

verus! {

/// Tells whether two strings hold the same text.
pub fn str_equal(a: &str, b: &str) -> (r: bool)
    ensures
        r == (a@ == b@),
{
    proof {
        vstd::utf8::encode_utf8_decode_utf8(a@);
        vstd::utf8::encode_utf8_decode_utf8(b@);
    }
    bytes_equal(a.as_bytes(), b.as_bytes())
}

/// The index of the last `c` in `s`, or -1 where `s` holds none.
pub open spec fn last_index_of(s: Seq<char>, c: char) -> int
    decreases s.len(),
{
    if s.len() == 0 {
        -1
    } else if s.last() == c {
        s.len() - 1
    } else {
        last_index_of(s.drop_last(), c)
    }
}

/// The index of the first `c` in `s`, or the length of `s` where it holds
/// none.
pub open spec fn first_index_of(s: Seq<char>, c: char) -> int
    decreases s.len(),
{
    if s.len() == 0 || s[0] == c {
        0
    } else {
        1 + first_index_of(s.drop_first(), c)
    }
}

/// `first_index_of` is the only index within the text that holds `c` behind
/// a stretch without it, or the length of a text without it.
pub proof fn lemma_first_index_of(s: Seq<char>, c: char, k: int)
    requires
        0 <= k <= s.len(),
        forall|j: int| 0 <= j < k ==> s[j] != c,
        k < s.len() ==> s[k] == c,
    ensures
        first_index_of(s, c) == k,
    decreases s.len(),
{
    if s.len() == 0 || s[0] == c {
    } else {
        let rest = s.drop_first();
        assert forall|j: int| 0 <= j < k - 1 implies rest[j] != c by {
            assert(rest[j] == s[j + 1]);
        }
        lemma_first_index_of(rest, c, k - 1);
    }
}

/// Finds the first `c` in `s`.
pub fn find_first(s: &str, c: char) -> (r: Option<usize>)
    ensures
        match r {
            Some(i) => i == first_index_of(s@, c) && i < s@.len(),
            None => first_index_of(s@, c) == s@.len(),
        },
{
    let mut found: Option<usize> = None;
    let mut n: usize = 0;
    let total = s.unicode_len();
    for x in iter: s.chars()
        invariant
            n == iter.index(),
            iter.seq() == s@,
            total == s@.len(),
            match found {
                Some(i) => i < n && s@[i as int] == c && forall|j: int| 0 <= j < i ==> s@[j] != c,
                None => forall|j: int| 0 <= j < n ==> s@[j] != c,
            },
    {
        if found.is_none() && x == c {
            found = Some(n);
        }
        n = n + 1;
    }
    proof {
        match found {
            Some(i) => lemma_first_index_of(s@, c, i as int),
            None => lemma_first_index_of(s@, c, s@.len() as int),
        }
    }
    found
}

/// Finds the last `c` in `s`.
pub fn find_last(s: &str, c: char) -> (r: Option<usize>)
    ensures
        match r {
            Some(i) => i == last_index_of(s@, c),
            None => last_index_of(s@, c) == -1,
        },
{
    let mut found: Option<usize> = None;
    let mut n: usize = 0;
    let total = s.unicode_len();
    for x in iter: s.chars()
        invariant
            n == iter.index(),
            iter.seq() == s@,
            total == s@.len(),
            match found {
                Some(i) => i == last_index_of(s@.take(n as int), c),
                None => last_index_of(s@.take(n as int), c) == -1,
            },
    {
        proof {
            assert(s@.take(n as int + 1).drop_last() =~= s@.take(n as int));
        }
        if x == c {
            found = Some(n);
        }
        n = n + 1;
    }
    proof {
        assert(s@.take(n as int) =~= s@);
    }
    found
}

/// What stands behind the last `c` in `s`: all of `s` where it holds none.
pub open spec fn after_last(s: Seq<char>, c: char) -> Seq<char> {
    s.skip(last_index_of(s, c) + 1)
}

/// `last_index_of` is -1 or an index of the text.
pub proof fn lemma_last_index_of_range(s: Seq<char>, c: char)
    ensures
        -1 <= last_index_of(s, c) < s.len(),
    decreases s.len(),
{
    if s.len() > 0 && s.last() != c {
        lemma_last_index_of_range(s.drop_last(), c);
    }
}

/// Copies what stands behind the last `c` in `s`.
pub fn text_after_last(s: &str, c: char) -> (r: String)
    ensures
        r@ == after_last(s@, c),
{
    let total = s.unicode_len();
    let from: usize = match find_last(s, c) {
        Some(i) => {
            proof {
                lemma_last_index_of_range(s@, c);
            }
            i + 1
        },
        None => 0,
    };
    let part = s.substring_char(from, total);
    proof {
        assert(s@.subrange(from as int, total as int) =~= s@.skip(from as int));
    }
    String::from_str(part)
}

/// The two parts of `s` around its first `c`, where it holds one.
pub open spec fn split_once(s: Seq<char>, c: char) -> Option<(Seq<char>, Seq<char>)> {
    let k = first_index_of(s, c);
    if k < s.len() {
        Some((s.take(k), s.skip(k + 1)))
    } else {
        None
    }
}

/// Splits `s` at its first `c`.
pub fn text_split_once(s: &str, c: char) -> (r: Option<(String, String)>)
    ensures
        match r {
            Some((head, tail)) => split_once(s@, c) == Some((head@, tail@)),
            None => split_once(s@, c).is_none(),
        },
{
    let total = s.unicode_len();
    match find_first(s, c) {
        Some(i) => {
            let head = s.substring_char(0, i);
            let tail = s.substring_char(i + 1, total);
            proof {
                assert(s@.subrange(0, i as int) =~= s@.take(i as int));
                assert(s@.subrange(i as int + 1, total as int) =~= s@.skip(i as int + 1));
            }
            Some((String::from_str(head), String::from_str(tail)))
        },
        None => None,
    }
}

/// The texts of `items` in one, with `sep` between each two.
pub open spec fn joined(items: Seq<Seq<char>>, sep: Seq<char>) -> Seq<char>
    decreases items.len(),
{
    if items.len() == 0 {
        Seq::empty()
    } else if items.len() == 1 {
        items[0]
    } else {
        joined(items.drop_last(), sep) + sep + items.last()
    }
}

/// The texts that a row of strings holds.
pub open spec fn texts(items: Seq<String>) -> Seq<Seq<char>> {
    items.map_values(|s: String| s@)
}

/// Joins strings by `itertools::Itertools::join`, which writes each item
/// and, before every item but the first, the separator.
#[verifier::external_body]
pub(crate) fn join(items: &Vec<String>, sep: &str) -> (r: String)
    ensures
        r@ == joined(texts(items@), sep@),
{
    itertools::Itertools::join(&mut items.iter(), sep)
}

/// What `str::to_uppercase` makes of a text.
pub uninterp spec fn uppercase(s: Seq<char>) -> Seq<char>;

/// The upper-case form of a text, by `str::to_uppercase`.
#[verifier::external_body]
pub(crate) fn to_uppercase(s: &str) -> (r: String)
    ensures
        r@ == uppercase(s@),
{
    s.to_uppercase()
}

} // verus!
