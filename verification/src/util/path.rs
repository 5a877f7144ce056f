//! Paths as text: joining, as the standard library joins them on Unix.

use vstd::prelude::*;
use vstd::string::{StrSliceExecFns, StringExecFns};

verus! {

/// `base` with `part` joined to it. An absolute `part` replaces `base`;
/// otherwise `part` follows `base`, behind a `/` unless `base` is empty or
/// ends with one.
pub open spec fn spec_join_path(base: Seq<char>, part: Seq<char>) -> Seq<char> {
    if part.len() > 0 && part[0] == '/' {
        part
    } else if base.len() == 0 || base.last() == '/' {
        base + part
    } else {
        base + seq!['/'] + part
    }
}

/// Joins a path to a base path.
pub fn join_path(base: &str, part: &str) -> (r: String)
    ensures
        r@ == spec_join_path(base@, part@),
{
    let part_len = part.unicode_len();
    if part_len > 0 && part.get_char(0) == '/' {
        return String::from_str(part);
    }
    let base_len = base.unicode_len();
    let mut r = String::from_str(base);
    if base_len > 0 && base.get_char(base_len - 1) != '/' {
        proof {
            reveal_strlit("/");
            assert("/"@ =~= seq!['/']);
        }
        r.append("/");
    }
    r.append(part);
    r
}

} // verus!
