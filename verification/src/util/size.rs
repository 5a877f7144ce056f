//! Sizes in bytes as people read them, by the `bytesize` crate.

use vstd::prelude::*;

verus! {

/// What `bytesize` shows a number of bytes as.
pub uninterp spec fn bytesize_text(bytes: u64) -> Seq<char>;

/// Shows a number of bytes by the `Display` of `bytesize::ByteSize::b`: the
/// number with a unit that keeps it short.
#[verifier::external_body]
pub(crate) fn format_bytesize(bytes: u64) -> (r: String)
    ensures
        r@ == bytesize_text(bytes),
{
    bytesize::ByteSize::b(bytes).to_string()
}

} // verus!
