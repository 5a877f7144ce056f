//! Splitting a log into its lines.

use crate::util::bytes::{find_byte, first_index};
use vstd::prelude::*;

verus! {

/// The byte that ends a line.
pub const NEWLINE: u8 = 10;

/// The length of the first line of `text`: the index of its first newline,
/// or the length of the text where it holds none.
pub open spec fn first_line_len(text: Seq<u8>) -> int {
    first_index(text, NEWLINE)
}

/// The lines of a text. Each newline ends a line; what follows the last
/// newline is a line of its own unless it is empty.
pub open spec fn split_lines(text: Seq<u8>) -> Seq<Seq<u8>>
    decreases text.len(),
{
    if text.len() == 0 {
        Seq::empty()
    } else {
        let k = first_index(text, NEWLINE);
        if 0 <= k < text.len() {
            seq![text.take(k)] + split_lines(text.skip(k + 1))
        } else {
            seq![text]
        }
    }
}

/// Finds where the line that starts at `start` ends: at the next newline,
/// or at the end of the text.
pub fn line_end(text: &[u8], start: usize) -> (end: usize)
    requires
        start <= text.len(),
    ensures
        start <= end <= text.len(),
        end - start == first_line_len(text@.skip(start as int)),
{
    find_byte(text, start, NEWLINE)
}

/// The number of lines of a text.
pub fn count_lines(text: &[u8]) -> (n: usize)
    ensures
        n == split_lines(text@).len(),
{
    let mut n: usize = 0;
    let mut pos: usize = 0;
    proof {
        assert(text@.skip(0) =~= text@);
    }
    while pos < text.len()
        invariant
            pos <= text.len(),
            n <= pos,
            n + split_lines(text@.skip(pos as int)).len() == split_lines(text@).len(),
        decreases text.len() - pos,
    {
        let end = line_end(text, pos);
        proof {
            let rest = text@.skip(pos as int);
            if end < text.len() {
                assert(rest.skip(end - pos + 1) =~= text@.skip(end as int + 1));
            } else {
                assert(text@.skip(end as int).len() == 0);
            }
        }
        n = n + 1;
        pos = if end < text.len() {
            end + 1
        } else {
            end
        };
    }
    n
}

} // verus!
