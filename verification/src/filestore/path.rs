//! Paths inside a store, and whether they stay inside.

use crate::util::bytes::{bytes_equal, find_byte, first_index};
use vstd::prelude::*;
use vstd::slice::slice_subrange;

verus! {

/// The byte that parts the components of a path.
pub const SEPARATOR: u8 = 47;

/// How deep below its start a path ends once `..` and `.` are resolved,
/// begun at `depth`; nothing where it climbs above its start on the way.
pub open spec fn walk(path: Seq<u8>, depth: int) -> Option<int>
    decreases path.len(),
{
    if path.len() == 0 {
        Some(depth)
    } else {
        let k = first_index(path, SEPARATOR);
        let component = if 0 <= k < path.len() {
            path.take(k)
        } else {
            path
        };
        let rest = if 0 <= k < path.len() {
            path.skip(k + 1)
        } else {
            Seq::empty()
        };
        let next = if component == seq![46u8, 46u8] {
            depth - 1
        } else if component.len() == 0 || component == seq![46u8] {
            depth
        } else {
            depth + 1
        };
        if next < 0 {
            None
        } else {
            walk(rest, next)
        }
    }
}

/// Whether a path leaves the directory it is relative to: it is absolute,
/// or its `..` components lead above its start.
pub open spec fn escapes(path: Seq<u8>) -> bool {
    (path.len() > 0 && path[0] == SEPARATOR) || walk(path, 0).is_none()
}

/// Tells whether a path leaves the directory it is relative to.
pub fn path_escapes(path: &[u8]) -> (r: bool)
    ensures
        r == escapes(path@),
{
    if path.len() > 0 && path[0] == SEPARATOR {
        return true;
    }
    let mut depth: usize = 0;
    let mut pos: usize = 0;
    let up: [u8; 2] = [46, 46];
    let here: [u8; 1] = [46];
    proof {
        assert(path@.skip(0) =~= path@);
    }
    while pos < path.len()
        invariant
            pos <= path.len(),
            depth <= pos,
            up@ == seq![46u8, 46u8],
            here@ == seq![46u8],
            walk(path@, 0) == walk(path@.skip(pos as int), depth as int),
        decreases path.len() - pos,
    {
        let end = find_byte(path, pos, SEPARATOR);
        let component = slice_subrange(path, pos, end);
        let ghost rest = path@.skip(pos as int);
        proof {
            assert(rest.take(end - pos) =~= path@.subrange(pos as int, end as int));
            if end < path.len() {
                assert(rest.skip(end - pos + 1) =~= path@.skip(end as int + 1));
            } else {
                assert(rest =~= path@.subrange(pos as int, end as int));
                assert(path@.skip(end as int) =~= Seq::<u8>::empty());
            }
        }
        if bytes_equal(component, up.as_slice()) {
            if depth == 0 {
                return true;
            }
            depth = depth - 1;
        } else if component.len() == 0 || bytes_equal(component, here.as_slice()) {
        } else {
            depth = depth + 1;
        }
        pos = if end < path.len() {
            end + 1
        } else {
            end
        };
    }
    false
}

} // verus!
