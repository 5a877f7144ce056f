//! Reading the entries of a TAR archive, by the `tar` crate.

use vstd::prelude::*;

verus! {

/// The paths of the entries of a TAR archive as the `tar` crate reads them,
/// in the order of the archive; nothing for bytes that it does not read as
/// an archive.
pub uninterp spec fn tar_entry_paths(archive: Seq<u8>) -> Option<Seq<Seq<u8>>>;

/// The bytes of some paths.
pub open spec fn path_bytes(paths: Seq<Vec<u8>>) -> Seq<Seq<u8>> {
    paths.map_values(|p: Vec<u8>| p@)
}

/// Lists the entries of a TAR archive held in memory: `tar::Archive::new`
/// on the bytes, `entries`, and of each entry `path_bytes`, the path that
/// the archive gives it. An error of the crate on the way gives nothing.
#[verifier::external_body]
pub(crate) fn list_tar_entries(archive: &[u8]) -> (r: Option<Vec<Vec<u8>>>)
    ensures
        match r {
            Some(paths) => tar_entry_paths(archive@) == Some(path_bytes(paths@)),
            None => tar_entry_paths(archive@).is_none(),
        },
{
    let mut archive = tar::Archive::new(archive);
    let entries = archive.entries().ok()?;
    let mut paths = Vec::new();
    for entry in entries {
        paths.push(entry.ok()?.path_bytes().into_owned());
    }
    Some(paths)
}

} // verus!
