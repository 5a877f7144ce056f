//! Artifacts: files named after the package and the version that they hold.

use crate::package::name::{PackageName, PackageVersion};
use crate::util::bytes::{first_from, lemma_first_from, text_of_valid};
use crate::util::decimal::is_digit;
use crate::util::utf8::{lemma_ascii_boundaries, lemma_valid_between};
use vstd::prelude::*;
use vstd::slice::{slice_subrange, slice_to_vec};
use vstd::utf8::{decode_utf8, encode_utf8};

verus! {

/// The file name of a path: what stands behind its last `/`.
pub open spec fn file_name(path: Seq<u8>) -> Seq<u8>
    decreases path.len(),
{
    if path.len() == 0 || path.last() == 47 {
        Seq::empty()
    } else {
        file_name(path.drop_last()).push(path.last())
    }
}

/// The file name is the end of the path from `start` on, where `start`
/// stands behind a `/` or at the beginning and no `/` follows.
pub proof fn lemma_file_name(path: Seq<u8>, start: int)
    requires
        0 <= start <= path.len(),
        start > 0 ==> path[start - 1] == 47,
        forall|j: int| start <= j < path.len() ==> path[j] != 47,
    ensures
        file_name(path) == path.skip(start),
    decreases path.len(),
{
    if path.len() == 0 || path.last() == 47 {
        assert(path.skip(start) =~= Seq::<u8>::empty());
    } else {
        lemma_file_name(path.drop_last(), start);
        assert(path.skip(start) =~= path.drop_last().skip(start).push(path.last()));
    }
}

/// Whether a version begins at `i`: behind a hyphen, with a digit.
pub open spec fn version_at(name: Seq<u8>, i: int) -> bool {
    1 <= i < name.len() && name[i - 1] == 45 && is_digit(name[i])
}

/// Whether a version ends before `i`: at a full stop that no digit follows.
pub open spec fn suffix_at(name: Seq<u8>, i: int) -> bool {
    0 <= i < name.len() && name[i] == 46 && (i + 1 == name.len() || !is_digit(name[i + 1]))
}

/// The name and the version that a file name tells: the name, a hyphen,
/// and the version, which begins at the first digit behind a hyphen and
/// ends at the first full stop that no digit follows, or with the file
/// name. Nothing where there is no such digit, or nothing before the
/// hyphen.
pub open spec fn artifact_key(name: Seq<u8>) -> Option<(Seq<u8>, Seq<u8>)> {
    let from = first_from(name, 1, |s: Seq<u8>, i: int| version_at(s, i));
    let to = first_from(name, from, |s: Seq<u8>, i: int| suffix_at(s, i));
    if 1 < from < name.len() {
        Some((name.take(from - 1), name.subrange(from, to)))
    } else {
        None
    }
}

/// The place of the name and the version in a file name, if it tells them:
/// the start of the version and its end.
fn find_key(name: &[u8]) -> (r: Option<(usize, usize)>)
    ensures
        match r {
            Some((from, to)) => {
                &&& 1 < from <= to <= name@.len()
                &&& artifact_key(name@) == Some(
                    (name@.take(from - 1), name@.subrange(from as int, to as int)),
                )
                &&& version_at(name@, from as int)
                &&& to < name@.len() ==> suffix_at(name@, to as int)
            },
            None => artifact_key(name@).is_none(),
        },
{
    let ghost begins = |s: Seq<u8>, i: int| version_at(s, i);
    let ghost ends = |s: Seq<u8>, i: int| suffix_at(s, i);
    if name.len() < 2 {
        proof {
            lemma_first_from(name@, name@.len() as int, begins, name@.len() as int);
            if name@.len() == 1 {
                lemma_first_from(name@, 1, begins, 1);
            } else {
                assert(first_from(name@, 1, begins) == 0);
            }
        }
        return None;
    }
    let mut from: usize = 1;
    while from < name.len() && !(name[from - 1] == 45 && name[from] >= 48 && name[from] <= 57)
        invariant
            1 <= from <= name.len(),
            begins == |s: Seq<u8>, i: int| version_at(s, i),
            forall|j: int| 1 <= j < from ==> !#[trigger] begins(name@, j),
        decreases name.len() - from,
    {
        from = from + 1;
    }
    proof {
        lemma_first_from(name@, 1, begins, from as int);
    }
    if from >= name.len() || from == 1 {
        return None;
    }
    let mut to: usize = from;
    while to < name.len() && !(name[to] == 46 && (to + 1 == name.len() || name[to + 1] < 48
        || name[to + 1] > 57))
        invariant
            from <= to <= name.len(),
            ends == |s: Seq<u8>, i: int| suffix_at(s, i),
            forall|j: int| from <= j < to ==> !#[trigger] ends(name@, j),
        decreases name.len() - to,
    {
        to = to + 1;
    }
    proof {
        lemma_first_from(name@, from as int, ends, to as int);
    }
    Some((from, to))
}

/// Finds where the file name of a path begins.
fn find_file_name(path: &[u8]) -> (start: usize)
    ensures
        start <= path@.len(),
        file_name(path@) == path@.skip(start as int),
        start > 0 ==> path@[start - 1] == 47,
{
    let mut start: usize = path.len();
    while start > 0 && path[start - 1] != 47
        invariant
            start <= path.len(),
            forall|j: int| start <= j < path@.len() ==> path@[j] != 47,
        decreases start,
    {
        start = start - 1;
    }
    proof {
        lemma_file_name(path@, start as int);
    }
    start
}

/// Why a path is no artifact.
#[derive(Debug, Clone, Copy, PartialEq, Eq, Structural)]
pub enum ArtifactError {
    /// The file name is not a name, a hyphen and a version.
    NoNameAndVersion,
}

/// A file in a store, with the package and the version that its name
/// tells.
#[derive(Debug)]
pub struct Artifact {
    path: String,
    name: PackageName,
    version: PackageVersion,
}

/// The mathematical value of an artifact.
pub struct ArtifactView {
    pub path: Seq<char>,
    pub name: Seq<char>,
    pub version: Seq<char>,
}

impl View for Artifact {
    type V = ArtifactView;

    closed spec fn view(&self) -> ArtifactView {
        ArtifactView { path: self.path@, name: self.name@, version: self.version@ }
    }
}

impl Clone for Artifact {
    fn clone(&self) -> (r: Self)
        ensures
            r@ == self@,
    {
        Artifact {
            path: self.path.clone(),
            name: self.name.clone(),
            version: self.version.clone(),
        }
    }
}

/// What a path gives as an artifact: the artifact of the name and the
/// version that its file name tells, or the reason why it is none.
pub open spec fn spec_load(path: Seq<char>) -> Result<ArtifactView, ArtifactError> {
    match artifact_key(file_name(encode_utf8(path))) {
        None => Err(ArtifactError::NoNameAndVersion),
        Some((name, version)) => Ok(
            ArtifactView { path, name: decode_utf8(name), version: decode_utf8(version) },
        ),
    }
}

/// Whether `r` is the outcome `expected` of loading an artifact.
pub open spec fn is_loaded(r: Result<Artifact, ArtifactError>, expected: Result<
    ArtifactView,
    ArtifactError,
>) -> bool {
    match r {
        Ok(artifact) => expected == Ok::<ArtifactView, ArtifactError>(artifact@),
        Err(e) => expected == Err::<ArtifactView, ArtifactError>(e),
    }
}

impl Artifact {
    /// Reads what the file at `path` holds off its name.
    pub fn load(path: &str) -> (r: Result<Artifact, ArtifactError>)
        ensures
            is_loaded(r, spec_load(path@)),
    {
        let bytes = path.as_bytes();
        let start = find_file_name(bytes);
        let name = slice_subrange(bytes, start, bytes.len());
        let (from, to) = match find_key(name) {
            Some(place) => place,
            None => {
                return Err(ArtifactError::NoNameAndVersion);
            },
        };
        let name_bytes = slice_to_vec(slice_subrange(name, 0, from - 1));
        let version_bytes = slice_to_vec(slice_subrange(name, from, to));
        proof {
            let all = bytes@;
            vstd::utf8::encode_utf8_valid_utf8(path@);
            vstd::utf8::is_char_boundary_start_end_of_seq(all);
            if start > 0 {
                lemma_ascii_boundaries(all, start - 1);
            }
            assert(name@[from - 1] == all[start + from - 1]);
            assert(name@[from as int] == all[start + from]);
            lemma_ascii_boundaries(all, start + from - 1);
            if to < name@.len() {
                assert(name@[to as int] == all[start + to]);
                lemma_ascii_boundaries(all, start + to);
            }
            lemma_valid_between(all, start as int, start + from - 1);
            lemma_valid_between(all, start + from, start + to);
            assert(name_bytes@ =~= all.subrange(start as int, start + from - 1));
            assert(version_bytes@ =~= all.subrange(start + from, start + to));
        }
        let package = text_of_valid(name_bytes);
        let version = text_of_valid(version_bytes);
        Ok(
            Artifact {
                path: path.to_owned(),
                name: PackageName(package),
                version: PackageVersion(version),
            },
        )
    }

    /// The path of the file, relative to the root of its store.
    pub fn path(&self) -> (r: &String)
        ensures
            r@ == self@.path,
    {
        &self.path
    }

    /// The name of the package.
    pub fn name(&self) -> (r: &PackageName)
        ensures
            r@ == self@.name,
    {
        &self.name
    }

    /// The version of the package.
    pub fn version(&self) -> (r: &PackageVersion)
        ensures
            r@ == self@.version,
    {
        &self.version
    }
}

} // verus!
