//! The staging store: where what the containers built is taken in.

use crate::filestore::artifact::ArtifactView;
use crate::filestore::path::{escapes, path_escapes};
use crate::filestore::store::{load_all, paths_of, FileStoreImpl, LoadError, StoreError};
use crate::filestore::tar::{list_tar_entries, path_bytes, tar_entry_paths};
use crate::util::bytes::text_from_utf8;
use crate::util::text::texts;
use vstd::prelude::*;
use vstd::utf8::{decode_utf8, valid_utf8};

verus! {

/// An entry of an archive once the archive is unpacked: its path below the
/// root of the store, and whether a directory is there.
#[derive(Debug)]
pub struct Unpacked {
    pub path: String,
    pub is_dir: bool,
}

/// The paths of the entries that are no directories, in order.
pub open spec fn files_of(outputs: Seq<Unpacked>) -> Seq<Seq<char>> {
    outputs.filter(|o: Unpacked| !o.is_dir).map_values(|o: Unpacked| o.path@)
}

/// The paths of the entries of an archive as text, or the first that leaves
/// the root of the store or is not text.
pub open spec fn checked(paths: Seq<Seq<u8>>) -> Result<Seq<Seq<char>>, StoreError>
    decreases paths.len(),
{
    if paths.len() == 0 {
        Ok(Seq::empty())
    } else {
        match checked(paths.drop_last()) {
            Err(e) => Err(e),
            Ok(outputs) => if escapes(paths.last()) {
                Err(StoreError::PathTraversal((paths.len() - 1) as usize))
            } else if !valid_utf8(paths.last()) {
                Err(StoreError::NotText((paths.len() - 1) as usize))
            } else {
                Ok(outputs.push(decode_utf8(paths.last())))
            },
        }
    }
}

/// An error among the first paths is the error of them all.
pub proof fn lemma_checked_error(paths: Seq<Seq<u8>>, n: int)
    requires
        0 <= n <= paths.len(),
        checked(paths.take(n)) is Err,
    ensures
        checked(paths) == checked(paths.take(n)),
    decreases paths.len(),
{
    if n == paths.len() {
        assert(paths.take(n) =~= paths);
    } else {
        assert(paths.drop_last().take(n) =~= paths.take(n));
        lemma_checked_error(paths.drop_last(), n);
    }
}

/// What an archive is to write into the store: the paths of its entries,
/// none of which leaves the root of the store.
pub open spec fn spec_outputs(archive: Seq<u8>) -> Result<Seq<Seq<char>>, StoreError> {
    match tar_entry_paths(archive) {
        None => Err(StoreError::MalformedArchive),
        Some(paths) => checked(paths),
    }
}

/// Whether `r` is the outcome `expected`.
pub open spec fn is_outputs(r: Result<Vec<String>, StoreError>, expected: Result<
    Seq<Seq<char>>,
    StoreError,
>) -> bool {
    match r {
        Ok(outputs) => expected == Ok::<Seq<Seq<char>>, StoreError>(texts(outputs@)),
        Err(e) => expected == Err::<Seq<Seq<char>>, StoreError>(e),
    }
}

/// The staging store: a directory and the index of the artifacts in it.
#[derive(Debug)]
pub struct StagingStore(pub FileStoreImpl);

impl StagingStore {
    /// The root directory.
    pub open spec fn root(&self) -> Seq<char> {
        self.0.root()
    }

    /// The artifacts of the index, in the order in which they were taken.
    pub open spec fn index(&self) -> Seq<ArtifactView> {
        self.0.index()
    }

    /// Whether no path is in the index twice.
    pub open spec fn wf(&self) -> bool {
        self.0.wf()
    }

    /// Loads the store at `root` from the files that were found below it,
    /// given by their paths relative to the root. The root must be a
    /// directory.
    pub fn load(root: &str, root_is_dir: bool, files: &Vec<String>) -> (r: Result<
        StagingStore,
        StoreError,
    >)
        ensures
            match r {
                Ok(store) => root_is_dir && store.root() == root@ && store.wf() && load_all(
                    Seq::empty(),
                    texts(files@),
                ) == Ok::<Seq<ArtifactView>, (int, LoadError)>(store.index()),
                Err(StoreError::NotADirectory) => !root_is_dir,
                Err(StoreError::Load(place, e)) => root_is_dir && load_all(
                    Seq::empty(),
                    texts(files@),
                ) == Err::<Seq<ArtifactView>, (int, LoadError)>((place as int, e)),
                Err(_) => false,
            },
    {
        if !root_is_dir {
            return Err(StoreError::NotADirectory);
        }
        let mut store = FileStoreImpl::new(root);
        match store.load_files(files) {
            Ok(()) => Ok(StagingStore(store)),
            Err((place, e)) => Err(StoreError::Load(place, e)),
        }
    }

    /// Checks the paths of the entries of an archive before it is unpacked:
    /// none may leave the root of the store, and each must be text.
    pub fn check_outputs(paths: Vec<Vec<u8>>) -> (r: Result<Vec<String>, StoreError>)
        ensures
            is_outputs(r, checked(path_bytes(paths@))),
    {
        let ghost all = path_bytes(paths@);
        let mut remaining = paths;
        let mut outputs: Vec<String> = Vec::new();
        let n = remaining.len();
        let mut i: usize = 0;
        proof {
            assert(all.take(0) =~= Seq::<Seq<u8>>::empty());
            assert(texts(outputs@) =~= Seq::<Seq<char>>::empty());
        }
        while i < n
            invariant
                i <= n,
                n == remaining@.len(),
                n == all.len(),
                all == path_bytes(paths@),
                forall|j: int| i <= j < n ==> (#[trigger] remaining@[j])@ == all[j],
                checked(all.take(i as int)) == Ok::<Seq<Seq<char>>, StoreError>(texts(outputs@)),
            decreases n - i,
        {
            proof {
                assert(all.take(i as int + 1).drop_last() =~= all.take(i as int));
                assert(all.take(i as int + 1).last() == all[i as int]);
            }
            if path_escapes(remaining[i].as_slice()) {
                proof {
                    lemma_checked_error(all, i as int + 1);
                }
                return Err(StoreError::PathTraversal(i));
            }
            let mut path: Vec<u8> = Vec::new();
            core::mem::swap(&mut path, &mut remaining[i]);
            let ghost before = texts(outputs@);
            match text_from_utf8(path) {
                Some(text) => {
                    outputs.push(text);
                    proof {
                        assert(texts(outputs@) =~= before.push(decode_utf8(all[i as int])));
                    }
                },
                None => {
                    proof {
                        lemma_checked_error(all, i as int + 1);
                    }
                    return Err(StoreError::NotText(i));
                },
            }
            i = i + 1;
        }
        proof {
            assert(all.take(i as int) =~= all);
        }
        Ok(outputs)
    }

    /// Reads what an archive is to write into the store: the paths of its
    /// entries. The archive is refused before anything is unpacked where
    /// an entry would leave the root of the store.
    pub fn tar_stream_outputs(archive: &[u8]) -> (r: Result<Vec<String>, StoreError>)
        ensures
            is_outputs(r, spec_outputs(archive@)),
    {
        match list_tar_entries(archive) {
            Some(paths) => StagingStore::check_outputs(paths),
            None => Err(StoreError::MalformedArchive),
        }
    }

    /// Takes the files of an unpacked archive into the index: every entry
    /// that is no directory, in the order of the archive. Either all are
    /// taken or the index stays as it is.
    ///
    /// The result are the paths that were taken.
    pub fn write_files_from_tar_stream(&mut self, outputs: &Vec<Unpacked>) -> (r: Result<
        Vec<String>,
        StoreError,
    >)
        ensures
            final(self).root() == old(self).root(),
            match r {
                Ok(written) => texts(written@) == files_of(outputs@) && load_all(
                    old(self).index(),
                    files_of(outputs@),
                ) == Ok::<Seq<ArtifactView>, (int, LoadError)>(final(self).index()),
                Err(StoreError::Load(place, e)) => final(self).index() == old(self).index()
                    && load_all(old(self).index(), files_of(outputs@)) == Err::<
                    Seq<ArtifactView>,
                    (int, LoadError),
                >((place as int, e)),
                Err(_) => false,
            },
            old(self).wf() ==> final(self).wf(),
    {
        let mut files: Vec<String> = Vec::new();
        let ghost is_file = |o: Unpacked| !o.is_dir;
        let ghost path = |o: Unpacked| o.path@;
        let mut i: usize = 0;
        proof {
            assert(outputs@.take(0) =~= Seq::<Unpacked>::empty());
            assert(texts(files@) =~= outputs@.take(0).filter(is_file).map_values(path));
        }
        while i < outputs.len()
            invariant
                i <= outputs.len(),
                is_file == |o: Unpacked| !o.is_dir,
                path == |o: Unpacked| o.path@,
                texts(files@) == outputs@.take(i as int).filter(is_file).map_values(path),
            decreases outputs.len() - i,
        {
            let output = &outputs[i];
            let ghost before = texts(files@);
            proof {
                let prefix = outputs@.take(i as int);
                assert(outputs@.take(i as int + 1) =~= prefix.push(*output));
                prefix.lemma_filter_push(*output, is_file);
            }
            if !output.is_dir {
                files.push(output.path.clone());
                proof {
                    assert(texts(files@) =~= before.push(output.path@));
                    assert(outputs@.take(i as int).filter(is_file).push(*output).map_values(path)
                        =~= before.push(output.path@));
                }
            }
            i = i + 1;
        }
        proof {
            assert(outputs@.take(i as int) =~= outputs@);
        }
        match self.0.load_files(&files) {
            Ok(()) => Ok(files),
            Err((place, e)) => Err(StoreError::Load(place, e)),
        }
    }

    /// The root directory.
    pub fn root_path(&self) -> (r: &str)
        ensures
            r@ == self.root(),
    {
        self.0.root_path()
    }

    /// Whether the file at `path`, which is relative to the root, is in
    /// the store: the index holds every file of the store.
    pub fn path_exists_in_store_root(&self, path: &str) -> (r: bool)
        ensures
            r == paths_of(self.index()).contains(path@),
    {
        self.0.path_exists_in_store_root(path)
    }
}

} // verus!
