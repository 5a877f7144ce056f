//! A release store: where artifacts go that were promoted from staging.

use crate::filestore::artifact::{Artifact, ArtifactView};
use crate::filestore::store::{load_all, load_into, paths_of, FileStoreImpl, LoadError, StoreError};
use crate::util::text::texts;
use vstd::prelude::*;

verus! {

/// A release store: a directory and the index of the artifacts in it.
/// Artifacts are added to it and never leave it.
#[derive(Debug)]
pub struct ReleaseStore(pub FileStoreImpl);

impl ReleaseStore {
    /// The root directory.
    pub open spec fn root(&self) -> Seq<char> {
        self.0.root()
    }

    /// The artifacts of the index, in the order in which they were taken.
    pub open spec fn index(&self) -> Seq<ArtifactView> {
        self.0.index()
    }

    /// Whether no path is in the index twice.
    pub open spec fn wf(&self) -> bool {
        self.0.wf()
    }

    /// Loads the store at `root` from the files that were found below it,
    /// given by their paths relative to the root. The root must be a
    /// directory.
    pub fn load(root: &str, root_is_dir: bool, files: &Vec<String>) -> (r: Result<
        ReleaseStore,
        StoreError,
    >)
        ensures
            match r {
                Ok(store) => root_is_dir && store.root() == root@ && store.wf() && load_all(
                    Seq::empty(),
                    texts(files@),
                ) == Ok::<Seq<ArtifactView>, (int, LoadError)>(store.index()),
                Err(StoreError::NotADirectory) => !root_is_dir,
                Err(StoreError::Load(place, e)) => root_is_dir && load_all(
                    Seq::empty(),
                    texts(files@),
                ) == Err::<Seq<ArtifactView>, (int, LoadError)>((place as int, e)),
                Err(_) => false,
            },
    {
        if !root_is_dir {
            return Err(StoreError::NotADirectory);
        }
        let mut store = FileStoreImpl::new(root);
        match store.load_files(files) {
            Ok(()) => Ok(ReleaseStore(store)),
            Err((place, e)) => Err(StoreError::Load(place, e)),
        }
    }

    /// Promotes an artifact into the store: it is taken into the index
    /// under its path, unless the index holds that path already.
    pub fn promote(&mut self, artifact: &Artifact) -> (r: Result<(), LoadError>)
        ensures
            final(self).root() == old(self).root(),
            match r {
                Ok(()) => load_into(old(self).index(), artifact@.path) == Ok::<
                    Seq<ArtifactView>,
                    LoadError,
                >(final(self).index()),
                Err(e) => load_into(old(self).index(), artifact@.path) == Err::<
                    Seq<ArtifactView>,
                    LoadError,
                >(e) && final(self).index() == old(self).index(),
            },
            old(self).wf() ==> final(self).wf(),
    {
        self.0.load_from_path(artifact.path().as_str())
    }

    /// The root directory.
    pub fn root_path(&self) -> (r: &str)
        ensures
            r@ == self.root(),
    {
        self.0.root_path()
    }

    /// Whether the file at `path`, which is relative to the root, is in
    /// the store.
    pub fn path_exists_in_store_root(&self, path: &str) -> (r: bool)
        ensures
            r == paths_of(self.index()).contains(path@),
    {
        self.0.path_exists_in_store_root(path)
    }
}

} // verus!
