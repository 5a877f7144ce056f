//! What the stores share: a root directory and an index of the artifacts
//! below it.

use crate::filestore::artifact::{spec_load, Artifact, ArtifactError, ArtifactView};
use crate::package::name::{PackageName, PackageVersion};
use crate::util::text::{str_equal, texts};
use vstd::prelude::*;

verus! {

/// Why a path was not taken into an index.
#[derive(Debug, Clone, Copy, PartialEq, Eq, Structural)]
pub enum LoadError {
    /// The index holds the path already.
    EntryExists,
    /// The path is no artifact.
    Artifact(ArtifactError),
}

/// Why a store could not be loaded or written to.
#[derive(Debug, Clone, Copy, PartialEq, Eq, Structural)]
pub enum StoreError {
    /// The root of the store is no directory.
    NotADirectory,
    /// The bytes are no TAR archive.
    MalformedArchive,
    /// The entry at this place of the archive leaves the root of the store.
    PathTraversal(usize),
    /// The path of the entry at this place of the archive is not text.
    NotText(usize),
    /// The file at this place among the files was not taken into the index.
    Load(usize, LoadError),
}

/// The values of some artifacts.
pub open spec fn artifact_views(artifacts: Seq<Artifact>) -> Seq<ArtifactView> {
    artifacts.map_values(|a: Artifact| a@)
}

/// The values of some artifacts that are held by reference.
pub open spec fn artifact_ref_views(artifacts: Seq<&Artifact>) -> Seq<ArtifactView> {
    artifacts.map_values(|a: &Artifact| a@)
}

/// The paths of some artifacts.
pub open spec fn paths_of(index: Seq<ArtifactView>) -> Seq<Seq<char>> {
    index.map_values(|a: ArtifactView| a.path)
}

/// The index with one path more, or the reason why the path was not taken:
/// it is in the index already, or it is no artifact.
pub open spec fn load_into(index: Seq<ArtifactView>, path: Seq<char>) -> Result<
    Seq<ArtifactView>,
    LoadError,
> {
    if paths_of(index).contains(path) {
        Err(LoadError::EntryExists)
    } else {
        match spec_load(path) {
            Ok(artifact) => Ok(index.push(artifact)),
            Err(e) => Err(LoadError::Artifact(e)),
        }
    }
}

/// The index with some files more, taken in order, or the place of the
/// first file that was not taken, with the reason.
pub open spec fn load_all(index: Seq<ArtifactView>, files: Seq<Seq<char>>) -> Result<
    Seq<ArtifactView>,
    (int, LoadError),
>
    decreases files.len(),
{
    if files.len() == 0 {
        Ok(index)
    } else {
        match load_all(index, files.drop_last()) {
            Err(e) => Err(e),
            Ok(loaded) => match load_into(loaded, files.last()) {
                Ok(more) => Ok(more),
                Err(e) => Err((files.len() - 1, e)),
            },
        }
    }
}

/// An error among the first files is the error of them all.
pub proof fn lemma_load_all_error(index: Seq<ArtifactView>, files: Seq<Seq<char>>, n: int)
    requires
        0 <= n <= files.len(),
        load_all(index, files.take(n)) is Err,
    ensures
        load_all(index, files) == load_all(index, files.take(n)),
    decreases files.len(),
{
    if n == files.len() {
        assert(files.take(n) =~= files);
    } else {
        assert(files.drop_last().take(n) =~= files.take(n));
        lemma_load_all_error(index, files.drop_last(), n);
    }
}

/// Once some files are taken into an index, the index holds the paths
/// that it held, then those of the files, and no others.
pub proof fn lemma_load_all_paths(index: Seq<ArtifactView>, files: Seq<Seq<char>>)
    requires
        load_all(index, files) is Ok,
    ensures
        paths_of(load_all(index, files)->Ok_0) == paths_of(index) + files,
    decreases files.len(),
{
    if files.len() == 0 {
        assert(paths_of(index) + files =~= paths_of(index));
    } else {
        lemma_load_all_paths(index, files.drop_last());
        let before = load_all(index, files.drop_last())->Ok_0;
        let after = load_all(index, files)->Ok_0;
        assert(paths_of(after) =~= paths_of(before).push(files.last()));
        assert(paths_of(index) + files =~= (paths_of(index) + files.drop_last()).push(files.last()));
    }
}

/// A path that was taken into an index is not taken again: the index
/// holds it once.
pub proof fn lemma_load_twice(index: Seq<ArtifactView>, path: Seq<char>)
    requires
        load_into(index, path) is Ok,
    ensures
        load_into(load_into(index, path)->Ok_0, path) == Err::<Seq<ArtifactView>, LoadError>(
            LoadError::EntryExists,
        ),
{
    let after = load_into(index, path)->Ok_0;
    assert(paths_of(after)[index.len() as int] == path);
}

/// An index without a path twice has none twice once a path is taken.
pub proof fn lemma_load_keeps_unique(index: Seq<ArtifactView>, path: Seq<char>)
    requires
        paths_of(index).no_duplicates(),
        load_into(index, path) is Ok,
    ensures
        paths_of(load_into(index, path)->Ok_0).no_duplicates(),
{
    let after = paths_of(load_into(index, path)->Ok_0);
    assert(after =~= paths_of(index).push(path));
    assert forall|i: int, j: int| 0 <= i < after.len() && 0 <= j < after.len() && i != j implies after[i]
        != after[j] by {
        if i < index.len() && j < index.len() {
            assert(paths_of(index)[i] != paths_of(index)[j]);
        } else if i < index.len() {
            assert(paths_of(index)[i] != path);
        } else {
            assert(paths_of(index)[j] != path);
        }
    }
}

/// Whether an artifact is of the package and the version.
pub open spec fn is_artifact_of(artifact: ArtifactView, name: Seq<char>, version: Seq<char>) -> bool {
    artifact.name == name && artifact.version == version
}

/// A directory with an index of the artifacts below it. No path is in the
/// index twice.
#[derive(Debug)]
pub struct FileStoreImpl {
    root: String,
    store: Vec<Artifact>,
}

impl FileStoreImpl {
    /// The root directory.
    pub closed spec fn root(&self) -> Seq<char> {
        self.root@
    }

    /// The artifacts of the index, in the order in which they were taken.
    pub closed spec fn index(&self) -> Seq<ArtifactView> {
        artifact_views(self.store@)
    }

    /// Whether no path is in the index twice.
    pub open spec fn wf(&self) -> bool {
        paths_of(self.index()).no_duplicates()
    }

    /// A store at `root` with an empty index.
    pub fn new(root: &str) -> (r: FileStoreImpl)
        ensures
            r.root() == root@,
            r.index() == Seq::<ArtifactView>::empty(),
            r.wf(),
    {
        let r = FileStoreImpl { root: root.to_owned(), store: Vec::new() };
        proof {
            assert(r.index() =~= Seq::<ArtifactView>::empty());
            assert(paths_of(r.index()) =~= Seq::<Seq<char>>::empty());
        }
        r
    }

    /// The root directory.
    pub fn root_path(&self) -> (r: &str)
        ensures
            r@ == self.root(),
    {
        self.root.as_str()
    }

    /// Whether the index holds the path, which is relative to the root.
    pub fn path_exists_in_store_root(&self, path: &str) -> (r: bool)
        ensures
            r == paths_of(self.index()).contains(path@),
    {
        let mut i: usize = 0;
        while i < self.store.len()
            invariant
                i <= self.store.len(),
                forall|j: int| 0 <= j < i ==> paths_of(self.index())[j] != path@,
            decreases self.store.len() - i,
        {
            if str_equal(self.store[i].path().as_str(), path) {
                assert(paths_of(self.index())[i as int] == path@);
                return true;
            }
            i = i + 1;
        }
        false
    }

    /// The number of artifacts in the index.
    pub fn len(&self) -> (n: usize)
        ensures
            n == self.index().len(),
    {
        self.store.len()
    }

    /// The artifacts of the index.
    pub fn values(&self) -> (r: &Vec<Artifact>)
        ensures
            artifact_views(r@) == self.index(),
    {
        &self.store
    }

    /// Takes the file at `path` into the index. The index stays as it is
    /// where the file is not taken.
    pub fn load_from_path(&mut self, path: &str) -> (r: Result<(), LoadError>)
        ensures
            final(self).root() == old(self).root(),
            match r {
                Ok(()) => load_into(old(self).index(), path@) == Ok::<Seq<ArtifactView>, LoadError>(
                    final(self).index(),
                ),
                Err(e) => load_into(old(self).index(), path@) == Err::<
                    Seq<ArtifactView>,
                    LoadError,
                >(e) && final(self).index() == old(self).index(),
            },
            old(self).wf() ==> final(self).wf(),
    {
        if self.path_exists_in_store_root(path) {
            return Err(LoadError::EntryExists);
        }
        match Artifact::load(path) {
            Ok(artifact) => {
                let ghost before = self.index();
                self.store.push(artifact);
                proof {
                    assert(self.index() =~= before.push(artifact@));
                    assert(paths_of(self.index()) =~= paths_of(before).push(path@));
                    if paths_of(before).no_duplicates() {
                        let after = paths_of(before).push(path@);
                        assert forall|i: int, j: int|
                            0 <= i < after.len() && 0 <= j < after.len() && i != j implies after[i]
                            != after[j] by {
                            if i < before.len() && j < before.len() {
                                assert(paths_of(before)[i] != paths_of(before)[j]);
                            } else if i < before.len() {
                                assert(paths_of(before)[i] != path@);
                            } else {
                                assert(paths_of(before)[j] != path@);
                            }
                        }
                    }
                }
                Ok(())
            },
            Err(e) => Err(LoadError::Artifact(e)),
        }
    }

    /// Puts the index back to its first `len` artifacts.
    fn truncate(&mut self, len: usize)
        requires
            len <= old(self).index().len(),
        ensures
            final(self).root() == old(self).root(),
            final(self).index() == old(self).index().take(len as int),
    {
        self.store.truncate(len);
        proof {
            assert(self.index() =~= old(self).index().take(len as int));
        }
    }

    /// Takes some files into the index, in order: all of them, or none.
    pub fn load_files(&mut self, files: &Vec<String>) -> (r: Result<(), (usize, LoadError)>)
        ensures
            final(self).root() == old(self).root(),
            match r {
                Ok(()) => load_all(old(self).index(), texts(files@)) == Ok::<
                    Seq<ArtifactView>,
                    (int, LoadError),
                >(final(self).index()),
                Err((place, e)) => load_all(old(self).index(), texts(files@)) == Err::<
                    Seq<ArtifactView>,
                    (int, LoadError),
                >((place as int, e)) && final(self).index() == old(self).index(),
            },
            old(self).wf() ==> final(self).wf(),
    {
        let known = self.store.len();
        let ghost index0 = self.index();
        let mut i: usize = 0;
        proof {
            assert(texts(files@).take(0) =~= Seq::<Seq<char>>::empty());
        }
        while i < files.len()
            invariant
                i <= files.len(),
                known == index0.len(),
                index0 == old(self).index(),
                self.root() == old(self).root(),
                self.index().len() >= known,
                self.index().take(known as int) == index0,
                load_all(index0, texts(files@).take(i as int)) == Ok::<
                    Seq<ArtifactView>,
                    (int, LoadError),
                >(self.index()),
                old(self).wf() ==> self.wf(),
            decreases files.len() - i,
        {
            proof {
                assert(texts(files@).take(i as int + 1).drop_last() =~= texts(files@).take(i as int));
                assert(texts(files@).take(i as int + 1).last() == files@[i as int]@);
            }
            let ghost before = self.index();
            match self.load_from_path(files[i].as_str()) {
                Ok(()) => {
                    proof {
                        assert(self.index().take(known as int) =~= before.take(known as int));
                    }
                },
                Err(e) => {
                    proof {
                        lemma_load_all_error(index0, texts(files@), i as int + 1);
                    }
                    self.truncate(known);
                    return Err((i, e));
                },
            }
            i = i + 1;
        }
        proof {
            assert(texts(files@).take(i as int) =~= texts(files@));
        }
        Ok(())
    }

    /// The artifacts of the package and the version, in the order of the
    /// index.
    pub fn get_artifact_by_name_and_version<'a>(
        &'a self,
        name: &PackageName,
        version: &PackageVersion,
        found: &mut Vec<&'a Artifact>,
    )
        ensures
            artifact_ref_views(final(found)@) == artifact_ref_views(old(found)@) + self.index().filter(
                |a: ArtifactView| is_artifact_of(a, name@, version@),
            ),
    {
        let ghost wanted = |a: ArtifactView| is_artifact_of(a, name@, version@);
        let ghost start = artifact_ref_views(found@);
        let mut i: usize = 0;
        proof {
            assert(self.index().take(0) =~= Seq::<ArtifactView>::empty());
            assert(start + self.index().take(0).filter(wanted) =~= start);
        }
        while i < self.store.len()
            invariant
                i <= self.store.len(),
                wanted == |a: ArtifactView| is_artifact_of(a, name@, version@),
                artifact_ref_views(found@) == start + self.index().take(i as int).filter(wanted),
            decreases self.store.len() - i,
        {
            let artifact = &self.store[i];
            let ghost before = artifact_ref_views(found@);
            proof {
                let prefix = self.index().take(i as int);
                assert(self.index().take(i as int + 1) =~= prefix.push(artifact@));
                prefix.lemma_filter_push(artifact@, wanted);
            }
            if *artifact.name() == *name && *artifact.version() == *version {
                found.push(artifact);
                proof {
                    assert(artifact_ref_views(found@) =~= before.push(artifact@));
                }
            }
            i = i + 1;
        }
        proof {
            assert(self.index().take(i as int) =~= self.index());
        }
    }
}

} // verus!
