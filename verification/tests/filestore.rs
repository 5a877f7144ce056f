use butido::filestore::artifact::{Artifact, ArtifactError};
use butido::filestore::merged::MergedStores;
use butido::filestore::path::path_escapes;
use butido::filestore::release::ReleaseStore;
use butido::filestore::staging::{StagingStore, Unpacked};
use butido::filestore::store::{FileStoreImpl, LoadError, StoreError};
use butido::package::name::{PackageName, PackageVersion};

fn strings(list: &[&str]) -> Vec<String> {
    list.iter().map(|s| String::from(*s)).collect()
}

fn key(path: &str) -> (String, String) {
    let artifact = Artifact::load(path).unwrap();
    assert_eq!(artifact.path(), path);
    (
        String::from(artifact.name().as_str()),
        String::from(artifact.version().as_str()),
    )
}

#[test]
fn file_names_tell_package_and_version() {
    assert_eq!(key("a-1.tar.gz"), (String::from("a"), String::from("1")));
    assert_eq!(key("foo-bar-1.2.3.tar.gz"), (String::from("foo-bar"), String::from("1.2.3")));
    assert_eq!(key("sub/dir/p6-66.6.6.pkg"), (String::from("p6"), String::from("66.6.6")));
    assert_eq!(key("x86-64-tools-2"), (String::from("x86"), String::from("64-tools-2")));
    assert_eq!(key("vim-8.2"), (String::from("vim"), String::from("8.2")));
    assert_eq!(key("vim-8.2."), (String::from("vim"), String::from("8.2")));
    assert_eq!(key("vim-8rc1.tar"), (String::from("vim"), String::from("8rc1")));
    assert_eq!(key("dir-1/name-2.txz"), (String::from("name"), String::from("2")));
}

#[test]
fn file_names_without_a_version_are_no_artifacts() {
    for path in ["", "README", "vim.tar.gz", "-1.tar.gz", "vim-", "vim-x", "dir-1/", "dir-1/file"] {
        assert_eq!(
            Artifact::load(path).unwrap_err(),
            ArtifactError::NoNameAndVersion,
            "{:?}",
            path
        );
    }
}

#[test]
fn paths_that_leave_the_root_are_found() {
    for path in ["", "a", "a/b", "./a", "a/../b", "a/./b/..", "a//b", "a/b/../../c", "..a", "a..", "..."] {
        assert!(!path_escapes(path.as_bytes()), "{:?}", path);
    }
    for path in ["/", "/etc/passwd", "..", "../a", "a/../..", "a/../../b", "./../a", "a/b/../../../c"] {
        assert!(path_escapes(path.as_bytes()), "{:?}", path);
    }
}

#[test]
fn a_store_is_loaded_from_its_files() {
    let store = StagingStore::load("/staging", true, &strings(&["a-1.tar.gz", "sub/b-2.tar.gz"])).unwrap();
    assert_eq!(store.root_path(), "/staging");
    assert!(store.path_exists_in_store_root("a-1.tar.gz"));
    assert!(store.path_exists_in_store_root("sub/b-2.tar.gz"));
    assert!(!store.path_exists_in_store_root("b-2.tar.gz"));
    assert_eq!(store.0.len(), 2);

    assert_eq!(
        StagingStore::load("/staging", false, &Vec::new()).unwrap_err(),
        StoreError::NotADirectory
    );
    assert_eq!(
        StagingStore::load("/staging", true, &strings(&["a-1.tar.gz", "README"])).unwrap_err(),
        StoreError::Load(1, LoadError::Artifact(ArtifactError::NoNameAndVersion))
    );
    assert_eq!(
        StagingStore::load("/staging", true, &strings(&["a-1.tar.gz", "a-1.tar.gz"])).unwrap_err(),
        StoreError::Load(1, LoadError::EntryExists)
    );
}

fn unpacked(path: &str, is_dir: bool) -> Unpacked {
    Unpacked { path: String::from(path), is_dir }
}

#[test]
fn written_files_are_indexed_and_returned() {
    let mut store = StagingStore::load("/staging", true, &strings(&["old-1.tar.gz"])).unwrap();
    let outputs = vec![
        unpacked("outputs", true),
        unpacked("outputs/a-1.tar.gz", false),
        unpacked("outputs/b-2.tar.gz", false),
    ];
    let written = store.write_files_from_tar_stream(&outputs).unwrap();
    assert_eq!(written, strings(&["outputs/a-1.tar.gz", "outputs/b-2.tar.gz"]));
    let index: Vec<&str> = store.0.values().iter().map(|a| a.path().as_str()).collect();
    assert_eq!(index, vec!["old-1.tar.gz", "outputs/a-1.tar.gz", "outputs/b-2.tar.gz"]);
    for path in &written {
        assert!(store.path_exists_in_store_root(path));
    }
    assert!(!store.path_exists_in_store_root("outputs"));
}

#[test]
fn a_write_that_fails_leaves_the_index_as_it_was() {
    let mut store = StagingStore::load("/staging", true, &strings(&["old-1.tar.gz"])).unwrap();
    let outputs = vec![
        unpacked("a-1.tar.gz", false),
        unpacked("dir", true),
        unpacked("notes.txt", false),
        unpacked("b-2.tar.gz", false),
    ];
    assert_eq!(
        store.write_files_from_tar_stream(&outputs).unwrap_err(),
        StoreError::Load(1, LoadError::Artifact(ArtifactError::NoNameAndVersion))
    );
    assert_eq!(store.0.len(), 1);
    assert!(!store.path_exists_in_store_root("a-1.tar.gz"));
    assert!(store.path_exists_in_store_root("old-1.tar.gz"));
}

#[test]
fn a_path_is_indexed_once() {
    let mut store = StagingStore::load("/staging", true, &Vec::new()).unwrap();
    let outputs = vec![unpacked("a-1.tar.gz", false)];
    assert_eq!(store.write_files_from_tar_stream(&outputs).unwrap().len(), 1);
    assert_eq!(
        store.write_files_from_tar_stream(&outputs).unwrap_err(),
        StoreError::Load(0, LoadError::EntryExists)
    );
    assert_eq!(store.0.len(), 1);

    let mut files = FileStoreImpl::new("/x");
    assert_eq!(files.load_from_path("a-1.tar.gz"), Ok(()));
    assert_eq!(files.load_from_path("a-1.tar.gz"), Err(LoadError::EntryExists));
    assert_eq!(
        files.load_from_path("nope"),
        Err(LoadError::Artifact(ArtifactError::NoNameAndVersion))
    );
    assert_eq!(files.len(), 1);
}

fn archive(paths: &[(&str, bool)]) -> Vec<u8> {
    let mut builder = tar::Builder::new(Vec::new());
    for (path, is_dir) in paths {
        let mut header = tar::Header::new_gnu();
        let data: &[u8] = if *is_dir { b"" } else { b"content" };
        header.set_size(data.len() as u64);
        header.set_mode(0o644);
        if *is_dir {
            header.set_entry_type(tar::EntryType::Directory);
        }
        // the name is written as it is, also where it leaves the directory
        let name = path.as_bytes();
        header.as_old_mut().name[..name.len()].copy_from_slice(name);
        header.set_cksum();
        builder.append(&header, data).unwrap();
    }
    builder.into_inner().unwrap()
}

#[test]
fn the_entries_of_an_archive_are_listed() {
    let bytes = archive(&[("outputs/", true), ("outputs/a-1.tar.gz", false), ("b-2.tar.gz", false)]);
    assert_eq!(
        StagingStore::tar_stream_outputs(&bytes).unwrap(),
        strings(&["outputs/", "outputs/a-1.tar.gz", "b-2.tar.gz"])
    );
    assert_eq!(StagingStore::tar_stream_outputs(&archive(&[])).unwrap(), Vec::<String>::new());
}

#[test]
fn an_archive_that_leaves_the_root_is_refused() {
    let bytes = archive(&[("a-1.tar.gz", false), ("../evil-1.tar.gz", false)]);
    assert_eq!(
        StagingStore::tar_stream_outputs(&bytes).unwrap_err(),
        StoreError::PathTraversal(1)
    );
    let bytes = archive(&[("/etc/passwd", false)]);
    assert_eq!(
        StagingStore::tar_stream_outputs(&bytes).unwrap_err(),
        StoreError::PathTraversal(0)
    );
}

#[test]
fn bytes_that_are_no_archive_are_refused() {
    let mut bytes = archive(&[("a-1.tar.gz", false)]);
    bytes[0] ^= 0xff;
    assert_eq!(
        StagingStore::tar_stream_outputs(&bytes).unwrap_err(),
        StoreError::MalformedArchive
    );
    assert_eq!(
        StagingStore::tar_stream_outputs(b"this is no archive at all, not even close to one...")
            .unwrap_err(),
        StoreError::MalformedArchive
    );
}

#[test]
fn paths_of_an_archive_must_be_text() {
    assert_eq!(
        StagingStore::check_outputs(vec![b"a-1.tar.gz".to_vec(), b"b-\xff.tar.gz".to_vec()]).unwrap_err(),
        StoreError::NotText(1)
    );
    assert_eq!(
        StagingStore::check_outputs(vec![b"../x".to_vec(), b"b-\xff.tar.gz".to_vec()]).unwrap_err(),
        StoreError::PathTraversal(0)
    );
    assert_eq!(
        StagingStore::check_outputs(vec![b"a/b".to_vec()]).unwrap(),
        strings(&["a/b"])
    );
}

#[test]
fn the_merged_view_shows_staging_first() {
    let staging = StagingStore::load(
        "/staging",
        true,
        &strings(&["z/vim-8.2.tar.gz", "vim-8.1.tar.gz", "vim-8.2.tar.gz"]),
    )
    .unwrap();
    let mut release = ReleaseStore::load("/release", true, &strings(&["emacs-27.tar.gz"])).unwrap();
    let promoted = Artifact::load("vim-8.2.tar.gz").unwrap();
    assert_eq!(release.promote(&promoted), Ok(()));
    assert_eq!(release.promote(&promoted), Err(LoadError::EntryExists));
    assert_eq!(release.root_path(), "/release");
    assert!(release.path_exists_in_store_root("vim-8.2.tar.gz"));

    let merged = MergedStores::new(&release, &staging);
    let name = PackageName::from(String::from("vim"));
    let found: Vec<&str> = merged
        .get_artifact_by_name_and_version(&name, &PackageVersion::from(String::from("8.2")))
        .iter()
        .map(|a| a.path().as_str())
        .collect();
    assert_eq!(found, vec!["z/vim-8.2.tar.gz", "vim-8.2.tar.gz", "vim-8.2.tar.gz"]);
    assert!(merged
        .get_artifact_by_name_and_version(&name, &PackageVersion::from(String::from("9")))
        .is_empty());
}
