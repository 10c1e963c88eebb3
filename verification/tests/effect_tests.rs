//! Runs planned actions against an in-memory file system and checks the copy
//! engine's promised effects: mirrored structure with identical bytes,
//! idempotence, and merge semantics for pre-existing destination entries.

use std::collections::BTreeMap;
use std::collections::BTreeSet;

use art_copier::CopyAction;
use art_copier::PathPair;
use art_copier::SourceInfo;
use art_copier::TreeEntry;
use art_copier::plan_entry;

#[derive(Clone, PartialEq, Eq, Debug)]
struct MemFs {
    dirs: BTreeSet<String>,
    files: BTreeMap<String, Vec<u8>>,
}

impl MemFs {
    fn new() -> MemFs {
        MemFs { dirs: BTreeSet::new(), files: BTreeMap::new() }
    }

    fn apply(&mut self, acts: &[CopyAction]) {
        for act in acts {
            match act {
                CopyAction::EnsureDir { path } => {
                    self.dirs.insert(path.clone());
                }
                CopyAction::CopyFile { src, dst } => {
                    let bytes = self.files.get(src).cloned().expect("source file must exist");
                    self.files.insert(dst.clone(), bytes);
                }
            }
        }
    }
}

fn dir_plan(fs: &MemFs) -> Vec<CopyAction> {
    let info = SourceInfo::Tree {
        entries: vec![
            TreeEntry { rel: "a.txt".to_string(), is_dir: false },
            TreeEntry { rel: "sub".to_string(), is_dir: true },
            TreeEntry { rel: "sub/b.txt".to_string(), is_dir: false },
        ],
    };
    let pair = PathPair { src: ".".to_string(), dst: "out".to_string() };
    assert!(fs.files.contains_key("/src/a.txt"));
    plan_entry("/src", "/dst", &pair, &info).unwrap()
}

fn source_fs() -> MemFs {
    let mut fs = MemFs::new();
    fs.dirs.insert("/src".to_string());
    fs.dirs.insert("/src/sub".to_string());
    fs.files.insert("/src/a.txt".to_string(), b"alpha".to_vec());
    fs.files.insert("/src/sub/b.txt".to_string(), b"beta".to_vec());
    fs
}

#[test]
fn directory_copy_mirrors_structure_and_bytes() {
    let mut fs = source_fs();
    let plan = dir_plan(&fs);
    fs.apply(&plan);
    assert!(fs.dirs.contains("/dst/out"));
    assert!(fs.dirs.contains("/dst/out/sub"));
    assert_eq!(fs.files["/dst/out/a.txt"], b"alpha".to_vec());
    assert_eq!(fs.files["/dst/out/sub/b.txt"], b"beta".to_vec());
}

#[test]
fn running_the_same_copy_twice_changes_nothing() {
    let mut fs = source_fs();
    let plan = dir_plan(&fs);
    fs.apply(&plan);
    let after_first = fs.clone();
    fs.apply(&plan);
    assert_eq!(fs, after_first);
}

#[test]
fn pre_existing_unrelated_file_survives_directory_copy() {
    let mut fs = source_fs();
    fs.dirs.insert("/dst/out".to_string());
    fs.files.insert("/dst/out/extra.txt".to_string(), b"keep me".to_vec());
    fs.files.insert("/dst/out/a.txt".to_string(), b"stale".to_vec());
    let plan = dir_plan(&fs);
    fs.apply(&plan);
    assert_eq!(fs.files["/dst/out/extra.txt"], b"keep me".to_vec());
    assert_eq!(fs.files["/dst/out/a.txt"], b"alpha".to_vec());
}
