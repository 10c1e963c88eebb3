use art_copier::CopyAction;
use art_copier::PathPair;
use art_copier::SourceInfo;
use art_copier::TreeEntry;
use art_copier::plan_entry;
use art_copier::plan_project;

fn pair(src: &str, dst: &str) -> PathPair {
    PathPair { src: src.to_string(), dst: dst.to_string() }
}

fn tree(entries: Vec<(&str, bool)>) -> SourceInfo {
    SourceInfo::Tree {
        entries: entries
            .into_iter()
            .map(|(rel, is_dir)| TreeEntry { rel: rel.to_string(), is_dir })
            .collect(),
    }
}

#[test]
fn plans_single_file_entry() {
    let acts = plan_entry("/src", "/dst", &pair("bin/tool", "opt/tool"), &SourceInfo::File)
        .unwrap();
    assert_eq!(
        acts,
        vec![
            CopyAction::EnsureDir { path: "/dst/opt".to_string() },
            CopyAction::CopyFile {
                src: "/src/bin/tool".to_string(),
                dst: "/dst/opt/tool".to_string(),
            },
        ]
    );
}

#[test]
fn plans_directory_tree_with_mirrored_structure() {
    let info = tree(vec![("a.txt", false), ("sub", true), ("sub/b.txt", false)]);
    let acts = plan_entry("/src", "/dst", &pair(".", "out"), &info).unwrap();
    assert_eq!(
        acts,
        vec![
            CopyAction::EnsureDir { path: "/dst".to_string() },
            CopyAction::EnsureDir { path: "/dst/out".to_string() },
            CopyAction::CopyFile {
                src: "/src/a.txt".to_string(),
                dst: "/dst/out/a.txt".to_string(),
            },
            CopyAction::EnsureDir { path: "/dst/out/sub".to_string() },
            CopyAction::CopyFile {
                src: "/src/sub/b.txt".to_string(),
                dst: "/dst/out/sub/b.txt".to_string(),
            },
        ]
    );
}

#[test]
fn dot_source_resolves_to_source_root() {
    let e = plan_entry("/src", "/dst", &pair(".", "out"), &SourceInfo::Missing).unwrap_err();
    assert_eq!(e.source, "/src");
}

#[test]
fn missing_source_fails_with_resolved_path() {
    let e = plan_entry("/src", "/dst", &pair("gone.txt", "x"), &SourceInfo::Missing).unwrap_err();
    assert_eq!(e.source, "/src/gone.txt");
    assert_eq!(e.message(), "source path does not exist: /src/gone.txt");
}

#[test]
fn project_plan_concatenates_entries_in_order() {
    let install = vec![pair("a.txt", "a.txt"), pair("b.txt", "deep/b.txt")];
    let infos = vec![SourceInfo::File, SourceInfo::File];
    let acts = plan_project("/src", "/dst", &install, &infos).unwrap();
    assert_eq!(
        acts,
        vec![
            CopyAction::EnsureDir { path: "/dst".to_string() },
            CopyAction::CopyFile {
                src: "/src/a.txt".to_string(),
                dst: "/dst/a.txt".to_string(),
            },
            CopyAction::EnsureDir { path: "/dst/deep".to_string() },
            CopyAction::CopyFile {
                src: "/src/b.txt".to_string(),
                dst: "/dst/deep/b.txt".to_string(),
            },
        ]
    );
}

#[test]
fn first_missing_entry_aborts_the_project() {
    let install = vec![pair("a.txt", "a.txt"), pair("gone", "g"), pair("b.txt", "b.txt")];
    let infos = vec![SourceInfo::File, SourceInfo::Missing, SourceInfo::File];
    let e = plan_project("/src", "/dst", &install, &infos).unwrap_err();
    assert_eq!(e.source, "/src/gone");
}

#[test]
fn failing_project_leaves_independent_project_unaffected() {
    let broken = vec![pair("gone", "g")];
    let broken_infos = vec![SourceInfo::Missing];
    let fine = vec![pair("a.txt", "a.txt")];
    let fine_infos = vec![SourceInfo::File];
    assert!(plan_project("/src", "/dst", &broken, &broken_infos).is_err());
    let acts = plan_project("/src", "/dst", &fine, &fine_infos).unwrap();
    assert_eq!(acts.len(), 2);
}
