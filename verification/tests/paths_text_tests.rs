use art_copier::ambiguity_guard;
use art_copier::contains_substr;
use art_copier::join_path;
use art_copier::parent_of;
use art_copier::resolve_source;

#[test]
fn join_plain() {
    assert_eq!(join_path("a", "b"), "a/b");
    assert_eq!(join_path("/srv/out", "bin/tool"), "/srv/out/bin/tool");
}

#[test]
fn join_empty_root() {
    assert_eq!(join_path("", "b.txt"), "b.txt");
}

#[test]
fn parent_of_nested() {
    assert_eq!(parent_of("a/b/c.txt"), "a/b");
    assert_eq!(parent_of("./artifacts.yml"), ".");
}

#[test]
fn parent_of_bare_name() {
    assert_eq!(parent_of("artifacts.yml"), "");
}

#[test]
fn resolve_dot_is_root() {
    assert_eq!(resolve_source("/src/root", "."), "/src/root");
}

#[test]
fn resolve_relative() {
    assert_eq!(resolve_source("/src/root", "out/app"), "/src/root/out/app");
}

#[test]
fn guard_refuses_cwd_manifest_without_source_dir() {
    assert!(ambiguity_guard("./artifacts.yml", false));
    assert!(ambiguity_guard("artifacts.yml", false));
}

#[test]
fn guard_allows_source_dir_or_other_directory() {
    assert!(!ambiguity_guard("./artifacts.yml", true));
    assert!(!ambiguity_guard("deploy/artifacts.yml", false));
}

#[test]
fn contains_substr_basic() {
    assert!(contains_substr("gitlab-art-copier", "art"));
    assert!(contains_substr("abc", "abc"));
    assert!(contains_substr("abc", ""));
    assert!(contains_substr("", ""));
}

#[test]
fn contains_substr_negative() {
    assert!(!contains_substr("abc", "abcd"));
    assert!(!contains_substr("abc", "B"));
    assert!(!contains_substr("", "a"));
}
