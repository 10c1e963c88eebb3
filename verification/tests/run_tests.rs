use art_copier::PathPair;
use art_copier::Project;
use art_copier::RunError;
use art_copier::run_verdict;
use art_copier::select_projects;

fn project(name: &str) -> Project {
    Project {
        name: name.to_string(),
        install: vec![PathPair { src: ".".to_string(), dst: "out".to_string() }],
    }
}

#[test]
fn no_filter_selects_every_project() {
    let ps = vec![project("alpha"), project("beta"), project("gamma")];
    assert_eq!(select_projects(&ps, &None), vec![0, 1, 2]);
}

#[test]
fn filter_selects_exactly_the_matching_projects() {
    let ps = vec![
        project("core-lib"),
        project("app-core"),
        project("docs"),
        project("core"),
    ];
    let sel = select_projects(&ps, &Some("core".to_string()));
    assert_eq!(sel, vec![0, 1, 3]);
}

#[test]
fn filter_is_case_sensitive_substring() {
    let ps = vec![project("Alpha"), project("alpha")];
    assert_eq!(select_projects(&ps, &Some("alp".to_string())), vec![1]);
}

#[test]
fn filter_matching_nothing_selects_nothing() {
    let ps = vec![project("alpha"), project("beta")];
    let sel = select_projects(&ps, &Some("zeta".to_string()));
    assert!(sel.is_empty());
    let verdict = run_verdict(&Vec::new());
    assert_eq!(verdict.unwrap_err(), RunError::NoProjectProcessed);
}

#[test]
fn verdict_ok_when_any_project_succeeded() {
    assert!(run_verdict(&vec![false, true]).is_ok());
    assert!(run_verdict(&vec![true]).is_ok());
}

#[test]
fn verdict_fails_when_every_project_failed() {
    let e = run_verdict(&vec![false, false]).unwrap_err();
    assert_eq!(e, RunError::NoProjectProcessed);
    assert_eq!(e.message(), "no project processed");
}

#[test]
fn run_error_messages() {
    assert_eq!(RunError::ManifestRead.message(), "failed to read manifest");
    assert_eq!(RunError::ManifestParse.message(), "failed to parse manifest");
    assert_eq!(
        RunError::AmbiguousSource.message(),
        "manifest is in the current directory and no source directory was given"
    );
}
