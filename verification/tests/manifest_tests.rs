use art_copier::DictEntry;
use art_copier::Node;
use art_copier::parse_manifest;

fn entry(key: &str, value: Node) -> DictEntry {
    DictEntry { key: key.to_string(), value }
}

fn project_node(name: &str, install: Vec<(&str, &str)>) -> Node {
    let install_entries = install
        .into_iter()
        .map(|(s, d)| entry(s, Node::Str(d.to_string())))
        .collect();
    Node::Dict(vec![
        entry("project", Node::Str(name.to_string())),
        entry("ref", Node::Str("main".to_string())),
        entry("job", Node::Str("build".to_string())),
        entry("install", Node::Dict(install_entries)),
    ])
}

#[test]
fn parses_two_projects_in_order() {
    let doc = Node::List(vec![
        project_node("alpha", vec![(".", "out"), ("bin/tool", "tool")]),
        project_node("beta", vec![("doc", "doc")]),
    ]);
    let ps = parse_manifest(&doc).unwrap();
    assert_eq!(ps.len(), 2);
    assert_eq!(ps[0].name, "alpha");
    assert_eq!(ps[0].install.len(), 2);
    assert_eq!(ps[0].install[0].src, ".");
    assert_eq!(ps[0].install[0].dst, "out");
    assert_eq!(ps[0].install[1].src, "bin/tool");
    assert_eq!(ps[0].install[1].dst, "tool");
    assert_eq!(ps[1].name, "beta");
    assert_eq!(ps[1].install.len(), 1);
}

#[test]
fn empty_manifest_is_ok_and_empty() {
    let ps = parse_manifest(&Node::List(vec![])).unwrap();
    assert_eq!(ps.len(), 0);
}

#[test]
fn empty_install_mapping_is_allowed() {
    let doc = Node::List(vec![project_node("alpha", vec![])]);
    let ps = parse_manifest(&doc).unwrap();
    assert_eq!(ps[0].install.len(), 0);
}

#[test]
fn rejects_non_sequence_document() {
    assert!(parse_manifest(&Node::Str("nope".to_string())).is_err());
    assert!(parse_manifest(&Node::Other).is_err());
}

#[test]
fn rejects_project_without_name_field() {
    let doc = Node::List(vec![Node::Dict(vec![entry("install", Node::Dict(vec![]))])]);
    assert!(parse_manifest(&doc).is_err());
}

#[test]
fn rejects_project_without_install_field() {
    let doc = Node::List(vec![Node::Dict(vec![entry(
        "project",
        Node::Str("alpha".to_string()),
    )])]);
    assert!(parse_manifest(&doc).is_err());
}

#[test]
fn rejects_non_string_install_value() {
    let doc = Node::List(vec![Node::Dict(vec![
        entry("project", Node::Str("alpha".to_string())),
        entry("install", Node::Dict(vec![entry("src", Node::Other)])),
    ])]);
    assert!(parse_manifest(&doc).is_err());
}

#[test]
fn rejects_non_dict_project_record() {
    let doc = Node::List(vec![Node::Str("alpha".to_string())]);
    assert!(parse_manifest(&doc).is_err());
}

#[test]
fn parse_error_message() {
    let e = parse_manifest(&Node::Other).unwrap_err();
    assert_eq!(e.message(), "failed to parse manifest");
}
