//! The manifest schema: a document is a sequence of project records, each a
//! mapping with a `project` name and an `install` mapping from source-relative
//! to destination-relative paths. Validation stops at the required fields:
//! duplicate project names or empty mappings are not rejected.

use vstd::prelude::*;

verus! {

/// A structured document already freed of its concrete syntax: strings,
/// sequences and string-keyed mappings are kept, everything else collapses
/// into `Other`.
#[derive(Debug)]
pub enum Node {
    Str(String),
    List(Vec<Node>),
    Dict(Vec<DictEntry>),
    Other,
}

/// One key/value pair of a `Node::Dict`.
#[derive(Debug)]
pub struct DictEntry {
    pub key: String,
    pub value: Node,
}

/// One source-relative to destination-relative path pair of a project's
/// install mapping.
#[derive(Debug, Clone, PartialEq, Eq)]
pub struct PathPair {
    pub src: String,
    pub dst: String,
}

/// A named unit of the manifest owning one install mapping.
#[derive(Debug, Clone)]
pub struct Project {
    pub name: String,
    pub install: Vec<PathPair>,
}

/// The value under `key` in a dictionary's entries: the first entry whose key
/// matches, or `None`.
pub open spec fn lookup_spec(entries: Seq<DictEntry>, key: Seq<char>) -> Option<Node>
    decreases entries.len(),
{
    if entries.len() == 0 {
        None
    } else if entries[0].key@ == key {
        Some(entries[0].value)
    } else {
        lookup_spec(entries.drop_first(), key)
    }
}

/// A well-formed install mapping: every value is a string.
pub open spec fn install_wf(entries: Seq<DictEntry>) -> bool {
    forall|i: int| 0 <= i < entries.len() ==> entries[i].value is Str
}

/// The path pairs an install dictionary denotes, in entry order.
pub open spec fn install_pairs(entries: Seq<DictEntry>) -> Seq<(Seq<char>, Seq<char>)> {
    entries.map_values(|e: DictEntry| (e.key@, e.value->Str_0@))
}

/// A well-formed project record: a dictionary with a string under `project`
/// and a well-formed install mapping under `install`.
pub open spec fn project_wf(n: Node) -> bool {
    &&& n is Dict
    &&& lookup_spec(n->Dict_0@, "project"@) matches Some(v) && v is Str
    &&& lookup_spec(n->Dict_0@, "install"@) matches Some(v) && v is Dict
        && install_wf(v->Dict_0@)
}

/// The name a well-formed project record declares.
pub open spec fn project_name(n: Node) -> Seq<char>
    recommends
        project_wf(n),
{
    lookup_spec(n->Dict_0@, "project"@)->Some_0->Str_0@
}

/// The install pairs a well-formed project record declares.
pub open spec fn project_install(n: Node) -> Seq<(Seq<char>, Seq<char>)>
    recommends
        project_wf(n),
{
    install_pairs(lookup_spec(n->Dict_0@, "install"@)->Some_0->Dict_0@)
}

/// A well-formed manifest: a sequence of well-formed project records.
pub open spec fn manifest_wf(n: Node) -> bool {
    &&& n is List
    &&& forall|i: int| 0 <= i < n->List_0@.len() ==> project_wf(#[trigger] n->List_0@[i])
}

/// The view of a parsed project: its name and its install pairs.
pub open spec fn project_view(p: Project) -> (Seq<char>, Seq<(Seq<char>, Seq<char>)>) {
    (p.name@, p.install@.map_values(|q: PathPair| (q.src@, q.dst@)))
}

/// The manifest text was structurally malformed or missed a required field.
#[derive(Debug, Clone, PartialEq, Eq)]
pub struct ParseError {
}

impl ParseError {
    /// A human-readable description of the failure.
    pub fn message(&self) -> (r: String)
        ensures
            r@ == "failed to parse manifest"@,
    {
        String::from_str("failed to parse manifest")
    }
}

/// The value under `key`, by the same first-match rule as `lookup_spec`.
fn lookup<'a>(entries: &'a Vec<DictEntry>, key: &str) -> (r: Option<&'a Node>)
    ensures
        match r {
            Some(v) => lookup_spec(entries@, key@) == Some(*v),
            None => lookup_spec(entries@, key@) is None,
        },
{
    let n = entries.len();
    let mut i: usize = 0;
    proof {
        assert(entries@.skip(0) =~= entries@);
    }
    while i < n
        invariant
            0 <= i <= n,
            n == entries@.len(),
            lookup_spec(entries@, key@) == lookup_spec(entries@.skip(i as int), key@),
        decreases n - i,
    {
        proof {
            assert(entries@.skip(i as int)[0] == entries@[i as int]);
        }
        if str_eq(entries[i].key.as_str(), key) {
            return Some(&entries[i].value);
        }
        proof {
            assert(entries@.skip(i as int).drop_first() =~= entries@.skip(i + 1));
        }
        i += 1;
    }
    proof {
        assert(entries@.skip(i as int) =~= Seq::<DictEntry>::empty());
    }
    None
}

/// Character-for-character string equality.
fn str_eq(a: &str, b: &str) -> (r: bool)
    ensures
        r == (a@ == b@),
{
    let n = a.unicode_len();
    if n != b.unicode_len() {
        return false;
    }
    let mut i: usize = 0;
    while i < n
        invariant
            0 <= i <= n,
            n == a@.len() == b@.len(),
            forall|k: int| 0 <= k < i ==> a@[k] == b@[k],
        decreases n - i,
    {
        if a.get_char(i) != b.get_char(i) {
            return false;
        }
        i += 1;
    }
    proof {
        assert(a@ =~= b@);
    }
    true
}

/// Read one project record out of a manifest item, or report why it is not
/// well-formed.
#[verifier::loop_isolation(false)]
fn parse_project(n: &Node) -> (r: Result<Project, ParseError>)
    ensures
        match r {
            Ok(p) => project_wf(*n) && project_view(p) == (project_name(*n), project_install(*n)),
            Err(_) => !project_wf(*n),
        },
{
    let entries = match n {
        Node::Dict(entries) => entries,
        _ => {
            return Err(ParseError {});
        },
    };
    let name_node = match lookup(entries, "project") {
        Some(v) => v,
        None => {
            return Err(ParseError {});
        },
    };
    let name = match name_node {
        Node::Str(s) => s.clone(),
        _ => {
            return Err(ParseError {});
        },
    };
    let install_node = match lookup(entries, "install") {
        Some(v) => v,
        None => {
            return Err(ParseError {});
        },
    };
    let install_entries = match install_node {
        Node::Dict(es) => es,
        _ => {
            return Err(ParseError {});
        },
    };
    let m = install_entries.len();
    let mut install: Vec<PathPair> = Vec::new();
    let mut i: usize = 0;
    while i < m
        invariant
            0 <= i <= m,
            m == install_entries@.len(),
            forall|k: int| 0 <= k < i ==> (#[trigger] install_entries@[k]).value is Str,
            install@.len() == i,
            forall|k: int|
                0 <= k < i ==> (#[trigger] install@[k]).src@ == install_entries@[k].key@
                    && install@[k].dst@ == install_entries@[k].value->Str_0@,
        decreases m - i,
    {
        let e = &install_entries[i];
        match &e.value {
            Node::Str(s) => {
                install.push(PathPair { src: e.key.clone(), dst: s.clone() });
            },
            _ => {
                proof {
                    assert(install_entries@[i as int].value !is Str);
                    assert(!project_wf(*n)) by {
                        if project_wf(*n) {
                            let v = lookup_spec(n->Dict_0@, "install"@)->Some_0;
                            assert(v == *install_node);
                            assert(v->Dict_0@ == install_entries@);
                            assert(install_wf(install_entries@));
                            assert(install_entries@[i as int].value is Str);
                        }
                    }
                }
                return Err(ParseError {});
            },
        }
        i += 1;
    }
    let p = Project { name, install };
    proof {
        assert(project_view(p).1 =~= project_install(*n));
    }
    Ok(p)
}

/// Read the ordered list of project records out of a manifest document, or
/// fail when the document is not a well-formed manifest. No validation beyond
/// the schema is performed: duplicate names and empty mappings pass.
pub fn parse_manifest(n: &Node) -> (r: Result<Vec<Project>, ParseError>)
    ensures
        match r {
            Ok(ps) => {
                &&& manifest_wf(*n)
                &&& ps@.len() == n->List_0@.len()
                &&& forall|i: int|
                    0 <= i < ps@.len() ==> project_view(#[trigger] ps@[i]) == (
                    project_name(n->List_0@[i]),
                    project_install(n->List_0@[i]),
                    )
            },
            Err(_) => !manifest_wf(*n),
        },
{
    let items = match n {
        Node::List(items) => items,
        _ => {
            return Err(ParseError {});
        },
    };
    let k = items.len();
    let mut ps: Vec<Project> = Vec::new();
    let mut i: usize = 0;
    while i < k
        invariant
            0 <= i <= k,
            k == items@.len(),
            n is List && n->List_0@ == items@,
            ps@.len() == i,
            forall|j: int| 0 <= j < i ==> project_wf(#[trigger] items@[j]),
            forall|j: int|
                0 <= j < i ==> project_view(#[trigger] ps@[j]) == (
                project_name(items@[j]),
                project_install(items@[j]),
                ),
        decreases k - i,
    {
        match parse_project(&items[i]) {
            Ok(p) => {
                ps.push(p);
            },
            Err(e) => {
                return Err(e);
            },
        }
        i += 1;
    }
    Ok(ps)
}

} // verus!
