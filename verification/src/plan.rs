//! Copy planning. A mapping entry, together with what the file system
//! reported about its resolved source (missing, a file, or a directory tree),
//! turns into a sequence of actions: make a directory, or copy one file.
//! Directory copies are planned entry by entry, so a pre-existing destination
//! is merged with the source, never wiped.

use vstd::prelude::*;

use crate::manifest::PathPair;
use crate::paths::join_spec;
use crate::paths::parent_spec;
use crate::paths::resolve_source_spec;
use crate::paths::join_path;
use crate::paths::parent_of;
use crate::paths::resolve_source;

verus! {

/// One planned file-system action.
#[derive(Debug, PartialEq, Eq, Clone)]
pub enum CopyAction {
    /// Create the directory and its missing parents; leave it as it is when
    /// it already exists.
    EnsureDir { path: String },
    /// Copy one regular file, overwriting a file already at the destination.
    CopyFile { src: String, dst: String },
}

/// One entry of a source directory's tree, by its path relative to the tree's
/// root.
#[derive(Debug, PartialEq, Eq, Clone)]
pub struct TreeEntry {
    pub rel: String,
    pub is_dir: bool,
}

/// What the file system reported about a resolved source path.
#[derive(Debug, PartialEq, Eq, Clone)]
pub enum SourceInfo {
    /// The path does not exist.
    Missing,
    /// The path is a regular file.
    File,
    /// The path is a directory holding these entries, listed recursively.
    Tree { entries: Vec<TreeEntry> },
}

/// A mapping entry whose source path does not exist.
#[derive(Debug, PartialEq, Eq, Clone)]
pub struct CopyError {
    pub source: String,
}

impl CopyError {
    /// A human-readable description of the failure.
    pub fn message(&self) -> (r: String)
        ensures
            r@ == "source path does not exist: "@ + self.source@,
    {
        let mut s = String::from_str("source path does not exist: ");
        s.append(self.source.as_str());
        s
    }
}

/// The mathematical form of one action, over plain character sequences.
pub enum ActModel {
    MkDir { path: Seq<char> },
    PutFile { src: Seq<char>, dst: Seq<char> },
}

/// The mathematical form of a source report.
pub enum InfoModel {
    Missing,
    File,
    Tree { entries: Seq<(Seq<char>, bool)> },
}

/// The mathematical form of an executable action.
pub open spec fn act_view(a: CopyAction) -> ActModel {
    match a {
        CopyAction::EnsureDir { path } => ActModel::MkDir { path: path@ },
        CopyAction::CopyFile { src, dst } => ActModel::PutFile { src: src@, dst: dst@ },
    }
}

/// The mathematical form of an executable source report.
pub open spec fn info_view(i: SourceInfo) -> InfoModel {
    match i {
        SourceInfo::Missing => InfoModel::Missing,
        SourceInfo::File => InfoModel::File,
        SourceInfo::Tree { entries } => InfoModel::Tree {
            entries: entries@.map_values(|e: TreeEntry| (e.rel@, e.is_dir)),
        },
    }
}

/// The view of a plan: each action in its mathematical form.
pub open spec fn plan_view(acts: Seq<CopyAction>) -> Seq<ActModel> {
    acts.map_values(|a: CopyAction| act_view(a))
}

/// The action planned for one entry of a source tree: mirror a subdirectory,
/// or copy one file to its mirrored path.
pub open spec fn tree_act(src: Seq<char>, dst: Seq<char>, e: (Seq<char>, bool)) -> ActModel {
    if e.1 {
        ActModel::MkDir { path: join_spec(dst, e.0) }
    } else {
        ActModel::PutFile { src: join_spec(src, e.0), dst: join_spec(dst, e.0) }
    }
}

/// The plan for one mapping entry: first the destination's parent directory,
/// then, for a file, the one copy; for a directory, the destination directory
/// itself and each tree entry at its mirrored path.
pub open spec fn entry_plan_model(src: Seq<char>, dst: Seq<char>, info: InfoModel) -> Seq<
    ActModel,
>
    recommends
        info !is Missing,
{
    match info {
        InfoModel::Missing => Seq::empty(),
        InfoModel::File => seq![
            ActModel::MkDir { path: parent_spec(dst) },
            ActModel::PutFile { src: src, dst: dst },
        ],
        InfoModel::Tree { entries } => seq![
            ActModel::MkDir { path: parent_spec(dst) },
            ActModel::MkDir { path: dst },
        ] + entries.map_values(|e: (Seq<char>, bool)| tree_act(src, dst, e)),
    }
}

/// The plan for a whole project: the plans of its mapping entries, in order.
pub open spec fn project_plan_model(
    sroot: Seq<char>,
    droot: Seq<char>,
    pairs: Seq<(Seq<char>, Seq<char>)>,
    infos: Seq<InfoModel>,
) -> Seq<ActModel>
    recommends
        pairs.len() == infos.len(),
    decreases pairs.len(),
{
    if pairs.len() == 0 {
        Seq::empty()
    } else {
        entry_plan_model(
            resolve_source_spec(sroot, pairs[0].0),
            join_spec(droot, pairs[0].1),
            infos[0],
        ) + project_plan_model(sroot, droot, pairs.drop_first(), infos.drop_first())
    }
}

/// The views of a project's path pairs.
pub open spec fn pairs_view(ps: Seq<PathPair>) -> Seq<(Seq<char>, Seq<char>)> {
    ps.map_values(|p: PathPair| (p.src@, p.dst@))
}

/// The views of a project's source reports.
pub open spec fn infos_view(is: Seq<SourceInfo>) -> Seq<InfoModel> {
    is.map_values(|i: SourceInfo| info_view(i))
}

/// The position of the first missing source, or the length when every source
/// exists.
pub open spec fn first_missing(ms: Seq<InfoModel>) -> int
    decreases ms.len(),
{
    if ms.len() == 0 {
        0
    } else if ms[0] is Missing {
        0
    } else {
        1 + first_missing(ms.drop_first())
    }
}

/// `first_missing` names the first missing source: everything before it
/// exists, and it is missing itself unless every source exists.
pub proof fn lemma_first_missing_is(ms: Seq<InfoModel>, i: int)
    requires
        0 <= i <= ms.len(),
        forall|j: int| 0 <= j < i ==> ms[j] !is Missing,
        i < ms.len() ==> ms[i] is Missing,
    ensures
        first_missing(ms) == i,
    decreases i,
{
    if i == 0 {
    } else {
        assert(ms[0] !is Missing);
        assert(forall|j: int| 0 <= j < i - 1 ==> ms.drop_first()[j] == ms[j + 1]);
        lemma_first_missing_is(ms.drop_first(), i - 1);
    }
}

/// Plan one mapping entry. The source path is resolved against the source
/// root (`"."` standing for the root itself), the destination against the
/// destination root; a missing source fails the entry.
#[verifier::loop_isolation(false)]
pub fn plan_entry(source_root: &str, dest_root: &str, pair: &PathPair, info: &SourceInfo) -> (r:
    Result<Vec<CopyAction>, CopyError>)
    ensures
        match r {
            Ok(acts) => *info !is Missing && plan_view(acts@) == entry_plan_model(
                resolve_source_spec(source_root@, pair.src@),
                join_spec(dest_root@, pair.dst@),
                info_view(*info),
            ),
            Err(e) => *info is Missing && e.source@ == resolve_source_spec(
                source_root@,
                pair.src@,
            ),
        },
{
    let src_abs = resolve_source(source_root, pair.src.as_str());
    let dst_abs = join_path(dest_root, pair.dst.as_str());
    match info {
        SourceInfo::Missing => Err(CopyError { source: src_abs }),
        SourceInfo::File => {
            let mut acts: Vec<CopyAction> = Vec::new();
            acts.push(CopyAction::EnsureDir { path: parent_of(dst_abs.as_str()) });
            acts.push(CopyAction::CopyFile { src: src_abs, dst: dst_abs });
            proof {
                assert(plan_view(acts@) =~= entry_plan_model(
                    resolve_source_spec(source_root@, pair.src@),
                    join_spec(dest_root@, pair.dst@),
                    info_view(*info),
                ));
            }
            Ok(acts)
        },
        SourceInfo::Tree { entries } => {
            let ghost srcv = resolve_source_spec(source_root@, pair.src@);
            let ghost dstv = join_spec(dest_root@, pair.dst@);
            let ghost entv = entries@.map_values(|e: TreeEntry| (e.rel@, e.is_dir));
            let mut acts: Vec<CopyAction> = Vec::new();
            acts.push(CopyAction::EnsureDir { path: parent_of(dst_abs.as_str()) });
            acts.push(CopyAction::EnsureDir { path: dst_abs.clone() });
            let n = entries.len();
            let mut i: usize = 0;
            while i < n
                invariant
                    0 <= i <= n,
                    n == entries@.len(),
                    acts@.len() == i + 2,
                    act_view(acts@[0]) == (ActModel::MkDir { path: parent_spec(dstv) }),
                    act_view(acts@[1]) == (ActModel::MkDir { path: dstv }),
                    forall|k: int|
                        2 <= k < i + 2 ==> act_view(#[trigger] acts@[k]) == tree_act(
                            srcv,
                            dstv,
                            entv[k - 2],
                        ),
                decreases n - i,
            {
                let e = &entries[i];
                if e.is_dir {
                    acts.push(
                        CopyAction::EnsureDir { path: join_path(dst_abs.as_str(), e.rel.as_str()) },
                    );
                } else {
                    acts.push(
                        CopyAction::CopyFile {
                            src: join_path(src_abs.as_str(), e.rel.as_str()),
                            dst: join_path(dst_abs.as_str(), e.rel.as_str()),
                        },
                    );
                }
                i += 1;
            }
            proof {
                assert(plan_view(acts@) =~= entry_plan_model(srcv, dstv, info_view(*info)));
            }
            Ok(acts)
        },
    }
}

/// Plan a whole project's mapping. Entries are planned in order; the first
/// entry whose source is missing fails the project, and the entries after it
/// are not attempted.
#[verifier::loop_isolation(false)]
pub fn plan_project(
    source_root: &str,
    dest_root: &str,
    install: &Vec<PathPair>,
    infos: &Vec<SourceInfo>,
) -> (r: Result<Vec<CopyAction>, CopyError>)
    requires
        install@.len() == infos@.len(),
    ensures
        match r {
            Ok(acts) => {
                &&& first_missing(infos_view(infos@)) == infos@.len()
                &&& plan_view(acts@) == project_plan_model(
                    source_root@,
                    dest_root@,
                    pairs_view(install@),
                    infos_view(infos@),
                )
            },
            Err(e) => {
                &&& first_missing(infos_view(infos@)) < infos@.len()
                &&& e.source@ == resolve_source_spec(
                    source_root@,
                    install@[first_missing(infos_view(infos@))].src@,
                )
            },
        },
{
    let n = install.len();
    let mut acts: Vec<CopyAction> = Vec::new();
    let mut i: usize = 0;
    while i < n
        invariant
            0 <= i <= n,
            n == install@.len() == infos@.len(),
            forall|j: int| 0 <= j < i ==> infos_view(infos@)[j] !is Missing,
            plan_view(acts@) == project_plan_model(
                source_root@,
                dest_root@,
                pairs_view(install@).take(i as int),
                infos_view(infos@).take(i as int),
            ),
        decreases n - i,
    {
        match plan_entry(source_root, dest_root, &install[i], &infos[i]) {
            Ok(mut part) => {
                let ghost old_acts = acts@;
                let ghost partv = part@;
                acts.append(&mut part);
                proof {
                    assert(plan_view(old_acts + partv) =~= plan_view(old_acts) + plan_view(partv));
                    lemma_project_plan_snoc(
                        source_root@,
                        dest_root@,
                        pairs_view(install@),
                        infos_view(infos@),
                        i as int,
                    );
                }
            },
            Err(e) => {
                proof {
                    lemma_first_missing_is(infos_view(infos@), i as int);
                }
                return Err(e);
            },
        }
        i += 1;
    }
    proof {
        lemma_first_missing_is(infos_view(infos@), n as int);
        assert(pairs_view(install@).take(n as int) =~= pairs_view(install@));
        assert(infos_view(infos@).take(n as int) =~= infos_view(infos@));
    }
    Ok(acts)
}

/// Extending a project's mapping by one entry appends that entry's plan.
proof fn lemma_project_plan_snoc(
    sroot: Seq<char>,
    droot: Seq<char>,
    pairs: Seq<(Seq<char>, Seq<char>)>,
    infos: Seq<InfoModel>,
    i: int,
)
    requires
        pairs.len() == infos.len(),
        0 <= i < pairs.len(),
    ensures
        project_plan_model(sroot, droot, pairs.take(i + 1), infos.take(i + 1))
            == project_plan_model(sroot, droot, pairs.take(i), infos.take(i)) + entry_plan_model(
            resolve_source_spec(sroot, pairs[i].0),
            join_spec(droot, pairs[i].1),
            infos[i],
        ),
    decreases i,
{
    if i == 0 {
        assert(pairs.take(1).drop_first() =~= pairs.take(0));
        assert(infos.take(1).drop_first() =~= infos.take(0));
        assert(project_plan_model(sroot, droot, pairs.take(0), infos.take(0))
            =~= Seq::<ActModel>::empty());
        assert(project_plan_model(sroot, droot, pairs.take(1), infos.take(1))
            =~= entry_plan_model(
            resolve_source_spec(sroot, pairs[0].0),
            join_spec(droot, pairs[0].1),
            infos[0],
        ));
    } else {
        lemma_project_plan_snoc(sroot, droot, pairs.drop_first(), infos.drop_first(), i - 1);
        assert(pairs.take(i + 1).drop_first() =~= pairs.drop_first().take(i));
        assert(infos.take(i + 1).drop_first() =~= infos.drop_first().take(i));
        assert(pairs.take(i).drop_first() =~= pairs.drop_first().take(i - 1));
        assert(infos.take(i).drop_first() =~= infos.drop_first().take(i - 1));
        assert(pairs.drop_first()[i - 1] == pairs[i]);
        assert(infos.drop_first()[i - 1] == infos[i]);
    }
}

} // verus!
