//! A mathematical model of the file system and of what a plan does to it.
//! Directories are a set of paths, files a map from path to bytes. The laws
//! here pin down the copy engine's semantics: a plan writes exactly its
//! targets and nothing else (merge, never wipe-and-replace), each planned
//! copy ends with the destination holding its source's bytes, and running
//! the same plan twice changes nothing after the first run.

use vstd::prelude::*;

use crate::paths::join_spec;
use crate::plan::ActModel;
use crate::plan::InfoModel;
use crate::plan::entry_plan_model;
use crate::plan::tree_act;

verus! {

/// A file system: which directories exist, and the bytes of each file.
pub struct FsModel {
    pub dirs: Set<Seq<char>>,
    pub files: Map<Seq<char>, Seq<u8>>,
}

/// The effect of one action: making a directory adds its path; copying a
/// file overwrites the destination with the source's bytes.
pub open spec fn apply_act(fs: FsModel, a: ActModel) -> FsModel {
    match a {
        ActModel::MkDir { path } => FsModel { dirs: fs.dirs.insert(path), files: fs.files },
        ActModel::PutFile { src, dst } => FsModel {
            dirs: fs.dirs,
            files: fs.files.insert(dst, fs.files[src]),
        },
    }
}

/// The effect of a plan, action by action, in order.
pub open spec fn apply_plan(fs: FsModel, plan: Seq<ActModel>) -> FsModel
    decreases plan.len(),
{
    if plan.len() == 0 {
        fs
    } else {
        apply_plan(apply_act(fs, plan[0]), plan.drop_first())
    }
}

/// Action `a` overwrites the file at `p`.
pub open spec fn act_writes_file(a: ActModel, p: Seq<char>) -> bool {
    a is PutFile && a->dst == p
}

/// Some action of the plan overwrites the file at `p`.
pub open spec fn plan_writes_file(plan: Seq<ActModel>, p: Seq<char>) -> bool {
    exists|i: int| 0 <= i < plan.len() && act_writes_file(#[trigger] plan[i], p)
}

/// Some action of the plan makes the directory `p`.
pub open spec fn plan_makes_dir(plan: Seq<ActModel>, p: Seq<char>) -> bool {
    exists|i: int| 0 <= i < plan.len() && (#[trigger] plan[i]) is MkDir && plan[i]->path == p
}

/// No action of the plan overwrites a file that the plan reads.
pub open spec fn plan_reads_protected(plan: Seq<ActModel>) -> bool {
    forall|k: int|
        0 <= k < plan.len() && (#[trigger] plan[k]) is PutFile ==> !plan_writes_file(
            plan,
            plan[k]->src,
        )
}

/// No two actions of the plan write the same file.
pub open spec fn plan_targets_distinct(plan: Seq<ActModel>) -> bool {
    forall|j: int, k: int|
        0 <= j < k < plan.len() && (#[trigger] plan[j]) is PutFile && (#[trigger] plan[k])
            is PutFile ==> plan[j]->dst != plan[k]->dst
}

/// A file the plan does not write is left exactly as it was: present if and
/// only if it was present, with the same bytes. This is the merge semantics:
/// pre-existing destination entries outside the plan's targets survive.
pub proof fn lemma_plan_frame(fs: FsModel, plan: Seq<ActModel>, p: Seq<char>)
    requires
        !plan_writes_file(plan, p),
    ensures
        apply_plan(fs, plan).files.contains_key(p) == fs.files.contains_key(p),
        apply_plan(fs, plan).files[p] == fs.files[p],
    decreases plan.len(),
{
    if plan.len() > 0 {
        assert(!act_writes_file(plan[0], p));
        if plan_writes_file(plan.drop_first(), p) {
            let i = choose|i: int|
                0 <= i < plan.drop_first().len() && act_writes_file(
                    #[trigger] plan.drop_first()[i],
                    p,
                );
            assert(plan.drop_first()[i] == plan[i + 1]);
            assert(act_writes_file(plan[i + 1], p));
            assert(false);
        }
        lemma_plan_frame(apply_act(fs, plan[0]), plan.drop_first(), p);
    }
}

/// A directory exists after a plan if and only if it existed before or the
/// plan makes it: directories only accumulate.
pub proof fn lemma_plan_dirs(fs: FsModel, plan: Seq<ActModel>, p: Seq<char>)
    ensures
        apply_plan(fs, plan).dirs.contains(p) == (fs.dirs.contains(p) || plan_makes_dir(plan, p)),
    decreases plan.len(),
{
    if plan.len() > 0 {
        lemma_plan_dirs(apply_act(fs, plan[0]), plan.drop_first(), p);
        if plan_makes_dir(plan.drop_first(), p) {
            let i = choose|i: int|
                0 <= i < plan.drop_first().len() && (#[trigger] plan.drop_first()[i]) is MkDir
                    && plan.drop_first()[i]->path == p;
            assert(plan.drop_first()[i] == plan[i + 1]);
            assert(plan[i + 1] is MkDir && plan[i + 1]->path == p);
        }
        if plan_makes_dir(plan, p) {
            let i = choose|i: int|
                0 <= i < plan.len() && (#[trigger] plan[i]) is MkDir && plan[i]->path == p;
            if i > 0 {
                assert(plan.drop_first()[i - 1] == plan[i]);
                assert(plan_makes_dir(plan.drop_first(), p));
            }
        }
    }
}

/// Dropping a plan's first action keeps its reads protected and its targets
/// distinct.
proof fn lemma_protections_drop_first(plan: Seq<ActModel>)
    requires
        plan.len() > 0,
        plan_reads_protected(plan),
        plan_targets_distinct(plan),
    ensures
        plan_reads_protected(plan.drop_first()),
        plan_targets_distinct(plan.drop_first()),
{
    let rest = plan.drop_first();
    assert forall|k: int| 0 <= k < rest.len() && (#[trigger] rest[k]) is PutFile implies
        !plan_writes_file(rest, rest[k]->src) by {
        assert(rest[k] == plan[k + 1]);
        if plan_writes_file(rest, rest[k]->src) {
            let i = choose|i: int|
                0 <= i < rest.len() && act_writes_file(#[trigger] rest[i], rest[k]->src);
            assert(rest[i] == plan[i + 1]);
            assert(act_writes_file(plan[i + 1], plan[k + 1]->src));
            assert(plan_writes_file(plan, plan[k + 1]->src));
        }
    }
    assert forall|j: int, k: int|
        0 <= j < k < rest.len() && (#[trigger] rest[j]) is PutFile && (#[trigger] rest[k])
            is PutFile implies rest[j]->dst != rest[k]->dst by {
        assert(rest[j] == plan[j + 1]);
        assert(rest[k] == plan[k + 1]);
    }
}

/// Each planned copy ends with its destination present and holding exactly
/// the bytes its source held before the plan ran, provided nothing the plan
/// writes is also read and no two copies share a target.
pub proof fn lemma_plan_copies(fs: FsModel, plan: Seq<ActModel>, i: int)
    requires
        plan_reads_protected(plan),
        plan_targets_distinct(plan),
        0 <= i < plan.len(),
        plan[i] is PutFile,
    ensures
        apply_plan(fs, plan).files.contains_key(plan[i]->dst),
        apply_plan(fs, plan).files[plan[i]->dst] == fs.files[plan[i]->src],
    decreases plan.len(),
{
    let fs1 = apply_act(fs, plan[0]);
    let rest = plan.drop_first();
    lemma_protections_drop_first(plan);
    if i == 0 {
        if plan_writes_file(rest, plan[0]->dst) {
            let j = choose|j: int|
                0 <= j < rest.len() && act_writes_file(#[trigger] rest[j], plan[0]->dst);
            assert(rest[j] == plan[j + 1]);
        }
        lemma_plan_frame(fs1, rest, plan[0]->dst);
    } else {
        assert(rest[i - 1] == plan[i]);
        lemma_plan_copies(fs1, rest, i - 1);
        assert(!plan_writes_file(plan, plan[i]->src));
        assert(!act_writes_file(plan[0], plan[i]->src));
    }
}

/// Running a plan a second time changes nothing: every file and directory is
/// exactly as it was after the first run.
pub proof fn lemma_plan_idempotent(fs: FsModel, plan: Seq<ActModel>)
    requires
        plan_reads_protected(plan),
        plan_targets_distinct(plan),
    ensures
        apply_plan(apply_plan(fs, plan), plan).files == apply_plan(fs, plan).files,
        apply_plan(apply_plan(fs, plan), plan).dirs == apply_plan(fs, plan).dirs,
{
    let fs1 = apply_plan(fs, plan);
    let fs2 = apply_plan(fs1, plan);
    assert forall|p: Seq<char>| #[trigger] fs2.dirs.contains(p) == fs1.dirs.contains(p) by {
        lemma_plan_dirs(fs, plan, p);
        lemma_plan_dirs(fs1, plan, p);
    }
    assert(fs2.dirs =~= fs1.dirs);
    assert forall|p: Seq<char>|
        #[trigger] fs2.files.contains_key(p) == fs1.files.contains_key(p) && fs2.files[p]
            == fs1.files[p] by {
        if plan_writes_file(plan, p) {
            let i = choose|i: int| 0 <= i < plan.len() && act_writes_file(#[trigger] plan[i], p);
            lemma_plan_copies(fs, plan, i);
            lemma_plan_copies(fs1, plan, i);
            assert(!plan_writes_file(plan, plan[i]->src));
            lemma_plan_frame(fs, plan, plan[i]->src);
        } else {
            lemma_plan_frame(fs, plan, p);
            lemma_plan_frame(fs1, plan, p);
        }
    }
    assert(fs2.files =~= fs1.files);
}

/// Joining distinct relative paths onto one root gives distinct paths.
pub proof fn lemma_join_injective(root: Seq<char>, a: Seq<char>, b: Seq<char>)
    requires
        join_spec(root, a) == join_spec(root, b),
    ensures
        a == b,
{
    if root.len() == 0 {
    } else {
        let fa = root + seq!['/'] + a;
        let fb = root + seq!['/'] + b;
        assert(fa.len() == root.len() + 1 + a.len());
        assert(fb.len() == root.len() + 1 + b.len());
        assert(a =~= fa.subrange(root.len() as int + 1, fa.len() as int));
        assert(b =~= fb.subrange(root.len() as int + 1, fb.len() as int));
    }
}

/// The entries of a tree listing name distinct relative paths.
pub open spec fn entries_distinct(entries: Seq<(Seq<char>, bool)>) -> bool {
    forall|j: int, k: int|
        0 <= j < k < entries.len() ==> (#[trigger] entries[j]).0 != (#[trigger] entries[k]).0
}

/// No destination path of a tree copy coincides with one of its source
/// paths: the copy reads and writes disjoint places.
pub open spec fn tree_roots_disjoint(
    src: Seq<char>,
    dst: Seq<char>,
    entries: Seq<(Seq<char>, bool)>,
) -> bool {
    forall|j: int, k: int|
        0 <= j < entries.len() && 0 <= k < entries.len() ==> join_spec(
            dst,
            (#[trigger] entries[j]).0,
        ) != join_spec(src, (#[trigger] entries[k]).0)
}

/// The plan of a directory copy with distinct entries and disjoint roots
/// never overwrites what it reads and never writes one file twice.
pub proof fn lemma_tree_plan_protected(
    src: Seq<char>,
    dst: Seq<char>,
    entries: Seq<(Seq<char>, bool)>,
)
    requires
        entries_distinct(entries),
        tree_roots_disjoint(src, dst, entries),
    ensures
        plan_reads_protected(entry_plan_model(src, dst, InfoModel::Tree { entries })),
        plan_targets_distinct(entry_plan_model(src, dst, InfoModel::Tree { entries })),
{
    let plan = entry_plan_model(src, dst, InfoModel::Tree { entries });
    assert(plan.len() == 2 + entries.len());
    assert(forall|i: int| 2 <= i < plan.len() ==> #[trigger] plan[i] == tree_act(
        src,
        dst,
        entries[i - 2],
    ));
    assert forall|k: int| 0 <= k < plan.len() && (#[trigger] plan[k]) is PutFile implies
        !plan_writes_file(plan, plan[k]->src) by {
        assert(k >= 2);
        assert(!entries[k - 2].1);
        if plan_writes_file(plan, plan[k]->src) {
            let j = choose|j: int|
                0 <= j < plan.len() && act_writes_file(#[trigger] plan[j], plan[k]->src);
            assert(j >= 2);
            assert(!entries[j - 2].1);
            assert(join_spec(dst, entries[j - 2].0) == join_spec(src, entries[k - 2].0));
        }
    }
    assert forall|j: int, k: int|
        0 <= j < k < plan.len() && (#[trigger] plan[j]) is PutFile && (#[trigger] plan[k])
            is PutFile implies plan[j]->dst != plan[k]->dst by {
        assert(j >= 2 && k >= 2);
        if plan[j]->dst == plan[k]->dst {
            lemma_join_injective(dst, entries[j - 2].0, entries[k - 2].0);
        }
    }
}

/// A directory copy puts every file of the source tree at its mirrored
/// destination path, byte for byte, when entries are distinct and the
/// destination stays clear of the source.
pub proof fn lemma_tree_copy_correct(
    fs: FsModel,
    src: Seq<char>,
    dst: Seq<char>,
    entries: Seq<(Seq<char>, bool)>,
    i: int,
)
    requires
        entries_distinct(entries),
        tree_roots_disjoint(src, dst, entries),
        0 <= i < entries.len(),
        !entries[i].1,
    ensures
        apply_plan(fs, entry_plan_model(src, dst, InfoModel::Tree { entries })).files.contains_key(
            join_spec(dst, entries[i].0),
        ),
        apply_plan(fs, entry_plan_model(src, dst, InfoModel::Tree { entries })).files[join_spec(
            dst,
            entries[i].0,
        )] == fs.files[join_spec(src, entries[i].0)],
{
    let plan = entry_plan_model(src, dst, InfoModel::Tree { entries });
    lemma_tree_plan_protected(src, dst, entries);
    assert(plan[i + 2] == tree_act(src, dst, entries[i]));
    lemma_plan_copies(fs, plan, i + 2);
}

/// A pre-existing destination file outside the tree's mirrored paths
/// survives a directory copy unchanged: entries are merged, nothing is wiped.
pub proof fn lemma_tree_copy_preserves(
    fs: FsModel,
    src: Seq<char>,
    dst: Seq<char>,
    entries: Seq<(Seq<char>, bool)>,
    p: Seq<char>,
)
    requires
        forall|k: int| 0 <= k < entries.len() ==> p != join_spec(dst, (#[trigger] entries[k]).0),
    ensures
        apply_plan(fs, entry_plan_model(src, dst, InfoModel::Tree { entries })).files.contains_key(
            p,
        ) == fs.files.contains_key(p),
        apply_plan(fs, entry_plan_model(src, dst, InfoModel::Tree { entries })).files[p]
            == fs.files[p],
{
    let plan = entry_plan_model(src, dst, InfoModel::Tree { entries });
    assert(plan.len() == 2 + entries.len());
    assert(forall|j: int| 2 <= j < plan.len() ==> #[trigger] plan[j] == tree_act(
        src,
        dst,
        entries[j - 2],
    ));
    if plan_writes_file(plan, p) {
        let j = choose|j: int| 0 <= j < plan.len() && act_writes_file(#[trigger] plan[j], p);
        assert(j >= 2);
        assert(p == join_spec(dst, entries[j - 2].0));
    }
    lemma_plan_frame(fs, plan, p);
}

/// Running the same directory copy twice leaves every file and directory
/// exactly as after the first run, for an unchanged source.
pub proof fn lemma_tree_copy_idempotent(
    fs: FsModel,
    src: Seq<char>,
    dst: Seq<char>,
    entries: Seq<(Seq<char>, bool)>,
)
    requires
        entries_distinct(entries),
        tree_roots_disjoint(src, dst, entries),
    ensures
        apply_plan(
            apply_plan(fs, entry_plan_model(src, dst, InfoModel::Tree { entries })),
            entry_plan_model(src, dst, InfoModel::Tree { entries }),
        ).files == apply_plan(fs, entry_plan_model(src, dst, InfoModel::Tree { entries })).files,
        apply_plan(
            apply_plan(fs, entry_plan_model(src, dst, InfoModel::Tree { entries })),
            entry_plan_model(src, dst, InfoModel::Tree { entries }),
        ).dirs == apply_plan(fs, entry_plan_model(src, dst, InfoModel::Tree { entries })).dirs,
{
    lemma_tree_plan_protected(src, dst, entries);
    lemma_plan_idempotent(fs, entry_plan_model(src, dst, InfoModel::Tree { entries }));
}

} // verus!
