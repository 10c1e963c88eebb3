//! Path arithmetic on plain strings: joining a root with a relative path,
//! taking the directory part of a path, resolving a mapping's source path,
//! and the guard against running with the manifest in the working directory.

use vstd::prelude::*;

verus! {

/// The root joined with a relative path: `root/rel`, or `rel` alone when the
/// root is empty.
pub open spec fn join_spec(root: Seq<char>, rel: Seq<char>) -> Seq<char> {
    if root.len() == 0 {
        rel
    } else {
        root + seq!['/'] + rel
    }
}

/// A mapping's source path resolved against the source root: `"."` denotes
/// the source root itself, any other path is joined onto it.
pub open spec fn resolve_source_spec(root: Seq<char>, rel: Seq<char>) -> Seq<char> {
    if rel == seq!['.'] {
        root
    } else {
        join_spec(root, rel)
    }
}

/// Index of the last `/` in the path, or `-1` when it has none.
pub open spec fn last_slash(p: Seq<char>) -> int
    decreases p.len(),
{
    if p.len() == 0 {
        -1
    } else if p[p.len() - 1] == '/' {
        p.len() - 1
    } else {
        last_slash(p.drop_last())
    }
}

/// The directory part of a path: everything before the last `/`, or the empty
/// string for a bare file name.
pub open spec fn parent_spec(p: Seq<char>) -> Seq<char> {
    if last_slash(p) < 0 {
        Seq::empty()
    } else {
        p.subrange(0, last_slash(p))
    }
}

/// A path that names a file in the current working directory: its directory
/// part is empty or `"."`.
pub open spec fn names_cwd_file(p: Seq<char>) -> bool {
    parent_spec(p).len() == 0 || parent_spec(p) == seq!['.']
}

/// Join a root directory and a relative path with a `/` separator.
pub fn join_path(root: &str, rel: &str) -> (r: String)
    ensures
        r@ == join_spec(root@, rel@),
{
    if root.is_empty() {
        String::from_str(rel)
    } else {
        let mut s = String::from_str(root);
        s.append("/");
        s.append(rel);
        proof {
            reveal_strlit("/");
            assert(s@ =~= join_spec(root@, rel@));
        }
        s
    }
}

/// Is the string exactly `"."`?
fn is_dot(s: &str) -> (r: bool)
    ensures
        r == (s@ == seq!['.']),
{
    if s.unicode_len() == 1 {
        let c = s.get_char(0);
        proof {
            if c == '.' {
                assert(s@ =~= seq!['.']);
            }
        }
        c == '.'
    } else {
        false
    }
}

/// Resolve a mapping's source path against the source root: `"."` stands for
/// the source root itself.
pub fn resolve_source(source_root: &str, src_rel: &str) -> (r: String)
    ensures
        r@ == resolve_source_spec(source_root@, src_rel@),
{
    if is_dot(src_rel) {
        String::from_str(source_root)
    } else {
        join_path(source_root, src_rel)
    }
}

/// The directory part of a path: everything before the last `/`, or the empty
/// string when the path holds no `/`.
pub fn parent_of(path: &str) -> (r: String)
    ensures
        r@ == parent_spec(path@),
{
    let n = path.unicode_len();
    let mut i: usize = n;
    proof {
        assert(path@.subrange(0, n as int) =~= path@);
    }
    while i > 0
        invariant
            0 <= i <= n,
            n == path@.len(),
            last_slash(path@) == last_slash(path@.subrange(0, i as int)),
            forall|k: int| i <= k < n ==> path@[k] != '/',
        decreases i,
    {
        if path.get_char(i - 1) == '/' {
            proof {
                assert(path@.subrange(0, i as int)[i - 1] == path@[i - 1]);
                assert(last_slash(path@.subrange(0, i as int)) == i - 1);
            }
            let r = path.substring_char(0, i - 1);
            proof {
                assert(r@ =~= parent_spec(path@));
            }
            return String::from_str(r);
        }
        proof {
            let sub = path@.subrange(0, i as int);
            assert(sub[sub.len() - 1] == path@[i - 1]);
            assert(sub.drop_last() =~= path@.subrange(0, i - 1));
        }
        i -= 1;
    }
    proof {
        assert(path@.subrange(0, 0) =~= Seq::<char>::empty());
        assert(last_slash(path@) == -1);
    }
    String::new()
}

/// Refuse to run when the manifest lies in the current working directory and
/// no source directory was given: source and destination would be ambiguous.
pub fn ambiguity_guard(manifest_path: &str, has_source_dir: bool) -> (refuse: bool)
    ensures
        refuse == (!has_source_dir && names_cwd_file(manifest_path@)),
{
    if has_source_dir {
        return false;
    }
    let parent = parent_of(manifest_path);
    parent.as_str().is_empty() || is_dot(parent.as_str())
}

} // verus!
