//! Which projects a run attempts, and how the run's outcome is judged: a run
//! succeeds exactly when at least one project was processed successfully.

use vstd::prelude::*;

use crate::manifest::Project;
use crate::text::contains_substr;
use crate::text::is_substring_of;

verus! {

/// The fatal failures of a run. A per-entry copy failure is not here: it
/// fails its own project and the run goes on with the next one.
#[derive(Debug, PartialEq, Eq, Clone, Copy)]
pub enum RunError {
    /// The manifest file could not be read.
    ManifestRead,
    /// The manifest text is not a well-formed manifest.
    ManifestParse,
    /// The manifest lies in the working directory and no source directory
    /// was given.
    AmbiguousSource,
    /// No project was processed successfully.
    NoProjectProcessed,
}

/// The description of each fatal failure.
pub open spec fn run_error_text(e: RunError) -> Seq<char> {
    match e {
        RunError::ManifestRead => "failed to read manifest"@,
        RunError::ManifestParse => "failed to parse manifest"@,
        RunError::AmbiguousSource => "manifest is in the current directory and no source directory was given"@,
        RunError::NoProjectProcessed => "no project processed"@,
    }
}

impl RunError {
    /// A human-readable description of the failure.
    pub fn message(&self) -> (r: String)
        ensures
            r@ == run_error_text(*self),
    {
        match self {
            RunError::ManifestRead => String::from_str("failed to read manifest"),
            RunError::ManifestParse => String::from_str("failed to parse manifest"),
            RunError::AmbiguousSource => String::from_str(
                "manifest is in the current directory and no source directory was given",
            ),
            RunError::NoProjectProcessed => String::from_str("no project processed"),
        }
    }
}

/// A project is attempted when no filter is given, or when the filter occurs
/// in its name (case-sensitive containment).
pub open spec fn project_selected(name: Seq<char>, filter: Option<Seq<char>>) -> bool {
    match filter {
        Option::None => true,
        Option::Some(f) => is_substring_of(f, name),
    }
}

/// The names of a project list.
pub open spec fn names_view(ps: Seq<Project>) -> Seq<Seq<char>> {
    ps.map_values(|p: Project| p.name@)
}

/// The filter's view.
pub open spec fn filter_view(f: Option<String>) -> Option<Seq<char>> {
    match f {
        Option::None => Option::None,
        Option::Some(s) => Option::Some(s@),
    }
}

/// The positions of the projects a filter selects, in order.
pub open spec fn selected_indices(names: Seq<Seq<char>>, filter: Option<Seq<char>>) -> Seq<int>
    decreases names.len(),
{
    if names.len() == 0 {
        Seq::empty()
    } else {
        selected_indices(names.drop_last(), filter) + if project_selected(names.last(), filter) {
            seq![names.len() - 1]
        } else {
            Seq::empty()
        }
    }
}

/// How many names the filter selects.
pub open spec fn count_matching(names: Seq<Seq<char>>, filter: Option<Seq<char>>) -> int
    decreases names.len(),
{
    if names.len() == 0 {
        0
    } else {
        count_matching(names.drop_last(), filter) + if project_selected(names.last(), filter) {
            1int
        } else {
            0int
        }
    }
}

/// Of a manifest's projects, exactly as many are attempted as the filter
/// matches: the selection holds one position per matching name.
pub proof fn lemma_selection_count(names: Seq<Seq<char>>, filter: Option<Seq<char>>)
    ensures
        selected_indices(names, filter).len() == count_matching(names, filter),
    decreases names.len(),
{
    if names.len() > 0 {
        lemma_selection_count(names.drop_last(), filter);
    }
}

/// The selection is exact: it lists positions of the list, in strictly
/// increasing order, it holds every position whose name the filter selects,
/// and no other. So exactly the matching projects are attempted, each once,
/// and the rest are skipped.
pub proof fn lemma_selection_exact(names: Seq<Seq<char>>, filter: Option<Seq<char>>)
    ensures
        forall|j: int|
            0 <= j < selected_indices(names, filter).len() ==> {
                let i = #[trigger] selected_indices(names, filter)[j];
                0 <= i < names.len() && project_selected(names[i], filter)
            },
        forall|j: int, k: int|
            0 <= j < k < selected_indices(names, filter).len()
                ==> #[trigger] selected_indices(names, filter)[j]
                < #[trigger] selected_indices(names, filter)[k],
        forall|i: int|
            0 <= i < names.len() && project_selected(#[trigger] names[i], filter)
                ==> selected_indices(names, filter).contains(i),
    decreases names.len(),
{
    if names.len() > 0 {
        lemma_selection_exact(names.drop_last(), filter);
        let sel = selected_indices(names, filter);
        let sub = selected_indices(names.drop_last(), filter);
        assert(forall|i: int| 0 <= i < names.len() - 1 ==> #[trigger] names.drop_last()[i]
            == names[i]);
        assert forall|i: int|
            0 <= i < names.len() && project_selected(#[trigger] names[i], filter) implies
            sel.contains(i) by {
            if i < names.len() - 1 {
                assert(names.drop_last()[i] == names[i]);
                assert(project_selected(names.drop_last()[i], filter));
                assert(sub.contains(i));
                let j = choose|j: int| 0 <= j < sub.len() && sub[j] == i;
                assert(sel[j] == i);
            } else {
                assert(sel[sel.len() - 1] == i);
            }
        }
    }
}

/// A filter that selects no project selects nothing: no project is attempted
/// and no copy is planned or performed.
pub proof fn lemma_no_match_nothing_selected(names: Seq<Seq<char>>, filter: Option<Seq<char>>)
    requires
        forall|i: int| 0 <= i < names.len() ==> !project_selected(#[trigger] names[i], filter),
    ensures
        selected_indices(names, filter) == Seq::<int>::empty(),
    decreases names.len(),
{
    if names.len() > 0 {
        assert(forall|i: int| 0 <= i < names.len() - 1 ==> #[trigger] names.drop_last()[i]
            == names[i]);
        lemma_no_match_nothing_selected(names.drop_last(), filter);
        assert(!project_selected(names[names.len() - 1], filter));
        assert(selected_indices(names, filter) =~= Seq::<int>::empty());
    }
}

/// The positions of the projects the run attempts: those without a filter,
/// with one, those whose name contains it.
#[verifier::loop_isolation(false)]
pub fn select_projects(projects: &Vec<Project>, filter: &Option<String>) -> (r: Vec<usize>)
    ensures
        r@.map_values(|u: usize| u as int) == selected_indices(
            names_view(projects@),
            filter_view(*filter),
        ),
{
    let ghost names = names_view(projects@);
    let ghost fv = filter_view(*filter);
    let n = projects.len();
    let mut r: Vec<usize> = Vec::new();
    let mut i: usize = 0;
    proof {
        assert(names.take(0) =~= Seq::<Seq<char>>::empty());
        assert(r@.map_values(|u: usize| u as int) =~= selected_indices(names.take(0), fv));
    }
    while i < n
        invariant
            0 <= i <= n,
            n == projects@.len(),
            r@.map_values(|u: usize| u as int) == selected_indices(names.take(i as int), fv),
        decreases n - i,
    {
        let selected = match filter {
            Option::None => true,
            Option::Some(f) => contains_substr(projects[i].name.as_str(), f.as_str()),
        };
        proof {
            assert(names.take(i + 1).drop_last() =~= names.take(i as int));
            assert(names.take(i + 1).last() == names[i as int]);
            assert(names[i as int] == projects@[i as int].name@);
        }
        if selected {
            r.push(i);
            proof {
                assert(r@.map_values(|u: usize| u as int) =~= selected_indices(
                    names.take(i + 1),
                    fv,
                ));
            }
        } else {
            proof {
                assert(selected_indices(names.take(i + 1), fv) =~= selected_indices(
                    names.take(i as int),
                    fv,
                ));
            }
        }
        i += 1;
    }
    proof {
        assert(names.take(n as int) =~= names);
    }
    r
}

/// Judge a run from its projects' outcomes: success exactly when at least
/// one project was processed successfully, the "no project processed"
/// failure otherwise. A run that attempted no project at all fails the same
/// way.
#[verifier::loop_isolation(false)]
pub fn run_verdict(outcomes: &Vec<bool>) -> (r: Result<(), RunError>)
    ensures
        r is Ok <==> exists|i: int| 0 <= i < outcomes@.len() && outcomes@[i],
        r matches Err(e) ==> e == RunError::NoProjectProcessed,
{
    let n = outcomes.len();
    let mut i: usize = 0;
    while i < n
        invariant
            0 <= i <= n,
            n == outcomes@.len(),
            forall|j: int| 0 <= j < i ==> !outcomes@[j],
        decreases n - i,
    {
        if outcomes[i] {
            return Ok(());
        }
        i += 1;
    }
    Err(RunError::NoProjectProcessed)
}

} // verus!
