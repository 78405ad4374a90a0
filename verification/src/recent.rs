//! The recent-projects list: most recently accessed first, at most ten kept.

use vstd::prelude::*;
use crate::strutil::{lemma_str_le_refl, lemma_str_le_total, lemma_str_le_trans, spec_str_le, str_eq, str_le};

verus! {

/// One remembered project, with its last access as an ISO timestamp, so that
/// the chronological order is the lexicographic order of the timestamps.
#[derive(Clone, PartialEq, Eq, Debug)]
pub struct RecentProject {
    pub path: String,
    pub name: String,
    pub last_accessed: String,
}

/// The stored recent-projects list, together with the application version
/// that last wrote it.
#[derive(Clone, PartialEq, Eq, Debug)]
pub struct RecentProjectsData {
    pub app_version: String,
    pub recent_projects: Vec<RecentProject>,
}

/// How many recent projects are kept.
pub const MAX_RECENT_PROJECTS: usize = 10;

/// Most recently accessed first: descending by timestamp.
pub open spec fn spec_sorted_desc(projects: Seq<RecentProject>) -> bool {
    forall|i: int, j: int|
        0 <= i < j < projects.len() ==> spec_str_le(
            (#[trigger] projects[j]).last_accessed@,
            (#[trigger] projects[i]).last_accessed@,
        )
}

/// Whether some entry already has this path.
pub open spec fn has_path(projects: Seq<RecentProject>, path: Seq<char>) -> bool {
    exists|i: int| 0 <= i < projects.len() && (#[trigger] projects[i]).path@ == path
}

/// Index of the first entry with this path (meaningful only under
/// `has_path`).
pub open spec fn first_path_match(projects: Seq<RecentProject>, path: Seq<char>) -> int
    decreases projects.len(),
{
    if projects.len() == 0 {
        0
    } else if projects[0].path@ == path {
        0
    } else {
        1 + first_path_match(projects.drop_first(), path)
    }
}

/// `first_path_match` returns the unique position with this path and no
/// earlier match.
proof fn lemma_first_path_match_is(projects: Seq<RecentProject>, path: Seq<char>, i: int)
    requires
        0 <= i < projects.len(),
        projects[i].path@ == path,
        forall|j: int| 0 <= j < i ==> (#[trigger] projects[j]).path@ != path,
    ensures
        has_path(projects, path),
        first_path_match(projects, path) == i,
    decreases projects.len(),
{
    if i == 0 {
    } else {
        assert(projects[0].path@ != path);
        let rest = projects.drop_first();
        assert(forall|j: int| 0 <= j < i - 1 ==> (#[trigger] rest[j]) == projects[j + 1]);
        lemma_first_path_match_is(rest, path, i - 1);
    }
}

/// The list after recording one project access: the first entry with the
/// same path gets the new name and timestamp (its stored path stays), or the
/// project is appended when no entry matches.
pub open spec fn spec_merged(projects: Seq<RecentProject>, new_project: RecentProject) -> Seq<
    RecentProject,
> {
    if has_path(projects, new_project.path@) {
        let i = first_path_match(projects, new_project.path@);
        projects.update(
            i,
            RecentProject {
                path: projects[i].path,
                name: new_project.name,
                last_accessed: new_project.last_accessed,
            },
        )
    } else {
        projects.push(new_project)
    }
}

/// Records one project access in the stored data and stamps the application
/// version.
pub fn merge_recent(data: &mut RecentProjectsData, new_project: RecentProject, app_version: String)
    ensures
        final(data).app_version == app_version,
        final(data).recent_projects@ == spec_merged(old(data).recent_projects@, new_project),
{
    data.app_version = app_version;
    let n = data.recent_projects.len();
    let mut i: usize = 0;
    while i < n
        invariant
            i <= n,
            n == data.recent_projects@.len(),
            forall|j: int|
                0 <= j < i ==> (#[trigger] data.recent_projects@[j]).path@ != new_project.path@,
            data.app_version == app_version,
            data.recent_projects == old(data).recent_projects,
        decreases n - i,
    {
        if str_eq(data.recent_projects[i].path.as_str(), new_project.path.as_str()) {
            proof {
                lemma_first_path_match_is(data.recent_projects@, new_project.path@, i as int);
            }
            let kept_path = data.recent_projects[i].path.clone();
            let updated = RecentProject {
                path: kept_path,
                name: new_project.name.clone(),
                last_accessed: new_project.last_accessed.clone(),
            };
            data.recent_projects.set(i, updated);
            return ;
        }
        i += 1;
    }
    data.recent_projects.push(new_project);
}

/// Sorts most recently accessed first. Entries are only rearranged: the
/// result holds exactly the given entries.
pub fn sort_recent_desc(v: Vec<RecentProject>) -> (r: Vec<RecentProject>)
    ensures
        r@.to_multiset() == v@.to_multiset(),
        spec_sorted_desc(r@),
        r@.len() == v@.len(),
{
    broadcast use vstd::seq_lib::group_to_multiset_ensures;
    broadcast use vstd::multiset::group_multiset_axioms;

    let mut input = v;
    let mut out: Vec<RecentProject> = Vec::new();
    proof {
        assert(out@.to_multiset().add(input@.to_multiset()) =~= v@.to_multiset());
    }
    while input.len() > 0
        invariant
            out@.to_multiset().add(input@.to_multiset()) == v@.to_multiset(),
            out@.len() + input@.len() == v@.len(),
            spec_sorted_desc(out@),
            forall|a: int, b: int|
                0 <= a < out@.len() && 0 <= b < input@.len() ==> spec_str_le(
                    (#[trigger] input@[b]).last_accessed@,
                    (#[trigger] out@[a]).last_accessed@,
                ),
        decreases input@.len(),
    {
        let mut m: usize = 0;
        let mut j: usize = 1;
        proof {
            lemma_str_le_refl(input@[0].last_accessed@);
        }
        while j < input.len()
            invariant
                m < j <= input@.len(),
                forall|t: int|
                    0 <= t < j ==> spec_str_le(
                        (#[trigger] input@[t]).last_accessed@,
                        input@[m as int].last_accessed@,
                    ),
            decreases input@.len() - j,
        {
            if !str_le(input[j].last_accessed.as_str(), input[m].last_accessed.as_str()) {
                proof {
                    lemma_str_le_total(input@[j as int].last_accessed@,
                        input@[m as int].last_accessed@);
                    assert forall|t: int| 0 <= t < j implies spec_str_le(
                        (#[trigger] input@[t]).last_accessed@,
                        input@[j as int].last_accessed@,
                    ) by {
                        lemma_str_le_trans(input@[t].last_accessed@, input@[m as int].last_accessed@,
                            input@[j as int].last_accessed@);
                    }
                    lemma_str_le_refl(input@[j as int].last_accessed@);
                }
                m = j;
            }
            j += 1;
        }
        let ghost input_before = input@;
        let ghost out_before = out@;
        let picked = input.remove(m);
        out.push(picked);
        proof {
            assert(picked == input_before[m as int]);
            assert(input@ =~= input_before.remove(m as int));
            vstd::seq_lib::to_multiset_remove::<RecentProject>(input_before, m as int);
            assert(input@.to_multiset() == input_before.to_multiset().remove(picked));
            vstd::seq_lib::to_multiset_build::<RecentProject>(out_before, picked);
            assert(input_before.contains(picked));
            vstd::seq_lib::to_multiset_contains::<RecentProject>(input_before, picked);
            assert(input_before.to_multiset().count(picked) > 0);
            assert(out@.to_multiset().add(input@.to_multiset()) =~= v@.to_multiset());
            assert(forall|b: int|
                0 <= b < input@.len() ==> (#[trigger] input@[b]) == input_before[b]
                    || input@[b] == input_before[b + 1]);
        }
    }
    out
}

/// Keeps the sorted prefix that fits the limit.
fn truncate_recent(v: &mut Vec<RecentProject>)
    ensures
        final(v)@ == old(v)@.subrange(0, vstd::math::min(MAX_RECENT_PROJECTS as int,
            old(v)@.len() as int)),
{
    proof {
        if old(v)@.len() <= MAX_RECENT_PROJECTS {
            assert(old(v)@.subrange(0, old(v)@.len() as int) =~= old(v)@);
        }
    }
    v.truncate(MAX_RECENT_PROJECTS);
}

/// Sorts most recently accessed first and keeps at most the limit: the
/// result is the leading slice of a descending rearrangement of the input.
pub fn normalize_recent(projects: Vec<RecentProject>) -> (r: Vec<RecentProject>)
    ensures
        spec_sorted_desc(r@),
        r@.len() == vstd::math::min(MAX_RECENT_PROJECTS as int, projects@.len() as int),
        exists|full: Seq<RecentProject>|
            #![auto]
            full.to_multiset() == projects@.to_multiset() && spec_sorted_desc(full) && r@
                == full.subrange(0, r@.len() as int),
{
    let mut sorted = sort_recent_desc(projects);
    let ghost full = sorted@;
    truncate_recent(&mut sorted);
    proof {
        assert(spec_sorted_desc(sorted@));
        assert(full.to_multiset() == projects@.to_multiset() && spec_sorted_desc(full) && sorted@
            == full.subrange(0, sorted@.len() as int));
    }
    sorted
}

/// Records one project access and returns the stored data as it is written
/// back: version stamped, the entry merged in, most recent first, at most
/// the limit kept.
pub fn add_recent_project(
    data: RecentProjectsData,
    new_project: RecentProject,
    app_version: String,
) -> (r: RecentProjectsData)
    ensures
        r.app_version == app_version,
        spec_sorted_desc(r.recent_projects@),
        r.recent_projects@.len() == vstd::math::min(
            MAX_RECENT_PROJECTS as int,
            spec_merged(data.recent_projects@, new_project).len() as int,
        ),
        exists|full: Seq<RecentProject>|
            #![auto]
            full.to_multiset() == spec_merged(data.recent_projects@, new_project).to_multiset()
                && spec_sorted_desc(full) && r.recent_projects@ == full.subrange(
                0,
                r.recent_projects@.len() as int,
            ),
{
    let mut data = data;
    merge_recent(&mut data, new_project, app_version);
    let RecentProjectsData { app_version: version, recent_projects } = data;
    let normalized = normalize_recent(recent_projects);
    RecentProjectsData { app_version: version, recent_projects: normalized }
}

} // verus!
