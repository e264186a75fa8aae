//! The recent-projects list: most recent first, one entry per path, capped.

use vstd::prelude::*;

verus! {

/// How many entries the recent-projects list keeps at most.
pub const RECENT_PROJECTS_CAP: usize = 10;

/// One remembered project: display name, full path, and the time it was last
/// touched, as an ISO timestamp string.
#[derive(Clone, Debug)]
pub struct RecentProject {
    pub name: String,
    pub path: String,
    pub last_modified: String,
}

/// Keeps the entries whose path differs from `entry_path`.
pub open spec fn keeps_other_paths(entry_path: Seq<char>) -> spec_fn(RecentProject) -> bool {
    |p: RecentProject| p.path@ != entry_path
}

/// The recent list after touching `entry`: any old entry with the same path
/// leaves, `entry` moves to the front, and only the first
/// `RECENT_PROJECTS_CAP` entries stay.
pub open spec fn spec_update_recent(
    projects: Seq<RecentProject>,
    entry: RecentProject,
) -> Seq<RecentProject> {
    let all = seq![entry] + projects.filter(keeps_other_paths(entry.path@));
    if all.len() > RECENT_PROJECTS_CAP as int {
        all.subrange(0, RECENT_PROJECTS_CAP as int)
    } else {
        all
    }
}

/// Records that `entry` was just touched: removes any old entry with the same
/// path, puts `entry` first, and truncates the list to its cap, keeping the
/// order of everything else.
pub fn update_recent_projects(projects: Vec<RecentProject>, entry: RecentProject) -> (r: Vec<
    RecentProject,
>)
    ensures
        r@ == spec_update_recent(projects@, entry),
{
    let mut rest = projects;
    let ghost orig = rest@;
    let ghost pred = keeps_other_paths(entry.path@);
    let epath = entry.path.clone();
    let mut out: Vec<RecentProject> = Vec::new();
    out.push(entry);
    let ghost mut done: int = 0;
    proof {
        assert(orig.subrange(0, 0) =~= Seq::<RecentProject>::empty());
        reveal(Seq::filter);
        assert(out@ =~= seq![entry] + orig.subrange(0, 0).filter(pred));
        assert(rest@ =~= orig.subrange(0, orig.len() as int));
    }
    while rest.len() > 0
        invariant
            0 <= done <= orig.len(),
            rest@ == orig.subrange(done, orig.len() as int),
            epath@ == entry.path@,
            pred == keeps_other_paths(entry.path@),
            out@ == seq![entry] + orig.subrange(0, done).filter(pred),
        decreases rest.len(),
    {
        let p = rest.remove(0);
        proof {
            assert(p == orig[done]);
            assert(rest@ =~= orig.subrange(done + 1, orig.len() as int));
            reveal(Seq::filter);
            assert(orig.subrange(0, done + 1).drop_last() =~= orig.subrange(0, done));
            assert(orig.subrange(0, done + 1).last() == orig[done]);
        }
        if !crate::text::str_eq(p.path.as_str(), epath.as_str()) {
            out.push(p);
        }
        proof {
            assert(out@ =~= seq![entry] + orig.subrange(0, done + 1).filter(pred));
            done = done + 1;
        }
    }
    proof {
        assert(orig.subrange(0, orig.len() as int) =~= orig);
    }
    if out.len() > RECENT_PROJECTS_CAP {
        out.truncate(RECENT_PROJECTS_CAP);
    }
    out
}

/// Law: the updated list never exceeds the cap, it is never empty, and its
/// first entry is the one just touched.
pub proof fn lemma_update_recent_shape(projects: Seq<RecentProject>, entry: RecentProject)
    ensures
        spec_update_recent(projects, entry).len() <= RECENT_PROJECTS_CAP as int,
        spec_update_recent(projects, entry).len() >= 1,
        spec_update_recent(projects, entry)[0] == entry,
{
}

} // verus!
