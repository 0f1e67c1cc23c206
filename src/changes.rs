//! Reporting the changed files of a working copy, group by group, to a
//! callback that may stop each group early.
use vstd::prelude::*;

verus! {

/// How a file differs from the revision the working copy is based on.
#[derive(Debug, PartialEq, Eq)]
pub enum FileChange {
    Modified { path: String },
    Renamed { from_path: String, to_path: String },
    Conflict { path: String },
    Deleted { path: String },
}

/// A path that the status of a working copy lists, with the path it was
/// copied from, if it was.
#[derive(Debug, PartialEq, Eq)]
pub struct StatusPath {
    pub path: String,
    pub copy_source: Option<String>,
}

/// The status of a working copy: the paths in each state.
#[derive(Debug, PartialEq, Eq)]
pub struct RepoStatus {
    pub modified: Vec<StatusPath>,
    pub added: Vec<StatusPath>,
    /// Paths whose state could not be settled, taken as conflicts.
    pub unsure: Vec<StatusPath>,
    pub removed: Vec<StatusPath>,
}

/// The groups of paths, reported in turn.
#[derive(Clone, Copy, Debug, PartialEq, Eq, Structural)]
pub enum Group {
    /// Modified and added paths.
    Present,
    /// Paths whose state could not be settled, taken as conflicts.
    Unsure,
    Removed,
}

/// The change reported for path `p` of group `g`. A modified or added path
/// that was copied is a rename.
pub open spec fn change_of(g: Group, p: StatusPath) -> FileChange {
    match g {
        Group::Present => match p.copy_source {
            Some(from) => FileChange::Renamed { from_path: from, to_path: p.path },
            None => FileChange::Modified { path: p.path },
        },
        Group::Unsure => FileChange::Conflict { path: p.path },
        Group::Removed => FileChange::Deleted { path: p.path },
    }
}

/// The changes of group `g` for the paths `ps`, in order.
pub open spec fn changes_of(g: Group, ps: Seq<StatusPath>) -> Seq<FileChange> {
    ps.map_values(|p: StatusPath| change_of(g, p))
}

/// The changes of a working copy, in the groups that are reported in turn:
/// modified and added paths, then unsure ones, then removed ones.
pub open spec fn change_groups(s: RepoStatus) -> Seq<Seq<FileChange>> {
    seq![
        changes_of(Group::Present, s.modified@ + s.added@),
        changes_of(Group::Unsure, s.unsure@),
        changes_of(Group::Removed, s.removed@),
    ]
}

/// `f` was handed the first `k` changes of `group`, in order: it answered
/// `true` to all but the last of them, and `false` to the last unless the
/// group was used up. A group with changes hands at least one.
pub open spec fn handed<F: Fn(FileChange) -> bool>(f: F, group: Seq<FileChange>, k: int) -> bool {
    &&& 0 <= k <= group.len()
    &&& group.len() > 0 ==> k >= 1
    &&& forall|i: int| 0 <= i < k - 1 ==> f.ensures((#[trigger] group[i],), true)
    &&& k < group.len() ==> f.ensures((group[k - 1],), false)
}

fn make_change(g: Group, p: &StatusPath) -> (c: FileChange)
    ensures
        c == change_of(g, *p),
{
    match g {
        Group::Present => match &p.copy_source {
            Some(from) => FileChange::Renamed { from_path: from.clone(), to_path: p.path.clone() },
            None => FileChange::Modified { path: p.path.clone() },
        },
        Group::Unsure => FileChange::Conflict { path: p.path.clone() },
        Group::Removed => FileChange::Deleted { path: p.path.clone() },
    }
}

/// Hands `f` the changes of group `g` for the paths of `first` and then
/// `second`, until it answers `false`; returns how many it was handed.
fn offer<F: Fn(FileChange) -> bool>(
    g: Group,
    first: &Vec<StatusPath>,
    second: &Vec<StatusPath>,
    f: &F,
) -> (k: usize)
    requires
        forall|c: FileChange| f.requires((c,)),
        first@.len() + second@.len() <= usize::MAX,
    ensures
        handed(*f, changes_of(g, first@ + second@), k as int),
{
    let ghost all = changes_of(g, first@ + second@);
    let n = first.len() + second.len();
    let mut i: usize = 0;
    while i < n
        invariant
            i <= n,
            n == first@.len() + second@.len(),
            all == changes_of(g, first@ + second@),
            all.len() == n,
            forall|c: FileChange| f.requires((c,)),
            forall|j: int| 0 <= j < i ==> f.ensures((#[trigger] all[j],), true),
        decreases n - i,
    {
        let p = if i < first.len() {
            &first[i]
        } else {
            &second[i - first.len()]
        };
        assert((first@ + second@)[i as int] == *p);
        let more = f(make_change(g, p));
        if !more {
            return i + 1;
        }
        i += 1;
    }
    i
}

/// Hands `f` the changes of a working copy, group by group (modified and
/// added paths, then unsure ones as conflicts, then removed ones as
/// deletions). Within a group it stops at the first change that `f` answers
/// `false` to, and goes on with the next group. Returns how many changes of
/// each group `f` was handed.
pub fn for_each_changed_file<F: Fn(FileChange) -> bool>(status: &RepoStatus, f: F) -> (r: Vec<usize>)
    requires
        forall|c: FileChange| f.requires((c,)),
        status.modified@.len() + status.added@.len() <= usize::MAX,
    ensures
        r@.len() == 3,
        forall|j: int| 0 <= j < 3 ==> handed(f, #[trigger] change_groups(*status)[j], r@[j] as int),
{
    let none: Vec<StatusPath> = Vec::new();
    assert(status.unsure@.len() == status.unsure.len());
    assert(status.removed@.len() == status.removed.len());
    let a = offer(Group::Present, &status.modified, &status.added, &f);
    let b = offer(Group::Unsure, &status.unsure, &none, &f);
    let c = offer(Group::Removed, &status.removed, &none, &f);
    assert(status.unsure@ + none@ =~= status.unsure@);
    assert(status.removed@ + none@ =~= status.removed@);
    let r = vec![a, b, c];
    assert(change_groups(*status)[0] == changes_of(Group::Present, status.modified@ + status.added@));
    assert(change_groups(*status)[1] == changes_of(Group::Unsure, status.unsure@));
    assert(change_groups(*status)[2] == changes_of(Group::Removed, status.removed@));
    r
}

} // verus!
