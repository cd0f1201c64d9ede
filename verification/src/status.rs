//! The git status aggregator: turns raw per-file change data into
//! `GitFileStatus` summaries whose line counts are derived strictly from the
//! line-level diff, and materializes a single path's `GitFileDiff` only on
//! demand.

use vstd::prelude::*;
use crate::json::str_eq;
use crate::types::{GitFileDiff, GitFileStatus};

verus! {

/// Raw change data for one path, as reported by the process collaborator:
/// the unified diff body split into lines, plus the binary flag.
pub struct RawFileChange {
    pub path: String,
    pub status: String,
    pub binary: bool,
    pub diff_lines: Vec<String>,
}

/// A diff line that adds content: starts with '+' but is not a "+++" header.
pub open spec fn is_added_line(l: Seq<char>) -> bool {
    &&& l.len() > 0
    &&& l[0] == '+'
    &&& !(l.len() >= 3 && l[1] == '+' && l[2] == '+')
}

/// A diff line that removes content: starts with '-' but is not a "---"
/// header.
pub open spec fn is_deleted_line(l: Seq<char>) -> bool {
    &&& l.len() > 0
    &&& l[0] == '-'
    &&& !(l.len() >= 3 && l[1] == '-' && l[2] == '-')
}

pub open spec fn count_added(ls: Seq<String>) -> int
    decreases ls.len(),
{
    if ls.len() == 0 {
        0
    } else {
        count_added(ls.drop_last()) + if is_added_line(ls.last()@) {
            1int
        } else {
            0int
        }
    }
}

pub open spec fn count_deleted(ls: Seq<String>) -> int
    decreases ls.len(),
{
    if ls.len() == 0 {
        0
    } else {
        count_deleted(ls.drop_last()) + if is_deleted_line(ls.last()@) {
            1int
        } else {
            0int
        }
    }
}

pub proof fn lemma_counts_bounded(ls: Seq<String>)
    ensures
        0 <= count_added(ls) <= ls.len(),
        0 <= count_deleted(ls) <= ls.len(),
    decreases ls.len(),
{
    if ls.len() > 0 {
        lemma_counts_bounded(ls.drop_last());
    }
}

/// Whether `l` is an adding diff line.
fn added_line(l: &str) -> (r: bool)
    ensures
        r == is_added_line(l@),
{
    let n = l.unicode_len();
    if n == 0 {
        return false;
    }
    if l.get_char(0) != '+' {
        return false;
    }
    if n >= 3 && l.get_char(1) == '+' && l.get_char(2) == '+' {
        return false;
    }
    true
}

/// Whether `l` is a removing diff line.
fn deleted_line(l: &str) -> (r: bool)
    ensures
        r == is_deleted_line(l@),
{
    let n = l.unicode_len();
    if n == 0 {
        return false;
    }
    if l.get_char(0) != '-' {
        return false;
    }
    if n >= 3 && l.get_char(1) == '-' && l.get_char(2) == '-' {
        return false;
    }
    true
}

/// Counts the added and deleted lines of one diff body.
pub fn count_diff_lines(lines: &Vec<String>) -> (r: (usize, usize))
    ensures
        r.0 == count_added(lines@),
        r.1 == count_deleted(lines@),
{
    let n = lines.len();
    let mut added: usize = 0;
    let mut deleted: usize = 0;
    let mut i: usize = 0;
    while i < n
        invariant
            i <= n,
            n == lines@.len(),
            added == count_added(lines@.take(i as int)),
            deleted == count_deleted(lines@.take(i as int)),
            added <= i,
            deleted <= i,
        decreases n - i,
    {
        proof {
            assert(lines@.take(i as int + 1).drop_last() =~= lines@.take(i as int));
            assert(lines@.take(i as int + 1).last() == lines@[i as int]);
        }
        if added_line(lines[i].as_str()) {
            added = added + 1;
        }
        if deleted_line(lines[i].as_str()) {
            deleted = deleted + 1;
        }
        i = i + 1;
    }
    proof {
        assert(lines@.take(n as int) =~= lines@);
    }
    (added, deleted)
}

/// `r` summarizes the change `c`: path and status pass through; a binary
/// file reports zero counts; a text file's counts come from its diff lines.
pub open spec fn file_status_of(c: RawFileChange, r: GitFileStatus) -> bool {
    &&& r.path@ == c.path@
    &&& r.status@ == c.status@
    &&& if c.binary {
        r.additions == 0 && r.deletions == 0
    } else {
        r.additions == count_added(c.diff_lines@) && r.deletions == count_deleted(c.diff_lines@)
    }
}

/// Summarizes every changed path. Diff text is not materialized here; only
/// the line counts are derived, strictly from the line-level diff.
pub fn summarize_changes(changes: &Vec<RawFileChange>) -> (r: Vec<GitFileStatus>)
    requires
        forall|i: int| 0 <= i < changes@.len() ==> (#[trigger] changes@[i]).diff_lines@.len()
            <= i64::MAX,
    ensures
        r@.len() == changes@.len(),
        forall|i: int| 0 <= i < r@.len() ==> file_status_of(changes@[i], #[trigger] r@[i]),
{
    let n = changes.len();
    let mut out: Vec<GitFileStatus> = Vec::new();
    let mut i: usize = 0;
    while i < n
        invariant
            i <= n,
            n == changes@.len(),
            out@.len() == i,
            forall|j: int| 0 <= j < i ==> file_status_of(changes@[j], #[trigger] out@[j]),
            forall|j: int| 0 <= j < changes@.len() ==> (#[trigger] changes@[j]).diff_lines@.len()
                <= i64::MAX,
        decreases n - i,
    {
        let c = &changes[i];
        let (additions, deletions) = if c.binary {
            (0i64, 0i64)
        } else {
            proof {
                lemma_counts_bounded(c.diff_lines@);
            }
            let (a, d) = count_diff_lines(&c.diff_lines);
            (a as i64, d as i64)
        };
        out.push(GitFileStatus {
            path: c.path.clone(),
            status: c.status.clone(),
            additions,
            deletions,
        });
        i = i + 1;
    }
    out
}

/// All diff lines joined by newlines, the unified diff body for one path.
pub open spec fn joined(ls: Seq<String>) -> Seq<char>
    decreases ls.len(),
{
    if ls.len() == 0 {
        Seq::empty()
    } else if ls.len() == 1 {
        ls[0]@
    } else {
        joined(ls.drop_last()) + "\n"@ + ls.last()@
    }
}

/// Renders one diff body from its lines.
pub fn render_diff(lines: &Vec<String>) -> (r: String)
    ensures
        r@ == joined(lines@),
{
    let n = lines.len();
    let mut out = String::new();
    let mut i: usize = 0;
    while i < n
        invariant
            i <= n,
            n == lines@.len(),
            out@ == joined(lines@.take(i as int)),
        decreases n - i,
    {
        proof {
            assert(lines@.take(i as int + 1).drop_last() =~= lines@.take(i as int));
            assert(lines@.take(i as int + 1).last() == lines@[i as int]);
        }
        if i > 0 {
            out.append("\n");
        }
        out.append(lines[i].as_str());
        i = i + 1;
    }
    proof {
        assert(lines@.take(n as int) =~= lines@);
    }
    out
}

/// The on-demand diff for a single path: the aggregator never materializes
/// diffs for all files in one call. `None` when the path is unchanged.
pub fn diff_for_path(changes: &Vec<RawFileChange>, path: &str) -> (r: Option<GitFileDiff>)
    ensures
        match r {
            Some(d) => exists|i: int|
                0 <= i < changes@.len() && (#[trigger] changes@[i]).path@ == path@ && d.path@
                    == path@ && d.diff@ == joined(changes@[i].diff_lines@),
            None => forall|i: int| 0 <= i < changes@.len() ==> (#[trigger] changes@[i]).path@
                != path@,
        },
{
    let n = changes.len();
    let mut i: usize = 0;
    while i < n
        invariant
            i <= n,
            n == changes@.len(),
            forall|j: int| 0 <= j < i ==> (#[trigger] changes@[j]).path@ != path@,
        decreases n - i,
    {
        if str_eq(changes[i].path.as_str(), path) {
            let d = GitFileDiff {
                path: changes[i].path.clone(),
                diff: render_diff(&changes[i].diff_lines),
            };
            proof {
                assert((changes@[i as int]).path@ == path@);
            }
            return Some(d);
        }
        i = i + 1;
    }
    None
}

} // verus!
