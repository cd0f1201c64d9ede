//! The git history reconciler: merges a local commit log with the
//! upstream-relative ahead/behind commit sets into one `GitLogResponse`,
//! capping the entry lists while reporting the true uncapped counts, and
//! failing whole — never partially — when the underlying git query failed.

use vstd::prelude::*;
use vstd::multiset::group_multiset_axioms;
use vstd::seq_lib::{to_multiset_build, to_multiset_contains, to_multiset_len, to_multiset_remove};
use crate::types::{BranchInfo, CoreError, GitLogEntry, GitLogResponse};

verus! {

/// A branch paired with its source position, the tie breaker that keeps the
/// switcher's ordering stable.
pub struct RankedBranch {
    pub arrival: u64,
    pub branch: BranchInfo,
}

/// Switcher order: most recent commit first; ties keep source order.
pub open spec fn branch_le(a: RankedBranch, b: RankedBranch) -> bool {
    if a.branch.last_commit != b.branch.last_commit {
        a.branch.last_commit > b.branch.last_commit
    } else {
        a.arrival <= b.arrival
    }
}

fn ranked_branch_le(a: &RankedBranch, b: &RankedBranch) -> (r: bool)
    ensures
        r == branch_le(*a, *b),
{
    if a.branch.last_commit != b.branch.last_commit {
        a.branch.last_commit > b.branch.last_commit
    } else {
        a.arrival <= b.arrival
    }
}

/// Orders branches for the switcher, most recent commit first, ties kept in
/// source order. The result is a permutation of the input.
pub fn order_branches(branches: Vec<BranchInfo>) -> (r: Vec<BranchInfo>)
    ensures
        r@.len() == branches@.len(),
        forall|a: int, b: int| 0 <= a < b < r@.len() ==> r@[a].last_commit >= r@[b].last_commit,
        forall|i: int| 0 <= i < r@.len() ==> #[trigger] branches@.contains(r@[i]),
        forall|j: int| 0 <= j < branches@.len() ==> #[trigger] r@.contains(branches@[j]),
{
    let ghost input = branches@;
    let n = branches.len();
    let mut v: Vec<RankedBranch> = Vec::new();
    let mut branches = branches;
    let mut i: usize = 0;
    proof {
        assert(input.skip(0) =~= input);
    }
    while branches.len() > 0
        invariant
            i as int + branches@.len() == n as int,
            n == input.len(),
            branches@ == input.skip(i as int),
            v@.len() == i,
            forall|j: int| 0 <= j < i ==> (#[trigger] v@[j]).branch == input[j] && v@[j].arrival
                == j,
        decreases branches@.len(),
    {
        proof {
            assert(input.skip(i as int)[0] == input[i as int]);
            assert(input.skip(i as int).drop_first() =~= input.skip(i as int + 1));
        }
        let b = branches.remove(0);
        v.push(RankedBranch { arrival: i as u64, branch: b });
        i = i + 1;
    }
    let ghost v0 = v@;
    let sorted = sort_ranked_branches(v);
    let m = sorted.len();
    let mut out: Vec<BranchInfo> = Vec::new();
    let mut k: usize = 0;
    proof {
        broadcast use to_multiset_contains, to_multiset_len;

        assert forall|a: int| 0 <= a < sorted@.len() implies input.contains(
            (#[trigger] sorted@[a]).branch,
        ) by {
            assert(sorted@.contains(sorted@[a]));
            assert(v0.to_multiset().count(sorted@[a]) > 0);
            assert(v0.contains(sorted@[a]));
            let j = choose|j: int| 0 <= j < v0.len() && v0[j] == sorted@[a];
            assert(input[j] == sorted@[a].branch);
        }
    }
    while k < m
        invariant
            k <= m,
            m == sorted@.len(),
            out@.len() == k,
            forall|a: int| 0 <= a < m ==> input.contains((#[trigger] sorted@[a]).branch),
            forall|a: int, b: int| 0 <= a < b < m ==> branch_le(sorted@[a], sorted@[b]),
            forall|a: int| 0 <= a < k ==> #[trigger] out@[a] == sorted@[a].branch,
        decreases m - k,
    {
        let e = &sorted[k].branch;
        out.push(BranchInfo { name: e.name.clone(), last_commit: e.last_commit });
        k = k + 1;
    }
    proof {
        broadcast use to_multiset_contains, to_multiset_len;

        assert(out@.len() == input.len()) by {
            assert(sorted@.to_multiset().len() == v0.to_multiset().len());
        }
        assert forall|j: int| 0 <= j < input.len() implies #[trigger] out@.contains(
            input[j],
        ) by {
            assert(v0[j].branch == input[j]);
            assert(v0.contains(v0[j]));
            assert(sorted@.to_multiset().count(v0[j]) > 0);
            assert(sorted@.contains(v0[j]));
            let i2 = choose|i2: int| 0 <= i2 < sorted@.len() && sorted@[i2] == v0[j];
            assert(out@[i2] == input[j]);
        }
        assert forall|i2: int| 0 <= i2 < out@.len() implies #[trigger] input.contains(
            out@[i2],
        ) by {
            assert(input.contains(sorted@[i2].branch));
        }
        assert forall|a: int, b: int|
            0 <= a < b < out@.len() implies out@[a].last_commit >= out@[b].last_commit by {
            assert(branch_le(sorted@[a], sorted@[b]));
            assert(out@[a] == sorted@[a].branch && out@[b] == sorted@[b].branch);
        }
    }
    out
}

/// Selection sort on branch keys: the result is an ordered permutation.
fn sort_ranked_branches(input: Vec<RankedBranch>) -> (r: Vec<RankedBranch>)
    ensures
        r@.to_multiset() == input@.to_multiset(),
        forall|a: int, b: int| 0 <= a < b < r@.len() ==> branch_le(r@[a], r@[b]),
{
    let mut v = input;
    let mut out: Vec<RankedBranch> = Vec::new();
    proof {
        broadcast use group_multiset_axioms, to_multiset_build, to_multiset_remove, to_multiset_contains, to_multiset_len;

        assert(out@.to_multiset().add(v@.to_multiset()) =~= input@.to_multiset());
    }
    while v.len() > 0
        invariant
            out@.to_multiset().add(v@.to_multiset()) == input@.to_multiset(),
            forall|a: int, b: int| 0 <= a < b < out@.len() ==> branch_le(out@[a], out@[b]),
            forall|a: int, j: int|
                0 <= a < out@.len() && 0 <= j < v@.len() ==> branch_le(out@[a], v@[j]),
        decreases v@.len(),
    {
        let n = v.len();
        let mut m: usize = 0;
        let mut i: usize = 1;
        while i < n
            invariant
                n == v@.len(),
                m < i <= n,
                forall|j: int| 0 <= j < i ==> branch_le(v@[m as int], v@[j]),
            decreases n - i,
        {
            if !ranked_branch_le(&v[m], &v[i]) {
                proof {
                    assert(branch_le(v@[i as int], v@[m as int]));
                    assert forall|j: int| 0 <= j < i + 1 implies branch_le(v@[i as int], v@[j]) by {
                        assert(branch_le(v@[m as int], v@[j]) || j == i);
                    }
                }
                m = i;
            }
            i = i + 1;
        }
        let ghost v0 = v@;
        let ghost out0 = out@;
        let x = v.remove(m);
        out.push(x);
        proof {
            broadcast use group_multiset_axioms, to_multiset_build, to_multiset_remove, to_multiset_contains, to_multiset_len;

            assert(v@ == v0.remove(m as int));
            assert(out@ == out0.push(x));
            assert(v0.contains(x));
            assert(v0.to_multiset().count(x) > 0);
            assert(out@.to_multiset() =~= out0.to_multiset().insert(x));
            assert(v@.to_multiset() =~= v0.to_multiset().remove(x));
            assert(out@.to_multiset().add(v@.to_multiset()) =~= out0.to_multiset().add(
                v0.to_multiset(),
            ));
            assert forall|a: int, j: int|
                0 <= a < out@.len() && 0 <= j < v@.len() implies branch_le(out@[a], v@[j]) by {
                assert(v@[j] == v0[j] || v@[j] == v0[j + 1]);
                if a < out0.len() {
                    assert(branch_le(out0[a], v0[j]) || branch_le(out0[a], v0[j + 1]));
                } else {
                    assert(out@[a] == x);
                    assert(branch_le(x, v0[j]) && branch_le(x, v0[j + 1]));
                }
            }
            assert forall|a: int, b: int|
                0 <= a < b < out@.len() implies branch_le(out@[a], out@[b]) by {
                if b < out0.len() {
                    assert(branch_le(out0[a], out0[b]));
                } else {
                    assert(out@[b] == x);
                    assert(branch_le(out0[a], v0[m as int]));
                }
            }
        }
    }
    out
}

/// The structured outcome of the process collaborator's git query for one
/// workspace: local log entries (newest first), the total count in the
/// queried range, the tracking branch if configured, and the full ahead and
/// behind commit lists relative to it.
pub struct GitQueryData {
    pub total: usize,
    pub entries: Vec<GitLogEntry>,
    pub upstream: Option<String>,
    pub ahead_all: Vec<GitLogEntry>,
    pub behind_all: Vec<GitLogEntry>,
}

/// The first `cap` elements, or all of them when fewer.
pub open spec fn capped(full: Seq<GitLogEntry>, cap: int) -> Seq<GitLogEntry> {
    if full.len() <= cap {
        full
    } else {
        full.take(cap)
    }
}

/// `resp` is the reconciled response for the query data `d` under `cap`:
/// the local log is passed through untouched (source-reported order, never
/// re-sorted), the counts are the true uncapped list lengths, and each entry
/// list is independently capped. No upstream short-circuits both sides to
/// zero.
pub open spec fn log_response_of(d: GitQueryData, cap: int, resp: GitLogResponse) -> bool {
    &&& resp.total == d.total
    &&& resp.entries@ == d.entries@
    &&& match d.upstream {
        None => {
            &&& resp.upstream is None
            &&& resp.ahead == 0
            &&& resp.behind == 0
            &&& resp.ahead_entries@.len() == 0
            &&& resp.behind_entries@.len() == 0
        },
        Some(u) => {
            &&& resp.upstream matches Some(u2) && u2@ == u@
            &&& resp.ahead == d.ahead_all@.len()
            &&& resp.behind == d.behind_all@.len()
            &&& resp.ahead_entries@ == capped(d.ahead_all@, cap)
            &&& resp.behind_entries@ == capped(d.behind_all@, cap)
        },
    }
}

/// Truncates a list to at most `cap` entries, keeping the leading ones.
fn cap_entries(v: Vec<GitLogEntry>, cap: usize) -> (r: Vec<GitLogEntry>)
    ensures
        r@ == capped(v@, cap as int),
{
    let ghost orig = v@;
    let mut w = v;
    if w.len() > cap {
        w.truncate(cap);
        proof {
            assert(w@ =~= capped(orig, cap as int));
        }
    }
    w
}

/// Reconciles one workspace's git query outcome. A failed query fails the
/// whole response with `GitQueryFailed` carrying the workspace id and the
/// cause — ahead/behind counts are meaningless without a consistent log.
pub fn reconcile_log(workspace_id: &str, raw: Result<GitQueryData, String>, cap: usize) -> (r:
    Result<GitLogResponse, CoreError>)
    ensures
        r is Ok <==> raw is Ok,
        match r {
            Ok(resp) => raw matches Ok(d) && log_response_of(d, cap as int, resp),
            Err(e) => {
                &&& raw matches Err(m)
                &&& e matches CoreError::GitQueryFailed { workspace_id: w, cause: c } && w@
                    == workspace_id@ && c@ == m@
            },
        },
{
    match raw {
        Err(m) => Err(CoreError::GitQueryFailed { workspace_id: workspace_id.to_owned(), cause: m }),
        Ok(d) => {
            let GitQueryData { total, entries, upstream, ahead_all, behind_all } = d;
            match upstream {
                None => Ok(GitLogResponse {
                    total,
                    entries,
                    ahead: 0,
                    behind: 0,
                    ahead_entries: Vec::new(),
                    behind_entries: Vec::new(),
                    upstream: None,
                }),
                Some(u) => {
                    let ahead = ahead_all.len();
                    let behind = behind_all.len();
                    Ok(GitLogResponse {
                        total,
                        entries,
                        ahead,
                        behind,
                        ahead_entries: cap_entries(ahead_all, cap),
                        behind_entries: cap_entries(behind_all, cap),
                        upstream: Some(u),
                    })
                },
            }
        },
    }
}

/// With an upstream configured and the true counts within the cap, the entry
/// lists carry exactly `ahead` and `behind` commits; with no upstream both
/// counts are zero and both lists empty. (A count above the cap deliberately
/// exceeds its list's length, so the UI can show "12 ahead, showing 10".)
pub proof fn lemma_ahead_behind_counts(d: GitQueryData, cap: int, resp: GitLogResponse)
    requires
        log_response_of(d, cap, resp),
        d.ahead_all@.len() <= cap,
        d.behind_all@.len() <= cap,
    ensures
        resp.upstream is Some ==> resp.ahead_entries@.len() == resp.ahead
            && resp.behind_entries@.len() == resp.behind,
        resp.upstream is None ==> resp.ahead == 0 && resp.behind == 0
            && resp.ahead_entries@.len() == 0 && resp.behind_entries@.len() == 0,
{
}

} // verus!
