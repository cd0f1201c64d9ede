//! The workspace registry: the single owner of the `WorkspaceEntry` set, its
//! main/worktree parent linkage, and the cascade rules for removal.
//!
//! Well-formedness (`registry_wf`) is the registry's invariant: ids are
//! unique, a main entry carries no parent, and a worktree entry carries a
//! parent that occurs earlier in the registry together with its branch
//! information. Every mutating operation requires and re-establishes it.

use vstd::prelude::*;
use vstd::seq_lib::{to_multiset_build, to_multiset_contains, to_multiset_len, to_multiset_remove};
use vstd::multiset::group_multiset_axioms;
use crate::json::str_eq;
use crate::types::{CoreError, WorkspaceEntry, WorkspaceGroup, WorkspaceInfo, WorkspaceKind};

verus! {

/// Some entry of `s` carries the id `id`.
pub open spec fn has_id(s: Seq<WorkspaceEntry>, id: Seq<char>) -> bool {
    exists|i: int| 0 <= i < s.len() && s[i].id@ == id
}

/// No two entries share an id.
pub open spec fn unique_ids(s: Seq<WorkspaceEntry>) -> bool {
    forall|i: int, j: int| 0 <= i < j < s.len() ==> s[i].id@ != s[j].id@
}

/// The per-entry invariant: a main entry has no parent; a worktree entry
/// references a parent that occurs earlier and carries its branch data.
pub open spec fn entry_wf(s: Seq<WorkspaceEntry>, i: int) -> bool {
    match s[i].kind {
        WorkspaceKind::Main => s[i].parent_id is None,
        WorkspaceKind::Worktree => {
            &&& s[i].parent_id matches Some(p) && (exists|j: int| 0 <= j < i && s[j].id@ == p@)
            &&& s[i].worktree is Some
        },
    }
}

/// The registry invariant.
pub open spec fn registry_wf(s: Seq<WorkspaceEntry>) -> bool {
    &&& unique_ids(s)
    &&& forall|i: int| 0 <= i < s.len() ==> entry_wf(s, i)
}

/// A new entry is addable: a main entry carries no parent; a worktree entry
/// names an existing parent and carries its branch data.
pub open spec fn parent_ok(s: Seq<WorkspaceEntry>, e: WorkspaceEntry) -> bool {
    match e.kind {
        WorkspaceKind::Main => e.parent_id is None,
        WorkspaceKind::Worktree => {
            &&& e.parent_id matches Some(p) && has_id(s, p@)
            &&& e.worktree is Some
        },
    }
}

/// Some entry of `s` names `id` as its parent.
pub open spec fn has_child(s: Seq<WorkspaceEntry>, id: Seq<char>) -> bool {
    exists|j: int| 0 <= j < s.len() && ((#[trigger] s[j]).parent_id matches Some(p) && p@ == id)
}

/// Some element of `l` has the character sequence `x`.
pub open spec fn str_list_has(l: Seq<String>, x: Seq<char>) -> bool {
    exists|k: int| 0 <= k < l.len() && l[k]@ == x
}

/// Membership in a list of ids, by character sequence.
fn str_list_contains(l: &Vec<String>, x: &str) -> (r: bool)
    ensures
        r == str_list_has(l@, x@),
{
    let n = l.len();
    let mut i: usize = 0;
    while i < n
        invariant
            i <= n,
            n == l@.len(),
            forall|k: int| 0 <= k < i ==> l@[k]@ != x@,
        decreases n - i,
    {
        if str_eq(l[i].as_str(), x) {
            proof {
                assert(l@[i as int]@ == x@);
            }
            return true;
        }
        i = i + 1;
    }
    false
}

/// The view a resolved entry exposes, with the live `connected` flag.
pub open spec fn spec_info(e: WorkspaceEntry, connected: bool) -> WorkspaceInfo {
    WorkspaceInfo {
        id: e.id,
        name: e.name,
        path: e.path,
        connected,
        codex_bin: e.codex_bin,
        kind: e.kind,
        parent_id: e.parent_id,
        worktree: e.worktree,
        settings: e.settings,
    }
}

/// Ids doomed by removing `root`, considering the first `n` entries in
/// order: the root id itself, plus every entry whose parent's id is already
/// doomed. One left-to-right pass decides the whole transitive dependent set
/// because a worktree's parent always occurs earlier.
pub open spec fn doomed_ids(s: Seq<WorkspaceEntry>, root: Seq<char>, n: int) -> Set<Seq<char>>
    decreases n,
{
    if n <= 0 {
        Set::empty().insert(root)
    } else {
        let prev = doomed_ids(s, root, n - 1);
        if s[n - 1].parent_id matches Some(p) && prev.contains(p@) {
            prev.insert(s[n - 1].id@)
        } else {
            prev
        }
    }
}

/// The first `n` entries with every doomed entry dropped, order preserved.
pub open spec fn kept_entries(s: Seq<WorkspaceEntry>, dead: Set<Seq<char>>, n: int) -> Seq<
    WorkspaceEntry,
>
    decreases n,
{
    if n <= 0 {
        Seq::empty()
    } else if dead.contains(s[n - 1].id@) {
        kept_entries(s, dead, n - 1)
    } else {
        kept_entries(s, dead, n - 1).push(s[n - 1])
    }
}

/// Looking at more entries only grows the doomed set.
pub proof fn lemma_doomed_monotone(s: Seq<WorkspaceEntry>, root: Seq<char>, m: int, n: int)
    requires
        0 <= m <= n,
    ensures
        forall|x: Seq<char>|
            doomed_ids(s, root, m).contains(x) ==> doomed_ids(s, root, n).contains(x),
    decreases n,
{
    if m < n {
        lemma_doomed_monotone(s, root, m, n - 1);
    }
}

/// A doomed id is either the root or the id of one of the first `n` entries.
pub proof fn lemma_doomed_domain(s: Seq<WorkspaceEntry>, root: Seq<char>, n: int, x: Seq<char>)
    requires
        0 <= n,
        doomed_ids(s, root, n).contains(x),
    ensures
        x == root || exists|j: int| 0 <= j < n && s[j].id@ == x,
    decreases n,
{
    if n > 0 {
        if x == s[n - 1].id@ && doomed_ids(s, root, n) != doomed_ids(s, root, n - 1) {
        } else if doomed_ids(s, root, n - 1).contains(x) {
            lemma_doomed_domain(s, root, n - 1, x);
        }
    }
}

/// With unique ids, whether an entry is doomed is settled by the pass that
/// reaches it and never changes afterwards.
pub proof fn lemma_doomed_stable(s: Seq<WorkspaceEntry>, root: Seq<char>, i: int, n: int)
    requires
        unique_ids(s),
        0 <= i,
        i + 1 <= n <= s.len(),
    ensures
        doomed_ids(s, root, n).contains(s[i].id@) == doomed_ids(s, root, i + 1).contains(s[i].id@),
    decreases n,
{
    if n > i + 1 {
        lemma_doomed_stable(s, root, i, n - 1);
        assert(s[i].id@ != s[n - 1].id@);
    }
}

/// In a well-formed registry the full doomed set is closed under the
/// parent/child edge: a doomed parent dooms the child.
pub proof fn lemma_doomed_closed(s: Seq<WorkspaceEntry>, root: Seq<char>, j: int)
    requires
        registry_wf(s),
        0 <= j < s.len(),
        s[j].parent_id matches Some(p) && doomed_ids(s, root, s.len() as int).contains(p@),
    ensures
        doomed_ids(s, root, s.len() as int).contains(s[j].id@),
{
    let p = s[j].parent_id->0;
    let len = s.len() as int;
    if p@ == root {
        lemma_doomed_monotone(s, root, 0, j);
        assert(doomed_ids(s, root, j).contains(p@));
        assert(doomed_ids(s, root, j + 1).contains(s[j].id@));
        lemma_doomed_monotone(s, root, j + 1, len);
    } else {
        lemma_doomed_domain(s, root, len, p@);
        let k = choose|k: int| 0 <= k < len && s[k].id@ == p@;
        assert(entry_wf(s, j));
        let k0 = choose|k0: int| 0 <= k0 < j && s[k0].id@ == p@;
        assert(k == k0 || s[k].id@ != s[k0].id@);
        assert(k0 == k);
        lemma_doomed_stable(s, root, k, len);
        lemma_doomed_monotone(s, root, k + 1, j);
        assert(doomed_ids(s, root, j).contains(p@));
        assert(doomed_ids(s, root, j + 1).contains(s[j].id@));
        lemma_doomed_monotone(s, root, j + 1, len);
    }
}

/// The surviving entries are exactly the non-doomed entries, in order.
pub proof fn lemma_kept_elems(s: Seq<WorkspaceEntry>, dead: Set<Seq<char>>, n: int)
    requires
        0 <= n <= s.len(),
    ensures
        forall|j: int|
            0 <= j < n && !dead.contains((#[trigger] s[j]).id@) ==> exists|m: int|
                0 <= m < kept_entries(s, dead, n).len() && kept_entries(s, dead, n)[m] == s[j],
        forall|m: int|
            0 <= m < kept_entries(s, dead, n).len() ==> exists|j: int|
                0 <= j < n && s[j] == #[trigger] kept_entries(s, dead, n)[m] && !dead.contains(
                    s[j].id@,
                ),
    decreases n,
{
    if n > 0 {
        lemma_kept_elems(s, dead, n - 1);
        let k0 = kept_entries(s, dead, n - 1);
        let k = kept_entries(s, dead, n);
        assert forall|j: int|
            0 <= j < n && !dead.contains((#[trigger] s[j]).id@) implies exists|m: int|
            0 <= m < k.len() && k[m] == s[j] by {
            if j < n - 1 {
                let m = choose|m: int| 0 <= m < k0.len() && k0[m] == s[j];
                assert(k[m] == s[j]);
            } else {
                assert(k[k0.len() as int] == s[n - 1]);
            }
        }
        assert forall|m: int| 0 <= m < k.len() implies exists|j: int|
            0 <= j < n && s[j] == #[trigger] k[m] && !dead.contains(s[j].id@) by {
            if m < k0.len() {
                let j = choose|j: int| 0 <= j < n - 1 && s[j] == k0[m] && !dead.contains(s[j].id@);
                assert(k[m] == k0[m]);
                assert(s[j] == k[m] && !dead.contains(s[j].id@));
            } else {
                assert(k[m] == s[n - 1] && !dead.contains(s[n - 1].id@));
            }
        }
    }
}

/// Dropping a parent-closed doomed set from a well-formed registry leaves a
/// well-formed registry.
pub proof fn lemma_kept_wf(s: Seq<WorkspaceEntry>, dead: Set<Seq<char>>, n: int)
    requires
        registry_wf(s),
        0 <= n <= s.len(),
        forall|j: int|
            0 <= j < s.len() && ((#[trigger] s[j]).parent_id matches Some(p) && dead.contains(p@))
                ==> dead.contains(s[j].id@),
    ensures
        registry_wf(kept_entries(s, dead, n)),
    decreases n,
{
    if n > 0 {
        lemma_kept_wf(s, dead, n - 1);
        lemma_kept_elems(s, dead, n - 1);
        let k0 = kept_entries(s, dead, n - 1);
        let k = kept_entries(s, dead, n);
        if !dead.contains(s[n - 1].id@) {
            assert(forall|m: int| 0 <= m < k0.len() ==> k[m] == k0[m]);
            assert forall|m: int| 0 <= m < k0.len() implies k0[m].id@ != s[n - 1].id@ by {
                let j = choose|j: int|
                    0 <= j < n - 1 && s[j] == k0[m] && !dead.contains(s[j].id@);
                assert(s[j].id@ != s[n - 1].id@);
            }
            assert(unique_ids(k));
            assert forall|m: int| 0 <= m < k.len() implies entry_wf(k, m) by {
                if m < k0.len() {
                    assert(entry_wf(k0, m));
                    match k0[m].kind {
                        WorkspaceKind::Main => {},
                        WorkspaceKind::Worktree => {
                            let p = k0[m].parent_id->0;
                            let j = choose|j: int| 0 <= j < m && k0[j].id@ == p@;
                            assert(k[j].id@ == p@);
                        },
                    }
                } else {
                    assert(k[m] == s[n - 1]);
                    assert(entry_wf(s, n - 1));
                    match s[n - 1].kind {
                        WorkspaceKind::Main => {},
                        WorkspaceKind::Worktree => {
                            let p = s[n - 1].parent_id->0;
                            let j = choose|j: int| 0 <= j < n - 1 && s[j].id@ == p@;
                            assert(!dead.contains(s[j].id@));
                            let m2 = choose|m2: int| 0 <= m2 < k0.len() && k0[m2] == s[j];
                            assert(k[m2].id@ == p@);
                        },
                    }
                }
            }
        }
    }
}

/// A cascade removes whole: no doomed id — the removed workspace or any of
/// its transitive dependents — remains resolvable afterwards.
pub proof fn lemma_doomed_entries_are_removed(s: Seq<WorkspaceEntry>, dead: Set<Seq<char>>, x: Seq<char>)
    requires
        dead.contains(x),
    ensures
        !has_id(kept_entries(s, dead, s.len() as int), x),
{
    lemma_kept_elems(s, dead, s.len() as int);
    let k = kept_entries(s, dead, s.len() as int);
    if has_id(k, x) {
        let m = choose|m: int| 0 <= m < k.len() && k[m].id@ == x;
        let j = choose|j: int| 0 <= j < s.len() && s[j] == k[m] && !dead.contains(s[j].id@);
        assert(false);
    }
}

/// The registry's linkage invariant, spelled out: in a well-formed registry
/// every worktree entry's parent id resolves to an existing entry and every
/// main entry carries none.
pub proof fn lemma_worktree_parent_resolves(s: Seq<WorkspaceEntry>, i: int)
    requires
        registry_wf(s),
        0 <= i < s.len(),
    ensures
        s[i].kind is Worktree ==> (s[i].parent_id matches Some(p) && has_id(s, p@)),
        s[i].kind is Main ==> s[i].parent_id is None,
{
    assert(entry_wf(s, i));
    if s[i].kind is Worktree {
        let p = s[i].parent_id->0;
        let j = choose|j: int| 0 <= j < i && s[j].id@ == p@;
        assert(s[j].id@ == p@);
    }
}

/// An entry paired with its display sort key: the group's sort order and
/// catalog position, the entry's own sort order, and its registry position
/// as the final tie breaker (which makes the ordering total and the sort
/// stable).
pub struct RankedEntry {
    pub group_sort: u64,
    pub group_pos: u64,
    pub entry_sort: u64,
    pub arrival: u64,
    pub entry: WorkspaceEntry,
}

/// A sort-order override as a key; absence sorts last.
pub open spec fn sort_key_u64(o: Option<u32>) -> u64 {
    match o {
        Some(v) => v as u64,
        None => u64::MAX,
    }
}

/// First catalog index of the group with id `gid`.
pub open spec fn group_pos(groups: Seq<WorkspaceGroup>, gid: Seq<char>) -> Option<int>
    decreases groups.len(),
{
    if groups.len() == 0 {
        None
    } else if groups[0].id@ == gid {
        Some(0int)
    } else {
        match group_pos(groups.drop_first(), gid) {
            Some(i) => Some(i + 1),
            None => None,
        }
    }
}

/// The group component of an entry's display key: the named group's sort
/// order and catalog position; ungrouped entries and dangling references
/// sort after every group.
pub open spec fn spec_group_rank(groups: Seq<WorkspaceGroup>, gid: Option<String>) -> (u64, u64) {
    match gid {
        Some(g) => match group_pos(groups, g@) {
            Some(i) => (sort_key_u64(groups[i].sort_order), i as u64),
            None => (u64::MAX, u64::MAX),
        },
        None => (u64::MAX, u64::MAX),
    }
}

/// The display rank of an entry under a group catalog.
pub open spec fn entry_rank(groups: Seq<WorkspaceGroup>, e: WorkspaceEntry) -> (u64, u64, u64) {
    (
        spec_group_rank(groups, e.settings.group_id).0,
        spec_group_rank(groups, e.settings.group_id).1,
        sort_key_u64(e.settings.sort_order),
    )
}

/// Lexicographic order on display ranks.
pub open spec fn rank_le(a: (u64, u64, u64), b: (u64, u64, u64)) -> bool {
    if a.0 != b.0 {
        a.0 < b.0
    } else if a.1 != b.1 {
        a.1 < b.1
    } else {
        a.2 <= b.2
    }
}

/// Total lexicographic order on full sort keys, arrival last.
pub open spec fn key_le(a: RankedEntry, b: RankedEntry) -> bool {
    if a.group_sort != b.group_sort {
        a.group_sort < b.group_sort
    } else if a.group_pos != b.group_pos {
        a.group_pos < b.group_pos
    } else if a.entry_sort != b.entry_sort {
        a.entry_sort < b.entry_sort
    } else {
        a.arrival <= b.arrival
    }
}

/// A ranked entry's key fields agree with its entry, and its arrival is the
/// entry's registry position.
pub open spec fn ranked_consistent(s: Seq<WorkspaceEntry>, groups: Seq<WorkspaceGroup>, x: RankedEntry) -> bool {
    &&& (x.group_sort, x.group_pos) == spec_group_rank(groups, x.entry.settings.group_id)
    &&& x.entry_sort == sort_key_u64(x.entry.settings.sort_order)
    &&& 0 <= x.arrival < s.len()
    &&& s[x.arrival as int] == x.entry
}

proof fn lemma_group_pos_first(groups: Seq<WorkspaceGroup>, gid: Seq<char>, i: int)
    requires
        0 <= i < groups.len(),
        groups[i].id@ == gid,
        forall|j: int| 0 <= j < i ==> groups[j].id@ != gid,
    ensures
        group_pos(groups, gid) == Some(i),
    decreases i,
{
    if i > 0 {
        assert(forall|j: int| 0 <= j < i - 1 ==> groups.drop_first()[j].id@ != gid);
        assert(groups.drop_first()[i - 1] == groups[i]);
        lemma_group_pos_first(groups.drop_first(), gid, i - 1);
    }
}

proof fn lemma_group_pos_none(groups: Seq<WorkspaceGroup>, gid: Seq<char>)
    requires
        forall|j: int| 0 <= j < groups.len() ==> groups[j].id@ != gid,
    ensures
        group_pos(groups, gid) is None,
    decreases groups.len(),
{
    if groups.len() > 0 {
        assert(forall|j: int| 0 <= j < groups.len() - 1 ==> groups.drop_first()[j].id@ != gid);
        lemma_group_pos_none(groups.drop_first(), gid);
    }
}

/// Computes an entry's group rank by a first-match catalog scan.
fn group_rank(groups: &Vec<WorkspaceGroup>, gid: &Option<String>) -> (r: (u64, u64))
    ensures
        r == spec_group_rank(groups@, *gid),
{
    match gid {
        None => (u64::MAX, u64::MAX),
        Some(g) => {
            let n = groups.len();
            let mut i: usize = 0;
            while i < n
                invariant
                    i <= n,
                    n == groups@.len(),
                    *gid == Some(*g),
                    forall|j: int| 0 <= j < i ==> groups@[j].id@ != g@,
                decreases n - i,
            {
                if str_eq(groups[i].id.as_str(), g.as_str()) {
                    proof {
                        lemma_group_pos_first(groups@, g@, i as int);
                    }
                    let group_sort = match groups[i].sort_order {
                        Some(v) => v as u64,
                        None => u64::MAX,
                    };
                    return (group_sort, i as u64);
                }
                i = i + 1;
            }
            proof {
                lemma_group_pos_none(groups@, g@);
            }
            (u64::MAX, u64::MAX)
        },
    }
}

/// Compares two full sort keys.
fn ranked_le(a: &RankedEntry, b: &RankedEntry) -> (r: bool)
    ensures
        r == key_le(*a, *b),
{
    if a.group_sort != b.group_sort {
        a.group_sort < b.group_sort
    } else if a.group_pos != b.group_pos {
        a.group_pos < b.group_pos
    } else if a.entry_sort != b.entry_sort {
        a.entry_sort < b.entry_sort
    } else {
        a.arrival <= b.arrival
    }
}

/// Selection sort on full sort keys: the result is an ordered permutation.
fn sort_ranked(input: Vec<RankedEntry>) -> (r: Vec<RankedEntry>)
    ensures
        r@.to_multiset() == input@.to_multiset(),
        forall|a: int, b: int| 0 <= a < b < r@.len() ==> key_le(r@[a], r@[b]),
{
    let mut v = input;
    let mut out: Vec<RankedEntry> = Vec::new();
    proof {
        broadcast use group_multiset_axioms, to_multiset_build, to_multiset_remove, to_multiset_contains, to_multiset_len;

        assert(out@.to_multiset().add(v@.to_multiset()) =~= input@.to_multiset());
    }
    while v.len() > 0
        invariant
            out@.to_multiset().add(v@.to_multiset()) == input@.to_multiset(),
            forall|a: int, b: int| 0 <= a < b < out@.len() ==> key_le(out@[a], out@[b]),
            forall|a: int, j: int|
                0 <= a < out@.len() && 0 <= j < v@.len() ==> key_le(out@[a], v@[j]),
        decreases v@.len(),
    {
        let n = v.len();
        let mut m: usize = 0;
        let mut i: usize = 1;
        while i < n
            invariant
                n == v@.len(),
                m < i <= n,
                forall|j: int| 0 <= j < i ==> key_le(v@[m as int], v@[j]),
            decreases n - i,
        {
            if !ranked_le(&v[m], &v[i]) {
                proof {
                    assert(key_le(v@[i as int], v@[m as int]));
                    assert forall|j: int| 0 <= j < i + 1 implies key_le(v@[i as int], v@[j]) by {
                        assert(key_le(v@[m as int], v@[j]) || j == i);
                    }
                }
                m = i;
            }
            i = i + 1;
        }
        let ghost v0 = v@;
        let ghost out0 = out@;
        let x = v.remove(m);
        out.push(x);
        proof {
            broadcast use group_multiset_axioms, to_multiset_build, to_multiset_remove, to_multiset_contains, to_multiset_len;

            assert(v@ == v0.remove(m as int));
            assert(out@ == out0.push(x));
            assert(v0.contains(x));
            assert(v0.to_multiset().count(x) > 0);
            assert(out@.to_multiset() =~= out0.to_multiset().insert(x));
            assert(v@.to_multiset() =~= v0.to_multiset().remove(x));
            assert(out@.to_multiset().add(v@.to_multiset()) =~= out0.to_multiset().add(
                v0.to_multiset(),
            ));
            assert forall|a: int, j: int|
                0 <= a < out@.len() && 0 <= j < v@.len() implies key_le(out@[a], v@[j]) by {
                assert(v@[j] == v0[j] || v@[j] == v0[j + 1]);
                if a < out0.len() {
                    assert(key_le(out0[a], v0[j]) || key_le(out0[a], v0[j + 1]));
                } else {
                    assert(out@[a] == x);
                    assert(key_le(x, v0[j]) && key_le(x, v0[j + 1]));
                }
            }
            assert forall|a: int, b: int|
                0 <= a < b < out@.len() implies key_le(out@[a], out@[b]) by {
                if b < out0.len() {
                    assert(key_le(out0[a], out0[b]));
                } else {
                    assert(out@[b] == x);
                    assert(key_le(out0[a], v0[m as int]));
                }
            }
        }
    }
    out
}

/// The registry. Callers hold only copies of entries; mutation goes through
/// `add` and `remove`, which keep `registry_wf`.
pub struct WorkspaceRegistry {
    entries: Vec<WorkspaceEntry>,
}

impl View for WorkspaceRegistry {
    type V = Seq<WorkspaceEntry>;

    closed spec fn view(&self) -> Seq<WorkspaceEntry> {
        self.entries@
    }
}

impl WorkspaceRegistry {
    /// An empty registry, trivially well-formed.
    pub fn new() -> (r: Self)
        ensures
            r@.len() == 0,
            registry_wf(r@),
    {
        WorkspaceRegistry { entries: Vec::new() }
    }

    pub fn len(&self) -> (r: usize)
        ensures
            r == self@.len(),
    {
        self.entries.len()
    }

    /// Index of the entry carrying `id`, if any.
    fn index_of(&self, id: &str) -> (r: Option<usize>)
        ensures
            match r {
                Some(i) => i < self@.len() && self@[i as int].id@ == id@,
                None => !has_id(self@, id@),
            },
    {
        let n = self.entries.len();
        let mut i: usize = 0;
        while i < n
            invariant
                i <= n,
                n == self@.len(),
                self@ == self.entries@,
                forall|j: int| 0 <= j < i ==> self@[j].id@ != id@,
            decreases n - i,
        {
            if str_eq(self.entries[i].id.as_str(), id) {
                return Some(i);
            }
            i = i + 1;
        }
        None
    }

    /// Whether an entry with `id` is registered.
    pub fn contains_id(&self, id: &str) -> (r: bool)
        ensures
            r == has_id(self@, id@),
    {
        match self.index_of(id) {
            Some(i) => {
                proof {
                    assert(self@[i as int].id@ == id@);
                }
                true
            },
            None => false,
        }
    }

    /// Whether any registered entry names `id` as its parent.
    pub fn has_dependents(&self, id: &str) -> (r: bool)
        ensures
            r == has_child(self@, id@),
    {
        let n = self.entries.len();
        let mut i: usize = 0;
        while i < n
            invariant
                i <= n,
                n == self@.len(),
                self@ == self.entries@,
                forall|j: int| 0 <= j < i ==> !((#[trigger] self@[j]).parent_id matches Some(p) && p@
                    == id@),
            decreases n - i,
        {
            match &self.entries[i].parent_id {
                Some(p) => {
                    if str_eq(p.as_str(), id) {
                        proof {
                            assert(self@[i as int].parent_id matches Some(q) && q@ == id@);
                        }
                        return true;
                    }
                },
                None => {},
            }
            i = i + 1;
        }
        false
    }

    /// Registers an entry. Fails with `DuplicateId` when the id is taken,
    /// and with `InvalidParent` when a worktree names no existing parent or
    /// lacks its branch data, or a main entry carries a parent.
    pub fn add(&mut self, entry: WorkspaceEntry) -> (r: Result<(), CoreError>)
        requires
            registry_wf(old(self)@),
        ensures
            registry_wf(final(self)@),
            match r {
                Ok(()) => {
                    &&& !has_id(old(self)@, entry.id@)
                    &&& parent_ok(old(self)@, entry)
                    &&& final(self)@ == old(self)@.push(entry)
                },
                Err(e) => {
                    &&& final(self)@ == old(self)@
                    &&& if has_id(old(self)@, entry.id@) {
                        e == CoreError::DuplicateId
                    } else {
                        !parent_ok(old(self)@, entry) && e == CoreError::InvalidParent
                    }
                },
            },
    {
        if self.contains_id(entry.id.as_str()) {
            return Err(CoreError::DuplicateId);
        }
        let ok = match entry.kind {
            WorkspaceKind::Main => entry.parent_id.is_none(),
            WorkspaceKind::Worktree => {
                match (&entry.parent_id, &entry.worktree) {
                    (Some(p), Some(_)) => self.contains_id(p.as_str()),
                    _ => false,
                }
            },
        };
        if !ok {
            return Err(CoreError::InvalidParent);
        }
        proof {
            let s = old(self)@;
            let t = s.push(entry);
            assert(forall|i: int| 0 <= i < s.len() ==> t[i] == s[i]);
            assert(forall|i: int| 0 <= i < s.len() && entry_wf(s, i) ==> entry_wf(t, i));
            assert(entry_wf(t, s.len() as int)) by {
                match entry.kind {
                    WorkspaceKind::Main => {},
                    WorkspaceKind::Worktree => {
                        let p = entry.parent_id->0;
                        let j = choose|j: int| 0 <= j < s.len() && s[j].id@ == p@;
                        assert(t[j].id@ == p@);
                    },
                }
            };
        }
        self.entries.push(entry);
        Ok(())
    }

    /// Resolves an id to the caller-facing view. `connected` is derived from
    /// the reachability probe's outcome; a failed probe (`None`) yields
    /// `connected = false`, never an error.
    pub fn resolve(&self, id: &str, probe: Option<bool>) -> (r: Option<WorkspaceInfo>)
        ensures
            match r {
                Some(info) => exists|i: int|
                    0 <= i < self@.len() && self@[i].id@ == id@ && info == spec_info(
                        self@[i],
                        probe == Some(true),
                    ),
                None => !has_id(self@, id@),
            },
    {
        let connected = match probe {
            Some(b) => b,
            None => false,
        };
        match self.index_of(id) {
            Some(i) => {
                let e = self.entries[i].duplicate();
                let info = WorkspaceInfo {
                    id: e.id,
                    name: e.name,
                    path: e.path,
                    connected,
                    codex_bin: e.codex_bin,
                    kind: e.kind,
                    parent_id: e.parent_id,
                    worktree: e.worktree,
                    settings: e.settings,
                };
                proof {
                    assert(self@[i as int].id@ == id@ && info == spec_info(
                        self@[i as int],
                        probe == Some(true),
                    ));
                }
                Some(info)
            },
            None => None,
        }
    }

    /// Unregisters `id`. Fails with `NotFound` when the id is unknown. A
    /// main workspace with live worktree children is only removed under
    /// `force`, which cascades to every transitive dependent (children are
    /// dropped with their parent, deepest entries being decided last in the
    /// single ordered pass); without `force` it fails with `HasDependents`.
    pub fn remove(&mut self, id: &str, force: bool) -> (r: Result<(), CoreError>)
        requires
            registry_wf(old(self)@),
        ensures
            registry_wf(final(self)@),
            match r {
                Ok(()) => {
                    &&& has_id(old(self)@, id@)
                    &&& force || !has_child(old(self)@, id@)
                    &&& final(self)@ == kept_entries(
                        old(self)@,
                        doomed_ids(old(self)@, id@, old(self)@.len() as int),
                        old(self)@.len() as int,
                    )
                    &&& !has_id(final(self)@, id@)
                },
                Err(e) => {
                    &&& final(self)@ == old(self)@
                    &&& if !has_id(old(self)@, id@) {
                        e == CoreError::NotFound
                    } else {
                        !force && has_child(old(self)@, id@) && e == CoreError::HasDependents
                    }
                },
            },
    {
        if !self.contains_id(id) {
            return Err(CoreError::NotFound);
        }
        if !force && self.has_dependents(id) {
            return Err(CoreError::HasDependents);
        }
        let ghost s = self@;
        let ghost rid = id@;
        let ghost full = doomed_ids(s, rid, s.len() as int);
        let mut dead_list: Vec<String> = Vec::new();
        dead_list.push(id.to_owned());
        proof {
            assert(dead_list@.len() == 1 && dead_list@[0]@ == rid);
            assert forall|x: Seq<char>|
                doomed_ids(s, rid, 0).contains(x) implies str_list_has(dead_list@, x) by {
                assert(dead_list@[0]@ == x);
            }
        }
        let mut out: Vec<WorkspaceEntry> = Vec::new();
        let n = self.entries.len();
        let mut i: usize = 0;
        while i < n
            invariant
                i <= n,
                n == s.len(),
                self.entries@ == s,
                registry_wf(s),
                rid == id@,
                full == doomed_ids(s, rid, s.len() as int),
                forall|x: Seq<char>|
                    str_list_has(dead_list@, x) <==> doomed_ids(s, rid, i as int).contains(x),
                out@ == kept_entries(s, full, i as int),
            decreases n - i,
        {
            let ghost prev = doomed_ids(s, rid, i as int);
            let is_root = str_eq(self.entries[i].id.as_str(), id);
            let parent_dead = match &self.entries[i].parent_id {
                Some(p) => str_list_contains(&dead_list, p.as_str()),
                None => false,
            };
            let is_dead = is_root || parent_dead;
            proof {
                lemma_doomed_stable(s, rid, i as int, s.len() as int);
                if is_dead {
                    assert(doomed_ids(s, rid, i as int + 1).contains(s[i as int].id@)) by {
                        if !parent_dead {
                            lemma_doomed_monotone(s, rid, 0, i as int + 1);
                        }
                    }
                } else {
                    assert(!doomed_ids(s, rid, i as int + 1).contains(s[i as int].id@)) by {
                        if doomed_ids(s, rid, i as int + 1).contains(s[i as int].id@) {
                            if prev.contains(s[i as int].id@) {
                                lemma_doomed_domain(s, rid, i as int, s[i as int].id@);
                                let j = choose|j: int|
                                    0 <= j < i as int && s[j].id@ == s[i as int].id@;
                                assert(false);
                            } else {
                                assert(s[i as int].parent_id matches Some(p) && prev.contains(p@));
                                assert(false);
                            }
                        }
                    }
                }
            }
            if is_dead {
                let dead_id = self.entries[i].id.clone();
                let ghost dl0 = dead_list@;
                dead_list.push(dead_id);
                proof {
                    assert(dead_list@ == dl0.push(dead_id));
                    assert forall|x: Seq<char>|
                        str_list_has(dead_list@, x) implies doomed_ids(
                        s,
                        rid,
                        i as int + 1,
                    ).contains(x) by {
                        let k = choose|k: int| 0 <= k < dead_list@.len() && dead_list@[k]@ == x;
                        if k < dl0.len() {
                            assert(dl0[k]@ == x);
                            assert(str_list_has(dl0, x));
                            lemma_doomed_monotone(s, rid, i as int, i as int + 1);
                        } else {
                            assert(x == s[i as int].id@);
                        }
                    }
                    assert forall|x: Seq<char>|
                        doomed_ids(s, rid, i as int + 1).contains(x) implies str_list_has(
                        dead_list@,
                        x,
                    ) by {
                        if prev.contains(x) {
                            assert(str_list_has(dl0, x));
                            let k = choose|k: int| 0 <= k < dl0.len() && dl0[k]@ == x;
                            assert(dead_list@[k]@ == x);
                        } else {
                            assert(x == s[i as int].id@);
                            assert(dead_list@[dl0.len() as int]@ == x);
                        }
                    }
                }
            } else {
                let kept = self.entries[i].duplicate();
                out.push(kept);
                proof {
                    lemma_doomed_monotone(s, rid, i as int, i as int + 1);
                    assert forall|x: Seq<char>|
                        doomed_ids(s, rid, i as int + 1).contains(x) implies prev.contains(x) by {
                        if x == s[i as int].id@ {
                        }
                    }
                }
            }
            i = i + 1;
        }
        self.entries = out;
        proof {
            assert(self@ == kept_entries(s, full, s.len() as int));
            assert forall|j: int|
                0 <= j < s.len() && ((#[trigger] s[j]).parent_id matches Some(p) && full.contains(
                    p@,
                )) implies full.contains(s[j].id@) by {
                lemma_doomed_closed(s, rid, j);
            }
            lemma_kept_wf(s, full, s.len() as int);
            lemma_kept_elems(s, full, s.len() as int);
            assert(!has_id(self@, rid)) by {
                lemma_doomed_monotone(s, rid, 0, s.len() as int);
                assert(full.contains(rid));
                if has_id(self@, rid) {
                    let m = choose|m: int| 0 <= m < self@.len() && self@[m].id@ == rid;
                    let j = choose|j: int|
                        0 <= j < s.len() && s[j] == self@[m] && !full.contains(s[j].id@);
                    assert(false);
                }
            }
        }
        Ok(())
    }

    /// Every entry, ordered for display: by the group catalog's ordering
    /// (a group's `sort_order`, then its catalog position; ungrouped and
    /// dangling group references sort last), then by the entry's own
    /// `sort_order`, then by registry (insertion) order. Returns copies.
    pub fn list_ordered(&self, groups: &Vec<WorkspaceGroup>) -> (r: Vec<WorkspaceEntry>)
        ensures
            r@.len() == self@.len(),
            forall|a: int, b: int| 0 <= a < b < r@.len() ==> rank_le(
                entry_rank(groups@, r@[a]),
                entry_rank(groups@, r@[b]),
            ),
            forall|i: int| 0 <= i < r@.len() ==> #[trigger] self@.contains(r@[i]),
            forall|j: int| 0 <= j < self@.len() ==> #[trigger] r@.contains(self@[j]),
    {
        let n = self.entries.len();
        let mut ranked: Vec<RankedEntry> = Vec::new();
        let mut i: usize = 0;
        while i < n
            invariant
                i <= n,
                n == self@.len(),
                self@ == self.entries@,
                ranked@.len() == i,
                forall|j: int| 0 <= j < i ==> ranked_consistent(self@, groups@, #[trigger] ranked@[j]),
                forall|j: int| 0 <= j < i ==> (#[trigger] ranked@[j]).entry == self@[j]
                    && ranked@[j].arrival == j,
            decreases n - i,
        {
            let e = self.entries[i].duplicate();
            let (group_sort, group_pos) = group_rank(groups, &e.settings.group_id);
            let entry_sort = match e.settings.sort_order {
                Some(v) => v as u64,
                None => u64::MAX,
            };
            ranked.push(RankedEntry { group_sort, group_pos, entry_sort, arrival: i as u64, entry: e });
            i = i + 1;
        }
        let ghost ranked0 = ranked@;
        let sorted = sort_ranked(ranked);
        let m = sorted.len();
        let mut out: Vec<WorkspaceEntry> = Vec::new();
        let mut k: usize = 0;
        proof {
            broadcast use to_multiset_contains, to_multiset_len;

            assert(sorted@.to_multiset() == ranked0.to_multiset());
            assert forall|a: int| 0 <= a < sorted@.len() implies ranked_consistent(
                self@,
                groups@,
                #[trigger] sorted@[a],
            ) by {
                assert(sorted@.contains(sorted@[a]));
                assert(sorted@.to_multiset().count(sorted@[a]) > 0);
                assert(ranked0.to_multiset().count(sorted@[a]) > 0);
                assert(ranked0.contains(sorted@[a]));
                let j = choose|j: int| 0 <= j < ranked0.len() && ranked0[j] == sorted@[a];
            }
        }
        while k < m
            invariant
                k <= m,
                m == sorted@.len(),
                out@.len() == k,
                forall|a: int| 0 <= a < m ==> ranked_consistent(self@, groups@, #[trigger] sorted@[a]),
                forall|a: int| 0 <= a < k ==> #[trigger] out@[a] == sorted@[a].entry,
            decreases m - k,
        {
            out.push(sorted[k].entry.duplicate());
            k = k + 1;
        }
        proof {
            broadcast use to_multiset_contains, to_multiset_len;

            assert(sorted@.to_multiset() == ranked0.to_multiset());
            assert(out@.len() == self@.len()) by {
                assert(sorted@.to_multiset().len() == ranked0.to_multiset().len());
            }
            assert forall|a: int, b: int| 0 <= a < b < out@.len() implies rank_le(
                entry_rank(groups@, out@[a]),
                entry_rank(groups@, out@[b]),
            ) by {
                assert(key_le(sorted@[a], sorted@[b]));
                assert(ranked_consistent(self@, groups@, sorted@[a]));
                assert(ranked_consistent(self@, groups@, sorted@[b]));
            }
            assert forall|i2: int| 0 <= i2 < out@.len() implies #[trigger] self@.contains(
                out@[i2],
            ) by {
                assert(ranked_consistent(self@, groups@, sorted@[i2]));
                assert(out@[i2] == self@[sorted@[i2].arrival as int]);
            }
            assert forall|j: int| 0 <= j < self@.len() implies #[trigger] out@.contains(
                self@[j],
            ) by {
                assert(ranked0[j].entry == self@[j]);
                assert(ranked0.contains(ranked0[j]));
                assert(ranked0.to_multiset().count(ranked0[j]) > 0);
                assert(sorted@.to_multiset().count(ranked0[j]) > 0);
                assert(sorted@.contains(ranked0[j]));
                let i2 = choose|i2: int| 0 <= i2 < sorted@.len() && sorted@[i2] == ranked0[j];
                assert(out@[i2] == self@[j]);
            }
        }
        out
    }

    /// A copy of every entry, in registry order.
    pub fn entries(&self) -> (r: Vec<WorkspaceEntry>)
        ensures
            r@ == self@,
    {
        let n = self.entries.len();
        let mut out: Vec<WorkspaceEntry> = Vec::new();
        let mut i: usize = 0;
        while i < n
            invariant
                i <= n,
                n == self@.len(),
                self@ == self.entries@,
                out@ == self@.take(i as int),
            decreases n - i,
        {
            proof {
                assert(self@.take(i as int + 1).drop_last() =~= self@.take(i as int));
                assert(self@.take(i as int + 1).last() == self@[i as int]);
                assert(self@.take(i as int).push(self@[i as int]) =~= self@.take(i as int + 1));
            }
            out.push(self.entries[i].duplicate());
            i = i + 1;
        }
        proof {
            assert(self@.take(n as int) =~= self@);
        }
        out
    }
}

} // verus!
