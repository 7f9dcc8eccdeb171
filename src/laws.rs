use vstd::prelude::*;
use vstd::set_lib::lemma_set_disjoint_lens;

use crate::files::{is_in_sync, is_reconciliation, keys_sorted, state_of, FileState, Side};
use crate::path::{lemma_path_order, path_lt};

verus! {

/// Whether some entry of `s` has path `k`.
pub open spec fn has_path(s: Seq<(Seq<char>, FileState)>, k: Seq<char>) -> bool {
    exists|i: int| 0 <= i < s.len() && #[trigger] s[i].0 == k
}

/// The remote side of each entry of `out` that has one, keyed by path.
pub open spec fn remote_sides(out: Seq<(Seq<char>, FileState)>) -> Map<Seq<char>, Side> {
    Map::new(
        |k: Seq<char>| has_path(out, k) && !(out[choose|i: int| 0 <= i < out.len() && #[trigger] out[i].0 == k].1 is LocalOnly),
        |k: Seq<char>|
            match out[choose|i: int| 0 <= i < out.len() && #[trigger] out[i].0 == k].1 {
                FileState::RemoteOnly { digest, contents } => (digest, contents),
                FileState::Present { remote_digest, remote_contents, .. } => (
                    remote_digest,
                    remote_contents,
                ),
                FileState::LocalOnly { digest, contents } => (digest, contents),
            },
    )
}

proof fn lemma_sorted_distinct(s: Seq<(Seq<char>, FileState)>, i: int, j: int)
    requires
        keys_sorted(s),
        0 <= i < s.len(),
        0 <= j < s.len(),
        i != j,
    ensures
        s[i].0 != s[j].0,
{
    lemma_path_order(s[i].0, s[i].0, s[i].0);
    if i < j {
        assert(path_lt(s[i].0, s[j].0));
    } else {
        assert(path_lt(s[j].0, s[i].0));
    }
}

proof fn lemma_prefix_paths_agree(
    s1: Seq<(Seq<char>, FileState)>,
    s2: Seq<(Seq<char>, FileState)>,
    n: int,
)
    requires
        keys_sorted(s1),
        keys_sorted(s2),
        forall|k: Seq<char>| has_path(s1, k) <==> has_path(s2, k),
        0 <= n <= s1.len(),
        n <= s2.len(),
    ensures
        forall|i: int| 0 <= i < n ==> s1[i].0 == s2[i].0,
    decreases n,
{
    if n > 0 {
        lemma_prefix_paths_agree(s1, s2, n - 1);
        let m = n - 1;
        let a = s1[m].0;
        let b = s2[m].0;
        if a != b {
            assert(has_path(s1, a));
            assert(has_path(s2, b));
            let ja = choose|j: int| 0 <= j < s2.len() && #[trigger] s2[j].0 == a;
            let jb = choose|j: int| 0 <= j < s1.len() && #[trigger] s1[j].0 == b;
            if ja < m {
                lemma_sorted_distinct(s1, ja, m);
            }
            if jb < m {
                lemma_sorted_distinct(s2, jb, m);
            }
            assert(ja > m && jb > m);
            assert(path_lt(b, a));
            assert(path_lt(a, b));
            lemma_path_order(a, b, a);
        }
    }
}

/// Two sequences in strict path order that hold the same paths, with the
/// same state for each path, are equal.
pub proof fn lemma_sorted_unique(s1: Seq<(Seq<char>, FileState)>, s2: Seq<(Seq<char>, FileState)>)
    requires
        keys_sorted(s1),
        keys_sorted(s2),
        forall|k: Seq<char>| has_path(s1, k) <==> has_path(s2, k),
        forall|i: int, j: int|
            0 <= i < s1.len() && 0 <= j < s2.len() && #[trigger] s1[i].0 == #[trigger] s2[j].0
                ==> s1[i].1 == s2[j].1,
    ensures
        s1 == s2,
{
    let n = if s1.len() <= s2.len() {
        s1.len() as int
    } else {
        s2.len() as int
    };
    lemma_prefix_paths_agree(s1, s2, n);
    if s1.len() > s2.len() {
        let a = s1[n].0;
        assert(has_path(s1, a));
        let j = choose|j: int| 0 <= j < s2.len() && #[trigger] s2[j].0 == a;
        assert(s1[j].0 == s2[j].0);
        lemma_sorted_distinct(s1, j, n);
    }
    if s2.len() > s1.len() {
        let b = s2[n].0;
        assert(has_path(s2, b));
        let j = choose|j: int| 0 <= j < s1.len() && #[trigger] s1[j].0 == b;
        assert(s1[j].0 == s2[j].0);
        lemma_sorted_distinct(s2, j, n);
    }
    assert forall|i: int| 0 <= i < s1.len() implies s1[i] == s2[i] by {
        assert(s1[i].0 == s2[i].0);
    }
    assert(s1 =~= s2);
}

/// Reconciliation is a function of its inputs: two results for the same
/// local and remote sets hold the same classification in the same order.
pub proof fn law_reconcile_deterministic(
    local: Map<Seq<char>, Side>,
    remote: Map<Seq<char>, Side>,
    out1: Seq<(Seq<char>, FileState)>,
    out2: Seq<(Seq<char>, FileState)>,
)
    requires
        is_reconciliation(out1, local, remote),
        is_reconciliation(out2, local, remote),
    ensures
        out1 == out2,
{
    assert forall|k: Seq<char>| has_path(out1, k) <==> has_path(out2, k) by {
        if has_path(out1, k) {
            let i = choose|i: int| 0 <= i < out1.len() && #[trigger] out1[i].0 == k;
            assert(local.contains_key(out1[i].0) || remote.contains_key(out1[i].0));
        }
        if has_path(out2, k) {
            let i = choose|i: int| 0 <= i < out2.len() && #[trigger] out2[i].0 == k;
            assert(local.contains_key(out2[i].0) || remote.contains_key(out2[i].0));
        }
    }
    lemma_sorted_unique(out1, out2);
}

/// When no path is in both inputs, the result has exactly one entry per
/// input path: the local ones `LocalOnly`, the remote ones `RemoteOnly`.
pub proof fn law_disjoint_inputs(
    local: Map<Seq<char>, Side>,
    remote: Map<Seq<char>, Side>,
    out: Seq<(Seq<char>, FileState)>,
)
    requires
        local.dom().finite(),
        remote.dom().finite(),
        local.dom().disjoint(remote.dom()),
        is_reconciliation(out, local, remote),
    ensures
        out.len() == local.len() + remote.len(),
        forall|i: int| 0 <= i < out.len() && local.contains_key(#[trigger] out[i].0) ==> out[i].1 is LocalOnly,
        forall|i: int| 0 <= i < out.len() && remote.contains_key(#[trigger] out[i].0) ==> out[i].1 is RemoteOnly,
{
    let paths = out.map_values(|e: (Seq<char>, FileState)| e.0);
    assert forall|i: int, j: int| 0 <= i < paths.len() && 0 <= j < paths.len() && i != j implies paths[i] != paths[j] by {
        lemma_sorted_distinct(out, i, j);
    }
    assert(paths.no_duplicates());
    assert forall|k: Seq<char>| paths.to_set().contains(k) <==> (local.dom() + remote.dom()).contains(k) by {
        if local.contains_key(k) || remote.contains_key(k) {
            let i = choose|i: int| 0 <= i < out.len() && #[trigger] out[i].0 == k;
            assert(paths[i] == k);
        }
        if paths.to_set().contains(k) {
            let i = choose|i: int| 0 <= i < paths.len() && paths[i] == k;
            assert(out[i].0 == k);
        }
    }
    assert(paths.to_set() =~= local.dom() + remote.dom());
    paths.unique_seq_to_set();
    lemma_set_disjoint_lens(local.dom(), remote.dom());
}

/// A path in both inputs whose two digests are equal comes out as
/// `Present` with equal digests, that is in sync.
pub proof fn law_equal_digests_in_sync(
    local: Map<Seq<char>, Side>,
    remote: Map<Seq<char>, Side>,
    out: Seq<(Seq<char>, FileState)>,
)
    requires
        is_reconciliation(out, local, remote),
    ensures
        forall|i: int|
            0 <= i < out.len() && local.contains_key(#[trigger] out[i].0) && remote.contains_key(out[i].0)
                && local[out[i].0].0 == remote[out[i].0].0 ==> out[i].1 is Present && is_in_sync(out[i].1),
{
}

/// Taking a reconciliation of a remote scan alone as the remote input of
/// the next reconciliation, with a new local scan, keeps every remote side:
/// a path that now also exists locally is `Present` with its original remote
/// digest and bytes, and the new local ones.
pub proof fn law_merge_keeps_remote_side(
    remote: Map<Seq<char>, Side>,
    new_local: Map<Seq<char>, Side>,
    first: Seq<(Seq<char>, FileState)>,
    second: Seq<(Seq<char>, FileState)>,
)
    requires
        is_reconciliation(first, Map::empty(), remote),
        is_reconciliation(second, new_local, remote_sides(first)),
    ensures
        forall|i: int|
            0 <= i < second.len() && remote.contains_key(#[trigger] second[i].0) && new_local.contains_key(second[i].0)
                ==> second[i].1 == (FileState::Present {
                local_digest: new_local[second[i].0].0,
                local_contents: new_local[second[i].0].1,
                remote_digest: remote[second[i].0].0,
                remote_contents: remote[second[i].0].1,
            }),
{
    let rs = remote_sides(first);
    assert forall|k: Seq<char>| rs.contains_key(k) <==> remote.contains_key(k) by {
        if remote.contains_key(k) {
            assert(has_path(first, k));
        }
        if has_path(first, k) {
            let i = choose|i: int| 0 <= i < first.len() && #[trigger] first[i].0 == k;
            assert(remote.contains_key(first[i].0));
        }
    }
    assert forall|k: Seq<char>| rs.contains_key(k) implies rs[k] == remote[k] by {
        let i = choose|i: int| 0 <= i < first.len() && #[trigger] first[i].0 == k;
        assert(first[i].1 == state_of(Map::empty(), remote, k));
    }
    assert(rs =~= remote);
}

} // verus!
