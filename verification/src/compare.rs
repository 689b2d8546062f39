use vstd::prelude::*;
use crate::capture::{
    Capture, QueryMatch, first_capture_spec, find_capture_from, lemma_first_capture_is_first,
    lemma_first_capture_at, lemma_first_capture_exists,
};

verus! {

/// The root captures of the `i`-th match of a query evaluated without subtree skipping and of
/// the `i`-th match of the same query evaluated with precomputed subqueries (skipping).
#[derive(Clone, Copy, Debug, PartialEq, Eq)]
pub struct RootPair {
    pub plain: Capture,
    pub incremental: Capture,
}

/// What a comparison run reports: one pair of root captures per match of the plain query,
/// in match order, and the number of matches of the plain query.
#[derive(Clone, Debug, PartialEq, Eq)]
pub struct CompareReport {
    pub pairs: Vec<RootPair>,
    pub count: usize,
}

/// The `i`-th match of the plain query can be paired: it has a root capture, the
/// incremental evaluation has an `i`-th match, and that match has a root capture.
pub open spec fn pairable(plain: Seq<QueryMatch>, incremental: Seq<QueryMatch>, root: u32, i: int) -> bool {
    &&& i < incremental.len()
    &&& first_capture_spec(plain[i]@, root) is Some
    &&& first_capture_spec(incremental[i]@, root) is Some
}

/// Every match of the plain query can be paired.
pub open spec fn comparable(plain: Seq<QueryMatch>, incremental: Seq<QueryMatch>, root: u32) -> bool {
    forall|i: int| 0 <= i < plain.len() ==> pairable(plain, incremental, root, i)
}

/// The pair of root captures of the `i`-th matches.
pub open spec fn root_pair_spec(plain: Seq<QueryMatch>, incremental: Seq<QueryMatch>, root: u32, i: int) -> RootPair {
    RootPair {
        plain: first_capture_spec(plain[i]@, root).unwrap(),
        incremental: first_capture_spec(incremental[i]@, root).unwrap(),
    }
}

/// How many leading matches of the plain query can be paired: the comparison goes through
/// exactly these before it stops on the first one that cannot.
pub fn pairable_prefix(plain: &Vec<QueryMatch>, incremental: &Vec<QueryMatch>, root_cid: u32) -> (k: usize)
    ensures
        k <= plain@.len(),
        forall|i: int| 0 <= i < k ==> pairable(plain@, incremental@, root_cid, i),
        k < plain@.len() ==> !pairable(plain@, incremental@, root_cid, k as int),
{
    let mut k: usize = 0;
    while k < plain.len()
        invariant
            k <= plain@.len(),
            forall|i: int| 0 <= i < k ==> pairable(plain@, incremental@, root_cid, i),
        decreases plain@.len() - k,
    {
        if k >= incremental.len() {
            return k;
        }
        if plain[k].first_capture(root_cid).is_none() {
            return k;
        }
        if incremental[k].first_capture(root_cid).is_none() {
            return k;
        }
        k += 1;
    }
    k
}

/// Pairs the root capture of each match of the plain query with that of the match of the
/// incremental evaluation at the same rank, and counts the matches of the plain query.
/// Matches of the incremental evaluation beyond those of the plain query are not looked at.
/// Putting the pairs side by side helps find where query verdicts were not bubbled up when
/// subtrees are skipped.
pub fn compare_matches(plain: &Vec<QueryMatch>, incremental: &Vec<QueryMatch>, root_cid: u32) -> (r: CompareReport)
    requires
        comparable(plain@, incremental@, root_cid),
    ensures
        r.count == plain@.len(),
        r.pairs@.len() == plain@.len(),
        forall|i: int| 0 <= i < plain@.len() ==> r.pairs@[i] == root_pair_spec(plain@, incremental@, root_cid, i),
{
    let mut pairs: Vec<RootPair> = Vec::new();
    let mut count: usize = 0;
    while count < plain.len()
        invariant
            count <= plain@.len(),
            comparable(plain@, incremental@, root_cid),
            pairs@.len() == count,
            forall|i: int| 0 <= i < count ==> pairs@[i] == root_pair_spec(plain@, incremental@, root_cid, i),
        decreases plain@.len() - count,
    {
        assert(pairable(plain@, incremental@, root_cid, count as int));
        let p = plain[count].first_capture(root_cid).unwrap();
        let q = incremental[count].first_capture(root_cid).unwrap();
        pairs.push(RootPair { plain: p, incremental: q });
        count += 1;
    }
    CompareReport { pairs, count }
}

/// The leading matches that `pairable_prefix` counts are always accepted by `compare_matches`.
pub proof fn lemma_pairable_prefix_is_comparable(
    plain: Seq<QueryMatch>,
    incremental: Seq<QueryMatch>,
    root: u32,
    k: int,
)
    requires
        0 <= k <= plain.len(),
        forall|i: int| 0 <= i < k ==> pairable(plain, incremental, root, i),
    ensures
        comparable(plain.take(k), incremental, root),
{
    assert forall|i: int| 0 <= i < plain.take(k).len() implies pairable(plain.take(k), incremental, root, i) by {
        assert(plain.take(k)[i] == plain[i]);
        assert(pairable(plain, incremental, root, i));
    }
}

/// All matches of the plain query can be paired exactly when the pairable prefix is all of
/// them.
pub proof fn lemma_full_prefix_iff_comparable(
    plain: Seq<QueryMatch>,
    incremental: Seq<QueryMatch>,
    root: u32,
    k: int,
)
    requires
        0 <= k <= plain.len(),
        forall|i: int| 0 <= i < k ==> pairable(plain, incremental, root, i),
        k < plain.len() ==> !pairable(plain, incremental, root, k),
    ensures
        comparable(plain, incremental, root) <==> k == plain.len(),
{
}

/// Each reported pair holds, for both evaluations, the first capture with the root index of
/// the match of the same rank.
pub proof fn lemma_pairs_are_root_captures(
    plain: Seq<QueryMatch>,
    incremental: Seq<QueryMatch>,
    root: u32,
    i: int,
)
    requires
        0 <= i < plain.len(),
        pairable(plain, incremental, root, i),
    ensures
        root_pair_spec(plain, incremental, root, i).plain.index == root,
        root_pair_spec(plain, incremental, root, i).incremental.index == root,
        plain[i]@.contains(root_pair_spec(plain, incremental, root, i).plain),
        incremental[i]@.contains(root_pair_spec(plain, incremental, root, i).incremental),
{
    lemma_first_capture_is_first(plain[i]@, root);
    lemma_first_capture_is_first(incremental[i]@, root);
    let a = find_capture_from(plain[i]@, root, 0).unwrap();
    let b = find_capture_from(incremental[i]@, root, 0).unwrap();
    assert(plain[i]@[a] == root_pair_spec(plain, incremental, root, i).plain);
    assert(incremental[i]@[b] == root_pair_spec(plain, incremental, root, i).incremental);
}

/// Some capture of a match has index `root`.
pub open spec fn captures_root(caps: Seq<Capture>, root: u32) -> bool {
    exists|a: int| 0 <= a < caps.len() && #[trigger] caps[a].index == root
}

/// A match of the plain query can be paired exactly when the incremental evaluation has a
/// match of the same rank and both matches capture the root, whatever nodes they capture.
pub proof fn lemma_pairable_exactly(
    plain: Seq<QueryMatch>,
    incremental: Seq<QueryMatch>,
    root: u32,
    i: int,
)
    requires
        0 <= i < plain.len(),
    ensures
        pairable(plain, incremental, root, i) <==> {
            &&& i < incremental.len()
            &&& captures_root(plain[i]@, root)
            &&& captures_root(incremental[i]@, root)
        },
{
    lemma_first_capture_exists(plain[i]@, root);
    lemma_first_capture_exists(incremental[i]@, root);
}

/// When every match of the plain query has a root capture and a partner of the same rank in
/// the incremental evaluation with a root capture, all of them are paired: `pairable_prefix`
/// is then the number of plain matches.
pub proof fn lemma_all_pairable(plain: Seq<QueryMatch>, incremental: Seq<QueryMatch>, root: u32)
    requires
        plain.len() <= incremental.len(),
        forall|i: int| 0 <= i < plain.len() ==> #[trigger] captures_root(plain[i]@, root),
        forall|i: int| 0 <= i < plain.len() ==> #[trigger] captures_root(incremental[i]@, root),
    ensures
        comparable(plain, incremental, root),
        forall|k: int|
            #![trigger pairable(plain, incremental, root, k)]
            0 <= k <= plain.len() && (k < plain.len() ==> !pairable(plain, incremental, root, k))
                ==> k == plain.len(),
{
    assert forall|i: int| 0 <= i < plain.len() implies pairable(plain, incremental, root, i) by {
        assert(captures_root(plain[i]@, root));
        assert(captures_root(incremental[i]@, root));
        lemma_pairable_exactly(plain, incremental, root, i);
    }
}

/// The pair reported at rank `i` is made of the first root capture of the plain match and the
/// first root capture of the incremental match of that rank.
pub proof fn lemma_pair_is_first_root_captures(
    plain: Seq<QueryMatch>,
    incremental: Seq<QueryMatch>,
    root: u32,
    i: int,
    a: int,
    b: int,
)
    requires
        0 <= i < plain.len(),
        i < incremental.len(),
        0 <= a < plain[i]@.len(),
        plain[i]@[a].index == root,
        forall|j: int| 0 <= j < a ==> plain[i]@[j].index != root,
        0 <= b < incremental[i]@.len(),
        incremental[i]@[b].index == root,
        forall|j: int| 0 <= j < b ==> incremental[i]@[j].index != root,
    ensures
        pairable(plain, incremental, root, i),
        root_pair_spec(plain, incremental, root, i).plain == plain[i]@[a],
        root_pair_spec(plain, incremental, root, i).incremental == incremental[i]@[b],
{
    lemma_first_capture_at(plain[i]@, root, a);
    lemma_first_capture_at(incremental[i]@, root, b);
}

} // verus!
