use vstd::prelude::*;
use crate::capture::{
    Capture, QueryMatch, capture_index_for_name, capture_index_spec, first_capture_spec,
    find_capture_from, lemma_first_capture_is_first, lemma_first_capture_at,
    lemma_first_capture_exists, lemma_capture_index_names_capture,
};

verus! {

/// How the query is built: with the precomputed subqueries that let the engine skip
/// subtrees, or plainly.
#[derive(Clone, Copy, Debug, PartialEq, Eq)]
pub enum QueryMode {
    Precomputed,
    Plain,
}

/// The query is built with precomputed subqueries exactly when an incremental run is asked for.
pub fn query_mode(incremental: bool) -> (m: QueryMode)
    ensures
        incremental ==> m == QueryMode::Precomputed,
        !incremental ==> m == QueryMode::Plain,
{
    if incremental {
        QueryMode::Precomputed
    } else {
        QueryMode::Plain
    }
}

/// The indices of the captures that a switch declaration query names: `@name`, `@value`,
/// `@cond` and `@namespace_name`, each absent when the query has no such capture.
#[derive(Clone, Copy, Debug, PartialEq, Eq)]
pub struct SwitchCaptureIds {
    pub name: Option<u32>,
    pub value: Option<u32>,
    pub cond: Option<u32>,
    pub namespace_name: Option<u32>,
}

/// The capture indices of a query with capture names `names`.
pub open spec fn switch_capture_ids_spec(names: Seq<String>) -> SwitchCaptureIds {
    SwitchCaptureIds {
        name: capture_index_spec(names, "name"@),
        value: capture_index_spec(names, "value"@),
        cond: capture_index_spec(names, "cond"@),
        namespace_name: capture_index_spec(names, "namespace_name"@),
    }
}

/// Looks up the four captures of a switch declaration query. A capture that the query lacks
/// is left absent: only a match that needs it fails on it.
pub fn switch_capture_ids(names: &Vec<String>) -> (r: SwitchCaptureIds)
    requires
        names@.len() <= u32::MAX,
    ensures
        r == switch_capture_ids_spec(names@),
{
    SwitchCaptureIds {
        name: capture_index_for_name(names, "name"),
        value: capture_index_for_name(names, "value"),
        cond: capture_index_for_name(names, "cond"),
        namespace_name: capture_index_for_name(names, "namespace_name"),
    }
}

/// A switch declaration found by the query: the switch's name, its value, the parent of the
/// value, the preprocessor condition guarding it when there is one, and the enclosing
/// namespace's name.
#[derive(Clone, Copy, Debug, PartialEq, Eq)]
pub struct SwitchMatch {
    pub name: Capture,
    pub value: Capture,
    pub value_parent: u64,
    pub cond: Option<Capture>,
    pub namespace_name: Capture,
}

/// The first capture of a match with the capture index `id`; none when the query has no
/// such capture.
pub open spec fn capture_of(caps: Seq<Capture>, id: Option<u32>) -> Option<Capture> {
    match id {
        Some(cid) => first_capture_spec(caps, cid),
        None => None,
    }
}

fn capture_for(m: &QueryMatch, id: Option<u32>) -> (r: Option<Capture>)
    ensures
        r == capture_of(m@, id),
{
    match id {
        Some(cid) => m.first_capture(cid),
        None => None,
    }
}

/// The switch declaration read from a match with captures `caps`: there is one when the
/// match captures a name, a value that has a parent, and a namespace name.
pub open spec fn switch_match_spec(caps: Seq<Capture>, ids: SwitchCaptureIds) -> Option<SwitchMatch> {
    match (
        capture_of(caps, ids.name),
        capture_of(caps, ids.value),
        capture_of(caps, ids.namespace_name),
    ) {
        (Some(name), Some(value), Some(namespace_name)) => match value.parent {
            Some(value_parent) => Some(
                SwitchMatch {
                    name,
                    value,
                    value_parent,
                    cond: capture_of(caps, ids.cond),
                    namespace_name,
                },
            ),
            None => None,
        },
        _ => None,
    }
}

/// Reads the switch declaration out of one match.
pub fn read_switch_match(m: &QueryMatch, ids: &SwitchCaptureIds) -> (r: Option<SwitchMatch>)
    ensures
        r == switch_match_spec(m@, *ids),
{
    let name = capture_for(m, ids.name);
    let value = capture_for(m, ids.value);
    let namespace_name = capture_for(m, ids.namespace_name);
    match (name, value, namespace_name) {
        (Some(name), Some(value), Some(namespace_name)) => match value.parent {
            Some(value_parent) => Some(
                SwitchMatch {
                    name,
                    value,
                    value_parent,
                    cond: capture_for(m, ids.cond),
                    namespace_name,
                },
            ),
            None => None,
        },
        _ => None,
    }
}

/// What a switch query run reports: the switch declaration of each match, in match order,
/// and the number of matches.
#[derive(Clone, Debug, PartialEq, Eq)]
pub struct SwitchReport {
    pub switches: Vec<SwitchMatch>,
    pub count: usize,
}

/// Every match holds a switch declaration.
pub open spec fn all_readable(matches: Seq<QueryMatch>, ids: SwitchCaptureIds) -> bool {
    forall|i: int| 0 <= i < matches.len() ==> (#[trigger] switch_match_spec(matches[i]@, ids)) is Some
}

/// How many leading matches hold a switch declaration: the run goes through exactly these
/// before it stops on the first one that does not.
pub fn readable_prefix(matches: &Vec<QueryMatch>, ids: &SwitchCaptureIds) -> (k: usize)
    ensures
        k <= matches@.len(),
        forall|i: int| 0 <= i < k ==> (#[trigger] switch_match_spec(matches@[i]@, *ids)) is Some,
        k < matches@.len() ==> switch_match_spec(matches@[k as int]@, *ids) is None,
{
    let mut k: usize = 0;
    while k < matches.len()
        invariant
            k <= matches@.len(),
            forall|i: int| 0 <= i < k ==> (#[trigger] switch_match_spec(matches@[i]@, *ids)) is Some,
        decreases matches@.len() - k,
    {
        if read_switch_match(&matches[k], ids).is_none() {
            return k;
        }
        k += 1;
    }
    k
}

/// Reads the switch declaration of every match and counts the matches.
pub fn switch_report(matches: &Vec<QueryMatch>, ids: &SwitchCaptureIds) -> (r: SwitchReport)
    requires
        all_readable(matches@, *ids),
    ensures
        r.count == matches@.len(),
        r.switches@.len() == matches@.len(),
        forall|i: int| 0 <= i < matches@.len() ==> Some(#[trigger] r.switches@[i]) == switch_match_spec(matches@[i]@, *ids),
{
    let mut switches: Vec<SwitchMatch> = Vec::new();
    let mut count: usize = 0;
    while count < matches.len()
        invariant
            count <= matches@.len(),
            all_readable(matches@, *ids),
            switches@.len() == count,
            forall|i: int| 0 <= i < count ==> Some(#[trigger] switches@[i]) == switch_match_spec(matches@[i]@, *ids),
        decreases matches@.len() - count,
    {
        assert(switch_match_spec(matches@[count as int]@, *ids) is Some);
        let s = read_switch_match(&matches[count], ids).unwrap();
        switches.push(s);
        count += 1;
    }
    SwitchReport { switches, count }
}

/// The leading matches that `readable_prefix` counts are always accepted by `switch_report`.
pub proof fn lemma_readable_prefix_is_readable(matches: Seq<QueryMatch>, ids: SwitchCaptureIds, k: int)
    requires
        0 <= k <= matches.len(),
        forall|i: int| 0 <= i < k ==> (#[trigger] switch_match_spec(matches[i]@, ids)) is Some,
    ensures
        all_readable(matches.take(k), ids),
{
    assert forall|i: int| 0 <= i < matches.take(k).len() implies (#[trigger] switch_match_spec(matches.take(k)[i]@, ids)) is Some by {
        assert(matches.take(k)[i] == matches[i]);
        assert(switch_match_spec(matches[i]@, ids) is Some);
    }
}

/// A query that lacks `@name`, `@value` or `@namespace_name` yields no switch declaration
/// from any match, while a run over no match at all gets through and counts none.
pub proof fn lemma_missing_capture_fails_per_match(caps: Seq<Capture>, ids: SwitchCaptureIds)
    requires
        ids.name is None || ids.value is None || ids.namespace_name is None,
    ensures
        switch_match_spec(caps, ids) is None,
        all_readable(Seq::<QueryMatch>::empty(), ids),
{
}

/// A switch declaration read from a match is made of captures of that match with the indices
/// of the query's `@name`, `@value`, `@cond` and `@namespace_name`, and the value's parent
/// is the parent recorded with the value capture.
pub proof fn lemma_switch_match_fields(caps: Seq<Capture>, ids: SwitchCaptureIds)
    requires
        switch_match_spec(caps, ids) is Some,
    ensures
        ({
            let s = switch_match_spec(caps, ids).unwrap();
            &&& ids.name == Some(s.name.index) && caps.contains(s.name)
            &&& ids.value == Some(s.value.index) && caps.contains(s.value)
            &&& ids.namespace_name == Some(s.namespace_name.index) && caps.contains(s.namespace_name)
            &&& s.value.parent == Some(s.value_parent)
            &&& s.cond matches Some(c) ==> ids.cond == Some(c.index) && caps.contains(c)
            &&& s.cond is None ==> (ids.cond matches Some(cid) ==> forall|j: int|
                0 <= j < caps.len() ==> caps[j].index != cid)
        }),
{
    let s = switch_match_spec(caps, ids).unwrap();
    let name = ids.name.unwrap();
    let value = ids.value.unwrap();
    let namespace_name = ids.namespace_name.unwrap();
    lemma_first_capture_is_first(caps, name);
    lemma_first_capture_is_first(caps, value);
    lemma_first_capture_is_first(caps, namespace_name);
    assert(caps[find_capture_from(caps, name, 0).unwrap()] == s.name);
    assert(caps[find_capture_from(caps, value, 0).unwrap()] == s.value);
    assert(caps[find_capture_from(caps, namespace_name, 0).unwrap()] == s.namespace_name);
    if let Some(cid) = ids.cond {
        lemma_first_capture_is_first(caps, cid);
        if s.cond is Some {
            assert(caps[find_capture_from(caps, cid, 0).unwrap()] == s.cond.unwrap());
        }
    }
}

/// `id` is where `name` first stands among the capture names `names`, or absent exactly when
/// no capture is called `name`.
pub open spec fn names_first(names: Seq<String>, name: Seq<char>, id: Option<u32>) -> bool {
    match id {
        Some(c) => c < names.len() && names[c as int]@ == name && forall|j: int|
            0 <= j < c ==> names[j]@ != name,
        None => forall|j: int| 0 <= j < names.len() ==> names[j]@ != name,
    }
}

/// Each of the four capture indices is looked up by its own name, wherever that name stands
/// among the capture names.
pub proof fn lemma_switch_capture_ids_by_name(names: Seq<String>)
    requires
        names.len() <= u32::MAX,
    ensures
        names_first(names, "name"@, switch_capture_ids_spec(names).name),
        names_first(names, "value"@, switch_capture_ids_spec(names).value),
        names_first(names, "cond"@, switch_capture_ids_spec(names).cond),
        names_first(names, "namespace_name"@, switch_capture_ids_spec(names).namespace_name),
{
    lemma_capture_index_names_capture(names, "name"@);
    lemma_capture_index_names_capture(names, "value"@);
    lemma_capture_index_names_capture(names, "cond"@);
    lemma_capture_index_names_capture(names, "namespace_name"@);
}

/// The capture at position `a` is the first one with index `cid`.
pub open spec fn first_at(caps: Seq<Capture>, cid: u32, a: int) -> bool {
    &&& 0 <= a < caps.len()
    &&& caps[a].index == cid
    &&& forall|j: int| 0 <= j < a ==> caps[j].index != cid
}

/// Some capture has the index `id`, which the query has.
pub open spec fn has_capture(caps: Seq<Capture>, id: Option<u32>) -> bool {
    match id {
        Some(cid) => exists|a: int| 0 <= a < caps.len() && #[trigger] caps[a].index == cid,
        None => false,
    }
}

/// A match captures a name and a namespace name, and its first value capture has a parent.
pub open spec fn holds_switch(caps: Seq<Capture>, ids: SwitchCaptureIds) -> bool {
    &&& has_capture(caps, ids.name)
    &&& has_capture(caps, ids.namespace_name)
    &&& match ids.value {
        Some(v) => exists|a: int| #[trigger] first_at(caps, v, a) && caps[a].parent is Some,
        None => false,
    }
}

/// A switch declaration is read from a match exactly when the match captures a name and a
/// namespace name and its first value capture has a parent; the `@cond` capture, and the
/// nodes captured, play no part in it.
pub proof fn lemma_switch_read_exactly(caps: Seq<Capture>, ids: SwitchCaptureIds)
    ensures
        switch_match_spec(caps, ids) is Some <==> holds_switch(caps, ids),
{
    if let Some(n) = ids.name {
        lemma_first_capture_exists(caps, n);
    }
    if let Some(ns) = ids.namespace_name {
        lemma_first_capture_exists(caps, ns);
    }
    if let Some(v) = ids.value {
        lemma_first_capture_is_first(caps, v);
        if let Some(a) = find_capture_from(caps, v, 0) {
            assert(first_at(caps, v, a));
            assert forall|b: int| #[trigger] first_at(caps, v, b) implies b == a by {
                if b < a {
                    assert(caps[b].index != v);
                } else if b > a {
                    assert(caps[a].index != v);
                }
            }
        }
    }
}

/// The switch declaration read from a match is made of the first name, value and namespace
/// name captures, the value's parent, and the first `@cond` capture when there is one.
pub proof fn lemma_switch_match_at(
    caps: Seq<Capture>,
    ids: SwitchCaptureIds,
    na: int,
    va: int,
    nsa: int,
)
    requires
        ids.name matches Some(n) && first_at(caps, n, na),
        ids.value matches Some(v) && first_at(caps, v, va),
        ids.namespace_name matches Some(ns) && first_at(caps, ns, nsa),
        caps[va].parent is Some,
    ensures
        switch_match_spec(caps, ids) is Some,
        switch_match_spec(caps, ids).unwrap().name == caps[na],
        switch_match_spec(caps, ids).unwrap().value == caps[va],
        Some(switch_match_spec(caps, ids).unwrap().value_parent) == caps[va].parent,
        switch_match_spec(caps, ids).unwrap().namespace_name == caps[nsa],
        forall|ca: int|
            #![trigger caps[ca]]
            (ids.cond matches Some(c) && first_at(caps, c, ca)) ==> switch_match_spec(caps, ids).unwrap().cond == Some(caps[ca]),
        (ids.cond matches Some(c) ==> forall|j: int| 0 <= j < caps.len() ==> caps[j].index != c)
            ==> switch_match_spec(caps, ids).unwrap().cond is None,
{
    lemma_first_capture_at(caps, ids.name.unwrap(), na);
    lemma_first_capture_at(caps, ids.value.unwrap(), va);
    lemma_first_capture_at(caps, ids.namespace_name.unwrap(), nsa);
    if let Some(c) = ids.cond {
        lemma_first_capture_is_first(caps, c);
        assert forall|ca: int| #![trigger caps[ca]] first_at(caps, c, ca) implies switch_match_spec(caps, ids).unwrap().cond == Some(caps[ca]) by {
            lemma_first_capture_at(caps, c, ca);
        }
    }
}

/// When every match captures a name and a namespace name and its first value capture has a
/// parent, the switch declaration of every match is read: `readable_prefix` is then the
/// number of matches, whatever `@cond` captures the matches hold.
pub proof fn lemma_all_hold_switches(matches: Seq<QueryMatch>, ids: SwitchCaptureIds)
    requires
        forall|i: int| 0 <= i < matches.len() ==> #[trigger] holds_switch(matches[i]@, ids),
    ensures
        all_readable(matches, ids),
        forall|k: int|
            #![trigger switch_match_spec(matches[k]@, ids)]
            0 <= k <= matches.len() && (k < matches.len() ==> switch_match_spec(matches[k]@, ids) is None)
                ==> k == matches.len(),
{
    assert forall|i: int| 0 <= i < matches.len() implies (#[trigger] switch_match_spec(matches[i]@, ids)) is Some by {
        assert(holds_switch(matches[i]@, ids));
        lemma_switch_read_exactly(matches[i]@, ids);
    }
}

} // verus!
