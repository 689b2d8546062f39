use vstd::prelude::*;

verus! {

/// One capture of a query match: the capture's index in the query, the captured node, and
/// the parent of that node on the path from the searched root (absent when the node is that
/// root).
#[derive(Clone, Copy, Debug, PartialEq, Eq)]
pub struct Capture {
    pub index: u32,
    pub node: u64,
    pub parent: Option<u64>,
}

/// A match of a query: its captures, in the order in which the query engine reports them.
#[derive(Clone, Debug, PartialEq, Eq)]
pub struct QueryMatch {
    pub captures: Vec<Capture>,
}

impl View for QueryMatch {
    type V = Seq<Capture>;

    open spec fn view(&self) -> Seq<Capture> {
        self.captures@
    }
}

/// Position of the first capture with index `cid` at or after position `i`.
pub open spec fn find_capture_from(caps: Seq<Capture>, cid: u32, i: int) -> Option<int>
    decreases caps.len() - i,
{
    if i < 0 || i >= caps.len() {
        None
    } else if caps[i].index == cid {
        Some(i)
    } else {
        find_capture_from(caps, cid, i + 1)
    }
}

/// The first capture with index `cid`, if there is one.
pub open spec fn first_capture_spec(caps: Seq<Capture>, cid: u32) -> Option<Capture> {
    match find_capture_from(caps, cid, 0) {
        Some(i) => Some(caps[i]),
        None => None,
    }
}

impl QueryMatch {
    /// The first capture of this match whose index is `cid`: what the query engine's
    /// `nodes_for_capture_index(cid).next()` yields.
    pub fn first_capture(&self, cid: u32) -> (r: Option<Capture>)
        ensures
            r == first_capture_spec(self@, cid),
    {
        let mut i: usize = 0;
        while i < self.captures.len()
            invariant
                0 <= i <= self@.len(),
                find_capture_from(self@, cid, 0) == find_capture_from(self@, cid, i as int),
            decreases self@.len() - i,
        {
            if self.captures[i].index == cid {
                return Some(self.captures[i]);
            }
            i += 1;
        }
        None
    }
}

/// The capture names of a query, taken by their text.
pub open spec fn name_views(names: Seq<String>) -> Seq<Seq<char>> {
    names.map_values(|s: String| s@)
}

/// Position of the first name equal to `name` at or after position `i`.
pub open spec fn find_name_from(names: Seq<Seq<char>>, name: Seq<char>, i: int) -> Option<int>
    decreases names.len() - i,
{
    if i < 0 || i >= names.len() {
        None
    } else if names[i] == name {
        Some(i)
    } else {
        find_name_from(names, name, i + 1)
    }
}

/// The index of the capture called `name` in a query whose capture names are `names`.
pub open spec fn capture_index_spec(names: Seq<String>, name: Seq<char>) -> Option<u32> {
    match find_name_from(name_views(names), name, 0) {
        Some(i) => Some(i as u32),
        None => None,
    }
}

/// The index of the capture called `name` in a query whose capture names are `names`:
/// the position of the first such name, as the query engine's `capture_index_for_name`
/// gives it.
pub fn capture_index_for_name(names: &Vec<String>, name: &str) -> (r: Option<u32>)
    requires
        names@.len() <= u32::MAX,
    ensures
        r == capture_index_spec(names@, name@),
{
    let target = name.to_owned();
    let ghost views = name_views(names@);
    let mut i: usize = 0;
    while i < names.len()
        invariant
            0 <= i <= names@.len(),
            names@.len() <= u32::MAX,
            target@ == name@,
            views == name_views(names@),
            find_name_from(views, name@, 0) == find_name_from(views, name@, i as int),
        decreases names@.len() - i,
    {
        assert(views[i as int] == names@[i as int]@);
        if names[i] == target {
            return Some(i as u32);
        }
        i += 1;
    }
    None
}

/// Unfolds `find_capture_from` from position `s` on.
proof fn lemma_find_capture_from(caps: Seq<Capture>, cid: u32, s: int)
    requires
        0 <= s,
    ensures
        find_capture_from(caps, cid, s) matches Some(i) ==> {
            &&& s <= i < caps.len()
            &&& caps[i].index == cid
            &&& forall|j: int| s <= j < i ==> caps[j].index != cid
        },
        find_capture_from(caps, cid, s) is None ==> forall|j: int|
            s <= j < caps.len() ==> caps[j].index != cid,
    decreases caps.len() - s,
{
    if s < caps.len() && caps[s].index != cid {
        lemma_find_capture_from(caps, cid, s + 1);
    }
}

/// Unfolds `find_name_from` from position `s` on.
proof fn lemma_find_name_from(names: Seq<Seq<char>>, name: Seq<char>, s: int)
    requires
        0 <= s,
    ensures
        find_name_from(names, name, s) matches Some(i) ==> {
            &&& s <= i < names.len()
            &&& names[i] == name
            &&& forall|j: int| s <= j < i ==> names[j] != name
        },
        find_name_from(names, name, s) is None ==> forall|j: int|
            s <= j < names.len() ==> names[j] != name,
    decreases names.len() - s,
{
    if s < names.len() && names[s] != name {
        lemma_find_name_from(names, name, s + 1);
    }
}

/// The capture that `first_capture` gives back has the index asked for, and no capture
/// before it has that index; it gives back nothing exactly when no capture has that index.
pub proof fn lemma_first_capture_is_first(caps: Seq<Capture>, cid: u32)
    ensures
        find_capture_from(caps, cid, 0) matches Some(i) ==> {
            &&& 0 <= i < caps.len()
            &&& first_capture_spec(caps, cid) == Some(caps[i])
            &&& caps[i].index == cid
            &&& forall|j: int| 0 <= j < i ==> caps[j].index != cid
        },
        first_capture_spec(caps, cid) is None <==> forall|j: int|
            0 <= j < caps.len() ==> caps[j].index != cid,
{
    lemma_find_capture_from(caps, cid, 0);
}

/// When the capture at position `a` has index `cid` and no capture before it does, it is the
/// capture that `first_capture` gives back, whatever the captured nodes and parents are.
pub proof fn lemma_first_capture_at(caps: Seq<Capture>, cid: u32, a: int)
    requires
        0 <= a < caps.len(),
        caps[a].index == cid,
        forall|j: int| 0 <= j < a ==> caps[j].index != cid,
    ensures
        first_capture_spec(caps, cid) == Some(caps[a]),
{
    lemma_first_capture_is_first(caps, cid);
    let i = find_capture_from(caps, cid, 0).unwrap();
    if i < a {
        assert(caps[i].index != cid);
    } else if i > a {
        assert(caps[a].index != cid);
    }
}

/// A match has a capture with index `cid` exactly when `first_capture` gives one back.
pub proof fn lemma_first_capture_exists(caps: Seq<Capture>, cid: u32)
    ensures
        first_capture_spec(caps, cid) is Some <==> exists|a: int| 0 <= a < caps.len() && #[trigger] caps[a].index == cid,
{
    lemma_first_capture_is_first(caps, cid);
    if first_capture_spec(caps, cid) is Some {
        let i = find_capture_from(caps, cid, 0).unwrap();
        assert(caps[i].index == cid);
    }
}

/// The index that `capture_index_for_name` gives back is that of a capture called `name`,
/// and of the first one; it gives back nothing exactly when no capture is called `name`.
pub proof fn lemma_capture_index_names_capture(names: Seq<String>, name: Seq<char>)
    requires
        names.len() <= u32::MAX,
    ensures
        capture_index_spec(names, name) matches Some(i) ==> {
            &&& i < names.len()
            &&& names[i as int]@ == name
            &&& forall|j: int| 0 <= j < i ==> names[j]@ != name
        },
        capture_index_spec(names, name) is None <==> forall|j: int|
            0 <= j < names.len() ==> names[j]@ != name,
{
    let views = name_views(names);
    lemma_find_name_from(views, name, 0);
    assert(views.len() == names.len());
    assert forall|j: int| 0 <= j < names.len() implies #[trigger] views[j] == names[j]@ by {}
    match find_name_from(views, name, 0) {
        Some(i) => {
            assert(0 <= i < names.len());
            assert((i as u32) as int == i);
            assert forall|j: int| 0 <= j < i implies names[j]@ != name by {
                assert(views[j] != name);
            }
        },
        None => {
            assert forall|j: int| 0 <= j < names.len() implies names[j]@ != name by {
                assert(views[j] != name);
            }
        },
    }
}

/// In a query whose capture names are all different, the index found for the name at
/// position `k` is `k`.
pub proof fn lemma_distinct_names_index(names: Seq<String>, k: int)
    requires
        names.len() <= u32::MAX,
        0 <= k < names.len(),
        forall|i: int, j: int| 0 <= i < j < names.len() ==> names[i]@ != names[j]@,
    ensures
        capture_index_spec(names, names[k]@) == Some(k as u32),
{
    lemma_capture_index_names_capture(names, names[k]@);
    match capture_index_spec(names, names[k]@) {
        Some(i) => {
            if (i as int) < k {
                assert(names[i as int]@ != names[k]@);
            }
        },
        None => {
            assert(names[k]@ == names[k]@);
        },
    }
}

} // verus!
