//! Tables keyed by name: vectors of (name, value) pairs, looked up by the last
//! entry with the name.
use vstd::prelude::*;
use crate::text::str_eq;

verus! {

/// The value of the last entry named `k`, if any.
pub open spec fn lookup<T>(s: Seq<(String, T)>, k: Seq<char>) -> Option<T>
    decreases s.len(),
{
    if s.len() == 0 {
        None
    } else if s.last().0@ == k {
        Some(s.last().1)
    } else {
        lookup(s.drop_last(), k)
    }
}

/// No two entries share a name.
pub open spec fn distinct_keys<T>(s: Seq<(String, T)>) -> bool {
    forall|i: int, j: int| 0 <= i < j < s.len() ==> #[trigger] s[i].0@ != #[trigger] s[j].0@
}

/// Looking up any name after appending an entry.
pub proof fn lemma_lookup_push<T>(s: Seq<(String, T)>, e: (String, T), k: Seq<char>)
    ensures
        lookup(s.push(e), k) == if e.0@ == k {
            Some(e.1)
        } else {
            lookup(s, k)
        },
{
    assert(s.push(e).drop_last() =~= s);
}

/// A name no entry carries is not found.
pub proof fn lemma_lookup_absent<T>(s: Seq<(String, T)>, k: Seq<char>)
    requires
        forall|j: int| 0 <= j < s.len() ==> #[trigger] s[j].0@ != k,
    ensures
        lookup(s, k) is None,
    decreases s.len(),
{
    if s.len() > 0 {
        lemma_lookup_absent(s.drop_last(), k);
    }
}

/// The entry found is the last with its name.
pub proof fn lemma_lookup_last<T>(s: Seq<(String, T)>, i: int, k: Seq<char>)
    requires
        0 <= i < s.len(),
        s[i].0@ == k,
        forall|j: int| i < j < s.len() ==> #[trigger] s[j].0@ != k,
    ensures
        lookup(s, k) == Some(s[i].1),
    decreases s.len(),
{
    if i < s.len() - 1 {
        lemma_lookup_last(s.drop_last(), i, k);
    }
}

/// Replacing the value of the last entry named `k` changes what `k` finds and
/// nothing else.
pub proof fn lemma_lookup_update<T>(s: Seq<(String, T)>, i: int, e: (String, T), k2: Seq<char>)
    requires
        0 <= i < s.len(),
        s[i].0@ == e.0@,
        forall|j: int| i < j < s.len() ==> #[trigger] s[j].0@ != e.0@,
    ensures
        lookup(s.update(i, e), k2) == if k2 == e.0@ {
            Some(e.1)
        } else {
            lookup(s, k2)
        },
    decreases s.len(),
{
    let t = s.update(i, e);
    if k2 == e.0@ {
        lemma_lookup_last(t, i, k2);
    } else if i == s.len() - 1 {
        assert(t.drop_last() =~= s.drop_last());
    } else {
        assert(t.drop_last() =~= s.drop_last().update(i, e));
        lemma_lookup_update(s.drop_last(), i, e, k2);
    }
}

/// The index of the last entry named `name`, if any.
pub fn find_last<T>(entries: &Vec<(String, T)>, name: &str) -> (r: Option<usize>)
    ensures
        match r {
            Some(i) => i < entries@.len() && entries@[i as int].0@ == name@ && lookup(entries@, name@)
                == Some(entries@[i as int].1) && forall|j: int|
                i < j < entries@.len() ==> #[trigger] entries@[j].0@ != name@,
            None => lookup(entries@, name@) is None && forall|j: int|
                0 <= j < entries@.len() ==> #[trigger] entries@[j].0@ != name@,
        },
{
    let mut i: usize = entries.len();
    while i > 0
        invariant
            i <= entries@.len(),
            forall|j: int| i <= j < entries@.len() ==> #[trigger] entries@[j].0@ != name@,
        decreases i,
    {
        if str_eq(entries[i - 1].0.as_str(), name) {
            proof {
                lemma_lookup_last(entries@, i - 1, name@);
            }
            return Some(i - 1);
        }
        i = i - 1;
    }
    proof {
        lemma_lookup_absent(entries@, name@);
    }
    None
}

} // verus!
