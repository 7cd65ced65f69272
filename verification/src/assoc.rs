//! Lists of bindings from names to values.
//!
//! A list of bindings is read from its end: where a name is bound more than
//! once, the binding given last is the one that counts. Adding a binding is
//! therefore a push, and a map built by inserting the bindings in order
//! holds for each name what [`lookup`] finds.

use crate::text::texts;
use vstd::prelude::*;

verus! {

/// An environment: names and the values that they are bound to.
pub type Environment = Seq<(Seq<char>, Seq<char>)>;

/// The value that `entries` binds to `key`, if any.
pub open spec fn lookup<V>(entries: Seq<(Seq<char>, V)>, key: Seq<char>) -> Option<V>
    decreases entries.len(),
{
    if entries.len() == 0 {
        None
    } else if entries.last().0 == key {
        Some(entries.last().1)
    } else {
        lookup(entries.drop_last(), key)
    }
}

/// The names of `entries`, in order.
pub open spec fn names<V>(entries: Seq<(Seq<char>, V)>) -> Seq<Seq<char>> {
    entries.map_values(|entry: (Seq<char>, V)| entry.0)
}

/// The view of a list of bindings from names to strings.
pub open spec fn pairs_view(entries: Seq<(String, String)>) -> Seq<(Seq<char>, Seq<char>)> {
    entries.map_values(|entry: (String, String)| (entry.0@, entry.1@))
}

/// A binding that is pushed is found, and hides no other name.
pub proof fn lemma_lookup_push<V>(entries: Seq<(Seq<char>, V)>, key: Seq<char>, value: V)
    ensures
        lookup(entries.push((key, value)), key) == Some(value),
        forall|other: Seq<char>|
            other != key ==> lookup(entries.push((key, value)), other) == lookup(entries, other),
{
    let pushed = entries.push((key, value));
    assert(pushed.drop_last() =~= entries);
}

/// A name that some binding of `entries` binds is found, with the value of
/// one of its bindings.
pub proof fn lemma_lookup_bound<V>(entries: Seq<(Seq<char>, V)>, key: Seq<char>, i: int)
    requires
        0 <= i < entries.len(),
        entries[i].0 == key,
    ensures
        lookup(entries, key) is Some,
    decreases entries.len(),
{
    if entries.last().0 != key {
        lemma_lookup_bound(entries.drop_last(), key, i);
    }
}

/// Looks `key` up in `entries`.
pub fn find(entries: &Vec<(String, String)>, key: &str) -> (r: Option<String>)
    ensures
        match lookup(pairs_view(entries@), key@) {
            Some(value) => r matches Some(found) && found@ == value,
            None => r is None,
        },
{
    let wanted = key.to_owned();
    let mut i: usize = entries.len();
    assert(pairs_view(entries@).take(i as int) =~= pairs_view(entries@));
    while i > 0
        invariant
            i <= entries.len(),
            wanted@ == key@,
            lookup(pairs_view(entries@), key@) == lookup(pairs_view(entries@).take(i as int), key@),
        decreases i,
    {
        proof {
            let prefix = pairs_view(entries@).take(i as int);
            assert(prefix.drop_last() =~= pairs_view(entries@).take(i - 1));
        }
        i -= 1;
        if entries[i].0 == wanted {
            return Some(entries[i].1.clone());
        }
    }
    None
}

/// The names that `entries` binds, in order.
pub fn keys(entries: &Vec<(String, String)>) -> (r: Vec<String>)
    ensures
        texts(r@) == names(pairs_view(entries@)),
{
    let mut out: Vec<String> = Vec::new();
    let mut i: usize = 0;
    while i < entries.len()
        invariant
            i <= entries.len(),
            out@.len() == i,
            forall|j: int| 0 <= j < i ==> out@[j]@ == entries@[j].0@,
        decreases entries.len() - i,
    {
        out.push(entries[i].0.clone());
        i += 1;
    }
    out
}

/// A copy of `entries`.
pub fn duplicate(entries: &Vec<(String, String)>) -> (r: Vec<(String, String)>)
    ensures
        pairs_view(r@) == pairs_view(entries@),
{
    let mut out: Vec<(String, String)> = Vec::new();
    let mut i: usize = 0;
    while i < entries.len()
        invariant
            i <= entries.len(),
            out@.len() == i,
            forall|j: int|
                0 <= j < i ==> out@[j].0@ == entries@[j].0@ && out@[j].1@ == entries@[j].1@,
        decreases entries.len() - i,
    {
        out.push((entries[i].0.clone(), entries[i].1.clone()));
        i += 1;
    }
    out
}

} // verus!
