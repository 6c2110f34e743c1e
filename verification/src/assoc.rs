//! Association lists: lists of named values read as maps in which a later entry
//! for a name overrides an earlier one, so that appending an entry has the effect
//! of a map insertion.

use vstd::prelude::*;
use crate::text::str_equals;

verus! {

/// The map of a list of key/value pairs, a later pair overriding an earlier one.
pub open spec fn assoc<V>(es: Seq<(Seq<char>, V)>) -> Map<Seq<char>, V>
    decreases es.len(),
{
    if es.len() == 0 {
        Map::empty()
    } else {
        assoc(es.drop_last()).insert(es.last().0, es.last().1)
    }
}

/// The abstract pairs of a list of named values.
pub open spec fn pairs_view<'a, T: View>(es: Seq<(&'a str, T)>) -> Seq<(Seq<char>, T::V)> {
    es.map_values(|e: (&'a str, T)| (e.0@, e.1@))
}

/// The map of a list of named values.
pub open spec fn table<'a, T: View>(es: Seq<(&'a str, T)>) -> Map<Seq<char>, T::V> {
    assoc(pairs_view(es))
}

pub proof fn lemma_assoc_push<V>(es: Seq<(Seq<char>, V)>, e: (Seq<char>, V))
    ensures
        assoc(es.push(e)) == assoc(es).insert(e.0, e.1),
{
    assert(es.push(e).drop_last() =~= es);
}

pub proof fn lemma_assoc_found<V>(es: Seq<(Seq<char>, V)>, k: Seq<char>, j: int)
    requires
        0 <= j < es.len(),
        es[j].0 == k,
        forall|i: int| j < i < es.len() ==> es[i].0 != k,
    ensures
        assoc(es).contains_key(k),
        assoc(es)[k] == es[j].1,
    decreases es.len(),
{
    if j < es.len() - 1 {
        lemma_assoc_found(es.drop_last(), k, j);
    }
}

pub proof fn lemma_assoc_absent<V>(es: Seq<(Seq<char>, V)>, k: Seq<char>)
    requires
        forall|i: int| 0 <= i < es.len() ==> es[i].0 != k,
    ensures
        !assoc(es).contains_key(k),
    decreases es.len(),
{
    if es.len() > 0 {
        lemma_assoc_absent(es.drop_last(), k);
    }
}

/// The position of the last entry named `name`, if any.
pub fn find_key<'a, T: View>(es: &Vec<(&'a str, T)>, name: &str) -> (r: Option<usize>)
    ensures
        match r {
            Some(j) => j < es@.len() && es@[j as int].0@ == name@ && table(es@).contains_key(name@)
                && table(es@)[name@] == es@[j as int].1@,
            None => !table(es@).contains_key(name@),
        },
{
    let ghost ps = pairs_view(es@);
    let mut j = es.len();
    while j > 0
        invariant
            j <= es@.len(),
            ps == pairs_view(es@),
            forall|i: int| j <= i < es@.len() ==> ps[i].0 != name@,
        decreases j,
    {
        if str_equals(es[j - 1].0, name) {
            proof { lemma_assoc_found(ps, name@, j - 1); }
            return Some(j - 1);
        }
        j -= 1;
    }
    proof { lemma_assoc_absent(ps, name@); }
    None
}

/// Adds a named value at the end of a list.
pub fn push_entry<'a, T: View>(es: &mut Vec<(&'a str, T)>, name: &'a str, v: T)
    ensures
        table(final(es)@) == table(old(es)@).insert(name@, v@),
        final(es)@ == old(es)@.push((name, v)),
{
    let ghost e = (name@, v@);
    es.push((name, v));
    proof {
        assert(pairs_view(es@) =~= pairs_view(old(es)@).push(e));
        lemma_assoc_push(pairs_view(old(es)@), e);
    }
}

/// The abstract pairs of a list of values named by owned strings.
pub open spec fn owned_pairs_view<T: View>(es: Seq<(String, T)>) -> Seq<(Seq<char>, T::V)> {
    es.map_values(|e: (String, T)| (e.0@, e.1@))
}

/// The map of a list of values named by owned strings.
pub open spec fn owned_table<T: View>(es: Seq<(String, T)>) -> Map<Seq<char>, T::V> {
    assoc(owned_pairs_view(es))
}

/// The position of the last entry named `name`, if any.
pub fn find_owned_key<T: View>(es: &Vec<(String, T)>, name: &str) -> (r: Option<usize>)
    ensures
        match r {
            Some(j) => j < es@.len() && es@[j as int].0@ == name@ && owned_table(es@).contains_key(name@)
                && owned_table(es@)[name@] == es@[j as int].1@,
            None => !owned_table(es@).contains_key(name@),
        },
{
    let ghost ps = owned_pairs_view(es@);
    let mut j = es.len();
    while j > 0
        invariant
            j <= es@.len(),
            ps == owned_pairs_view(es@),
            forall|i: int| j <= i < es@.len() ==> ps[i].0 != name@,
        decreases j,
    {
        if str_equals(es[j - 1].0.as_str(), name) {
            proof { lemma_assoc_found(ps, name@, j - 1); }
            return Some(j - 1);
        }
        j -= 1;
    }
    proof { lemma_assoc_absent(ps, name@); }
    None
}

/// Adds a value named by an owned string at the end of a list.
pub fn push_owned_entry<T: View>(es: &mut Vec<(String, T)>, name: String, v: T)
    ensures
        owned_table(final(es)@) == owned_table(old(es)@).insert(name@, v@),
        final(es)@ == old(es)@.push((name, v)),
{
    let ghost e = (name@, v@);
    es.push((name, v));
    proof {
        assert(owned_pairs_view(es@) =~= owned_pairs_view(old(es)@).push(e));
        lemma_assoc_push(owned_pairs_view(old(es)@), e);
    }
}

} // verus!
