//! Searching a list for its first wanted item by way of its distinct items.
//!
//! A search that looks at each distinct item once, in the order of first
//! occurrence, and stops at the first wanted one finds what a search through
//! the whole list finds, and has then looked at as many items as the list
//! has distinct items up to that point.

use crate::unique::{
    first_occurrences, lemma_distinct_count, lemma_first_position, lemma_no_repeats,
    lemma_same_items,
};
use vstd::prelude::*;
use vstd::seq_lib::seq_to_set_is_finite;
use vstd::set_lib::lemma_len_subset;

verus! {

/// Whether `at` is the first position of `s` that holds a wanted item.
pub open spec fn is_first<T>(s: Seq<T>, wanted: spec_fn(T) -> bool, at: int) -> bool {
    &&& 0 <= at < s.len()
    &&& wanted(s[at])
    &&& forall|j: int| 0 <= j < at ==> !wanted(#[trigger] s[j])
}

/// The first position of `s` that holds a wanted item, if there is one.
pub open spec fn first_position<T>(s: Seq<T>, wanted: spec_fn(T) -> bool) -> Option<int> {
    if exists|at: int| is_first(s, wanted, at) {
        Some(choose|at: int| is_first(s, wanted, at))
    } else {
        None
    }
}

/// The distinct items that a search looks at: those up to and including the
/// first wanted one, or all of them when none is wanted.
pub open spec fn looked_at<T>(s: Seq<T>, wanted: spec_fn(T) -> bool) -> Set<T> {
    match first_position(s, wanted) {
        Some(at) => s.take(at + 1).to_set(),
        None => s.to_set(),
    }
}

/// There is only one first wanted position.
pub proof fn lemma_first_is_unique<T>(s: Seq<T>, wanted: spec_fn(T) -> bool, at: int)
    requires
        is_first(s, wanted, at),
    ensures
        first_position(s, wanted) == Some(at),
{
    let chosen = choose|c: int| is_first(s, wanted, c);
    if chosen < at {
        assert(!wanted(s[chosen]));
    }
    if at < chosen {
        assert(!wanted(s[at]));
    }
}

/// Where no item is wanted, there is no first wanted position.
pub proof fn lemma_none_wanted<T>(s: Seq<T>, wanted: spec_fn(T) -> bool)
    requires
        forall|i: int| 0 <= i < s.len() ==> !wanted(#[trigger] s[i]),
    ensures
        first_position(s, wanted) is None,
{
}

/// Where some item is wanted, there is a first one, at the position handed
/// back.
pub proof fn lemma_some_wanted<T>(s: Seq<T>, wanted: spec_fn(T) -> bool, at: int) -> (first: int)
    requires
        0 <= at < s.len(),
        wanted(s[at]),
    ensures
        first <= at,
        is_first(s, wanted, first),
        first_position(s, wanted) == Some(first),
    decreases at,
{
    if exists|j: int| 0 <= j < at && wanted(#[trigger] s[j]) {
        let j = choose|j: int| 0 <= j < at && wanted(#[trigger] s[j]);
        lemma_some_wanted(s, wanted, j)
    } else {
        lemma_first_is_unique(s, wanted, at);
        at
    }
}

/// A search through the distinct items of `s` that stops at its `n`-th
/// item has found the first wanted item of `s`, and has looked at `n + 1`
/// distinct items.
pub proof fn lemma_search_stops<T>(s: Seq<T>, wanted: spec_fn(T) -> bool, n: int)
    requires
        0 <= n < first_occurrences(s).len(),
        wanted(first_occurrences(s)[n]),
        forall|j: int| 0 <= j < n ==> !wanted(#[trigger] first_occurrences(s)[j]),
    ensures
        first_position(s, wanted) is Some,
        s[first_position(s, wanted)->Some_0] == first_occurrences(s)[n],
        looked_at(s, wanted).len() == n + 1,
        n + 1 <= s.to_set().len(),
{
    broadcast use seq_to_set_is_finite;

    let distinct = first_occurrences(s);
    let at = lemma_first_position(s, n);
    assert forall|j: int| 0 <= j < at implies !wanted(#[trigger] s[j]) by {
        assert(s.take(at)[j] == s[j]);
        assert(s.take(at).contains(s[j]));
        assert(distinct.take(n).contains(s[j]));
        let k = choose|k: int| 0 <= k < distinct.take(n).len() && distinct.take(n)[k] == s[j];
        assert(distinct[k] == s[j]);
    }
    lemma_first_is_unique(s, wanted, at);
    let seen = s.take(at + 1);
    let kept = distinct.take(n + 1);
    assert forall|x: T| seen.to_set().contains(x) <==> kept.to_set().contains(x) by {
        if seen.contains(x) {
            let i = choose|i: int| 0 <= i < seen.len() && seen[i] == x;
            if i < at {
                assert(s.take(at)[i] == x);
                assert(s.take(at).contains(x));
                assert(distinct.take(n).contains(x));
                let k = choose|k: int| 0 <= k < distinct.take(n).len() && distinct.take(n)[k] == x;
                assert(kept[k] == x);
            } else {
                assert(kept[n] == x);
            }
        }
        if kept.contains(x) {
            let k = choose|k: int| 0 <= k < kept.len() && kept[k] == x;
            if k < n {
                assert(distinct.take(n)[k] == x);
                assert(distinct.take(n).contains(x));
                assert(s.take(at).contains(x));
                let i = choose|i: int| 0 <= i < s.take(at).len() && s.take(at)[i] == x;
                assert(seen[i] == x);
            } else {
                assert(seen[at] == x);
            }
        }
    }
    assert(seen.to_set() =~= kept.to_set());
    lemma_no_repeats(s);
    kept.unique_seq_to_set();
    assert forall|x: T| seen.to_set().contains(x) implies s.to_set().contains(x) by {
        let i = choose|i: int| 0 <= i < seen.len() && seen[i] == x;
        assert(s[i] == x);
    }
    lemma_len_subset(seen.to_set(), s.to_set());
}

/// A search through the distinct items of `s` that runs to the end has
/// found that `s` holds no wanted item, and has looked at every distinct
/// item.
pub proof fn lemma_search_ends<T>(s: Seq<T>, wanted: spec_fn(T) -> bool)
    requires
        forall|j: int|
            0 <= j < first_occurrences(s).len() ==> !wanted(#[trigger] first_occurrences(s)[j]),
    ensures
        first_position(s, wanted) is None,
        forall|i: int| 0 <= i < s.len() ==> !wanted(#[trigger] s[i]),
        looked_at(s, wanted).len() == first_occurrences(s).len(),
        first_occurrences(s).len() == s.to_set().len(),
{
    let distinct = first_occurrences(s);
    lemma_same_items(s);
    assert forall|i: int| 0 <= i < s.len() implies !wanted(#[trigger] s[i]) by {
        assert(s.contains(s[i]));
        assert(distinct.contains(s[i]));
        let k = choose|k: int| 0 <= k < distinct.len() && distinct[k] == s[i];
        assert(!wanted(distinct[k]));
    }
    lemma_none_wanted(s, wanted);
    lemma_distinct_count(s);
}

} // verus!
