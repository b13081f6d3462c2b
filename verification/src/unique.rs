//! Dropping repeated items from a list, keeping each item where it first
//! occurs.

use crate::keys::Pubkey;
use itertools::Itertools;
use vstd::prelude::*;

verus! {

/// The items of `s` without repeats: each item stands once, where it first
/// occurs in `s`.
pub open spec fn first_occurrences<T>(s: Seq<T>) -> Seq<T>
    decreases s.len(),
{
    if s.len() == 0 {
        Seq::empty()
    } else {
        let before = first_occurrences(s.drop_last());
        if before.contains(s.last()) {
            before
        } else {
            before.push(s.last())
        }
    }
}

/// The byte sequences of a list of identifiers.
pub open spec fn key_views(keys: Seq<Pubkey>) -> Seq<Seq<u8>> {
    keys.map_values(|k: Pubkey| k@)
}

/// Dropping repeats neither loses an item nor invents one.
pub proof fn lemma_same_items<T>(s: Seq<T>)
    ensures
        forall|x: T| first_occurrences(s).contains(x) <==> s.contains(x),
    decreases s.len(),
{
    if s.len() > 0 {
        let rest = s.drop_last();
        let before = first_occurrences(rest);
        lemma_same_items(rest);
        assert forall|x: T| first_occurrences(s).contains(x) <==> s.contains(x) by {
            if s.contains(x) {
                let i = choose|i: int| 0 <= i < s.len() && s[i] == x;
                if i < rest.len() {
                    assert(rest[i] == x);
                    assert(rest.contains(x));
                    assert(before.contains(x));
                    let j = choose|j: int| 0 <= j < before.len() && before[j] == x;
                    assert(first_occurrences(s)[j] == x);
                } else if !before.contains(s.last()) {
                    assert(first_occurrences(s)[before.len() as int] == x);
                }
            }
            if first_occurrences(s).contains(x) {
                let j = choose|j: int| 0 <= j < first_occurrences(s).len() && first_occurrences(s)[j] == x;
                if j < before.len() {
                    assert(before[j] == x);
                    assert(before.contains(x));
                    assert(rest.contains(x));
                    let i = choose|i: int| 0 <= i < rest.len() && rest[i] == x;
                    assert(s[i] == x);
                } else {
                    assert(s[s.len() - 1] == x);
                }
            }
        }
    }
}

/// What is left after dropping repeats holds nothing twice.
pub proof fn lemma_no_repeats<T>(s: Seq<T>)
    ensures
        first_occurrences(s).no_duplicates(),
    decreases s.len(),
{
    if s.len() > 0 {
        lemma_no_repeats(s.drop_last());
    }
}

/// As many items are left as `s` has distinct items.
pub proof fn lemma_distinct_count<T>(s: Seq<T>)
    ensures
        first_occurrences(s).len() == s.to_set().len(),
{
    lemma_same_items(s);
    lemma_no_repeats(s);
    first_occurrences(s).unique_seq_to_set();
    assert(first_occurrences(s).to_set() =~= s.to_set());
}

/// The item left at position `j` first occurs in `s` at the position
/// handed back, and the items of `s` before that position are the items left
/// before `j`.
pub proof fn lemma_first_position<T>(s: Seq<T>, j: int) -> (i: int)
    requires
        0 <= j < first_occurrences(s).len(),
    ensures
        0 <= i < s.len(),
        s[i] == first_occurrences(s)[j],
        forall|x: T| s.take(i).contains(x) <==> first_occurrences(s).take(j).contains(x),
    decreases s.len(),
{
    let rest = s.drop_last();
    let before = first_occurrences(rest);
    if j < before.len() {
        let i = lemma_first_position(rest, j);
        assert(s.take(i) =~= rest.take(i));
        assert(first_occurrences(s).take(j) =~= before.take(j));
        i
    } else {
        lemma_same_items(rest);
        assert(s.take(s.len() - 1) =~= rest);
        assert(first_occurrences(s).take(j) =~= before);
        s.len() - 1
    }
}

/// Trusted: `Itertools::unique` over the indices, collected, yields each
/// index once, in the order in which the indices first occur.
#[verifier::external_body]
pub(crate) fn unique_indices(indices: &Vec<usize>) -> (distinct: Vec<usize>)
    ensures
        distinct@ == first_occurrences(indices@),
{
    indices.iter().copied().unique().collect()
}

/// Trusted: `Itertools::unique` over the identifiers, collected, yields each
/// identifier once, in the order in which the identifiers first occur.
/// Identifiers are the same when their bytes are.
#[verifier::external_body]
pub(crate) fn unique_keys(keys: &Vec<Pubkey>) -> (distinct: Vec<Pubkey>)
    ensures
        key_views(distinct@) == first_occurrences(key_views(keys@)),
{
    keys.iter().copied().unique().collect()
}

} // verus!
