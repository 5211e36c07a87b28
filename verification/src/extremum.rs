//! Extremum selection over partially ordered scores.
//!
//! A maximum scan over a sequence of scores whose order may be partial: when
//! the best score so far and a candidate are incomparable, the candidate wins
//! (a fixed, documented fallback), and when they compare as equal, the earlier
//! score is kept. `selected_index` is the mathematical model of that scan;
//! `displace` is its executable one-step comparison.

use core::cmp::Ordering;
use vstd::prelude::*;
use vstd::std_specs::cmp::PartialOrdSpec;

verus! {

/// Whether a candidate score takes the place of the best score seen so far:
/// it does exactly when the best score is strictly smaller or the two are
/// incomparable; on equality the earlier (best-so-far) score is kept.
pub open spec fn displaces<T: PartialOrd>(best: T, candidate: T) -> bool {
    ||| best.partial_cmp_spec(&candidate) is None
    ||| best.partial_cmp_spec(&candidate) == Some(Ordering::Less)
}

/// The index held by the best-so-far scan after reading the first `n` scores.
pub open spec fn selected_index_upto<T: PartialOrd>(scores: Seq<T>, n: int) -> int
    recommends
        1 <= n <= scores.len(),
    decreases n,
{
    if n <= 1 {
        0
    } else if displaces(scores[selected_index_upto(scores, n - 1)], scores[n - 1]) {
        n - 1
    } else {
        selected_index_upto(scores, n - 1)
    }
}

/// The index of the score that a full left-to-right scan selects.
pub open spec fn selected_index<T: PartialOrd>(scores: Seq<T>) -> int
    recommends
        scores.len() > 0,
{
    selected_index_upto(scores, scores.len() as int)
}

pub proof fn lemma_selected_index_upto_in_range<T: PartialOrd>(scores: Seq<T>, n: int)
    requires
        1 <= n,
    ensures
        0 <= selected_index_upto(scores, n) < n,
    decreases n,
{
    if n > 1 {
        lemma_selected_index_upto_in_range(scores, n - 1);
    }
}

/// The scan always selects one of the scores it was given.
pub proof fn lemma_selected_index_in_range<T: PartialOrd>(scores: Seq<T>)
    requires
        scores.len() > 0,
    ensures
        0 <= selected_index(scores) < scores.len(),
{
    lemma_selected_index_upto_in_range(scores, scores.len() as int);
}

/// The laws of a partial order, stated of a triple of scores: duality of the
/// strict comparisons, symmetry of equality, transitivity of the strict
/// order, and that equal scores compare alike against any third score.
pub open spec fn lawful_cmp<T: PartialOrd>(a: T, b: T, c: T) -> bool {
    &&& (a.partial_cmp_spec(&b) == Some(Ordering::Less) <==> b.partial_cmp_spec(&a) == Some(
        Ordering::Greater,
    ))
    &&& (a.partial_cmp_spec(&b) == Some(Ordering::Equal) <==> b.partial_cmp_spec(&a) == Some(
        Ordering::Equal,
    ))
    &&& (a.partial_cmp_spec(&b) == Some(Ordering::Greater) && b.partial_cmp_spec(&c) == Some(
        Ordering::Greater,
    ) ==> a.partial_cmp_spec(&c) == Some(Ordering::Greater))
    &&& (a.partial_cmp_spec(&b) == Some(Ordering::Equal) ==> a.partial_cmp_spec(&c)
        == b.partial_cmp_spec(&c))
}

/// The partial-order laws hold among all the scores of `s`.
pub open spec fn lawful_cmp_on<T: PartialOrd>(s: Seq<T>) -> bool {
    forall|i: int, j: int, k: int|
        0 <= i < s.len() && 0 <= j < s.len() && 0 <= k < s.len() ==> #[trigger] lawful_cmp(
            s[i],
            s[j],
            s[k],
        )
}

/// Every pair of scores of `s` is comparable.
pub open spec fn comparable_on<T: PartialOrd>(s: Seq<T>) -> bool {
    forall|i: int, j: int|
        #![trigger s[i].partial_cmp_spec(&s[j])]
        0 <= i < s.len() && 0 <= j < s.len() ==> s[i].partial_cmp_spec(&s[j]) is Some
}

/// When every pair of scores is comparable and the partial-order laws hold,
/// the scan selects a maximum: its score compares strictly greater than every
/// earlier score (the first of equals wins) and at least as great as every
/// later one.
pub proof fn lemma_selected_index_upto_maximal<T: PartialOrd>(scores: Seq<T>, n: int)
    requires
        1 <= n <= scores.len(),
        comparable_on(scores),
        lawful_cmp_on(scores),
    ensures
        ({
            let k: int = selected_index_upto(scores, n);
            &&& forall|j: int|
                0 <= j < k ==> scores[k].partial_cmp_spec(&scores[j]) == Some(Ordering::Greater)
            &&& forall|j: int|
                #![trigger scores[k].partial_cmp_spec(&scores[j])]
                k < j < n ==> (scores[k].partial_cmp_spec(&scores[j]) matches Some(
                    Ordering::Greater
                    | Ordering::Equal,
                ))
        }),
    decreases n,
{
    lemma_selected_index_upto_in_range(scores, n);
    if n > 1 {
        lemma_selected_index_upto_in_range(scores, n - 1);
        lemma_selected_index_upto_maximal(scores, n - 1);
        let p: int = selected_index_upto(scores, n - 1);
        let k: int = selected_index_upto(scores, n);
        let last: int = n - 1;
        assert(scores[p].partial_cmp_spec(&scores[last]) is Some);
        if displaces(scores[p], scores[last]) {
            assert(scores[p].partial_cmp_spec(&scores[last]) == Some(Ordering::Less));
            assert(lawful_cmp(scores[p], scores[last], scores[p]));
            assert forall|j: int| 0 <= j < last implies scores[last].partial_cmp_spec(&scores[j])
                == Some(Ordering::Greater) by {
                if j < p {
                    assert(lawful_cmp(scores[last], scores[p], scores[j]));
                } else if j > p {
                    if scores[p].partial_cmp_spec(&scores[j]) == Some(Ordering::Greater) {
                        assert(lawful_cmp(scores[last], scores[p], scores[j]));
                    } else {
                        assert(lawful_cmp(scores[p], scores[j], scores[last]));
                        assert(lawful_cmp(scores[j], scores[last], scores[j]));
                    }
                }
            }
        }
    }
}

/// Tie-break stability: when two scores compare as equal, the scan never
/// selects the later of the two.
pub proof fn lemma_selected_index_tie_break<T: PartialOrd>(scores: Seq<T>, i: int, j: int)
    requires
        comparable_on(scores),
        lawful_cmp_on(scores),
        0 <= i < j < scores.len(),
        scores[i].partial_cmp_spec(&scores[j]) == Some(Ordering::Equal),
    ensures
        selected_index(scores) != j,
{
    lemma_selected_index_upto_maximal(scores, scores.len() as int);
    if selected_index(scores) == j {
        assert(lawful_cmp(scores[i], scores[j], scores[i]));
    }
}

/// Everything a full selection scan promises, for items scored one-to-one by
/// `scores`: an item comes back exactly when there is one, the result is one
/// of the items, and — whenever the score type's comparison has a
/// specification — it is exactly the item at the index the scan model
/// selects.
pub open spec fn selection_post<A, T: PartialOrd>(items: Seq<A>, scores: Seq<T>, r: Option<A>) -> bool {
    &&& (r is Some <==> items.len() > 0)
    &&& (r matches Some(a) ==> exists|i: int| 0 <= i < items.len() && a == items[i])
    &&& (T::obeys_partial_cmp_spec() && items.len() > 0 ==> r == Some(
        items[selected_index(scores)],
    ))
}

/// One step of the scan: whether `candidate` displaces `best`. This is the
/// total-order adapter over a partial `PartialOrd`: an incomparable pair is
/// resolved in favour of the candidate, never reported to the caller.
pub(crate) fn displace<T: PartialOrd>(best: &T, candidate: &T) -> (r: bool)
    ensures
        T::obeys_partial_cmp_spec() ==> r == displaces(*best, *candidate),
{
    match best.partial_cmp(candidate) {
        None => true,
        Some(Ordering::Less) => true,
        Some(Ordering::Equal) => false,
        Some(Ordering::Greater) => false,
    }
}

} // verus!
