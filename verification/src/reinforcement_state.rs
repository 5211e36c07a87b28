//! The capability set a state type implements to take part in greedy action
//! selection, and the selection itself.
//!
//! A state enumerates its legal actions, scores each one against a read-only
//! context, and applies an action to produce a successor state. `best_action`
//! and `take_best_action` are implemented once, on top of those three
//! capabilities, and verified here for every implementation that meets the
//! stated contract.

use crate::extremum::{
    comparable_on, displace, lawful_cmp_on, lemma_selected_index_in_range,
    lemma_selected_index_tie_break, lemma_selected_index_upto_maximal, selected_index,
    selected_index_upto, selection_post,
};
use core::cmp::Ordering;
use vstd::prelude::*;
use vstd::std_specs::cmp::PartialOrdSpec;

verus! {

/// A state that can enumerate, score and apply actions.
///
/// The three spec functions are the mathematical model of the three
/// executable capabilities; each executable method must return exactly what
/// its model says, so that the derived selection methods have an exact
/// contract for every implementation.
pub trait ReinforcementState<T>: Sized {
    type Action;

    type Context;

    /// The legal actions from this state, in enumeration order.
    spec fn spec_actions(&self, context: &Self::Context) -> Seq<Self::Action>;

    /// The score of one action taken from this state.
    spec fn spec_evaluate(&self, action: &Self::Action, context: &Self::Context) -> T;

    /// The successor state an action leads to.
    spec fn spec_take_action(self, action: Self::Action, context: &Self::Context) -> Self;

    /// Score one action against this state and context. Only actions the
    /// state enumerates are scored: handing any other action over is a
    /// contract violation by the caller.
    fn evaluate(&self, action: &Self::Action, context: &Self::Context) -> (score: T)
        requires
            self.spec_actions(context).contains(*action),
        ensures
            score == self.spec_evaluate(action, context),
    ;

    /// Enumerate the legal actions from this state. The order is chosen by
    /// the implementation, but is fixed for fixed state and context, so that
    /// tie-breaking is reproducible.
    fn actions(&self, context: &Self::Context) -> (acts: Vec<Self::Action>)
        ensures
            acts@ == self.spec_actions(context),
    ;

    /// Apply one action, consuming this state and producing its successor.
    /// Only actions the state enumerates may be applied: handing any other
    /// action over is a contract violation by the caller.
    fn take_action(self, action: Self::Action, context: &Self::Context) -> (next: Self)
        requires
            self.spec_actions(context).contains(action),
        ensures
            next == self.spec_take_action(action, context),
    ;

    /// Select the legal action with the maximal score, or `None` when no
    /// action is legal. Ties keep the action enumerated first; an
    /// incomparable pair of scores is resolved in favour of the later action.
    fn best_action(&self, context: &Self::Context) -> (r: Option<Self::Action>) where
        T: PartialOrd,

        ensures
            selection_post(
                self.spec_actions(context),
                self.spec_actions(context).map(
                    |i: int, a: Self::Action| self.spec_evaluate(&a, context),
                ),
                r,
            ),
    {
        let mut acts = self.actions(context);
        if acts.len() == 0 {
            return None;
        }
        let ghost scores = self.spec_actions(context).map(
            |i: int, a: Self::Action| self.spec_evaluate(&a, context),
        );
        proof {
            assert(self.spec_actions(context).contains(acts@[0])) by {
                assert(self.spec_actions(context)[0] == acts@[0]);
            }
        }
        let mut best_score: T = self.evaluate(&acts[0], context);
        let mut best_i: usize = 0;
        let mut i: usize = 1;
        while i < acts.len()
            invariant
                acts@ == self.spec_actions(context),
                scores == self.spec_actions(context).map(
                    |i: int, a: Self::Action| self.spec_evaluate(&a, context),
                ),
                scores.len() == acts@.len(),
                1 <= i <= acts@.len(),
                best_i < i,
                best_score == scores[best_i as int],
                T::obeys_partial_cmp_spec() ==> best_i as int == selected_index_upto(
                    scores,
                    i as int,
                ),
            decreases acts@.len() - i,
        {
            proof {
                assert(self.spec_actions(context).contains(acts@[i as int])) by {
                    assert(self.spec_actions(context)[i as int] == acts@[i as int]);
                }
            }
            let score = self.evaluate(&acts[i], context);
            if displace(&best_score, &score) {
                best_i = i;
                best_score = score;
            }
            i = i + 1;
        }
        Some(acts.remove(best_i))
    }

    /// Select the best action and apply it, or return `None` when no action
    /// is legal (the state is consumed either way).
    fn take_best_action(self, context: &Self::Context) -> (r: Option<Self>) where
        T: PartialOrd,

        ensures
            selection_post(
                self.spec_actions(context).map(
                    |i: int, a: Self::Action| self.spec_take_action(a, context),
                ),
                self.spec_actions(context).map(
                    |i: int, a: Self::Action| self.spec_evaluate(&a, context),
                ),
                r,
            ),
    {
        let ghost acts = self.spec_actions(context);
        let ghost succs = acts.map(|i: int, a: Self::Action| self.spec_take_action(a, context));
        let ghost scores = acts.map(|i: int, a: Self::Action| self.spec_evaluate(&a, context));
        match self.best_action(context) {
            None => None,
            Some(action) => {
                let ghost act = action;
                proof {
                    let i: int = choose|i: int| 0 <= i < acts.len() && act == acts[i];
                    assert(self.spec_actions(context).contains(act)) by {
                        assert(self.spec_actions(context)[i] == act);
                    }
                }
                let next = self.take_action(action, context);
                proof {
                    let i: int = choose|i: int| 0 <= i < acts.len() && act == acts[i];
                    assert(succs[i] == self.spec_take_action(acts[i], context));
                    if T::obeys_partial_cmp_spec() {
                        lemma_selected_index_in_range(scores);
                        let k: int = selected_index(scores);
                        assert(succs[k] == self.spec_take_action(acts[k], context));
                    }
                }
                Some(next)
            },
        }
    }
}

/// The scores of the legal actions, in enumeration order.
pub open spec fn action_scores<T, S: ReinforcementState<T>>(s: &S, c: &S::Context) -> Seq<T> {
    s.spec_actions(c).map(|i: int, a: S::Action| s.spec_evaluate(&a, c))
}

/// What `best_action` ensures, written over the state: its ensures clause is
/// exactly `selection_post` of the legal actions and their scores.
pub open spec fn best_action_post<T: PartialOrd, S: ReinforcementState<T>>(
    s: &S,
    c: &S::Context,
    r: Option<S::Action>,
) -> bool {
    selection_post(s.spec_actions(c), action_scores(s, c), r)
}

/// What `take_best_action` ensures, written over the state: its ensures
/// clause is exactly `selection_post` of the successor states and the scores.
pub open spec fn take_best_action_post<T: PartialOrd, S: ReinforcementState<T>>(
    s: S,
    c: &S::Context,
    r: Option<S>,
) -> bool {
    selection_post(
        s.spec_actions(c).map(|i: int, a: S::Action| s.spec_take_action(a, c)),
        action_scores(&s, c),
        r,
    )
}

/// Maximality: the score of the action `best_action` returns compares at
/// least as great as the score of every other legal action, whenever the
/// score type's comparison has a specification, every pair of evaluated
/// scores is comparable, and the scores obey the partial-order laws.
pub proof fn lemma_best_action_score_maximal<T: PartialOrd, S: ReinforcementState<T>>(
    s: &S,
    c: &S::Context,
    r: Option<S::Action>,
)
    requires
        T::obeys_partial_cmp_spec(),
        best_action_post(s, c, r),
        comparable_on(action_scores(s, c)),
        lawful_cmp_on(action_scores(s, c)),
    ensures
        ({
            let scores = action_scores(s, c);
            let k: int = selected_index(scores);
            r is Some ==> {
                &&& r == Some(s.spec_actions(c)[k])
                &&& forall|j: int|
                    #![trigger scores[k].partial_cmp_spec(&scores[j])]
                    0 <= j < scores.len() && j != k ==> (scores[k].partial_cmp_spec(&scores[j])
                        matches Some(Ordering::Greater | Ordering::Equal))
            }
        }),
{
    if r is Some {
        let scores = action_scores(s, c);
        assert(scores.len() == s.spec_actions(c).len());
        lemma_selected_index_in_range(scores);
        lemma_selected_index_upto_maximal(scores, scores.len() as int);
    }
}

/// Tie-break stability: when the scores of two legal actions compare as
/// equal, the action `best_action` returns is never the later of the two,
/// whenever the score type's comparison has a specification, every pair of
/// evaluated scores is comparable, and the scores obey the partial-order
/// laws.
pub proof fn lemma_best_action_tie_break<T: PartialOrd, S: ReinforcementState<T>>(
    s: &S,
    c: &S::Context,
    r: Option<S::Action>,
    i: int,
    j: int,
)
    requires
        T::obeys_partial_cmp_spec(),
        best_action_post(s, c, r),
        comparable_on(action_scores(s, c)),
        lawful_cmp_on(action_scores(s, c)),
        0 <= i < j < action_scores(s, c).len(),
        action_scores(s, c)[i].partial_cmp_spec(&action_scores(s, c)[j]) == Some(Ordering::Equal),
    ensures
        ({
            let k: int = selected_index(action_scores(s, c));
            k != j && r == Some(s.spec_actions(c)[k])
        }),
{
    assert(action_scores(s, c).len() == s.spec_actions(c).len());
    lemma_selected_index_tie_break(action_scores(s, c), i, j);
}

/// Determinism: any two results that `best_action` can return for the same
/// state and context are the same action, whenever the score type's
/// comparison has a specification.
pub proof fn lemma_best_action_deterministic<T: PartialOrd, S: ReinforcementState<T>>(
    s: &S,
    c: &S::Context,
    r1: Option<S::Action>,
    r2: Option<S::Action>,
)
    requires
        T::obeys_partial_cmp_spec(),
        best_action_post(s, c, r1),
        best_action_post(s, c, r2),
    ensures
        r1 == r2,
{
}

/// Composition: what `take_best_action` returns is what `best_action`
/// followed by `take_action` returns — the successor reached by the selected
/// action, or `None` when no action is legal — whenever the score type's
/// comparison has a specification.
pub proof fn lemma_take_best_action_composes<T: PartialOrd, S: ReinforcementState<T>>(
    s: S,
    c: &S::Context,
    ra: Option<S::Action>,
    rt: Option<S>,
)
    requires
        T::obeys_partial_cmp_spec(),
        best_action_post(&s, c, ra),
        take_best_action_post(s, c, rt),
    ensures
        rt == match ra {
            None => None::<S>,
            Some(a) => Some(s.spec_take_action(a, c)),
        },
{
    let acts = s.spec_actions(c);
    let scores = action_scores(&s, c);
    let succs = acts.map(|i: int, a: S::Action| s.spec_take_action(a, c));
    if acts.len() > 0 {
        lemma_selected_index_in_range(scores);
        let k: int = selected_index(scores);
        assert(succs[k] == s.spec_take_action(acts[k], c));
    }
}

} // verus!
