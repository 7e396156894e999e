use crate::protocol::Action;
use vstd::prelude::*;

verus! {

/// The time that a plan spends in its timed waits, in milliseconds.
pub open spec fn slept(plan: Seq<Action>) -> nat
    decreases plan.len(),
{
    if plan.len() == 0 {
        0
    } else {
        let head: nat = match plan[0] {
            Action::Sleep(ms) => ms as nat,
            _ => 0,
        };
        head + slept(plan.drop_first())
    }
}

/// How often `action` occurs in a plan.
pub open spec fn occurrences(plan: Seq<Action>, action: Action) -> nat
    decreases plan.len(),
{
    if plan.len() == 0 {
        0
    } else {
        let head: nat = if plan[0] == action { 1 } else { 0 };
        head + occurrences(plan.drop_first(), action)
    }
}

/// The time slept over two plans in a row is the sum of their times.
pub proof fn lemma_slept_concat(a: Seq<Action>, b: Seq<Action>)
    ensures
        slept(a + b) == slept(a) + slept(b),
    decreases a.len(),
{
    if a.len() == 0 {
        assert(a + b =~= b);
    } else {
        assert((a + b).drop_first() =~= a.drop_first() + b);
        lemma_slept_concat(a.drop_first(), b);
    }
}

/// An action occurs in two plans in a row as often as in both together.
pub proof fn lemma_occurrences_concat(a: Seq<Action>, b: Seq<Action>, action: Action)
    ensures
        occurrences(a + b, action) == occurrences(a, action) + occurrences(b, action),
    decreases a.len(),
{
    if a.len() == 0 {
        assert(a + b =~= b);
    } else {
        assert((a + b).drop_first() =~= a.drop_first() + b);
        lemma_occurrences_concat(a.drop_first(), b, action);
    }
}

/// Whether a plan holds no delicate action.
pub open spec fn routine(plan: Seq<Action>) -> bool {
    forall|i: int| 0 <= i < plan.len() ==> !(#[trigger] plan[i]).delicate()
}

/// Two plans in a row hold no delicate action where neither holds one.
pub proof fn lemma_routine_concat(a: Seq<Action>, b: Seq<Action>)
    requires
        routine(a),
        routine(b),
    ensures
        routine(a + b),
{
    assert forall|i: int| 0 <= i < (a + b).len() implies !(#[trigger] (a + b)[i]).delicate() by {
        if i < a.len() {
            assert((a + b)[i] == a[i]);
        } else {
            assert((a + b)[i] == b[i - a.len()]);
        }
    }
}

} // verus!
