use crate::humanize::{
    human_pause_with_keepalive, lemma_pause_routine, lemma_typing_routine, pause_plan,
    typing_plan,
};
use crate::plan::{lemma_routine_concat, routine};
use crate::protocol::{Action, Control, Page};
use vstd::prelude::*;

verus! {

/// Wait on the neutral page, in milliseconds.
pub const BLANK_SETTLE_MS: u64 = 300;

/// Pause once the entry page has loaded, in milliseconds.
pub const HOME_SETTLE_MS: u64 = 960;

/// Wait between the last typed character and the submission, in
/// milliseconds.
pub const TYPED_SETTLE_MS: u64 = 450;

/// Pause once the first result page has loaded, in milliseconds.
pub const SUBMIT_SETTLE_MS: u64 = 600;

/// Getting to the query field: a neutral page first, then the entry page;
/// once it has settled the location prompt is dismissed, and the field is
/// found and clicked.
pub open spec fn approach_plan() -> Seq<Action> {
    seq![
        Action::Navigate(Page::Blank),
        Action::Sleep(BLANK_SETTLE_MS),
        Action::Ping,
        Action::Navigate(Page::SearchHome),
        Action::AwaitNavigation,
    ] + pause_plan(HOME_SETTLE_MS) + seq![
        Action::DismissPrompt,
        Action::Locate(Control::QueryInput),
        Action::Click,
    ]
}

/// Submitting what was typed: a short wait, the Enter key, the wait for the
/// navigation, and a pause.
pub open spec fn submit_plan() -> Seq<Action> {
    seq![Action::Sleep(TYPED_SETTLE_MS), Action::PressEnter, Action::AwaitNavigation] + pause_plan(
        SUBMIT_SETTLE_MS,
    )
}

/// A query from the neutral page to its first result page: getting to the
/// query field, typing the query with the given waits, and submitting it.
pub open spec fn opening_plan(query: Seq<char>, delays: Seq<u64>) -> Seq<Action> {
    approach_plan() + typing_plan(query, delays) + submit_plan()
}

/// Whether a plan holds no delicate action but going to a page.
pub open spec fn only_navigates(plan: Seq<Action>) -> bool {
    forall|i: int| 0 <= i < plan.len() && (#[trigger] plan[i]).delicate() ==> plan[i] is Navigate
}

/// Two plans in a row hold no delicate action but going to a page where
/// neither does.
pub proof fn lemma_only_navigates_concat(a: Seq<Action>, b: Seq<Action>)
    requires
        only_navigates(a),
        only_navigates(b),
    ensures
        only_navigates(a + b),
{
    assert forall|i: int| 0 <= i < (a + b).len() && (#[trigger] (a + b)[i]).delicate() implies (a
        + b)[i] is Navigate by {
        if i < a.len() {
            assert((a + b)[i] == a[i]);
        } else {
            assert((a + b)[i] == b[i - a.len()]);
        }
    }
}

/// Opening a query starts on the neutral page, and holds no delicate action
/// but going to a page.
pub proof fn lemma_opening_plan(query: Seq<char>, delays: Seq<u64>)
    ensures
        only_navigates(opening_plan(query, delays)),
        opening_plan(query, delays).len() > 0,
        opening_plan(query, delays)[0] == Action::Navigate(Page::Blank),
{
    let head = seq![
        Action::Navigate(Page::Blank),
        Action::Sleep(BLANK_SETTLE_MS),
        Action::Ping,
        Action::Navigate(Page::SearchHome),
        Action::AwaitNavigation,
    ];
    let field = seq![Action::DismissPrompt, Action::Locate(Control::QueryInput), Action::Click];
    let keys = seq![
        Action::Sleep(TYPED_SETTLE_MS),
        Action::PressEnter,
        Action::AwaitNavigation,
    ];
    lemma_pause_routine(HOME_SETTLE_MS);
    lemma_pause_routine(SUBMIT_SETTLE_MS);
    lemma_typing_routine(query, delays);
    assert(only_navigates(head));
    assert(routine(field));
    assert(routine(keys));
    lemma_only_navigates_concat(head, pause_plan(HOME_SETTLE_MS));
    lemma_only_navigates_concat(head + pause_plan(HOME_SETTLE_MS), field);
    lemma_routine_concat(keys, pause_plan(SUBMIT_SETTLE_MS));
    lemma_only_navigates_concat(approach_plan(), typing_plan(query, delays));
    lemma_only_navigates_concat(approach_plan() + typing_plan(query, delays), submit_plan());
    assert(opening_plan(query, delays)[0] == head[0]);
}

/// Plans a query from the neutral page to its first result page, around the
/// given plan of its typing.
pub fn plan_opening(typing: Vec<Action>) -> (plan: Vec<Action>)
    ensures
        plan@ == approach_plan() + typing@ + submit_plan(),
{
    let mut typing = typing;
    let mut plan: Vec<Action> = Vec::new();
    plan.push(Action::Navigate(Page::Blank));
    plan.push(Action::Sleep(BLANK_SETTLE_MS));
    plan.push(Action::Ping);
    plan.push(Action::Navigate(Page::SearchHome));
    plan.push(Action::AwaitNavigation);
    let mut settle = human_pause_with_keepalive(HOME_SETTLE_MS);
    plan.append(&mut settle);
    plan.push(Action::DismissPrompt);
    plan.push(Action::Locate(Control::QueryInput));
    plan.push(Action::Click);
    assert(plan@ =~= approach_plan());
    plan.append(&mut typing);
    let mut submit: Vec<Action> = Vec::new();
    submit.push(Action::Sleep(TYPED_SETTLE_MS));
    submit.push(Action::PressEnter);
    submit.push(Action::AwaitNavigation);
    let mut pause = human_pause_with_keepalive(SUBMIT_SETTLE_MS);
    submit.append(&mut pause);
    assert(submit@ =~= submit_plan());
    plan.append(&mut submit);
    plan
}

} // verus!
