use crate::humanize::{human_pause_with_keepalive, lemma_pause_routine, pause_plan};
use crate::plan::{lemma_routine_concat, routine};
use crate::protocol::{Action, Control};
use vstd::prelude::*;

verus! {

/// Pause before a result page is read, in milliseconds.
pub const PAGE_SETTLE_MS: u64 = 960;

/// Pause after the scroll to the bottom of a page, in milliseconds.
pub const SCROLL_SETTLE_MS: u64 = 750;

/// Pause after the move to the next page, in milliseconds.
pub const NEXT_SETTLE_MS: u64 = 480;

/// Loading a result page: a keep-alive call, a pause, and the reading of the
/// page's markup.
pub open spec fn load_plan() -> Seq<Action> {
    seq![Action::Ping] + pause_plan(PAGE_SETTLE_MS) + seq![Action::ReadContent]
}

/// What follows the reading of page `page`: its records are written, however
/// many they are, so that every page that was read has its document; then the
/// scroll begins with a reading of the position.
pub open spec fn inspect_plan(page: u32) -> Seq<Action> {
    seq![Action::Persist(page), Action::ReadScroll]
}

/// What follows the scroll to the bottom of page `page` under the cap `cap`:
/// a pause, and below the cap the search for the control that leads on. On
/// the page that reaches the cap nothing is searched for.
pub open spec fn settle_plan(page: u32, cap: u32) -> Seq<Action> {
    if page < cap {
        pause_plan(SCROLL_SETTLE_MS).push(Action::Locate(Control::NextPage))
    } else {
        pause_plan(SCROLL_SETTLE_MS)
    }
}

/// Moving to the next page once its control was found: the click, the wait
/// for the navigation and a pause, then the loading of the page.
pub open spec fn advance_plan() -> Seq<Action> {
    seq![Action::Click, Action::AwaitNavigation] + pause_plan(NEXT_SETTLE_MS) + load_plan()
}

/// The count of consecutive misses after one more miss.
pub open spec fn missed(no_next: u32) -> u32 {
    (no_next + 1) as u32
}

/// Whether a count of consecutive misses calls for the operator.
pub open spec fn calls_operator(misses: u32, threshold: u32) -> bool {
    misses >= threshold
}

/// The next-page control is searched for on a page exactly when the page is
/// below the cap, and then as the last thing after the page has settled.
/// Nothing else that settling a page takes is delicate.
pub proof fn lemma_settle_lookup(page: u32, cap: u32)
    ensures
        settle_plan(page, cap).len() > 0,
        settle_plan(page, cap).contains(Action::Locate(Control::NextPage)) <==> page < cap,
        page < cap ==> settle_plan(page, cap).last() == Action::Locate(Control::NextPage),
        forall|i: int|
            0 <= i < settle_plan(page, cap).len() && (#[trigger] settle_plan(
                page,
                cap,
            )[i]).delicate() ==> page < cap && i == settle_plan(page, cap).len() - 1,
{
    let pause = pause_plan(SCROLL_SETTLE_MS);
    lemma_pause_routine(SCROLL_SETTLE_MS);
    assert(pause.len() > 0) by {
        reveal_with_fuel(pause_plan, 2);
    }
    let plan = settle_plan(page, cap);
    if page < cap {
        assert(plan[plan.len() - 1] == Action::Locate(Control::NextPage));
        assert forall|i: int| 0 <= i < plan.len() && (#[trigger] plan[i]).delicate() implies i
            == plan.len() - 1 by {
            if i < pause.len() {
                assert(plan[i] == pause[i]);
            }
        }
    } else {
        if pause.contains(Action::Locate(Control::NextPage)) {
            let i = choose|i: int|
                0 <= i < pause.len() && pause[i] == Action::Locate(Control::NextPage);
            assert(pause[i].delicate());
        }
    }
}

/// Loading a page and moving to the next hold no delicate action; they
/// start with a keep-alive call and with the click, and end with the reading
/// of the page. What follows the reading starts with the writing of the
/// page's records, under the page's number, holds no other delicate action,
/// and ends with a reading of the scroll position.
pub proof fn lemma_page_plans(page: u32)
    ensures
        routine(load_plan()),
        routine(advance_plan()),
        load_plan().len() > 0,
        advance_plan().len() > 0,
        load_plan()[0] == Action::Ping,
        advance_plan()[0] == Action::Click,
        load_plan().last() == Action::ReadContent,
        advance_plan().last() == Action::ReadContent,
        inspect_plan(page).len() == 2,
        inspect_plan(page)[0] == Action::Persist(page),
        inspect_plan(page).last() == Action::ReadScroll,
        forall|i: int|
            0 <= i < inspect_plan(page).len() && (#[trigger] inspect_plan(page)[i]).delicate()
                ==> i == 0,
{
    lemma_pause_routine(PAGE_SETTLE_MS);
    lemma_pause_routine(NEXT_SETTLE_MS);
    assert(routine(seq![Action::Ping]));
    assert(routine(seq![Action::ReadContent]));
    lemma_routine_concat(seq![Action::Ping], pause_plan(PAGE_SETTLE_MS));
    lemma_routine_concat(
        seq![Action::Ping] + pause_plan(PAGE_SETTLE_MS),
        seq![Action::ReadContent],
    );
    assert(routine(seq![Action::Click, Action::AwaitNavigation]));
    lemma_routine_concat(
        seq![Action::Click, Action::AwaitNavigation],
        pause_plan(NEXT_SETTLE_MS),
    );
    lemma_routine_concat(
        seq![Action::Click, Action::AwaitNavigation] + pause_plan(NEXT_SETTLE_MS),
        load_plan(),
    );
}

/// Plans the loading of a result page.
pub fn plan_load() -> (plan: Vec<Action>)
    ensures
        plan@ == load_plan(),
{
    let mut plan: Vec<Action> = Vec::new();
    plan.push(Action::Ping);
    let mut pause = human_pause_with_keepalive(PAGE_SETTLE_MS);
    plan.append(&mut pause);
    plan.push(Action::ReadContent);
    assert(plan@ =~= load_plan());
    plan
}

/// Plans what follows the reading of a page.
pub fn plan_inspect(page: u32) -> (plan: Vec<Action>)
    ensures
        plan@ == inspect_plan(page),
{
    let mut plan: Vec<Action> = Vec::new();
    plan.push(Action::Persist(page));
    plan.push(Action::ReadScroll);
    assert(plan@ =~= inspect_plan(page));
    plan
}

/// Plans what follows the scroll to the bottom of a page.
pub fn plan_settle(page: u32, cap: u32) -> (plan: Vec<Action>)
    ensures
        plan@ == settle_plan(page, cap),
{
    let mut plan = human_pause_with_keepalive(SCROLL_SETTLE_MS);
    if page < cap {
        plan.push(Action::Locate(Control::NextPage));
    }
    plan
}

/// Plans the move to the next page.
pub fn plan_advance() -> (plan: Vec<Action>)
    ensures
        plan@ == advance_plan(),
{
    let mut plan: Vec<Action> = Vec::new();
    plan.push(Action::Click);
    plan.push(Action::AwaitNavigation);
    let mut pause = human_pause_with_keepalive(NEXT_SETTLE_MS);
    plan.append(&mut pause);
    let mut load = plan_load();
    plan.append(&mut load);
    assert(plan@ =~= advance_plan());
    plan
}

} // verus!
