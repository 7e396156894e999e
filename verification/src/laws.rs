use crate::config::ConfigView;
use crate::model::{next, Cause, EngineView, Rolls, Stage, MAX_RETRIES};
use crate::protocol::{Action, Control, Ending, Event, Fault, Notice, Step};
use crate::soundness::{lemma_initial_wf, lemma_next_wf};
use vstd::prelude::*;

verus! {

/// The step that the engine takes from the state `v` on the answer `event`
/// with the rolls `rolls`: the next state, and what is handed out. It is the
/// transition function under a name that the laws over whole runs can speak
/// of without unfolding it.
#[verifier::opaque]
pub open spec fn taken(v: EngineView, cfg: ConfigView, event: Event, rolls: Rolls) -> (
    EngineView,
    Step,
) {
    next(v, cfg, event, rolls)
}

/// The step taken is that of the transition function.
pub proof fn lemma_taken(v: EngineView, cfg: ConfigView, event: Event, rolls: Rolls)
    ensures
        taken(v, cfg, event, rolls) == next(v, cfg, event, rolls),
{
    reveal(taken);
}

/// The state that a run reaches from the state `v` when the driver gives the
/// answers `events`, in that order, the `k`-th step being taken with the
/// rolls `rolls[k]`.
pub open spec fn state_from(
    v: EngineView,
    cfg: ConfigView,
    events: Seq<Event>,
    rolls: Seq<Rolls>,
) -> EngineView
    decreases events.len(),
{
    if events.len() == 0 {
        v
    } else {
        taken(
            state_from(v, cfg, events.drop_last(), rolls.drop_last()),
            cfg,
            events.last(),
            rolls.last(),
        ).0
    }
}

/// Whether there are rolls for every one of the answers `events` given from
/// the state `v` on, each such as can be drawn in the state in which its
/// step is taken.
pub open spec fn rolls_fit_from(
    v: EngineView,
    cfg: ConfigView,
    events: Seq<Event>,
    rolls: Seq<Rolls>,
) -> bool
    decreases events.len(),
{
    &&& rolls.len() == events.len()
    &&& events.len() > 0 ==> {
        &&& rolls_fit_from(v, cfg, events.drop_last(), rolls.drop_last())
        &&& rolls.last().fits(state_from(v, cfg, events.drop_last(), rolls.drop_last()), cfg)
    }
}

/// From a state that a run reaches, whatever the driver answers, and however
/// often, the run reaches only such states.
pub proof fn lemma_states_from(
    v: EngineView,
    cfg: ConfigView,
    events: Seq<Event>,
    rolls: Seq<Rolls>,
)
    requires
        v.wf(cfg),
        rolls_fit_from(v, cfg, events, rolls),
    ensures
        state_from(v, cfg, events, rolls).wf(cfg),
    decreases events.len(),
{
    if events.len() > 0 {
        reveal(taken);
        lemma_states_from(v, cfg, events.drop_last(), rolls.drop_last());
        lemma_next_wf(
            state_from(v, cfg, events.drop_last(), rolls.drop_last()),
            cfg,
            events.last(),
            rolls.last(),
        );
    }
}

/// The state of a run after the driver has given the answers `events`, in
/// that order, the `k`-th step having been taken with the rolls `rolls[k]`.
pub open spec fn state_after(cfg: ConfigView, events: Seq<Event>, rolls: Seq<Rolls>) -> EngineView {
    state_from(EngineView::initial(), cfg, events, rolls)
}

/// Whether there are rolls for every one of the answers `events`, each such
/// as can be drawn in the state in which its step is taken.
pub open spec fn rolls_fit(cfg: ConfigView, events: Seq<Event>, rolls: Seq<Rolls>) -> bool {
    rolls_fit_from(EngineView::initial(), cfg, events, rolls)
}

/// Whatever the driver answers, and however often, the run is in a state of
/// which everything holds that holds of the states that a run reaches. So
/// every law below holds of every step of every run.
pub proof fn lemma_every_state(cfg: ConfigView, events: Seq<Event>, rolls: Seq<Rolls>)
    requires
        rolls_fit(cfg, events, rolls),
    ensures
        state_after(cfg, events, rolls).wf(cfg),
{
    lemma_initial_wf(cfg);
    lemma_states_from(EngineView::initial(), cfg, events, rolls);
}

/// Whether the driver carries out every action that it is asked for while
/// the run, set out from the state `v`, takes the answers `events`, and every
/// one of the answers finds the run at the execution of a query.
pub open spec fn carried_out(
    v: EngineView,
    cfg: ConfigView,
    events: Seq<Event>,
    rolls: Seq<Rolls>,
) -> bool
    decreases events.len(),
{
    events.len() > 0 ==> {
        let before = state_from(v, cfg, events.drop_last(), rolls.drop_last());
        &&& carried_out(v, cfg, events.drop_last(), rolls.drop_last())
        &&& before.stage.executing()
        &&& before.current().answered_by(events.last())
    }
}

/// The numbers of the pages whose records the run, set out from the state
/// `v`, asks to have written while it takes the answers `events`: one for
/// every such request, in the order of the requests.
pub open spec fn pages_written(
    v: EngineView,
    cfg: ConfigView,
    events: Seq<Event>,
    rolls: Seq<Rolls>,
) -> Seq<u32>
    decreases events.len(),
{
    if events.len() == 0 {
        Seq::empty()
    } else {
        let earlier = pages_written(v, cfg, events.drop_last(), rolls.drop_last());
        let before = state_from(v, cfg, events.drop_last(), rolls.drop_last());
        match taken(before, cfg, events.last(), rolls.last()).1.action {
            Action::Persist(page) => earlier.push(page),
            _ => earlier,
        }
    }
}

/// The numbers of the pages on which the run, set out from the state `v`,
/// asks for the next-page control to be searched for while it takes the
/// answers `events`: one for every such request, in the order of the
/// requests.
pub open spec fn pages_looked_up(
    v: EngineView,
    cfg: ConfigView,
    events: Seq<Event>,
    rolls: Seq<Rolls>,
) -> Seq<u32>
    decreases events.len(),
{
    if events.len() == 0 {
        Seq::empty()
    } else {
        let earlier = pages_looked_up(v, cfg, events.drop_last(), rolls.drop_last());
        let before = state_from(v, cfg, events.drop_last(), rolls.drop_last());
        let (after, step) = taken(before, cfg, events.last(), rolls.last());
        match (step.action, after.stage) {
            (Action::Locate(Control::NextPage), Stage::Settling(page)) => earlier.push(page),
            _ => earlier,
        }
    }
}

/// On how many pages of a query the next-page control is searched for under
/// the cap `cap`: on every page that the cap allows but the last.
pub open spec fn lookups_under(cap: u32) -> nat {
    if cap > 0 {
        (cap - 1) as nat
    } else {
        0
    }
}

/// The numbers of the first `count` pages, in order.
pub open spec fn pages_up_to(count: nat) -> Seq<u32> {
    Seq::new(count, |i: int| (i + 1) as u32)
}

/// How many pages of the current query have had their records written once
/// the run is in the stage `stage`.
pub open spec fn pages_done(stage: Stage) -> nat {
    match stage {
        Stage::Loading(page) => (page - 1) as nat,
        Stage::Scrolling(page) | Stage::Settling(page) => page as nat,
        _ => 0,
    }
}

/// On how many pages of the current query the next-page control has been
/// searched for once the run is in the state `v`: on all before the current
/// one, and on the current one once its search is under way.
pub open spec fn lookups_done(v: EngineView) -> nat {
    match v.stage {
        Stage::Loading(page) | Stage::Scrolling(page) => (page - 1) as nat,
        Stage::Settling(page) => if v.current() == Action::Locate(Control::NextPage) {
            page as nat
        } else {
            (page - 1) as nat
        },
        _ => 0,
    }
}

/// What one step from the state `v` to the state `w`, handing out `step`,
/// does to the pages of a query while the driver carries out what it is asked
/// for. While the query goes on, the step either asks for the records of the
/// next page to be written, or for the next-page control to be searched for
/// on the page that was written last, or for neither. And the query ends
/// only once as many pages are written as the cap allows, by a step that
/// asks for neither.
pub open spec fn pages_kept(v: EngineView, cfg: ConfigView, w: EngineView, step: Step) -> bool {
    &&& w.stage.page() matches Some(page) ==> 1 <= page <= cfg.max_pages
    &&& lookups_done(v) <= pages_done(v.stage) <= cfg.max_pages
    &&& pages_done(v.stage) <= lookups_done(v) + 1
    &&& if w.stage.executing() {
        &&& w.query_index == v.query_index
        &&& match step.action {
            Action::Persist(page) => page == pages_done(v.stage) + 1 && pages_done(w.stage)
                == page && lookups_done(w) == lookups_done(v),
            Action::Locate(Control::NextPage) => w.stage == Stage::Settling(
                pages_done(v.stage) as u32,
            ) && lookups_done(w) == lookups_done(v) + 1 && pages_done(w.stage) == pages_done(
                v.stage,
            ),
            _ => pages_done(w.stage) == pages_done(v.stage) && lookups_done(w) == lookups_done(
                v,
            ),
        }
    } else {
        &&& pages_done(v.stage) == cfg.max_pages
        &&& cfg.max_pages > 0 ==> lookups_done(v) == cfg.max_pages - 1
        &&& !(step.action is Persist)
        &&& step.action != Action::Locate(Control::NextPage)
        &&& w.query_index == v.query_index + 1
        &&& w.stage == Stage::Restarting(Cause::Between) || w.stage is Stopped
        &&& step.notice matches Notice::QueryCompleted(ending) && (ending == Ending::CapReached
            || ending == Ending::NoPages)
    }
}

/// Every step of the execution of a query that follows an action that was
/// carried out keeps the pages of the query in their order.
pub proof fn lemma_page_step(v: EngineView, cfg: ConfigView, event: Event, rolls: Rolls)
    requires
        v.wf(cfg),
        rolls.fits(v, cfg),
        v.stage.executing(),
        v.current().answered_by(event),
    ensures
        pages_kept(v, cfg, next(v, cfg, event, rolls).0, next(v, cfg, event, rolls).1),
        pages_kept(v, cfg, taken(v, cfg, event, rolls).0, taken(v, cfg, event, rolls).1),
        taken(v, cfg, event, rolls).0.wf(cfg),
{
    reveal(taken);
    let (w, step) = next(v, cfg, event, rolls);
    lemma_next_wf(v, cfg, event, rolls);
    lemma_delicate_actions(v, cfg);
    lemma_delicate_actions(w, cfg);
    crate::pagination::lemma_page_plans(0);
    crate::query::lemma_opening_plan(v.query(cfg), rolls.typing);
    crate::soundness::lemma_session_plans(false, rolls.rest);
    assert(v.plan[v.cursor] == v.current());
    assert(w.plan[w.cursor] == w.current());
    match v.stage {
        Stage::Settling(page) => {
            crate::pagination::lemma_settle_lookup(page, cfg.max_pages);
            crate::humanize::lemma_pause_shape(crate::pagination::SCROLL_SETTLE_MS, 0);
            if v.cursor + 1 < v.plan.len() {
                assert(v.plan[v.cursor].delicate() ==> v.cursor == v.plan.len() - 1);
                assert(v.plan[v.cursor + 1].delicate() ==> v.cursor + 1 == v.plan.len() - 1);
            }
        },
        Stage::Scrolling(page) => {
            crate::pagination::lemma_settle_lookup(page, cfg.max_pages);
            crate::humanize::lemma_pause_shape(crate::pagination::SCROLL_SETTLE_MS, 0);
            crate::humanize::lemma_stride_routine(rolls.stride);
        },
        Stage::Loading(page) => {
            crate::pagination::lemma_page_plans(page);
        },
        _ => {},
    }
}

/// The first `count` pages and the one after them are the first `count + 1`
/// pages.
pub proof fn lemma_pages_up_to(count: nat)
    requires
        count < u32::MAX,
    ensures
        pages_up_to(count).push((count + 1) as u32) == pages_up_to(count + 1),
{
    assert(pages_up_to(count).push((count + 1) as u32) =~= pages_up_to(count + 1));
}

/// A query whose every action the driver carries out has the records of
/// exactly as many pages written as the cap allows, page by page from the
/// first, each once and in order, whatever the pages hold. While the query
/// goes on, the pages written are those up to the one that the run has got
/// to. Once it has left the query, they are all the pages that the cap
/// allows, the next-page control was searched for on every one of them but
/// the last, in their order and once each, and the query has run to its end
/// without a failure.
pub proof fn lemma_query_pages(
    v: EngineView,
    cfg: ConfigView,
    events: Seq<Event>,
    rolls: Seq<Rolls>,
)
    requires
        v.wf(cfg),
        v.stage is Opening,
        rolls_fit_from(v, cfg, events, rolls),
        carried_out(v, cfg, events, rolls),
    ensures
        ({
            let w = state_from(v, cfg, events, rolls);
            let written = pages_written(v, cfg, events, rolls);
            let looked_up = pages_looked_up(v, cfg, events, rolls);
            &&& w.wf(cfg)
            &&& if w.stage.executing() {
                &&& w.query_index == v.query_index
                &&& written == pages_up_to(pages_done(w.stage))
                &&& looked_up == pages_up_to(lookups_done(w))
            } else {
                &&& w.query_index == v.query_index + 1
                &&& written == pages_up_to(cfg.max_pages as nat)
                &&& looked_up == pages_up_to(lookups_under(cfg.max_pages))
                &&& w.stage == Stage::Restarting(Cause::Between) || w.stage is Stopped
            }
        }),
    decreases events.len(),
{
    if events.len() == 0 {
        assert(pages_written(v, cfg, events, rolls) =~= pages_up_to(0));
        assert(pages_looked_up(v, cfg, events, rolls) =~= pages_up_to(0));
    } else {
        let earlier_events = events.drop_last();
        let earlier_rolls = rolls.drop_last();
        lemma_query_pages(v, cfg, earlier_events, earlier_rolls);
        let before = state_from(v, cfg, earlier_events, earlier_rolls);
        let written_before = pages_written(v, cfg, earlier_events, earlier_rolls);
        let looked_before = pages_looked_up(v, cfg, earlier_events, earlier_rolls);
        let (after, step) = taken(before, cfg, events.last(), rolls.last());
        assert(before.stage.executing());
        assert(before.current().answered_by(events.last()));
        assert(rolls.last().fits(before, cfg));
        lemma_page_step(before, cfg, events.last(), rolls.last());
        assert(pages_kept(before, cfg, after, step));
        assert(state_from(v, cfg, events, rolls) == after);
        let done = pages_done(before.stage);
        let looked = lookups_done(before);
        assert(written_before == pages_up_to(done));
        assert(looked_before == pages_up_to(looked));
        lemma_pages_total(
            before,
            cfg,
            after,
            step,
            written_before,
            looked_before,
            pages_written(v, cfg, events, rolls),
            pages_looked_up(v, cfg, events, rolls),
        );
    }
}

/// How the pages written and looked up grow by one step that keeps the pages
/// of a query in their order.
proof fn lemma_pages_total(
    before: EngineView,
    cfg: ConfigView,
    after: EngineView,
    step: Step,
    written_before: Seq<u32>,
    looked_before: Seq<u32>,
    written: Seq<u32>,
    looked_up: Seq<u32>,
)
    requires
        pages_kept(before, cfg, after, step),
        written_before == pages_up_to(pages_done(before.stage)),
        looked_before == pages_up_to(lookups_done(before)),
        written == match step.action {
            Action::Persist(page) => written_before.push(page),
            _ => written_before,
        },
        looked_up == match (step.action, after.stage) {
            (Action::Locate(Control::NextPage), Stage::Settling(page)) => looked_before.push(page),
            _ => looked_before,
        },
    ensures
        after.stage.executing() ==> written == pages_up_to(pages_done(after.stage)) && looked_up
            == pages_up_to(lookups_done(after)),
        !after.stage.executing() ==> written == pages_up_to(cfg.max_pages as nat) && looked_up
            == pages_up_to(lookups_under(cfg.max_pages)),
{
    let done = pages_done(before.stage);
    let looked = lookups_done(before);
    if after.stage.executing() {
        match step.action {
            Action::Persist(page) => {
                lemma_pages_up_to(done);
                assert(page == (done + 1) as u32);
                assert(written == pages_up_to(done + 1));
            },
            Action::Locate(Control::NextPage) => {
                assert(lookups_done(after) <= pages_done(after.stage));
                assert(looked + 1 == done);
                lemma_pages_up_to(looked);
                assert(after.stage == Stage::Settling(done as u32));
                assert(looked_up == looked_before.push(done as u32));
                assert(looked_up == pages_up_to(looked + 1));
            },
            _ => {},
        }
    }
}

/// Whether a run that has left a query, by giving it up or by its end, can
/// be in the stage `to`: at the start of the next query, resting before it,
/// or over.
pub open spec fn leaves_query(to: Stage) -> bool {
    to == Stage::Acquiring(false) || to == Stage::Restarting(Cause::Between) || to is Stopped
}

/// Whether a run in the stage `from` can be in the stage `to` one step
/// later. A run stays in its stage while the stage's plan lasts. Otherwise a
/// tab is obtained for a query, with one restart where that fails; then the
/// overrides are installed, the query is opened, and its pages are loaded,
/// scrolled and settled in turn, each page after the one before. A failure
/// during this leads to a restart and back to the obtaining of a tab. And
/// every stage of a query can be the last of the query.
pub open spec fn may_follow(from: Stage, to: Stage) -> bool {
    from == to || match from {
        Stage::Booting => to == Stage::Acquiring(false) || to is Stopped,
        Stage::Acquiring(retried) => to is Arming || (!retried && to == Stage::Restarting(
            Cause::LostSession,
        )) || leaves_query(to),
        Stage::Restarting(Cause::LostSession) => to == Stage::Acquiring(true) || leaves_query(to),
        Stage::Restarting(_) => to == Stage::Acquiring(false),
        Stage::Arming => to is Opening,
        Stage::Opening => to == Stage::Loading(1) || to == Stage::Restarting(Cause::Retry)
            || leaves_query(to),
        Stage::Loading(page) => to == Stage::Scrolling(page) || to == Stage::Restarting(
            Cause::Retry,
        ) || leaves_query(to),
        Stage::Scrolling(page) => to == Stage::Settling(page) || to == Stage::Restarting(
            Cause::Retry,
        ) || leaves_query(to),
        Stage::Settling(page) => to == Stage::Loading((page + 1) as u32) || to is Acknowledging
            || to == Stage::Restarting(Cause::Retry) || leaves_query(to),
        Stage::Acknowledging => leaves_query(to),
        Stage::Stopped => false,
    }
}

/// The stages of a run follow one another in their order. In particular the
/// overrides are installed into every session before the query is opened in
/// it, and no page is loaded but after the query was opened or the page
/// before it was settled.
pub proof fn lemma_stage_order(v: EngineView, cfg: ConfigView, event: Event, rolls: Rolls)
    requires
        v.wf(cfg),
        rolls.fits(v, cfg),
    ensures
        may_follow(v.stage, next(v, cfg, event, rolls).0.stage),
{
}

/// A browser is started only on an identity store that was deleted and made
/// anew just before: the start is asked for only in answer to the completed
/// making of the store, which is asked for only in answer to its completed
/// deletion. And a session counts as alive only once the start has completed.
pub proof fn lemma_launch_on_fresh_store(
    v: EngineView,
    cfg: ConfigView,
    event: Event,
    rolls: Rolls,
)
    requires
        v.wf(cfg),
        rolls.fits(v, cfg),
    ensures
        next(v, cfg, event, rolls).1.action == Action::LaunchBrowser ==> v.current()
            == Action::PrepareProfile && event is Done && v.cursor >= 1 && v.plan[v.cursor - 1]
            == Action::WipeProfile,
        next(v, cfg, event, rolls).1.action == Action::PrepareProfile ==> v.current()
            == Action::WipeProfile && event is Done,
        next(v, cfg, event, rolls).0.alive ==> v.alive || (v.current() == Action::LaunchBrowser
            && event is Done),
{
    let w = next(v, cfg, event, rolls).0;
    lemma_next_wf(v, cfg, event, rolls);
    assert(v.plan[v.cursor] == v.current());
    if w.cursor == 0 {
        assert(w.plan[0] == w.current());
    } else {
        assert(w.plan[w.cursor] == w.current());
    }
}

/// No two sessions are alive at a time: a browser is started only while no
/// session counts as alive.
pub proof fn lemma_one_session(v: EngineView, cfg: ConfigView)
    requires
        v.wf(cfg),
    ensures
        v.current() == Action::LaunchBrowser ==> !v.alive,
{
    assert(v.plan[v.cursor] == v.current());
}

/// Every delicate action is taken only in the stage for it. Overrides are
/// installed only in the stage of installing them, and a page is gone to
/// only while a query is opened: so no page is gone to in a session before
/// the overrides were installed into it. The next-page control is searched
/// for only on a page below the cap, once the page has settled; on the page
/// that reaches the cap it never is. Records are written only for the page
/// that is being worked on, under its number, which the cap allows, and as
/// the first thing once the page was read. The operator is called on only in
/// the stage for it.
pub proof fn lemma_delicate_actions(v: EngineView, cfg: ConfigView)
    requires
        v.wf(cfg),
    ensures
        v.current() is Install ==> v.stage is Arming,
        v.current() is Navigate ==> v.stage is Opening,
        v.current() == Action::Locate(Control::NextPage) ==> (v.stage matches Stage::Settling(page)
            && page < cfg.max_pages),
        v.current() matches Action::Persist(page) ==> v.stage == Stage::Scrolling(page) && 1
            <= page <= cfg.max_pages && v.cursor == 0,
        v.current() == Action::AwaitOperator ==> v.stage is Acknowledging,
{
    assert(v.plan[v.cursor] == v.current());
}

/// The pages of a query are worked on in order, from the first: a step
/// either stays on the page, or moves from a settled page below the cap, on
/// which the next-page control was found, to the loading of the page after
/// it, or starts on page 1 once the query is submitted.
pub proof fn lemma_pages_in_order(v: EngineView, cfg: ConfigView, event: Event, rolls: Rolls)
    requires
        v.wf(cfg),
        rolls.fits(v, cfg),
    ensures
        ({
            let w = next(v, cfg, event, rolls).0;
            match (v.stage.page(), w.stage.page()) {
                (Some(before), Some(after)) => after == before || (after == before + 1 && v.stage
                    == Stage::Settling(before) && w.stage == Stage::Loading(after) && before
                    < cfg.max_pages && v.current() == Action::Locate(Control::NextPage) && event
                    is Done),
                (None, Some(after)) => after == 1 && v.stage is Opening && w.stage
                    == Stage::Loading(1),
                _ => true,
            }
        }),
{
    if v.stage is Settling {
        crate::pagination::lemma_settle_lookup(v.stage->Settling_0, cfg.max_pages);
    }
}

/// On the page that reaches the cap the query ends once the page has
/// settled: the next query is turned to, and nothing is searched for.
pub proof fn lemma_cap_ends_query(v: EngineView, cfg: ConfigView, event: Event, rolls: Rolls)
    requires
        v.wf(cfg),
        rolls.fits(v, cfg),
        v.stage is Settling,
        v.stage->Settling_0 >= cfg.max_pages,
        v.cursor + 1 == v.plan.len(),
        v.current().answered_by(event),
    ensures
        ({
            let (w, step) = next(v, cfg, event, rolls);
            &&& w.query_index == v.query_index + 1
            &&& w.retry_count == 0
            &&& w.no_next == v.no_next
            &&& step.notice == Notice::QueryCompleted(Ending::CapReached)
            &&& step.action != Action::Locate(Control::NextPage)
            &&& w.stage == Stage::Restarting(Cause::Between) || w.stage is Stopped
        }),
{
    lemma_next_wf(v, cfg, event, rolls);
    lemma_delicate_actions(next(v, cfg, event, rolls).0, cfg);
}

/// A page without a next-page control ends the query and is counted. The
/// operator is called on exactly when the count has reached the threshold,
/// and is told the count; below the threshold the miss is no failure, and the
/// next query is turned to with a fresh retry budget.
pub proof fn lemma_miss(v: EngineView, cfg: ConfigView, event: Event, rolls: Rolls)
    requires
        v.wf(cfg),
        rolls.fits(v, cfg),
        v.current() == Action::Locate(Control::NextPage),
        !(event is Done),
    ensures
        ({
            let (w, step) = next(v, cfg, event, rolls);
            &&& w.no_next == v.no_next + 1
            &&& if v.no_next + 1 >= cfg.max_consecutive_no_next {
                &&& w.stage is Acknowledging
                &&& step.action == Action::AwaitOperator
                &&& step.notice == Notice::LikelyBlocked(w.no_next)
                &&& w.query_index == v.query_index
            } else {
                &&& step.action != Action::AwaitOperator
                &&& step.notice == Notice::QueryCompleted(Ending::NextMissing)
                &&& w.query_index == v.query_index + 1
                &&& w.retry_count == 0
            }
        }),
{
    lemma_delicate_actions(v, cfg);
    lemma_next_wf(v, cfg, event, rolls);
    lemma_delicate_actions(next(v, cfg, event, rolls).0, cfg);
}

/// The operator is called on only for a page without a next-page control on
/// which the count of such pages has reached the threshold.
pub proof fn lemma_operator_called(v: EngineView, cfg: ConfigView, event: Event, rolls: Rolls)
    requires
        v.wf(cfg),
        rolls.fits(v, cfg),
        next(v, cfg, event, rolls).1.action == Action::AwaitOperator,
    ensures
        v.stage is Settling,
        v.current() == Action::Locate(Control::NextPage),
        !(event is Done),
        v.no_next + 1 >= cfg.max_consecutive_no_next,
{
    lemma_next_wf(v, cfg, event, rolls);
    lemma_delicate_actions(next(v, cfg, event, rolls).0, cfg);
    lemma_delicate_actions(v, cfg);
    assert(v.plan[v.cursor] == v.current());
    if v.cursor + 1 < v.plan.len() {
        assert(v.plan[v.cursor + 1] == v.plan[v.cursor + 1]);
    }
}

/// Whatever the driver answers while the operator is waited for counts as the
/// acknowledgement: the count of misses starts anew, the query has ended, and
/// the operator is not called on again for it.
pub proof fn lemma_acknowledged(v: EngineView, cfg: ConfigView, event: Event, rolls: Rolls)
    requires
        v.wf(cfg),
        rolls.fits(v, cfg),
        v.stage is Acknowledging,
    ensures
        ({
            let (w, step) = next(v, cfg, event, rolls);
            &&& w.no_next == 0
            &&& w.query_index == v.query_index + 1
            &&& w.retry_count == 0
            &&& !(w.stage is Acknowledging)
            &&& step.action != Action::AwaitOperator
            &&& step.notice == Notice::QueryCompleted(Ending::Acknowledged)
        }),
{
    lemma_next_wf(v, cfg, event, rolls);
    lemma_delicate_actions(next(v, cfg, event, rolls).0, cfg);
}

/// The count of consecutive misses changes only where a next-page control
/// was searched for or the operator has acknowledged: a control that is found
/// sets it to zero, one that is missing adds one, and the acknowledgement
/// sets it to zero.
pub proof fn lemma_misses_counted(v: EngineView, cfg: ConfigView, event: Event, rolls: Rolls)
    requires
        v.wf(cfg),
        rolls.fits(v, cfg),
    ensures
        ({
            let w = next(v, cfg, event, rolls).0;
            if v.stage is Acknowledging {
                w.no_next == 0
            } else if v.current() == Action::Locate(Control::NextPage) {
                w.no_next == if event is Done {
                    0
                } else {
                    v.no_next + 1
                }
            } else {
                w.no_next == v.no_next
            }
        }),
{
    lemma_delicate_actions(v, cfg);
    if v.stage is Settling {
        crate::pagination::lemma_settle_lookup(v.stage->Settling_0, cfg.max_pages);
    }
}

/// A failure while a query is executed, other than a missing next-page
/// control, counts against the query's retry budget. While the budget lasts
/// the browser is restarted and the query tried again; the failure that
/// spends it makes the run turn to the next query, with a fresh budget.
pub proof fn lemma_failure_counted(v: EngineView, cfg: ConfigView, event: Event, rolls: Rolls)
    requires
        v.wf(cfg),
        rolls.fits(v, cfg),
        v.stage.executing(),
        !v.current().answered_by(event),
        v.current() != Action::Locate(Control::NextPage),
    ensures
        ({
            let (w, step) = next(v, cfg, event, rolls);
            if v.retry_count + 1 < MAX_RETRIES {
                &&& w.retry_count == v.retry_count + 1
                &&& w.query_index == v.query_index
                &&& w.stage == Stage::Restarting(Cause::Retry)
                &&& step.action == Action::EndSession
                &&& step.notice == Notice::QueryFailed(v.current().fault(), w.retry_count)
            } else {
                &&& w.retry_count == 0
                &&& w.query_index == v.query_index + 1
                &&& step.notice == Notice::QuerySkipped(v.current().fault())
                &&& w.stage == Stage::Acquiring(false) || w.stage is Stopped
            }
        }),
{
}

/// The counters of a run move in three ways only. A step leaves the current
/// query and its count of failed attempts as they are; or it counts one more
/// failed attempt at the same query, on a failure in its execution; or it
/// turns to the next query with a count of zero.
pub proof fn lemma_progress(v: EngineView, cfg: ConfigView, event: Event, rolls: Rolls)
    requires
        v.wf(cfg),
        rolls.fits(v, cfg),
    ensures
        ({
            let w = next(v, cfg, event, rolls).0;
            ||| w.query_index == v.query_index && w.retry_count == v.retry_count
            ||| w.query_index == v.query_index && w.retry_count == v.retry_count + 1
                && v.stage.executing() && !v.current().answered_by(event)
            ||| w.query_index == v.query_index + 1 && w.retry_count == 0
        }),
{
}

/// Three failed attempts at one query spend its budget: where the first
/// failure finds a count of zero and each later one finds the count that the
/// one before has left, for the same query, the third makes the run turn to
/// the next query with a count of zero.
pub proof fn lemma_three_failures(
    first: EngineView,
    second: EngineView,
    third: EngineView,
    cfg: ConfigView,
    fault: Fault,
)
    requires
        first.retry_count == 0,
        second.retry_count == first.fail(cfg, fault).0.retry_count,
        second.query_index == first.fail(cfg, fault).0.query_index,
        third.retry_count == second.fail(cfg, fault).0.retry_count,
        third.query_index == second.fail(cfg, fault).0.query_index,
    ensures
        third.query_index == first.query_index,
        third.fail(cfg, fault).0.query_index == first.query_index + 1,
        third.fail(cfg, fault).0.retry_count == 0,
        third.fail(cfg, fault).1.notice == Notice::QuerySkipped(fault),
{
}

/// An override that cannot be installed never ends a query. The failure is
/// reported along with the next action; a failed setting of the identity is
/// followed by the next override, any other failed override by the query
/// itself.
pub proof fn lemma_evasion_failure(v: EngineView, cfg: ConfigView, event: Event, rolls: Rolls)
    requires
        v.wf(cfg),
        rolls.fits(v, cfg),
        v.stage is Arming,
        !v.current().answered_by(event),
    ensures
        ({
            let (w, step) = next(v, cfg, event, rolls);
            &&& w.query_index == v.query_index
            &&& w.retry_count == v.retry_count
            &&& w.stage is Arming || w.stage is Opening
            &&& v.current() matches Action::Install(payload) ==> step.notice
                == Notice::EvasionDegraded(payload)
            &&& w.stage is Opening ==> step.action == Action::Navigate(
                crate::protocol::Page::Blank,
            )
        }),
{
    crate::query::lemma_opening_plan(v.query(cfg), rolls.typing);
}

/// A restart that fails after a query or before another attempt at one does
/// not end the run, and is reported: the work on the query that is due
/// starts, with the counters as they are.
pub proof fn lemma_restart_failure(v: EngineView, cfg: ConfigView, event: Event, rolls: Rolls)
    requires
        v.wf(cfg),
        rolls.fits(v, cfg),
        v.stage == Stage::Restarting(Cause::Retry) || v.stage == Stage::Restarting(Cause::Between),
        !v.current().answered_by(event),
    ensures
        ({
            let (w, step) = next(v, cfg, event, rolls);
            &&& step.notice == Notice::RestartFailed(v.current().fault())
            &&& step.action == Action::PrepareQueryDir
            &&& w.stage == Stage::Acquiring(false)
            &&& w.query_index == v.query_index
            &&& w.retry_count == v.retry_count
        }),
{
    crate::soundness::lemma_session_plans(v.alive, 0);
}

/// No failure is passed over in silence: the step that follows an action
/// that was not carried out hands out a notice.
pub proof fn lemma_no_silent_failure(v: EngineView, cfg: ConfigView, event: Event, rolls: Rolls)
    requires
        v.wf(cfg),
        rolls.fits(v, cfg),
        !v.current().answered_by(event),
    ensures
        next(v, cfg, event, rolls).1.notice != Notice::Quiet,
{
    assert(v.plan[v.cursor] == v.current());
    if v.stage is Arming {
        crate::evasion::lemma_evasion_plan();
    }
}

/// A run that is over stays over.
pub proof fn lemma_stopped(v: EngineView, cfg: ConfigView, event: Event, rolls: Rolls)
    requires
        v.stage is Stopped,
    ensures
        next(v, cfg, event, rolls).0 == v,
        next(v, cfg, event, rolls).1.action == Action::Stop,
{
}

} // verus!
