use crate::config::ConfigView;
use crate::evasion::{evasion_plan, lemma_evasion_plan};
use crate::extract::{lemma_listing_records, listing_records, well_formed};
use crate::humanize::lemma_stride_routine;
use crate::lifecycle::{
    acquire_plan, after_completion, discreet, guarded, launches_once, lemma_discreet_concat,
    lemma_guarded_concat, lemma_launches_once_concat, lemma_lifecycle_guarded,
    lemma_routine_guarded, restart_plan,
};
use crate::model::{
    boot_plan, degraded, next, query_start_plan, rest_plan, tab_plan, Cause, EngineView, Rolls,
    Stage, MAX_RETRIES,
};
use crate::pagination::{
    advance_plan, calls_operator, inspect_plan, lemma_page_plans, lemma_settle_lookup, load_plan,
    missed, settle_plan,
};
use crate::plan::{lemma_routine_concat, routine};
use crate::protocol::{Action, Control, Ending, Event, Fault, Notice, Payload};
use crate::query::{lemma_opening_plan, only_navigates, opening_plan};
use vstd::prelude::*;

verus! {

/// Whether a plan is one of the session's: guarded, discreet, and with at
/// most one start of a browser.
pub open spec fn tidy(plan: Seq<Action>) -> bool {
    guarded(plan) && discreet(plan) && launches_once(plan)
}

/// Two tidy plans in a row are tidy where one of them holds no delicate
/// action.
pub proof fn lemma_tidy_concat(a: Seq<Action>, b: Seq<Action>)
    requires
        tidy(a),
        tidy(b),
        routine(a) || routine(b),
    ensures
        tidy(a + b),
        routine(a) && routine(b) ==> routine(a + b),
{
    lemma_guarded_concat(a, b);
    lemma_discreet_concat(a, b);
    lemma_launches_once_concat(a, b);
    if routine(a) && routine(b) {
        lemma_routine_concat(a, b);
    }
}

/// The plans of starting, restarting and resting hold an action and are
/// tidy; the start of a query starts no browser where a session is alive.
pub proof fn lemma_session_plans(alive: bool, rest: u64)
    ensures
        tidy(boot_plan()) && boot_plan().len() > 0,
        tidy(query_start_plan(alive)) && query_start_plan(alive).len() > 0,
        alive ==> routine(query_start_plan(alive)),
        tidy(rest_plan(rest)) && rest_plan(rest).len() > 0,
        tidy(restart_plan()) && restart_plan().len() > 0,
        routine(tab_plan()) && tab_plan().len() > 0,
        routine(seq![Action::Stop]),
{
    lemma_lifecycle_guarded(alive);
    lemma_lifecycle_guarded(false);
    let root = seq![Action::PrepareResultRoot];
    let dir = seq![Action::PrepareQueryDir];
    let nap = seq![Action::Sleep(rest)];
    assert(routine(root) && routine(dir) && routine(nap) && routine(tab_plan()));
    lemma_routine_guarded(root);
    lemma_routine_guarded(dir);
    lemma_routine_guarded(nap);
    lemma_routine_guarded(tab_plan());
    lemma_tidy_concat(root, acquire_plan(false));
    lemma_tidy_concat(dir, acquire_plan(alive));
    lemma_tidy_concat(dir + acquire_plan(alive), tab_plan());
    lemma_tidy_concat(nap, restart_plan());
}

/// A state whose plan is discreet takes no delicate action against its stage.
pub proof fn lemma_discreet_attended(v: EngineView, cfg: ConfigView)
    requires
        discreet(v.plan),
    ensures
        v.attended(cfg),
{
    assert forall|i: int| 0 <= i < v.plan.len() implies {
        &&& (#[trigger] v.plan[i]) is Install ==> v.stage is Arming
        &&& v.plan[i] is Navigate ==> v.stage is Opening
        &&& v.plan[i] == Action::Locate(Control::NextPage) ==> (
        v.stage matches Stage::Settling(page) && page < cfg.max_pages)
        &&& (v.plan[i] matches Action::Persist(page) ==> v.stage == Stage::Scrolling(page) && i
            == 0)
        &&& v.plan[i] == Action::AwaitOperator ==> v.stage is Acknowledging
    } by {
        if v.plan[i].delicate() {
        }
    }
}

/// Entering a stage with a plan whose delicate actions are all of one kind
/// that the stage allows, and none of them the making of an identity store
/// or the start of a browser, leads to a state as every run reaches, where
/// the counters allow the stage and the plan is one of the stage.
proof fn lemma_enter_staged(
    v: EngineView,
    cfg: ConfigView,
    stage: Stage,
    plan: Seq<Action>,
    notice: Notice,
)
    requires
        plan.len() > 0,
        well_formed(v.records),
        (EngineView { stage, plan, cursor: 0, ..v }).sound(cfg),
        (EngineView { stage, plan, cursor: 0, ..v }).shaped(cfg),
        (stage is Arming && forall|i: int|
            0 <= i < plan.len() ==> (#[trigger] plan[i]) is Install) || (stage is Opening
            && only_navigates(plan)),
    ensures
        v.enter(stage, plan, notice).0.wf(cfg),
{
    let w = v.enter(stage, plan, notice).0;
    assert forall|i: int| 0 <= i < plan.len() implies (#[trigger] plan[i]) != Action::LaunchBrowser
        && plan[i] != Action::PrepareProfile && (plan[i].delicate() ==> (plan[i] is Install
        && stage is Arming) || (plan[i] is Navigate && stage is Opening)) by {
        if plan[i].delicate() {
        }
    }
    assert(guarded(w.plan));
    assert(w.single_session());
    assert(w.attended(cfg));
}

/// Entering a stage with a tidy plan leads to a state as every run reaches,
/// where the counters allow the stage, the plan is one of the stage, and the
/// plan starts no browser while a session is alive.
proof fn lemma_enter(
    v: EngineView,
    cfg: ConfigView,
    stage: Stage,
    plan: Seq<Action>,
    notice: Notice,
)
    requires
        plan.len() > 0,
        tidy(plan),
        v.alive ==> routine(plan),
        well_formed(v.records),
        (EngineView { stage, plan, cursor: 0, ..v }).sound(cfg),
        (EngineView { stage, plan, cursor: 0, ..v }).shaped(cfg),
    ensures
        v.enter(stage, plan, notice).0.wf(cfg),
{
    let w = v.enter(stage, plan, notice).0;
    lemma_discreet_attended(w, cfg);
    if w.alive {
        assert forall|i: int| w.cursor <= i < w.plan.len() implies (#[trigger] w.plan[i])
            != Action::LaunchBrowser by {
            assert(!w.plan[i].delicate());
        }
    }
}

proof fn lemma_halt(v: EngineView, cfg: ConfigView, notice: Notice)
    requires
        v.steady(cfg),
    ensures
        v.halt(notice).0.wf(cfg),
{
    let plan = seq![Action::Stop];
    assert(routine(plan));
    lemma_routine_guarded(plan);
    lemma_enter(v, cfg, Stage::Stopped, plan, notice);
}

proof fn lemma_begin(v: EngineView, cfg: ConfigView, notice: Notice)
    requires
        v.steady(cfg),
    ensures
        v.begin(cfg, notice).0.wf(cfg),
{
    if v.query_index < cfg.search_queries.len() {
        lemma_session_plans(v.alive, 0);
        lemma_enter(v, cfg, Stage::Acquiring(false), query_start_plan(v.alive), notice);
    } else {
        lemma_halt(v, cfg, notice);
    }
}

proof fn lemma_restart(v: EngineView, cfg: ConfigView, cause: Cause, notice: Notice)
    requires
        v.steady(cfg),
        v.query_index < cfg.search_queries.len(),
    ensures
        v.restart(cause, notice).0.wf(cfg),
{
    lemma_session_plans(false, 0);
    lemma_enter(
        EngineView { alive: false, ..v },
        cfg,
        Stage::Restarting(cause),
        restart_plan(),
        notice,
    );
}

proof fn lemma_skip(v: EngineView, cfg: ConfigView, fault: Fault)
    requires
        v.steady(cfg),
        v.query_index < cfg.search_queries.len(),
    ensures
        v.skip(cfg, fault).0.wf(cfg),
{
    lemma_begin(
        EngineView { query_index: v.query_index + 1, retry_count: 0, ..v },
        cfg,
        Notice::QuerySkipped(fault),
    );
}

proof fn lemma_fail(v: EngineView, cfg: ConfigView, fault: Fault)
    requires
        v.steady(cfg),
        v.query_index < cfg.search_queries.len(),
    ensures
        v.fail(cfg, fault).0.wf(cfg),
{
    if v.retry_count + 1 >= MAX_RETRIES {
        lemma_skip(v, cfg, fault);
    } else {
        lemma_restart(
            EngineView { retry_count: (v.retry_count + 1) as u32, ..v },
            cfg,
            Cause::Retry,
            Notice::QueryFailed(fault, (v.retry_count + 1) as u32),
        );
    }
}

proof fn lemma_finish(v: EngineView, cfg: ConfigView, rest: u64, ending: Ending)
    requires
        v.steady(cfg),
        v.query_index < cfg.search_queries.len(),
    ensures
        v.finish(cfg, rest, ending).0.wf(cfg),
{
    let done = EngineView { query_index: v.query_index + 1, retry_count: 0, ..v };
    if done.query_index < cfg.search_queries.len() {
        lemma_session_plans(false, rest);
        lemma_enter(
            EngineView { alive: false, ..done },
            cfg,
            Stage::Restarting(Cause::Between),
            rest_plan(rest),
            Notice::QueryCompleted(ending),
        );
    } else {
        lemma_halt(done, cfg, Notice::QueryCompleted(ending));
    }
}

proof fn lemma_missed(v: EngineView, cfg: ConfigView, rest: u64)
    requires
        v.steady(cfg),
        v.query_index < cfg.search_queries.len(),
    ensures
        v.miss(cfg, rest).0.wf(cfg),
{
    let misses = missed(v.no_next);
    let counted = EngineView { no_next: misses, ..v };
    if calls_operator(misses, cfg.max_consecutive_no_next) {
        let w = v.miss(cfg, rest).0;
        assert(w.plan == seq![Action::AwaitOperator]);
        assert(guarded(w.plan));
        assert(w.single_session());
    } else {
        lemma_finish(counted, cfg, rest, Ending::NextMissing);
    }
}

proof fn lemma_open(v: EngineView, cfg: ConfigView, typing: Seq<u64>, notice: Notice)
    requires
        v.steady(cfg),
        v.query_index < cfg.search_queries.len(),
    ensures
        v.open(cfg, typing, notice).0.wf(cfg),
{
    lemma_opening_plan(v.query(cfg), typing);
    lemma_enter_staged(v, cfg, Stage::Opening, opening_plan(v.query(cfg), typing), notice);
}

proof fn lemma_proceed(v: EngineView, cfg: ConfigView, alive: bool, notice: Notice)
    requires
        v.wf(cfg),
        v.cursor + 1 < v.plan.len(),
        !(v.stage is Stopped),
        alive == v.alive || alive == after_completion(v.alive, v.current()),
    ensures
        (EngineView { alive, ..v }).proceed(notice).0.wf(cfg),
{
    let w = (EngineView { alive, ..v }).proceed(notice).0;
    assert(w.attended(cfg));
    if w.alive {
        assert forall|i: int| w.cursor <= i < w.plan.len() implies (#[trigger] w.plan[i])
            != Action::LaunchBrowser by {
            if !v.alive {
                assert(v.plan[v.cursor] == Action::LaunchBrowser);
            }
        }
    }
}

proof fn lemma_conclude(v: EngineView, cfg: ConfigView, event: Event, rolls: Rolls)
    requires
        v.wf(cfg),
        !(v.stage is Stopped),
        rolls.fits(EngineView { alive: v.alive, ..v }, cfg),
    ensures
        forall|alive: bool| #[trigger]
            (EngineView { alive, ..v }).conclude(cfg, event, rolls).0.wf(cfg),
{
    assert forall|alive: bool| #[trigger] (EngineView { alive, ..v }).conclude(
        cfg,
        event,
        rolls,
    ).0.wf(cfg) by {
        let u = EngineView { alive, ..v };
        match v.stage {
            Stage::Booting => {
                lemma_begin(u, cfg, Notice::Quiet);
            },
            Stage::Acquiring(_) => {
                lemma_evasion_plan();
                lemma_enter_staged(u, cfg, Stage::Arming, evasion_plan(), Notice::Quiet);
            },
            Stage::Restarting(Cause::LostSession) => {
                lemma_session_plans(false, 0);
                lemma_routine_guarded(tab_plan());
                lemma_enter(u, cfg, Stage::Acquiring(true), tab_plan(), Notice::Quiet);
            },
            Stage::Restarting(_) => {
                lemma_begin(u, cfg, Notice::Quiet);
            },
            Stage::Arming => {
                lemma_open(u, cfg, rolls.typing, Notice::Quiet);
            },
            Stage::Opening => {
                if cfg.max_pages == 0 {
                    lemma_finish(u, cfg, rolls.rest, Ending::NoPages);
                } else {
                    lemma_page_plans(0);
                    lemma_routine_guarded(load_plan());
                    lemma_enter(u, cfg, Stage::Loading(1), load_plan(), Notice::Quiet);
                }
            },
            Stage::Loading(page) => {
                let records = listing_records(event.markup());
                lemma_listing_records(event.markup());
                lemma_page_plans(page);
                let w = u.conclude(cfg, event, rolls).0;
                assert(w.plan == inspect_plan(page));
                assert forall|i: int| 0 <= i < w.plan.len() implies !(
                #[trigger] w.plan[i]).delicate() || (w.plan[i] == Action::Persist(page) && i
                    == 0) by {}
                assert(guarded(w.plan));
                assert(w.single_session());
                assert(w.attended(cfg));
            },
            Stage::Scrolling(page) => {
                if event.metrics().at_bottom() {
                    lemma_settle_lookup(page, cfg.max_pages);
                    let w = u.conclude(cfg, event, rolls).0;
                    assert(w.plan == settle_plan(page, cfg.max_pages));
                    assert forall|i: int| 0 <= i < w.plan.len() implies !(
                    #[trigger] w.plan[i]).delicate() || (w.plan[i] == Action::Locate(
                        Control::NextPage,
                    ) && page < cfg.max_pages) by {
                        if w.plan[i].delicate() {
                            assert(i == w.plan.len() - 1);
                        }
                    }
                    assert(guarded(w.plan));
                    assert(w.single_session());
                    assert(w.attended(cfg));
                } else {
                    lemma_stride_routine(rolls.stride);
                    let plan = rolls.stride.plan().push(Action::ReadScroll);
                    lemma_routine_guarded(plan);
                    lemma_enter(
                        EngineView { gait: v.gait.after(rolls.stride), ..u },
                        cfg,
                        Stage::Scrolling(page),
                        plan,
                        Notice::Quiet,
                    );
                }
            },
            Stage::Settling(page) => {
                if page >= cfg.max_pages {
                    lemma_finish(u, cfg, rolls.rest, Ending::CapReached);
                } else {
                    lemma_page_plans(0);
                    lemma_routine_guarded(advance_plan());
                    lemma_enter(
                        EngineView { no_next: 0, ..u },
                        cfg,
                        Stage::Loading((page + 1) as u32),
                        advance_plan(),
                        Notice::Quiet,
                    );
                }
            },
            Stage::Acknowledging => {
                lemma_finish(EngineView { no_next: 0, ..u }, cfg, rolls.rest, Ending::Acknowledged);
            },
            Stage::Stopped => {},
        }
    }
}

proof fn lemma_recover(v: EngineView, cfg: ConfigView, rolls: Rolls)
    requires
        v.wf(cfg),
        !(v.stage is Stopped),
    ensures
        v.recover(cfg, rolls).0.wf(cfg),
{
    let action = v.current();
    let fault = action.fault();
    match v.stage {
        Stage::Booting => {
            lemma_halt(v, cfg, Notice::Fatal(fault));
        },
        Stage::Acquiring(retried) => {
            if action == Action::PrepareQueryDir {
                lemma_halt(v, cfg, Notice::Fatal(fault));
            } else if retried {
                lemma_skip(v, cfg, fault);
            } else {
                lemma_restart(v, cfg, Cause::LostSession, Notice::SessionLost(fault));
            }
        },
        Stage::Restarting(Cause::LostSession) => {
            lemma_skip(v, cfg, fault);
        },
        Stage::Restarting(_) => {
            lemma_begin(v, cfg, Notice::RestartFailed(fault));
        },
        Stage::Arming => {
            if action == Action::Install(Payload::ClientIdentity) && v.cursor + 1 < v.plan.len() {
                lemma_proceed(v, cfg, v.alive, degraded(action));
            } else {
                lemma_open(v, cfg, rolls.typing, degraded(action));
            }
        },
        Stage::Opening | Stage::Loading(_) | Stage::Scrolling(_) => {
            lemma_fail(v, cfg, fault);
        },
        Stage::Settling(_) => {
            if action == Action::Locate(Control::NextPage) {
                lemma_missed(v, cfg, rolls.rest);
            } else {
                lemma_fail(v, cfg, fault);
            }
        },
        Stage::Acknowledging => {
            lemma_finish(EngineView { no_next: 0, ..v }, cfg, rolls.rest, Ending::Acknowledged);
        },
        Stage::Stopped => {},
    }
}

/// A run starts in a state as every run reaches.
pub proof fn lemma_initial_wf(cfg: ConfigView)
    ensures
        EngineView::initial().wf(cfg),
{
    lemma_session_plans(false, 0);
    lemma_discreet_attended(EngineView::initial(), cfg);
}

/// A step leads from a state that a run can reach to another such state.
pub proof fn lemma_next_wf(v: EngineView, cfg: ConfigView, event: Event, rolls: Rolls)
    requires
        v.wf(cfg),
        rolls.fits(v, cfg),
    ensures
        next(v, cfg, event, rolls).0.wf(cfg),
{
    if v.stage is Stopped {
    } else if v.current().answered_by(event) {
        let alive = after_completion(v.alive, v.current());
        if v.cursor + 1 < v.plan.len() {
            lemma_proceed(v, cfg, alive, Notice::Quiet);
        } else {
            lemma_conclude(v, cfg, event, rolls);
            assert((EngineView { alive, ..v }).conclude(cfg, event, rolls).0.wf(cfg));
        }
    } else {
        lemma_recover(v, cfg, rolls);
    }
}

} // verus!
