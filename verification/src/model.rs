use crate::config::ConfigView;
use crate::evasion::evasion_plan;
use crate::extract::{listing_records, well_formed};
use crate::humanize::{lemma_floor_fits, typing_delays_fit, Gait, StrideRoll, TYPING_DELAY_MIN_MS};
use crate::lifecycle::{acquire_plan, after_completion, guarded, launches_once, restart_plan};
use crate::pagination::{
    advance_plan, calls_operator, inspect_plan, load_plan, missed, settle_plan,
};
use crate::protocol::{
    Action, Control, Ending, Event, Fault, Notice, Payload, ScrollMetrics, Step,
};
use crate::query::opening_plan;
use crate::results::SearchResultView;
use vstd::prelude::*;

verus! {

/// Number of failed attempts after which a query is given up.
pub const MAX_RETRIES: u32 = 3;

/// Shortest and longest rest between two queries, in milliseconds.
pub const REST_MIN_MS: u64 = 3600;

pub const REST_MAX_MS: u64 = 7200;

/// Wait before a tab is picked from a session, in milliseconds.
pub const TAB_SETTLE_MS: u64 = 500;

/// Why the browser is being restarted.
#[derive(Clone, Copy, PartialEq, Eq, Debug, Structural)]
pub enum Cause {
    /// No tab could be had from the session.
    LostSession,
    /// The query failed and is tried again.
    Retry,
    /// A query ran to its end, and the next starts on a fresh identity.
    Between,
}

/// Where a run stands.
#[derive(Clone, Copy, PartialEq, Eq, Debug, Structural)]
pub enum Stage {
    /// The result directory and the first session are being set up.
    Booting,
    /// A tab is being obtained for the current query; `true` once the one
    /// restart that this may take is behind.
    Acquiring(bool),
    /// The browser is being restarted.
    Restarting(Cause),
    /// The overrides are being installed into the session.
    Arming,
    /// The query is being typed and submitted.
    Opening,
    /// The result page of the given number is being loaded and read.
    Loading(u32),
    /// The page of the given number is being scrolled to its bottom.
    Scrolling(u32),
    /// The page of the given number has been scrolled, and the way on is
    /// being looked for.
    Settling(u32),
    /// The operator is being waited for.
    Acknowledging,
    /// The run is over.
    Stopped,
}

impl Stage {
    /// The number of the page that is being worked on, if any.
    pub open spec fn page(self) -> Option<u32> {
        match self {
            Stage::Loading(page) | Stage::Scrolling(page) | Stage::Settling(page) => Some(page),
            _ => None,
        }
    }

    /// Whether the stage belongs to the work on one query.
    pub open spec fn within_query(self) -> bool {
        !(self is Booting) && !(self is Stopped)
    }

    /// Whether the stage belongs to the execution of the query itself, whose
    /// failures count against the query's retry budget.
    pub open spec fn executing(self) -> bool {
        self is Opening || self is Loading || self is Scrolling || self is Settling
    }
}

/// What the engine holds, as far as its decisions depend on it.
pub struct EngineView {
    pub stage: Stage,
    /// The actions planned up to the next decision.
    pub plan: Seq<Action>,
    /// Position in the plan of the action that the driver is carrying out.
    pub cursor: int,
    /// Position of the current query in the list of queries.
    pub query_index: int,
    /// Failed attempts at the current query.
    pub retry_count: u32,
    /// Consecutive result pages on which no next-page control was found.
    pub no_next: u32,
    /// Whether a browser session is alive.
    pub alive: bool,
    /// Pace of the scroll in progress.
    pub gait: Gait,
    /// Records of the page that was read last.
    pub records: Seq<SearchResultView>,
}

/// What was drawn at random for one step of the engine.
pub struct Rolls {
    /// The wait after each character of the current query.
    pub typing: Seq<u64>,
    /// What one step of a scroll needs.
    pub stride: StrideRoll,
    /// The rest after the current query.
    pub rest: u64,
}

/// The plan of a run's start: the result directory, then the first session.
pub open spec fn boot_plan() -> Seq<Action> {
    seq![Action::PrepareResultRoot] + acquire_plan(false)
}

/// Picking the tab to work in, after a short wait.
pub open spec fn tab_plan() -> Seq<Action> {
    seq![Action::Sleep(TAB_SETTLE_MS), Action::SelectTab]
}

/// The start of the work on a query: its result directory, a session where
/// none is alive, and a tab.
pub open spec fn query_start_plan(alive: bool) -> Seq<Action> {
    seq![Action::PrepareQueryDir] + acquire_plan(alive) + tab_plan()
}

/// The end of the work on a query that is not the last: a rest, then a
/// restart.
pub open spec fn rest_plan(rest: u64) -> Seq<Action> {
    seq![Action::Sleep(rest)] + restart_plan()
}

/// What is reported when an override could not be installed.
pub open spec fn degraded(action: Action) -> Notice {
    match action {
        Action::Install(payload) => Notice::EvasionDegraded(payload),
        _ => Notice::Quiet,
    }
}

impl Event {
    /// The scroll position that the event carries; all zero for an event
    /// without one.
    pub open spec fn metrics(self) -> ScrollMetrics {
        match self {
            Event::Scroll(metrics) => metrics,
            _ => ScrollMetrics { offset: 0, viewport: 0, content: 0 },
        }
    }
}

impl Rolls {
    /// The least rolls that fit the state `v`.
    pub open spec fn floor(v: EngineView, cfg: ConfigView) -> Rolls {
        Rolls {
            typing: Seq::new(v.query(cfg).len(), |i: int| TYPING_DELAY_MIN_MS),
            stride: StrideRoll::floor(v.gait),
            rest: REST_MIN_MS,
        }
    }

    /// Whether the rolls are such as can be drawn in the state `v`: one
    /// typing wait within bounds for each character of the current query, a
    /// scroll step that fits the gait, and a rest within bounds.
    pub open spec fn fits(self, v: EngineView, cfg: ConfigView) -> bool {
        &&& typing_delays_fit(self.typing, v.query(cfg).len())
        &&& self.stride.fits(v.gait)
        &&& REST_MIN_MS <= self.rest <= REST_MAX_MS
    }
}

impl EngineView {
    /// The state in which a run starts.
    pub open spec fn initial() -> EngineView {
        EngineView {
            stage: Stage::Booting,
            plan: boot_plan(),
            cursor: 0,
            query_index: 0,
            retry_count: 0,
            no_next: 0,
            alive: false,
            gait: Gait::fresh(),
            records: Seq::empty(),
        }
    }

    /// The action that the driver is carrying out.
    pub open spec fn current(self) -> Action {
        self.plan[self.cursor]
    }

    /// The text of the current query; empty once all queries are done.
    pub open spec fn query(self, cfg: ConfigView) -> Seq<char> {
        if 0 <= self.query_index < cfg.search_queries.len() {
            cfg.search_queries[self.query_index]
        } else {
            Seq::empty()
        }
    }

    /// What holds of the counters of every state that a run reaches: the
    /// cursor points into the plan, the current query exists while a query is
    /// worked on, the retry budget is not spent, the count of misses is below
    /// its threshold unless the operator is being asked, the page is one that
    /// the cap allows, and a run that is over asks for nothing but to stop.
    pub open spec fn sound(self, cfg: ConfigView) -> bool {
        &&& 0 <= self.cursor < self.plan.len()
        &&& 0 <= self.query_index <= cfg.search_queries.len()
        &&& self.stage.within_query() ==> self.query_index < cfg.search_queries.len()
        &&& self.retry_count < MAX_RETRIES
        &&& !(self.stage is Acknowledging) ==> self.no_next == 0 || self.no_next
            < cfg.max_consecutive_no_next
        &&& self.stage.page() matches Some(page) ==> 1 <= page <= cfg.max_pages
        &&& self.stage is Stopped ==> self.current() == Action::Stop
    }

    /// Whether the plan takes its delicate actions only where the stage
    /// allows them: overrides are installed only in the stage for it, a page
    /// is gone to only while a query is opened, the next-page control is
    /// searched for only on a settled page below the cap, records are written
    /// only under the number of the page that is being scrolled, and as the
    /// first thing there, and the operator is called on only where that is
    /// the stage.
    pub open spec fn attended(self, cfg: ConfigView) -> bool {
        forall|i: int|
            0 <= i < self.plan.len() ==> {
                &&& (#[trigger] self.plan[i]) is Install ==> self.stage is Arming
                &&& self.plan[i] is Navigate ==> self.stage is Opening
                &&& self.plan[i] == Action::Locate(Control::NextPage) ==> (
                self.stage matches Stage::Settling(page) && page < cfg.max_pages)
                &&& (self.plan[i] matches Action::Persist(page) ==> self.stage == Stage::Scrolling(
                    page,
                ) && i == 0)
                &&& self.plan[i] == Action::AwaitOperator ==> self.stage is Acknowledging
            }
    }

    /// Whether the plan is one of the stage: while the overrides are
    /// installed nothing else is planned, the loading of a page ends with the
    /// reading of its markup, a scroll with a reading of the position, a
    /// settled page has its plan, and where the operator is waited for or the
    /// run is over nothing else is planned.
    pub open spec fn shaped(self, cfg: ConfigView) -> bool {
        match self.stage {
            Stage::Arming => self.plan == evasion_plan(),
            Stage::Loading(_) => self.plan.last() == Action::ReadContent,
            Stage::Scrolling(_) => self.plan.last() == Action::ReadScroll,
            Stage::Settling(page) => self.plan == settle_plan(page, cfg.max_pages),
            Stage::Acknowledging => self.plan == seq![Action::AwaitOperator],
            Stage::Stopped => self.plan == seq![Action::Stop],
            _ => true,
        }
    }

    /// Whether at most one session is alive at a time: the plan starts a
    /// browser at most once, and not at all from here on where a session is
    /// alive.
    pub open spec fn single_session(self) -> bool {
        &&& launches_once(self.plan)
        &&& self.alive ==> forall|i: int|
            self.cursor <= i < self.plan.len() ==> (#[trigger] self.plan[i])
                != Action::LaunchBrowser
    }

    /// What holds of every state that a run reaches: the counters are sound,
    /// the plan is one of the stage, starts no browser on a used identity
    /// store or beside a session that is alive, and takes the other delicate
    /// actions only where the stage allows them, and the records are well
    /// formed.
    pub open spec fn wf(self, cfg: ConfigView) -> bool {
        &&& self.sound(cfg)
        &&& self.shaped(cfg)
        &&& guarded(self.plan)
        &&& self.single_session()
        &&& self.attended(cfg)
        &&& well_formed(self.records)
    }

    /// Goes on with the next action of the plan.
    pub open spec fn proceed(self, notice: Notice) -> (EngineView, Step) {
        (
            EngineView { cursor: self.cursor + 1, ..self },
            Step { action: self.plan[self.cursor + 1], notice },
        )
    }

    /// Enters a stage with a plan, and starts on the plan.
    pub open spec fn enter(self, stage: Stage, plan: Seq<Action>, notice: Notice) -> (
        EngineView,
        Step,
    ) {
        (EngineView { stage, plan, cursor: 0, ..self }, Step { action: plan[0], notice })
    }

    /// Ends the run.
    pub open spec fn halt(self, notice: Notice) -> (EngineView, Step) {
        self.enter(Stage::Stopped, seq![Action::Stop], notice)
    }

    /// Starts the work on the current query, or ends the run where no query
    /// is left.
    pub open spec fn begin(self, cfg: ConfigView, notice: Notice) -> (EngineView, Step) {
        if self.query_index < cfg.search_queries.len() {
            self.enter(Stage::Acquiring(false), query_start_plan(self.alive), notice)
        } else {
            self.halt(notice)
        }
    }

    /// Restarts the browser. No session counts as alive from here on.
    pub open spec fn restart(self, cause: Cause, notice: Notice) -> (EngineView, Step) {
        (EngineView { alive: false, ..self }).enter(
            Stage::Restarting(cause),
            restart_plan(),
            notice,
        )
    }

    /// Gives the current query up and turns to the next one, with a fresh
    /// retry budget.
    pub open spec fn skip(self, cfg: ConfigView, fault: Fault) -> (EngineView, Step) {
        (EngineView { query_index: self.query_index + 1, retry_count: 0, ..self }).begin(
            cfg,
            Notice::QuerySkipped(fault),
        )
    }

    /// Counts a failed attempt at the current query: the query is tried again
    /// after a restart while the budget lasts, and given up once it is spent.
    pub open spec fn fail(self, cfg: ConfigView, fault: Fault) -> (EngineView, Step) {
        if self.retry_count + 1 >= MAX_RETRIES {
            self.skip(cfg, fault)
        } else {
            (EngineView { retry_count: (self.retry_count + 1) as u32, ..self }).restart(
                Cause::Retry,
                Notice::QueryFailed(fault, (self.retry_count + 1) as u32),
            )
        }
    }

    /// Leaves a query that ran to its end: the next one follows after a rest
    /// and a restart, and the run ends where it was the last.
    pub open spec fn finish(self, cfg: ConfigView, rest: u64, ending: Ending) -> (
        EngineView,
        Step,
    ) {
        let done = EngineView { query_index: self.query_index + 1, retry_count: 0, ..self };
        if done.query_index < cfg.search_queries.len() {
            (EngineView { alive: false, ..done }).enter(
                Stage::Restarting(Cause::Between),
                rest_plan(rest),
                Notice::QueryCompleted(ending),
            )
        } else {
            done.halt(Notice::QueryCompleted(ending))
        }
    }

    /// Counts a result page without a next-page control. The query ends
    /// there; where the count has reached the threshold, the operator is
    /// asked first.
    pub open spec fn miss(self, cfg: ConfigView, rest: u64) -> (EngineView, Step) {
        let misses = missed(self.no_next);
        let counted = EngineView { no_next: misses, ..self };
        if calls_operator(misses, cfg.max_consecutive_no_next) {
            counted.enter(
                Stage::Acknowledging,
                seq![Action::AwaitOperator],
                Notice::LikelyBlocked(misses),
            )
        } else {
            counted.finish(cfg, rest, Ending::NextMissing)
        }
    }

    /// Starts the query itself in a session that is set up.
    pub open spec fn open(self, cfg: ConfigView, typing: Seq<u64>, notice: Notice) -> (
        EngineView,
        Step,
    ) {
        self.enter(Stage::Opening, opening_plan(self.query(cfg), typing), notice)
    }

    /// Goes on once the operator's acknowledgement is in: the count of misses
    /// starts anew, and the query has ended.
    pub open spec fn acknowledged(self, cfg: ConfigView, rest: u64) -> (EngineView, Step) {
        (EngineView { no_next: 0, ..self }).finish(cfg, rest, Ending::Acknowledged)
    }

    /// What follows when the last action of the plan was carried out, the
    /// driver having answered it with `event`.
    pub open spec fn conclude(self, cfg: ConfigView, event: Event, rolls: Rolls) -> (
        EngineView,
        Step,
    ) {
        match self.stage {
            Stage::Booting => self.begin(cfg, Notice::Quiet),
            Stage::Acquiring(_) => self.enter(Stage::Arming, evasion_plan(), Notice::Quiet),
            Stage::Restarting(Cause::LostSession) => self.enter(
                Stage::Acquiring(true),
                tab_plan(),
                Notice::Quiet,
            ),
            Stage::Restarting(_) => self.begin(cfg, Notice::Quiet),
            Stage::Arming => self.open(cfg, rolls.typing, Notice::Quiet),
            Stage::Opening => if cfg.max_pages == 0 {
                self.finish(cfg, rolls.rest, Ending::NoPages)
            } else {
                self.enter(Stage::Loading(1), load_plan(), Notice::Quiet)
            },
            Stage::Loading(page) => {
                let records = listing_records(event.markup());
                (EngineView { records, gait: Gait::fresh(), ..self }).enter(
                    Stage::Scrolling(page),
                    inspect_plan(page),
                    if records.len() == 0 {
                        Notice::EmptyPage(page)
                    } else {
                        Notice::Quiet
                    },
                )
            },
            Stage::Scrolling(page) => if event.metrics().at_bottom() {
                self.enter(Stage::Settling(page), settle_plan(page, cfg.max_pages), Notice::Quiet)
            } else {
                (EngineView { gait: self.gait.after(rolls.stride), ..self }).enter(
                    Stage::Scrolling(page),
                    rolls.stride.plan().push(Action::ReadScroll),
                    Notice::Quiet,
                )
            },
            Stage::Settling(page) => if page >= cfg.max_pages {
                self.finish(cfg, rolls.rest, Ending::CapReached)
            } else {
                (EngineView { no_next: 0, ..self }).enter(
                    Stage::Loading((page + 1) as u32),
                    advance_plan(),
                    Notice::Quiet,
                )
            },
            Stage::Acknowledging => self.acknowledged(cfg, rolls.rest),
            Stage::Stopped => self.halt(Notice::Quiet),
        }
    }

    /// What follows when the current action failed.
    pub open spec fn recover(self, cfg: ConfigView, rolls: Rolls) -> (EngineView, Step) {
        let action = self.current();
        let fault = action.fault();
        match self.stage {
            Stage::Booting => self.halt(Notice::Fatal(fault)),
            Stage::Acquiring(retried) => if action == Action::PrepareQueryDir {
                self.halt(Notice::Fatal(fault))
            } else if retried {
                self.skip(cfg, fault)
            } else {
                self.restart(Cause::LostSession, Notice::SessionLost(fault))
            },
            Stage::Restarting(Cause::LostSession) => self.skip(cfg, fault),
            Stage::Restarting(_) => self.begin(cfg, Notice::RestartFailed(fault)),
            Stage::Arming => if action == Action::Install(Payload::ClientIdentity) && self.cursor
                + 1 < self.plan.len() {
                self.proceed(degraded(action))
            } else {
                self.open(cfg, rolls.typing, degraded(action))
            },
            Stage::Opening | Stage::Loading(_) | Stage::Scrolling(_) => self.fail(cfg, fault),
            Stage::Settling(_) => if action == Action::Locate(Control::NextPage) {
                self.miss(cfg, rolls.rest)
            } else {
                self.fail(cfg, fault)
            },
            Stage::Acknowledging => self.acknowledged(cfg, rolls.rest),
            Stage::Stopped => self.halt(Notice::Quiet),
        }
    }
}

/// The engine's step: from the state `v` and the driver's answer `event` to
/// the action carried out so far, to the next state and what the driver is to
/// do next. Once stopped, the engine stays stopped. An answer that reports
/// the action as carried out leads on in the plan, and at its end to the
/// decision that the stage calls for; any other answer is a failure of the
/// action.
pub open spec fn next(v: EngineView, cfg: ConfigView, event: Event, rolls: Rolls) -> (
    EngineView,
    Step,
) {
    if v.stage is Stopped {
        (v, Step::plain(Action::Stop))
    } else if v.current().answered_by(event) {
        let seen = EngineView { alive: after_completion(v.alive, v.current()), ..v };
        if v.cursor + 1 < v.plan.len() {
            seen.proceed(Notice::Quiet)
        } else {
            seen.conclude(cfg, event, rolls)
        }
    } else {
        v.recover(cfg, rolls)
    }
}

impl EngineView {
    /// What holds of the counters and records in every stage but that of
    /// waiting for the operator.
    pub open spec fn steady(self, cfg: ConfigView) -> bool {
        &&& 0 <= self.query_index <= cfg.search_queries.len()
        &&& self.retry_count < MAX_RETRIES
        &&& self.no_next == 0 || self.no_next < cfg.max_consecutive_no_next
        &&& well_formed(self.records)
    }
}

/// In every state there are rolls that fit it.
pub proof fn lemma_floor_rolls(v: EngineView, cfg: ConfigView)
    ensures
        Rolls::floor(v, cfg).fits(v, cfg),
{
    lemma_floor_fits(v.gait);
}

/// Whether the engine can step from `v` to `w` with `step` on the driver's
/// answer `event`: it does so for some rolls that fit `v`.
pub open spec fn steps(
    v: EngineView,
    cfg: ConfigView,
    event: Event,
    w: EngineView,
    step: Step,
) -> bool {
    exists|rolls: Rolls| #[trigger]
        rolls.fits(v, cfg) && next(v, cfg, event, rolls) == (w, step)
}

} // verus!
