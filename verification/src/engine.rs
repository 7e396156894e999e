use crate::config::{Config, ConfigView};
use crate::dice::Dice;
use crate::evasion::apply_stealth;
use crate::extract::extract_search_results;
use crate::humanize::{
    human_scroll_to_bottom_medium, human_type_medium, typing_delays_fit, typing_plan, Gait,
    StrideRoll,
};
use crate::lifecycle::BrowserManager;
use crate::model::{
    lemma_floor_rolls, next, query_start_plan, rest_plan, steps, tab_plan, Cause, EngineView,
    Rolls, Stage, MAX_RETRIES, REST_MAX_MS, REST_MIN_MS, TAB_SETTLE_MS,
};
use crate::pagination::{plan_advance, plan_inspect, plan_load, plan_settle};
use crate::protocol::{
    Action, Control, Ending, Event, Fault, Notice, Payload, ScrollMetrics, Step,
};
use crate::query::plan_opening;
use crate::results::{results_view, SearchResult};
use crate::soundness::{lemma_initial_wf, lemma_next_wf, lemma_session_plans};
use crate::text::{safe_name, sanitize_query};
use vstd::prelude::*;

verus! {

/// What changes in the course of a run.
struct Course {
    stage: Stage,
    plan: Vec<Action>,
    cursor: usize,
    query_index: usize,
    retry_count: u32,
    no_next: u32,
    manager: BrowserManager,
    gait: Gait,
    records: Vec<SearchResult>,
}

impl View for Course {
    type V = EngineView;

    closed spec fn view(&self) -> EngineView {
        EngineView {
            stage: self.stage,
            plan: self.plan@,
            cursor: self.cursor as int,
            query_index: self.query_index as int,
            retry_count: self.retry_count,
            no_next: self.no_next,
            alive: self.manager.alive(),
            gait: self.gait,
            records: results_view(self.records@),
        }
    }
}

impl Course {
    /// The course at the start of a run.
    fn start() -> (course: Course)
        ensures
            course@ == EngineView::initial(),
    {
        let manager = BrowserManager::new();
        let mut plan: Vec<Action> = Vec::new();
        plan.push(Action::PrepareResultRoot);
        let mut launch = manager.get_or_create();
        plan.append(&mut launch);
        let records: Vec<SearchResult> = Vec::new();
        let course = Course {
            stage: Stage::Booting,
            plan,
            cursor: 0,
            query_index: 0,
            retry_count: 0,
            no_next: 0,
            manager,
            gait: Gait::start(),
            records,
        };
        assert(course@.records =~= Seq::empty());
        assert(course@.plan =~= EngineView::initial().plan);
        course
    }

    /// Enters a stage with its plan and hands out the plan's first action.
    fn enter(&mut self, stage: Stage, plan: Vec<Action>, notice: Notice) -> (step: Step)
        requires
            plan@.len() > 0,
        ensures
            (final(self)@, step) == old(self)@.enter(stage, plan@, notice),
    {
        let action = plan[0];
        self.stage = stage;
        self.plan = plan;
        self.cursor = 0;
        Step { action, notice }
    }

    /// Ends the run.
    fn halt(&mut self, notice: Notice) -> (step: Step)
        ensures
            (final(self)@, step) == old(self)@.halt(notice),
    {
        let mut plan: Vec<Action> = Vec::new();
        plan.push(Action::Stop);
        assert(plan@ =~= seq![Action::Stop]);
        self.enter(Stage::Stopped, plan, notice)
    }

    /// Starts the work on the current query, or ends the run where none is
    /// left.
    fn begin(&mut self, config: &Config, notice: Notice) -> (step: Step)
        ensures
            (final(self)@, step) == old(self)@.begin(config@, notice),
    {
        if self.query_index < config.search_queries.len() {
            let mut plan: Vec<Action> = Vec::new();
            plan.push(Action::PrepareQueryDir);
            let mut acquire = self.manager.get_or_create();
            plan.append(&mut acquire);
            plan.push(Action::Sleep(TAB_SETTLE_MS));
            plan.push(Action::SelectTab);
            assert(plan@ =~= query_start_plan(self.manager.alive()));
            self.enter(Stage::Acquiring(false), plan, notice)
        } else {
            self.halt(notice)
        }
    }

    /// Restarts the browser.
    fn restart(&mut self, cause: Cause, notice: Notice) -> (step: Step)
        ensures
            (final(self)@, step) == old(self)@.restart(cause, notice),
    {
        let plan = self.manager.restart();
        self.enter(Stage::Restarting(cause), plan, notice)
    }

    /// Gives the current query up and turns to the next.
    fn skip(&mut self, config: &Config, fault: Fault) -> (step: Step)
        requires
            old(self)@.query_index < config@.search_queries.len(),
        ensures
            (final(self)@, step) == old(self)@.skip(config@, fault),
    {
        let count: usize = config.search_queries.len();
        assert(config@.search_queries.len() == count);
        self.query_index = self.query_index + 1;
        self.retry_count = 0;
        self.begin(config, Notice::QuerySkipped(fault))
    }

    /// Counts a failed attempt at the current query.
    fn fail(&mut self, config: &Config, fault: Fault) -> (step: Step)
        requires
            old(self)@.query_index < config@.search_queries.len(),
            old(self)@.retry_count < MAX_RETRIES,
        ensures
            (final(self)@, step) == old(self)@.fail(config@, fault),
    {
        if self.retry_count + 1 >= MAX_RETRIES {
            self.skip(config, fault)
        } else {
            self.retry_count = self.retry_count + 1;
            self.restart(Cause::Retry, Notice::QueryFailed(fault, self.retry_count))
        }
    }

    /// Leaves a query that ran to its end. Gives the rest that was drawn.
    fn finish(&mut self, config: &Config, dice: &mut Dice, ending: Ending) -> (out: (
        Step,
        Ghost<u64>,
    ))
        requires
            old(self)@.query_index < config@.search_queries.len(),
        ensures
            REST_MIN_MS <= out.1@ <= REST_MAX_MS,
            (final(self)@, out.0) == old(self)@.finish(config@, out.1@, ending),
    {
        let count: usize = config.search_queries.len();
        assert(config@.search_queries.len() == count);
        self.query_index = self.query_index + 1;
        self.retry_count = 0;
        if self.query_index < config.search_queries.len() {
            let rest: u64 = dice.between(REST_MIN_MS, REST_MAX_MS);
            let mut plan: Vec<Action> = Vec::new();
            plan.push(Action::Sleep(rest));
            let mut restart = self.manager.restart();
            plan.append(&mut restart);
            assert(plan@ =~= rest_plan(rest));
            let step = self.enter(
                Stage::Restarting(Cause::Between),
                plan,
                Notice::QueryCompleted(ending),
            );
            (step, Ghost(rest))
        } else {
            let step = self.halt(Notice::QueryCompleted(ending));
            (step, Ghost(REST_MIN_MS))
        }
    }

    /// Counts a result page without a next-page control.
    fn miss(&mut self, config: &Config, dice: &mut Dice) -> (out: (Step, Ghost<u64>))
        requires
            old(self)@.query_index < config@.search_queries.len(),
            old(self)@.no_next < u32::MAX,
        ensures
            REST_MIN_MS <= out.1@ <= REST_MAX_MS,
            (final(self)@, out.0) == old(self)@.miss(config@, out.1@),
    {
        self.no_next = self.no_next + 1;
        if self.no_next >= config.max_consecutive_no_next {
            let mut plan: Vec<Action> = Vec::new();
            plan.push(Action::AwaitOperator);
            assert(plan@ =~= seq![Action::AwaitOperator]);
            let step = self.enter(Stage::Acknowledging, plan, Notice::LikelyBlocked(self.no_next));
            (step, Ghost(REST_MIN_MS))
        } else {
            self.finish(config, dice, Ending::NextMissing)
        }
    }

    /// Goes on once the operator has acknowledged.
    fn acknowledged(&mut self, config: &Config, dice: &mut Dice) -> (out: (Step, Ghost<u64>))
        requires
            old(self)@.query_index < config@.search_queries.len(),
        ensures
            REST_MIN_MS <= out.1@ <= REST_MAX_MS,
            (final(self)@, out.0) == old(self)@.acknowledged(config@, out.1@),
    {
        self.no_next = 0;
        self.finish(config, dice, Ending::Acknowledged)
    }

    /// Starts the query itself. Gives the typing waits that were drawn.
    fn open(&mut self, config: &Config, dice: &mut Dice, notice: Notice) -> (out: (
        Step,
        Ghost<Seq<u64>>,
    ))
        requires
            old(self)@.query_index < config@.search_queries.len(),
        ensures
            typing_delays_fit(out.1@, old(self)@.query(config@).len()),
            (final(self)@, out.0) == old(self)@.open(config@, out.1@, notice),
    {
        let query: &str = config.search_queries[self.query_index].as_str();
        let typing = human_type_medium(query, dice);
        let ghost delays = choose|delays: Seq<u64>| #[trigger]
            typing_delays_fit(delays, query@.len()) && typing@ == typing_plan(query@, delays);
        let plan = plan_opening(typing);
        proof {
            crate::query::lemma_opening_plan(query@, delays);
        }
        let step = self.enter(Stage::Opening, plan, notice);
        (step, Ghost(delays))
    }

    /// Decides what follows the plan that was carried out to its end. Gives
    /// the rolls that were used.
    fn conclude(&mut self, config: &Config, dice: &mut Dice, event: &Event) -> (out: (
        Step,
        Ghost<Rolls>,
    ))
        requires
            old(self)@.sound(config@),
            !(old(self)@.stage is Stopped),
        ensures
            out.1@.fits(old(self)@, config@),
            (final(self)@, out.0) == old(self)@.conclude(config@, *event, out.1@),
    {
        let ghost v = self@;
        let ghost cfg = config@;
        let ghost floor = Rolls::floor(v, cfg);
        proof {
            lemma_floor_rolls(v, cfg);
            lemma_session_plans(false, 0);
        }
        match self.stage {
            Stage::Booting => {
                let step = self.begin(config, Notice::Quiet);
                (step, Ghost(floor))
            },
            Stage::Acquiring(_) => {
                let plan = apply_stealth();
                let step = self.enter(Stage::Arming, plan, Notice::Quiet);
                (step, Ghost(floor))
            },
            Stage::Restarting(Cause::LostSession) => {
                let mut plan: Vec<Action> = Vec::new();
                plan.push(Action::Sleep(TAB_SETTLE_MS));
                plan.push(Action::SelectTab);
                assert(plan@ =~= tab_plan());
                let step = self.enter(Stage::Acquiring(true), plan, Notice::Quiet);
                (step, Ghost(floor))
            },
            Stage::Restarting(_) => {
                let step = self.begin(config, Notice::Quiet);
                (step, Ghost(floor))
            },
            Stage::Arming => {
                let (step, Ghost(typing)) = self.open(config, dice, Notice::Quiet);
                (step, Ghost(Rolls { typing, ..floor }))
            },
            Stage::Opening => {
                if config.max_pages == 0 {
                    let (step, Ghost(rest)) = self.finish(config, dice, Ending::NoPages);
                    (step, Ghost(Rolls { rest, ..floor }))
                } else {
                    let plan = plan_load();
                    proof {
                        crate::pagination::lemma_page_plans(0);
                    }
                    let step = self.enter(Stage::Loading(1), plan, Notice::Quiet);
                    (step, Ghost(floor))
                }
            },
            Stage::Loading(page) => {
                let records = match event {
                    Event::Content(html) => extract_search_results(html.as_str()),
                    _ => extract_search_results(""),
                };
                proof {
                    reveal_strlit("");
                    assert(""@ =~= Seq::<char>::empty());
                }
                let plan = plan_inspect(page);
                let notice = if records.len() == 0 {
                    Notice::EmptyPage(page)
                } else {
                    Notice::Quiet
                };
                self.records = records;
                self.gait = Gait::start();
                let step = self.enter(Stage::Scrolling(page), plan, notice);
                (step, Ghost(floor))
            },
            Stage::Scrolling(page) => {
                let metrics = match event {
                    Event::Scroll(metrics) => *metrics,
                    _ => ScrollMetrics { offset: 0, viewport: 0, content: 0 },
                };
                let (gait, leg) = human_scroll_to_bottom_medium(self.gait, metrics, dice);
                if leg.len() == 0 {
                    let plan = plan_settle(page, config.max_pages);
                    proof {
                        crate::pagination::lemma_settle_lookup(page, config.max_pages);
                    }
                    let step = self.enter(Stage::Settling(page), plan, Notice::Quiet);
                    (step, Ghost(floor))
                } else {
                    let ghost roll = choose|roll: StrideRoll| #[trigger]
                        roll.fits(v.gait) && gait == v.gait.after(roll) && leg@
                            == roll.plan().push(Action::ReadScroll);
                    self.gait = gait;
                    let step = self.enter(Stage::Scrolling(page), leg, Notice::Quiet);
                    (step, Ghost(Rolls { stride: roll, ..floor }))
                }
            },
            Stage::Settling(page) => {
                if page >= config.max_pages {
                    let (step, Ghost(rest)) = self.finish(config, dice, Ending::CapReached);
                    (step, Ghost(Rolls { rest, ..floor }))
                } else {
                    self.no_next = 0;
                    let plan = plan_advance();
                    proof {
                        crate::pagination::lemma_page_plans(0);
                    }
                    let step = self.enter(Stage::Loading(page + 1), plan, Notice::Quiet);
                    (step, Ghost(floor))
                }
            },
            Stage::Acknowledging => {
                let (step, Ghost(rest)) = self.acknowledged(config, dice);
                (step, Ghost(Rolls { rest, ..floor }))
            },
            Stage::Stopped => {
                let step = self.halt(Notice::Quiet);
                (step, Ghost(floor))
            },
        }
    }

    /// Decides what follows the failure of the current action. Gives the
    /// rolls that were used.
    fn recover(&mut self, config: &Config, dice: &mut Dice) -> (out: (Step, Ghost<Rolls>))
        requires
            old(self)@.sound(config@),
            !(old(self)@.stage is Stopped),
        ensures
            out.1@.fits(old(self)@, config@),
            (final(self)@, out.0) == old(self)@.recover(config@, out.1@),
    {
        let ghost v = self@;
        let ghost cfg = config@;
        let ghost floor = Rolls::floor(v, cfg);
        proof {
            lemma_floor_rolls(v, cfg);
        }
        let action = self.plan[self.cursor];
        let fault = action.fault_kind();
        match self.stage {
            Stage::Booting => {
                let step = self.halt(Notice::Fatal(fault));
                (step, Ghost(floor))
            },
            Stage::Acquiring(retried) => {
                let step = if action == Action::PrepareQueryDir {
                    self.halt(Notice::Fatal(fault))
                } else if retried {
                    self.skip(config, fault)
                } else {
                    self.restart(Cause::LostSession, Notice::SessionLost(fault))
                };
                (step, Ghost(floor))
            },
            Stage::Restarting(Cause::LostSession) => {
                let step = self.skip(config, fault);
                (step, Ghost(floor))
            },
            Stage::Restarting(_) => {
                let step = self.begin(config, Notice::RestartFailed(fault));
                (step, Ghost(floor))
            },
            Stage::Arming => {
                let notice = match action {
                    Action::Install(payload) => Notice::EvasionDegraded(payload),
                    _ => Notice::Quiet,
                };
                if action == Action::Install(Payload::ClientIdentity) && self.cursor
                    < self.plan.len() - 1 {
                    self.cursor = self.cursor + 1;
                    let step = Step { action: self.plan[self.cursor], notice };
                    (step, Ghost(floor))
                } else {
                    let (step, Ghost(typing)) = self.open(config, dice, notice);
                    (step, Ghost(Rolls { typing, ..floor }))
                }
            },
            Stage::Opening | Stage::Loading(_) | Stage::Scrolling(_) => {
                let step = self.fail(config, fault);
                (step, Ghost(floor))
            },
            Stage::Settling(_) => {
                if action == Action::Locate(Control::NextPage) {
                    let (step, Ghost(rest)) = self.miss(config, dice);
                    (step, Ghost(Rolls { rest, ..floor }))
                } else {
                    let step = self.fail(config, fault);
                    (step, Ghost(floor))
                }
            },
            Stage::Acknowledging => {
                let (step, Ghost(rest)) = self.acknowledged(config, dice);
                (step, Ghost(Rolls { rest, ..floor }))
            },
            Stage::Stopped => {
                let step = self.halt(Notice::Quiet);
                (step, Ghost(floor))
            },
        }
    }

    /// Takes the answer to the current action and names the next one.
    fn advance(&mut self, config: &Config, dice: &mut Dice, event: Event) -> (step: Step)
        requires
            old(self)@.wf(config@),
        ensures
            final(self)@.wf(config@),
            steps(old(self)@, config@, event, final(self)@, step),
            step.action == final(self)@.current(),
    {
        let ghost v = self@;
        let ghost cfg = config@;
        proof {
            lemma_floor_rolls(v, cfg);
        }
        let (step, Ghost(rolls)) = if matches!(self.stage, Stage::Stopped) {
            (Step { action: Action::Stop, notice: Notice::Quiet }, Ghost(Rolls::floor(v, cfg)))
        } else {
            let action = self.plan[self.cursor];
            if action.is_answered_by(&event) {
                self.manager.completed(action);
                if self.cursor < self.plan.len() - 1 {
                    self.cursor = self.cursor + 1;
                    (
                        Step { action: self.plan[self.cursor], notice: Notice::Quiet },
                        Ghost(Rolls::floor(v, cfg)),
                    )
                } else {
                    self.conclude(config, dice, &event)
                }
            } else {
                self.recover(config, dice)
            }
        };
        proof {
            assert(rolls.fits(v, cfg));
            assert(next(v, cfg, event, rolls) == (self@, step));
            lemma_next_wf(v, cfg, event, rolls);
        }
        step
    }
}

/// The engine of a run. It decides; a driver acts. The driver carries out the
/// action that the engine names, reports how that went, and is told the next
/// action, until the action is [`Action::Stop`].
///
/// An engine is always in a state that a run reaches from its start.
pub struct Engine {
    config: Config,
    dice: Dice,
    course: Course,
}

impl View for Engine {
    type V = EngineView;

    closed spec fn view(&self) -> EngineView {
        self.course@
    }
}

impl Engine {
    #[verifier::type_invariant]
    spec fn reached(self) -> bool {
        self.course@.wf(self.config@)
    }

    /// The configuration of the run.
    pub closed spec fn settings(&self) -> ConfigView {
        self.config@
    }

    /// An engine at the start of a run with the given configuration. Its
    /// random source is seeded anew.
    pub fn new(config: Config) -> (engine: Engine)
        ensures
            engine@ == EngineView::initial(),
            engine.settings() == config@,
            engine@.wf(engine.settings()),
    {
        let course = Course::start();
        proof {
            lemma_initial_wf(config@);
        }
        Engine { config, dice: Dice::new(), course }
    }

    /// The action that the driver is to carry out now.
    pub fn current(&self) -> (action: Action)
        ensures
            action == self@.current(),
    {
        proof {
            use_type_invariant(self);
        }
        self.course.plan[self.course.cursor]
    }

    /// Whether the run is over.
    pub fn is_stopped(&self) -> (yes: bool)
        ensures
            yes == (self@.stage is Stopped),
    {
        matches!(self.course.stage, Stage::Stopped)
    }

    /// Where the run stands.
    pub fn stage(&self) -> (stage: Stage)
        ensures
            stage == self@.stage,
    {
        self.course.stage
    }

    /// The configuration of the run.
    pub fn config(&self) -> (config: &Config)
        ensures
            config@ == self.settings(),
    {
        &self.config
    }

    /// Position of the current query in the list of queries; the length of
    /// the list once all are done.
    pub fn query_index(&self) -> (index: usize)
        ensures
            index == self@.query_index,
    {
        self.course.query_index
    }

    /// Failed attempts at the current query so far.
    pub fn retry_count(&self) -> (count: u32)
        ensures
            count == self@.retry_count,
    {
        self.course.retry_count
    }

    /// Consecutive result pages without a next-page control so far.
    pub fn consecutive_no_next(&self) -> (count: u32)
        ensures
            count == self@.no_next,
    {
        self.course.no_next
    }

    /// Whether the engine counts a browser session as alive.
    pub fn session_alive(&self) -> (yes: bool)
        ensures
            yes == self@.alive,
    {
        self.course.manager.is_alive()
    }

    /// The text of the current query, while there is one.
    pub fn query(&self) -> (query: Option<&String>)
        ensures
            query is Some <==> self@.query_index < self.settings().search_queries.len(),
            query matches Some(text) ==> text@ == self@.query(self.settings()),
    {
        if self.course.query_index < self.config.search_queries.len() {
            Some(&self.config.search_queries[self.course.query_index])
        } else {
            None
        }
    }

    /// The name of the directory that takes the current query's results,
    /// while there is a current query.
    pub fn query_dir_name(&self) -> (name: Option<String>)
        ensures
            name is Some <==> self@.query_index < self.settings().search_queries.len(),
            name matches Some(text) ==> text@ == safe_name(self@.query(self.settings())),
    {
        if self.course.query_index < self.config.search_queries.len() {
            Some(sanitize_query(self.config.search_queries[self.course.query_index].as_str()))
        } else {
            None
        }
    }

    /// The records of the result page that was read last. They are what
    /// [`Action::Persist`] asks to have written.
    pub fn records(&self) -> (records: &Vec<SearchResult>)
        ensures
            results_view(records@) == self@.records,
    {
        &self.course.records
    }

    /// Takes the driver's answer to the current action and gives the engine
    /// in its next state, with the next action. The state and the step are
    /// those of the run's transition function, for rolls that fit the state;
    /// which rolls they are is left to chance.
    pub fn step(self, event: Event) -> (out: (Engine, Step))
        ensures
            out.0.settings() == self.settings(),
            steps(self@, self.settings(), event, out.0@, out.1),
            out.0@.wf(out.0.settings()),
            out.1.action == out.0@.current(),
    {
        proof {
            use_type_invariant(&self);
        }
        let Engine { config, dice, course } = self;
        let mut dice = dice;
        let mut course = course;
        let step = course.advance(&config, &mut dice, event);
        (Engine { config, dice, course }, step)
    }
}

} // verus!
