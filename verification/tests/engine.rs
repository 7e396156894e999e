use gnezdo::config::Config;
use gnezdo::engine::Engine;
use gnezdo::model::{Cause, Stage};
use gnezdo::protocol::{
    Action, Control, Ending, Event, Fault, Notice, Page, Payload, ScrollMetrics, Step,
};

const LISTING: &str = r#"<html><body>
<a jsname="UWckNb" href="https://a.example/"><h3>Alpha</h3></a>
<a jsname="UWckNb" href="https://b.example/"><h3>Beta</h3></a>
<a jsname="UWckNb" href="https://a.example/"><h3>Alpha again</h3></a>
</body></html>"#;

const BOTTOM: ScrollMetrics = ScrollMetrics { offset: 1200, viewport: 800, content: 2000 };

const TOP: ScrollMetrics = ScrollMetrics { offset: 0, viewport: 800, content: 2000 };

fn config(queries: &[&str], max_pages: u32, threshold: u32) -> Config {
    Config {
        profile_dir: "profile".to_string(),
        chromium_path: "chrome".to_string(),
        result_dir: "out".to_string(),
        max_pages,
        max_consecutive_no_next: threshold,
        search_queries: queries.iter().map(|q| q.to_string()).collect(),
    }
}

/// The answer of a driver for which everything works, every page holds the
/// listing and is short enough to be at its bottom at once, and a next page
/// always exists.
fn obliging(action: Action) -> Event {
    match action {
        Action::ReadContent => Event::Content(LISTING.to_string()),
        Action::ReadScroll => Event::Scroll(BOTTOM),
        _ => Event::Done,
    }
}

/// Runs the engine to its end against `respond` and gives it back with
/// every step that the driver was handed, the first action included.
fn run(engine: Engine, mut respond: impl FnMut(&Engine, Action) -> Event) -> (Engine, Vec<Step>) {
    let mut engine = engine;
    let mut trace = vec![Step { action: engine.current(), notice: Notice::Quiet }];
    let mut action = engine.current();
    let mut budget = 200_000;
    while action != Action::Stop {
        assert!(budget > 0);
        budget -= 1;
        let event = respond(&engine, action);
        let (next, step) = engine.step(event);
        engine = next;
        assert_eq!(step.action, engine.current());
        action = step.action;
        trace.push(step);
    }
    assert!(engine.is_stopped());
    (engine, trace)
}

/// One step of the engine, in place.
fn advance(engine: &mut Option<Engine>, event: Event) -> Step {
    let (next, step) = engine.take().unwrap().step(event);
    *engine = Some(next);
    step
}

fn actions(trace: &Vec<Step>) -> Vec<Action> {
    trace.iter().map(|s| s.action).collect()
}

fn notices(trace: &Vec<Step>) -> Vec<Notice> {
    trace.iter().map(|s| s.notice).filter(|n| *n != Notice::Quiet).collect()
}

fn count(trace: &Vec<Step>, action: Action) -> usize {
    trace.iter().filter(|s| s.action == action).count()
}

fn persisted(trace: &Vec<Step>) -> Vec<u32> {
    trace
        .iter()
        .filter_map(|s| match s.action {
            Action::Persist(page) => Some(page),
            _ => None,
        })
        .collect()
}

fn assert_every_launch_on_a_fresh_store(trace: &Vec<Step>) {
    let all = actions(trace);
    for (i, action) in all.iter().enumerate() {
        if *action == Action::LaunchBrowser {
            assert!(i >= 2);
            assert_eq!(all[i - 1], Action::PrepareProfile);
            assert_eq!(all[i - 2], Action::WipeProfile);
        }
        if *action == Action::PrepareProfile {
            assert!(i >= 1);
            assert_eq!(all[i - 1], Action::WipeProfile);
        }
    }
}

#[test]
fn run_starts_with_the_result_root_and_a_fresh_session() {
    let engine = Engine::new(config(&["q"], 1, 2));
    assert_eq!(engine.stage(), Stage::Booting);
    assert_eq!(engine.current(), Action::PrepareResultRoot);
    assert!(!engine.session_alive());
    let mut engine = Some(engine);
    assert_eq!(advance(&mut engine, Event::Done).action, Action::WipeProfile);
    assert_eq!(advance(&mut engine, Event::Done).action, Action::PrepareProfile);
    assert_eq!(advance(&mut engine, Event::Done).action, Action::LaunchBrowser);
    assert!(!engine.as_ref().unwrap().session_alive());
    assert_eq!(advance(&mut engine, Event::Done).action, Action::PrepareQueryDir);
    assert!(engine.as_ref().unwrap().session_alive());
    assert_eq!(engine.as_ref().unwrap().stage(), Stage::Acquiring(false));
    assert_eq!(advance(&mut engine, Event::Done).action, Action::Sleep(500));
    assert_eq!(advance(&mut engine, Event::Done).action, Action::SelectTab);
    assert_eq!(
        advance(&mut engine, Event::Done).action,
        Action::Install(Payload::ClientIdentity)
    );
    assert_eq!(engine.as_ref().unwrap().stage(), Stage::Arming);
}

#[test]
fn run_without_queries_stops_after_the_start() {
    let engine = Engine::new(config(&[], 3, 2));
    let (engine, trace) = run(engine, |_, a| obliging(a));
    assert_eq!(
        actions(&trace),
        vec![
            Action::PrepareResultRoot,
            Action::WipeProfile,
            Action::PrepareProfile,
            Action::LaunchBrowser,
            Action::Stop,
        ]
    );
    assert!(notices(&trace).is_empty());
    assert_eq!(engine.query(), None);
    assert_eq!(engine.query_dir_name(), None);
}

#[test]
fn stopped_engine_stays_stopped() {
    let engine = Engine::new(config(&[], 3, 2));
    let (engine, _) = run(engine, |_, a| obliging(a));
    let mut engine = Some(engine);
    for event in [Event::Done, Event::Failed, Event::Content("x".to_string()), Event::Scroll(TOP)] {
        let step = advance(&mut engine, event);
        assert_eq!(step, Step { action: Action::Stop, notice: Notice::Quiet });
        assert_eq!(engine.as_ref().unwrap().stage(), Stage::Stopped);
    }
}

#[test]
fn failing_result_root_is_fatal() {
    let engine = Engine::new(config(&["q"], 3, 2));
    let (engine, step) = engine.step(Event::Failed);
    assert_eq!(step, Step { action: Action::Stop, notice: Notice::Fatal(Fault::Storage) });
    assert!(engine.is_stopped());
}

#[test]
fn failing_first_launch_is_fatal() {
    for failing in [Action::WipeProfile, Action::PrepareProfile, Action::LaunchBrowser] {
        let engine = Engine::new(config(&["q"], 3, 2));
        let (engine, trace) = run(engine, |_, a| if a == failing { Event::Failed } else { obliging(a) });
        assert_eq!(*trace.last().unwrap(), Step {
            action: Action::Stop,
            notice: Notice::Fatal(Fault::Launch)
        });
        assert_eq!(count(&trace, Action::PrepareQueryDir), 0);
        assert!(!engine.session_alive());
    }
}

#[test]
fn failing_query_directory_is_fatal() {
    let engine = Engine::new(config(&["q", "r"], 3, 2));
    let (engine, trace) = run(engine, |_, a| {
        if a == Action::PrepareQueryDir {
            Event::Failed
        } else {
            obliging(a)
        }
    });
    assert_eq!(notices(&trace), vec![Notice::Fatal(Fault::Storage)]);
    assert_eq!(engine.query_index(), 0);
}

#[test]
fn cap_of_three_persists_pages_one_to_three_and_never_looks_up_on_the_third() {
    let engine = Engine::new(config(&["q"], 3, 2));
    let mut lookups_by_page: Vec<u32> = Vec::new();
    let (engine, trace) = run(engine, |engine, a| {
        if a == Action::Locate(Control::NextPage) {
            match engine.stage() {
                Stage::Settling(page) => lookups_by_page.push(page),
                other => panic!("lookup in stage {:?}", other),
            }
        }
        obliging(a)
    });
    assert_eq!(persisted(&trace), vec![1, 2, 3]);
    assert_eq!(lookups_by_page, vec![1, 2]);
    assert_eq!(count(&trace, Action::Locate(Control::NextPage)), 2);
    assert_eq!(count(&trace, Action::ReadContent), 3);
    assert_eq!(notices(&trace), vec![Notice::QueryCompleted(Ending::CapReached)]);
    assert_eq!(count(&trace, Action::AwaitOperator), 0);
    assert_eq!(engine.consecutive_no_next(), 0);
    let all = actions(&trace);
    let last_persist = all.iter().rposition(|a| *a == Action::Persist(3)).unwrap();
    assert!(!all[last_persist..].contains(&Action::Locate(Control::NextPage)));
}

#[test]
fn cap_bounds_the_pages_of_each_query() {
    for cap in [1u32, 2, 5] {
        let engine = Engine::new(config(&["q", "r"], cap, 2));
        let (_, trace) = run(engine, |_, a| obliging(a));
        let pages: Vec<u32> = (1..=cap).collect();
        let mut expected = pages.clone();
        expected.extend(pages);
        assert_eq!(persisted(&trace), expected);
        assert_eq!(count(&trace, Action::Locate(Control::NextPage)), 2 * (cap as usize - 1));
    }
}

#[test]
fn cap_of_zero_visits_no_page() {
    let engine = Engine::new(config(&["q"], 0, 2));
    let (_, trace) = run(engine, |_, a| obliging(a));
    assert_eq!(count(&trace, Action::ReadContent), 0);
    assert_eq!(count(&trace, Action::PressEnter), 1);
    assert!(persisted(&trace).is_empty());
    assert_eq!(notices(&trace), vec![Notice::QueryCompleted(Ending::NoPages)]);
}

#[test]
fn records_of_the_page_are_at_hand_when_they_are_to_be_written() {
    let engine = Engine::new(config(&["what? me"], 1, 2));
    let mut seen = 0;
    run(engine, |engine, a| {
        if a == Action::Persist(1) {
            seen += 1;
            let records = engine.records();
            assert_eq!(records.len(), 2);
            assert_eq!(records[0].rank, 1);
            assert_eq!(records[0].title, "Alpha");
            assert_eq!(records[0].url, "https://a.example/");
            assert_eq!(records[1].rank, 2);
            assert_eq!(records[1].title, "Beta");
            assert_eq!(records[1].url, "https://b.example/");
            assert_eq!(engine.query().unwrap(), "what? me");
            assert_eq!(engine.query_dir_name().unwrap(), "what_ me");
            assert_eq!(engine.stage(), Stage::Scrolling(1));
        }
        obliging(a)
    });
    assert_eq!(seen, 1);
}

#[test]
fn page_without_records_is_reported_and_written_all_the_same() {
    let engine = Engine::new(config(&["q"], 3, 2));
    let mut page = 0;
    let mut counts: Vec<(u32, usize)> = Vec::new();
    let (_, trace) = run(engine, |engine, a| match a {
        Action::ReadContent => {
            page += 1;
            if page == 2 {
                Event::Content("<html><body>nothing here</body></html>".to_string())
            } else {
                Event::Content(LISTING.to_string())
            }
        }
        Action::Persist(n) => {
            counts.push((n, engine.records().len()));
            Event::Done
        }
        _ => obliging(a),
    });
    assert_eq!(persisted(&trace), vec![1, 2, 3]);
    assert_eq!(counts, vec![(1, 2), (2, 0), (3, 2)]);
    assert_eq!(
        notices(&trace),
        vec![Notice::EmptyPage(2), Notice::QueryCompleted(Ending::CapReached)]
    );
    let emptied = trace.iter().find(|s| s.notice == Notice::EmptyPage(2)).unwrap();
    assert_eq!(emptied.action, Action::Persist(2));
}

#[test]
fn query_of_empty_pages_has_a_document_for_each() {
    let engine = Engine::new(config(&["q"], 2, 2));
    let (_, trace) = run(engine, |_, a| match a {
        Action::ReadContent => Event::Content(String::new()),
        _ => obliging(a),
    });
    assert_eq!(persisted(&trace), vec![1, 2]);
    assert_eq!(
        notices(&trace),
        vec![
            Notice::EmptyPage(1),
            Notice::EmptyPage(2),
            Notice::QueryCompleted(Ending::CapReached),
        ]
    );
}

#[test]
fn second_consecutive_miss_calls_the_operator_exactly_once() {
    let engine = Engine::new(config(&["a", "b"], 5, 2));
    let mut misses_seen: Vec<u32> = Vec::new();
    let (engine, trace) = run(engine, |engine, a| {
        if a == Action::AwaitOperator {
            misses_seen.push(engine.consecutive_no_next());
            assert_eq!(engine.stage(), Stage::Acknowledging);
        }
        if a == Action::Locate(Control::NextPage) {
            Event::Failed
        } else {
            obliging(a)
        }
    });
    assert_eq!(count(&trace, Action::AwaitOperator), 1);
    assert_eq!(misses_seen, vec![2]);
    assert_eq!(
        notices(&trace),
        vec![
            Notice::QueryCompleted(Ending::NextMissing),
            Notice::LikelyBlocked(2),
            Notice::QueryCompleted(Ending::Acknowledged),
        ]
    );
    assert_eq!(persisted(&trace), vec![1, 1]);
    assert_eq!(engine.consecutive_no_next(), 0);
    let asked = trace.iter().find(|s| s.action == Action::AwaitOperator).unwrap();
    assert_eq!(asked.notice, Notice::LikelyBlocked(2));
}

#[test]
fn misses_are_counted_across_queries_until_acknowledged() {
    let engine = Engine::new(config(&["a", "b", "c", "d", "e"], 5, 2));
    let (engine, trace) = run(engine, |_, a| {
        if a == Action::Locate(Control::NextPage) {
            Event::Failed
        } else {
            obliging(a)
        }
    });
    assert_eq!(count(&trace, Action::AwaitOperator), 2);
    assert_eq!(
        notices(&trace),
        vec![
            Notice::QueryCompleted(Ending::NextMissing),
            Notice::LikelyBlocked(2),
            Notice::QueryCompleted(Ending::Acknowledged),
            Notice::QueryCompleted(Ending::NextMissing),
            Notice::LikelyBlocked(2),
            Notice::QueryCompleted(Ending::Acknowledged),
            Notice::QueryCompleted(Ending::NextMissing),
        ]
    );
    assert_eq!(engine.consecutive_no_next(), 1);
}

#[test]
fn found_next_page_resets_the_count_of_misses() {
    let engine = Engine::new(config(&["a", "b", "c"], 5, 2));
    let mut lookups = 0;
    let (_, trace) = run(engine, |_, a| {
        if a == Action::Locate(Control::NextPage) {
            lookups += 1;
            // query a: miss; query b: found once, then miss; query c: miss
            if lookups == 2 {
                Event::Done
            } else {
                Event::Failed
            }
        } else {
            obliging(a)
        }
    });
    assert_eq!(persisted(&trace), vec![1, 1, 2, 1]);
    assert_eq!(
        notices(&trace),
        vec![
            Notice::QueryCompleted(Ending::NextMissing),
            Notice::QueryCompleted(Ending::NextMissing),
            Notice::LikelyBlocked(2),
            Notice::QueryCompleted(Ending::Acknowledged),
        ]
    );
}

#[test]
fn threshold_of_one_calls_the_operator_on_every_miss() {
    let engine = Engine::new(config(&["a", "b"], 5, 1));
    let (_, trace) = run(engine, |_, a| {
        if a == Action::Locate(Control::NextPage) {
            Event::Failed
        } else {
            obliging(a)
        }
    });
    assert_eq!(count(&trace, Action::AwaitOperator), 2);
    assert_eq!(
        notices(&trace),
        vec![
            Notice::LikelyBlocked(1),
            Notice::QueryCompleted(Ending::Acknowledged),
            Notice::LikelyBlocked(1),
            Notice::QueryCompleted(Ending::Acknowledged),
        ]
    );
}

#[test]
fn threshold_of_zero_calls_the_operator_on_every_miss() {
    let engine = Engine::new(config(&["a"], 5, 0));
    let (engine, trace) = run(engine, |_, a| {
        if a == Action::Locate(Control::NextPage) {
            Event::Failed
        } else {
            obliging(a)
        }
    });
    assert_eq!(
        notices(&trace),
        vec![Notice::LikelyBlocked(1), Notice::QueryCompleted(Ending::Acknowledged)]
    );
    assert_eq!(engine.consecutive_no_next(), 0);
}

#[test]
fn three_failures_of_one_query_turn_to_the_next_with_a_fresh_budget() {
    let engine = Engine::new(config(&["a", "b"], 1, 2));
    let mut index_at_failure: Vec<(usize, u32)> = Vec::new();
    let mut after_skip: Option<(usize, u32)> = None;
    let (engine, trace) = run(engine, |engine, a| {
        if after_skip.is_none() && index_at_failure.len() == 3 {
            after_skip = Some((engine.query_index(), engine.retry_count()));
        }
        if a == Action::Navigate(Page::SearchHome) && engine.query_index() == 0 {
            index_at_failure.push((engine.query_index(), engine.retry_count()));
            Event::Failed
        } else {
            obliging(a)
        }
    });
    assert_eq!(index_at_failure, vec![(0, 0), (0, 1), (0, 2)]);
    assert_eq!(after_skip, Some((1, 0)));
    assert_eq!(
        notices(&trace),
        vec![
            Notice::QueryFailed(Fault::NavigationTimeout, 1),
            Notice::QueryFailed(Fault::NavigationTimeout, 2),
            Notice::QuerySkipped(Fault::NavigationTimeout),
            Notice::QueryCompleted(Ending::CapReached),
        ]
    );
    assert_eq!(persisted(&trace), vec![1]);
    assert_eq!(engine.query_index(), 2);
    assert_eq!(engine.retry_count(), 0);
    // two restarts for the retries, none for the skip
    assert_eq!(count(&trace, Action::EndSession), 2);
}

#[test]
fn failed_query_is_tried_again_after_a_restart() {
    let engine = Engine::new(config(&["a"], 1, 2));
    let mut failed = false;
    let (_, trace) = run(engine, |_, a| {
        if a == Action::Locate(Control::QueryInput) && !failed {
            failed = true;
            Event::Failed
        } else {
            obliging(a)
        }
    });
    assert_eq!(
        notices(&trace),
        vec![
            Notice::QueryFailed(Fault::ElementNotFound, 1),
            Notice::QueryCompleted(Ending::CapReached),
        ]
    );
    let all = actions(&trace);
    let failure =
        trace.iter().position(|s| s.notice == Notice::QueryFailed(Fault::ElementNotFound, 1));
    let at = failure.unwrap();
    assert_eq!(
        all[at..at + 8],
        [
            Action::EndSession,
            Action::Sleep(2000),
            Action::WipeProfile,
            Action::PrepareProfile,
            Action::LaunchBrowser,
            Action::PrepareQueryDir,
            Action::Sleep(500),
            Action::SelectTab,
        ]
    );
    assert_eq!(count(&trace, Action::PrepareQueryDir), 2);
    assert_eq!(persisted(&trace), vec![1]);
}

#[test]
fn every_kind_of_failure_in_a_query_counts_against_its_budget() {
    let cases = [
        (Action::Navigate(Page::Blank), Fault::NavigationTimeout),
        (Action::AwaitNavigation, Fault::NavigationTimeout),
        (Action::DismissPrompt, Fault::Evaluation),
        (Action::Click, Fault::Evaluation),
        (Action::SendChar('a'), Fault::Evaluation),
        (Action::PressEnter, Fault::Evaluation),
        (Action::ReadContent, Fault::Evaluation),
        (Action::Persist(1), Fault::Storage),
        (Action::ReadScroll, Fault::Evaluation),
        (Action::Ping, Fault::Evaluation),
    ];
    for (failing, fault) in cases {
        let engine = Engine::new(config(&["a"], 1, 2));
        let (engine, trace) = run(engine, |_, a| if a == failing { Event::Failed } else { obliging(a) });
        assert_eq!(
            notices(&trace),
            vec![
                Notice::QueryFailed(fault, 1),
                Notice::QueryFailed(fault, 2),
                Notice::QuerySkipped(fault),
            ]
        );
        assert!(engine.is_stopped());
        assert_eq!(engine.query_index(), 1);
        assert_eq!(engine.retry_count(), 0);
    }
}

#[test]
fn reading_answered_by_a_bare_done_is_a_failure() {
    let engine = Engine::new(config(&["a"], 1, 2));
    let (_, trace) = run(engine, |_, a| match a {
        Action::ReadContent => Event::Done,
        _ => obliging(a),
    });
    assert_eq!(
        notices(&trace),
        vec![
            Notice::QueryFailed(Fault::Evaluation, 1),
            Notice::QueryFailed(Fault::Evaluation, 2),
            Notice::QuerySkipped(Fault::Evaluation),
        ]
    );
}

#[test]
fn lost_session_is_restarted_once_and_then_the_query_is_skipped() {
    let engine = Engine::new(config(&["a", "b"], 1, 2));
    let (engine, trace) = run(engine, |engine, a| {
        if a == Action::SelectTab && engine.query_index() == 0 {
            Event::Failed
        } else {
            obliging(a)
        }
    });
    assert_eq!(
        notices(&trace),
        vec![
            Notice::SessionLost(Fault::Launch),
            Notice::QuerySkipped(Fault::Launch),
            Notice::QueryCompleted(Ending::CapReached),
        ]
    );
    let all = actions(&trace);
    let lost = trace.iter().position(|s| s.notice == Notice::SessionLost(Fault::Launch)).unwrap();
    assert_eq!(
        all[lost..lost + 8],
        [
            Action::EndSession,
            Action::Sleep(2000),
            Action::WipeProfile,
            Action::PrepareProfile,
            Action::LaunchBrowser,
            Action::Sleep(500),
            Action::SelectTab,
            Action::PrepareQueryDir,
        ]
    );
    assert_eq!(persisted(&trace), vec![1]);
    assert_eq!(engine.retry_count(), 0);
}

#[test]
fn lost_session_that_comes_back_runs_the_query() {
    let engine = Engine::new(config(&["a"], 1, 2));
    let mut failed = false;
    let (_, trace) = run(engine, |_, a| {
        if a == Action::SelectTab && !failed {
            failed = true;
            Event::Failed
        } else {
            obliging(a)
        }
    });
    assert_eq!(
        notices(&trace),
        vec![Notice::SessionLost(Fault::Launch), Notice::QueryCompleted(Ending::CapReached)]
    );
    assert_eq!(count(&trace, Action::PrepareQueryDir), 1);
    assert_eq!(persisted(&trace), vec![1]);
}

#[test]
fn restart_that_fails_after_a_lost_session_skips_the_query() {
    let engine = Engine::new(config(&["a", "b"], 1, 2));
    let mut launches = 0;
    let mut tabs = 0;
    let (_, trace) = run(engine, |_, a| match a {
        Action::SelectTab => {
            tabs += 1;
            if tabs == 1 {
                Event::Failed
            } else {
                Event::Done
            }
        }
        Action::LaunchBrowser => {
            launches += 1;
            if launches == 2 {
                Event::Failed
            } else {
                Event::Done
            }
        }
        _ => obliging(a),
    });
    assert_eq!(
        notices(&trace),
        vec![
            Notice::SessionLost(Fault::Launch),
            Notice::QuerySkipped(Fault::Launch),
            Notice::QueryCompleted(Ending::CapReached),
        ]
    );
    // the next query finds no session and creates one
    assert_eq!(launches, 3);
    assert_every_launch_on_a_fresh_store(&trace);
}

#[test]
fn failed_overrides_do_not_stop_the_query() {
    let engine = Engine::new(config(&["a"], 1, 2));
    let (engine, trace) = run(engine, |_, a| match a {
        Action::Install(Payload::ClientIdentity) => Event::Failed,
        Action::Install(Payload::Languages) => Event::Failed,
        _ => obliging(a),
    });
    assert_eq!(
        notices(&trace),
        vec![
            Notice::EvasionDegraded(Payload::ClientIdentity),
            Notice::EvasionDegraded(Payload::Languages),
            Notice::QueryCompleted(Ending::CapReached),
        ]
    );
    let installs: Vec<Payload> = trace
        .iter()
        .filter_map(|s| match s.action {
            Action::Install(p) => Some(p),
            _ => None,
        })
        .collect();
    assert_eq!(
        installs,
        vec![
            Payload::ClientIdentity,
            Payload::WebdriverFlag,
            Payload::ChromeRuntime,
            Payload::NotificationPermission,
            Payload::PluginList,
            Payload::Languages,
        ]
    );
    let degraded =
        trace.iter().find(|s| s.notice == Notice::EvasionDegraded(Payload::Languages)).unwrap();
    assert_eq!(degraded.action, Action::Navigate(Page::Blank));
    assert_eq!(persisted(&trace), vec![1]);
    assert_eq!(engine.retry_count(), 0);
}

#[test]
fn overrides_are_installed_before_any_navigation_of_each_attempt() {
    let engine = Engine::new(config(&["a", "b"], 1, 2));
    let (_, trace) = run(engine, |_, a| obliging(a));
    let all = actions(&trace);
    assert_eq!(all.iter().filter(|a| matches!(a, Action::Install(_))).count(), 28);
    let mut armed = false;
    for action in &all {
        match action {
            Action::LaunchBrowser => armed = false,
            Action::Install(Payload::PromptWatcher) => armed = true,
            Action::Navigate(_) => assert!(armed),
            _ => {}
        }
    }
}

#[test]
fn queries_are_separated_by_a_rest_and_a_restart() {
    let engine = Engine::new(config(&["a", "b", "c"], 1, 2));
    let (_, trace) = run(engine, |_, a| obliging(a));
    let completed: Vec<usize> = trace
        .iter()
        .enumerate()
        .filter(|(_, s)| s.notice == Notice::QueryCompleted(Ending::CapReached))
        .map(|(i, _)| i)
        .collect();
    assert_eq!(completed.len(), 3);
    let all = actions(&trace);
    for at in &completed[..2] {
        assert!(matches!(all[*at], Action::Sleep(ms) if (3600..=7200).contains(&ms)));
        assert_eq!(
            all[*at + 1..*at + 7],
            [
                Action::EndSession,
                Action::Sleep(2000),
                Action::WipeProfile,
                Action::PrepareProfile,
                Action::LaunchBrowser,
                Action::PrepareQueryDir,
            ]
        );
    }
    assert_eq!(all[completed[2]], Action::Stop);
    assert_eq!(count(&trace, Action::LaunchBrowser), 3);
    assert_every_launch_on_a_fresh_store(&trace);
}

#[test]
fn failed_restart_between_queries_is_reported_and_made_up_for_by_the_next_query() {
    let engine = Engine::new(config(&["a", "b"], 1, 2));
    let mut wipes = 0;
    let (_, trace) = run(engine, |_, a| match a {
        Action::WipeProfile => {
            wipes += 1;
            if wipes == 2 {
                Event::Failed
            } else {
                Event::Done
            }
        }
        _ => obliging(a),
    });
    assert_eq!(
        notices(&trace),
        vec![
            Notice::QueryCompleted(Ending::CapReached),
            Notice::RestartFailed(Fault::Launch),
            Notice::QueryCompleted(Ending::CapReached),
        ]
    );
    let failed = trace.iter().find(|s| s.notice == Notice::RestartFailed(Fault::Launch)).unwrap();
    assert_eq!(failed.action, Action::PrepareQueryDir);
    assert_eq!(wipes, 3);
    assert_eq!(persisted(&trace), vec![1, 1]);
    assert_every_launch_on_a_fresh_store(&trace);
}

#[test]
fn failed_restart_for_a_retry_is_reported_and_the_query_tried_again() {
    let engine = Engine::new(config(&["a"], 1, 2));
    let mut launches = 0;
    let mut failed_once = false;
    let (engine, trace) = run(engine, |_, a| match a {
        Action::PressEnter if !failed_once => {
            failed_once = true;
            Event::Failed
        }
        Action::LaunchBrowser => {
            launches += 1;
            if launches == 2 {
                Event::Failed
            } else {
                Event::Done
            }
        }
        _ => obliging(a),
    });
    assert_eq!(
        notices(&trace),
        vec![
            Notice::QueryFailed(Fault::Evaluation, 1),
            Notice::RestartFailed(Fault::Launch),
            Notice::QueryCompleted(Ending::CapReached),
        ]
    );
    assert_eq!(launches, 3);
    assert_eq!(persisted(&trace), vec![1]);
    assert_eq!(engine.retry_count(), 0);
    assert_every_launch_on_a_fresh_store(&trace);
}

#[test]
fn no_failure_goes_without_a_notice() {
    let targets = [
        Action::PrepareResultRoot,
        Action::WipeProfile,
        Action::PrepareProfile,
        Action::LaunchBrowser,
        Action::PrepareQueryDir,
        Action::SelectTab,
        Action::Install(Payload::ClientIdentity),
        Action::Install(Payload::PromptWatcher),
        Action::Navigate(Page::SearchHome),
        Action::Locate(Control::QueryInput),
        Action::ReadContent,
        Action::Persist(1),
        Action::ReadScroll,
        Action::Ping,
        Action::Locate(Control::NextPage),
        Action::Click,
    ];
    for target in targets {
        for period in [1usize, 2, 3] {
            let engine = Engine::new(config(&["a", "b"], 2, 2));
            let mut seen = 0;
            let mut failed_last = false;
            let mut engine = Some(engine);
            let mut action = engine.as_ref().unwrap().current();
            let mut budget = 100_000;
            while action != Action::Stop {
                assert!(budget > 0);
                budget -= 1;
                let mut event = obliging(action);
                failed_last = false;
                if action == target {
                    seen += 1;
                    if seen % period == 0 {
                        event = Event::Failed;
                        failed_last = true;
                    }
                }
                let step = advance(&mut engine, event);
                if failed_last {
                    assert_ne!(step.notice, Notice::Quiet);
                }
                action = step.action;
            }
        }
    }
}

#[test]
fn every_launch_follows_a_wipe_whatever_fails() {
    let failing = [
        Action::SelectTab,
        Action::Navigate(Page::SearchHome),
        Action::ReadContent,
        Action::PrepareProfile,
        Action::LaunchBrowser,
    ];
    for target in failing {
        for period in [2usize, 3, 5] {
            let engine = Engine::new(config(&["a", "b", "c"], 2, 2));
            let mut seen = 0;
            let (_, trace) = run(engine, |_, a| {
                if a == target {
                    seen += 1;
                    if seen % period == 0 {
                        return Event::Failed;
                    }
                }
                obliging(a)
            });
            assert_every_launch_on_a_fresh_store(&trace);
        }
    }
}

#[test]
fn scroll_goes_on_until_the_bottom_is_reported() {
    let engine = Engine::new(config(&["a"], 1, 2));
    let mut readings = 0;
    let (_, trace) = run(engine, |_, a| match a {
        Action::ReadScroll => {
            readings += 1;
            if readings < 30 {
                Event::Scroll(TOP)
            } else {
                Event::Scroll(BOTTOM)
            }
        }
        _ => obliging(a),
    });
    assert_eq!(count(&trace, Action::ReadScroll), 30);
    let downs: Vec<i32> = trace
        .iter()
        .filter_map(|s| match s.action {
            Action::ScrollBy(amount) if amount > 0 => Some(amount),
            _ => None,
        })
        .collect();
    assert_eq!(downs.len(), 29);
    assert!(downs.iter().all(|amount| (175..=250).contains(amount)));
    for step in &trace {
        if let Action::ScrollBy(amount) = step.action {
            assert!((175..=250).contains(&amount) || (-112..=-38).contains(&amount));
        }
    }
    assert_eq!(persisted(&trace), vec![1]);
    assert_eq!(notices(&trace), vec![Notice::QueryCompleted(Ending::CapReached)]);
}

#[test]
fn query_is_typed_character_by_character_with_waits_within_bounds() {
    let engine = Engine::new(config(&["hé llo"], 1, 2));
    let (_, trace) = run(engine, |_, a| obliging(a));
    let all = actions(&trace);
    let start = all.iter().position(|a| matches!(a, Action::SendChar(_))).unwrap();
    let chars: Vec<char> = "hé llo".chars().collect();
    for (k, c) in chars.iter().enumerate() {
        assert_eq!(all[start + 2 * k], Action::SendChar(*c));
        assert!(matches!(all[start + 2 * k + 1], Action::Sleep(ms) if (75..=300).contains(&ms)));
    }
    assert_eq!(all[start - 1], Action::Click);
    assert_eq!(all[start - 2], Action::Locate(Control::QueryInput));
    assert_eq!(all[start - 3], Action::DismissPrompt);
    assert_eq!(all[start + 2 * chars.len()], Action::Sleep(450));
    assert_eq!(all[start + 2 * chars.len() + 1], Action::PressEnter);
    assert_eq!(all[start + 2 * chars.len() + 2], Action::AwaitNavigation);
    assert_eq!(all.iter().filter(|a| matches!(a, Action::SendChar(_))).count(), chars.len());
}

#[test]
fn empty_query_is_submitted_without_typing() {
    let engine = Engine::new(config(&[""], 1, 2));
    let (engine, trace) = run(engine, |_, a| obliging(a));
    let all = actions(&trace);
    assert_eq!(all.iter().filter(|a| matches!(a, Action::SendChar(_))).count(), 0);
    let click = all.iter().position(|a| *a == Action::Click).unwrap();
    assert_eq!(all[click + 1], Action::Sleep(450));
    assert_eq!(engine.query_dir_name(), None);
}

#[test]
fn restart_stage_is_named_by_its_cause() {
    let engine = Engine::new(config(&["a", "b"], 1, 2));
    let mut causes: Vec<Cause> = Vec::new();
    let mut failed = false;
    run(engine, |engine, a| {
        if a == Action::EndSession {
            match engine.stage() {
                Stage::Restarting(cause) => causes.push(cause),
                other => panic!("restart in stage {:?}", other),
            }
        }
        if a == Action::PressEnter && !failed {
            failed = true;
            Event::Failed
        } else {
            obliging(a)
        }
    });
    assert_eq!(causes, vec![Cause::Retry, Cause::Between]);
}

#[test]
fn engine_holds_its_configuration() {
    let engine = Engine::new(config(&["a", "b"], 7, 4));
    assert_eq!(engine.config().max_pages, 7);
    assert_eq!(engine.config().max_consecutive_no_next, 4);
    assert_eq!(engine.config().search_queries, vec!["a".to_string(), "b".to_string()]);
    assert_eq!(engine.query().unwrap(), "a");
    assert_eq!(engine.query_dir_name().unwrap(), "a");
    assert_eq!(engine.query_index(), 0);
    assert_eq!(engine.retry_count(), 0);
    assert_eq!(engine.consecutive_no_next(), 0);
    assert!(engine.records().is_empty());
}
