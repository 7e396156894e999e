use gnezdo::evasion::{apply_stealth, payload_order};
use gnezdo::lifecycle::BrowserManager;
use gnezdo::pagination::{plan_advance, plan_inspect, plan_load, plan_settle};
use gnezdo::protocol::{Action, Control, Event, Fault, Page, Payload, ScrollMetrics};
use gnezdo::query::plan_opening;

fn pause(total: u64) -> Vec<Action> {
    gnezdo::humanize::human_pause_with_keepalive(total)
}

#[test]
fn new_manager_has_no_session_and_plans_a_launch() {
    let manager = BrowserManager::new();
    assert!(!manager.is_alive());
    assert_eq!(
        manager.get_or_create(),
        vec![Action::WipeProfile, Action::PrepareProfile, Action::LaunchBrowser]
    );
}

#[test]
fn manager_with_a_session_plans_nothing_to_get_one() {
    let mut manager = BrowserManager::new();
    manager.completed(Action::LaunchBrowser);
    assert!(manager.is_alive());
    assert!(manager.get_or_create().is_empty());
}

#[test]
fn restart_ends_the_browser_waits_and_launches_on_a_fresh_store() {
    let mut manager = BrowserManager::new();
    manager.completed(Action::LaunchBrowser);
    let plan = manager.restart();
    assert_eq!(
        plan,
        vec![
            Action::EndSession,
            Action::Sleep(2000),
            Action::WipeProfile,
            Action::PrepareProfile,
            Action::LaunchBrowser,
        ]
    );
    assert!(!manager.is_alive());
}

#[test]
fn restart_without_a_session_is_the_same_plan() {
    let mut manager = BrowserManager::new();
    let plan = manager.restart();
    assert_eq!(plan.len(), 5);
    assert_eq!(plan[2..], [Action::WipeProfile, Action::PrepareProfile, Action::LaunchBrowser]);
    assert!(!manager.is_alive());
}

#[test]
fn manager_follows_the_browser_through_completed_actions() {
    let mut manager = BrowserManager::new();
    manager.completed(Action::WipeProfile);
    manager.completed(Action::PrepareProfile);
    assert!(!manager.is_alive());
    manager.completed(Action::LaunchBrowser);
    assert!(manager.is_alive());
    manager.completed(Action::Ping);
    assert!(manager.is_alive());
    manager.completed(Action::EndSession);
    assert!(!manager.is_alive());
}

#[test]
fn overrides_are_installed_in_their_fixed_order() {
    let order = payload_order();
    assert_eq!(
        order,
        vec![
            Payload::ClientIdentity,
            Payload::WebdriverFlag,
            Payload::ChromeRuntime,
            Payload::NotificationPermission,
            Payload::PluginList,
            Payload::Languages,
            Payload::HardwareConcurrency,
            Payload::DeviceMemory,
            Payload::WebGlVendor,
            Payload::BrowserQuirks,
            Payload::NativeToString,
            Payload::PromptStyle,
            Payload::GeolocationDenied,
            Payload::PromptWatcher,
        ]
    );
    let plan = apply_stealth();
    assert_eq!(plan.len(), 14);
    for (payload, action) in order.iter().zip(plan.iter()) {
        assert_eq!(*action, Action::Install(*payload));
    }
}

#[test]
fn loading_a_page_pings_pauses_and_reads() {
    let mut expected = vec![Action::Ping];
    expected.extend(pause(960));
    expected.push(Action::ReadContent);
    assert_eq!(plan_load(), expected);
}

#[test]
fn every_page_that_was_read_has_its_records_written() {
    assert_eq!(plan_inspect(4), vec![Action::Persist(4), Action::ReadScroll]);
    assert_eq!(plan_inspect(1), vec![Action::Persist(1), Action::ReadScroll]);
}

#[test]
fn next_page_is_searched_for_only_below_the_cap() {
    let mut below = pause(750);
    below.push(Action::Locate(Control::NextPage));
    assert_eq!(plan_settle(1, 3), below);
    assert_eq!(plan_settle(2, 3), below);
    assert_eq!(plan_settle(3, 3), pause(750));
    assert_eq!(plan_settle(4, 3), pause(750));
    assert_eq!(plan_settle(1, 1), pause(750));
}

#[test]
fn moving_on_clicks_waits_pauses_and_loads() {
    let mut expected = vec![Action::Click, Action::AwaitNavigation];
    expected.extend(pause(480));
    expected.extend(plan_load());
    assert_eq!(plan_advance(), expected);
}

#[test]
fn opening_a_query_goes_from_the_neutral_page_to_the_submission() {
    let plan = plan_opening(gnezdo::humanize::type_with_delays("hi", &vec![80, 90]));
    let mut expected = vec![
        Action::Navigate(Page::Blank),
        Action::Sleep(300),
        Action::Ping,
        Action::Navigate(Page::SearchHome),
        Action::AwaitNavigation,
    ];
    expected.extend(pause(960));
    expected.extend(vec![
        Action::DismissPrompt,
        Action::Locate(Control::QueryInput),
        Action::Click,
        Action::SendChar('h'),
        Action::Sleep(80),
        Action::SendChar('i'),
        Action::Sleep(90),
        Action::Sleep(450),
        Action::PressEnter,
        Action::AwaitNavigation,
    ]);
    expected.extend(pause(600));
    assert_eq!(plan, expected);
}

#[test]
fn failures_are_classified_by_the_kind_of_action() {
    assert_eq!(Action::LaunchBrowser.fault_kind(), Fault::Launch);
    assert_eq!(Action::WipeProfile.fault_kind(), Fault::Launch);
    assert_eq!(Action::PrepareProfile.fault_kind(), Fault::Launch);
    assert_eq!(Action::SelectTab.fault_kind(), Fault::Launch);
    assert_eq!(Action::Locate(Control::QueryInput).fault_kind(), Fault::ElementNotFound);
    assert_eq!(Action::Locate(Control::NextPage).fault_kind(), Fault::ElementNotFound);
    assert_eq!(Action::Navigate(Page::SearchHome).fault_kind(), Fault::NavigationTimeout);
    assert_eq!(Action::AwaitNavigation.fault_kind(), Fault::NavigationTimeout);
    assert_eq!(Action::Ping.fault_kind(), Fault::Evaluation);
    assert_eq!(Action::ReadContent.fault_kind(), Fault::Evaluation);
    assert_eq!(Action::ScrollBy(-3).fault_kind(), Fault::Evaluation);
    assert_eq!(Action::SendChar('x').fault_kind(), Fault::Evaluation);
    assert_eq!(Action::Persist(2).fault_kind(), Fault::Storage);
    assert_eq!(Action::PrepareQueryDir.fault_kind(), Fault::Storage);
    assert_eq!(Action::PrepareResultRoot.fault_kind(), Fault::Storage);
}

#[test]
fn waits_and_the_like_are_answered_by_anything() {
    for action in [Action::Sleep(5), Action::AwaitOperator, Action::EndSession, Action::Stop] {
        assert!(action.resolves());
        assert!(action.is_answered_by(&Event::Done));
        assert!(action.is_answered_by(&Event::Failed));
        assert!(action.is_answered_by(&Event::Content(String::new())));
    }
    assert!(!Action::Ping.resolves());
}

#[test]
fn readings_are_answered_only_by_what_they_read() {
    let metrics = ScrollMetrics { offset: 0, viewport: 0, content: 0 };
    assert!(Action::ReadContent.is_answered_by(&Event::Content("x".to_string())));
    assert!(!Action::ReadContent.is_answered_by(&Event::Done));
    assert!(!Action::ReadContent.is_answered_by(&Event::Scroll(metrics)));
    assert!(!Action::ReadContent.is_answered_by(&Event::Failed));
    assert!(Action::ReadScroll.is_answered_by(&Event::Scroll(metrics)));
    assert!(!Action::ReadScroll.is_answered_by(&Event::Done));
    assert!(!Action::ReadScroll.is_answered_by(&Event::Content(String::new())));
    assert!(Action::Ping.is_answered_by(&Event::Done));
    assert!(!Action::Ping.is_answered_by(&Event::Failed));
    assert!(!Action::Ping.is_answered_by(&Event::Content(String::new())));
}
