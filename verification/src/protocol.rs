use vstd::prelude::*;

verus! {

/// A page that the browser can be sent to.
#[derive(Clone, Copy, PartialEq, Eq, Debug, Structural)]
pub enum Page {
    /// A neutral, empty page.
    Blank,
    /// The search engine's entry page.
    SearchHome,
}

/// A control on a page that the driver can look for.
#[derive(Clone, Copy, PartialEq, Eq, Debug, Structural)]
pub enum Control {
    /// The field that takes the query text. Looked for with the driver's
    /// ordinary wait.
    QueryInput,
    /// The control that leads to the next result page. Looked for with a
    /// short wait, since its absence is an ordinary outcome.
    NextPage,
}

/// One override that is installed into a fresh session before any page is
/// loaded. The variants are listed in the order of installation.
#[derive(Clone, Copy, PartialEq, Eq, Debug, Structural)]
pub enum Payload {
    /// Identity string and structured client metadata, set through the
    /// control channel itself.
    ClientIdentity,
    /// Hides the automation flag.
    WebdriverFlag,
    /// Supplies the runtime object that an ordinary browser exposes.
    ChromeRuntime,
    /// Answers permission queries for notifications from the current state.
    NotificationPermission,
    /// Plausible plugin and MIME type lists.
    PluginList,
    /// Preferred languages.
    Languages,
    /// Number of logical processors.
    HardwareConcurrency,
    /// Amount of device memory.
    DeviceMemory,
    /// Graphics vendor and renderer strings.
    WebGlVendor,
    /// Removes markers of other browser families.
    BrowserQuirks,
    /// Makes overridden functions print as native code.
    NativeToString,
    /// Style sheet that keeps the location prompt from showing.
    PromptStyle,
    /// Denies geolocation, in the API and in permission queries.
    GeolocationDenied,
    /// Watcher that dismisses the location prompt whenever it appears.
    PromptWatcher,
}

/// One thing the driver is asked to do. The driver performs it and answers
/// with an [`Event`].
#[derive(Clone, Copy, PartialEq, Eq, Debug, Structural)]
pub enum Action {
    /// Wait for the given number of milliseconds.
    Sleep(u64),
    /// Evaluate a trivial expression, to keep the control channel busy.
    Ping,
    /// Send the browser to a page.
    Navigate(Page),
    /// Wait until the pending navigation has finished.
    AwaitNavigation,
    /// Dismiss the location prompt if it is showing.
    DismissPrompt,
    /// Wait for a control to appear and remember it.
    Locate(Control),
    /// Click the control that was located last.
    Click,
    /// Type one character into the focused control.
    SendChar(char),
    /// Press the Enter key.
    PressEnter,
    /// Read the current page's markup. Answered by [`Event::Content`].
    ReadContent,
    /// Read the scroll position. Answered by [`Event::Scroll`].
    ReadScroll,
    /// Scroll vertically by the given number of pixels; negative is upwards.
    ScrollBy(i32),
    /// Create the directory that takes this run's results.
    PrepareResultRoot,
    /// Create the directory that takes the current query's results.
    PrepareQueryDir,
    /// Write the records of the given page of the current query, however
    /// many they are.
    Persist(u32),
    /// Block until the operator acknowledges.
    AwaitOperator,
    /// End the session, if there is one: the browser process is ended, and
    /// its identity store deleted as far as that can be done at once.
    EndSession,
    /// Delete the identity store.
    WipeProfile,
    /// Create an empty identity store.
    PrepareProfile,
    /// Start a browser process on the identity store.
    LaunchBrowser,
    /// Pick the tab to work in: the first one, closing the others, or a new
    /// one where there is none.
    SelectTab,
    /// Install one override into the session.
    Install(Payload),
    /// Nothing is left to do: the run is over.
    Stop,
}

/// Position of the viewport within the page, in whole pixels.
#[derive(Clone, Copy, PartialEq, Eq, Debug, Structural)]
pub struct ScrollMetrics {
    /// Distance scrolled from the top.
    pub offset: i64,
    /// Height of the viewport.
    pub viewport: i64,
    /// Height of the whole content.
    pub content: i64,
}

/// The driver's answer to an [`Action`].
#[derive(Debug)]
pub enum Event {
    /// The action was carried out.
    Done,
    /// The action could not be carried out.
    Failed,
    /// The page's markup, in answer to [`Action::ReadContent`].
    Content(String),
    /// The scroll position, in answer to [`Action::ReadScroll`].
    Scroll(ScrollMetrics),
}

/// Why an action failed, by the kind of action.
#[derive(Clone, Copy, PartialEq, Eq, Debug, Structural)]
pub enum Fault {
    /// The browser or its identity store could not be set up.
    Launch,
    /// A control did not appear within its wait.
    ElementNotFound,
    /// A navigation did not complete.
    NavigationTimeout,
    /// The control channel refused or failed a call.
    Evaluation,
    /// Results could not be written.
    Storage,
}

/// How a query that ran to its end came to stop.
#[derive(Clone, Copy, PartialEq, Eq, Debug, Structural)]
pub enum Ending {
    /// The page cap is zero, so no page was visited.
    NoPages,
    /// The last page allowed by the cap was done.
    CapReached,
    /// There was no control for a next page.
    NextMissing,
    /// There was no control for a next page, often enough to ask the
    /// operator, who has acknowledged.
    Acknowledged,
}

/// What the driver should report along with carrying out an action.
#[derive(Clone, Copy, PartialEq, Eq, Debug, Structural)]
pub enum Notice {
    /// Nothing to report.
    Quiet,
    /// An override could not be installed; the query goes on without it.
    EvasionDegraded(Payload),
    /// No tab could be had from the session; it is restarted once.
    SessionLost(Fault),
    /// The browser could not be restarted after a query or for another
    /// attempt at one. The run goes on; the work on the query that is due
    /// creates a session of its own.
    RestartFailed(Fault),
    /// The given page held no records. Not an error: its document is written
    /// all the same, with no result in it.
    EmptyPage(u32),
    /// The next-page control was missing this many times in a row: the target
    /// has likely begun to block. The operator must acknowledge.
    LikelyBlocked(u32),
    /// The current query ran to its end.
    QueryCompleted(Ending),
    /// The current query was aborted for the given reason and will be tried
    /// again; the number counts the failed attempts so far.
    QueryFailed(Fault, u32),
    /// The current query was given up for the given reason.
    QuerySkipped(Fault),
    /// The run cannot go on.
    Fatal(Fault),
}

/// What the engine hands to the driver: the next action, and a notice.
#[derive(Clone, Copy, PartialEq, Eq, Debug, Structural)]
pub struct Step {
    pub action: Action,
    pub notice: Notice,
}

impl Action {
    /// Whether the action completes whatever happens: timed waits, waiting
    /// for the operator, ending the session and stopping cannot fail.
    pub open spec fn always_resolves(self) -> bool {
        self is Sleep || self is AwaitOperator || self is EndSession || self is Stop
    }

    /// Whether the action is one of those that a run may take only under
    /// conditions of their own: making an identity store and starting a
    /// browser, installing an override, going to a page, searching for the
    /// next-page control, writing records, and calling on the operator.
    pub open spec fn delicate(self) -> bool {
        self == Action::PrepareProfile || self == Action::LaunchBrowser || self is Install
            || self is Navigate || self == Action::Locate(Control::NextPage) || self is Persist
            || self == Action::AwaitOperator
    }

    /// The kind of failure that a failed action of this kind stands for.
    pub open spec fn fault(self) -> Fault {
        match self {
            Action::EndSession
            | Action::WipeProfile
            | Action::PrepareProfile
            | Action::LaunchBrowser
            | Action::SelectTab => Fault::Launch,
            Action::Locate(_) => Fault::ElementNotFound,
            Action::Navigate(_) | Action::AwaitNavigation => Fault::NavigationTimeout,
            Action::PrepareResultRoot | Action::PrepareQueryDir | Action::Persist(_) => {
                Fault::Storage
            },
            _ => Fault::Evaluation,
        }
    }

    /// Whether `event` reports that this action was carried out. An action
    /// that reads something is answered only by what it reads; an action that
    /// always resolves is answered by any event.
    pub open spec fn answered_by(self, event: Event) -> bool {
        if self.always_resolves() {
            true
        } else if self is ReadContent {
            event is Content
        } else if self is ReadScroll {
            event is Scroll
        } else {
            event is Done
        }
    }

    /// Tells whether the action completes whatever happens.
    pub fn resolves(self) -> (yes: bool)
        ensures
            yes == self.always_resolves(),
    {
        matches!(
            self,
            Action::Sleep(_) | Action::AwaitOperator | Action::EndSession | Action::Stop
        )
    }

    /// Classifies the failure of this action.
    pub fn fault_kind(self) -> (fault: Fault)
        ensures
            fault == self.fault(),
    {
        match self {
            Action::EndSession
            | Action::WipeProfile
            | Action::PrepareProfile
            | Action::LaunchBrowser
            | Action::SelectTab => Fault::Launch,
            Action::Locate(_) => Fault::ElementNotFound,
            Action::Navigate(_) | Action::AwaitNavigation => Fault::NavigationTimeout,
            Action::PrepareResultRoot | Action::PrepareQueryDir | Action::Persist(_) => {
                Fault::Storage
            },
            _ => Fault::Evaluation,
        }
    }

    /// Tells whether `event` answers this action with success.
    pub fn is_answered_by(self, event: &Event) -> (yes: bool)
        ensures
            yes == self.answered_by(*event),
    {
        if self.resolves() {
            true
        } else {
            match self {
                Action::ReadContent => matches!(event, Event::Content(_)),
                Action::ReadScroll => matches!(event, Event::Scroll(_)),
                _ => matches!(event, Event::Done),
            }
        }
    }
}

impl Event {
    /// The markup that the event carries; empty for an event without markup.
    pub open spec fn markup(self) -> Seq<char> {
        match self {
            Event::Content(html) => html@,
            _ => Seq::empty(),
        }
    }
}

impl Step {
    /// The step that hands out `action` with nothing to report.
    pub open spec fn plain(action: Action) -> Step {
        Step { action, notice: Notice::Quiet }
    }
}

} // verus!
