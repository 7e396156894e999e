use crate::plan::routine;
use crate::protocol::Action;
use vstd::prelude::*;

verus! {

/// Wait between ending a browser and starting the next, in milliseconds.
pub const RESTART_SETTLE_MS: u64 = 2000;

/// Creating a session: the identity store is deleted and made anew, then the
/// browser is started on it.
pub open spec fn launch_plan() -> Seq<Action> {
    seq![Action::WipeProfile, Action::PrepareProfile, Action::LaunchBrowser]
}

/// Restarting: the session is ended, browser and identity store, and after
/// a wait a session is created.
pub open spec fn restart_plan() -> Seq<Action> {
    seq![Action::EndSession, Action::Sleep(RESTART_SETTLE_MS)] + launch_plan()
}

/// Having a session: nothing where one is alive, else creating one.
pub open spec fn acquire_plan(alive: bool) -> Seq<Action> {
    if alive {
        Seq::empty()
    } else {
        launch_plan()
    }
}

/// Whether a plan starts the browser only on an identity store that it has
/// just deleted and made anew: the start stands directly behind the making,
/// and the making directly behind the deletion.
pub open spec fn guarded(plan: Seq<Action>) -> bool {
    forall|i: int|
        0 <= i < plan.len() ==> {
            &&& (#[trigger] plan[i]) == Action::LaunchBrowser ==> i >= 1 && plan[i - 1]
                == Action::PrepareProfile
            &&& plan[i] == Action::PrepareProfile ==> i >= 1 && plan[i - 1] == Action::WipeProfile
        }
}

/// Two guarded plans in a row are guarded.
pub proof fn lemma_guarded_concat(a: Seq<Action>, b: Seq<Action>)
    requires
        guarded(a),
        guarded(b),
    ensures
        guarded(a + b),
{
    assert forall|i: int| 0 <= i < (a + b).len() implies {
        &&& (#[trigger] (a + b)[i]) == Action::LaunchBrowser ==> i >= 1 && (a + b)[i - 1]
            == Action::PrepareProfile
        &&& (a + b)[i] == Action::PrepareProfile ==> i >= 1 && (a + b)[i - 1]
            == Action::WipeProfile
    } by {
        if i < a.len() {
            assert((a + b)[i] == a[i]);
        } else {
            assert((a + b)[i] == b[i - a.len()]);
        }
    }
}

/// Whether a plan holds no delicate action but those of creating a session.
pub open spec fn discreet(plan: Seq<Action>) -> bool {
    forall|i: int|
        0 <= i < plan.len() && (#[trigger] plan[i]).delicate() ==> plan[i]
            == Action::PrepareProfile || plan[i] == Action::LaunchBrowser
}

/// Two discreet plans in a row are discreet.
pub proof fn lemma_discreet_concat(a: Seq<Action>, b: Seq<Action>)
    requires
        discreet(a),
        discreet(b),
    ensures
        discreet(a + b),
{
    assert forall|i: int| 0 <= i < (a + b).len() && (#[trigger] (a + b)[i]).delicate() implies (a
        + b)[i] == Action::PrepareProfile || (a + b)[i] == Action::LaunchBrowser by {
        if i < a.len() {
            assert((a + b)[i] == a[i]);
        } else {
            assert((a + b)[i] == b[i - a.len()]);
        }
    }
}

/// Whether a plan starts a browser at most once.
pub open spec fn launches_once(plan: Seq<Action>) -> bool {
    forall|i: int, j: int|
        0 <= i < j < plan.len() && (#[trigger] plan[i]) == Action::LaunchBrowser ==> (
        #[trigger] plan[j]) != Action::LaunchBrowser
}

/// Two plans in a row start a browser at most once where each does and one
/// of them does not at all.
pub proof fn lemma_launches_once_concat(a: Seq<Action>, b: Seq<Action>)
    requires
        launches_once(a),
        launches_once(b),
        routine(a) || routine(b),
    ensures
        launches_once(a + b),
{
    assert forall|i: int, j: int|
        0 <= i < j < (a + b).len() && (#[trigger] (a + b)[i])
            == Action::LaunchBrowser implies (#[trigger] (a + b)[j]) != Action::LaunchBrowser by {
        if i < a.len() {
            assert((a + b)[i] == a[i]);
            assert(a[i].delicate());
        } else {
            assert((a + b)[i] == b[i - a.len()]);
            assert(b[i - a.len()].delicate());
        }
        if j < a.len() {
            assert((a + b)[j] == a[j]);
        } else {
            assert((a + b)[j] == b[j - a.len()]);
            if b[j - a.len()] == Action::LaunchBrowser {
                assert(b[j - a.len()].delicate());
            }
        }
    }
}

/// A plan without a delicate action is guarded.
pub proof fn lemma_routine_guarded(plan: Seq<Action>)
    requires
        routine(plan),
    ensures
        guarded(plan),
        discreet(plan),
        launches_once(plan),
{
    assert forall|i: int, j: int|
        0 <= i < j < plan.len() && (#[trigger] plan[i]) == Action::LaunchBrowser implies (
    #[trigger] plan[j]) != Action::LaunchBrowser by {
        assert(plan[i].delicate());
    }
}

/// Creating a session, restarting and having a session are guarded: none
/// starts a browser on an identity store left from an earlier session. They
/// are discreet, and none starts a browser twice; where a session is alive,
/// having one starts none.
pub proof fn lemma_lifecycle_guarded(alive: bool)
    ensures
        guarded(launch_plan()),
        guarded(restart_plan()),
        guarded(acquire_plan(alive)),
        discreet(launch_plan()),
        discreet(restart_plan()),
        discreet(acquire_plan(alive)),
        launches_once(launch_plan()),
        launches_once(restart_plan()),
        launches_once(acquire_plan(alive)),
        alive ==> routine(acquire_plan(alive)),
{
    assert(guarded(launch_plan()));
    assert(discreet(launch_plan()));
    assert(launches_once(launch_plan()));
    let head = seq![Action::EndSession, Action::Sleep(RESTART_SETTLE_MS)];
    assert(routine(head));
    lemma_routine_guarded(head);
    lemma_guarded_concat(head, launch_plan());
    lemma_discreet_concat(head, launch_plan());
    lemma_launches_once_concat(head, launch_plan());
}

/// Owner of the one browser session that may be alive at a time.
#[derive(Clone, Copy, Debug)]
pub struct BrowserManager {
    alive: bool,
}

impl BrowserManager {
    /// Whether a session is alive.
    pub closed spec fn alive(&self) -> bool {
        self.alive
    }

    /// A manager without a session.
    pub fn new() -> (manager: BrowserManager)
        ensures
            !manager.alive(),
    {
        BrowserManager { alive: false }
    }

    #[verifier::when_used_as_spec(alive)]
    pub fn is_alive(&self) -> (yes: bool)
        ensures
            yes == self.alive(),
    {
        self.alive
    }

    /// Plans how to have a session: by creating one where none is alive. A
    /// session is created on an identity store that has just been deleted and
    /// made anew.
    pub fn get_or_create(&self) -> (plan: Vec<Action>)
        ensures
            plan@ == acquire_plan(self.alive()),
            guarded(plan@),
    {
        let mut plan: Vec<Action> = Vec::new();
        if !self.alive {
            plan.push(Action::WipeProfile);
            plan.push(Action::PrepareProfile);
            plan.push(Action::LaunchBrowser);
        }
        assert(plan@ =~= acquire_plan(self.alive));
        proof {
            lemma_lifecycle_guarded(self.alive);
        }
        plan
    }

    /// Plans a restart, whether or not a session is alive: the session is
    /// ended, and after a wait a session is created, on an identity store that
    /// has just been deleted and made anew. From here on no session counts as
    /// alive, until the start of the browser is seen to have completed.
    pub fn restart(&mut self) -> (plan: Vec<Action>)
        ensures
            plan@ == restart_plan(),
            guarded(plan@),
            !final(self).alive(),
    {
        self.alive = false;
        let mut plan: Vec<Action> = Vec::new();
        plan.push(Action::EndSession);
        plan.push(Action::Sleep(RESTART_SETTLE_MS));
        plan.push(Action::WipeProfile);
        plan.push(Action::PrepareProfile);
        plan.push(Action::LaunchBrowser);
        assert(plan@ =~= restart_plan());
        proof {
            lemma_lifecycle_guarded(false);
        }
        plan
    }

    /// Takes note of an action that was carried out: a session is alive once
    /// the browser has started, and none is once the session was ended.
    pub fn completed(&mut self, action: Action)
        ensures
            final(self).alive() == after_completion(old(self).alive(), action),
    {
        match action {
            Action::LaunchBrowser => {
                self.alive = true;
            },
            Action::EndSession => {
                self.alive = false;
            },
            _ => {},
        }
    }
}

/// Whether a session is alive after `action` was carried out, given whether
/// one was alive before.
pub open spec fn after_completion(alive: bool, action: Action) -> bool {
    if action == Action::LaunchBrowser {
        true
    } else if action == Action::EndSession {
        false
    } else {
        alive
    }
}

} // verus!
