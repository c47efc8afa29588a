//! The launch, one attempt at a time.
//!
//! A [`Launcher`] holds the attempts for one URL and knows which of them is to
//! be made now. Whoever drives it makes that attempt and reports what became of
//! it; [`Launcher::step`] answers with the next attempt or with the result of
//! the launch. The first attempt that starts ends the launch, and no attempt is
//! made twice.

use crate::browsers::LaunchPolicy;
use crate::plan::{
    attempts_view, browser_attempts, browser_env_attempts, fallback_attempts, fallback_chain,
    is_kde, text_of, Attempt, AttemptView,
};
use vstd::prelude::*;

verus! {

/// The browser to open the URL in.
#[derive(Clone, Copy, Debug, PartialEq, Eq, Structural)]
pub enum Browser {
    /// The browser that the user's system is set up to use.
    Default,
    Firefox,
    InternetExplorer,
    Chrome,
    Opera,
    Safari,
}

/// The kinds of failure of a launch.
#[derive(Clone, Copy, Debug, PartialEq, Eq, Structural)]
pub enum ErrorKind {
    /// No way to open the URL in a browser was found.
    NotFound,
}

/// Why a launch failed.
#[derive(Clone, Debug, PartialEq, Eq)]
pub struct LaunchError {
    pub kind: ErrorKind,
    pub message: String,
}

/// What a [`LaunchError`] stands for.
pub struct LaunchErrorView {
    pub kind: ErrorKind,
    pub message: Seq<char>,
}

impl View for LaunchError {
    type V = LaunchErrorView;

    open spec fn view(&self) -> LaunchErrorView {
        LaunchErrorView { kind: self.kind, message: self.message@ }
    }
}

/// What became of an attempt.
#[derive(Clone, Debug, PartialEq, Eq)]
pub enum Outcome {
    /// The command ran and exited with this status.
    Exited(i32),
    /// The command was started and runs on.
    Spawned,
    /// The command could not be started, for this reason.
    Failed(String),
}

/// What an [`Outcome`] stands for.
pub enum OutcomeView {
    Exited(i32),
    Spawned,
    Failed(Seq<char>),
}

impl View for Outcome {
    type V = OutcomeView;

    open spec fn view(&self) -> OutcomeView {
        match self {
            Outcome::Exited(status) => OutcomeView::Exited(*status),
            Outcome::Spawned => OutcomeView::Spawned,
            Outcome::Failed(message) => OutcomeView::Failed(message@),
        }
    }
}

/// A launch under way: the attempts, and the one to make now.
pub struct Launcher {
    attempts: Vec<Attempt>,
    position: usize,
    from_browser: usize,
    reason: String,
}

/// What a [`Launcher`] stands for.
pub struct LauncherView {
    /// The attempts of this launch, in the order in which they are made.
    pub plan: Seq<AttemptView>,
    /// The index in `plan` of the attempt to make now.
    pub position: nat,
    /// How many attempts, at the front of `plan`, come from `BROWSER`.
    pub from_browser: nat,
    /// The reason to give if every attempt from here on fails and leaves none
    /// of its own.
    pub reason: Seq<char>,
}

impl LauncherView {
    /// The attempt to make now.
    pub open spec fn current(self) -> AttemptView {
        self.plan[self.position as int]
    }

    /// Whether the failure of the attempt at `index` leaves its reason: that of
    /// a launcher that was waited for does, that of a command from `BROWSER` or
    /// of one started in the background does not.
    pub open spec fn leaves_reason(self, index: int) -> bool {
        index >= self.from_browser && self.plan[index].policy == LaunchPolicy::Blocking
    }
}

/// Where a launch stands.
pub enum Step {
    /// Make the attempt that the launcher names, and report what became of it.
    Run(Launcher),
    /// The launch is over: the status of the command that started, or why none
    /// did.
    Done(Result<i32, LaunchError>),
}

/// What a [`Step`] stands for.
pub enum StepView {
    Run(LauncherView),
    Done(Result<i32, LaunchErrorView>),
}

impl View for Step {
    type V = StepView;

    open spec fn view(&self) -> StepView {
        match self {
            Step::Run(launcher) => StepView::Run(launcher@),
            Step::Done(Ok(status)) => StepView::Done(Ok(*status)),
            Step::Done(Err(error)) => StepView::Done(Err(error@)),
        }
    }
}

/// The failure that carries `message`.
pub open spec fn not_found(message: Seq<char>) -> LaunchErrorView {
    LaunchErrorView { kind: ErrorKind::NotFound, message }
}

/// The attempts for `url`, in order: those that `BROWSER` stands for, if it is
/// set, then the launchers to fall back on.
pub open spec fn plan(
    browser_env: Option<Seq<char>>,
    desktop: Option<Seq<char>>,
    url: Seq<char>,
) -> Seq<AttemptView> {
    from_browser_env(browser_env, url) + fallback_attempts(is_kde(desktop), url)
}

/// The attempts that `BROWSER` stands for: none if it is not set.
pub open spec fn from_browser_env(
    browser_env: Option<Seq<char>>,
    url: Seq<char>,
) -> Seq<AttemptView> {
    match browser_env {
        Some(value) => browser_attempts(value, url),
        None => Seq::empty(),
    }
}

/// Why `BROWSER` led to no browser, if none of its commands starts.
pub open spec fn browser_env_reason(browser_env: Option<Seq<char>>) -> Seq<char> {
    match browser_env {
        Some(_) => "No valid command in $BROWSER"@,
        None => "BROWSER env not set"@,
    }
}

/// Where a launch starts. Only the default browser can be asked for: for any
/// other the launch is over at once, and nothing is to be run.
pub open spec fn started(
    browser: Browser,
    browser_env: Option<Seq<char>>,
    desktop: Option<Seq<char>>,
    url: Seq<char>,
) -> StepView {
    if browser == Browser::Default {
        StepView::Run(
            LauncherView {
                plan: plan(browser_env, desktop, url),
                position: 0,
                from_browser: from_browser_env(browser_env, url).len(),
                reason: browser_env_reason(browser_env),
            },
        )
    } else {
        StepView::Done(
            Err(not_found("Only the default browser is supported on this platform right now"@)),
        )
    }
}

/// The status to report for a command that started: its own if it was waited
/// for, zero if it runs in the background.
pub open spec fn reported_status(policy: LaunchPolicy, outcome: OutcomeView) -> i32 {
    match (policy, outcome) {
        (LaunchPolicy::Blocking, OutcomeView::Exited(status)) => status,
        _ => 0,
    }
}

/// The reason that stands after the attempt to make now has failed with
/// `message`.
pub open spec fn reason_after(state: LauncherView, message: Seq<char>) -> Seq<char> {
    if state.leaves_reason(state.position as int) {
        message
    } else {
        state.reason
    }
}

/// Where the launch stands after the attempt to make now has had `outcome`.
/// If the command started, the launch is over. If it did not, the next attempt
/// is due; after the last one the launch has failed.
pub open spec fn stepped(state: LauncherView, outcome: OutcomeView) -> StepView {
    match outcome {
        OutcomeView::Failed(message) => {
            if state.position + 1 < state.plan.len() {
                StepView::Run(
                    LauncherView {
                        plan: state.plan,
                        position: state.position + 1,
                        from_browser: state.from_browser,
                        reason: reason_after(state, message),
                    },
                )
            } else {
                StepView::Done(Err(not_found(reason_after(state, message))))
            }
        },
        _ => StepView::Done(Ok(reported_status(state.current().policy, outcome))),
    }
}

impl View for Launcher {
    type V = LauncherView;

    closed spec fn view(&self) -> LauncherView {
        LauncherView {
            plan: attempts_view(self.attempts@),
            position: self.position as nat,
            from_browser: self.from_browser as nat,
            reason: self.reason@,
        }
    }
}

impl Launcher {
    #[verifier::type_invariant]
    spec fn well_formed(self) -> bool {
        self.position < self.attempts.len()
    }

    /// Starts the launch of `url` in `browser`, given the values of `BROWSER`
    /// and of `XDG_CURRENT_DESKTOP`, `None` for one that is not set.
    pub fn start(
        browser: Browser,
        browser_env: Option<&str>,
        desktop: Option<&str>,
        url: &str,
    ) -> (step: Step)
        ensures
            step@ == started(browser, text_of(browser_env), text_of(desktop), url@),
            step@ matches StepView::Run(state) ==> state.position < state.plan.len(),
    {
        match browser {
            Browser::Default => {
                let mut attempts: Vec<Attempt> = Vec::new();
                let reason: String;
                match browser_env {
                    Some(value) => {
                        attempts = browser_env_attempts(value, url);
                        reason = "No valid command in $BROWSER".to_owned();
                    },
                    None => {
                        reason = "BROWSER env not set".to_owned();
                    },
                }
                let from_browser = attempts.len();
                let ghost first = attempts@;
                let mut fallback = fallback_chain(desktop, url);
                let ghost second = fallback@;
                attempts.append(&mut fallback);
                assert(attempts_view(attempts@) =~= attempts_view(first) + attempts_view(second));
                Step::Run(Launcher { attempts, position: 0, from_browser, reason })
            },
            _ => Step::Done(
                Err(
                    LaunchError {
                        kind: ErrorKind::NotFound,
                        message:
                            "Only the default browser is supported on this platform right now".to_owned(),
                    },
                ),
            ),
        }
    }

    /// The attempt to make now.
    pub fn attempt(&self) -> (attempt: &Attempt)
        ensures
            self@.position < self@.plan.len(),
            attempt@ == self@.current(),
    {
        proof {
            use_type_invariant(self);
        }
        &self.attempts[self.position]
    }

    /// The reason to give if every attempt from here on fails and leaves none
    /// of its own.
    pub fn reason(&self) -> (reason: &str)
        ensures
            reason@ == self@.reason,
    {
        self.reason.as_str()
    }

    /// How many attempts of this launch have failed.
    pub fn position(&self) -> (position: usize)
        ensures
            position == self@.position,
    {
        self.position
    }

    /// Takes what became of the attempt to make now, and says where the launch
    /// stands after it.
    pub fn step(self, outcome: Outcome) -> (next: Step)
        ensures
            next@ == stepped(self@, outcome@),
            next@ matches StepView::Run(state) ==> state.position < state.plan.len(),
    {
        proof {
            use_type_invariant(&self);
        }
        let policy = self.attempts[self.position].policy;
        match outcome {
            Outcome::Failed(message) => {
                let keeps = self.position >= self.from_browser && policy == LaunchPolicy::Blocking;
                let reason = if keeps {
                    message
                } else {
                    self.reason
                };
                if self.position + 1 < self.attempts.len() {
                    Step::Run(
                        Launcher {
                            attempts: self.attempts,
                            position: self.position + 1,
                            from_browser: self.from_browser,
                            reason,
                        },
                    )
                } else {
                    Step::Done(Err(LaunchError { kind: ErrorKind::NotFound, message: reason }))
                }
            },
            Outcome::Exited(status) => {
                match policy {
                    LaunchPolicy::Blocking => Step::Done(Ok(status)),
                    LaunchPolicy::Background => Step::Done(Ok(0)),
                }
            },
            Outcome::Spawned => Step::Done(Ok(0)),
        }
    }
}

/// Where the launch stands after the attempts from `step` on have had
/// `outcomes`, one after the other. Outcomes beyond the end of the launch are
/// not looked at.
pub open spec fn ran(step: StepView, outcomes: Seq<OutcomeView>) -> StepView
    decreases outcomes.len(),
{
    if outcomes.len() == 0 {
        step
    } else {
        match step {
            StepView::Run(state) => ran(stepped(state, outcomes[0]), outcomes.skip(1)),
            StepView::Done(_) => step,
        }
    }
}

/// Once the launch is over, it stays as it is.
pub proof fn lemma_ran_when_done(step: StepView, outcomes: Seq<OutcomeView>)
    requires
        step is Done,
    ensures
        ran(step, outcomes) == step,
{
}

/// Asking for any browser but the default one ends the launch at once with
/// `NotFound`: there is nothing to run.
pub proof fn law_only_default_browser_is_launched(
    browser: Browser,
    browser_env: Option<Seq<char>>,
    desktop: Option<Seq<char>>,
    url: Seq<char>,
)
    requires
        browser != Browser::Default,
    ensures
        started(browser, browser_env, desktop, url) matches StepView::Done(Err(error))
            && error.kind == ErrorKind::NotFound,
{
}

/// For the default browser there is always something to run, and the launch
/// starts at the front of the plan.
pub proof fn law_default_launch_starts_at_front(
    browser_env: Option<Seq<char>>,
    desktop: Option<Seq<char>>,
    url: Seq<char>,
)
    ensures
        started(Browser::Default, browser_env, desktop, url) matches StepView::Run(state)
            && state.position == 0 && state.plan == plan(browser_env, desktop, url)
            && state.from_browser <= state.plan.len() - 6,
{
}

/// As long as attempts fail, the launch walks the plan in order, one attempt
/// for each failure.
pub proof fn law_attempts_follow_plan(state: LauncherView, outcomes: Seq<OutcomeView>)
    requires
        state.position + outcomes.len() < state.plan.len(),
        forall|j: int| 0 <= j < outcomes.len() ==> outcomes[j] is Failed,
    ensures
        ran(StepView::Run(state), outcomes) matches StepView::Run(next) && next.plan == state.plan
            && next.from_browser == state.from_browser && next.position == state.position
            + outcomes.len(),
    decreases outcomes.len(),
{
    if outcomes.len() > 0 {
        let next = stepped(state, outcomes[0])->Run_0;
        law_attempts_follow_plan(next, outcomes.skip(1));
    }
}

/// The first attempt that starts ends the launch: its status is reported, and
/// what the outcomes say of later attempts plays no part.
pub proof fn law_first_start_ends_launch(state: LauncherView, outcomes: Seq<OutcomeView>, k: int)
    requires
        0 <= k < outcomes.len(),
        state.position + k < state.plan.len(),
        forall|j: int| 0 <= j < k ==> outcomes[j] is Failed,
        !(outcomes[k] is Failed),
    ensures
        ran(StepView::Run(state), outcomes) == StepView::Done(
            Ok(reported_status(state.plan[state.position + k].policy, outcomes[k])),
        ),
    decreases k,
{
    if k > 0 {
        let next = stepped(state, outcomes[0])->Run_0;
        law_first_start_ends_launch(next, outcomes.skip(1), k - 1);
    } else {
        lemma_ran_when_done(stepped(state, outcomes[0]), outcomes.skip(1));
    }
}

/// Where every attempt fails and none of them leaves its reason, the launch
/// fails with `NotFound` and the reason that stood before.
pub proof fn law_launch_fails_with_standing_reason(state: LauncherView, outcomes: Seq<OutcomeView>)
    requires
        state.position < state.plan.len(),
        outcomes.len() == state.plan.len() - state.position,
        forall|j: int| 0 <= j < outcomes.len() ==> outcomes[j] is Failed,
        forall|j: int| state.position <= j < state.plan.len() ==> !state.leaves_reason(j),
    ensures
        ran(StepView::Run(state), outcomes) == StepView::Done(Err(not_found(state.reason))),
    decreases outcomes.len(),
{
    if outcomes.len() > 1 {
        let next = stepped(state, outcomes[0])->Run_0;
        assert forall|j: int|
            next.position <= j < next.plan.len() implies !next.leaves_reason(j) by {
            assert(!state.leaves_reason(j));
        }
        law_launch_fails_with_standing_reason(next, outcomes.skip(1));
    } else {
        lemma_ran_when_done(stepped(state, outcomes[0]), outcomes.skip(1));
    }
}

/// Where every attempt fails, the launch fails with `NotFound` and the reason
/// of the last attempt that leaves one.
pub proof fn law_launch_fails_with_last_reason(
    state: LauncherView,
    outcomes: Seq<OutcomeView>,
    k: int,
)
    requires
        state.position < state.plan.len(),
        outcomes.len() == state.plan.len() - state.position,
        forall|j: int| 0 <= j < outcomes.len() ==> outcomes[j] is Failed,
        0 <= k < outcomes.len(),
        state.leaves_reason(state.position + k),
        forall|j: int| state.position + k < j < state.plan.len() ==> !state.leaves_reason(j),
    ensures
        ran(StepView::Run(state), outcomes) == StepView::Done(
            Err(not_found(outcomes[k]->Failed_0)),
        ),
    decreases outcomes.len(),
{
    if outcomes.len() > 1 {
        let next = stepped(state, outcomes[0])->Run_0;
        if k == 0 {
            assert forall|j: int|
                next.position <= j < next.plan.len() implies !next.leaves_reason(j) by {
                assert(!state.leaves_reason(j));
            }
            law_launch_fails_with_standing_reason(next, outcomes.skip(1));
        } else {
            assert forall|j: int|
                next.position + k - 1 < j < next.plan.len() implies !next.leaves_reason(j) by {
                assert(!state.leaves_reason(j));
            }
            law_launch_fails_with_last_reason(next, outcomes.skip(1), k - 1);
        }
    } else {
        lemma_ran_when_done(stepped(state, outcomes[0]), outcomes.skip(1));
    }
}

/// Where every attempt of a launch of the default browser fails, the launch
/// fails with `NotFound` and the reason of the last launcher that was waited
/// for: the one before the last resort.
pub proof fn law_default_launch_fails_with_launcher_reason(
    browser_env: Option<Seq<char>>,
    desktop: Option<Seq<char>>,
    url: Seq<char>,
    outcomes: Seq<OutcomeView>,
)
    requires
        outcomes.len() == plan(browser_env, desktop, url).len(),
        forall|j: int| 0 <= j < outcomes.len() ==> outcomes[j] is Failed,
    ensures
        ran(started(Browser::Default, browser_env, desktop, url), outcomes) == StepView::Done(
            Err(not_found(outcomes[outcomes.len() - 2]->Failed_0)),
        ),
{
    // The last two attempts are the launcher of KDE, which is waited for, and
    // the last resort, which is not.
    let state = started(Browser::Default, browser_env, desktop, url)->Run_0;
    law_launch_fails_with_last_reason(state, outcomes, state.plan.len() - 2);
}

} // verus!
