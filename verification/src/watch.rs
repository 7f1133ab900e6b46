//! The watch loop as a state machine.
//!
//! The loop itself waits on channels, timers and the running operation; what it decides
//! is decided here. The driver tells the machine what happened, as an [`Event`], and
//! carries out, in order, the [`Action`]s that the machine answers with.
//!
//! One cycle runs from `Starting` through `RunningWithRegistration` and
//! `AwaitingAfterCompletion` back to `Starting`. Each cycle has a watcher of its own:
//! a restart discards the old one whole and constructs a fresh one.

use crate::path::{fresh, merged, texts, PathSet, WatchPath};
use crate::report::{notice_line, notice_text};
use vstd::prelude::*;

verus! {

/// How often the driver yields to the scheduler before it constructs a fresh watcher,
/// so that the cancellation of an abandoned run can settle first.
pub const SETTLE_YIELDS: usize = 10;

/// Settings for what the loop prints.
#[derive(Debug)]
pub struct PrintConfig {
    /// Label of the job in the status lines.
    pub job_name: String,
    /// Whether to clear the screen before a restart notice. It applies only where
    /// the output is an interactive terminal.
    pub clear_screen: bool,
}

/// Where in a cycle the loop stands.
#[derive(Clone, Copy, Debug, PartialEq, Eq, Structural)]
pub enum Phase {
    /// A fresh watcher is being constructed.
    Starting,
    /// The operation runs; it may ask for more paths to be watched.
    RunningWithRegistration,
    /// The operation has completed; the loop waits for the next change.
    AwaitingAfterCompletion,
    /// A fatal error ended the loop.
    Failed,
}

/// A status line.
#[derive(Clone, Copy, Debug, PartialEq, Eq, Structural)]
pub enum Notice {
    Started,
    ChangeDetected,
    Finished,
    Failed,
}

/// What the driver reports.
#[derive(Debug, PartialEq, Eq)]
pub enum Event {
    /// The fresh watcher stands.
    WatcherReady,
    /// The watcher could not be constructed.
    WatcherFailed,
    /// The operation could not be set up.
    OperationRejected,
    /// The operation asks for these paths to be watched.
    Registered(Vec<WatchPath>),
    /// A debounced set of changed paths came in. `interactive` says whether the
    /// output is an interactive terminal at this moment.
    Changed { paths: Vec<WatchPath>, interactive: bool },
    /// The operation completed.
    Finished { success: bool },
}

/// An [`Event`] with its paths as texts.
pub enum EventView {
    WatcherReady,
    WatcherFailed,
    OperationRejected,
    Registered(Seq<Seq<char>>),
    Changed { paths: Seq<Seq<char>>, interactive: bool },
    Finished { success: bool },
}

impl View for Event {
    type V = EventView;

    open spec fn view(&self) -> EventView {
        match *self {
            Event::WatcherReady => EventView::WatcherReady,
            Event::WatcherFailed => EventView::WatcherFailed,
            Event::OperationRejected => EventView::OperationRejected,
            Event::Registered(paths) => EventView::Registered(texts(paths@)),
            Event::Changed { paths, interactive } => EventView::Changed {
                paths: texts(paths@),
                interactive,
            },
            Event::Finished { success } => EventView::Finished { success },
        }
    }
}

/// What the driver is to do.
#[derive(Debug, PartialEq, Eq)]
pub enum Action {
    /// Yield to the scheduler this many times.
    Settle(usize),
    /// Discard the previous watcher, if any, and construct a fresh one; report
    /// `WatcherReady` or `WatcherFailed`.
    CreateWatcher,
    /// Print a status line.
    Log(Notice),
    /// Clear the screen.
    ClearScreen,
    /// Report every batch of paths that waits in the registration channel, each as
    /// `Registered`, until the channel is empty.
    DrainRegistrations,
    /// Watch these paths, recursively. A path that cannot be watched is skipped.
    Watch(Vec<WatchPath>),
    /// Set up the operation with this reload flag and this changed-path context and
    /// let it run; report `OperationRejected` if it cannot be set up.
    Run { reload: bool, changed_paths: Option<Vec<WatchPath>> },
    /// Drop the run in flight.
    Abandon,
    /// End the loop with the error at hand.
    Fail,
}

/// An [`Action`] with its paths as texts.
pub enum ActionView {
    Settle(usize),
    CreateWatcher,
    Log(Notice),
    ClearScreen,
    DrainRegistrations,
    Watch(Seq<Seq<char>>),
    Run { reload: bool, changed_paths: Option<Seq<Seq<char>>> },
    Abandon,
    Fail,
}

impl View for Action {
    type V = ActionView;

    open spec fn view(&self) -> ActionView {
        match *self {
            Action::Settle(times) => ActionView::Settle(times),
            Action::CreateWatcher => ActionView::CreateWatcher,
            Action::Log(notice) => ActionView::Log(notice),
            Action::ClearScreen => ActionView::ClearScreen,
            Action::DrainRegistrations => ActionView::DrainRegistrations,
            Action::Watch(paths) => ActionView::Watch(texts(paths@)),
            Action::Run { reload, changed_paths } => ActionView::Run {
                reload,
                changed_paths: match changed_paths {
                    Some(paths) => Some(texts(paths@)),
                    None => None,
                },
            },
            Action::Abandon => ActionView::Abandon,
            Action::Fail => ActionView::Fail,
        }
    }
}

/// The views of a list of actions, in order.
pub open spec fn action_views(actions: Seq<Action>) -> Seq<ActionView> {
    Seq::new(actions.len(), |i: int| actions[i]@)
}

/// What the loop remembers.
pub struct WatchState {
    pub phase: Phase,
    /// No operation has been set up yet.
    pub first_cycle: bool,
    /// The change that caused the restart under way.
    pub changed: Option<Seq<Seq<char>>>,
    /// What the watcher of this cycle watches.
    pub watched: Seq<Seq<char>>,
    pub job_name: Seq<char>,
    pub clear_screen: bool,
}

/// The state in which a loop begins.
pub open spec fn initial_state(job_name: Seq<char>, clear_screen: bool) -> WatchState {
    WatchState {
        phase: Phase::Starting,
        first_cycle: true,
        changed: None,
        watched: Seq::empty(),
        job_name,
        clear_screen,
    }
}

/// What holds of every state that a loop can be in: while no operation has been set
/// up the loop is still starting, or has failed to, and has no change to pass on; and
/// no path is watched twice.
pub open spec fn valid(s: WatchState) -> bool {
    &&& s.first_cycle ==> (s.phase == Phase::Starting || s.phase == Phase::Failed) && s.changed
        is None
    &&& s.watched.no_duplicates()
}

/// What to do on entering `Starting`.
pub open spec fn starting_actions() -> Seq<ActionView> {
    seq![ActionView::Settle(SETTLE_YIELDS), ActionView::CreateWatcher]
}

/// Whether state `s` has a use for event `e`. Any other event is ignored.
pub open spec fn accepts(s: WatchState, e: EventView) -> bool {
    match s.phase {
        Phase::Starting => e is WatcherReady || e is WatcherFailed,
        Phase::RunningWithRegistration => e is Registered || e is Changed || e is Finished
            || e is OperationRejected,
        Phase::AwaitingAfterCompletion => e is Registered || e is Changed,
        Phase::Failed => false,
    }
}

/// The state after event `e`.
pub open spec fn next_state(s: WatchState, e: EventView) -> WatchState {
    if !accepts(s, e) {
        s
    } else {
        match e {
            EventView::WatcherReady => WatchState {
                phase: Phase::RunningWithRegistration,
                first_cycle: false,
                changed: None,
                ..s
            },
            EventView::WatcherFailed => WatchState { phase: Phase::Failed, ..s },
            EventView::OperationRejected => WatchState { phase: Phase::Failed, ..s },
            EventView::Registered(paths) => WatchState { watched: merged(s.watched, paths), ..s },
            EventView::Changed { paths, .. } => WatchState {
                phase: Phase::Starting,
                changed: Some(paths),
                watched: Seq::empty(),
                ..s
            },
            EventView::Finished { .. } => WatchState {
                phase: Phase::AwaitingAfterCompletion,
                ..s
            },
        }
    }
}

/// What the driver is to do after event `e` in state `s`.
pub open spec fn actions_for(s: WatchState, e: EventView) -> Seq<ActionView> {
    if !accepts(s, e) {
        Seq::empty()
    } else {
        match e {
            EventView::WatcherReady => (if s.first_cycle {
                seq![ActionView::Log(Notice::Started)]
            } else {
                Seq::empty()
            }) + seq![
                ActionView::DrainRegistrations,
                ActionView::Run { reload: s.first_cycle, changed_paths: s.changed },
            ],
            EventView::WatcherFailed => seq![ActionView::Fail],
            EventView::OperationRejected => seq![ActionView::Fail],
            EventView::Registered(paths) => seq![ActionView::Watch(fresh(s.watched, paths))],
            EventView::Changed { interactive, .. } => (if s.clear_screen && interactive {
                seq![ActionView::ClearScreen]
            } else {
                Seq::empty()
            }) + seq![ActionView::Log(Notice::ChangeDetected), ActionView::Abandon]
                + starting_actions(),
            EventView::Finished { success } => seq![
                ActionView::DrainRegistrations,
                ActionView::Log(if success {
                    Notice::Finished
                } else {
                    Notice::Failed
                }),
            ],
        }
    }
}

/// The decisions of one watch loop.
pub struct Orchestrator {
    config: PrintConfig,
    phase: Phase,
    first_cycle: bool,
    changed_paths: Option<Vec<WatchPath>>,
    watched: PathSet,
}

impl View for Orchestrator {
    type V = WatchState;

    closed spec fn view(&self) -> WatchState {
        WatchState {
            phase: self.phase,
            first_cycle: self.first_cycle,
            changed: match self.changed_paths {
                Some(paths) => Some(texts(paths@)),
                None => None,
            },
            watched: self.watched@,
            job_name: self.config.job_name@,
            clear_screen: self.config.clear_screen,
        }
    }
}

impl Orchestrator {
    /// The state is one that a loop can be in.
    pub open spec fn wf(&self) -> bool {
        valid(self@)
    }

    /// A loop that has not begun. [`watch_func`] gives one together with what its
    /// driver is to do first.
    pub fn new(config: PrintConfig) -> (orchestrator: Orchestrator)
        ensures
            orchestrator.wf(),
            orchestrator@ == initial_state(config.job_name@, config.clear_screen),
    {
        Orchestrator {
            config,
            phase: Phase::Starting,
            first_cycle: true,
            changed_paths: None,
            watched: PathSet::new(),
        }
    }

    /// The job's label for the status lines.
    pub fn job_name(&self) -> (name: &str)
        ensures
            name@ == self@.job_name,
    {
        self.config.job_name.as_str()
    }

    /// The text of a status line of this loop, as it follows the watcher's label.
    pub fn notice(&self, notice: Notice) -> (line: String)
        ensures
            line@ == notice_text(notice, self@.job_name),
    {
        notice_line(notice, self.config.job_name.as_str())
    }

    pub fn phase(&self) -> (phase: Phase)
        ensures
            phase == self@.phase,
    {
        self.phase
    }

    /// How many paths the watcher of this cycle watches.
    pub fn watched_len(&self) -> (n: usize)
        ensures
            n == self@.watched.len(),
    {
        self.watched.len()
    }

    /// Copies of the paths that the watcher of this cycle watches, in the order in
    /// which they were registered.
    pub fn watched_paths(&self) -> (paths: Vec<WatchPath>)
        ensures
            texts(paths@) == self@.watched,
    {
        self.watched.to_vec()
    }

    /// Takes in what happened and says what to do about it. An event that the
    /// current phase has no use for changes nothing and asks for nothing.
    pub fn step(&mut self, event: Event) -> (actions: Vec<Action>)
        requires
            old(self).wf(),
        ensures
            final(self).wf(),
            final(self)@ == next_state(old(self)@, event@),
            action_views(actions@) == actions_for(old(self)@, event@),
    {
        let mut actions: Vec<Action> = Vec::new();
        match event {
            Event::WatcherReady => {
                if self.phase == Phase::Starting {
                    if self.first_cycle {
                        actions.push(Action::Log(Notice::Started));
                    }
                    actions.push(Action::DrainRegistrations);
                    let mut changed_paths: Option<Vec<WatchPath>> = None;
                    std::mem::swap(&mut self.changed_paths, &mut changed_paths);
                    actions.push(Action::Run { reload: self.first_cycle, changed_paths });
                    self.first_cycle = false;
                    self.phase = Phase::RunningWithRegistration;
                }
            },
            Event::WatcherFailed => {
                if self.phase == Phase::Starting {
                    actions.push(Action::Fail);
                    self.phase = Phase::Failed;
                }
            },
            Event::OperationRejected => {
                if self.phase == Phase::RunningWithRegistration {
                    actions.push(Action::Fail);
                    self.phase = Phase::Failed;
                }
            },
            Event::Registered(paths) => {
                if self.phase == Phase::RunningWithRegistration || self.phase
                    == Phase::AwaitingAfterCompletion {
                    let added = self.watched.extend(&paths);
                    actions.push(Action::Watch(added));
                }
            },
            Event::Changed { paths, interactive } => {
                if self.phase == Phase::RunningWithRegistration || self.phase
                    == Phase::AwaitingAfterCompletion {
                    if self.config.clear_screen && interactive {
                        actions.push(Action::ClearScreen);
                    }
                    actions.push(Action::Log(Notice::ChangeDetected));
                    actions.push(Action::Abandon);
                    actions.push(Action::Settle(SETTLE_YIELDS));
                    actions.push(Action::CreateWatcher);
                    self.changed_paths = Some(paths);
                    self.watched = PathSet::new();
                    self.phase = Phase::Starting;
                }
            },
            Event::Finished { success } => {
                if self.phase == Phase::RunningWithRegistration {
                    actions.push(Action::DrainRegistrations);
                    actions.push(
                        Action::Log(
                            if success {
                                Notice::Finished
                            } else {
                                Notice::Failed
                            },
                        ),
                    );
                    self.phase = Phase::AwaitingAfterCompletion;
                }
            },
        }
        assert(action_views(actions@) =~= actions_for(old(self)@, event@));
        actions
    }
}

/// Begins a watch loop: gives the machine that decides it, in its initial state, and
/// what the driver is to do first. From then on the driver reports each thing that
/// happens to [`Orchestrator::step`] and carries out what it answers.
pub fn watch_func(print_config: PrintConfig) -> (begun: (Orchestrator, Vec<Action>))
    ensures
        begun.0.wf(),
        begun.0@ == initial_state(print_config.job_name@, print_config.clear_screen),
        action_views(begun.1@) == starting_actions(),
{
    let orchestrator = Orchestrator::new(print_config);
    let mut actions: Vec<Action> = Vec::new();
    actions.push(Action::Settle(SETTLE_YIELDS));
    actions.push(Action::CreateWatcher);
    assert(action_views(actions@) =~= starting_actions());
    (orchestrator, actions)
}

} // verus!
