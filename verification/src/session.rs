//! Stream sessions and the supervision policy, as the supervisor's rules
//! see them.

use vstd::prelude::*;

verus! {

/// The supervisor's tuning parameters. Times are in milliseconds.
#[derive(Clone, Copy, Debug, PartialEq, Eq, Structural)]
pub struct Policy {
    /// A session without a heartbeat for longer than this is cancelled.
    pub idle_timeout: u64,
    /// Least time between two restart attempts of one session.
    pub cooldown: u64,
    /// A session that has run for longer than this without crashing has its
    /// restart count forgiven.
    pub healthy_window: u64,
    /// Number of crash-triggered restarts after which a session is given up.
    pub max_restarts: u32,
}

impl Policy {
    /// Two minutes of idleness, ten seconds of cooldown, one minute of
    /// healthy running, five restarts.
    pub open spec fn standard() -> Policy {
        Policy { idle_timeout: 120_000, cooldown: 10_000, healthy_window: 60_000, max_restarts: 5 }
    }
}

impl Default for Policy {
    fn default() -> (p: Policy)
        ensures
            p == Policy::standard(),
    {
        Policy { idle_timeout: 120_000, cooldown: 10_000, healthy_window: 60_000, max_restarts: 5 }
    }
}

/// What is known of a session's current pipeline execution.
#[derive(Clone, Copy, Debug, PartialEq, Eq, Structural)]
pub enum WorkerState {
    /// Not reported finished.
    Active,
    /// Finished after the session was cancelled for idleness.
    FinishedClean,
    /// Finished without having been cancelled.
    FinishedCrashed,
}

/// A session as a mathematical value.
pub struct SessionView {
    pub name: Seq<char>,
    pub input_url: Seq<char>,
    pub output_url: Seq<char>,
    pub cancelled: bool,
    pub last_heartbeat: u64,
    pub worker: WorkerState,
    pub restart_count: u32,
    pub last_restart_attempt: u64,
}

/// What the supervisor asks of its caller.
pub enum ActionView {
    Cancel { name: Seq<char> },
    Restart { name: Seq<char>, input_url: Seq<char>, output_url: Seq<char> },
    Exhausted { name: Seq<char> },
    Remove { name: Seq<char> },
}

impl ActionView {
    /// The session the action is about.
    pub open spec fn name(self) -> Seq<char> {
        match self {
            ActionView::Cancel { name } => name,
            ActionView::Restart { name, .. } => name,
            ActionView::Exhausted { name } => name,
            ActionView::Remove { name } => name,
        }
    }
}

impl SessionView {
    /// The session created by a start at time `now`.
    pub open spec fn fresh(
        name: Seq<char>,
        input_url: Seq<char>,
        output_url: Seq<char>,
        now: u64,
    ) -> SessionView {
        SessionView {
            name,
            input_url,
            output_url,
            cancelled: false,
            last_heartbeat: now,
            worker: WorkerState::Active,
            restart_count: 0,
            last_restart_attempt: now,
        }
    }

    /// The session's pipeline execution has not been reported finished.
    pub open spec fn live(self) -> bool {
        self.worker is Active
    }

    /// The session's pipeline execution finished without the session having
    /// been cancelled.
    pub open spec fn crashed(self) -> bool {
        self.worker is FinishedCrashed && !self.cancelled
    }

    /// The session was cancelled for idleness and its pipeline execution has
    /// finished since: nothing is left of it but its entry.
    pub open spec fn doomed(self) -> bool {
        self.cancelled && !self.live()
    }

    /// No heartbeat for longer than the idle timeout.
    pub open spec fn idle(self, policy: Policy, now: u64) -> bool {
        now - self.last_heartbeat > policy.idle_timeout
    }

    /// Crashed, wanted, but given up: the restart limit is reached.
    pub open spec fn exhausted(self, policy: Policy, now: u64) -> bool {
        !self.idle(policy, now) && self.crashed() && self.restart_count >= policy.max_restarts
    }

    /// Crashed, wanted, and restarted too recently to be restarted again.
    pub open spec fn cooling(self, policy: Policy, now: u64) -> bool {
        &&& !self.idle(policy, now)
        &&& self.crashed()
        &&& self.restart_count < policy.max_restarts
        &&& now - self.last_restart_attempt < policy.cooldown
    }

    /// Crashed, wanted, and due for a replacement execution.
    pub open spec fn restarts(self, policy: Policy, now: u64) -> bool {
        &&& !self.idle(policy, now)
        &&& self.crashed()
        &&& self.restart_count < policy.max_restarts
        &&& now - self.last_restart_attempt >= policy.cooldown
    }

    /// Neither idle nor crashed nor doomed, and past the healthy window since
    /// its last restart attempt.
    pub open spec fn forgiven(self, policy: Policy, now: u64) -> bool {
        &&& !self.idle(policy, now)
        &&& !self.crashed()
        &&& !self.doomed()
        &&& now - self.last_restart_attempt > policy.healthy_window
    }

    /// The tick wants the session gone: it is idle now, was cancelled for
    /// idleness by an earlier tick, or has used up its restarts.
    pub open spec fn flagged(self, policy: Policy, now: u64) -> bool {
        self.idle(policy, now) || self.cancelled || self.exhausted(policy, now)
    }

    /// The tick removes the session: it is flagged and its execution has
    /// finished.
    pub open spec fn removed(self, policy: Policy, now: u64) -> bool {
        self.flagged(policy, now) && !self.live()
    }

    /// The session as a heartbeat at time `now` leaves it.
    pub open spec fn beaten(self, now: u64) -> SessionView {
        SessionView { last_heartbeat: now, ..self }
    }

    /// The session as the report that its execution finished leaves it.
    pub open spec fn exited(self) -> SessionView {
        if self.live() {
            SessionView {
                worker: if self.cancelled {
                    WorkerState::FinishedClean
                } else {
                    WorkerState::FinishedCrashed
                },
                ..self
            }
        } else {
            self
        }
    }

    /// The session as a tick at time `now` leaves it, where it stays.
    pub open spec fn ticked(self, policy: Policy, now: u64) -> SessionView {
        if self.idle(policy, now) {
            SessionView { cancelled: true, ..self }
        } else if self.restarts(policy, now) {
            SessionView {
                cancelled: false,
                last_heartbeat: now,
                worker: WorkerState::Active,
                restart_count: (self.restart_count + 1) as u32,
                last_restart_attempt: now,
                ..self
            }
        } else if self.forgiven(policy, now) {
            SessionView { restart_count: 0, ..self }
        } else {
            self
        }
    }

    /// What a tick at time `now` asks to be done about the session.
    pub open spec fn tick_actions(self, policy: Policy, now: u64) -> Seq<ActionView> {
        if self.idle(policy, now) {
            if self.live() {
                seq![ActionView::Cancel { name: self.name }]
            } else {
                seq![ActionView::Cancel { name: self.name }, ActionView::Remove { name: self.name }]
            }
        } else if self.doomed() {
            seq![ActionView::Remove { name: self.name }]
        } else if self.exhausted(policy, now) {
            seq![ActionView::Exhausted { name: self.name }, ActionView::Remove { name: self.name }]
        } else if self.restarts(policy, now) {
            seq![
                ActionView::Restart {
                    name: self.name,
                    input_url: self.input_url,
                    output_url: self.output_url,
                },
            ]
        } else {
            seq![]
        }
    }

    /// The session's times lie in the past and its restart count within the
    /// limit.
    pub open spec fn wf(self, policy: Policy, clock: u64) -> bool {
        &&& self.last_heartbeat <= clock
        &&& self.last_restart_attempt <= clock
        &&& self.restart_count <= policy.max_restarts
    }
}

/// One stream session: its name and addresses, and the supervisor's
/// bookkeeping of liveness and restarts.
#[derive(Debug)]
pub struct StreamSession {
    name: String,
    input_url: String,
    output_url: String,
    cancelled: bool,
    last_heartbeat: u64,
    worker: WorkerState,
    restart_count: u32,
    last_restart_attempt: u64,
}

impl View for StreamSession {
    type V = SessionView;

    closed spec fn view(&self) -> SessionView {
        SessionView {
            name: self.name@,
            input_url: self.input_url@,
            output_url: self.output_url@,
            cancelled: self.cancelled,
            last_heartbeat: self.last_heartbeat,
            worker: self.worker,
            restart_count: self.restart_count,
            last_restart_attempt: self.last_restart_attempt,
        }
    }
}

impl StreamSession {
    /// The session created by a start at time `now`.
    pub fn new(name: String, input_url: String, output_url: String, now: u64) -> (s: Self)
        ensures
            s@ == SessionView::fresh(name@, input_url@, output_url@, now),
    {
        StreamSession {
            name,
            input_url,
            output_url,
            cancelled: false,
            last_heartbeat: now,
            worker: WorkerState::Active,
            restart_count: 0,
            last_restart_attempt: now,
        }
    }

    pub fn name(&self) -> (r: &str)
        ensures
            r@ == self@.name,
    {
        self.name.as_str()
    }

    /// Whether the session is called `name`.
    pub fn is_called(&self, name: &String) -> (r: bool)
        ensures
            r == (self@.name == name@),
    {
        self.name == *name
    }

    pub fn input_url(&self) -> (r: &str)
        ensures
            r@ == self@.input_url,
    {
        self.input_url.as_str()
    }

    pub fn output_url(&self) -> (r: &str)
        ensures
            r@ == self@.output_url,
    {
        self.output_url.as_str()
    }

    pub fn is_cancelled(&self) -> (r: bool)
        ensures
            r == self@.cancelled,
    {
        self.cancelled
    }

    pub fn last_heartbeat(&self) -> (r: u64)
        ensures
            r == self@.last_heartbeat,
    {
        self.last_heartbeat
    }

    pub fn worker(&self) -> (r: WorkerState)
        ensures
            r == self@.worker,
    {
        self.worker
    }

    pub fn restart_count(&self) -> (r: u32)
        ensures
            r == self@.restart_count,
    {
        self.restart_count
    }

    pub fn last_restart_attempt(&self) -> (r: u64)
        ensures
            r == self@.last_restart_attempt,
    {
        self.last_restart_attempt
    }

    /// Records a heartbeat at time `now`.
    pub fn beat(&mut self, now: u64)
        ensures
            final(self)@ == old(self)@.beaten(now),
    {
        self.last_heartbeat = now;
    }

    /// Records that the session's pipeline execution has finished.
    pub fn exit(&mut self)
        ensures
            final(self)@ == old(self)@.exited(),
    {
        if let WorkerState::Active = self.worker {
            self.worker = if self.cancelled {
                WorkerState::FinishedClean
            } else {
                WorkerState::FinishedCrashed
            };
        }
    }
}

/// What the supervisor asks of its caller: the caller owns the pipeline
/// executions and their cancellation handles.
#[derive(Clone, Debug, PartialEq, Eq)]
pub enum Action {
    /// Signal cancellation on the session's handle.
    Cancel { name: String },
    /// Start a replacement execution, bound to a fresh cancellation handle.
    Restart { name: String, input_url: String, output_url: String },
    /// The session has used up its restarts and is given up.
    Exhausted { name: String },
    /// The session has left the table: drop its handles.
    Remove { name: String },
}

impl View for Action {
    type V = ActionView;

    open spec fn view(&self) -> ActionView {
        match self {
            Action::Cancel { name } => ActionView::Cancel { name: name@ },
            Action::Restart { name, input_url, output_url } => ActionView::Restart {
                name: name@,
                input_url: input_url@,
                output_url: output_url@,
            },
            Action::Exhausted { name } => ActionView::Exhausted { name: name@ },
            Action::Remove { name } => ActionView::Remove { name: name@ },
        }
    }
}

/// The views of a list of actions.
pub open spec fn action_views(actions: Seq<Action>) -> Seq<ActionView> {
    actions.map_values(|a: Action| a@)
}

/// The views of a list of sessions.
pub open spec fn session_views(sessions: Seq<StreamSession>) -> Seq<SessionView> {
    sessions.map_values(|s: StreamSession| s@)
}

impl StreamSession {
    /// Applies one tick at time `now` to the session: appends what the tick
    /// asks to be done about it to `actions`, and returns the session as the
    /// tick leaves it, or `None` where the tick removes it.
    pub fn tick(self, policy: &Policy, now: u64, actions: &mut Vec<Action>) -> (r: Option<
        StreamSession,
    >)
        ensures
            action_views(final(actions)@) == action_views(old(actions)@) + self@.tick_actions(
                *policy,
                now,
            ),
            self@.removed(*policy, now) ==> r is None,
            !self@.removed(*policy, now) ==> r is Some && r->0@ == self@.ticked(*policy, now),
    {
        let ghost before = action_views(actions@);
        let ghost name = self@.name;
        let mut s = self;
        let finished = match s.worker {
            WorkerState::Active => false,
            _ => true,
        };
        let crashed = match s.worker {
            WorkerState::FinishedCrashed => !s.cancelled,
            _ => false,
        };
        let since_heartbeat = if now >= s.last_heartbeat {
            now - s.last_heartbeat
        } else {
            0
        };
        let since_restart = if now >= s.last_restart_attempt {
            now - s.last_restart_attempt
        } else {
            0
        };
        let restarted_later = now < s.last_restart_attempt;
        if since_heartbeat > policy.idle_timeout {
            actions.push(Action::Cancel { name: s.name.clone() });
            proof {
                assert(action_views(actions@) == before.push(ActionView::Cancel { name }));
            }
            if finished {
                let ghost mid = action_views(actions@);
                actions.push(Action::Remove { name: s.name });
                proof {
                    assert(action_views(actions@) == mid.push(ActionView::Remove { name }));
                    assert(action_views(actions@) == before + self@.tick_actions(*policy, now));
                }
                None
            } else {
                proof {
                    assert(action_views(actions@) == before + self@.tick_actions(*policy, now));
                }
                s.cancelled = true;
                Some(s)
            }
        } else if s.cancelled && finished {
            actions.push(Action::Remove { name: s.name });
            proof {
                assert(action_views(actions@) == before.push(ActionView::Remove { name }));
                assert(action_views(actions@) == before + self@.tick_actions(*policy, now));
            }
            None
        } else if crashed {
            if s.restart_count >= policy.max_restarts {
                actions.push(Action::Exhausted { name: s.name.clone() });
                let ghost mid = action_views(actions@);
                actions.push(Action::Remove { name: s.name });
                proof {
                    assert(mid == before.push(ActionView::Exhausted { name }));
                    assert(action_views(actions@) == mid.push(ActionView::Remove { name }));
                    assert(action_views(actions@) == before + self@.tick_actions(*policy, now));
                }
                None
            } else if restarted_later || since_restart < policy.cooldown {
                proof {
                    assert(action_views(actions@) == before + self@.tick_actions(*policy, now));
                }
                Some(s)
            } else {
                actions.push(
                    Action::Restart {
                        name: s.name.clone(),
                        input_url: s.input_url.clone(),
                        output_url: s.output_url.clone(),
                    },
                );
                proof {
                    assert(action_views(actions@) == before.push(
                        ActionView::Restart {
                            name,
                            input_url: self@.input_url,
                            output_url: self@.output_url,
                        },
                    ));
                    assert(action_views(actions@) == before + self@.tick_actions(*policy, now));
                }
                s.cancelled = false;
                s.last_heartbeat = now;
                s.worker = WorkerState::Active;
                s.restart_count = s.restart_count + 1;
                s.last_restart_attempt = now;
                Some(s)
            }
        } else {
            proof {
                assert(action_views(actions@) == before + self@.tick_actions(*policy, now));
            }
            if since_restart > policy.healthy_window {
                s.restart_count = 0;
            }
            Some(s)
        }
    }
}

} // verus!
