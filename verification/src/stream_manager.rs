//! The supervisor: the table of stream sessions, with start, heartbeat and
//! the periodic health tick. It decides; its caller owns the pipeline
//! executions, reports when one has finished and carries out what the
//! supervisor asks.

use crate::lookup::{index_of, lemma_index_of, lemma_index_of_found};
use crate::session::{
    action_views, session_views, Action, ActionView, Policy, SessionView, StreamSession,
};
use vstd::prelude::*;

verus! {

/// No two sessions share a name.
pub open spec fn distinct_names(sessions: Seq<SessionView>) -> bool {
    forall|i: int, j: int| 0 <= i < j < sessions.len() ==> sessions[i].name != sessions[j].name
}

/// The names of the sessions, in table order.
pub open spec fn names_of(sessions: Seq<SessionView>) -> Seq<Seq<char>> {
    sessions.map_values(|s: SessionView| s.name)
}

/// Index of the first session called `name`, or the number of sessions where
/// there is none.
pub open spec fn position(sessions: Seq<SessionView>, name: Seq<char>) -> int {
    index_of(names_of(sessions), name)
}

/// The sessions that a tick at time `now` leaves, in their order.
pub open spec fn tick_sessions(policy: Policy, sessions: Seq<SessionView>, now: u64) -> Seq<
    SessionView,
>
    decreases sessions.len(),
{
    if sessions.len() == 0 {
        seq![]
    } else {
        let head = tick_sessions(policy, sessions.drop_last(), now);
        if sessions.last().removed(policy, now) {
            head
        } else {
            head.push(sessions.last().ticked(policy, now))
        }
    }
}

/// What a tick at time `now` asks to be done, session by session.
pub open spec fn tick_actions(policy: Policy, sessions: Seq<SessionView>, now: u64) -> Seq<
    ActionView,
>
    decreases sessions.len(),
{
    if sessions.len() == 0 {
        seq![]
    } else {
        tick_actions(policy, sessions.drop_last(), now) + sessions.last().tick_actions(policy, now)
    }
}

/// The later of two times.
pub open spec fn later(a: u64, b: u64) -> u64 {
    if a >= b {
        a
    } else {
        b
    }
}

/// What a start decides.
#[derive(Clone, Copy, Debug, PartialEq, Eq, Structural)]
pub enum StartDecision {
    /// A live execution exists: its session's liveness was refreshed.
    Refresh,
    /// A session was created: start a pipeline execution for it, bound to a
    /// fresh cancellation handle.
    Spawn,
}

/// The supervisor as a mathematical value.
pub struct ManagerView {
    pub policy: Policy,
    /// The latest time the supervisor has seen.
    pub clock: u64,
    pub sessions: Seq<SessionView>,
}

impl ManagerView {
    pub open spec fn wf(self) -> bool {
        &&& distinct_names(self.sessions)
        &&& forall|i: int|
            0 <= i < self.sessions.len() ==> (#[trigger] self.sessions[i]).wf(self.policy, self.clock)
    }

    /// A session called `name` is in the table.
    pub open spec fn knows(self, name: Seq<char>) -> bool {
        position(self.sessions, name) < self.sessions.len()
    }

    /// The session called `name`.
    pub open spec fn session(self, name: Seq<char>) -> SessionView
        recommends
            self.knows(name),
    {
        self.sessions[position(self.sessions, name)]
    }

    /// A session called `name` is in the table and its pipeline execution
    /// has not been reported finished.
    pub open spec fn runs(self, name: Seq<char>) -> bool {
        self.knows(name) && self.session(name).live()
    }

    /// The time the supervisor takes an operation at `now` to happen: its
    /// clock never goes back.
    pub open spec fn time(self, now: u64) -> u64 {
        later(self.clock, now)
    }

    /// What a start for `name` decides.
    pub open spec fn start_decision(self, name: Seq<char>) -> StartDecision {
        if self.runs(name) {
            StartDecision::Refresh
        } else {
            StartDecision::Spawn
        }
    }

    /// The supervisor after a start at time `now`: a live session has its
    /// liveness refreshed, a finished one is replaced by a fresh session, an
    /// unknown name gets a fresh session at the end of the table.
    pub open spec fn started(
        self,
        name: Seq<char>,
        input_url: Seq<char>,
        output_url: Seq<char>,
        now: u64,
    ) -> ManagerView {
        let t = self.time(now);
        let p = position(self.sessions, name);
        let sessions = if self.runs(name) {
            self.sessions.update(p, self.sessions[p].beaten(t))
        } else if self.knows(name) {
            self.sessions.update(p, SessionView::fresh(name, input_url, output_url, t))
        } else {
            self.sessions.push(SessionView::fresh(name, input_url, output_url, t))
        };
        ManagerView { clock: t, sessions, ..self }
    }

    /// The supervisor after a heartbeat for `name` at time `now`.
    pub open spec fn beaten(self, name: Seq<char>, now: u64) -> ManagerView {
        if self.knows(name) {
            let t = self.time(now);
            let p = position(self.sessions, name);
            ManagerView { clock: t, sessions: self.sessions.update(p, self.sessions[p].beaten(t)), ..self }
        } else {
            self
        }
    }

    /// The supervisor after the report that the pipeline execution of `name`
    /// has finished.
    pub open spec fn exited(self, name: Seq<char>) -> ManagerView {
        if self.knows(name) {
            let p = position(self.sessions, name);
            ManagerView { sessions: self.sessions.update(p, self.sessions[p].exited()), ..self }
        } else {
            self
        }
    }

    /// The supervisor after a health tick at time `now`.
    pub open spec fn ticked(self, now: u64) -> ManagerView {
        let t = self.time(now);
        ManagerView { clock: t, sessions: tick_sessions(self.policy, self.sessions, t), ..self }
    }

    /// What a health tick at time `now` asks to be done.
    pub open spec fn tick_actions(self, now: u64) -> Seq<ActionView> {
        tick_actions(self.policy, self.sessions, self.time(now))
    }
}

/// `position` gives an index up to the number of sessions; below it no
/// session has the name, and at it, where it is an index, the session has.
pub proof fn lemma_position(sessions: Seq<SessionView>, name: Seq<char>)
    ensures
        0 <= position(sessions, name) <= sessions.len(),
        forall|j: int| 0 <= j < position(sessions, name) ==> sessions[j].name != name,
        position(sessions, name) < sessions.len() ==> sessions[position(sessions, name)].name == name,
{
    let names = names_of(sessions);
    lemma_index_of(names, name);
    assert forall|j: int| 0 <= j < position(sessions, name) implies sessions[j].name != name by {
        assert(names[j] == sessions[j].name);
    }
}

/// An index whose session has the name, with no such session before it, is
/// the name's position; so is the number of sessions where none has it.
pub proof fn lemma_position_found(sessions: Seq<SessionView>, name: Seq<char>, at: int)
    requires
        0 <= at <= sessions.len(),
        forall|j: int| 0 <= j < at ==> sessions[j].name != name,
        at < sessions.len() ==> sessions[at].name == name,
    ensures
        position(sessions, name) == at,
{
    lemma_index_of_found(names_of(sessions), name, at);
}

/// With distinct names, every session sits at its name's position.
pub proof fn lemma_position_of_member(sessions: Seq<SessionView>, i: int)
    requires
        distinct_names(sessions),
        0 <= i < sessions.len(),
    ensures
        position(sessions, sessions[i].name) == i,
{
    lemma_position_found(sessions, sessions[i].name, i);
}

/// Session `i` survives a tick at time `now` as `s`.
pub open spec fn survives_as(
    policy: Policy,
    sessions: Seq<SessionView>,
    now: u64,
    i: int,
    s: SessionView,
) -> bool {
    0 <= i < sessions.len() && !sessions[i].removed(policy, now) && s == sessions[i].ticked(
        policy,
        now,
    )
}

/// `s` is the session at index `k`.
pub open spec fn sits_at(sessions: Seq<SessionView>, k: int, s: SessionView) -> bool {
    0 <= k < sessions.len() && sessions[k] == s
}

/// Every session that a tick leaves is one of the sessions before it, as
/// the tick changes it; the lemma gives that session's index.
pub proof fn lemma_tick_source(policy: Policy, sessions: Seq<SessionView>, now: u64, k: int) -> (i:
    int)
    requires
        0 <= k < tick_sessions(policy, sessions, now).len(),
    ensures
        survives_as(policy, sessions, now, i, tick_sessions(policy, sessions, now)[k]),
    decreases sessions.len(),
{
    let init = sessions.drop_last();
    let head = tick_sessions(policy, init, now);
    if k < head.len() {
        let i = lemma_tick_source(policy, init, now, k);
        assert(init[i] == sessions[i]);
        i
    } else {
        sessions.len() - 1
    }
}

/// Every session that a tick does not remove is left by it, as the tick
/// changes it; the lemma gives its index among the sessions left.
pub proof fn lemma_tick_place(policy: Policy, sessions: Seq<SessionView>, now: u64, i: int) -> (k:
    int)
    requires
        0 <= i < sessions.len(),
        !sessions[i].removed(policy, now),
    ensures
        sits_at(tick_sessions(policy, sessions, now), k, sessions[i].ticked(policy, now)),
    decreases sessions.len(),
{
    let init = sessions.drop_last();
    let head = tick_sessions(policy, init, now);
    if i < init.len() {
        assert(init[i] == sessions[i]);
        let k = lemma_tick_place(policy, init, now, i);
        k
    } else {
        tick_sessions(policy, sessions, now).len() - 1
    }
}

/// A tick keeps names distinct.
pub proof fn lemma_tick_keeps_distinct(policy: Policy, sessions: Seq<SessionView>, now: u64)
    requires
        distinct_names(sessions),
    ensures
        distinct_names(tick_sessions(policy, sessions, now)),
    decreases sessions.len(),
{
    let out = tick_sessions(policy, sessions, now);
    if sessions.len() > 0 {
        let init = sessions.drop_last();
        let head = tick_sessions(policy, init, now);
        assert(distinct_names(init)) by {
            assert forall|i: int, j: int| 0 <= i < j < init.len() implies init[i].name
                != init[j].name by {
                assert(init[i] == sessions[i] && init[j] == sessions[j]);
            }
        }
        lemma_tick_keeps_distinct(policy, init, now);
        assert forall|a: int, b: int| 0 <= a < b < out.len() implies out[a].name != out[b].name by {
            if b < head.len() {
                assert(out[a] == head[a] && out[b] == head[b]);
            } else {
                assert(out[a] == head[a]);
                let i = lemma_tick_source(policy, init, now, a);
                assert(init[i] == sessions[i]);
                assert(sessions[i].name != sessions[sessions.len() - 1].name);
                assert(out[b].name == sessions[sessions.len() - 1].name);
                assert(head[a].name == init[i].name);
            }
        }
    }
}

/// A tick keeps every session within the limits that the supervisor's
/// well-formedness asks for.
pub proof fn lemma_tick_keeps_limits(policy: Policy, sessions: Seq<SessionView>, clock: u64, now: u64)
    requires
        clock <= now,
        forall|i: int| 0 <= i < sessions.len() ==> (#[trigger] sessions[i]).wf(policy, clock),
    ensures
        forall|k: int|
            0 <= k < tick_sessions(policy, sessions, now).len() ==> (#[trigger] tick_sessions(
                policy,
                sessions,
                now,
            )[k]).wf(policy, now),
{
    let out = tick_sessions(policy, sessions, now);
    assert forall|k: int| 0 <= k < out.len() implies (#[trigger] out[k]).wf(policy, now) by {
        let i = lemma_tick_source(policy, sessions, now, k);
        assert(sessions[i].wf(policy, clock));
    }
}

/// The table of stream sessions and the rules that start, refresh, restart
/// and evict them.
#[derive(Debug)]
pub struct StreamManager {
    policy: Policy,
    clock: u64,
    sessions: Vec<StreamSession>,
}

impl View for StreamManager {
    type V = ManagerView;

    closed spec fn view(&self) -> ManagerView {
        ManagerView {
            policy: self.policy,
            clock: self.clock,
            sessions: session_views(self.sessions@),
        }
    }
}

impl StreamManager {
    /// An empty table under the standard policy.
    pub fn new() -> (m: Self)
        ensures
            m@.wf(),
            m@.policy == Policy::standard(),
            m@.clock == 0,
            m@.sessions.len() == 0,
    {
        StreamManager::with_policy(Policy::default())
    }

    /// An empty table under the given policy.
    pub fn with_policy(policy: Policy) -> (m: Self)
        ensures
            m@.wf(),
            m@.policy == policy,
            m@.clock == 0,
            m@.sessions.len() == 0,
    {
        StreamManager { policy, clock: 0, sessions: Vec::new() }
    }

    pub fn policy(&self) -> (p: Policy)
        ensures
            p == self@.policy,
    {
        self.policy
    }

    /// The latest time the supervisor has seen.
    pub fn clock(&self) -> (t: u64)
        ensures
            t == self@.clock,
    {
        self.clock
    }

    /// Number of sessions in the table.
    pub fn len(&self) -> (n: usize)
        ensures
            n == self@.sessions.len(),
    {
        self.sessions.len()
    }

    fn find(&self, name: &String) -> (at: usize)
        ensures
            at == position(self@.sessions, name@),
            at <= self@.sessions.len(),
            at < self@.sessions.len() ==> self.sessions@[at as int]@.name == name@,
    {
        let mut i: usize = 0;
        while i < self.sessions.len()
            invariant
                i <= self.sessions.len(),
                forall|j: int| 0 <= j < i ==> self@.sessions[j].name != name@,
            decreases self.sessions.len() - i,
        {
            if self.sessions[i].is_called(name) {
                proof {
                    lemma_position_found(self@.sessions, name@, i as int);
                }
                return i;
            }
            i += 1;
        }
        proof {
            lemma_position_found(self@.sessions, name@, i as int);
        }
        i
    }

    fn time(&self, now: u64) -> (t: u64)
        ensures
            t == self@.time(now),
    {
        if self.clock >= now {
            self.clock
        } else {
            now
        }
    }

    /// The session called `name`, where the table has one.
    pub fn session(&self, name: &str) -> (r: Option<&StreamSession>)
        ensures
            r is Some <==> self@.knows(name@),
            r is Some ==> r->0@ == self@.session(name@),
    {
        let key = name.to_owned();
        let at = self.find(&key);
        if at < self.sessions.len() {
            Some(&self.sessions[at])
        } else {
            None
        }
    }

    /// Start of the stream `name`. Where its pipeline execution is live the
    /// session's liveness is refreshed and nothing is started; otherwise a
    /// fresh session takes the place of the finished one, or joins the
    /// table, and the caller is asked to start its execution.
    pub fn start_stream(&mut self, name: String, input_url: String, output_url: String, now: u64) -> (d:
        StartDecision)
        ensures
            old(self)@.wf() ==> final(self)@.wf(),
            final(self)@ == old(self)@.started(name@, input_url@, output_url@, now),
            d == old(self)@.start_decision(name@),
    {
        let t = self.time(now);
        let at = self.find(&name);
        let ghost before = self@;
        if at < self.sessions.len() {
            let live = match self.sessions[at].worker() {
                crate::session::WorkerState::Active => true,
                _ => false,
            };
            if live {
                self.sessions[at].beat(t);
                self.clock = t;
                proof {
                    assert(self@.sessions == before.sessions.update(
                        at as int,
                        before.sessions[at as int].beaten(t),
                    ));
                    if before.wf() {
                        lemma_update_keeps_wf(before, at as int, before.sessions[at as int].beaten(t), t);
                    }
                }
                StartDecision::Refresh
            } else {
                let ghost fresh = SessionView::fresh(name@, input_url@, output_url@, t);
                self.sessions.set(at, StreamSession::new(name, input_url, output_url, t));
                self.clock = t;
                proof {
                    assert(self@.sessions == before.sessions.update(at as int, fresh));
                    if before.wf() {
                        lemma_update_keeps_wf(before, at as int, fresh, t);
                    }
                }
                StartDecision::Spawn
            }
        } else {
            let ghost fresh = SessionView::fresh(name@, input_url@, output_url@, t);
            self.sessions.push(StreamSession::new(name, input_url, output_url, t));
            self.clock = t;
            proof {
                lemma_position(before.sessions, fresh.name);
                assert(self@.sessions == before.sessions.push(fresh));
                if before.wf() {
                    assert forall|i: int| 0 <= i < self@.sessions.len() implies (
                    #[trigger] self@.sessions[i]).wf(self@.policy, self@.clock) by {
                        if i < before.sessions.len() {
                            assert(before.sessions[i].wf(before.policy, before.clock));
                        }
                    }
                }
            }
            StartDecision::Spawn
        }
    }

    /// Heartbeat for the stream `name`: refreshes the session's liveness
    /// where the table has it, and changes nothing where it has not.
    pub fn heartbeat(&mut self, name: &str, now: u64) -> (found: bool)
        ensures
            old(self)@.wf() ==> final(self)@.wf(),
            found == old(self)@.knows(name@),
            final(self)@ == old(self)@.beaten(name@, now),
    {
        let key = name.to_owned();
        let at = self.find(&key);
        let ghost before = self@;
        if at < self.sessions.len() {
            let t = self.time(now);
            self.sessions[at].beat(t);
            self.clock = t;
            proof {
                assert(self@.sessions == before.sessions.update(
                    at as int,
                    before.sessions[at as int].beaten(t),
                ));
                if before.wf() {
                    lemma_update_keeps_wf(before, at as int, before.sessions[at as int].beaten(t), t);
                }
            }
            true
        } else {
            false
        }
    }

    /// Report that the pipeline execution of the stream `name` has finished:
    /// a live session becomes finished, cleanly where it had been cancelled
    /// and crashed where it had not. Answers whether the table has the name.
    pub fn worker_finished(&mut self, name: &str) -> (known: bool)
        ensures
            old(self)@.wf() ==> final(self)@.wf(),
            known == old(self)@.knows(name@),
            final(self)@ == old(self)@.exited(name@),
    {
        let key = name.to_owned();
        let at = self.find(&key);
        let ghost before = self@;
        if at < self.sessions.len() {
            self.sessions[at].exit();
            proof {
                assert(self@.sessions == before.sessions.update(
                    at as int,
                    before.sessions[at as int].exited(),
                ));
                if before.wf() {
                    lemma_update_keeps_wf(before, at as int, before.sessions[at as int].exited(), before.clock);
                }
            }
            true
        } else {
            false
        }
    }

    /// The health tick: cancels idle sessions, restarts crashed ones that
    /// are still wanted, forgives old crashes, and removes the sessions that
    /// are to go and whose execution has finished. Returns what the caller
    /// is to do, session by session in table order.
    pub fn monitor_streams(&mut self, now: u64) -> (actions: Vec<Action>)
        ensures
            old(self)@.wf() ==> final(self)@.wf(),
            final(self)@ == old(self)@.ticked(now),
            action_views(actions@) == old(self)@.tick_actions(now),
    {
        let t = self.time(now);
        let ghost before = self@;
        let policy = self.policy;
        let mut sessions: Vec<StreamSession> = Vec::new();
        core::mem::swap(&mut self.sessions, &mut sessions);
        let ghost all = sessions@;
        let mut kept: Vec<StreamSession> = Vec::new();
        let mut actions: Vec<Action> = Vec::new();
        proof {
            assert(before.sessions.take(0) == Seq::<SessionView>::empty());
            assert(session_views(kept@) == Seq::<SessionView>::empty());
            assert(action_views(actions@) == Seq::<ActionView>::empty());
        }
        for s in it: sessions
            invariant
                it.seq() == all,
                session_views(all) == before.sessions,
                policy == before.policy,
                session_views(kept@) == tick_sessions(
                    before.policy,
                    before.sessions.take(it.index() as int),
                    t,
                ),
                action_views(actions@) == tick_actions(
                    before.policy,
                    before.sessions.take(it.index() as int),
                    t,
                ),
        {
            let ghost i = it.index() as int;
            let ghost upto = before.sessions.take(i + 1);
            let ghost kept_before = session_views(kept@);
            proof {
                assert(upto.drop_last() == before.sessions.take(i));
                assert(upto.last() == before.sessions[i]);
                assert(before.sessions[i] == s@);
            }
            match s.tick(&policy, t, &mut actions) {
                Some(s) => {
                    kept.push(s);
                    proof {
                        assert(session_views(kept@) == kept_before.push(s@));
                    }
                },
                None => {},
            }
        }
        proof {
            assert(before.sessions.take(all.len() as int) == before.sessions);
            if before.wf() {
                lemma_tick_keeps_distinct(before.policy, before.sessions, t);
                lemma_tick_keeps_limits(before.policy, before.sessions, before.clock, t);
            }
        }
        self.sessions = kept;
        self.clock = t;
        actions
    }
}

/// Replacing a session by one of the same name that is within the limits
/// keeps the supervisor well-formed, also where its clock moves on.
pub proof fn lemma_update_keeps_wf(v: ManagerView, at: int, s: SessionView, clock: u64)
    requires
        v.wf(),
        0 <= at < v.sessions.len(),
        s.name == v.sessions[at].name,
        v.clock <= clock,
        s.wf(v.policy, clock),
    ensures
        (ManagerView { clock, sessions: v.sessions.update(at, s), ..v }).wf(),
{
    let w = ManagerView { clock, sessions: v.sessions.update(at, s), ..v };
    assert forall|i: int| 0 <= i < w.sessions.len() implies (#[trigger] w.sessions[i]).wf(
        w.policy,
        w.clock,
    ) by {
        if i != at {
            assert(v.sessions[i].wf(v.policy, v.clock));
        }
    }
}

/// Every action that a tick asks for is asked about one of the sessions; the
/// lemma gives that session's index and the action's index among those
/// asked about it.
pub proof fn lemma_action_source(policy: Policy, sessions: Seq<SessionView>, now: u64, m: int) -> (r:
    (int, int))
    requires
        0 <= m < tick_actions(policy, sessions, now).len(),
    ensures
        0 <= r.0 < sessions.len(),
        0 <= r.1 < sessions[r.0].tick_actions(policy, now).len(),
        tick_actions(policy, sessions, now)[m] == sessions[r.0].tick_actions(policy, now)[r.1],
    decreases sessions.len(),
{
    let init = sessions.drop_last();
    let head = tick_actions(policy, init, now);
    if m < head.len() {
        let r = lemma_action_source(policy, init, now, m);
        assert(init[r.0] == sessions[r.0]);
        r
    } else {
        (sessions.len() - 1, m - head.len())
    }
}

/// Every action asked about a session is among those that the tick asks
/// for; the lemma gives its index.
pub proof fn lemma_action_place(policy: Policy, sessions: Seq<SessionView>, now: u64, i: int, j: int) -> (m:
    int)
    requires
        0 <= i < sessions.len(),
        0 <= j < sessions[i].tick_actions(policy, now).len(),
    ensures
        0 <= m < tick_actions(policy, sessions, now).len(),
        tick_actions(policy, sessions, now)[m] == sessions[i].tick_actions(policy, now)[j],
    decreases sessions.len(),
{
    let init = sessions.drop_last();
    let head = tick_actions(policy, init, now);
    if i < init.len() {
        assert(init[i] == sessions[i]);
        let m = lemma_action_place(policy, init, now, i, j);
        m
    } else {
        head.len() + j
    }
}

/// Every action asked about a session names that session.
pub proof fn lemma_actions_name_session(policy: Policy, s: SessionView, now: u64, j: int)
    requires
        0 <= j < s.tick_actions(policy, now).len(),
    ensures
        s.tick_actions(policy, now)[j].name() == s.name,
{
}

/// What a tick does to the session called `name`: it stays known exactly
/// where the tick does not remove it, and is then as the tick changes it;
/// a name unknown before the tick is unknown after it.
pub proof fn lemma_tick_session(v: ManagerView, now: u64, name: Seq<char>)
    requires
        v.wf(),
    ensures
        v.ticked(now).wf(),
        v.ticked(now).knows(name) <==> v.knows(name) && !v.session(name).removed(
            v.policy,
            v.time(now),
        ),
        v.ticked(now).knows(name) ==> v.ticked(now).session(name) == v.session(name).ticked(
            v.policy,
            v.time(now),
        ),
{
    let t = v.time(now);
    let w = v.ticked(now);
    lemma_tick_keeps_distinct(v.policy, v.sessions, t);
    lemma_tick_keeps_limits(v.policy, v.sessions, v.clock, t);
    lemma_position(v.sessions, name);
    lemma_position(w.sessions, name);
    let p = position(v.sessions, name);
    let q = position(w.sessions, name);
    if q < w.sessions.len() {
        let i = lemma_tick_source(v.policy, v.sessions, t, q);
        assert(v.sessions[i].name == name);
        lemma_position_of_member(v.sessions, i);
    } else if p < v.sessions.len() && !v.sessions[p].removed(v.policy, t) {
        let k = lemma_tick_place(v.policy, v.sessions, t, p);
        assert(w.sessions[k].name == name);
    }
}

/// The actions of a tick that name `name` are those asked about the session
/// of that name, and there are none where the name is unknown.
pub proof fn lemma_tick_asks(v: ManagerView, now: u64, a: ActionView)
    requires
        v.wf(),
    ensures
        v.tick_actions(now).contains(a) <==> v.knows(a.name()) && v.session(a.name()).tick_actions(
            v.policy,
            v.time(now),
        ).contains(a),
{
    let t = v.time(now);
    let all = v.tick_actions(now);
    lemma_position(v.sessions, a.name());
    let p = position(v.sessions, a.name());
    if all.contains(a) {
        let m = choose|m: int| 0 <= m < all.len() && all[m] == a;
        let r = lemma_action_source(v.policy, v.sessions, t, m);
        lemma_actions_name_session(v.policy, v.sessions[r.0], t, r.1);
        lemma_position_of_member(v.sessions, r.0);
        assert(v.session(a.name()).tick_actions(v.policy, t)[r.1] == a);
    }
    if p < v.sessions.len() && v.sessions[p].tick_actions(v.policy, t).contains(a) {
        let own = v.sessions[p].tick_actions(v.policy, t);
        let j = choose|j: int| 0 <= j < own.len() && own[j] == a;
        let m = lemma_action_place(v.policy, v.sessions, t, p, j);
        assert(all[m] == a);
    }
}

/// Two tables of the same length whose sessions have the same names, index
/// by index, find every name at the same position.
pub proof fn lemma_position_by_names(a: Seq<SessionView>, b: Seq<SessionView>, name: Seq<char>)
    requires
        a.len() == b.len(),
        forall|i: int| 0 <= i < a.len() ==> a[i].name == b[i].name,
    ensures
        position(a, name) == position(b, name),
{
    lemma_position(a, name);
    lemma_position_found(b, name, position(a, name));
}

/// What a start does to the table: the started name is known afterwards,
/// with its liveness refreshed where it ran and as a fresh session where it
/// did not; every other session is as it was.
pub proof fn lemma_start_session(
    v: ManagerView,
    name: Seq<char>,
    input_url: Seq<char>,
    output_url: Seq<char>,
    now: u64,
    other: Seq<char>,
)
    requires
        v.wf(),
    ensures
        v.started(name, input_url, output_url, now).wf(),
        v.started(name, input_url, output_url, now).knows(other) <==> v.knows(other) || other
            == name,
        other != name && v.knows(other) ==> v.started(name, input_url, output_url, now).session(
            other,
        ) == v.session(other),
        v.started(name, input_url, output_url, now).session(name) == if v.runs(name) {
            v.session(name).beaten(v.time(now))
        } else {
            SessionView::fresh(name, input_url, output_url, v.time(now))
        },
        v.started(name, input_url, output_url, now).sessions.len() == if v.knows(name) {
            v.sessions.len()
        } else {
            v.sessions.len() + 1
        },
{
    let t = v.time(now);
    let w = v.started(name, input_url, output_url, now);
    let p = position(v.sessions, name);
    let fresh = SessionView::fresh(name, input_url, output_url, t);
    lemma_position(v.sessions, name);
    lemma_position(v.sessions, other);
    if v.knows(name) {
        let s = if v.runs(name) {
            v.sessions[p].beaten(t)
        } else {
            fresh
        };
        assert(w.sessions == v.sessions.update(p, s));
        lemma_update_keeps_wf(v, p, s, t);
        lemma_position_by_names(v.sessions, w.sessions, other);
        lemma_position_by_names(v.sessions, w.sessions, name);
    } else {
        assert(w.sessions == v.sessions.push(fresh));
        assert forall|i: int| 0 <= i < w.sessions.len() implies (#[trigger] w.sessions[i]).wf(
            w.policy,
            w.clock,
        ) by {
            if i < v.sessions.len() {
                assert(v.sessions[i].wf(v.policy, v.clock));
            }
        }
        lemma_position_found(w.sessions, name, p);
        if other != name {
            lemma_position_found(
                w.sessions,
                other,
                if v.knows(other) {
                    position(v.sessions, other)
                } else {
                    w.sessions.len() as int
                },
            );
        }
    }
}

/// What a heartbeat does to the table: the same names are known, the named
/// session has its liveness refreshed, every other session is as it was.
pub proof fn lemma_heartbeat_session(v: ManagerView, name: Seq<char>, now: u64, other: Seq<char>)
    requires
        v.wf(),
    ensures
        v.beaten(name, now).wf(),
        v.beaten(name, now).knows(other) <==> v.knows(other),
        v.knows(other) ==> v.beaten(name, now).session(other) == if other == name {
            v.session(name).beaten(v.time(now))
        } else {
            v.session(other)
        },
{
    let t = v.time(now);
    let w = v.beaten(name, now);
    let p = position(v.sessions, name);
    lemma_position(v.sessions, name);
    lemma_position(v.sessions, other);
    if v.knows(name) {
        lemma_update_keeps_wf(v, p, v.sessions[p].beaten(t), t);
        lemma_position_by_names(v.sessions, w.sessions, other);
    }
}

/// What the report of a finished execution does to the table: the same
/// names are known, the named session is marked finished, every other
/// session is as it was.
pub proof fn lemma_exit_session(v: ManagerView, name: Seq<char>, other: Seq<char>)
    requires
        v.wf(),
    ensures
        v.exited(name).wf(),
        v.exited(name).knows(other) <==> v.knows(other),
        v.knows(other) ==> v.exited(name).session(other) == if other == name {
            v.session(name).exited()
        } else {
            v.session(other)
        },
{
    let w = v.exited(name);
    let p = position(v.sessions, name);
    lemma_position(v.sessions, name);
    lemma_position(v.sessions, other);
    if v.knows(name) {
        lemma_update_keeps_wf(v, p, v.sessions[p].exited(), v.clock);
        lemma_position_by_names(v.sessions, w.sessions, other);
    }
}

} // verus!
