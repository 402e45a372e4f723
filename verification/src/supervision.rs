//! What the supervisor guarantees of every table and every time: one
//! execution per stream, liveness that never goes back, eviction of idle
//! sessions, throttled and bounded restarts, and forgiveness after a healthy
//! run.

use crate::session::{ActionView, SessionView, WorkerState};
use crate::stream_manager::{
    lemma_exit_session, lemma_heartbeat_session, lemma_position, lemma_start_session,
    lemma_tick_asks, lemma_tick_session, ManagerView, StartDecision,
};
use vstd::prelude::*;

verus! {

/// A start leaves the stream with a live execution, so a second start of
/// the same name, whatever its addresses and time, asks for no execution
/// and adds no session.
pub proof fn lemma_second_start_spawns_nothing(
    v: ManagerView,
    name: Seq<char>,
    input_url: Seq<char>,
    output_url: Seq<char>,
    now: u64,
    input_url2: Seq<char>,
    output_url2: Seq<char>,
    now2: u64,
)
    requires
        v.wf(),
    ensures
        v.started(name, input_url, output_url, now).runs(name),
        v.started(name, input_url, output_url, now).start_decision(name) == StartDecision::Refresh,
        v.started(name, input_url, output_url, now).started(
            name,
            input_url2,
            output_url2,
            now2,
        ).sessions.len() == v.started(name, input_url, output_url, now).sessions.len(),
        v.started(name, input_url, output_url, now).started(
            name,
            input_url2,
            output_url2,
            now2,
        ).runs(name),
{
    let w = v.started(name, input_url, output_url, now);
    lemma_start_session(v, name, input_url, output_url, now, name);
    lemma_start_session(w, name, input_url2, output_url2, now2, name);
}

/// While a stream's execution is live, nothing asks for another one and
/// nothing takes its session from the table: a start only refreshes it, a
/// heartbeat and a tick keep it live, the tick asks for no restart of it and
/// does not remove it. Only the report that the execution has finished ends
/// its liveness.
pub proof fn lemma_live_execution_is_the_only_one(
    v: ManagerView,
    name: Seq<char>,
    input_url: Seq<char>,
    output_url: Seq<char>,
    other: Seq<char>,
    now: u64,
)
    requires
        v.wf(),
        v.runs(name),
    ensures
        v.start_decision(name) == StartDecision::Refresh,
        v.started(name, input_url, output_url, now).runs(name),
        v.started(name, input_url, output_url, now).sessions.len() == v.sessions.len(),
        v.started(other, input_url, output_url, now).runs(name),
        v.beaten(other, now).runs(name),
        other != name ==> v.exited(other).runs(name),
        v.ticked(now).runs(name),
        forall|a: ActionView|
            #[trigger] v.tick_actions(now).contains(a) && a.name() == name ==> a is Cancel,
{
    lemma_start_session(v, name, input_url, output_url, now, name);
    lemma_start_session(v, other, input_url, output_url, now, name);
    lemma_heartbeat_session(v, other, now, name);
    lemma_exit_session(v, other, name);
    lemma_tick_session(v, now, name);
    assert forall|a: ActionView| #[trigger]
        v.tick_actions(now).contains(a) && a.name() == name implies a is Cancel by {
        lemma_tick_asks(v, now, a);
    }
}

/// A heartbeat for an unknown name changes nothing; one for a known name
/// sets the session's liveness to the supervisor's time, which is not before
/// what it was, and changes nothing else of the session.
pub proof fn lemma_heartbeat_refreshes(v: ManagerView, name: Seq<char>, now: u64)
    requires
        v.wf(),
    ensures
        !v.knows(name) ==> v.beaten(name, now) == v,
        v.knows(name) ==> v.beaten(name, now).knows(name) && v.beaten(name, now).session(name)
            == v.session(name).beaten(v.time(now)) && v.beaten(name, now).session(
            name,
        ).last_heartbeat >= v.session(name).last_heartbeat,
        v.time(now) >= now,
{
    lemma_heartbeat_session(v, name, now, name);
    lemma_position(v.sessions, name);
}

/// As long as a name stays in the table, the liveness time recorded for it
/// never goes back, whatever is done: a start or a heartbeat of any name,
/// the report of a finished execution, or a tick.
pub proof fn lemma_liveness_never_goes_back(
    v: ManagerView,
    name: Seq<char>,
    other: Seq<char>,
    input_url: Seq<char>,
    output_url: Seq<char>,
    now: u64,
)
    requires
        v.wf(),
        v.knows(name),
    ensures
        v.started(other, input_url, output_url, now).session(name).last_heartbeat >= v.session(
            name,
        ).last_heartbeat,
        v.beaten(other, now).session(name).last_heartbeat >= v.session(name).last_heartbeat,
        v.exited(other).session(name).last_heartbeat >= v.session(name).last_heartbeat,
        v.ticked(now).knows(name) ==> v.ticked(now).session(name).last_heartbeat >= v.session(
            name,
        ).last_heartbeat,
{
    lemma_position(v.sessions, name);
    lemma_start_session(v, other, input_url, output_url, now, name);
    lemma_heartbeat_session(v, other, now, name);
    lemma_exit_session(v, other, name);
    lemma_tick_session(v, now, name);
}

/// A session without a heartbeat for longer than the idle timeout is
/// cancelled by the tick. It leaves the table in that tick exactly where its
/// execution has finished; where it is still live it stays, marked as
/// cancelled, and no removal is asked for.
pub proof fn lemma_idle_session_is_cancelled(v: ManagerView, now: u64, name: Seq<char>)
    requires
        v.wf(),
        v.knows(name),
        v.session(name).idle(v.policy, v.time(now)),
    ensures
        v.tick_actions(now).contains(ActionView::Cancel { name }),
        v.ticked(now).knows(name) <==> v.session(name).live(),
        v.tick_actions(now).contains(ActionView::Remove { name }) <==> !v.session(name).live(),
        v.session(name).live() ==> v.ticked(now).session(name) == (SessionView {
            cancelled: true,
            ..v.session(name)
        }),
        forall|a: ActionView|
            #[trigger] v.tick_actions(now).contains(a) && a.name() == name ==> a is Cancel
                || a is Remove,
{
    let own = v.session(name).tick_actions(v.policy, v.time(now));
    lemma_position(v.sessions, name);
    lemma_tick_session(v, now, name);
    lemma_tick_asks(v, now, ActionView::Cancel { name });
    lemma_tick_asks(v, now, ActionView::Remove { name });
    assert(own[0] == ActionView::Cancel { name });
    if !v.session(name).live() {
        assert(own[1] == ActionView::Remove { name });
    }
    assert forall|a: ActionView| #[trigger]
        v.tick_actions(now).contains(a) && a.name() == name implies a is Cancel || a is Remove by {
        lemma_tick_asks(v, now, a);
    }
}

/// A tick removes a session only where its execution has finished, and then
/// says so; a session whose execution is live is never removed.
pub proof fn lemma_removed_session_had_finished(v: ManagerView, now: u64, name: Seq<char>)
    requires
        v.wf(),
        v.knows(name),
    ensures
        !v.ticked(now).knows(name) ==> !v.session(name).live(),
        !v.ticked(now).knows(name) <==> v.tick_actions(now).contains(ActionView::Remove { name }),
{
    let own = v.session(name).tick_actions(v.policy, v.time(now));
    lemma_position(v.sessions, name);
    lemma_tick_session(v, now, name);
    lemma_tick_asks(v, now, ActionView::Remove { name });
    if v.session(name).removed(v.policy, v.time(now)) {
        if !v.session(name).idle(v.policy, v.time(now)) && v.session(name).doomed() {
            assert(own[0] == ActionView::Remove { name });
        } else {
            assert(own[1] == ActionView::Remove { name });
        }
    }
}

/// A session that an earlier tick cancelled for idleness leaves the table at
/// the first tick that finds its execution finished, whether or not a
/// heartbeat has made it wanted again: the tick removes it and says so, and
/// asks for no replacement.
pub proof fn lemma_cancelled_session_is_removed_once_finished(
    v: ManagerView,
    now: u64,
    name: Seq<char>,
)
    requires
        v.wf(),
        v.knows(name),
        v.session(name).doomed(),
    ensures
        !v.ticked(now).knows(name),
        v.tick_actions(now).contains(ActionView::Remove { name }),
        forall|a: ActionView|
            #[trigger] v.tick_actions(now).contains(a) && a.name() == name ==> a is Cancel
                || a is Remove,
{
    let own = v.session(name).tick_actions(v.policy, v.time(now));
    lemma_position(v.sessions, name);
    lemma_tick_session(v, now, name);
    lemma_tick_asks(v, now, ActionView::Remove { name });
    if v.session(name).idle(v.policy, v.time(now)) {
        assert(own[1] == ActionView::Remove { name });
    } else {
        assert(own[0] == ActionView::Remove { name });
    }
    assert forall|a: ActionView| #[trigger]
        v.tick_actions(now).contains(a) && a.name() == name implies a is Cancel || a is Remove by {
        lemma_tick_asks(v, now, a);
    }
}

/// A cancelled session whose execution is still live, and that a heartbeat
/// has made wanted again, waits: the tick keeps it, cancelled as it is, and
/// asks for nothing about it.
pub proof fn lemma_cancelled_live_session_waits(v: ManagerView, now: u64, name: Seq<char>)
    requires
        v.wf(),
        v.runs(name),
        v.session(name).cancelled,
        !v.session(name).idle(v.policy, v.time(now)),
    ensures
        v.ticked(now).runs(name),
        v.ticked(now).session(name).cancelled,
        forall|a: ActionView| #[trigger] v.tick_actions(now).contains(a) ==> a.name() != name,
{
    lemma_tick_session(v, now, name);
    assert forall|a: ActionView| #[trigger] v.tick_actions(now).contains(a) implies a.name()
        != name by {
        lemma_tick_asks(v, now, a);
    }
}

/// Eviction for idleness is not undone by a late heartbeat. A session whose
/// execution is live and that a tick finds idle is cancelled; whatever
/// heartbeat follows, once its execution is reported finished the finish
/// counts as clean, and the next tick, at whatever time, removes the
/// session and asks for no replacement.
pub proof fn lemma_idle_eviction_outlasts_a_heartbeat(
    v: ManagerView,
    name: Seq<char>,
    now: u64,
    beat: u64,
    then: u64,
)
    requires
        v.wf(),
        v.runs(name),
        v.session(name).idle(v.policy, v.time(now)),
    ensures
        v.tick_actions(now).contains(ActionView::Cancel { name }),
        v.ticked(now).beaten(name, beat).runs(name),
        v.ticked(now).beaten(name, beat).exited(name).knows(name),
        v.ticked(now).beaten(name, beat).exited(name).session(name).worker
            == WorkerState::FinishedClean,
        !v.ticked(now).beaten(name, beat).exited(name).ticked(then).knows(name),
        v.ticked(now).beaten(name, beat).exited(name).tick_actions(then).contains(
            ActionView::Remove { name },
        ),
        forall|a: ActionView|
            #[trigger] v.ticked(now).beaten(name, beat).exited(name).tick_actions(then).contains(a)
                && a.name() == name ==> a is Cancel || a is Remove,
{
    let w = v.ticked(now);
    let x = w.beaten(name, beat);
    let y = x.exited(name);
    lemma_position(v.sessions, name);
    lemma_idle_session_is_cancelled(v, now, name);
    lemma_tick_session(v, now, name);
    lemma_heartbeat_session(w, name, beat, name);
    lemma_exit_session(x, name, name);
    lemma_cancelled_session_is_removed_once_finished(y, then, name);
}

/// A crashed session inside its cooldown is left exactly as it is: the tick
/// asks for nothing about it, in particular for no replacement.
pub proof fn lemma_cooldown_defers_restart(v: ManagerView, now: u64, name: Seq<char>)
    requires
        v.wf(),
        v.knows(name),
        v.session(name).cooling(v.policy, v.time(now)),
    ensures
        v.ticked(now).knows(name),
        v.ticked(now).session(name) == v.session(name),
        forall|a: ActionView| #[trigger] v.tick_actions(now).contains(a) ==> a.name() != name,
{
    lemma_tick_session(v, now, name);
    assert forall|a: ActionView| #[trigger] v.tick_actions(now).contains(a) implies a.name()
        != name by {
        lemma_tick_asks(v, now, a);
    }
}

/// A crashed session that is still wanted, below the restart limit and past
/// its cooldown gets a replacement execution with the same addresses: the
/// tick asks for exactly that, counts the restart, and resets the session's
/// liveness and cancellation.
pub proof fn lemma_restart_after_cooldown(v: ManagerView, now: u64, name: Seq<char>)
    requires
        v.wf(),
        v.knows(name),
        v.session(name).restarts(v.policy, v.time(now)),
    ensures
        v.ticked(now).runs(name),
        v.ticked(now).session(name) == (SessionView {
            cancelled: false,
            last_heartbeat: v.time(now),
            worker: WorkerState::Active,
            restart_count: (v.session(name).restart_count + 1) as u32,
            last_restart_attempt: v.time(now),
            ..v.session(name)
        }),
        v.ticked(now).session(name).restart_count == v.session(name).restart_count + 1,
        forall|a: ActionView|
            #[trigger] v.tick_actions(now).contains(a) && a.name() == name <==> a
                == (ActionView::Restart {
                name,
                input_url: v.session(name).input_url,
                output_url: v.session(name).output_url,
            }),
{
    let t = v.time(now);
    let own = v.session(name).tick_actions(v.policy, t);
    let restart = ActionView::Restart {
        name,
        input_url: v.session(name).input_url,
        output_url: v.session(name).output_url,
    };
    lemma_position(v.sessions, name);
    lemma_tick_session(v, now, name);
    assert(own[0] == restart);
    assert forall|a: ActionView| #[trigger]
        v.tick_actions(now).contains(a) && a.name() == name <==> a == restart by {
        lemma_tick_asks(v, now, a);
    }
}

/// Within a well-formed table no session has been restarted more often than
/// the limit allows.
pub proof fn lemma_restarts_are_bounded(v: ManagerView, name: Seq<char>)
    requires
        v.wf(),
        v.knows(name),
    ensures
        v.session(name).restart_count <= v.policy.max_restarts,
{
    lemma_position(v.sessions, name);
}

/// A crashed session that is still wanted and has used up its restarts is
/// given up: the tick removes it and says so, and asks for no replacement.
pub proof fn lemma_exhausted_session_is_removed(v: ManagerView, now: u64, name: Seq<char>)
    requires
        v.wf(),
        v.knows(name),
        v.session(name).exhausted(v.policy, v.time(now)),
    ensures
        !v.ticked(now).knows(name),
        v.session(name).restart_count == v.policy.max_restarts,
        v.tick_actions(now).contains(ActionView::Exhausted { name }),
        v.tick_actions(now).contains(ActionView::Remove { name }),
        forall|a: ActionView|
            #[trigger] v.tick_actions(now).contains(a) && a.name() == name ==> a is Exhausted
                || a is Remove,
{
    let own = v.session(name).tick_actions(v.policy, v.time(now));
    lemma_position(v.sessions, name);
    lemma_tick_session(v, now, name);
    lemma_tick_asks(v, now, ActionView::Exhausted { name });
    lemma_tick_asks(v, now, ActionView::Remove { name });
    assert(own[0] == ActionView::Exhausted { name });
    assert(own[1] == ActionView::Remove { name });
    assert forall|a: ActionView| #[trigger]
        v.tick_actions(now).contains(a) && a.name() == name implies a is Exhausted
        || a is Remove by {
        lemma_tick_asks(v, now, a);
    }
}

/// The restart count goes back to zero only by forgiveness: a tick lowers
/// it only for a session that is neither idle nor crashed and whose last
/// restart attempt lies further back than the healthy window, and then to
/// zero, changing nothing else.
pub proof fn lemma_forgiveness(v: ManagerView, now: u64, name: Seq<char>)
    requires
        v.wf(),
        v.knows(name),
    ensures
        v.session(name).forgiven(v.policy, v.time(now)) ==> v.ticked(now).knows(name) && v.ticked(
            now,
        ).session(name) == (SessionView { restart_count: 0, ..v.session(name) }),
        v.ticked(now).knows(name) && v.ticked(now).session(name).restart_count < v.session(
            name,
        ).restart_count ==> v.session(name).forgiven(v.policy, v.time(now)),
{
    lemma_tick_session(v, now, name);
}

/// After forgiveness a crash counts as the first: a session that a tick has
/// forgiven and whose execution then finishes without having been cancelled
/// is restarted by a later tick, once it is wanted and past its cooldown,
/// with a restart count of one, however many restarts it had before.
pub proof fn lemma_crash_after_forgiveness_is_the_first(
    v: ManagerView,
    now: u64,
    name: Seq<char>,
    then: u64,
)
    requires
        v.wf(),
        v.runs(name),
        !v.session(name).cancelled,
        v.session(name).forgiven(v.policy, v.time(now)),
        v.policy.max_restarts >= 1,
        !v.ticked(now).exited(name).session(name).idle(
            v.policy,
            v.ticked(now).exited(name).time(then),
        ),
        v.ticked(now).exited(name).time(then) - v.session(name).last_restart_attempt
            >= v.policy.cooldown,
    ensures
        v.ticked(now).exited(name).session(name).crashed(),
        v.ticked(now).exited(name).session(name).restart_count == 0,
        v.ticked(now).exited(name).ticked(then).runs(name),
        v.ticked(now).exited(name).ticked(then).session(name).restart_count == 1,
        v.ticked(now).exited(name).tick_actions(then).contains(
            ActionView::Restart {
                name,
                input_url: v.session(name).input_url,
                output_url: v.session(name).output_url,
            },
        ),
{
    let w = v.ticked(now);
    let x = w.exited(name);
    lemma_position(v.sessions, name);
    lemma_tick_session(v, now, name);
    lemma_exit_session(w, name, name);
    lemma_restart_after_cooldown(x, then, name);
    lemma_tick_asks(
        x,
        then,
        ActionView::Restart {
            name,
            input_url: v.session(name).input_url,
            output_url: v.session(name).output_url,
        },
    );
}

/// One thing that happens to the supervisor.
pub enum Op {
    Start { name: Seq<char>, input_url: Seq<char>, output_url: Seq<char>, now: u64 },
    Heartbeat { name: Seq<char>, now: u64 },
    /// The pipeline execution of `name` has finished and is reported so.
    Finished { name: Seq<char> },
    Tick { now: u64 },
}

/// The supervisor after `op`.
pub open spec fn after(v: ManagerView, op: Op) -> ManagerView {
    match op {
        Op::Start { name, input_url, output_url, now } => v.started(name, input_url, output_url, now),
        Op::Heartbeat { name, now } => v.beaten(name, now),
        Op::Finished { name } => v.exited(name),
        Op::Tick { now } => v.ticked(now),
    }
}

/// Whether the supervisor, at `op`, asks for a pipeline execution of the
/// stream `name`: by the decision of a start, or by a restart that a tick
/// asks for.
pub open spec fn spawns(v: ManagerView, op: Op, name: Seq<char>) -> bool {
    match op {
        Op::Start { name: started, .. } => started == name && v.start_decision(name)
            == StartDecision::Spawn,
        Op::Tick { now } => exists|a: ActionView|
            #[trigger] v.tick_actions(now).contains(a) && a is Restart && a.name() == name,
        _ => false,
    }
}

/// The streams with a live pipeline execution after `op`, given those with
/// one before it: an execution that is reported finished has ended, and one
/// that the supervisor asks for begins.
pub open spec fn executions_after(live: Set<Seq<char>>, v: ManagerView, op: Op) -> Set<Seq<char>> {
    match op {
        Op::Finished { name } => live.remove(name),
        _ => Set::new(|n: Seq<char>| live.contains(n) || spawns(v, op, n)),
    }
}

/// Every stream with a live pipeline execution has a session whose
/// execution the supervisor takes to be live.
pub open spec fn accounted(live: Set<Seq<char>>, v: ManagerView) -> bool {
    forall|n: Seq<char>| #[trigger] live.contains(n) ==> v.runs(n)
}

/// Whatever happens, the supervisor asks for a pipeline execution of a
/// stream only while none is live for it, and afterwards still accounts for
/// every live execution.
pub proof fn lemma_one_execution_per_stream(v: ManagerView, live: Set<Seq<char>>, op: Op)
    requires
        v.wf(),
        accounted(live, v),
    ensures
        forall|n: Seq<char>| spawns(v, op, n) ==> !live.contains(n),
        after(v, op).wf(),
        accounted(executions_after(live, v, op), after(v, op)),
{
    let w = after(v, op);
    let then = executions_after(live, v, op);
    match op {
        Op::Start { name, input_url, output_url, now } => {
            lemma_start_session(v, name, input_url, output_url, now, name);
            assert forall|n: Seq<char>| #[trigger] then.contains(n) implies w.runs(n) by {
                lemma_start_session(v, name, input_url, output_url, now, n);
                if n != name {
                    assert(live.contains(n));
                }
            }
        },
        Op::Heartbeat { name, now } => {
            lemma_heartbeat_session(v, name, now, name);
            assert forall|n: Seq<char>| #[trigger] then.contains(n) implies w.runs(n) by {
                lemma_heartbeat_session(v, name, now, n);
                assert(live.contains(n));
            }
        },
        Op::Finished { name } => {
            lemma_exit_session(v, name, name);
            assert forall|n: Seq<char>| #[trigger] then.contains(n) implies w.runs(n) by {
                lemma_exit_session(v, name, n);
                assert(live.contains(n));
            }
        },
        Op::Tick { now } => {
            lemma_tick_session(v, now, seq![]);
            assert forall|n: Seq<char>| spawns(v, op, n) implies !live.contains(n) by {
                let a = choose|a: ActionView|
                    #[trigger] v.tick_actions(now).contains(a) && a is Restart && a.name() == n;
                lemma_tick_asks(v, now, a);
            }
            assert forall|n: Seq<char>| #[trigger] then.contains(n) implies w.runs(n) by {
                lemma_tick_session(v, now, n);
                if spawns(v, op, n) {
                    let a = choose|a: ActionView|
                        #[trigger] v.tick_actions(now).contains(a) && a is Restart && a.name() == n;
                    lemma_tick_asks(v, now, a);
                } else {
                    assert(live.contains(n));
                }
            }
        },
    }
}

/// The supervisor after the operations `ops`, one after the other.
pub open spec fn after_ops(v: ManagerView, ops: Seq<Op>) -> ManagerView
    decreases ops.len(),
{
    if ops.len() == 0 {
        v
    } else {
        after(after_ops(v, ops.drop_last()), ops.last())
    }
}

/// The streams with a live pipeline execution after the operations `ops`,
/// given those with one before them.
pub open spec fn live_after_ops(v: ManagerView, live: Set<Seq<char>>, ops: Seq<Op>) -> Set<
    Seq<char>,
>
    decreases ops.len(),
{
    if ops.len() == 0 {
        live
    } else {
        executions_after(
            live_after_ops(v, live, ops.drop_last()),
            after_ops(v, ops.drop_last()),
            ops.last(),
        )
    }
}

/// In whatever order starts, heartbeats, reports and ticks arrive, at no
/// point does the supervisor ask for a pipeline execution of a stream that
/// has a live one: at most one execution per stream is live at any time.
pub proof fn lemma_one_execution_at_any_time(v: ManagerView, live: Set<Seq<char>>, ops: Seq<Op>)
    requires
        v.wf(),
        accounted(live, v),
    ensures
        after_ops(v, ops).wf(),
        accounted(live_after_ops(v, live, ops), after_ops(v, ops)),
        forall|k: int, n: Seq<char>|
            0 <= k < ops.len() && spawns(after_ops(v, ops.take(k)), #[trigger] ops[k], n) ==> !(
            #[trigger] live_after_ops(v, live, ops.take(k)).contains(n)),
    decreases ops.len(),
{
    if ops.len() > 0 {
        let init = ops.drop_last();
        lemma_one_execution_at_any_time(v, live, init);
        lemma_one_execution_per_stream(
            after_ops(v, init),
            live_after_ops(v, live, init),
            ops.last(),
        );
        assert forall|k: int, n: Seq<char>|
            0 <= k < ops.len() && spawns(
                after_ops(v, ops.take(k)),
                #[trigger] ops[k],
                n,
            ) implies !(#[trigger] live_after_ops(v, live, ops.take(k)).contains(n)) by {
            if k < init.len() {
                assert(init.take(k) == ops.take(k));
                assert(init[k] == ops[k]);
            } else {
                assert(ops.take(k) == init);
            }
        }
    }
}

} // verus!
