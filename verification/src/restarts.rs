//! Restarts over a whole run of operations: the restart count counts them,
//! the limit bounds them, and the cooldown spaces them.

use crate::session::ActionView;
use crate::stream_manager::{
    lemma_exit_session, lemma_heartbeat_session, lemma_position, lemma_start_session,
    lemma_tick_asks, lemma_tick_session, ManagerView,
};
use crate::supervision::{after, after_ops, spawns, Op};
use vstd::prelude::*;

verus! {

/// Whether `op` is a start of the stream `name`.
pub open spec fn starts(op: Op, name: Seq<char>) -> bool {
    match op {
        Op::Start { name: started, .. } => started == name,
        _ => false,
    }
}

/// Whether `op` is a tick that forgives the session `name` its restarts.
pub open spec fn forgives(v: ManagerView, op: Op, name: Seq<char>) -> bool {
    match op {
        Op::Tick { now } => v.knows(name) && v.session(name).forgiven(v.policy, v.time(now)),
        _ => false,
    }
}

/// The time at which the supervisor takes `op` to happen.
pub open spec fn time_of(v: ManagerView, op: Op) -> u64 {
    match op {
        Op::Start { now, .. } => v.time(now),
        Op::Heartbeat { now, .. } => v.time(now),
        Op::Finished { .. } => v.clock,
        Op::Tick { now } => v.time(now),
    }
}

/// Number of pipeline executions of the stream `name` that the supervisor
/// asks for over the operations `ops`.
pub open spec fn spawned(v: ManagerView, ops: Seq<Op>, name: Seq<char>) -> nat
    decreases ops.len(),
{
    if ops.len() == 0 {
        0
    } else {
        spawned(v, ops.drop_last(), name) + if spawns(
            after_ops(v, ops.drop_last()),
            ops.last(),
            name,
        ) {
            1nat
        } else {
            0nat
        }
    }
}

/// The run holds no start of the stream `name`.
pub open spec fn without_start(ops: Seq<Op>, name: Seq<char>) -> bool {
    forall|k: int| 0 <= k < ops.len() ==> !starts(#[trigger] ops[k], name)
}

/// The run holds no start of the stream `name`, and none of its ticks
/// forgives the session: its executions fail too soon for that.
pub open spec fn unforgiving(v: ManagerView, ops: Seq<Op>, name: Seq<char>) -> bool {
    &&& without_start(ops, name)
    &&& forall|k: int|
        0 <= k < ops.len() ==> !forgives(after_ops(v, ops.take(k)), #[trigger] ops[k], name)
}

/// A tick asks for a replacement execution of a stream exactly where its
/// session is crashed, wanted, below the limit and past its cooldown.
pub proof fn lemma_tick_spawns(v: ManagerView, now: u64, name: Seq<char>)
    requires
        v.wf(),
    ensures
        spawns(v, Op::Tick { now }, name) <==> v.knows(name) && v.session(name).restarts(
            v.policy,
            v.time(now),
        ),
{
    let t = v.time(now);
    if spawns(v, Op::Tick { now }, name) {
        let a = choose|a: ActionView|
            #[trigger] v.tick_actions(now).contains(a) && a is Restart && a.name() == name;
        lemma_tick_asks(v, now, a);
        let own = v.session(name).tick_actions(v.policy, t);
        let i = choose|i: int| 0 <= i < own.len() && own[i] == a;
        assert(own[i] is Restart);
        assert(v.session(name).restarts(v.policy, t));
    }
    if v.knows(name) && v.session(name).restarts(v.policy, t) {
        let a = ActionView::Restart {
            name,
            input_url: v.session(name).input_url,
            output_url: v.session(name).output_url,
        };
        lemma_position(v.sessions, name);
        assert(v.session(name).tick_actions(v.policy, t)[0] == a);
        lemma_tick_asks(v, now, a);
        assert(v.tick_actions(now).contains(a) && a is Restart && a.name() == name);
        let op = Op::Tick { now };
        assert(v.tick_actions(op->Tick_now).contains(a));
    }
}

/// What one operation that is no start of `name` does to the session of
/// that name: it brings no unknown name into the table, never moves the
/// last restart attempt back, and asks for an execution only by the restart
/// of a tick, which counts it and notes its time.
pub proof fn lemma_step(v: ManagerView, op: Op, name: Seq<char>)
    requires
        v.wf(),
        !starts(op, name),
    ensures
        after(v, op).wf(),
        after(v, op).policy == v.policy,
        after(v, op).knows(name) ==> v.knows(name),
        after(v, op).knows(name) ==> after(v, op).session(name).last_restart_attempt >= v.session(
            name,
        ).last_restart_attempt,
        spawns(v, op, name) ==> {
            &&& op is Tick
            &&& v.knows(name)
            &&& v.session(name).restarts(v.policy, time_of(v, op))
            &&& after(v, op).knows(name)
            &&& after(v, op).session(name).last_restart_attempt == time_of(v, op)
            &&& after(v, op).session(name).restart_count == v.session(name).restart_count + 1
        },
        !spawns(v, op, name) && !forgives(v, op, name) && after(v, op).knows(name) ==> after(
            v,
            op,
        ).session(name).restart_count == v.session(name).restart_count,
{
    lemma_position(v.sessions, name);
    match op {
        Op::Start { name: other, input_url, output_url, now } => {
            lemma_start_session(v, other, input_url, output_url, now, name);
        },
        Op::Heartbeat { name: other, now } => {
            lemma_heartbeat_session(v, other, now, name);
        },
        Op::Finished { name: other } => {
            lemma_exit_session(v, other, name);
        },
        Op::Tick { now } => {
            lemma_tick_session(v, now, name);
            lemma_tick_spawns(v, now, name);
        },
    }
}

/// Over a run without a start of `name` the table stays well-formed under
/// the same policy, and a name known at its end was known all along.
pub proof fn lemma_run(v: ManagerView, ops: Seq<Op>, name: Seq<char>, k: int)
    requires
        v.wf(),
        without_start(ops, name),
        0 <= k <= ops.len(),
    ensures
        after_ops(v, ops).wf(),
        after_ops(v, ops).policy == v.policy,
        after_ops(v, ops).knows(name) ==> after_ops(v, ops.take(k)).knows(name),
        after_ops(v, ops.take(k)).wf(),
        after_ops(v, ops.take(k)).policy == v.policy,
    decreases ops.len(),
{
    if ops.len() == 0 {
        assert(ops.take(k) == ops);
    } else {
        let init = ops.drop_last();
        assert forall|j: int| 0 <= j < init.len() implies !starts(#[trigger] init[j], name) by {
            assert(init[j] == ops[j]);
        }
        if k == ops.len() {
            assert(ops.take(k) == ops);
            lemma_run(v, init, name, 0);
        } else {
            lemma_run(v, init, name, k);
            assert(init.take(k) == ops.take(k));
        }
        lemma_step(after_ops(v, init), ops.last(), name);
    }
}

/// The restart count counts the restarts. Over a run without a start of the
/// stream and without forgiveness, the session's restart count, as long as
/// the session is in the table, has grown by the number of executions asked
/// for; so that number never exceeds what the limit leaves.
pub proof fn lemma_restart_count_counts_restarts(v: ManagerView, ops: Seq<Op>, name: Seq<char>)
    requires
        v.wf(),
        v.knows(name),
        unforgiving(v, ops, name),
    ensures
        after_ops(v, ops).knows(name) ==> after_ops(v, ops).session(name).restart_count
            == v.session(name).restart_count + spawned(v, ops, name),
        v.session(name).restart_count + spawned(v, ops, name) <= v.policy.max_restarts,
    decreases ops.len(),
{
    lemma_position(v.sessions, name);
    if ops.len() > 0 {
        let init = ops.drop_last();
        let before = after_ops(v, init);
        assert(unforgiving(v, init, name)) by {
            assert forall|j: int| 0 <= j < init.len() implies !starts(#[trigger] init[j], name)
                && !forgives(after_ops(v, init.take(j)), init[j], name) by {
                assert(init[j] == ops[j]);
                assert(init.take(j) == ops.take(j));
            }
        }
        lemma_restart_count_counts_restarts(v, init, name);
        lemma_run(v, init, name, 0);
        assert(ops.take(ops.len() - 1) == init);
        assert(!forgives(before, ops[ops.len() - 1], name));
        lemma_step(before, ops.last(), name);
        lemma_run(v, ops, name, 0);
        if after_ops(v, ops).knows(name) {
            lemma_position(after_ops(v, ops).sessions, name);
        }
    }
}

/// A session is given up only after all its restarts. Where, after a run
/// without a start of the stream and without forgiveness, a tick finds the
/// session crashed with its restarts used up, the executions asked for
/// over the run are exactly as many as the limit had left; the tick asks
/// for none, and removes the session.
pub proof fn lemma_given_up_after_all_restarts(
    v: ManagerView,
    ops: Seq<Op>,
    name: Seq<char>,
    now: u64,
)
    requires
        v.wf(),
        v.knows(name),
        unforgiving(v, ops, name),
        after_ops(v, ops).knows(name),
        after_ops(v, ops).session(name).exhausted(v.policy, after_ops(v, ops).time(now)),
    ensures
        v.session(name).restart_count + spawned(v, ops, name) == v.policy.max_restarts,
        !spawns(after_ops(v, ops), Op::Tick { now }, name),
        !after_ops(v, ops).ticked(now).knows(name),
        after_ops(v, ops).tick_actions(now).contains(ActionView::Exhausted { name }),
{
    let w = after_ops(v, ops);
    lemma_restart_count_counts_restarts(v, ops, name);
    lemma_run(v, ops, name, 0);
    lemma_position(w.sessions, name);
    lemma_tick_spawns(w, now, name);
    crate::supervision::lemma_exhausted_session_is_removed(w, now, name);
}

/// From its start a stream gets one execution and, while its executions
/// keep failing too soon to be forgiven, one more for every restart the
/// policy allows: where a tick then finds it crashed again, that many have
/// been asked for since the start, and the tick gives the session up.
pub proof fn lemma_crash_loop_ends_after_the_limit(
    v: ManagerView,
    name: Seq<char>,
    input_url: Seq<char>,
    output_url: Seq<char>,
    at: u64,
    ops: Seq<Op>,
    now: u64,
)
    requires
        v.wf(),
        !v.runs(name),
        unforgiving(v.started(name, input_url, output_url, at), ops, name),
        after_ops(v.started(name, input_url, output_url, at), ops).knows(name),
        after_ops(v.started(name, input_url, output_url, at), ops).session(name).exhausted(
            v.policy,
            after_ops(v.started(name, input_url, output_url, at), ops).time(now),
        ),
    ensures
        spawns(v, Op::Start { name, input_url, output_url, now: at }, name),
        spawned(v.started(name, input_url, output_url, at), ops, name) == v.policy.max_restarts,
        !after_ops(v.started(name, input_url, output_url, at), ops).ticked(now).knows(name),
{
    let w = v.started(name, input_url, output_url, at);
    lemma_start_session(v, name, input_url, output_url, at, name);
    lemma_given_up_after_all_restarts(w, ops, name, now);
}

/// Over a run without a start of the stream, the last restart attempt of a
/// session that stays in the table never goes back.
pub proof fn lemma_restart_attempt_never_goes_back(v: ManagerView, ops: Seq<Op>, name: Seq<char>)
    requires
        v.wf(),
        without_start(ops, name),
        after_ops(v, ops).knows(name),
    ensures
        v.knows(name),
        after_ops(v, ops).session(name).last_restart_attempt >= v.session(name).last_restart_attempt,
    decreases ops.len(),
{
    if ops.len() > 0 {
        let init = ops.drop_last();
        assert forall|j: int| 0 <= j < init.len() implies !starts(#[trigger] init[j], name) by {
            assert(init[j] == ops[j]);
        }
        lemma_run(v, init, name, 0);
        lemma_step(after_ops(v, init), ops.last(), name);
        lemma_restart_attempt_never_goes_back(v, init, name);
    }
}

/// The first restart waits for the cooldown too: an execution that a run
/// without a start of the stream asks for comes at least the cooldown after
/// the last restart attempt recorded before the run, which for a fresh
/// session is the time of its start.
pub proof fn lemma_restart_waits_for_the_cooldown(
    v: ManagerView,
    ops: Seq<Op>,
    name: Seq<char>,
    i: int,
)
    requires
        v.wf(),
        without_start(ops, name),
        0 <= i < ops.len(),
        spawns(after_ops(v, ops.take(i)), ops[i], name),
    ensures
        v.knows(name),
        time_of(after_ops(v, ops.take(i)), ops[i]) - v.session(name).last_restart_attempt
            >= v.policy.cooldown,
{
    let upto = ops.take(i);
    assert forall|k: int| 0 <= k < upto.len() implies !starts(#[trigger] upto[k], name) by {
        assert(upto[k] == ops[k]);
    }
    lemma_run(v, upto, name, 0);
    lemma_step(after_ops(v, upto), ops[i], name);
    lemma_restart_attempt_never_goes_back(v, upto, name);
}

/// The last restart attempt of a session is not before any restart that a
/// run without a start of the stream has asked for.
pub proof fn lemma_restart_is_remembered(v: ManagerView, ops: Seq<Op>, name: Seq<char>, i: int)
    requires
        v.wf(),
        without_start(ops, name),
        0 <= i < ops.len(),
        spawns(after_ops(v, ops.take(i)), ops[i], name),
        after_ops(v, ops).knows(name),
    ensures
        after_ops(v, ops).session(name).last_restart_attempt >= time_of(
            after_ops(v, ops.take(i)),
            ops[i],
        ),
    decreases ops.len(),
{
    let init = ops.drop_last();
    let before = after_ops(v, init);
    assert forall|j: int| 0 <= j < init.len() implies !starts(#[trigger] init[j], name) by {
        assert(init[j] == ops[j]);
    }
    lemma_run(v, init, name, 0);
    lemma_step(before, ops.last(), name);
    if i == ops.len() - 1 {
        assert(ops.take(i) == init);
    } else {
        assert(init.take(i) == ops.take(i));
        assert(init[i] == ops[i]);
        lemma_restart_is_remembered(v, init, name, i);
    }
}

/// Restarts are spaced by the cooldown: between any two executions that a
/// run without a start of the stream asks for, at least the cooldown has
/// passed.
pub proof fn lemma_restarts_are_spaced(
    v: ManagerView,
    ops: Seq<Op>,
    name: Seq<char>,
    i: int,
    j: int,
)
    requires
        v.wf(),
        without_start(ops, name),
        0 <= i < j < ops.len(),
        spawns(after_ops(v, ops.take(i)), ops[i], name),
        spawns(after_ops(v, ops.take(j)), ops[j], name),
    ensures
        time_of(after_ops(v, ops.take(j)), ops[j]) - time_of(after_ops(v, ops.take(i)), ops[i])
            >= v.policy.cooldown,
{
    let upto = ops.take(j);
    let then = after_ops(v, upto);
    assert forall|k: int| 0 <= k < upto.len() implies !starts(#[trigger] upto[k], name) by {
        assert(upto[k] == ops[k]);
    }
    lemma_run(v, upto, name, 0);
    lemma_step(then, ops[j], name);
    assert(upto.take(i) == ops.take(i));
    assert(upto[i] == ops[i]);
    lemma_restart_is_remembered(v, upto, name, i);
}

} // verus!
