//! What a run does from its first step to its last, and the laws of it.

use vstd::prelude::*;
use crate::error::SendError;
use crate::sender::{answers, initial_state, next_state, pending_step, well_formed};
use crate::sender::{Outcome, Phase, SenderState, Step};

verus! {

/// The steps of `left` sends: a pause between each two, none after the last.
pub open spec fn sends(left: nat, delay: u128) -> Seq<Step>
    decreases left,
{
    if left == 0 {
        Seq::empty()
    } else if left == 1 {
        seq![Step::Send]
    } else {
        seq![Step::Send, Step::Sleep(delay)] + sends((left - 1) as nat, delay)
    }
}

/// The steps of a whole run: the socket is bound, then the sends are made.
pub open spec fn plan(count: u128, delay: u128) -> Seq<Step> {
    seq![Step::Bind] + sends(count as nat, delay)
}

/// The steps that a run in the given state has still to take if nothing
/// fails that ends it.
pub open spec fn remaining(s: SenderState) -> Seq<Step> {
    match s.phase {
        Phase::Unbound => plan(s.count, s.delay),
        Phase::Sending { sent } => sends((s.count - sent) as nat, s.delay),
        Phase::Pausing { sent } => seq![Step::Sleep(s.delay)] + sends(
            (s.count - sent) as nat,
            s.delay,
        ),
        Phase::Finished => Seq::empty(),
        Phase::Failed => Seq::empty(),
    }
}

/// How often a step occurs among the given steps.
pub open spec fn occurrences(steps: Seq<Step>, step: Step) -> nat
    decreases steps.len(),
{
    if steps.len() == 0 {
        0
    } else {
        (if steps[0] == step {
            1nat
        } else {
            0nat
        }) + occurrences(steps.drop_first(), step)
    }
}

/// Whether the outcomes are those of a run from the given state: each one
/// answers the step that was pending when it came.
pub open spec fn faithful(s: SenderState, outcomes: Seq<Outcome>) -> bool
    decreases outcomes.len(),
{
    outcomes.len() == 0 || (answers(pending_step(s), outcomes[0]) && faithful(
        next_state(s, outcomes[0]),
        outcomes.drop_first(),
    ))
}

/// The state after the given outcomes, one after the other.
pub open spec fn state_after(s: SenderState, outcomes: Seq<Outcome>) -> SenderState
    decreases outcomes.len(),
{
    if outcomes.len() == 0 {
        s
    } else {
        state_after(next_state(s, outcomes[0]), outcomes.drop_first())
    }
}

/// The steps that were taken to get the given outcomes.
pub open spec fn steps_taken(s: SenderState, outcomes: Seq<Outcome>) -> Seq<Step>
    decreases outcomes.len(),
{
    if outcomes.len() == 0 {
        Seq::empty()
    } else {
        seq![pending_step(s)] + steps_taken(next_state(s, outcomes[0]), outcomes.drop_first())
    }
}

/// An outcome leads from a state that a run can be in to another such state.
pub proof fn lemma_next_state_well_formed(s: SenderState, outcome: Outcome)
    requires
        well_formed(s),
    ensures
        well_formed(next_state(s, outcome)),
{
}

/// Whether a send succeeds makes no difference to what follows.
pub proof fn lemma_send_failure_ignored(s: SenderState)
    ensures
        next_state(s, Outcome::SendFailed) == next_state(s, Outcome::Sent),
{
}

/// Every step that is taken brings the run nearer to its end: after an
/// outcome that answers the pending step, fewer steps remain.
pub proof fn lemma_progress(s: SenderState, outcome: Outcome)
    requires
        well_formed(s),
        answers(pending_step(s), outcome),
    ensures
        remaining(next_state(s, outcome)).len() < remaining(s).len(),
        outcome != Outcome::BindFailed ==> remaining(s) == seq![pending_step(s)] + remaining(
            next_state(s, outcome),
        ),
{
    let next = next_state(s, outcome);
    match s.phase {
        Phase::Unbound => {
            if outcome == Outcome::Bound {
                assert(remaining(s) =~= seq![pending_step(s)] + remaining(next));
            }
        },
        Phase::Sending { sent } => {
            let left = (s.count - sent) as nat;
            if sent + 1 < s.count {
                assert(sends(left, s.delay) =~= seq![Step::Send] + (seq![Step::Sleep(s.delay)]
                    + sends((left - 1) as nat, s.delay)));
            } else {
                assert(sends(left, s.delay) =~= seq![Step::Send] + Seq::<Step>::empty());
            }
        },
        Phase::Pausing { sent } => {},
        Phase::Finished => {},
        Phase::Failed => {},
    }
}

/// A run is over exactly when no step remains.
pub proof fn lemma_over_when_nothing_remains(s: SenderState)
    requires
        well_formed(s),
    ensures
        remaining(s).len() == 0 <==> (s.phase == Phase::Finished || s.phase == Phase::Failed),
        remaining(s).len() == 0 <==> forall|outcome: Outcome| !answers(pending_step(s), outcome),
{
    match s.phase {
        Phase::Unbound => {
            assert(answers(pending_step(s), Outcome::Bound));
        },
        Phase::Sending { sent } => {
            assert(answers(pending_step(s), Outcome::Sent));
        },
        Phase::Pausing { sent } => {
            assert(answers(pending_step(s), Outcome::Slept));
        },
        Phase::Finished => {},
        Phase::Failed => {},
    }
}

/// From any state that a run can be in, the steps taken are the first of
/// those that remained, and a run that has finished has taken them all.
pub proof fn lemma_steps_are_the_remaining(s: SenderState, outcomes: Seq<Outcome>)
    requires
        well_formed(s),
        faithful(s, outcomes),
    ensures
        outcomes.len() <= remaining(s).len(),
        steps_taken(s, outcomes) == remaining(s).subrange(0, outcomes.len() as int),
        state_after(s, outcomes).phase == Phase::Finished ==> outcomes.len() == remaining(s).len(),
    decreases outcomes.len(),
{
    if outcomes.len() == 0 {
        assert(steps_taken(s, outcomes) =~= remaining(s).subrange(0, 0));
    } else {
        let first = outcomes[0];
        let next = next_state(s, first);
        let rest = outcomes.drop_first();
        lemma_progress(s, first);
        lemma_steps_are_the_remaining(next, rest);
        if first == Outcome::BindFailed {
            assert(rest.len() == 0);
            assert(remaining(s)[0] == Step::Bind);
            assert(steps_taken(s, outcomes) =~= remaining(s).subrange(0, 1));
        } else {
            assert(steps_taken(s, outcomes) =~= remaining(s).subrange(0, outcomes.len() as int));
        }
    }
}

/// Every run takes the steps of the plan, in their order: the steps taken so
/// far are the first of the plan, and a run that has finished has taken
/// exactly the plan, whichever of its sends failed.
pub proof fn lemma_run_follows_plan(
    buffer: Seq<u8>,
    port: u16,
    count: u128,
    delay: u128,
    outcomes: Seq<Outcome>,
)
    requires
        faithful(initial_state(buffer, port, count, delay), outcomes),
    ensures
        outcomes.len() <= plan(count, delay).len(),
        steps_taken(initial_state(buffer, port, count, delay), outcomes) == plan(
            count,
            delay,
        ).subrange(0, outcomes.len() as int),
        state_after(initial_state(buffer, port, count, delay), outcomes).phase == Phase::Finished
            ==> steps_taken(initial_state(buffer, port, count, delay), outcomes) == plan(
            count,
            delay,
        ),
{
    let s = initial_state(buffer, port, count, delay);
    lemma_steps_are_the_remaining(s, outcomes);
    if state_after(s, outcomes).phase == Phase::Finished {
        assert(plan(count, delay).subrange(0, outcomes.len() as int) =~= plan(count, delay));
    }
}

/// The steps of `left` sends hold `left` sends and one pause fewer, each of
/// the given length, and nothing else.
pub proof fn lemma_sends_counts(left: nat, delay: u128)
    ensures
        occurrences(sends(left, delay), Step::Send) == left,
        occurrences(sends(left, delay), Step::Sleep(delay)) == if left == 0 {
            0
        } else {
            left - 1
        },
        sends(left, delay).len() == if left == 0 {
            0
        } else {
            2 * left - 1
        },
    decreases left,
{
    lemma_sends_unfold(left, delay);
    if left >= 2 {
        let tail = sends((left - 1) as nat, delay);
        lemma_sends_counts((left - 1) as nat, delay);
        lemma_occurrences_first(Step::Sleep(delay), tail, Step::Send);
        lemma_occurrences_first(Step::Sleep(delay), tail, Step::Sleep(delay));
    }
    lemma_occurrences_first(Step::Send, sends(left, delay).drop_first(), Step::Send);
    lemma_occurrences_first(Step::Send, sends(left, delay).drop_first(), Step::Sleep(delay));
}

/// The plan of a run holds one bind, as many sends as were asked for, and
/// one pause fewer, each of the length asked for; with no send asked for, it
/// holds no pause. It holds nothing else.
pub proof fn lemma_plan_counts(count: u128, delay: u128)
    ensures
        plan(count, delay)[0] == Step::Bind,
        occurrences(plan(count, delay), Step::Bind) == 1,
        occurrences(plan(count, delay), Step::Send) == count,
        occurrences(plan(count, delay), Step::Sleep(delay)) == if count == 0 {
            0
        } else {
            count - 1
        },
        plan(count, delay).len() == 1 + count + if count == 0 {
            0
        } else {
            count - 1
        },
{
    let tail = sends(count as nat, delay);
    lemma_sends_counts(count as nat, delay);
    lemma_sends_hold_no_bind(count as nat, delay);
    lemma_occurrences_first(Step::Bind, tail, Step::Bind);
    lemma_occurrences_first(Step::Bind, tail, Step::Send);
    lemma_occurrences_first(Step::Bind, tail, Step::Sleep(delay));
}

proof fn lemma_sends_hold_no_bind(left: nat, delay: u128)
    ensures
        occurrences(sends(left, delay), Step::Bind) == 0,
    decreases left,
{
    lemma_sends_unfold(left, delay);
    if left >= 2 {
        let tail = sends((left - 1) as nat, delay);
        lemma_sends_hold_no_bind((left - 1) as nat, delay);
        lemma_occurrences_first(Step::Sleep(delay), tail, Step::Bind);
    }
    lemma_occurrences_first(Step::Send, sends(left, delay).drop_first(), Step::Bind);
}

/// Counting in steps that begin with a given one.
proof fn lemma_occurrences_first(first: Step, rest: Seq<Step>, step: Step)
    ensures
        occurrences(seq![first] + rest, step) == occurrences(rest, step) + if first == step {
            1nat
        } else {
            0nat
        },
{
    assert((seq![first] + rest).drop_first() =~= rest);
}

/// The steps of one or more sends begin with a send; those of two or more go
/// on with a pause and the steps of one send fewer.
proof fn lemma_sends_unfold(left: nat, delay: u128)
    ensures
        left == 0 ==> sends(left, delay) == Seq::<Step>::empty(),
        left >= 1 ==> sends(left, delay) == seq![Step::Send] + sends(left, delay).drop_first(),
        left == 1 ==> sends(left, delay).drop_first() == Seq::<Step>::empty(),
        left >= 2 ==> sends(left, delay).drop_first() == seq![Step::Sleep(delay)] + sends(
            (left - 1) as nat,
            delay,
        ),
{
    let steps = sends(left, delay);
    if left == 1 {
        assert(steps.drop_first() =~= Seq::<Step>::empty());
        assert(steps =~= seq![Step::Send] + steps.drop_first());
    } else if left >= 2 {
        assert(steps.drop_first() =~= seq![Step::Sleep(delay)] + sends((left - 1) as nat, delay));
        assert(steps =~= seq![Step::Send] + steps.drop_first());
    }
}

/// With no send asked for, the run binds its socket and is finished: it
/// sends nothing and never pauses.
pub proof fn lemma_nothing_to_send(buffer: Seq<u8>, port: u16, delay: u128)
    ensures
        plan(0, delay) == seq![Step::Bind],
        pending_step(next_state(initial_state(buffer, port, 0, delay), Outcome::Bound))
            == Step::Finish,
{
    assert(plan(0, delay) =~= seq![Step::Bind]);
}

/// Where no socket can be had, the run is given up with nothing sent.
pub proof fn lemma_bind_failure_ends_run(buffer: Seq<u8>, port: u16, count: u128, delay: u128)
    ensures
        pending_step(next_state(initial_state(buffer, port, count, delay), Outcome::BindFailed))
            == Step::Abort(SendError::Bind),
{
}

/// The encoded message, the destination and the numbers asked for stay as
/// they were when the sender was made, whatever happens: every send has the
/// same bytes.
pub proof fn lemma_buffer_fixed(s: SenderState, outcomes: Seq<Outcome>)
    ensures
        state_after(s, outcomes).buffer == s.buffer,
        state_after(s, outcomes).port == s.port,
        state_after(s, outcomes).count == s.count,
        state_after(s, outcomes).delay == s.delay,
    decreases outcomes.len(),
{
    if outcomes.len() > 0 {
        lemma_buffer_fixed(next_state(s, outcomes[0]), outcomes.drop_first());
    }
}

} // verus!
