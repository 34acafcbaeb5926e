//! Laws of whole runs: what a construct finishes with, whatever the
//! embedding shell answers on the way.

use crate::ast::Condition;
use crate::laws::{interrupts, is_loop};
use crate::shell::{step_spec, FrameView, ReplyView, ShellView};
use vstd::prelude::*;

verus! {

/// The condition with which the construct at `depth` finishes when the
/// machine is given `replies`: the condition that waits to be handed on
/// when the stack has come down to `depth`. `None` when the answers run out
/// before that, or when the shell exits.
pub open spec fn finishes(s: ShellView, replies: Seq<ReplyView>, depth: nat) -> Option<Condition>
    decreases replies.len(),
{
    if s.stack.len() <= depth {
        if s.stack.len() == depth {
            s.returning
        } else {
            None
        }
    } else if replies.len() == 0 {
        None
    } else {
        finishes(step_spec(s, replies.first()).state, replies.drop_first(), depth)
    }
}

/// Whether a body is interrupted before the construct at `depth` has
/// finished: some answer on the way reports a signal that was handled
/// without ending the shell, or reports no signal while `break_flow` is set.
pub open spec fn interrupted(s: ShellView, replies: Seq<ReplyView>, depth: nat) -> bool
    decreases replies.len(),
{
    if s.stack.len() <= depth || replies.len() == 0 {
        false
    } else {
        interrupts(s, replies.first()) || interrupted(
            step_spec(s, replies.first()).state,
            replies.drop_first(),
            depth,
        )
    }
}

/// Whether a frame waits for the construct above it.
pub open spec fn waits(frame: FrameView) -> bool {
    match frame {
        FrameView::Body { phase, .. } => phase is Loop || phase is Branch,
        FrameView::While { phase, .. } => phase is Iterating,
        FrameView::For { phase, .. } => phase is Iterating,
        _ => false,
    }
}

/// Whether every construct from `depth` upwards was started by the
/// construct below it: none of them is an input line, each frame but the
/// top one waits for the one above, and the top one waits too when a
/// condition is about to be handed to it.
pub open spec fn linked(s: ShellView, depth: nat) -> bool {
    &&& forall|i: int| depth <= i < s.stack.len() ==> !((#[trigger] s.stack[i]) is Line)
    &&& forall|i: int| depth <= i < s.stack.len() - 1 ==> waits(#[trigger] s.stack[i])
    &&& s.returning is Some && s.stack.len() > depth ==> waits(s.stack.last())
}

/// A transition touches the top of the stack only: unless the shell exits,
/// the frames below the top stay as they are.
pub proof fn lemma_step_is_local(s: ShellView, reply: ReplyView)
    ensures
        ({
            let next = step_spec(s, reply).state;
            ||| next.stack.len() == 0 && next.returning is None
            ||| next.stack.len() >= s.stack.len() - 1 && forall|i: int|
                0 <= i < s.stack.len() - 1 ==> next.stack[i] == s.stack[i]
        }),
{
    let next = step_spec(s, reply).state;
    if s.stack.len() > 0 {
        assert(s.stack.drop_last().push(s.stack.last()) =~= s.stack);
    }
}

/// A transition keeps the constructs linked.
#[verifier::spinoff_prover]
pub proof fn lemma_step_keeps_linked(s: ShellView, reply: ReplyView, depth: nat)
    requires
        linked(s, depth),
        s.stack.len() > depth,
    ensures
        linked(step_spec(s, reply).state, depth),
{
    let next = step_spec(s, reply).state;
    assert(s.stack.drop_last().push(s.stack.last()) =~= s.stack);
    assert(!(s.stack[s.stack.len() - 1] is Line));
    lemma_step_is_local(s, reply);
    assert forall|i: int| depth <= i < next.stack.len() - 1 implies waits(
        #[trigger] next.stack[i],
    ) by {
        if i < s.stack.len() - 1 {
            assert(waits(s.stack[i]));
        }
    }
    assert forall|i: int| depth <= i < next.stack.len() implies !((#[trigger] next.stack[i])
        is Line) by {
        if i < s.stack.len() - 1 {
            assert(!(s.stack[i] is Line));
        }
    }
    if next.returning is Some && next.stack.len() > depth {
        if s.stack.len() >= 2 {
            assert(waits(s.stack[s.stack.len() - 2]) || s.stack.len() - 2 < depth);
        }
    }
}

/// Once `SigInt` is on its way up through linked constructs, or a body
/// among them is interrupted, the construct at `depth` can finish with
/// nothing but `SigInt`.
proof fn lemma_interrupt_reaches_the_bottom(s: ShellView, replies: Seq<ReplyView>, depth: nat)
    requires
        linked(s, depth),
        finishes(s, replies, depth) is Some,
        (s.returning == Some(Condition::SigInt) && s.stack.len() >= depth) || interrupted(
            s,
            replies,
            depth,
        ),
    ensures
        finishes(s, replies, depth) == Some(Condition::SigInt),
    decreases replies.len(),
{
    if s.stack.len() > depth && replies.len() > 0 {
        let reply = replies.first();
        let next = step_spec(s, reply).state;
        lemma_step_keeps_linked(s, reply, depth);
        lemma_step_is_local(s, reply);
        assert(s.stack.drop_last().push(s.stack.last()) =~= s.stack);
        if interrupts(s, reply) {
            assert(next.returning == Some(Condition::SigInt));
            assert(next.stack == s.stack.drop_last());
        } else if interrupted(next, replies.drop_first(), depth) {
        } else {
            assert(s.returning == Some(Condition::SigInt));
            assert(waits(s.stack.last()));
            if reply.kind() == s.awaits() {
                assert(next.returning == Some(Condition::SigInt));
                assert(next.stack == s.stack.drop_last());
            } else {
                assert(next == s);
            }
        }
        if next.stack.len() > depth || next.returning == Some(Condition::SigInt) || interrupted(
            next,
            replies.drop_first(),
            depth,
        ) {
            lemma_interrupt_reaches_the_bottom(next, replies.drop_first(), depth);
        }
    }
}

/// A construct finishes with `SigInt` only if `SigInt` was already on its
/// way or a body was interrupted before it finished.
proof fn lemma_interrupt_has_a_cause(s: ShellView, replies: Seq<ReplyView>, depth: nat)
    requires
        finishes(s, replies, depth) == Some(Condition::SigInt),
    ensures
        s.returning == Some(Condition::SigInt) || interrupted(s, replies, depth),
    decreases replies.len(),
{
    if s.stack.len() > depth && replies.len() > 0 {
        let reply = replies.first();
        let next = step_spec(s, reply).state;
        lemma_interrupt_has_a_cause(next, replies.drop_first(), depth);
        if next.returning == Some(Condition::SigInt) && !interrupts(s, reply) {
            if reply.kind() == s.awaits() {
                if s.returning is None {
                    crate::laws::lemma_interrupt_begins_at_a_poll(s, reply);
                } else {
                    crate::laws::lemma_interrupt_is_handed_on(s);
                }
            }
        }
    }
}

/// A construct that has finished has finished with `SigInt` if and only if
/// a body was interrupted on the way: a signal was taken and handled
/// without ending the shell, or `break_flow` was found set at a poll. This
/// holds of a body and of every other construct, whatever the embedding
/// shell answers, as long as the constructs above the one at `depth` were
/// started by the machine itself.
pub proof fn lemma_interrupted_iff_sigint(s: ShellView, replies: Seq<ReplyView>, depth: nat)
    requires
        s.returning is None,
        linked(s, depth),
        finishes(s, replies, depth) is Some,
    ensures
        finishes(s, replies, depth) == Some(Condition::SigInt) <==> interrupted(s, replies, depth),
{
    if finishes(s, replies, depth) == Some(Condition::SigInt) {
        lemma_interrupt_has_a_cause(s, replies, depth);
    }
    if interrupted(s, replies, depth) {
        lemma_interrupt_reaches_the_bottom(s, replies, depth);
    }
}

/// A loop never finishes with `Break` or `Continue`: whatever runs above it
/// and whatever the embedding shell answers, the loop at `depth` finishes
/// with `NoOp` or `SigInt`, if it finishes.
pub proof fn lemma_loop_finishes_with_no_op_or_sigint(
    s: ShellView,
    replies: Seq<ReplyView>,
    depth: nat,
)
    requires
        s.stack.len() > depth,
        is_loop(s.stack[depth as int]),
    ensures
        finishes(s, replies, depth) is None || finishes(s, replies, depth) == Some(Condition::NoOp)
            || finishes(s, replies, depth) == Some(Condition::SigInt),
    decreases replies.len(),
{
    if replies.len() > 0 {
        let reply = replies.first();
        let next = step_spec(s, reply).state;
        lemma_step_is_local(s, reply);
        if s.stack.len() == depth + 1 {
            assert(s.stack.last() == s.stack[depth as int]);
            if reply.kind() == s.awaits() {
                crate::laws::lemma_loops_consume_break_and_continue(s, reply);
                lemma_loop_stays_a_loop(s, reply);
            }
        }
        if next.stack.len() > depth {
            assert(is_loop(next.stack[depth as int]));
            lemma_loop_finishes_with_no_op_or_sigint(next, replies.drop_first(), depth);
        } else {
            assert(finishes(next, replies.drop_first(), depth) is None || finishes(
                next,
                replies.drop_first(),
                depth,
            ) == next.returning);
        }
    }
}

/// A loop on top of the stack that stays on the stack stays a loop.
proof fn lemma_loop_stays_a_loop(s: ShellView, reply: ReplyView)
    requires
        s.stack.len() > 0,
        is_loop(s.stack.last()),
    ensures
        ({
            let next = step_spec(s, reply).state;
            next.stack.len() >= s.stack.len() ==> is_loop(next.stack[s.stack.len() - 1])
        }),
{
    assert(s.stack.drop_last().push(s.stack.last()) =~= s.stack);
}

/// Whether the construct at `depth` finishes with `SigInt` exactly when a
/// body is interrupted before it finishes, whatever the embedding shell
/// answers.
pub open spec fn sigint_iff_interrupted(s: ShellView, depth: nat) -> bool {
    forall|replies: Seq<ReplyView>|
        (#[trigger] finishes(s, replies, depth)) is Some ==> (finishes(s, replies, depth) == Some(
            Condition::SigInt,
        ) <==> interrupted(s, replies, depth))
}

/// Whether the construct at `depth` finishes with `NoOp` or `SigInt` if it
/// finishes at all, whatever the embedding shell answers.
pub open spec fn never_break_or_continue(s: ShellView, depth: nat) -> bool {
    forall|replies: Seq<ReplyView>|
        (#[trigger] finishes(s, replies, depth)) is None || finishes(s, replies, depth) == Some(
            Condition::NoOp,
        ) || finishes(s, replies, depth) == Some(Condition::SigInt)
}

/// A construct that has just been started finishes with `SigInt` exactly
/// when a body is interrupted before it finishes; a loop that has just been
/// started never finishes with `Break` or `Continue`.
pub proof fn lemma_started_construct(s: ShellView, frame: FrameView)
    requires
        s.returning is None,
        !(frame is Line),
    ensures
        sigint_iff_interrupted(s.push(frame), s.stack.len()),
        is_loop(frame) ==> never_break_or_continue(s.push(frame), s.stack.len()),
{
    let started = s.push(frame);
    let depth = s.stack.len();
    assert(started.stack[depth as int] == frame);
    assert(linked(started, depth));
    assert forall|replies: Seq<ReplyView>|
        (#[trigger] finishes(started, replies, depth)) is Some implies (finishes(
        started,
        replies,
        depth,
    ) == Some(Condition::SigInt) <==> interrupted(started, replies, depth)) by {
        lemma_interrupted_iff_sigint(started, replies, depth);
    }
    if is_loop(frame) {
        assert forall|replies: Seq<ReplyView>|
            (#[trigger] finishes(started, replies, depth)) is None || finishes(
                started,
                replies,
                depth,
            ) == Some(Condition::NoOp) || finishes(started, replies, depth) == Some(
                Condition::SigInt,
            ) by {
            lemma_loop_finishes_with_no_op_or_sigint(started, replies, depth);
        }
    }
}

} // verus!
