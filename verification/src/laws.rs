//! Laws of the machine: what holds of every state and every answer.

use crate::ast::{CaseView, Condition, ForExpressionView, StatementView};
use crate::balance::depth_after;
use crate::collect_laws::{
    lemma_collect_if_takes_what_stays_inside, lemma_collect_loops_takes_the_block,
    lemma_collect_loops_takes_what_stays_inside, lemma_gather_in_pieces, part_depth_after,
};
use crate::flow_control::{collect_if_spec, deeper};
use crate::shell::{execute_toplevel_spec, while_spec};
use crate::flow_control::{FlowControlView, IfMode};
use crate::shell::{
    exits_on, gather, on_command_spec, pattern_matches, start_spec, step_spec, BodyPhase,
    ForPhase, FrameView, LinePhase, MatchPhase, Outcome, ReplyView, RequestView, ShellView,
    WhilePhase,
};
use vstd::prelude::*;

verus! {

/// The state after the machine has been given `replies` one after another.
pub open spec fn run_spec(s: ShellView, replies: Seq<ReplyView>) -> ShellView
    decreases replies.len(),
{
    if replies.len() == 0 {
        s
    } else {
        run_spec(step_spec(s, replies.first()).state, replies.drop_first())
    }
}

/// Putting a construct on the stack and taking it off again changes nothing.
pub proof fn lemma_push_then_base(s: ShellView, frame: FrameView)
    ensures
        s.push(frame).base() == s,
        s.push(frame).stack.last() == frame,
        s.push(frame).stack.len() == s.stack.len() + 1,
{
    assert(s.stack.push(frame).drop_last() =~= s.stack);
}

/// An empty body finishes with `NoOp` in one transition, and asks for
/// nothing on the way.
pub proof fn lemma_empty_body_is_no_op(s: ShellView)
    requires
        s.returning is None,
    ensures
        ({
            let started = start_spec(
                s,
                FrameView::Body { stream: Seq::empty(), phase: BodyPhase::Ready },
            );
            let done = step_spec(started.state, ReplyView::Proceed);
            &&& started.request == RequestView::Proceed
            &&& done.request == RequestView::Proceed
            &&& done.state == s.finishing(Condition::NoOp)
        }),
{
    lemma_push_then_base(s, FrameView::Body { stream: Seq::empty(), phase: BodyPhase::Ready });
}

/// A `for` loop over the integers from `start` up to `end` runs its body
/// not once when `start >= end`: once the range is known the loop finishes
/// with `NoOp`, sets no variable and starts no body.
pub proof fn lemma_empty_range_runs_nothing(
    s: ShellView,
    variable: Seq<char>,
    values: Seq<Seq<char>>,
    statements: Seq<StatementView>,
    start: nat,
    end: nat,
)
    requires
        s.returning is None,
        start >= end,
    ensures
        ({
            let resolving = s.push(
                FrameView::For {
                    variable,
                    values,
                    remaining: Seq::empty(),
                    statements,
                    phase: ForPhase::Resolving,
                },
            );
            let known = step_spec(
                resolving,
                ReplyView::Values(ForExpressionView::Range(start, end)),
            );
            let done = step_spec(known.state, ReplyView::Proceed);
            &&& known.request == RequestView::Proceed
            &&& done.request == RequestView::Proceed
            &&& done.state == s.finishing(Condition::NoOp)
        }),
{
    let resolving = FrameView::For {
        variable,
        values,
        remaining: Seq::empty(),
        statements,
        phase: ForPhase::Resolving,
    };
    lemma_push_then_base(s, resolving);
    let next = FrameView::For {
        variable,
        values,
        remaining: crate::text::range_words(start, end),
        statements,
        phase: ForPhase::Next,
    };
    lemma_push_then_base(s, next);
}

/// Running on two runs of answers in a row is running on the first and
/// then on the second.
pub proof fn lemma_run_concat(s: ShellView, a: Seq<ReplyView>, b: Seq<ReplyView>)
    ensures
        run_spec(s, a + b) == run_spec(run_spec(s, a), b),
    decreases a.len(),
{
    if a.len() == 0 {
        assert(a + b =~= b);
    } else {
        assert((a + b).first() == a.first());
        assert((a + b).drop_first() =~= a.drop_first() + b);
        lemma_run_concat(step_spec(s, a.first()).state, a.drop_first(), b);
    }
}

/// The answers that a `match` gets while it tries arms with patterns: for
/// each arm the go-ahead to try it and then the words of its pattern.
pub open spec fn pattern_replies(expansions: Seq<Seq<Seq<char>>>) -> Seq<ReplyView>
    decreases expansions.len(),
{
    if expansions.len() == 0 {
        Seq::empty()
    } else {
        seq![ReplyView::Proceed, ReplyView::Words(expansions.first())] + pattern_replies(
            expansions.drop_first(),
        )
    }
}

/// The `match` that is about to try the arms `cases`; `statements` are those
/// of the arm it tried last.
pub open spec fn selecting(
    expression: Seq<char>,
    value: Seq<Seq<char>>,
    cases: Seq<CaseView>,
    statements: Seq<StatementView>,
) -> FrameView {
    FrameView::Match { expression, value, cases, statements, phase: MatchPhase::Select }
}

/// A `match` passes over the arms whose patterns do not select the value:
/// whatever those patterns expand to, once they have been tried the `match`
/// is about to try the arms after them, and nothing else has changed.
#[verifier::spinoff_prover]
pub proof fn lemma_match_passes_over_arms(
    s: ShellView,
    expression: Seq<char>,
    value: Seq<Seq<char>>,
    cases: Seq<CaseView>,
    statements: Seq<StatementView>,
    expansions: Seq<Seq<Seq<char>>>,
)
    requires
        s.returning is None,
        expansions.len() <= cases.len(),
        forall|i: int| 0 <= i < expansions.len() ==> cases[i].value is Some,
        forall|i: int| 0 <= i < expansions.len() ==> !pattern_matches(expansions[i], value),
    ensures
        run_spec(s.push(selecting(expression, value, cases, statements)), pattern_replies(expansions))
            == s.push(
            selecting(
                expression,
                value,
                cases.skip(expansions.len() as int),
                if expansions.len() == 0 {
                    statements
                } else {
                    cases[expansions.len() - 1].statements
                },
            ),
        ),
    decreases expansions.len(),
{
    let frame = selecting(expression, value, cases, statements);
    lemma_push_then_base(s, frame);
    let replies = pattern_replies(expansions);
    if expansions.len() == 0 {
        assert(cases.skip(0) =~= cases);
    } else {
        let trying = FrameView::Match {
            expression,
            value,
            cases: cases.drop_first(),
            statements: cases.first().statements,
            phase: MatchPhase::Matching,
        };
        let next = selecting(expression, value, cases.drop_first(), cases.first().statements);
        lemma_push_then_base(s, trying);
        let rest = pattern_replies(expansions.drop_first());
        assert(replies.first() == ReplyView::Proceed);
        assert(replies.drop_first() =~= seq![ReplyView::Words(expansions.first())] + rest);
        assert(replies.drop_first().first() == ReplyView::Words(expansions.first()));
        assert(replies.drop_first().drop_first() =~= rest);
        assert(cases[0].value is Some);
        assert(!pattern_matches(expansions[0], value));
        assert(step_spec(s.push(frame), ReplyView::Proceed).state == s.push(trying));
        assert(step_spec(s.push(trying), ReplyView::Words(expansions.first())).state == s.push(
            next,
        ));
        assert(run_spec(s.push(frame), replies) == run_spec(s.push(next), rest)) by {
            reveal_with_fuel(run_spec, 3);
        }
        assert forall|i: int| 0 <= i < expansions.drop_first().len() implies cases.drop_first()[i].value
            is Some && !pattern_matches(expansions.drop_first()[i], value) by {
            assert(cases[i + 1].value is Some);
            assert(!pattern_matches(expansions[i + 1], value));
        }
        lemma_match_passes_over_arms(
            s,
            expression,
            value,
            cases.drop_first(),
            cases.first().statements,
            expansions.drop_first(),
        );
        assert(cases.drop_first().skip(expansions.len() - 1) =~= cases.skip(
            expansions.len() as int,
        ));
        if expansions.len() > 1 {
            assert(cases.drop_first()[expansions.len() - 2] == cases[expansions.len() - 1]);
        }
    }
}

/// A `match` none of whose arms is the catch-all and none of whose patterns
/// selects the value finishes with `NoOp` and runs no arm: whatever the
/// patterns expand to, once all arms have been tried the state is that
/// before the `match` with `NoOp` to hand on.
pub proof fn lemma_match_without_a_match_is_no_op(
    s: ShellView,
    expression: Seq<char>,
    value: Seq<Seq<char>>,
    cases: Seq<CaseView>,
    statements: Seq<StatementView>,
    expansions: Seq<Seq<Seq<char>>>,
)
    requires
        s.returning is None,
        expansions.len() == cases.len(),
        forall|i: int| 0 <= i < cases.len() ==> cases[i].value is Some,
        forall|i: int| 0 <= i < expansions.len() ==> !pattern_matches(expansions[i], value),
    ensures
        run_spec(
            s.push(selecting(expression, value, cases, statements)),
            pattern_replies(expansions) + seq![ReplyView::Proceed],
        ) == s.finishing(Condition::NoOp),
{
    lemma_match_passes_over_arms(s, expression, value, cases, statements, expansions);
    lemma_run_concat(
        s.push(selecting(expression, value, cases, statements)),
        pattern_replies(expansions),
        seq![ReplyView::Proceed],
    );
    let last = if expansions.len() == 0 {
        statements
    } else {
        cases[expansions.len() - 1].statements
    };
    let exhausted = selecting(expression, value, cases.skip(cases.len() as int), last);
    lemma_push_then_base(s, exhausted);
    assert(seq![ReplyView::Proceed].drop_first() =~= Seq::<ReplyView>::empty());
    assert(run_spec(s.push(exhausted), seq![ReplyView::Proceed]) == s.finishing(Condition::NoOp))
        by {
        reveal_with_fuel(run_spec, 2);
    }
}

/// A `match` runs the first arm that is the catch-all or whose pattern
/// selects the value: after the arms before it have been passed over, the
/// statements of that arm are the body that runs in place of the `match`.
/// `words` is what the pattern of that arm expands to; for the catch-all
/// nothing is expanded.
#[verifier::spinoff_prover]
pub proof fn lemma_match_runs_the_first_arm_that_matches(
    s: ShellView,
    expression: Seq<char>,
    value: Seq<Seq<char>>,
    cases: Seq<CaseView>,
    statements: Seq<StatementView>,
    expansions: Seq<Seq<Seq<char>>>,
    words: Seq<Seq<char>>,
)
    requires
        s.returning is None,
        expansions.len() < cases.len(),
        forall|i: int| 0 <= i < expansions.len() ==> cases[i].value is Some,
        forall|i: int| 0 <= i < expansions.len() ==> !pattern_matches(expansions[i], value),
        cases[expansions.len() as int].value is Some ==> pattern_matches(words, value),
    ensures
        run_spec(
            s.push(selecting(expression, value, cases, statements)),
            pattern_replies(expansions) + if cases[expansions.len() as int].value is Some {
                seq![ReplyView::Proceed, ReplyView::Words(words)]
            } else {
                seq![ReplyView::Proceed]
            },
        ) == s.push(
            FrameView::Body {
                stream: cases[expansions.len() as int].statements,
                phase: BodyPhase::Ready,
            },
        ),
{
    let chosen = cases[expansions.len() as int];
    let tail = if chosen.value is Some {
        seq![ReplyView::Proceed, ReplyView::Words(words)]
    } else {
        seq![ReplyView::Proceed]
    };
    lemma_match_passes_over_arms(s, expression, value, cases, statements, expansions);
    lemma_run_concat(
        s.push(selecting(expression, value, cases, statements)),
        pattern_replies(expansions),
        tail,
    );
    let last = if expansions.len() == 0 {
        statements
    } else {
        cases[expansions.len() - 1].statements
    };
    let left = cases.skip(expansions.len() as int);
    assert(left.first() == chosen);
    let reached = selecting(expression, value, left, last);
    lemma_push_then_base(s, reached);
    let body = FrameView::Body { stream: chosen.statements, phase: BodyPhase::Ready };
    if chosen.value is Some {
        let trying = FrameView::Match {
            expression,
            value,
            cases: left.drop_first(),
            statements: chosen.statements,
            phase: MatchPhase::Matching,
        };
        lemma_push_then_base(s, trying);
        assert(step_spec(s.push(reached), ReplyView::Proceed).state == s.push(trying));
        assert(step_spec(s.push(trying), ReplyView::Words(words)).state == s.push(body));
        assert(tail.first() == ReplyView::Proceed);
        assert(tail.drop_first() =~= seq![ReplyView::Words(words)]);
        assert(tail.drop_first().first() == ReplyView::Words(words));
        assert(tail.drop_first().drop_first() =~= Seq::<ReplyView>::empty());
        assert(run_spec(s.push(reached), tail) == s.push(body)) by {
            reveal_with_fuel(run_spec, 3);
        }
    } else {
        assert(step_spec(s.push(reached), ReplyView::Proceed).state == s.push(body));
        assert(tail.drop_first() =~= Seq::<ReplyView>::empty());
        assert(run_spec(s.push(reached), tail) == s.push(body)) by {
            reveal_with_fuel(run_spec, 2);
        }
    }
}

/// The answers that a conditional gets while its conditions fail: for each
/// the go-ahead to test it and then its status.
pub open spec fn condition_replies(statuses: Seq<Option<i32>>) -> Seq<ReplyView>
    decreases statuses.len(),
{
    if statuses.len() == 0 {
        Seq::empty()
    } else {
        seq![ReplyView::Proceed, ReplyView::Status(statuses.first())] + condition_replies(
            statuses.drop_first(),
        )
    }
}

/// The part of a conditional that the condition number `at` guards: the
/// first part for the condition of the `if` itself, then the arms in order.
pub open spec fn guarded_part(
    success: Seq<StatementView>,
    else_if: Seq<crate::ast::ElseIfView>,
    at: int,
) -> Seq<StatementView> {
    if at == 0 {
        success
    } else {
        else_if[at - 1].success
    }
}

/// A conditional runs the first part whose condition succeeds, and the
/// `else` part when none does: after the conditions before it have failed
/// with `failed` and the next has come back with `last`, the body that runs
/// in place of the conditional is the part which that condition guards if
/// `last` is success, and the `else` part if it is not and no arm is left.
#[verifier::spinoff_prover]
pub proof fn lemma_if_runs_the_first_part_that_succeeds(
    s: ShellView,
    expression: crate::ast::PipelineView,
    success: Seq<StatementView>,
    else_if: Seq<crate::ast::ElseIfView>,
    failure: Seq<StatementView>,
    failed: Seq<Option<i32>>,
    last: Option<i32>,
)
    requires
        s.returning is None,
        failed.len() <= else_if.len(),
        forall|i: int| 0 <= i < failed.len() ==> failed[i] != Some(crate::shell::SUCCESS),
        last == Some(crate::shell::SUCCESS) || failed.len() == else_if.len(),
    ensures
        run_spec(
            s.push(
                FrameView::If {
                    expression,
                    success,
                    else_if,
                    failure,
                    phase: crate::shell::IfPhase::Ready,
                },
            ),
            condition_replies(failed) + seq![ReplyView::Proceed, ReplyView::Status(last)],
        ).stack == s.stack.push(
            FrameView::Body {
                stream: if last == Some(crate::shell::SUCCESS) {
                    guarded_part(success, else_if, failed.len() as int)
                } else {
                    failure
                },
                phase: BodyPhase::Ready,
            },
        ),
    decreases failed.len(),
{
    let ready = FrameView::If {
        expression,
        success,
        else_if,
        failure,
        phase: crate::shell::IfPhase::Ready,
    };
    let testing = FrameView::If {
        expression,
        success,
        else_if,
        failure,
        phase: crate::shell::IfPhase::Testing,
    };
    lemma_push_then_base(s, ready);
    lemma_push_then_base(s, testing);
    assert(step_spec(s.push(ready), ReplyView::Proceed).state == s.push(testing));
    let closing = seq![ReplyView::Proceed, ReplyView::Status(last)];
    let replies = condition_replies(failed) + closing;
    if failed.len() == 0 {
        assert(condition_replies(failed) =~= Seq::empty());
        assert(replies =~= closing);
        assert(closing.first() == ReplyView::Proceed);
        assert(closing.drop_first() =~= seq![ReplyView::Status(last)]);
        assert(closing.drop_first().first() == ReplyView::Status(last));
        assert(closing.drop_first().drop_first() =~= Seq::<ReplyView>::empty());
        assert(run_spec(s.push(ready), closing) == step_spec(
            s.push(testing),
            ReplyView::Status(last),
        ).state) by {
            reveal_with_fuel(run_spec, 3);
        }
    } else {
        let status = failed.first();
        let rest = condition_replies(failed.drop_first()) + closing;
        assert(replies =~= seq![ReplyView::Proceed, ReplyView::Status(status)] + rest);
        assert(replies.first() == ReplyView::Proceed);
        assert(replies.drop_first() =~= seq![ReplyView::Status(status)] + rest);
        assert(replies.drop_first().first() == ReplyView::Status(status));
        assert(replies.drop_first().drop_first() =~= rest);
        assert(failed[0] != Some(crate::shell::SUCCESS));
        let after = crate::shell::after_pipeline(s, status);
        let next = FrameView::If {
            expression: else_if.first().expression,
            success: else_if.first().success,
            else_if: else_if.drop_first(),
            failure,
            phase: crate::shell::IfPhase::Ready,
        };
        assert(step_spec(s.push(testing), ReplyView::Status(status)).state == after.push(next));
        assert(run_spec(s.push(ready), replies) == run_spec(after.push(next), rest)) by {
            reveal_with_fuel(run_spec, 3);
        }
        assert forall|i: int| 0 <= i < failed.drop_first().len() implies failed.drop_first()[i]
            != Some(crate::shell::SUCCESS) by {
            assert(failed[i + 1] != Some(crate::shell::SUCCESS));
        }
        lemma_if_runs_the_first_part_that_succeeds(
            after,
            else_if.first().expression,
            else_if.first().success,
            else_if.drop_first(),
            failure,
            failed.drop_first(),
            last,
        );
        if failed.len() > 1 {
            assert(else_if.drop_first()[failed.len() - 2] == else_if[failed.len() - 1]);
        }
    }
}

/// Whether a frame is a loop.
pub open spec fn is_loop(frame: FrameView) -> bool {
    frame is While || frame is For
}

/// `Break` and `Continue` end at the loop that encloses them. A loop that
/// is handed `Break` finishes with `NoOp`; one that is handed `Continue` or
/// `NoOp` stays and goes on to its next round; and whenever a loop leaves
/// the stack it hands on `NoOp` or `SigInt`, never `Break` or `Continue`.
pub proof fn lemma_loops_consume_break_and_continue(s: ShellView, reply: ReplyView)
    requires
        s.stack.len() > 0,
        is_loop(s.stack.last()),
        reply.kind() == s.awaits(),
    ensures
        ({
            let next = step_spec(s, reply).state;
            let iterating = s.stack.last() matches FrameView::While {
                phase: WhilePhase::Iterating,
                ..
            } || s.stack.last() matches FrameView::For { phase: ForPhase::Iterating, .. };
            &&& next.returning is Some ==> next.returning == Some(Condition::NoOp)
                || next.returning == Some(Condition::SigInt)
            &&& next.returning is Some ==> next.stack == s.stack.drop_last()
            &&& next.returning is None ==> next.stack.len() >= s.stack.len()
            &&& iterating && s.returning == Some(Condition::Break) ==> next.returning == Some(
                Condition::NoOp,
            )
            &&& iterating && s.returning == Some(Condition::Continue) ==> next.returning is None
                && is_loop(next.stack.last()) && next.stack.len() == s.stack.len()
        }),
{
    assert(s.stack.drop_last().push(s.stack.last()) =~= s.stack);
}

/// Whether the answer `reply` tells a body in state `s` that it has been
/// interrupted: a signal was taken and handled without ending the shell, or
/// no signal was pending and `break_flow` was set.
pub open spec fn interrupts(s: ShellView, reply: ReplyView) -> bool {
    &&& s.returning is None
    &&& s.stack.len() > 0
    &&& s.stack.last() matches FrameView::Body { phase, .. }
    &&& (phase is Handling && reply == ReplyView::Handled(false)) || (phase is Polling && reply
        == ReplyView::Signal(None) && s.break_flow)
}

/// `SigInt` comes up exactly when a body is interrupted: a transition that
/// hands nothing on before it hands on `SigInt` afterwards if and only if
/// the answer interrupts the body on top of the stack. That body then
/// leaves the stack, and a `break_flow` that interrupted it is cleared.
pub proof fn lemma_interrupt_begins_at_a_poll(s: ShellView, reply: ReplyView)
    requires
        s.returning is None,
        reply.kind() == s.awaits(),
    ensures
        step_spec(s, reply).state.returning == Some(Condition::SigInt) <==> interrupts(s, reply),
        interrupts(s, reply) ==> step_spec(s, reply).state.stack == s.stack.drop_last(),
        interrupts(s, reply) && reply is Signal ==> !step_spec(s, reply).state.break_flow,
{
}

/// `SigInt` goes all the way up: a body that waits for a loop, a
/// conditional or a `match`, and a loop that waits for its body, leave the
/// stack when they are handed `SigInt` and hand it on. Nothing else turns
/// into `SigInt` on its way up.
pub proof fn lemma_interrupt_is_handed_on(s: ShellView)
    requires
        s.returning is Some,
    ensures
        ({
            let next = step_spec(s, ReplyView::Proceed);
            let waiting = s.stack.len() > 0 && match s.stack.last() {
                FrameView::Body { phase, .. } => phase is Loop || phase is Branch,
                FrameView::While { phase, .. } => phase is Iterating,
                FrameView::For { phase, .. } => phase is Iterating,
                _ => false,
            };
            &&& s.returning == Some(Condition::SigInt) && waiting ==> next.state.returning == Some(
                Condition::SigInt,
            ) && next.state.stack == s.stack.drop_last()
            &&& s.returning == Some(Condition::SigInt) && !waiting ==> next.request
                == RequestView::Finished(Condition::SigInt) || (s.stack.len() > 0
                && s.stack.last() is Line)
            &&& next.state.returning == Some(Condition::SigInt) ==> s.returning == Some(
                Condition::SigInt,
            )
        }),
{
}

/// The statement that is due in `s`: the first statement of the line or
/// body on top of the stack, when that is ready for it.
pub open spec fn statement_due(s: ShellView) -> Option<StatementView> {
    if s.returning is None && s.stack.len() > 0 {
        match s.stack.last() {
            FrameView::Line { stream, phase } => if phase is Ready && stream.len() > 0 {
                Some(stream.first())
            } else {
                None
            },
            FrameView::Body { stream, phase } => if phase is Ready && stream.len() > 0 {
                Some(stream.first())
            } else {
                None
            },
            _ => None,
        }
    } else {
        None
    }
}

/// The status that the shell holds after the answer `reply`: the status of
/// the pipeline or binding that the answer reports, or the status that an
/// `Error` statement now due carries, or else the status it held before.
pub open spec fn status_due(s: ShellView, reply: ReplyView) -> i32 {
    match reply {
        ReplyView::Status(Some(code)) => code,
        ReplyView::Code(code) => code,
        _ => match statement_due(s) {
            Some(StatementView::Error(code)) => code,
            _ => s.previous_status,
        },
    }
}

/// The status that the shell holds after a transition is the status of the
/// pipeline or binding that the answer reports, or the status that an
/// `Error` statement carries; no other transition changes it.
pub proof fn lemma_status_is_the_last_one_reported(s: ShellView, reply: ReplyView)
    requires
        reply.kind() == s.awaits(),
    ensures
        step_spec(s, reply).state.previous_status == status_due(s, reply),
{
}

/// With `ERR_EXIT` set, a pipeline statement that fails ends the shell with
/// its status, at the top level and in a body alike; the condition of a
/// loop or a conditional never does.
pub proof fn lemma_exit_on_error(s: ShellView, code: i32)
    requires
        s.returning is None,
        s.stack.len() > 0,
        s.awaits() == crate::shell::Awaited::Status,
    ensures
        ({
            let next = step_spec(s, ReplyView::Status(Some(code)));
            let statement = s.stack.last() is Line || s.stack.last() is Body;
            &&& statement && exits_on(s.flags, code) ==> next.request == RequestView::Exit(code)
                && next.state.stack.len() == 0
            &&& !(statement && exits_on(s.flags, code)) ==> !(next.request is Exit)
        }),
{
}

/// The three go-aheads after which a line that leaves a block open has
/// been taken in full: its statements are collected, the line ends, and
/// the end is reported.
pub open spec fn line_taken() -> Seq<ReplyView> {
    seq![ReplyView::Proceed, ReplyView::Proceed, ReplyView::Proceed]
}

/// The state after three transitions on the go-ahead.
proof fn lemma_three_steps(s: ShellView)
    ensures
        run_spec(s, line_taken()) == step_spec(
            step_spec(step_spec(s, ReplyView::Proceed).state, ReplyView::Proceed).state,
            ReplyView::Proceed,
        ).state,
{
    let taken = line_taken();
    assert(taken.first() == ReplyView::Proceed);
    assert(taken.drop_first() =~= seq![ReplyView::Proceed, ReplyView::Proceed]);
    assert(taken.drop_first().first() == ReplyView::Proceed);
    assert(taken.drop_first().drop_first() =~= seq![ReplyView::Proceed]);
    assert(taken.drop_first().drop_first().first() == ReplyView::Proceed);
    assert(taken.drop_first().drop_first().drop_first() =~= Seq::empty());
    reveal_with_fuel(run_spec, 4);
}

/// A line that has no statements left ends, and its end is reported; the
/// machine is then as it was below the line.
proof fn lemma_line_ends(s: ShellView)
    requires
        s.idle(),
    ensures
        ({
            let ended = s.push(FrameView::Line { stream: Seq::empty(), phase: LinePhase::Ready });
            let one = step_spec(ended, ReplyView::Proceed).state;
            let two = step_spec(one, ReplyView::Proceed).state;
            &&& two == s
            &&& step_spec(s, ReplyView::Proceed).state == s
        }),
{
    lemma_push_then_base(s, FrameView::Line { stream: Seq::empty(), phase: LinePhase::Ready });
}

/// The first transition of a line that begins with a compound statement,
/// in a shell with nothing pending: the statement collects its blocks from
/// the line, and what becomes of it is what becomes of a pending statement.
#[verifier::spinoff_prover]
proof fn lemma_line_begins_with_a_block(
    s: ShellView,
    opener: StatementView,
    rest: Seq<StatementView>,
)
    requires
        s.idle(),
        s.flow_control == FlowControlView::clean(),
        opener.opens(),
        !(opener is Match && gather(opener, rest, 1, IfMode::Success).error is Some),
    ensures
        step_spec(
            s.push(FrameView::Line { stream: seq![opener] + rest, phase: LinePhase::Ready }),
            ReplyView::Proceed,
        ) == crate::shell::after_gathering(s, gather(opener, rest, 1, IfMode::Success)),
{
    let line = seq![opener] + rest;
    assert(line.first() == opener && line.drop_first() =~= rest);
    lemma_push_then_base(s, FrameView::Line { stream: line, phase: LinePhase::Ready });
    crate::collect_laws::lemma_gather_fails_only_on_an_error(opener, rest, 1, IfMode::Success);
    let g = gather(opener, rest, 1, IfMode::Success);
    let t = crate::shell::execute_toplevel_spec(s, opener, rest);
    let one = step_spec(
        s.push(FrameView::Line { stream: line, phase: LinePhase::Ready }),
        ReplyView::Proceed,
    );
    assert(one == crate::shell::line_spec(s, line, LinePhase::Ready, ReplyView::Proceed));
    assert(crate::flow_control::deeper(0) == 1);
    if g.error is Some {
        assert(t.state.reset() == s.clean());
    } else if g.level != 0 {
        assert(g.mode == if opener is If {
            g.mode
        } else {
            IfMode::Success
        });
    } else if opener is Function {
        assert(s.with_level(0) == s.clean());
    } else {
        assert(s.with_level(0) == s.clean());
        assert(crate::shell::frame_of(g.statement) is Some);
    }
}

/// A compound statement fed on one line and the same statement fed on two
/// lines, split between any two of its statements, lead to the same state
/// and the same request: the same blocks are collected, and the statement
/// is about to run, or is pending, or has failed, in the same way. A `match`
/// into which a statement strays is left out: on one line the line goes on
/// after that statement, across lines what is left of the line is dropped.
#[verifier::spinoff_prover]
pub proof fn lemma_one_line_or_two(
    s: ShellView,
    opener: StatementView,
    a: Seq<StatementView>,
    b: Seq<StatementView>,
)
    requires
        s.idle(),
        s.flow_control == FlowControlView::clean(),
        opener.opens(),
        gather(opener, a, 1, IfMode::Success).error is None,
        gather(opener, a, 1, IfMode::Success).level != 0,
        !(opener is Match && gather(opener, a + b, 1, IfMode::Success).error is Some),
    ensures
        ({
            let first = run_spec(on_command_spec(s, seq![opener] + a).state, line_taken());
            let g = gather(opener, a, 1, IfMode::Success);
            &&& first.idle()
            &&& first.flow_control == (FlowControlView {
                level: g.level,
                current_statement: g.statement,
                current_if_mode: g.mode,
            })
            &&& g.statement.opens()
            &&& on_command_spec(first, b) == step_spec(
                on_command_spec(s, seq![opener] + a + b).state,
                ReplyView::Proceed,
            )
        }),
{
    let fresh = ShellView { break_flow: false, ..s };
    let g = gather(opener, a, 1, IfMode::Success);
    lemma_gather_in_pieces(opener, a, b, 1, IfMode::Success);
    crate::collect_laws::lemma_gather_fails_only_on_an_error(opener, a, 1, IfMode::Success);
    assert(g.rest =~= Seq::empty());
    let stored = fresh.pending(g.statement, g.level, g.mode);
    lemma_line_begins_with_a_block(fresh, opener, a);
    lemma_line_ends(stored);
    lemma_three_steps(on_command_spec(s, seq![opener] + a).state);
    assert(run_spec(on_command_spec(s, seq![opener] + a).state, line_taken()) == stored);
    assert(seq![opener] + a + b =~= seq![opener] + (a + b));
    lemma_line_begins_with_a_block(fresh, opener, a + b);
    assert(ShellView { break_flow: false, ..stored } == stored);
    assert(on_command_spec(stored, b) == crate::shell::after_gathering(
        stored,
        gather(g.statement, b, g.level, g.mode),
    ));
    lemma_after_gathering_forgets_the_accumulator(
        fresh,
        stored,
        gather(g.statement, b, g.level, g.mode),
    );
}

/// What becomes of a collected statement does not depend on what the
/// accumulator held before.
proof fn lemma_after_gathering_forgets_the_accumulator(
    s: ShellView,
    t: ShellView,
    g: crate::shell::Gathered,
)
    requires
        t == (ShellView { flow_control: t.flow_control, ..s }),
    ensures
        crate::shell::after_gathering(s, g) == crate::shell::after_gathering(t, g),
{
    assert(s.clean() == t.clean());
    assert(s.pending(g.statement, g.level, g.mode) == t.pending(g.statement, g.level, g.mode));
}

/// A line that leaves the pending statement open, followed by another line,
/// leads to the same state and the same request as the two lines fed as
/// one.
#[verifier::spinoff_prover]
pub proof fn lemma_two_lines_or_one(s: ShellView, a: Seq<StatementView>, b: Seq<StatementView>)
    requires
        s.idle(),
        s.flow_control.level >= 1,
        s.flow_control.current_statement.opens(),
        gather(
            s.flow_control.current_statement,
            a,
            s.flow_control.level,
            s.flow_control.current_if_mode,
        ).error is None,
        gather(
            s.flow_control.current_statement,
            a,
            s.flow_control.level,
            s.flow_control.current_if_mode,
        ).level != 0,
        !(gather(
            s.flow_control.current_statement,
            a,
            s.flow_control.level,
            s.flow_control.current_if_mode,
        ).mode is Error),
    ensures
        ({
            let first = run_spec(on_command_spec(s, a).state, line_taken());
            let g = gather(
                s.flow_control.current_statement,
                a,
                s.flow_control.level,
                s.flow_control.current_if_mode,
            );
            &&& first.idle()
            &&& first.flow_control == (FlowControlView {
                level: g.level,
                current_statement: g.statement,
                current_if_mode: g.mode,
            })
            &&& g.statement.opens()
            &&& on_command_spec(first, b) == on_command_spec(s, a + b)
        }),
{
    let fresh = ShellView { break_flow: false, ..s };
    let g = gather(
        s.flow_control.current_statement,
        a,
        s.flow_control.level,
        s.flow_control.current_if_mode,
    );
    lemma_gather_in_pieces(
        s.flow_control.current_statement,
        a,
        b,
        s.flow_control.level,
        s.flow_control.current_if_mode,
    );
    assert(g.rest =~= Seq::empty());
    let stored = fresh.pending(g.statement, g.level, g.mode);
    lemma_line_ends(stored);
    lemma_three_steps(on_command_spec(s, a).state);
    assert(run_spec(on_command_spec(s, a).state, line_taken()) == stored);
    assert(ShellView { break_flow: false, ..stored } == stored);
    lemma_after_gathering_forgets_the_accumulator(
        fresh,
        stored,
        gather(g.statement, b, g.level, g.mode),
    );
}

/// The state after a line has been taken in full.
pub open spec fn feed(s: ShellView, line: Seq<StatementView>) -> ShellView {
    run_spec(on_command_spec(s, line).state, line_taken())
}

/// The state after each of `lines` has been taken in full, one after
/// another.
pub open spec fn feed_all(s: ShellView, lines: Seq<Seq<StatementView>>) -> ShellView
    decreases lines.len(),
{
    if lines.len() == 0 {
        s
    } else {
        feed_all(feed(s, lines.first()), lines.drop_first())
    }
}

/// The statements of `lines` in one line.
pub open spec fn joined(lines: Seq<Seq<StatementView>>) -> Seq<StatementView>
    decreases lines.len(),
{
    if lines.len() == 0 {
        Seq::empty()
    } else {
        lines.first() + joined(lines.drop_first())
    }
}

/// Whether each of `lines`, fed one after another, leaves the pending
/// statement open and in order.
pub open spec fn leave_open(s: ShellView, lines: Seq<Seq<StatementView>>) -> bool
    decreases lines.len(),
{
    if lines.len() == 0 {
        true
    } else {
        let g = gather(
            s.flow_control.current_statement,
            lines.first(),
            s.flow_control.level,
            s.flow_control.current_if_mode,
        );
        g.error is None && g.level != 0 && !(g.mode is Error) && leave_open(
            feed(s, lines.first()),
            lines.drop_first(),
        )
    }
}

/// A pending statement that is fed any number of lines which leave it
/// open, and then one more line, is in the state, and makes the request,
/// of the same statement fed all those lines as one.
#[verifier::spinoff_prover]
pub proof fn lemma_many_lines_or_one(
    s: ShellView,
    lines: Seq<Seq<StatementView>>,
    last: Seq<StatementView>,
)
    requires
        s.idle(),
        s.flow_control.level >= 1,
        s.flow_control.current_statement.opens(),
        leave_open(s, lines),
    ensures
        feed_all(s, lines).idle(),
        on_command_spec(feed_all(s, lines), last) == on_command_spec(s, joined(lines) + last),
    decreases lines.len(),
{
    if lines.len() == 0 {
        assert(joined(lines) + last =~= last);
    } else {
        let line = lines.first();
        let rest = lines.drop_first();
        lemma_two_lines_or_one(s, line, joined(rest) + last);
        lemma_many_lines_or_one(feed(s, line), rest, last);
        assert(joined(lines) + last =~= line + (joined(rest) + last));
    }
}

/// A compound statement fed on any number of lines, split between any of
/// its statements, is in the state, and makes the request, of the same
/// statement fed on one line. `first` is what follows the statement on its
/// own line, `lines` are the lines that leave it open, and `last` is the
/// line that is fed after them. A `match` into which a statement strays is
/// left out.
#[verifier::spinoff_prover]
pub proof fn lemma_any_number_of_lines(
    s: ShellView,
    opener: StatementView,
    first: Seq<StatementView>,
    lines: Seq<Seq<StatementView>>,
    last: Seq<StatementView>,
)
    requires
        s.idle(),
        s.flow_control == FlowControlView::clean(),
        opener.opens(),
        gather(opener, first, 1, IfMode::Success).error is None,
        gather(opener, first, 1, IfMode::Success).level != 0,
        leave_open(feed(s, seq![opener] + first), lines),
        !(opener is Match && gather(
            opener,
            first + (joined(lines) + last),
            1,
            IfMode::Success,
        ).error is Some),
    ensures
        on_command_spec(feed_all(feed(s, seq![opener] + first), lines), last) == step_spec(
            on_command_spec(s, seq![opener] + first + joined(lines) + last).state,
            ReplyView::Proceed,
        ),
{
    lemma_one_line_or_two(s, opener, first, joined(lines) + last);
    lemma_many_lines_or_one(feed(s, seq![opener] + first), lines, last);
    assert(seq![opener] + first + joined(lines) + last =~= seq![opener] + first + (joined(lines)
        + last));
}

/// A function declared and then declared again resolves to the second
/// declaration.
pub proof fn lemma_second_declaration_wins(
    s: ShellView,
    first: crate::ast::FunctionView,
    second: crate::ast::FunctionView,
)
    requires
        first.name == second.name,
    ensures
        s.declares(first).declares(second).functions[second.name] == second,
        s.declares(first).declares(second) == s.declares(second),
{
    crate::functions::lemma_redefinition_wins(s.functions, first, second);
}

/// At the top level only a conditional is ever refused: the result is an
/// error exactly when the statement is a conditional whose parts the
/// collector rejects. Nothing is asked for then and nothing is started, and
/// the state is as before but for the level.
pub proof fn lemma_toplevel_refuses_only_a_conditional(
    s: ShellView,
    head: StatementView,
    tail: Seq<StatementView>,
)
    ensures
        ({
            let t = execute_toplevel_spec(s, head, tail);
            &&& t.error is Some <==> head is If && collect_if_spec(
                tail,
                head->If_success,
                head->If_else_if,
                head->If_failure,
                deeper(s.flow_control.level),
                IfMode::Success,
            ).error is Some
            &&& t.error is Some ==> t.state == s.with_level(t.state.flow_control.level)
                && t.request == RequestView::Proceed && t.launch is None
        }),
{
}

/// A function whose body is closed on its line is declared there: from a
/// body in which every block is closed, an `End` and whatever follows, the
/// function is declared with exactly that body, no other function changes,
/// nothing is asked for, no block stays open, and what follows the `End` is
/// the rest of the line.
pub proof fn lemma_toplevel_declares_the_function(
    s: ShellView,
    name: Seq<char>,
    description: Seq<char>,
    args: Seq<Seq<char>>,
    body: Seq<StatementView>,
    following: Seq<StatementView>,
)
    requires
        s.flow_control.level == 0,
        depth_after(body, 0) == Some(0nat),
        1 + body.len() <= usize::MAX,
    ensures
        ({
            let t = execute_toplevel_spec(
                s,
                StatementView::Function { name, description, args, statements: Seq::empty() },
                body + seq![StatementView::End] + following,
            );
            let declared = crate::ast::FunctionView { name, description, args, statements: body };
            &&& t.error is None
            &&& t.request == RequestView::Proceed
            &&& t.launch is None
            &&& t.phase == LinePhase::Ready
            &&& t.rest == following
            &&& t.state == s.declares(declared)
            &&& t.state.functions[name] == declared
            &&& forall|other: Seq<char>|
                other != name ==> t.state.functions.contains_key(other)
                    == s.functions.contains_key(other) && t.state.functions[other]
                    == s.functions[other]
        }),
{
    lemma_collect_loops_takes_the_block(body, following, Seq::empty());
    assert(Seq::<StatementView>::empty() + body =~= body);
    assert(deeper(0) == 1);
    assert(s.with_level(0) == s);
}

/// The statement `opener` with `more` added to the block that it fills
/// first: the body of a loop or a function, the first part of a
/// conditional.
pub open spec fn extended(opener: StatementView, more: Seq<StatementView>) -> StatementView {
    match opener {
        StatementView::While { expression, statements } => StatementView::While {
            expression,
            statements: statements + more,
        },
        StatementView::For { variable, values, statements } => StatementView::For {
            variable,
            values,
            statements: statements + more,
        },
        StatementView::Function { name, description, args, statements } => StatementView::Function {
            name,
            description,
            args,
            statements: statements + more,
        },
        StatementView::If { expression, success, else_if, failure } => StatementView::If {
            expression,
            success: success + more,
            else_if,
            failure,
        },
        _ => opener,
    }
}

/// A loop, a function or a conditional whose line ends before its block is
/// closed becomes the pending statement: it holds every statement of the
/// rest of its line, in order, the level is one more than the number of
/// nested blocks that these leave open, nothing is asked for and nothing is
/// started.
pub proof fn lemma_toplevel_keeps_what_stays_open(
    s: ShellView,
    opener: StatementView,
    tail: Seq<StatementView>,
    open: nat,
)
    requires
        s.flow_control.level == 0,
        opener is While || opener is For || opener is Function || opener is If,
        1 + tail.len() <= usize::MAX,
        opener is If ==> part_depth_after(tail, 0) == Some(open),
        !(opener is If) ==> depth_after(tail, 0) == Some(open),
    ensures
        ({
            let t = execute_toplevel_spec(s, opener, tail);
            &&& t.error is None
            &&& t.request == RequestView::Proceed
            &&& t.launch is None
            &&& t.rest == Seq::<StatementView>::empty()
            &&& t.state == s.pending(
                extended(opener, tail),
                (open + 1) as usize,
                s.flow_control.current_if_mode,
            ) || (opener is If && t.state == s.pending(
                extended(opener, tail),
                (open + 1) as usize,
                IfMode::Success,
            ))
        }),
{
    assert(deeper(0) == 1);
    match opener {
        StatementView::If { expression, success, else_if, failure } => {
            lemma_collect_if_takes_what_stays_inside(
                tail,
                success,
                else_if,
                failure,
                1,
                IfMode::Success,
                open,
            );
        },
        StatementView::While { expression, statements } => {
            lemma_collect_loops_takes_what_stays_inside(tail, statements, 1, open);
        },
        StatementView::For { variable, values, statements } => {
            lemma_collect_loops_takes_what_stays_inside(tail, statements, 1, open);
        },
        StatementView::Function { name, description, args, statements } => {
            lemma_collect_loops_takes_what_stays_inside(tail, statements, 1, open);
        },
        _ => {},
    }
}

/// What the machine asks for, one after another, when it is given
/// `replies`.
pub open spec fn requests_spec(s: ShellView, replies: Seq<ReplyView>) -> Seq<RequestView>
    decreases replies.len(),
{
    if replies.len() == 0 {
        Seq::empty()
    } else {
        seq![step_spec(s, replies.first()).request] + requests_spec(
            step_spec(s, replies.first()).state,
            replies.drop_first(),
        )
    }
}

/// The answers over `rounds` rounds of a `while` loop whose body ends at
/// once: in each round the go-ahead to test the condition, its success, the
/// go-ahead for the body and the go-ahead to hand on what it finished with.
pub open spec fn round_replies(rounds: nat) -> Seq<ReplyView>
    decreases rounds,
{
    if rounds == 0 {
        Seq::empty()
    } else {
        one_round() + round_replies((rounds - 1) as nat)
    }
}

/// What such a loop asks for over `rounds` rounds: in each round to run
/// the condition, and nothing else.
pub open spec fn round_requests(expression: crate::ast::PipelineView, rounds: nat) -> Seq<
    RequestView,
>
    decreases rounds,
{
    if rounds == 0 {
        Seq::empty()
    } else {
        seq![
            RequestView::RunPipeline(expression),
            RequestView::Proceed,
            RequestView::Proceed,
            RequestView::Proceed,
        ] + round_requests(expression, (rounds - 1) as nat)
    }
}

/// The answers of one round of a `while` loop whose body ends at once.
pub open spec fn one_round() -> Seq<ReplyView> {
    seq![
        ReplyView::Proceed,
        ReplyView::Status(Some(crate::shell::SUCCESS)),
        ReplyView::Proceed,
        ReplyView::Proceed,
    ]
}

/// One round of a `while` loop whose body begins with `Continue`: the
/// condition is run and succeeds, the body ends at its first statement, and
/// the loop is about to test its condition again. Nothing but the condition
/// is asked for.
#[verifier::spinoff_prover]
proof fn lemma_one_round_of_continue(
    s: ShellView,
    expression: crate::ast::PipelineView,
    statements: Seq<StatementView>,
)
    requires
        s.returning is None,
        statements.len() > 0,
        statements.first() is Continue,
    ensures
        ({
            let ready = FrameView::While { expression, statements, phase: WhilePhase::Ready };
            let after = crate::shell::after_pipeline(s, Some(crate::shell::SUCCESS));
            &&& run_spec(s.push(ready), one_round()) == after.push(ready)
            &&& requests_spec(s.push(ready), one_round()) == seq![
                RequestView::RunPipeline(expression),
                RequestView::Proceed,
                RequestView::Proceed,
                RequestView::Proceed,
            ]
        }),
{
    let ready = FrameView::While { expression, statements, phase: WhilePhase::Ready };
    let testing = FrameView::While { expression, statements, phase: WhilePhase::Testing };
    let iterating = FrameView::While { expression, statements, phase: WhilePhase::Iterating };
    let body = FrameView::Body { stream: statements, phase: BodyPhase::Ready };
    let after = crate::shell::after_pipeline(s, Some(crate::shell::SUCCESS));
    let started = s.push(ready);
    lemma_push_then_base(s, ready);
    lemma_push_then_base(s, testing);
    lemma_push_then_base(after, iterating);
    lemma_push_then_base(after.push(iterating), body);
    let one = step_spec(started, ReplyView::Proceed);
    assert(one.state == s.push(testing));
    let two = step_spec(one.state, ReplyView::Status(Some(crate::shell::SUCCESS)));
    assert(two.state == after.push(iterating).push(body));
    let three = step_spec(two.state, ReplyView::Proceed);
    assert(three.state == after.push(iterating).finishing(Condition::Continue));
    let four = step_spec(three.state, ReplyView::Proceed);
    assert(four.state == after.push(ready));
    let round = one_round();
    let r1 = round.drop_first();
    let r2 = r1.drop_first();
    let r3 = r2.drop_first();
    assert(round.first() == ReplyView::Proceed);
    assert(r1.first() == ReplyView::Status(Some(crate::shell::SUCCESS)));
    assert(r2.first() == ReplyView::Proceed);
    assert(r3.first() == ReplyView::Proceed);
    assert(r3.drop_first() =~= Seq::<ReplyView>::empty());
    assert(run_spec(four.state, r3.drop_first()) == four.state);
    assert(run_spec(three.state, r3) == four.state);
    assert(run_spec(two.state, r2) == four.state);
    assert(run_spec(one.state, r1) == four.state);
    assert(run_spec(started, round) == four.state);
    assert(requests_spec(four.state, r3.drop_first()) =~= Seq::<RequestView>::empty());
    assert(requests_spec(three.state, r3) =~= seq![four.request]);
    assert(requests_spec(two.state, r2) =~= seq![three.request, four.request]);
    assert(requests_spec(one.state, r1) =~= seq![two.request, three.request, four.request]);
    assert(requests_spec(started, round) =~= seq![
        one.request,
        two.request,
        three.request,
        four.request,
    ]);
}

/// The last test of a `while` loop: the condition is run, does not
/// succeed, and the loop finishes with `NoOp`.
#[verifier::spinoff_prover]
proof fn lemma_last_test_of_a_loop(
    s: ShellView,
    expression: crate::ast::PipelineView,
    statements: Seq<StatementView>,
    last: Option<i32>,
)
    requires
        s.returning is None,
        last != Some(crate::shell::SUCCESS),
    ensures
        ({
            let ready = FrameView::While { expression, statements, phase: WhilePhase::Ready };
            let closing = seq![ReplyView::Proceed, ReplyView::Status(last)];
            &&& run_spec(s.push(ready), closing).stack == s.stack
            &&& run_spec(s.push(ready), closing).returning == Some(Condition::NoOp)
            &&& requests_spec(s.push(ready), closing) == seq![
                RequestView::RunPipeline(expression),
                RequestView::Proceed,
            ]
        }),
{
    let ready = FrameView::While { expression, statements, phase: WhilePhase::Ready };
    let testing = FrameView::While { expression, statements, phase: WhilePhase::Testing };
    let started = s.push(ready);
    lemma_push_then_base(s, ready);
    lemma_push_then_base(s, testing);
    let one = step_spec(started, ReplyView::Proceed);
    assert(one.state == s.push(testing));
    let two = step_spec(one.state, ReplyView::Status(last));
    let closing = seq![ReplyView::Proceed, ReplyView::Status(last)];
    let c1 = closing.drop_first();
    assert(closing.first() == ReplyView::Proceed);
    assert(c1.first() == ReplyView::Status(last));
    assert(c1.drop_first() =~= Seq::<ReplyView>::empty());
    assert(run_spec(two.state, c1.drop_first()) == two.state);
    assert(run_spec(one.state, c1) == two.state);
    assert(run_spec(started, closing) == two.state);
    assert(requests_spec(two.state, c1.drop_first()) =~= Seq::<RequestView>::empty());
    assert(requests_spec(one.state, c1) =~= seq![two.request]);
    assert(requests_spec(started, closing) =~= seq![one.request, two.request]);
}

/// `Continue` skips the rest of the body but not the loop. A `while` loop
/// whose body begins with `Continue`, and whose condition succeeds `rounds`
/// times and then comes back with `last`, runs its condition `rounds` plus
/// one times and asks for nothing else, so that no statement after the
/// `Continue` ever runs; it then finishes with `NoOp`.
pub proof fn lemma_continue_skips_the_body_not_the_loop(
    s: ShellView,
    expression: crate::ast::PipelineView,
    statements: Seq<StatementView>,
    rounds: nat,
    last: Option<i32>,
)
    requires
        s.returning is None,
        statements.len() > 0,
        statements.first() is Continue,
        last != Some(crate::shell::SUCCESS),
    ensures
        ({
            let started = s.push(
                FrameView::While { expression, statements, phase: WhilePhase::Ready },
            );
            let replies = round_replies(rounds) + seq![ReplyView::Proceed, ReplyView::Status(last)];
            &&& requests_spec(started, replies) == round_requests(expression, rounds) + seq![
                RequestView::RunPipeline(expression),
                RequestView::Proceed,
            ]
            &&& run_spec(started, replies).stack == s.stack
            &&& run_spec(started, replies).returning == Some(Condition::NoOp)
        }),
    decreases rounds,
{
    let ready = FrameView::While { expression, statements, phase: WhilePhase::Ready };
    let started = s.push(ready);
    let closing = seq![ReplyView::Proceed, ReplyView::Status(last)];
    let asked = seq![RequestView::RunPipeline(expression), RequestView::Proceed];
    let replies = round_replies(rounds) + closing;
    if rounds == 0 {
        lemma_last_test_of_a_loop(s, expression, statements, last);
        assert(replies =~= closing);
        assert(round_requests(expression, rounds) + asked =~= asked);
    } else {
        let after = crate::shell::after_pipeline(s, Some(crate::shell::SUCCESS));
        let rest = round_replies((rounds - 1) as nat) + closing;
        assert(replies =~= one_round() + rest);
        lemma_one_round_of_continue(s, expression, statements);
        lemma_run_concat(started, one_round(), rest);
        lemma_requests_concat(started, one_round(), rest);
        lemma_continue_skips_the_body_not_the_loop(
            after,
            expression,
            statements,
            (rounds - 1) as nat,
            last,
        );
        assert(round_requests(expression, rounds) + asked =~= seq![
            RequestView::RunPipeline(expression),
            RequestView::Proceed,
            RequestView::Proceed,
            RequestView::Proceed,
        ] + (round_requests(expression, (rounds - 1) as nat) + asked));
    }
}

/// What is asked for over two runs of answers in a row is what is asked
/// for over the first and then over the second.
pub proof fn lemma_requests_concat(s: ShellView, a: Seq<ReplyView>, b: Seq<ReplyView>)
    ensures
        requests_spec(s, a + b) == requests_spec(s, a) + requests_spec(run_spec(s, a), b),
    decreases a.len(),
{
    if a.len() == 0 {
        assert(a + b =~= b);
        assert(requests_spec(s, a) + requests_spec(s, b) =~= requests_spec(s, b));
    } else {
        assert((a + b).first() == a.first());
        assert((a + b).drop_first() =~= a.drop_first() + b);
        let next = step_spec(s, a.first()).state;
        lemma_requests_concat(next, a.drop_first(), b);
        assert(requests_spec(s, a + b) =~= requests_spec(s, a) + requests_spec(run_spec(s, a), b));
    }
}

} // verus!
