//! What holds of the executor between any two transitions, as long as the
//! lines it is fed are as the parser gives them: the accumulator is clean,
//! or holds a compound statement whose open blocks the level counts, and
//! every body that runs has all its blocks closed.
//!
//! One input breaks this, and is left out: a statement that strays into a
//! `match` at the top level, before its first `case`, when a statement that
//! opens a block follows on the same line. The `match` stays pending while
//! the line goes on, so the block that follows is collected on top of it.

use crate::ast::StatementView;
use crate::balance::{
    all_bare, balanced, cases_closed, cases_fit, cases_open, depth_after, fits, if_parts_closed,
    if_parts_fit, if_parts_open, lemma_collect_cases_balance,
    lemma_collect_cases_refuses_before_the_first_case, lemma_collect_if_balance,
    lemma_collect_loops_balance, open_body,
};
use crate::flow_control::deeper;
use crate::flow_control::{FlowControlView, IfMode};
use crate::laws::run_spec;
use crate::shell::{
    after_gathering, body_spec, deliver_spec, execute_toplevel_spec, for_spec, frame_of, gather,
    if_spec, line_spec, match_spec, on_command_spec, start_spec, step_spec, while_spec,
    BodyPhase, ForPhase, FrameView, IfPhase, LinePhase, MatchPhase, ReplyView, ShellView,
    WhilePhase,
};
use vstd::prelude::*;

verus! {

/// A compound statement that is still open: `level` counts its open
/// blocks, the statement itself among them.
pub open spec fn statement_open(statement: StatementView, level: usize, mode: IfMode) -> bool {
    match statement {
        StatementView::While { statements, .. } => level >= 1 && mode is Success && open_body(
            statements,
            (level - 1) as nat,
        ),
        StatementView::For { statements, .. } => level >= 1 && mode is Success && open_body(
            statements,
            (level - 1) as nat,
        ),
        StatementView::Function { statements, .. } => level >= 1 && mode is Success && open_body(
            statements,
            (level - 1) as nat,
        ),
        StatementView::If { success, else_if, failure, .. } => if_parts_open(
            success,
            else_if,
            failure,
            level,
            mode,
        ),
        StatementView::Match { cases, .. } => mode is Success && cases_open(cases, level),
        _ => false,
    }
}

/// A compound statement in which every block is closed.
pub open spec fn statement_closed(statement: StatementView) -> bool {
    match statement {
        StatementView::While { statements, .. } => open_body(statements, 0),
        StatementView::For { statements, .. } => open_body(statements, 0),
        StatementView::Function { statements, .. } => open_body(statements, 0),
        StatementView::If { success, else_if, failure, .. } => if_parts_closed(
            success,
            else_if,
            failure,
        ),
        StatementView::Match { cases, .. } => cases_closed(cases),
        _ => false,
    }
}

/// Whether each block of a compound statement, with `more` further
/// statements, fits in a list.
pub open spec fn statement_fits(statement: StatementView, more: nat) -> bool {
    match statement {
        StatementView::While { statements, .. } => fits(statements, more),
        StatementView::For { statements, .. } => fits(statements, more),
        StatementView::Function { statements, .. } => fits(statements, more),
        StatementView::If { success, else_if, failure, .. } => if_parts_fit(
            success,
            else_if,
            failure,
            more,
        ),
        StatementView::Match { cases, .. } => cases_fit(cases, more),
        _ => true,
    }
}

/// The number of open blocks that a pending statement stands for: itself,
/// and the blocks that the part being filled leaves open.
pub open spec fn open_depth(statement: StatementView, mode: IfMode) -> Option<nat> {
    let inner = match statement {
        StatementView::While { statements, .. } => depth_after(statements, 0),
        StatementView::For { statements, .. } => depth_after(statements, 0),
        StatementView::Function { statements, .. } => depth_after(statements, 0),
        StatementView::If { success, else_if, failure, .. } => match mode {
            IfMode::Success => depth_after(success, 0),
            IfMode::ElseIfSuccess => if else_if.len() > 0 {
                depth_after(else_if.last().success, 0)
            } else {
                None
            },
            IfMode::Failure => depth_after(failure, 0),
            _ => None,
        },
        StatementView::Match { cases, .. } => if cases.len() > 0 {
            depth_after(cases.last().statements, 0)
        } else {
            Some(0)
        },
        _ => None,
    };
    match inner {
        Some(open) => Some(open + 1),
        None => None,
    }
}

/// A frame whose bodies have all their blocks closed. A line is only held
/// to be as the parser gives it.
pub open spec fn frame_ok(frame: FrameView) -> bool {
    match frame {
        FrameView::Line { stream, .. } => all_bare(stream) && stream.len() < usize::MAX,
        FrameView::Body { stream, .. } => balanced(stream),
        FrameView::While { statements, .. } => balanced(statements),
        FrameView::For { statements, .. } => balanced(statements),
        FrameView::If { success, else_if, failure, .. } => if_parts_closed(
            success,
            else_if,
            failure,
        ) && if_parts_fit(success, else_if, failure, 0),
        FrameView::Match { cases, statements, .. } => cases_closed(cases) && cases_fit(cases, 0)
            && balanced(statements),
    }
}

/// Every frame is in order, and a line stands only at the bottom.
pub open spec fn stack_ok(stack: Seq<FrameView>) -> bool {
    &&& forall|i: int| 0 <= i < stack.len() ==> frame_ok(#[trigger] stack[i])
    &&& forall|i: int| 0 < i < stack.len() ==> !((#[trigger] stack[i]) is Line)
}

/// A line that has no statement left.
pub open spec fn ended_line() -> FrameView {
    FrameView::Line { stream: Seq::empty(), phase: LinePhase::Ready }
}

/// Whether no statement of `stream` opens a block.
pub open spec fn opens_nothing(stream: Seq<StatementView>) -> bool {
    forall|i: int| 0 <= i < stream.len() ==> !(#[trigger] stream[i]).opens()
}

/// Whether nothing runs but, at most, a line none of whose statements opens
/// a block.
pub open spec fn only_a_plain_line(stack: Seq<FrameView>) -> bool {
    stack.len() == 0 || (stack.len() == 1 && (stack[0] matches FrameView::Line { stream, phase }
        && !(phase is Child) && opens_nothing(stream)))
}

/// The accumulator is clean, or it holds an open compound statement and
/// nothing runs but, at most, what is left of a line that opens no block.
pub open spec fn accumulator_ok(flow: FlowControlView, stack: Seq<FrameView>) -> bool {
    if flow.level == 0 {
        flow == FlowControlView::clean()
    } else {
        &&& statement_open(flow.current_statement, flow.level, flow.current_if_mode)
        &&& statement_fits(flow.current_statement, 0)
        &&& only_a_plain_line(stack)
    }
}

/// Whether the first statement of `stream`, taken at the top level with
/// `level` blocks open, is a `match` into which the statement after it
/// strays, while a statement that opens a block is still to come. The
/// `match` then stays pending while that block is collected, and the level
/// no longer counts the blocks of one statement.
pub open spec fn strays_at_top(level: usize, stream: Seq<StatementView>) -> bool {
    &&& stream.len() > 0
    &&& stream.first() is Match
    &&& ({
        let g = gather(stream.first(), stream.drop_first(), deeper(level), IfMode::Success);
        g.error is Some && !opens_nothing(g.rest)
    })
}

/// Whether the next transition is that of a line whose first statement
/// strays in this way.
pub open spec fn strays_before_a_block(s: ShellView) -> bool {
    &&& s.returning is None
    &&& s.stack.len() > 0
    &&& s.stack.last() matches FrameView::Line { stream, phase }
    &&& phase is Ready
    &&& strays_at_top(s.flow_control.level, stream)
}

/// Whether no transition of the run on `replies` strays before a block.
pub open spec fn never_strays(s: ShellView, replies: Seq<ReplyView>) -> bool
    decreases replies.len(),
{
    if replies.len() == 0 {
        true
    } else {
        !strays_before_a_block(s) && never_strays(
            step_spec(s, replies.first()).state,
            replies.drop_first(),
        )
    }
}

/// The invariant of the executor.
pub open spec fn inv(s: ShellView) -> bool {
    stack_ok(s.stack) && accumulator_ok(s.flow_control, s.stack)
}

/// A statement as the parser gives it that opens a block is an open
/// statement at level one.
pub proof fn lemma_bare_statement_is_open(statement: StatementView, more: nat)
    requires
        statement.opens(),
        statement.bare(),
        more < usize::MAX,
    ensures
        statement_open(statement, 1, IfMode::Success),
        statement_fits(statement, more),
{
}

/// What a compound statement keeps when its blocks are collected from bare
/// statements. When all blocks close, every block of the statement is
/// closed and the depth of the stream goes on from the rest; when one stays
/// open, the stream is used up and the statement is open at the level that
/// the collector reports.
pub proof fn lemma_gather_balance(
    statement: StatementView,
    stream: Seq<StatementView>,
    level: usize,
    mode: IfMode,
)
    requires
        statement_open(statement, level, mode),
        statement_fits(statement, stream.len()),
        all_bare(stream),
        level + stream.len() < usize::MAX,
    ensures
        ({
            let g = gather(statement, stream, level, mode);
            &&& all_bare(g.rest)
            &&& g.rest.len() <= stream.len()
            &&& g.statement.opens()
            &&& g.statement is Function <==> statement is Function
            &&& g.statement is If <==> statement is If
            &&& g.error is None ==> statement_fits(g.statement, g.rest.len())
            &&& g.error is None && g.level == 0 ==> statement_closed(g.statement) && depth_after(
                stream,
                level as nat,
            ) == depth_after(g.rest, 0)
            &&& g.error is None && g.level != 0 ==> g.rest.len() == 0 && statement_open(
                g.statement,
                g.level,
                g.mode,
            ) && depth_after(stream, level as nat) == Some(g.level as nat)
            &&& g.error is Some && statement is Match ==> g.statement == statement && g.level
                == level && g.mode == mode
        }),
{
    if statement is Match && gather(statement, stream, level, mode).error is Some {
        lemma_collect_cases_refuses_before_the_first_case(
            stream,
            statement->Match_cases,
            level,
        );
    }
    match statement {
        StatementView::While { expression, statements } => {
            lemma_collect_loops_balance(stream, statements, level);
        },
        StatementView::For { variable, values, statements } => {
            lemma_collect_loops_balance(stream, statements, level);
        },
        StatementView::Function { name, description, args, statements } => {
            lemma_collect_loops_balance(stream, statements, level);
        },
        StatementView::If { expression, success, else_if, failure } => {
            lemma_collect_if_balance(stream, success, else_if, failure, level, mode);
        },
        StatementView::Match { expression, cases } => {
            lemma_collect_cases_balance(stream, cases, level);
        },
        _ => {},
    }
}

/// The frame that runs a closed statement is in order.
pub proof fn lemma_frame_of_closed(statement: StatementView)
    requires
        statement_closed(statement),
        statement_fits(statement, 0),
        !(statement is Function),
    ensures
        frame_of(statement) is Some,
        frame_ok(frame_of(statement)->0),
        !(frame_of(statement)->0 is Line),
{
}

/// The invariant gives what is held of the accumulator after a line has
/// been taken: it is clean, or the pending statement is a compound
/// statement whose open blocks the level counts.
pub proof fn lemma_accumulator_is_clean_or_open(s: ShellView)
    requires
        inv(s),
    ensures
        s.flow_control.level == 0 ==> s.flow_control == FlowControlView::clean(),
        s.flow_control.level != 0 ==> s.flow_control.current_statement.opens() && open_depth(
            s.flow_control.current_statement,
            s.flow_control.current_if_mode,
        ) == Some(s.flow_control.level as nat),
{
}

/// A stack in order stays in order with one more frame in order on top, as
/// long as a line goes to the bottom only.
pub proof fn lemma_stack_push(stack: Seq<FrameView>, frame: FrameView)
    requires
        stack_ok(stack),
        frame_ok(frame),
        frame is Line ==> stack.len() == 0,
    ensures
        stack_ok(stack.push(frame)),
{
    let pushed = stack.push(frame);
    assert forall|i: int| 0 <= i < pushed.len() implies frame_ok(#[trigger] pushed[i]) by {
        if i < stack.len() {
            assert(pushed[i] == stack[i]);
        }
    }
    assert forall|i: int| 0 < i < pushed.len() implies !((#[trigger] pushed[i]) is Line) by {
        if i < stack.len() {
            assert(pushed[i] == stack[i]);
        }
    }
}

/// A stack in order stays in order without its top frame, and that frame
/// is in order.
pub proof fn lemma_stack_drop(stack: Seq<FrameView>)
    requires
        stack_ok(stack),
        stack.len() > 0,
    ensures
        stack_ok(stack.drop_last()),
        frame_ok(stack.last()),
        stack.last() is Line ==> stack.len() == 1,
        stack.drop_last().push(stack.last()) == stack,
{
    let dropped = stack.drop_last();
    assert forall|i: int| 0 <= i < dropped.len() implies frame_ok(#[trigger] dropped[i]) by {
        assert(dropped[i] == stack[i]);
    }
    assert forall|i: int| 0 < i < dropped.len() implies !((#[trigger] dropped[i]) is Line) by {
        assert(dropped[i] == stack[i]);
    }
    assert(frame_ok(stack[stack.len() - 1]));
    if stack.len() > 1 {
        assert(!(stack[stack.len() - 1] is Line));
    }
    assert(stack.drop_last().push(stack.last()) =~= stack);
}

/// A body whose blocks are all closed, without its first statement. That
/// statement is no stray `End`; after one that opens a block, one block is
/// open.
pub proof fn lemma_balanced_tail(stream: Seq<StatementView>)
    requires
        balanced(stream),
        stream.len() > 0,
    ensures
        all_bare(stream.drop_first()),
        stream.first().bare(),
        !(stream.first() is End),
        stream.first().opens() ==> depth_after(stream.drop_first(), 1) == Some(0nat),
        !stream.first().opens() ==> balanced(stream.drop_first()),
{
    let tail = stream.drop_first();
    assert(stream[0].bare());
    assert forall|i: int| 0 <= i < tail.len() implies (#[trigger] tail[i]).bare() by {
        assert(stream[i + 1].bare());
    }
}

/// A line as the parser gives it, without its first statement.
pub proof fn lemma_bare_tail(stream: Seq<StatementView>)
    requires
        all_bare(stream),
        stream.len() > 0,
    ensures
        all_bare(stream.drop_first()),
        stream.first().bare(),
{
    let tail = stream.drop_first();
    assert(stream[0].bare());
    assert forall|i: int| 0 <= i < tail.len() implies (#[trigger] tail[i]).bare() by {
        assert(stream[i + 1].bare());
    }
}

/// One transition of a body keeps the invariant.
#[verifier::spinoff_prover]
proof fn lemma_body_keeps(
    s: ShellView,
    stream: Seq<StatementView>,
    phase: BodyPhase,
    reply: ReplyView,
)
    requires
        stack_ok(s.stack),
        s.flow_control == FlowControlView::clean(),
        balanced(stream),
    ensures
        inv(body_spec(s, stream, phase, reply).state),
{
    let next = body_spec(s, stream, phase, reply).state;
    lemma_stack_push(s.stack, FrameView::Body { stream, phase });
    assert(stack_ok(Seq::<FrameView>::empty()));
    if phase is Ready && stream.len() > 0 {
        let head = stream.first();
        let tail = stream.drop_first();
        lemma_balanced_tail(stream);
        if head.opens() {
            lemma_bare_statement_is_open(head, tail.len());
            lemma_gather_balance(head, tail, 1, IfMode::Success);
            let g = gather(head, tail, 1, IfMode::Success);
            assert(crate::flow_control::deeper(0) == 1);
            if g.error is None {
                assert(g.level == 0);
                assert(balanced(g.rest));
                if head is Function {
                    lemma_stack_push(
                        s.stack,
                        FrameView::Body { stream: g.rest, phase: BodyPhase::Polling },
                    );
                } else {
                    let waiting = FrameView::Body {
                        stream: g.rest,
                        phase: if head is While || head is For {
                            BodyPhase::Loop
                        } else {
                            BodyPhase::Branch
                        },
                    };
                    lemma_stack_push(s.stack, waiting);
                    lemma_frame_of_closed(g.statement);
                    lemma_stack_push(s.stack.push(waiting), frame_of(g.statement)->0);
                }
            }
        } else {
            lemma_stack_push(s.stack, FrameView::Body { stream: tail, phase: BodyPhase::Polling });
            lemma_stack_push(s.stack, FrameView::Body { stream: tail, phase: BodyPhase::Binding });
            lemma_stack_push(s.stack, FrameView::Body { stream: tail, phase: BodyPhase::Running });
        }
    } else {
        lemma_stack_push(s.stack, FrameView::Body { stream, phase: BodyPhase::Polling });
        lemma_stack_push(s.stack, FrameView::Body { stream, phase: BodyPhase::Ready });
        if phase is Polling && reply->Signal_0 is Some {
            lemma_stack_push(
                s.stack,
                FrameView::Body { stream, phase: BodyPhase::Handling(reply->Signal_0->0) },
            );
        }
    }
}

/// One transition of an input line keeps the invariant, unless it reports
/// a statement that strays into a `match` while a statement that opens a
/// block is still to come on the line.
#[verifier::spinoff_prover]
pub proof fn lemma_line_keeps(
    s: ShellView,
    stream: Seq<StatementView>,
    phase: LinePhase,
    reply: ReplyView,
)
    requires
        s.stack.len() == 0,
        all_bare(stream),
        stream.len() < usize::MAX,
        accumulator_ok(s.flow_control, seq![FrameView::Line { stream, phase }]),
        phase is Ready ==> !strays_at_top(s.flow_control.level, stream),
    ensures
        inv(line_spec(s, stream, phase, reply).state),
{
    let line = FrameView::Line { stream, phase };
    assert(stack_ok(s.stack));
    assert(seq![line][0] == line);
    assert(s.stack.push(line).last() == line);
    lemma_stack_push(s.stack, line);
    lemma_stack_push(s.stack, FrameView::Line { stream, phase: LinePhase::Ready });
    if phase is Ready && stream.len() > 0 {
        let head = stream.first();
        let tail = stream.drop_first();
        lemma_bare_tail(stream);
        let ready = FrameView::Line { stream: tail, phase: LinePhase::Ready };
        let binding = FrameView::Line { stream: tail, phase: LinePhase::Binding };
        let running = FrameView::Line { stream: tail, phase: LinePhase::Running };
        lemma_stack_push(s.stack, ready);
        lemma_stack_push(s.stack, binding);
        lemma_stack_push(s.stack, running);
        assert(s.stack.push(ready)[0] == ready);
        assert(s.stack.push(binding)[0] == binding);
        assert(s.stack.push(running)[0] == running);
        if s.flow_control.level != 0 {
            assert(opens_nothing(stream));
            assert(!stream[0].opens());
            assert forall|i: int| 0 <= i < tail.len() implies !(#[trigger] tail[i]).opens() by {
                assert(!stream[i + 1].opens());
            }
        } else if head.opens() {
            lemma_bare_statement_is_open(head, tail.len());
            lemma_gather_balance(head, tail, 1, IfMode::Success);
            let g = gather(head, tail, 1, IfMode::Success);
            assert(deeper(0) == 1);
            if g.error is Some {
                if head is Match {
                    let left = FrameView::Line { stream: g.rest, phase: LinePhase::Ready };
                    lemma_stack_push(s.stack, left);
                    assert(s.stack.push(left)[0] == left);
                    assert(opens_nothing(g.rest));
                }
            } else if g.level != 0 {
                let ended = FrameView::Line { stream: g.rest, phase: LinePhase::Ready };
                assert(g.rest =~= Seq::empty());
                lemma_stack_push(s.stack, ended);
                assert(s.stack.push(ended)[0] == ended);
            } else if head is Function {
                lemma_stack_push(s.stack, FrameView::Line { stream: g.rest, phase: LinePhase::Ready });
            } else {
                let waiting = FrameView::Line { stream: g.rest, phase: LinePhase::Child };
                lemma_stack_push(s.stack, waiting);
                lemma_frame_of_closed(g.statement);
                lemma_stack_push(s.stack.push(waiting), frame_of(g.statement)->0);
            }
        }
    } else if phase is Ready {
    } else {
        let ready = FrameView::Line { stream, phase: LinePhase::Ready };
        assert(s.stack.push(ready)[0] == ready);
    }
}

/// One transition of a loop, a conditional or a `match` keeps the
/// invariant.
#[verifier::spinoff_prover]
proof fn lemma_construct_keeps(s: ShellView, frame: FrameView, reply: ReplyView)
    requires
        stack_ok(s.stack),
        s.flow_control == FlowControlView::clean(),
        frame_ok(frame),
        !(frame is Line),
        !(frame is Body),
    ensures
        inv(step_spec(ShellView { returning: None, ..s.push(frame) }, reply).state),
{
    let whole = ShellView { returning: None, ..s.push(frame) };
    lemma_stack_push(s.stack, frame);
    assert(whole.stack.drop_last() =~= s.stack);
    assert(whole.stack.last() == frame);
    if reply.kind() == whole.awaits() {
        match frame {
            FrameView::While { expression, statements, phase } => {
                lemma_stack_push(
                    s.stack,
                    FrameView::While { expression, statements, phase: WhilePhase::Testing },
                );
                let iterating = FrameView::While {
                    expression,
                    statements,
                    phase: WhilePhase::Iterating,
                };
                lemma_stack_push(s.stack, iterating);
                lemma_stack_push(
                    s.stack.push(iterating),
                    FrameView::Body { stream: statements, phase: BodyPhase::Ready },
                );
            },
            FrameView::For { variable, values, remaining, statements, phase } => {
                lemma_stack_push(
                    s.stack,
                    FrameView::For {
                        variable,
                        values,
                        remaining,
                        statements,
                        phase: ForPhase::Resolving,
                    },
                );
                if phase is Resolving {
                    lemma_stack_push(
                        s.stack,
                        FrameView::For {
                            variable,
                            values,
                            remaining: crate::shell::words_of(reply->Values_0),
                            statements,
                            phase: ForPhase::Next,
                        },
                    );
                }
                lemma_stack_push(
                    s.stack,
                    FrameView::For {
                        variable,
                        values,
                        remaining: remaining.drop_first(),
                        statements,
                        phase: ForPhase::Binding,
                    },
                );
                let iterating = FrameView::For {
                    variable,
                    values,
                    remaining: remaining.drop_first(),
                    statements,
                    phase: ForPhase::Iterating,
                };
                lemma_stack_push(s.stack, iterating);
                lemma_stack_push(
                    s.stack.push(iterating),
                    FrameView::Body { stream: statements, phase: BodyPhase::Ready },
                );
                let bound = FrameView::For {
                    variable,
                    values,
                    remaining,
                    statements,
                    phase: ForPhase::Iterating,
                };
                lemma_stack_push(s.stack, bound);
                lemma_stack_push(
                    s.stack.push(bound),
                    FrameView::Body { stream: statements, phase: BodyPhase::Ready },
                );
            },
            FrameView::If { expression, success, else_if, failure, phase } => {
                lemma_stack_push(
                    s.stack,
                    FrameView::If { expression, success, else_if, failure, phase: IfPhase::Testing },
                );
                lemma_stack_push(
                    s.stack,
                    FrameView::Body { stream: success, phase: BodyPhase::Ready },
                );
                lemma_stack_push(
                    s.stack,
                    FrameView::Body { stream: failure, phase: BodyPhase::Ready },
                );
                if else_if.len() > 0 {
                    let arms = else_if.drop_first();
                    assert forall|i: int| 0 <= i < arms.len() implies open_body(
                        (#[trigger] arms[i]).success,
                        0,
                    ) && fits(arms[i].success, 0) by {
                        assert(arms[i] == else_if[i + 1]);
                    }
                    assert(open_body(else_if[0].success, 0) && fits(else_if[0].success, 0));
                    lemma_stack_push(
                        s.stack,
                        FrameView::If {
                            expression: else_if.first().expression,
                            success: else_if.first().success,
                            else_if: arms,
                            failure,
                            phase: IfPhase::Ready,
                        },
                    );
                }
            },
            FrameView::Match { expression, value, cases, statements, phase } => {
                lemma_stack_push(
                    s.stack,
                    FrameView::Match {
                        expression,
                        value,
                        cases,
                        statements,
                        phase: MatchPhase::Expanding,
                    },
                );
                lemma_stack_push(
                    s.stack,
                    FrameView::Match {
                        expression,
                        value,
                        cases,
                        statements,
                        phase: MatchPhase::Select,
                    },
                );
                lemma_stack_push(
                    s.stack,
                    FrameView::Body { stream: statements, phase: BodyPhase::Ready },
                );
                if phase is Expanding {
                    lemma_stack_push(
                        s.stack,
                        FrameView::Match {
                            expression,
                            value: reply->Words_0,
                            cases,
                            statements,
                            phase: MatchPhase::Select,
                        },
                    );
                }
                if cases.len() > 0 {
                    let arms = cases.drop_first();
                    assert forall|i: int| 0 <= i < arms.len() implies open_body(
                        (#[trigger] arms[i]).statements,
                        0,
                    ) && fits(arms[i].statements, 0) by {
                        assert(arms[i] == cases[i + 1]);
                    }
                    assert(open_body(cases[0].statements, 0) && fits(cases[0].statements, 0));
                    lemma_stack_push(
                        s.stack,
                        FrameView::Body { stream: cases.first().statements, phase: BodyPhase::Ready },
                    );
                    lemma_stack_push(
                        s.stack,
                        FrameView::Match {
                            expression,
                            value,
                            cases: arms,
                            statements: cases.first().statements,
                            phase: MatchPhase::Matching,
                        },
                    );
                }
            },
            _ => {},
        }
    }
}

/// Handing on the condition of a construct that has finished keeps the
/// invariant.
#[verifier::spinoff_prover]
proof fn lemma_deliver_keeps(s: ShellView, condition: crate::ast::Condition)
    requires
        inv(s),
    ensures
        inv(deliver_spec(s, condition).state),
{
    if s.stack.len() > 0 {
        lemma_stack_drop(s.stack);
        let below = s.stack.drop_last();
        let top = s.stack.last();
        if s.flow_control.level != 0 {
            assert(s.stack.last() == s.stack[0]);
        } else {
            match top {
                FrameView::Line { stream, phase } => {
                    lemma_stack_push(below, FrameView::Line { stream, phase: LinePhase::Ready });
                },
                FrameView::Body { stream, phase } => {
                    lemma_stack_push(below, FrameView::Body { stream, phase: BodyPhase::Polling });
                },
                FrameView::While { expression, statements, phase } => {
                    lemma_stack_push(
                        below,
                        FrameView::While { expression, statements, phase: WhilePhase::Ready },
                    );
                },
                FrameView::For { variable, values, remaining, statements, phase } => {
                    lemma_stack_push(
                        below,
                        FrameView::For {
                            variable,
                            values,
                            remaining,
                            statements,
                            phase: ForPhase::Next,
                        },
                    );
                },
                _ => {},
            }
        }
    }
}

/// Every transition keeps the invariant, whatever the answer, unless it
/// reports a statement that strays into a `match` while a statement that
/// opens a block is still to come on the line.
pub proof fn lemma_step_keeps_inv(s: ShellView, reply: ReplyView)
    requires
        inv(s),
        !strays_before_a_block(s),
    ensures
        inv(step_spec(s, reply).state),
{
    if reply.kind() != s.awaits() {
    } else if s.returning is Some {
        lemma_deliver_keeps(ShellView { returning: None, ..s }, s.returning->0);
    } else if s.stack.len() == 0 {
    } else {
        lemma_stack_drop(s.stack);
        let base = s.base();
        let top = s.stack.last();
        if s.flow_control.level != 0 {
            assert(s.stack.last() == s.stack[0]);
        }
        match top {
            FrameView::Line { stream, phase } => {
                assert(s.stack =~= seq![top]);
                lemma_line_keeps(base, stream, phase, reply);
            },
            FrameView::Body { stream, phase } => {
                lemma_body_keeps(base, stream, phase, reply);
            },
            _ => {
                lemma_construct_keeps(base, top, reply);
                assert(base.push(top) == s);
                assert((ShellView { returning: None, ..base.push(top) }) == s);
            },
        }
    }
}

/// The invariant holds after any run of transitions none of which strays
/// before a block.
pub proof fn lemma_run_keeps_inv(s: ShellView, replies: Seq<ReplyView>)
    requires
        inv(s),
        never_strays(s, replies),
    ensures
        inv(run_spec(s, replies)),
    decreases replies.len(),
{
    if replies.len() > 0 {
        lemma_step_keeps_inv(s, replies.first());
        lemma_run_keeps_inv(step_spec(s, replies.first()).state, replies.drop_first());
    }
}

/// Taking a line keeps the invariant, when no construct is running, the
/// line is as the parser gives it, and the pending statement with the line
/// fits in a list.
#[verifier::spinoff_prover]
pub proof fn lemma_on_command_keeps_inv(s: ShellView, line: Seq<StatementView>)
    requires
        inv(s),
        s.stack.len() == 0,
        all_bare(line),
        s.flow_control.level + line.len() < usize::MAX,
        statement_fits(s.flow_control.current_statement, line.len()),
    ensures
        inv(on_command_spec(s, line).state),
{
    let fresh = ShellView { break_flow: false, ..s };
    if s.returning is Some {
    } else if s.flow_control.level == 0 {
        lemma_stack_push(s.stack, FrameView::Line { stream: line, phase: LinePhase::Ready });
    } else {
        let g = gather(
            s.flow_control.current_statement,
            line,
            s.flow_control.level,
            s.flow_control.current_if_mode,
        );
        lemma_gather_balance(
            s.flow_control.current_statement,
            line,
            s.flow_control.level,
            s.flow_control.current_if_mode,
        );
        if g.error is Some {
        } else if g.level != 0 {
            let ended = FrameView::Line { stream: g.rest, phase: LinePhase::Ready };
            assert(g.rest =~= Seq::empty());
            lemma_stack_push(s.stack, ended);
            assert(s.stack.push(ended)[0] == ended);
        } else if g.statement is Function {
            lemma_stack_push(s.stack, FrameView::Line { stream: g.rest, phase: LinePhase::Ready });
        } else {
            let waiting = FrameView::Line { stream: g.rest, phase: LinePhase::Child };
            lemma_stack_push(s.stack, waiting);
            lemma_frame_of_closed(g.statement);
            lemma_stack_push(s.stack.push(waiting), frame_of(g.statement)->0);
        }
    }
}

/// Starting a construct whose bodies have all their blocks closed keeps
/// the invariant, when nothing is pending.
pub proof fn lemma_start_keeps_inv(s: ShellView, frame: FrameView)
    requires
        inv(s),
        s.flow_control.level == 0,
        frame_ok(frame),
        !(frame is Line),
    ensures
        inv(start_spec(s, frame).state),
{
    lemma_stack_push(s.stack, frame);
}

/// After a line has been taken, and after however many transitions, the
/// accumulator is clean, or it holds a compound statement whose open
/// blocks the level counts. This holds when the line is taken with no
/// construct running, the line is as the parser gives it, the pending
/// statement with the line fits in a list, and no statement that opens a
/// block follows, on its line, a statement that strays into a `match`.
pub proof fn lemma_accumulator_after_on_command(
    s: ShellView,
    line: Seq<StatementView>,
    replies: Seq<ReplyView>,
)
    requires
        inv(s),
        s.stack.len() == 0,
        all_bare(line),
        s.flow_control.level + line.len() < usize::MAX,
        statement_fits(s.flow_control.current_statement, line.len()),
        never_strays(on_command_spec(s, line).state, replies),
    ensures
        ({
            let flow = run_spec(on_command_spec(s, line).state, replies).flow_control;
            &&& flow.level == 0 ==> flow == FlowControlView::clean()
            &&& flow.level != 0 ==> flow.current_statement.opens() && open_depth(
                flow.current_statement,
                flow.current_if_mode,
            ) == Some(flow.level as nat)
        }),
{
    lemma_on_command_keeps_inv(s, line);
    lemma_run_keeps_inv(on_command_spec(s, line).state, replies);
    lemma_accumulator_is_clean_or_open(run_spec(on_command_spec(s, line).state, replies));
}

} // verus!
