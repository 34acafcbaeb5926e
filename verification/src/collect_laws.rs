//! Laws of the collectors: a block collected from a stream that arrives in
//! pieces is the block collected from the whole stream, and what a
//! conditional refuses.

use crate::ast::{CaseView, ElseIfView, StatementView};
use crate::flow_control::{
    collect_cases_spec, collect_if_spec, collect_loops_spec, CaseCollection, IfCollection, IfMode,
    LoopCollection, SyntaxError,
};
use crate::balance::depth_after;
use crate::shell::{gather, Gathered};
use vstd::prelude::*;

verus! {

/// Collecting a loop body from `a` and then, while a block is still open,
/// from `b` gives what collecting from `a + b` gives. When the block closes
/// within `a`, the rest of `a` and all of `b` stay in the stream.
pub proof fn lemma_collect_loops_in_pieces(
    a: Seq<StatementView>,
    b: Seq<StatementView>,
    statements: Seq<StatementView>,
    level: usize,
)
    requires
        level >= 1,
    ensures
        ({
            let first = collect_loops_spec(a, statements, level);
            let whole = collect_loops_spec(a + b, statements, level);
            &&& first.level == 0 ==> whole == (LoopCollection { rest: first.rest + b, ..first })
            &&& first.level != 0 ==> first.rest.len() == 0 && whole == collect_loops_spec(
                b,
                first.statements,
                first.level,
            )
        }),
    decreases a.len(),
{
    if a.len() == 0 {
        assert(a + b =~= b);
    } else {
        let head = a.first();
        assert((a + b).first() == head);
        assert((a + b).drop_first() =~= a.drop_first() + b);
        if head is End && level <= 1 {
        } else {
            lemma_collect_loops_in_pieces(
                a.drop_first(),
                b,
                statements.push(head),
                crate::flow_control::level_after(level, head),
            );
        }
    }
}

/// Collecting the parts of a conditional from `a` and then, while it is
/// still open, from `b` gives what collecting from `a + b` gives. When the
/// conditional closes or fails within `a`, the rest of `a` and all of `b`
/// stay in the stream.
pub proof fn lemma_collect_if_in_pieces(
    a: Seq<StatementView>,
    b: Seq<StatementView>,
    success: Seq<StatementView>,
    else_if: Seq<ElseIfView>,
    failure: Seq<StatementView>,
    level: usize,
    mode: IfMode,
)
    requires
        level >= 1,
    ensures
        ({
            let first = collect_if_spec(a, success, else_if, failure, level, mode);
            let whole = collect_if_spec(a + b, success, else_if, failure, level, mode);
            &&& first.error is Some || first.level == 0 ==> whole == (IfCollection {
                rest: first.rest + b,
                ..first
            })
            &&& first.error is None && first.level != 0 ==> first.rest.len() == 0 && whole
                == collect_if_spec(
                b,
                first.success,
                first.else_if,
                first.failure,
                first.level,
                first.mode,
            )
        }),
    decreases a.len(),
{
    if a.len() == 0 {
        assert(a + b =~= b);
    } else {
        let head = a.first();
        assert((a + b).first() == head);
        assert((a + b).drop_first() =~= a.drop_first() + b);
        let tail = a.drop_first();
        if head is End && level <= 1 {
        } else if (head is ElseIf || head is Else) && level <= 1 {
            if mode is Failure {
            } else if !(mode is Success || mode is ElseIfSuccess) {
            } else if head is ElseIf {
                lemma_collect_if_in_pieces(
                    tail,
                    b,
                    success,
                    else_if.push(head->ElseIf_0),
                    failure,
                    level,
                    IfMode::ElseIfSuccess,
                );
            } else {
                lemma_collect_if_in_pieces(tail, b, success, else_if, failure, level, IfMode::Failure);
            }
        } else if !crate::flow_control::routable(mode, else_if.len()) {
        } else {
            lemma_collect_if_in_pieces(
                tail,
                b,
                if mode is Success {
                    success.push(head)
                } else {
                    success
                },
                if mode is ElseIfSuccess {
                    crate::flow_control::with_arm_statement(else_if, head)
                } else {
                    else_if
                },
                if mode is Failure {
                    failure.push(head)
                } else {
                    failure
                },
                crate::flow_control::level_after(level, head),
                mode,
            );
        }
    }
}

/// Collecting the arms of a `match` from `a` and then, while it is still
/// open, from `b` gives what collecting from `a + b` gives.
pub proof fn lemma_collect_cases_in_pieces(
    a: Seq<StatementView>,
    b: Seq<StatementView>,
    cases: Seq<CaseView>,
    level: usize,
)
    requires
        level >= 1,
    ensures
        ({
            let first = collect_cases_spec(a, cases, level);
            let whole = collect_cases_spec(a + b, cases, level);
            &&& first.error is Some || first.level == 0 ==> whole == (CaseCollection {
                rest: first.rest + b,
                ..first
            })
            &&& first.error is None && first.level != 0 ==> first.rest.len() == 0 && whole
                == collect_cases_spec(b, first.cases, first.level)
        }),
    decreases a.len(),
{
    if a.len() == 0 {
        assert(a + b =~= b);
    } else {
        let head = a.first();
        assert((a + b).first() == head);
        assert((a + b).drop_first() =~= a.drop_first() + b);
        let tail = a.drop_first();
        if head is End && level <= 1 {
        } else if head is Case && level <= 1 {
            lemma_collect_cases_in_pieces(tail, b, cases.push(head->Case_0), level);
        } else if cases.len() == 0 {
        } else {
            lemma_collect_cases_in_pieces(
                tail,
                b,
                crate::flow_control::with_case_statement(cases, head),
                crate::flow_control::level_after(level, head),
            );
        }
    }
}

/// The blocks of a compound statement collected from `a` and then, while
/// one is still open, from `b` are the blocks collected from `a + b`.
pub proof fn lemma_gather_in_pieces(
    statement: StatementView,
    a: Seq<StatementView>,
    b: Seq<StatementView>,
    level: usize,
    mode: IfMode,
)
    requires
        level >= 1,
        statement.opens(),
    ensures
        ({
            let first = gather(statement, a, level, mode);
            let whole = gather(statement, a + b, level, mode);
            &&& first.error is Some || first.level == 0 ==> whole == (Gathered {
                rest: first.rest + b,
                ..first
            })
            &&& first.error is None && first.level != 0 ==> first.rest.len() == 0
                && first.statement.opens() && whole == gather(
                first.statement,
                b,
                first.level,
                first.mode,
            )
        }),
{
    match statement {
        StatementView::While { expression, statements } => {
            lemma_collect_loops_in_pieces(a, b, statements, level);
        },
        StatementView::For { variable, values, statements } => {
            lemma_collect_loops_in_pieces(a, b, statements, level);
        },
        StatementView::Function { name, description, args, statements } => {
            lemma_collect_loops_in_pieces(a, b, statements, level);
        },
        StatementView::If { expression, success, else_if, failure } => {
            lemma_collect_if_in_pieces(a, b, success, else_if, failure, level, mode);
        },
        StatementView::Match { expression, cases } => {
            lemma_collect_cases_in_pieces(a, b, cases, level);
        },
        _ => {},
    }
}

/// Once the `else` part of a conditional has begun, an `else` or an
/// `else if` at the level of the conditional is a structural error.
pub proof fn lemma_else_twice_is_an_error(
    stream: Seq<StatementView>,
    success: Seq<StatementView>,
    else_if: Seq<ElseIfView>,
    failure: Seq<StatementView>,
    level: usize,
)
    requires
        stream.len() > 0,
        stream.first() is Else || stream.first() is ElseIf,
        level <= 1,
    ensures
        collect_if_spec(stream, success, else_if, failure, level, IfMode::Failure).error == Some(
            SyntaxError::ElseBlockAlreadyGiven,
        ),
{
}

/// An `else` at the level of a conditional begins the `else` part: what
/// follows is collected as that part.
pub proof fn lemma_else_begins_the_else_part(
    stream: Seq<StatementView>,
    success: Seq<StatementView>,
    else_if: Seq<ElseIfView>,
    failure: Seq<StatementView>,
    level: usize,
    mode: IfMode,
)
    requires
        stream.len() > 0,
        stream.first() is Else,
        level <= 1,
        mode is Success || mode is ElseIfSuccess,
    ensures
        collect_if_spec(stream, success, else_if, failure, level, mode) == collect_if_spec(
            stream.drop_first(),
            success,
            else_if,
            failure,
            level,
            IfMode::Failure,
        ),
{
}

/// Statements that close no block of the loop they stand in go into its
/// body as they are: when `statements` leave `open` nested blocks open and
/// underrun none, the body gains all of them and the level is one more than
/// `open`.
pub proof fn lemma_collect_loops_takes_what_stays_inside(
    stream: Seq<StatementView>,
    statements: Seq<StatementView>,
    level: usize,
    open: nat,
)
    requires
        level >= 1,
        level + stream.len() <= usize::MAX,
        depth_after(stream, (level - 1) as nat) == Some(open),
    ensures
        collect_loops_spec(stream, statements, level) == (LoopCollection {
            statements: statements + stream,
            rest: Seq::empty(),
            level: (open + 1) as usize,
        }),
        open + 1 <= level + stream.len(),
    decreases stream.len(),
{
    if stream.len() == 0 {
        assert(statements + stream =~= statements);
        assert(stream =~= Seq::empty());
    } else {
        let head = stream.first();
        let tail = stream.drop_first();
        assert(!(head is End && level <= 1));
        lemma_collect_loops_takes_what_stays_inside(
            tail,
            statements.push(head),
            crate::flow_control::level_after(level, head),
            open,
        );
        assert(statements.push(head) + tail =~= statements + stream);
    }
}

/// A loop body is collected whole: when every block that `body` opens is
/// closed in it, collecting from `body`, an `End` and whatever follows puts
/// exactly `body` into the loop, closes the loop, and leaves what follows
/// in the stream.
pub proof fn lemma_collect_loops_takes_the_block(
    body: Seq<StatementView>,
    following: Seq<StatementView>,
    statements: Seq<StatementView>,
)
    requires
        depth_after(body, 0) == Some(0nat),
        1 + body.len() <= usize::MAX,
    ensures
        collect_loops_spec(body + seq![StatementView::End] + following, statements, 1) == (
        LoopCollection { statements: statements + body, rest: following, level: 0 }),
{
    lemma_collect_loops_takes_what_stays_inside(body, statements, 1, 0);
    let closing = seq![StatementView::End] + following;
    lemma_collect_loops_in_pieces(body, closing, statements, 1);
    assert(body + seq![StatementView::End] + following =~= body + closing);
    assert(closing.first() == StatementView::End);
    assert(closing.drop_first() =~= following);
}

/// The number of nested blocks that are open after `statements` of one part
/// of a conditional, when `open` were open before them; `None` when an
/// `End`, an `Else` or an `ElseIf` among them belongs to the conditional
/// itself.
pub open spec fn part_depth_after(statements: Seq<StatementView>, open: nat) -> Option<nat>
    decreases statements.len(),
{
    if statements.len() == 0 {
        Some(open)
    } else {
        let head = statements.first();
        if head.opens() {
            part_depth_after(statements.drop_first(), open + 1)
        } else if open == 0 && (head is End || head is Else || head is ElseIf) {
            None
        } else if head is End {
            part_depth_after(statements.drop_first(), (open - 1) as nat)
        } else {
            part_depth_after(statements.drop_first(), open)
        }
    }
}

/// Statements that belong to one part of a conditional go into that part as
/// they are.
pub proof fn lemma_collect_if_takes_what_stays_inside(
    stream: Seq<StatementView>,
    success: Seq<StatementView>,
    else_if: Seq<ElseIfView>,
    failure: Seq<StatementView>,
    level: usize,
    mode: IfMode,
    open: nat,
)
    requires
        level >= 1,
        level + stream.len() <= usize::MAX,
        mode is Success || mode is Failure,
        part_depth_after(stream, (level - 1) as nat) == Some(open),
    ensures
        collect_if_spec(stream, success, else_if, failure, level, mode) == (IfCollection {
            success: if mode is Success {
                success + stream
            } else {
                success
            },
            else_if,
            failure: if mode is Failure {
                failure + stream
            } else {
                failure
            },
            rest: Seq::empty(),
            level: (open + 1) as usize,
            mode,
            error: None,
        }),
        open + 1 <= level + stream.len(),
    decreases stream.len(),
{
    if stream.len() == 0 {
        assert(success + stream =~= success);
        assert(failure + stream =~= failure);
        assert(stream =~= Seq::empty());
    } else {
        let head = stream.first();
        let tail = stream.drop_first();
        assert(!((head is End || head is Else || head is ElseIf) && level <= 1));
        assert(crate::flow_control::routable(mode, else_if.len()));
        lemma_collect_if_takes_what_stays_inside(
            tail,
            if mode is Success {
                success.push(head)
            } else {
                success
            },
            else_if,
            if mode is Failure {
                failure.push(head)
            } else {
                failure
            },
            crate::flow_control::level_after(level, head),
            mode,
            open,
        );
        assert(success.push(head) + tail =~= success + stream);
        assert(failure.push(head) + tail =~= failure + stream);
    }
}

/// A conditional with an `else` part is collected whole: from the
/// statements `then`, an `Else`, the statements `otherwise`, an `End` and
/// whatever follows, `then` becomes the part that runs when the condition
/// holds and `otherwise` the `else` part, as long as neither holds an `End`,
/// `Else` or `ElseIf` of the conditional itself.
pub proof fn lemma_collect_if_takes_both_parts(
    then: Seq<StatementView>,
    otherwise: Seq<StatementView>,
    following: Seq<StatementView>,
)
    requires
        part_depth_after(then, 0) == Some(0nat),
        part_depth_after(otherwise, 0) == Some(0nat),
        2 + then.len() + otherwise.len() <= usize::MAX,
    ensures
        collect_if_spec(
            then + seq![StatementView::Else] + otherwise + seq![StatementView::End] + following,
            Seq::empty(),
            Seq::empty(),
            Seq::empty(),
            1,
            IfMode::Success,
        ) == (IfCollection {
            success: then,
            else_if: Seq::empty(),
            failure: otherwise,
            rest: following,
            level: 0,
            mode: IfMode::Failure,
            error: None,
        }),
{
    let empty = Seq::<StatementView>::empty();
    let arms = Seq::<ElseIfView>::empty();
    let closing = seq![StatementView::End] + following;
    let second = otherwise + closing;
    let from_else = seq![StatementView::Else] + second;
    assert(then + seq![StatementView::Else] + otherwise + seq![StatementView::End] + following
        =~= then + from_else);
    lemma_collect_if_takes_what_stays_inside(then, empty, arms, empty, 1, IfMode::Success, 0);
    assert(empty + then =~= then);
    lemma_collect_if_in_pieces(then, from_else, empty, arms, empty, 1, IfMode::Success);
    assert(from_else.first() == StatementView::Else);
    assert(from_else.drop_first() =~= second);
    lemma_else_begins_the_else_part(from_else, then, arms, empty, 1, IfMode::Success);
    lemma_collect_if_takes_what_stays_inside(otherwise, then, arms, empty, 1, IfMode::Failure, 0);
    assert(empty + otherwise =~= otherwise);
    lemma_collect_if_in_pieces(otherwise, closing, then, arms, empty, 1, IfMode::Failure);
    assert(closing.first() == StatementView::End);
    assert(closing.drop_first() =~= following);
}

/// An `else if` after the `else` part of a conditional has begun is a
/// structural error, whatever stands in the parts before it.
pub proof fn lemma_else_if_after_else_is_an_error(
    then: Seq<StatementView>,
    otherwise: Seq<StatementView>,
    arm: ElseIfView,
    following: Seq<StatementView>,
)
    requires
        part_depth_after(then, 0) == Some(0nat),
        part_depth_after(otherwise, 0) == Some(0nat),
        2 + then.len() + otherwise.len() <= usize::MAX,
    ensures
        collect_if_spec(
            then + seq![StatementView::Else] + otherwise + seq![StatementView::ElseIf(arm)]
                + following,
            Seq::empty(),
            Seq::empty(),
            Seq::empty(),
            1,
            IfMode::Success,
        ).error == Some(SyntaxError::ElseBlockAlreadyGiven),
{
    let empty = Seq::<StatementView>::empty();
    let arms = Seq::<ElseIfView>::empty();
    let closing = seq![StatementView::ElseIf(arm)] + following;
    let second = otherwise + closing;
    let from_else = seq![StatementView::Else] + second;
    assert(then + seq![StatementView::Else] + otherwise + seq![StatementView::ElseIf(arm)]
        + following =~= then + from_else);
    lemma_collect_if_takes_what_stays_inside(then, empty, arms, empty, 1, IfMode::Success, 0);
    assert(empty + then =~= then);
    lemma_collect_if_in_pieces(then, from_else, empty, arms, empty, 1, IfMode::Success);
    assert(from_else.first() == StatementView::Else);
    assert(from_else.drop_first() =~= second);
    lemma_else_begins_the_else_part(from_else, then, arms, empty, 1, IfMode::Success);
    lemma_collect_if_takes_what_stays_inside(otherwise, then, arms, empty, 1, IfMode::Failure, 0);
    assert(empty + otherwise =~= otherwise);
    lemma_collect_if_in_pieces(otherwise, closing, then, arms, empty, 1, IfMode::Failure);
    assert(closing.first() == StatementView::ElseIf(arm));
    lemma_else_twice_is_an_error(closing, then, arms, otherwise, 1);
}

/// Collecting the parts of a conditional never leads to the mode `Error`:
/// the part that is being filled afterwards is one that the collector
/// chose, or the one it began with.
pub proof fn lemma_collect_if_keeps_a_mode(
    stream: Seq<StatementView>,
    success: Seq<StatementView>,
    else_if: Seq<ElseIfView>,
    failure: Seq<StatementView>,
    level: usize,
    mode: IfMode,
)
    requires
        !(mode is Error),
    ensures
        !(collect_if_spec(stream, success, else_if, failure, level, mode).mode is Error),
    decreases stream.len(),
{
    if stream.len() > 0 {
        let head = stream.first();
        let tail = stream.drop_first();
        if head is End && level <= 1 {
        } else if (head is ElseIf || head is Else) && level <= 1 {
            if mode is Failure {
            } else if !(mode is Success || mode is ElseIfSuccess) {
            } else if head is ElseIf {
                lemma_collect_if_keeps_a_mode(
                    tail,
                    success,
                    else_if.push(head->ElseIf_0),
                    failure,
                    level,
                    IfMode::ElseIfSuccess,
                );
            } else {
                lemma_collect_if_keeps_a_mode(tail, success, else_if, failure, level, IfMode::Failure);
            }
        } else if !crate::flow_control::routable(mode, else_if.len()) {
        } else {
            lemma_collect_if_keeps_a_mode(
                tail,
                if mode is Success {
                    success.push(head)
                } else {
                    success
                },
                if mode is ElseIfSuccess {
                    crate::flow_control::with_arm_statement(else_if, head)
                } else {
                    else_if
                },
                if mode is Failure {
                    failure.push(head)
                } else {
                    failure
                },
                crate::flow_control::level_after(level, head),
                mode,
            );
        }
    }
}

/// The blocks of a compound statement collected in a mode other than
/// `Error` end in the mode `Error` exactly when a conditional is rejected.
pub proof fn lemma_gather_fails_only_on_an_error(
    statement: StatementView,
    stream: Seq<StatementView>,
    level: usize,
    mode: IfMode,
)
    requires
        !(mode is Error),
    ensures
        gather(statement, stream, level, mode).mode is Error ==> gather(
            statement,
            stream,
            level,
            mode,
        ).error is Some && statement is If,
{
    match statement {
        StatementView::If { expression, success, else_if, failure } => {
            lemma_collect_if_keeps_a_mode(stream, success, else_if, failure, level, mode);
        },
        _ => {},
    }
}

} // verus!
