//! The accumulator for compound blocks and the collectors that fill it.
//!
//! A collector drains statements from a shared stream into the body of an
//! open block, counting nested blocks, until the `End` that closes the block.
//! Whatever follows that `End` stays in the stream for the caller.

use crate::ast::{
    case_views, else_if_views, lemma_case_views_drop_last, lemma_case_views_push,
    lemma_else_if_views_drop_last, lemma_else_if_views_push, lemma_statement_views_push,
    lemma_statement_views_tail, statement_views, Case, CaseView, ElseIf, ElseIfView, Statement,
    StatementView,
};
use crate::balance::depth_after;
use std::collections::VecDeque;
use vstd::prelude::*;

verus! {

/// Which part of a conditional is being filled.
#[derive(Clone, Copy, Debug, PartialEq, Eq, Structural)]
pub enum IfMode {
    /// The statements run when the condition holds.
    Success,
    /// The condition of an `else if` arm.
    ElseIfExpression,
    /// The statements of the latest `else if` arm.
    ElseIfSuccess,
    /// The statements of the `else` part.
    Failure,
    /// The conditional is malformed.
    Error,
}

/// A structural error in the statement stream.
#[derive(Clone, Copy, Debug, PartialEq, Eq, Structural)]
pub enum SyntaxError {
    /// `else` or `else if` outside a conditional.
    NotAnIfStatement,
    /// `end` with no open block.
    NoBlockToEnd,
    /// `else` or `else if` after the `else` part has begun.
    ElseBlockAlreadyGiven,
    /// A conditional with no part to put a statement in.
    MalformedIf,
    /// A statement in a `match` before its first `case`.
    OutsideCase,
}

impl IfMode {
    /// The number that stands for the mode.
    pub open spec fn code_spec(self) -> u8 {
        match self {
            IfMode::Success => 0,
            IfMode::ElseIfExpression => 1,
            IfMode::ElseIfSuccess => 2,
            IfMode::Failure => 3,
            IfMode::Error => 4,
        }
    }

    /// The number that stands for the mode.
    #[verifier::when_used_as_spec(code_spec)]
    pub fn code(self) -> (r: u8)
        ensures
            r == self.code_spec(),
    {
        match self {
            IfMode::Success => 0,
            IfMode::ElseIfExpression => 1,
            IfMode::ElseIfSuccess => 2,
            IfMode::Failure => 3,
            IfMode::Error => 4,
        }
    }
}

/// The nesting level after one more block has been opened. The counter
/// stays at the largest representable level rather than wrapping.
pub open spec fn deeper(level: usize) -> usize {
    if level < usize::MAX {
        (level + 1) as usize
    } else {
        level
    }
}

/// The nesting level after a nested block has been closed.
pub open spec fn shallower(level: usize) -> usize {
    if level > 0 {
        (level - 1) as usize
    } else {
        level
    }
}

/// The nesting level after `head` has been put into a body.
pub open spec fn level_after(level: usize, head: StatementView) -> usize {
    if head.opens() {
        deeper(level)
    } else if head is End {
        shallower(level)
    } else {
        level
    }
}

/// What `collect_loops` leaves behind.
pub struct LoopCollection {
    pub statements: Seq<StatementView>,
    pub rest: Seq<StatementView>,
    pub level: usize,
}

/// What `collect_if` leaves behind.
pub struct IfCollection {
    pub success: Seq<StatementView>,
    pub else_if: Seq<ElseIfView>,
    pub failure: Seq<StatementView>,
    pub rest: Seq<StatementView>,
    pub level: usize,
    pub mode: IfMode,
    pub error: Option<SyntaxError>,
}

/// What `collect_cases` leaves behind.
pub struct CaseCollection {
    pub cases: Seq<CaseView>,
    pub rest: Seq<StatementView>,
    pub level: usize,
    pub error: Option<SyntaxError>,
}

/// Collecting the body of a loop or function: every statement up to the
/// `End` that brings `level` to zero joins `statements`; that `End` is
/// dropped and what follows it is the rest.
pub open spec fn collect_loops_spec(
    stream: Seq<StatementView>,
    statements: Seq<StatementView>,
    level: usize,
) -> LoopCollection
    decreases stream.len(),
{
    if stream.len() == 0 {
        LoopCollection { statements, rest: stream, level }
    } else {
        let head = stream.first();
        let tail = stream.drop_first();
        if head is End && level <= 1 {
            LoopCollection { statements, rest: tail, level: 0 }
        } else {
            collect_loops_spec(tail, statements.push(head), level_after(level, head))
        }
    }
}

/// Whether a statement can be put into the part that `mode` names.
pub open spec fn routable(mode: IfMode, arms: nat) -> bool {
    mode is Success || mode is Failure || (mode is ElseIfSuccess && arms > 0)
}

/// The arms of a conditional after `head` has joined the latest one.
pub open spec fn with_arm_statement(else_if: Seq<ElseIfView>, head: StatementView) -> Seq<
    ElseIfView,
> {
    if else_if.len() > 0 {
        else_if.drop_last().push(
            ElseIfView {
                expression: else_if.last().expression,
                success: else_if.last().success.push(head),
            },
        )
    } else {
        else_if
    }
}

/// Collecting the parts of a conditional. At the level of the conditional
/// itself `ElseIf` opens a new arm, `Else` opens the `else` part and `End`
/// closes the conditional; every other statement joins the part that `mode`
/// names. `Else` or `ElseIf` after the `else` part has begun is an error.
pub open spec fn collect_if_spec(
    stream: Seq<StatementView>,
    success: Seq<StatementView>,
    else_if: Seq<ElseIfView>,
    failure: Seq<StatementView>,
    level: usize,
    mode: IfMode,
) -> IfCollection
    decreases stream.len(),
{
    if stream.len() == 0 {
        IfCollection { success, else_if, failure, rest: stream, level, mode, error: None }
    } else {
        let head = stream.first();
        let tail = stream.drop_first();
        if head is End && level <= 1 {
            IfCollection { success, else_if, failure, rest: tail, level: 0, mode, error: None }
        } else if (head is ElseIf || head is Else) && level <= 1 {
            if mode is Failure {
                IfCollection {
                    success,
                    else_if,
                    failure,
                    rest: tail,
                    level,
                    mode,
                    error: Some(SyntaxError::ElseBlockAlreadyGiven),
                }
            } else if !(mode is Success || mode is ElseIfSuccess) {
                IfCollection {
                    success,
                    else_if,
                    failure,
                    rest: tail,
                    level,
                    mode,
                    error: Some(SyntaxError::MalformedIf),
                }
            } else if head is ElseIf {
                collect_if_spec(
                    tail,
                    success,
                    else_if.push(head->ElseIf_0),
                    failure,
                    level,
                    IfMode::ElseIfSuccess,
                )
            } else {
                collect_if_spec(tail, success, else_if, failure, level, IfMode::Failure)
            }
        } else if !routable(mode, else_if.len()) {
            IfCollection {
                success,
                else_if,
                failure,
                rest: tail,
                level,
                mode,
                error: Some(SyntaxError::MalformedIf),
            }
        } else {
            collect_if_spec(
                tail,
                if mode is Success {
                    success.push(head)
                } else {
                    success
                },
                if mode is ElseIfSuccess {
                    with_arm_statement(else_if, head)
                } else {
                    else_if
                },
                if mode is Failure {
                    failure.push(head)
                } else {
                    failure
                },
                level_after(level, head),
                mode,
            )
        }
    }
}

/// The arms of a `match` after `head` has joined the latest one.
pub open spec fn with_case_statement(cases: Seq<CaseView>, head: StatementView) -> Seq<CaseView> {
    if cases.len() > 0 {
        cases.drop_last().push(
            CaseView { value: cases.last().value, statements: cases.last().statements.push(head) },
        )
    } else {
        cases
    }
}

/// Collecting the arms of a `match`. At the level of the `match` itself
/// `Case` opens a new arm and `End` closes the `match`; every other
/// statement, the `End` of a nested block too, joins the latest arm, and is
/// an error when there is none. An error leaves the level as it was.
pub open spec fn collect_cases_spec(
    stream: Seq<StatementView>,
    cases: Seq<CaseView>,
    level: usize,
) -> CaseCollection
    decreases stream.len(),
{
    if stream.len() == 0 {
        CaseCollection { cases, rest: stream, level, error: None }
    } else {
        let head = stream.first();
        let tail = stream.drop_first();
        if head is End && level <= 1 {
            CaseCollection { cases, rest: tail, level: 0, error: None }
        } else if head is Case && level <= 1 {
            collect_cases_spec(tail, cases.push(head->Case_0), level)
        } else if cases.len() == 0 {
            CaseCollection { cases, rest: tail, level, error: Some(SyntaxError::OutsideCase) }
        } else {
            collect_cases_spec(tail, with_case_statement(cases, head), level_after(level, head))
        }
    }
}

/// The level after `statement` has been put into a body.
fn next_level(level: usize, statement: &Statement) -> (r: usize)
    ensures
        r == level_after(level, statement@),
{
    if statement.opens() {
        if level < usize::MAX {
            level + 1
        } else {
            level
        }
    } else if statement.is_end() {
        if level > 0 {
            level - 1
        } else {
            level
        }
    } else {
        level
    }
}

/// Drains `stream` into the body of an open loop or function. When the
/// stream holds a body in which every block is closed, then an `End`, the
/// loop gains exactly that body and closes, and what follows the `End`
/// stays in the stream.
pub fn collect_loops(
    stream: &mut VecDeque<Statement>,
    statements: &mut Vec<Statement>,
    level: &mut usize,
)
    ensures
        (LoopCollection {
            statements: statement_views(final(statements)@),
            rest: statement_views(final(stream)@),
            level: *final(level),
        }) == collect_loops_spec(
            statement_views(old(stream)@),
            statement_views(old(statements)@),
            *old(level),
        ),
        forall|body: Seq<StatementView>, following: Seq<StatementView>|
            *old(level) == 1 && depth_after(body, 0) == Some(0nat) && statement_views(
                old(stream)@,
            ) == #[trigger] (body + seq![StatementView::End] + following) ==> statement_views(
                final(statements)@,
            ) == statement_views(old(statements)@) + body && statement_views(final(stream)@)
                == following && *final(level) == 0,
{
    proof {
        assert(stream@.len() == stream.len() <= usize::MAX);
        assert forall|body: Seq<StatementView>, following: Seq<StatementView>|
            *level == 1 && depth_after(body, 0) == Some(0nat) && statement_views(stream@)
                == #[trigger] (body + seq![StatementView::End] + following) implies collect_loops_spec(
            statement_views(stream@),
            statement_views(statements@),
            *level,
        ) == (LoopCollection {
            statements: statement_views(statements@) + body,
            rest: following,
            level: 0,
        }) by {
            assert((body + seq![StatementView::End] + following).len() == body.len() + 1
                + following.len());
            crate::collect_laws::lemma_collect_loops_takes_the_block(
                body,
                following,
                statement_views(statements@),
            );
        }
    }
    let ghost goal = collect_loops_spec(
        statement_views(stream@),
        statement_views(statements@),
        *level,
    );
    loop
        invariant_except_break
            collect_loops_spec(statement_views(stream@), statement_views(statements@), *level)
                == goal,
        ensures
            (LoopCollection {
                statements: statement_views(statements@),
                rest: statement_views(stream@),
                level: *level,
            }) == goal,
        decreases stream@.len(),
    {
        let ghost before = stream@;
        match stream.pop_front() {
            None => {
                break ;
            },
            Some(statement) => {
                proof {
                    lemma_statement_views_tail(before);
                    lemma_statement_views_push(statements@, statement);
                }
                if statement.is_end() && *level <= 1 {
                    *level = 0;
                    break ;
                }
                *level = next_level(*level, &statement);
                statements.push(statement);
            },
        }
    }
}

/// Drains `stream` into the parts of an open conditional and returns the
/// part that is being filled when the stream runs out or the conditional
/// closes.
pub fn collect_if(
    stream: &mut VecDeque<Statement>,
    success: &mut Vec<Statement>,
    else_if: &mut Vec<ElseIf>,
    failure: &mut Vec<Statement>,
    level: &mut usize,
    mode: IfMode,
) -> (result: Result<IfMode, SyntaxError>)
    ensures
        (IfCollection {
            success: statement_views(final(success)@),
            else_if: else_if_views(final(else_if)@),
            failure: statement_views(final(failure)@),
            rest: statement_views(final(stream)@),
            level: *final(level),
            mode: match result {
                Ok(m) => m,
                Err(_) => collect_if_spec(
                    statement_views(old(stream)@),
                    statement_views(old(success)@),
                    else_if_views(old(else_if)@),
                    statement_views(old(failure)@),
                    *old(level),
                    mode,
                ).mode,
            },
            error: match result {
                Ok(_) => None,
                Err(e) => Some(e),
            },
        }) == collect_if_spec(
            statement_views(old(stream)@),
            statement_views(old(success)@),
            else_if_views(old(else_if)@),
            statement_views(old(failure)@),
            *old(level),
            mode,
        ),
{
    let ghost goal = collect_if_spec(
        statement_views(stream@),
        statement_views(success@),
        else_if_views(else_if@),
        statement_views(failure@),
        *level,
        mode,
    );
    let mut current = mode;
    loop
        invariant
            goal == collect_if_spec(
                statement_views(old(stream)@),
                statement_views(old(success)@),
                else_if_views(old(else_if)@),
                statement_views(old(failure)@),
                *old(level),
                mode,
            ),
            collect_if_spec(
                statement_views(stream@),
                statement_views(success@),
                else_if_views(else_if@),
                statement_views(failure@),
                *level,
                current,
            ) == goal,
        decreases stream@.len(),
    {
        let ghost before = stream@;
        match stream.pop_front() {
            None => {
                return Ok(current);
            },
            Some(statement) => {
                proof {
                    lemma_statement_views_tail(before);
                    lemma_statement_views_push(success@, statement);
                    lemma_statement_views_push(failure@, statement);
                }
                if statement.is_end() && *level <= 1 {
                    *level = 0;
                    return Ok(current);
                }
                let splits = match &statement {
                    Statement::ElseIf(_) => true,
                    Statement::Else => true,
                    _ => false,
                };
                if splits && *level <= 1 {
                    match current {
                        IfMode::Failure => {
                            return Err(SyntaxError::ElseBlockAlreadyGiven);
                        },
                        IfMode::Success | IfMode::ElseIfSuccess => {
                            match statement {
                                Statement::ElseIf(arm) => {
                                    proof {
                                        lemma_else_if_views_push(else_if@, arm);
                                    }
                                    else_if.push(arm);
                                    current = IfMode::ElseIfSuccess;
                                },
                                _ => {
                                    current = IfMode::Failure;
                                },
                            }
                        },
                        _ => {
                            return Err(SyntaxError::MalformedIf);
                        },
                    }
                } else {
                    let after = next_level(*level, &statement);
                    match current {
                        IfMode::Success => {
                            success.push(statement);
                        },
                        IfMode::Failure => {
                            failure.push(statement);
                        },
                        IfMode::ElseIfSuccess => {
                            let ghost arms = else_if@;
                            match else_if.pop() {
                                None => {
                                    return Err(SyntaxError::MalformedIf);
                                },
                                Some(arm) => {
                                    let mut arm = arm;
                                    proof {
                                        lemma_else_if_views_drop_last(arms);
                                        lemma_statement_views_push(arm.success@, statement);
                                    }
                                    arm.success.push(statement);
                                    proof {
                                        lemma_else_if_views_push(else_if@, arm);
                                    }
                                    else_if.push(arm);
                                },
                            }
                        },
                        _ => {
                            return Err(SyntaxError::MalformedIf);
                        },
                    }
                    *level = after;
                }
            },
        }
    }
}

/// Drains `stream` into the arms of an open `match`.
pub fn collect_cases(
    stream: &mut VecDeque<Statement>,
    cases: &mut Vec<Case>,
    level: &mut usize,
) -> (result: Result<(), SyntaxError>)
    ensures
        (CaseCollection {
            cases: case_views(final(cases)@),
            rest: statement_views(final(stream)@),
            level: *final(level),
            error: match result {
                Ok(_) => None,
                Err(e) => Some(e),
            },
        }) == collect_cases_spec(
            statement_views(old(stream)@),
            case_views(old(cases)@),
            *old(level),
        ),
{
    let ghost goal = collect_cases_spec(statement_views(stream@), case_views(cases@), *level);
    loop
        invariant
            goal == collect_cases_spec(
                statement_views(old(stream)@),
                case_views(old(cases)@),
                *old(level),
            ),
            collect_cases_spec(statement_views(stream@), case_views(cases@), *level) == goal,
        decreases stream@.len(),
    {
        let ghost before = stream@;
        match stream.pop_front() {
            None => {
                return Ok(());
            },
            Some(statement) => {
                proof {
                    lemma_statement_views_tail(before);
                }
                if statement.is_end() && *level <= 1 {
                    *level = 0;
                    return Ok(());
                }
                let after = next_level(*level, &statement);
                match statement {
                    Statement::Case(case) if *level <= 1 => {
                        proof {
                            lemma_case_views_push(cases@, case);
                        }
                        cases.push(case);
                    },
                    statement => {
                        let ghost arms = cases@;
                        match cases.pop() {
                            None => {
                                return Err(SyntaxError::OutsideCase);
                            },
                            Some(case) => {
                                let mut case = case;
                                proof {
                                    lemma_case_views_drop_last(arms);
                                    lemma_statement_views_push(case.statements@, statement);
                                }
                                case.statements.push(statement);
                                proof {
                                    lemma_case_views_push(cases@, case);
                                }
                                cases.push(case);
                                *level = after;
                            },
                        }
                    },
                }
            },
        }
    }
}

/// The accumulator: the compound statement that is still open at the end
/// of an input line, and how deeply nested its open blocks are.
pub struct FlowControl {
    /// How many blocks are open; zero when no statement is pending.
    pub level: usize,
    /// The pending statement; `Default` when there is none.
    pub current_statement: Statement,
    /// The part of a pending conditional that is being filled.
    pub current_if_mode: IfMode,
}

/// The accumulator as a mathematical value.
pub struct FlowControlView {
    pub level: usize,
    pub current_statement: StatementView,
    pub current_if_mode: IfMode,
}

impl View for FlowControl {
    type V = FlowControlView;

    open spec fn view(&self) -> FlowControlView {
        FlowControlView {
            level: self.level,
            current_statement: self.current_statement@,
            current_if_mode: self.current_if_mode,
        }
    }
}

impl FlowControlView {
    /// The accumulator with nothing pending.
    pub open spec fn clean() -> FlowControlView {
        FlowControlView {
            level: 0,
            current_statement: StatementView::Default,
            current_if_mode: IfMode::Success,
        }
    }
}

impl FlowControl {
    /// An accumulator with nothing pending.
    pub fn new() -> (flow: FlowControl)
        ensures
            flow@ == FlowControlView::clean(),
    {
        FlowControl {
            level: 0,
            current_statement: Statement::Default,
            current_if_mode: IfMode::Success,
        }
    }

    /// Forgets the pending statement, as a shell does to recover after an
    /// interrupt.
    pub fn reset(&mut self)
        ensures
            final(self)@ == FlowControlView::clean(),
    {
        self.level = 0;
        self.current_statement = Statement::Default;
        self.current_if_mode = IfMode::Success;
    }
}

} // verus!
