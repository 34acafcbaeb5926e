//! The transitions of the executor: taking an input line, running the
//! statements of a line or a body, loops, conditionals and `match`.

pub use crate::ast::Condition;
use crate::ast::{
    case_views, clone_statements, else_if_views, lemma_statement_views_tail, statement_views,
    string_views, Case, ElseIf, Function, Pipeline, Statement, StatementView,
};
use crate::balance::{all_bare, balanced, depth_after};
use crate::flow_control::{
    collect_cases, collect_if, collect_if_spec, collect_loops, deeper, IfMode, SyntaxError,
};
use crate::laws::{
    extended, is_loop, lemma_status_is_the_last_one_reported,
    lemma_toplevel_declares_the_function, lemma_toplevel_refuses_only_a_conditional, status_due,
};
use crate::runs::{lemma_started_construct, never_break_or_continue, sigint_iff_interrupted};
use crate::shell::{
    body_spec, deliver_spec, execute_toplevel_spec, for_spec, frame_of, function_of, gather,
    if_spec, launched, line_spec, match_spec, on_command_spec, pattern_matches, start_spec,
    step_spec, while_spec, BodyPhase, ForPhase, ForValues, Frame, IfPhase, LinePhase, MatchPhase,
    Outcome, Reply, Request, Shell, ShellView, Toplevel, WhilePhase, ERR_EXIT, SUCCESS,
};
use crate::text::{render_decimal, split_lines};
use crate::wellformed::{
    frame_ok, inv, lemma_line_keeps, lemma_on_command_keeps_inv, lemma_start_keeps_inv,
    lemma_step_keeps_inv, statement_fits, strays_at_top, strays_before_a_block,
};
use std::collections::VecDeque;
use vstd::prelude::*;

verus! {

/// The items of a list as a queue, in the same order.
pub(crate) fn into_queue<T>(list: Vec<T>) -> (queue: VecDeque<T>)
    ensures
        queue@ == list@,
{
    let mut list = list;
    let mut queue: VecDeque<T> = VecDeque::new();
    let ghost all = list@;
    loop
        invariant
            list@ + queue@ == all,
        ensures
            queue@ == all,
        decreases list@.len(),
    {
        let ghost before = list@;
        match list.pop() {
            None => {
                assert(list@ + queue@ =~= queue@);
                break ;
            },
            Some(item) => {
                let ghost behind = queue@;
                queue.push_front(item);
                assert(list@ + queue@ =~= before + behind);
            },
        }
    }
    queue
}

/// Whether some word of `pattern` equals some word of `value`.
pub fn matches(pattern: &Vec<String>, value: &Vec<String>) -> (found: bool)
    ensures
        found == pattern_matches(string_views(pattern@), string_views(value@)),
{
    let mut i: usize = 0;
    while i < pattern.len()
        invariant
            i <= pattern@.len(),
            forall|a: int, b: int|
                0 <= a < i && 0 <= b < value@.len() ==> pattern@[a]@ != value@[b]@,
        decreases pattern@.len() - i,
    {
        let mut j: usize = 0;
        while j < value.len()
            invariant
                i < pattern@.len(),
                j <= value@.len(),
                forall|b: int| 0 <= b < j ==> pattern@[i as int]@ != value@[b]@,
            decreases value@.len() - j,
        {
            if pattern[i] == value[j] {
                assert(string_views(pattern@)[i as int] == string_views(value@)[j as int]);
                return true;
            }
            j += 1;
        }
        i += 1;
    }
    let ghost patterns = string_views(pattern@);
    let ghost values = string_views(value@);
    assert forall|a: int, b: int|
        0 <= a < patterns.len() && 0 <= b < values.len() implies patterns[a] != values[b] by {
        assert(pattern@[a]@ != value@[b]@);
    }
    false
}

/// Whether a loop variable of this name is left unset.
fn is_ignored(variable: &String) -> (ignored: bool)
    ensures
        ignored == (variable@ == crate::shell::ignored_variable()),
{
    let underscore = "_".to_owned();
    *variable == underscore
}

/// The exit status that an answer carries; none when the answer is of
/// another kind.
fn status_of(reply: &Reply) -> (status: Option<i32>)
    ensures
        reply@ is Status ==> status == reply@->Status_0,
{
    match reply {
        Reply::Status(status) => *status,
        _ => None,
    }
}

/// The status of a binding that an answer carries.
fn code_of(reply: &Reply) -> (code: i32)
    ensures
        reply@ is Code ==> code == reply@->Code_0,
{
    match reply {
        Reply::Code(code) => *code,
        _ => SUCCESS,
    }
}

/// The words that an answer carries.
fn words_of_reply(reply: Reply) -> (words: Vec<String>)
    ensures
        reply@ is Words ==> string_views(words@) == reply@->Words_0,
{
    match reply {
        Reply::Words(words) => words,
        _ => Vec::new(),
    }
}

/// The values that a resolved value list stands for, ready to be gone
/// through.
fn resolved(reply: Reply) -> (values: ForValues)
    ensures
        reply@ is Values ==> values@ == crate::shell::words_of(reply@->Values_0),
{
    match reply {
        Reply::Values(crate::ast::ForExpression::Multiple(words)) => ForValues::Words(
            into_queue(words),
        ),
        Reply::Values(crate::ast::ForExpression::Normal(text)) => ForValues::Words(
            into_queue(split_lines(&text)),
        ),
        Reply::Values(crate::ast::ForExpression::Range(start, end)) => ForValues::Range(start, end),
        _ => ForValues::Range(0, 0),
    }
}

/// Takes the next value off `values`.
fn next_value(values: ForValues) -> (next: (Option<String>, ForValues))
    ensures
        match next.0 {
            Some(value) => values@.len() > 0 && value@ == values@.first() && next.1@
                == values@.drop_first(),
            None => values@.len() == 0 && next.1@ == values@,
        },
{
    match values {
        ForValues::Words(words) => {
            let mut words = words;
            let ghost before = words@;
            let value = words.pop_front();
            assert(value is Some ==> string_views(words@) =~= string_views(before).drop_first());
            (value, ForValues::Words(words))
        },
        ForValues::Range(start, end) => {
            if start < end {
                let value = render_decimal(start);
                assert(crate::text::range_words((start + 1) as nat, end as nat)
                    =~= crate::text::range_words(start as nat, end as nat).drop_first());
                (Some(value), ForValues::Range(start + 1, end))
            } else {
                (None, ForValues::Range(start, end))
            }
        },
    }
}

/// Collects from `stream` into the blocks of `statement`.
fn gather_blocks(
    statement: Statement,
    stream: &mut VecDeque<Statement>,
    level: &mut usize,
    mode: IfMode,
) -> (gathered: (Statement, IfMode, Option<SyntaxError>))
    ensures
        (crate::shell::Gathered {
            statement: gathered.0@,
            rest: statement_views(final(stream)@),
            level: *final(level),
            mode: gathered.1,
            error: gathered.2,
        }) == gather(statement@, statement_views(old(stream)@), *old(level), mode),
{
    match statement {
        Statement::While { expression, statements } => {
            let mut statements = statements;
            collect_loops(stream, &mut statements, level);
            (Statement::While { expression, statements }, mode, None)
        },
        Statement::For { variable, values, statements } => {
            let mut statements = statements;
            collect_loops(stream, &mut statements, level);
            (Statement::For { variable, values, statements }, mode, None)
        },
        Statement::Function { name, description, args, statements } => {
            let mut statements = statements;
            collect_loops(stream, &mut statements, level);
            (Statement::Function { name, description, args, statements }, mode, None)
        },
        Statement::If { expression, success, else_if, failure } => {
            let mut success = success;
            let mut else_if = else_if;
            let mut failure = failure;
            match collect_if(stream, &mut success, &mut else_if, &mut failure, level, mode) {
                Ok(reached) => (
                    Statement::If { expression, success, else_if, failure },
                    reached,
                    None,
                ),
                Err(error) => (
                    Statement::If { expression, success, else_if, failure },
                    IfMode::Error,
                    Some(error),
                ),
            }
        },
        Statement::Match { expression, cases } => {
            let mut cases = cases;
            match collect_cases(stream, &mut cases, level) {
                Ok(()) => (Statement::Match { expression, cases }, mode, None),
                Err(error) => (Statement::Match { expression, cases }, mode, Some(error)),
            }
        },
        other => (other, mode, None),
    }
}

/// The frame that runs `statement`, for a loop, a conditional or a `match`.
fn launch(statement: Statement) -> (frame: Option<Frame>)
    ensures
        match frame {
            Some(f) => frame_of(statement@) == Some(f@),
            None => frame_of(statement@) is None,
        },
{
    match statement {
        Statement::While { expression, statements } => Some(
            Frame::While { expression, statements, phase: WhilePhase::Ready },
        ),
        Statement::For { variable, values, statements } => {
            let remaining: VecDeque<String> = VecDeque::new();
            assert(string_views(remaining@) =~= Seq::empty());
            Some(
                Frame::For {
                    variable,
                    values,
                    remaining: ForValues::Words(remaining),
                    statements,
                    phase: ForPhase::Ready,
                },
            )
        },
        Statement::If { expression, success, else_if, failure } => Some(
            Frame::If {
                expression,
                success,
                else_if: into_queue(else_if),
                failure,
                phase: IfPhase::Ready,
            },
        ),
        Statement::Match { expression, cases } => {
            let value: Vec<String> = Vec::new();
            let statements: Vec<Statement> = Vec::new();
            assert(string_views(value@) =~= Seq::empty());
            assert(statement_views(statements@) =~= Seq::empty());
            Some(
                Frame::Match {
                    expression,
                    value,
                    cases: into_queue(cases),
                    statements,
                    phase: MatchPhase::Ready,
                },
            )
        },
        _ => None,
    }
}

/// What a top-level statement asks for: where its line stands afterwards,
/// the construct to run, and the request to make.
struct Launch {
    phase: LinePhase,
    frame: Option<Frame>,
    request: Request,
}

/// The level after one more block has been opened.
fn one_deeper(level: usize) -> (r: usize)
    ensures
        r == deeper(level),
{
    if level < usize::MAX {
        level + 1
    } else {
        level
    }
}

/// The view of the frame of a construct to run, if there is one.
spec fn launch_view(frame: Option<Frame>) -> Option<crate::shell::FrameView> {
    match frame {
        Some(f) => Some(f@),
        None => None,
    }
}

impl Shell {
    /// A shell with nothing pending, nothing declared and nothing running.
    pub fn new() -> (shell: Shell)
        ensures
            shell@.idle(),
            shell@.flow_control == crate::flow_control::FlowControlView::clean(),
            shell@.previous_status == SUCCESS,
            shell@.flags == 0,
            !shell@.break_flow,
            shell@.functions == Map::<Seq<char>, crate::ast::FunctionView>::empty(),
            inv(shell@),
    {
        Shell {
            flow_control: crate::flow_control::FlowControl::new(),
            previous_status: SUCCESS,
            flags: 0,
            break_flow: false,
            functions: crate::functions::FunctionTable::new(),
            control: crate::shell::Control::new(),
        }
    }

    /// A body goes on to poll for a signal.
    fn poll(&mut self, stream: VecDeque<Statement>) -> (request: Request)
        ensures
            (Outcome { state: final(self)@, request: request@ }) == crate::shell::poll(
                old(self)@,
                statement_views(stream@),
            ),
    {
        self.push(Frame::Body { stream, phase: BodyPhase::Polling });
        Request::NextSignal
    }

    /// Declares the function that `statement` holds.
    fn declare(&mut self, statement: Statement)
        requires
            statement@ is Function,
        ensures
            final(self)@ == old(self)@.declares(function_of(statement@)),
    {
        match statement {
            Statement::Function { name, description, args, statements } => {
                self.functions.insert(Function { name, description, args, statements });
            },
            _ => {},
        }
    }

    /// Forgets the open block after a structural error.
    fn reset(&mut self)
        ensures
            final(self)@ == old(self)@.reset(),
    {
        self.flow_control.level = 0;
        self.flow_control.current_if_mode = IfMode::Success;
    }

    /// Stops everything that is running: the shell is about to exit.
    fn halt(&mut self)
        ensures
            final(self)@ == old(self)@.halted(),
    {
        self.control.clear();
    }

    /// One transition of a `for` loop that has been taken off the stack.
    fn step_for(
        &mut self,
        variable: String,
        values: Vec<String>,
        remaining: ForValues,
        statements: Vec<Statement>,
        phase: ForPhase,
        reply: Reply,
    ) -> (request: Request)
        requires
            phase is Resolving ==> reply@ is Values,
        ensures
            (Outcome { state: final(self)@, request: request@ }) == for_spec(
                old(self)@,
                variable@,
                string_views(values@),
                remaining@,
                statement_views(statements@),
                phase,
                reply@,
            ),
    {
        match phase {
            ForPhase::Ready => {
                let request = Request::ResolveFor(crate::ast::clone_strings(&values));
                self.push(
                    Frame::For {
                        variable,
                        values,
                        remaining,
                        statements,
                        phase: ForPhase::Resolving,
                    },
                );
                request
            },
            ForPhase::Resolving => {
                let remaining = resolved(reply);
                self.push(
                    Frame::For { variable, values, remaining, statements, phase: ForPhase::Next },
                );
                Request::Proceed
            },
            ForPhase::Next => {
                let (value, remaining) = next_value(remaining);
                match value {
                    None => {
                        self.finish(Condition::NoOp);
                        Request::Proceed
                    },
                    Some(value) => {
                        if is_ignored(&variable) {
                            let body = clone_statements(&statements);
                            self.push(
                                Frame::For {
                                    variable,
                                    values,
                                    remaining,
                                    statements,
                                    phase: ForPhase::Iterating,
                                },
                            );
                            self.push_body(body);
                            Request::Proceed
                        } else {
                            let request = Request::SetVar { name: variable.clone(), value };
                            self.push(
                                Frame::For {
                                    variable,
                                    values,
                                    remaining,
                                    statements,
                                    phase: ForPhase::Binding,
                                },
                            );
                            request
                        }
                    },
                }
            },
            ForPhase::Binding => {
                let body = clone_statements(&statements);
                self.push(
                    Frame::For {
                        variable,
                        values,
                        remaining,
                        statements,
                        phase: ForPhase::Iterating,
                    },
                );
                self.push_body(body);
                Request::Proceed
            },
            ForPhase::Iterating => {
                self.push(Frame::For { variable, values, remaining, statements, phase });
                Request::Idle
            },
        }
    }

    /// Runs one statement of a body whose other statements are `stream`.
    fn execute_statement(
        &mut self,
        statement: Statement,
        stream: VecDeque<Statement>,
    ) -> (request: Request)
        ensures
            (Outcome { state: final(self)@, request: request@ }) == body_spec(
                old(self)@,
                seq![statement@] + statement_views(stream@),
                BodyPhase::Ready,
                crate::shell::ReplyView::Proceed,
            ),
    {
        let mut stream = stream;
        proof {
            let whole = seq![statement@] + statement_views(stream@);
            assert(whole.first() == statement@);
            assert(whole.drop_first() =~= statement_views(stream@));
        }
        match statement {
            Statement::Error(code) => {
                self.previous_status = code;
                self.poll(stream)
            },
            Statement::Let { expression } => {
                self.push(Frame::Body { stream, phase: BodyPhase::Binding });
                Request::Local(expression)
            },
            Statement::Export(expression) => {
                self.push(Frame::Body { stream, phase: BodyPhase::Binding });
                Request::Export(expression)
            },
            Statement::Pipeline(pipeline) => {
                self.push(Frame::Body { stream, phase: BodyPhase::Running });
                Request::RunPipeline(pipeline)
            },
            Statement::Break => {
                self.finish(Condition::Break);
                Request::Proceed
            },
            Statement::Continue => {
                self.finish(Condition::Continue);
                Request::Proceed
            },
            statement => {
                if statement.opens() {
                    let is_loop = match &statement {
                        Statement::While { .. } => true,
                        Statement::For { .. } => true,
                        _ => false,
                    };
                    let is_function = match &statement {
                        Statement::Function { .. } => true,
                        _ => false,
                    };
                    let mut level = one_deeper(self.flow_control.level);
                    let (gathered, _, error) = gather_blocks(
                        statement,
                        &mut stream,
                        &mut level,
                        IfMode::Success,
                    );
                    match error {
                        Some(error) => {
                            self.reset();
                            self.finish(Condition::Break);
                            Request::Diagnostic(error)
                        },
                        None => {
                            self.flow_control.level = level;
                            if is_function {
                                self.declare(gathered);
                                self.poll(stream)
                            } else {
                                self.push(
                                    Frame::Body {
                                        stream,
                                        phase: if is_loop {
                                            BodyPhase::Loop
                                        } else {
                                            BodyPhase::Branch
                                        },
                                    },
                                );
                                match launch(gathered) {
                                    Some(frame) => {
                                        self.push(frame);
                                    },
                                    None => {},
                                }
                                Request::Proceed
                            }
                        },
                    }
                } else {
                    self.poll(stream)
                }
            },
        }
    }

    /// One transition of a body that has been taken off the stack.
    fn step_statements(
        &mut self,
        stream: VecDeque<Statement>,
        phase: BodyPhase,
        reply: Reply,
    ) -> (request: Request)
        requires
            phase is Binding ==> reply@ is Code,
            phase is Running ==> reply@ is Status,
            phase is Polling ==> reply@ is Signal,
            phase is Handling ==> reply@ is Handled,
            phase is Ready ==> reply@ is Proceed,
        ensures
            (Outcome { state: final(self)@, request: request@ }) == body_spec(
                old(self)@,
                statement_views(stream@),
                phase,
                reply@,
            ),
    {
        let mut stream = stream;
        match phase {
            BodyPhase::Ready => {
                let ghost before = stream@;
                match stream.pop_front() {
                    None => {
                        self.finish(Condition::NoOp);
                        Request::Proceed
                    },
                    Some(statement) => {
                        proof {
                            lemma_statement_views_tail(before);
                            assert(statement_views(before) =~= seq![statement@] + statement_views(
                                stream@,
                            ));
                        }
                        self.execute_statement(statement, stream)
                    },
                }
            },
            BodyPhase::Binding => {
                self.previous_status = code_of(&reply);
                self.poll(stream)
            },
            BodyPhase::Running => {
                self.record(status_of(&reply));
                if self.flags & ERR_EXIT != 0 && self.previous_status != SUCCESS {
                    self.halt();
                    Request::Exit(self.previous_status)
                } else {
                    self.poll(stream)
                }
            },
            BodyPhase::Polling => {
                let signal = match reply {
                    Reply::Signal(signal) => signal,
                    _ => None,
                };
                match signal {
                    Some(signal) => {
                        self.push(Frame::Body { stream, phase: BodyPhase::Handling(signal) });
                        Request::HandleSignal(signal)
                    },
                    None => {
                        if self.break_flow {
                            self.break_flow = false;
                            self.finish(Condition::SigInt);
                        } else {
                            self.push(Frame::Body { stream, phase: BodyPhase::Ready });
                        }
                        Request::Proceed
                    },
                }
            },
            BodyPhase::Handling(signal) => {
                let fatal = match reply {
                    Reply::Handled(fatal) => fatal,
                    _ => false,
                };
                if fatal {
                    self.halt();
                    Request::ExitOnSignal(signal)
                } else {
                    self.finish(Condition::SigInt);
                    Request::Proceed
                }
            },
            _ => {
                self.push(Frame::Body { stream, phase });
                Request::Idle
            },
        }
    }

    /// Leaves the condition of the construct that has just finished for the
    /// construct below it.
    fn finish(&mut self, condition: Condition)
        ensures
            final(self)@ == old(self)@.finishing(condition),
    {
        self.control.set_returning(Some(condition));
    }

    fn push(&mut self, frame: Frame)
        ensures
            final(self)@ == old(self)@.push(frame@),
    {
        self.control.push(frame);
    }

    /// Puts a body on top of what is running.
    fn push_body(&mut self, statements: Vec<Statement>)
        ensures
            final(self)@ == old(self)@.push(
                crate::shell::FrameView::Body {
                    stream: statement_views(statements@),
                    phase: BodyPhase::Ready,
                },
            ),
    {
        self.control.push(Frame::Body { stream: into_queue(statements), phase: BodyPhase::Ready });
    }

    /// Records the exit status of a pipeline that has come back.
    fn record(&mut self, status: Option<i32>)
        ensures
            final(self)@ == crate::shell::after_pipeline(old(self)@, status),
    {
        match status {
            Some(code) => {
                self.previous_status = code;
            },
            None => {},
        }
    }

    /// One transition of a `while` loop that has been taken off the stack.
    fn step_while(
        &mut self,
        expression: Pipeline,
        statements: Vec<Statement>,
        phase: WhilePhase,
        reply: Reply,
    ) -> (request: Request)
        requires
            phase is Testing ==> reply@ is Status,
        ensures
            (Outcome { state: final(self)@, request: request@ }) == while_spec(
                old(self)@,
                expression@,
                statement_views(statements@),
                phase,
                reply@,
            ),
    {
        match phase {
            WhilePhase::Ready => {
                let request = Request::RunPipeline(expression.clone());
                self.push(Frame::While { expression, statements, phase: WhilePhase::Testing });
                request
            },
            WhilePhase::Testing => {
                let status = status_of(&reply);
                self.record(status);
                let holds = match status {
                    Some(code) => code == SUCCESS,
                    None => false,
                };
                if holds {
                    let body = clone_statements(&statements);
                    self.push(Frame::While { expression, statements, phase: WhilePhase::Iterating });
                    self.push_body(body);
                } else {
                    self.finish(Condition::NoOp);
                }
                Request::Proceed
            },
            WhilePhase::Iterating => {
                self.push(Frame::While { expression, statements, phase });
                Request::Idle
            },
        }
    }

    /// One transition of a conditional that has been taken off the stack.
    fn step_if(
        &mut self,
        expression: Pipeline,
        success: Vec<Statement>,
        else_if: VecDeque<ElseIf>,
        failure: Vec<Statement>,
        phase: IfPhase,
        reply: Reply,
    ) -> (request: Request)
        requires
            phase is Testing ==> reply@ is Status,
        ensures
            (Outcome { state: final(self)@, request: request@ }) == if_spec(
                old(self)@,
                expression@,
                statement_views(success@),
                else_if_views(else_if@),
                statement_views(failure@),
                phase,
                reply@,
            ),
    {
        match phase {
            IfPhase::Ready => {
                let request = Request::RunPipeline(expression.clone());
                self.push(
                    Frame::If { expression, success, else_if, failure, phase: IfPhase::Testing },
                );
                request
            },
            IfPhase::Testing => {
                let status = status_of(&reply);
                self.record(status);
                let holds = match status {
                    Some(code) => code == SUCCESS,
                    None => false,
                };
                if holds {
                    self.push_body(success);
                } else {
                    let mut else_if = else_if;
                    let ghost arms = else_if@;
                    match else_if.pop_front() {
                        Some(arm) => {
                            assert(else_if_views(else_if@) =~= else_if_views(arms).drop_first());
                            self.push(
                                Frame::If {
                                    expression: arm.expression,
                                    success: arm.success,
                                    else_if,
                                    failure,
                                    phase: IfPhase::Ready,
                                },
                            );
                        },
                        None => {
                            self.push_body(failure);
                        },
                    }
                }
                Request::Proceed
            },
        }
    }

    /// One transition of a `match` that has been taken off the stack.
    fn step_match(
        &mut self,
        expression: String,
        value: Vec<String>,
        cases: VecDeque<Case>,
        statements: Vec<Statement>,
        phase: MatchPhase,
        reply: Reply,
    ) -> (request: Request)
        requires
            phase is Expanding || phase is Matching ==> reply@ is Words,
        ensures
            (Outcome { state: final(self)@, request: request@ }) == match_spec(
                old(self)@,
                expression@,
                string_views(value@),
                case_views(cases@),
                statement_views(statements@),
                phase,
                reply@,
            ),
    {
        match phase {
            MatchPhase::Ready => {
                let request = Request::Expand(expression.clone());
                self.push(
                    Frame::Match {
                        expression,
                        value,
                        cases,
                        statements,
                        phase: MatchPhase::Expanding,
                    },
                );
                request
            },
            MatchPhase::Expanding => {
                let words = words_of_reply(reply);
                self.push(
                    Frame::Match {
                        expression,
                        value: words,
                        cases,
                        statements,
                        phase: MatchPhase::Select,
                    },
                );
                Request::Proceed
            },
            MatchPhase::Select => {
                let mut cases = cases;
                let ghost arms = cases@;
                match cases.pop_front() {
                    None => {
                        self.finish(Condition::NoOp);
                        Request::Proceed
                    },
                    Some(case) => {
                        assert(case_views(cases@) =~= case_views(arms).drop_first());
                        assert(case_views(arms).first() == case@);
                        match case.value {
                            None => {
                                self.push_body(case.statements);
                                Request::Proceed
                            },
                            Some(pattern) => {
                                self.push(
                                    Frame::Match {
                                        expression,
                                        value,
                                        cases,
                                        statements: case.statements,
                                        phase: MatchPhase::Matching,
                                    },
                                );
                                Request::Expand(pattern)
                            },
                        }
                    },
                }
            },
            MatchPhase::Matching => {
                let words = words_of_reply(reply);
                if matches(&words, &value) {
                    self.push_body(statements);
                } else {
                    self.push(
                        Frame::Match {
                            expression,
                            value,
                            cases,
                            statements,
                            phase: MatchPhase::Select,
                        },
                    );
                }
                Request::Proceed
            },
        }
    }

    /// Decides what the top-level statement `statement` leads to. `stream`
    /// holds what follows it on its line: a compound statement takes its
    /// blocks from there. When all of them are closed the statement is due
    /// to run, and the frame that runs it is returned; otherwise the
    /// statement becomes the pending statement of the accumulator.
    fn toplevel(
        &mut self,
        stream: &mut VecDeque<Statement>,
        statement: Statement,
    ) -> (result: Result<Launch, SyntaxError>)
        ensures
            (Toplevel {
                state: final(self)@,
                rest: statement_views(final(stream)@),
                phase: match result {
                    Ok(l) => l.phase,
                    Err(_) => LinePhase::Ready,
                },
                launch: match result {
                    Ok(l) => launch_view(l.frame),
                    Err(_) => None,
                },
                request: match result {
                    Ok(l) => l.request@,
                    Err(_) => crate::shell::RequestView::Proceed,
                },
                error: match result {
                    Ok(_) => None,
                    Err(e) => Some(e),
                },
            }) == execute_toplevel_spec(old(self)@, statement@, statement_views(old(stream)@)),
    {
        match statement {
            Statement::Error(code) => {
                self.previous_status = code;
                Ok(Launch { phase: LinePhase::Ready, frame: None, request: Request::Proceed })
            },
            Statement::Let { expression } => Ok(
                Launch {
                    phase: LinePhase::Binding,
                    frame: None,
                    request: Request::Local(expression),
                },
            ),
            Statement::Export(expression) => Ok(
                Launch {
                    phase: LinePhase::Binding,
                    frame: None,
                    request: Request::Export(expression),
                },
            ),
            Statement::Pipeline(pipeline) => Ok(
                Launch {
                    phase: LinePhase::Running,
                    frame: None,
                    request: Request::RunPipeline(pipeline),
                },
            ),
            Statement::Else => Ok(
                Launch {
                    phase: LinePhase::Ready,
                    frame: None,
                    request: Request::Diagnostic(SyntaxError::NotAnIfStatement),
                },
            ),
            Statement::ElseIf(_) => Ok(
                Launch {
                    phase: LinePhase::Ready,
                    frame: None,
                    request: Request::Diagnostic(SyntaxError::NotAnIfStatement),
                },
            ),
            Statement::End => Ok(
                Launch {
                    phase: LinePhase::Ready,
                    frame: None,
                    request: Request::Diagnostic(SyntaxError::NoBlockToEnd),
                },
            ),
            statement => {
                if statement.opens() {
                    let is_if = match &statement {
                        Statement::If { .. } => true,
                        _ => false,
                    };
                    let is_function = match &statement {
                        Statement::Function { .. } => true,
                        _ => false,
                    };
                    let mut level = one_deeper(self.flow_control.level);
                    let (gathered, mode, error) = gather_blocks(
                        statement,
                        stream,
                        &mut level,
                        IfMode::Success,
                    );
                    self.flow_control.level = level;
                    let is_match = match &gathered {
                        Statement::Match { .. } => true,
                        _ => false,
                    };
                    let request = match error {
                        Some(error) => {
                            if !is_match {
                                return Err(error);
                            }
                            Request::Diagnostic(error)
                        },
                        None => Request::Proceed,
                    };
                    if level != 0 {
                        self.flow_control.current_statement = gathered;
                        if is_if {
                            self.flow_control.current_if_mode = mode;
                        }
                        Ok(Launch { phase: LinePhase::Ready, frame: None, request })
                    } else if is_function {
                        self.declare(gathered);
                        Ok(Launch { phase: LinePhase::Ready, frame: None, request })
                    } else {
                        Ok(Launch { phase: LinePhase::Child, frame: launch(gathered), request })
                    }
                } else {
                    Ok(Launch { phase: LinePhase::Ready, frame: None, request: Request::Proceed })
                }
            },
        }
    }

    /// One transition of an input line that has been taken off the stack.
    fn step_command(
        &mut self,
        stream: VecDeque<Statement>,
        phase: LinePhase,
        reply: Reply,
    ) -> (request: Request)
        requires
            phase is Binding ==> reply@ is Code,
            phase is Running ==> reply@ is Status,
        ensures
            (Outcome { state: final(self)@, request: request@ }) == line_spec(
                old(self)@,
                statement_views(stream@),
                phase,
                reply@,
            ),
    {
        let mut stream = stream;
        match phase {
            LinePhase::Ready => {
                let ghost before = stream@;
                match stream.pop_front() {
                    None => {
                        self.finish(Condition::NoOp);
                        Request::Proceed
                    },
                    Some(statement) => {
                        proof {
                            lemma_statement_views_tail(before);
                        }
                        match self.execute_toplevel(stream, statement) {
                            Err(error) => {
                                self.reset();
                                self.finish(Condition::NoOp);
                                Request::Diagnostic(error)
                            },
                            Ok(request) => request,
                        }
                    },
                }
            },
            LinePhase::Binding => {
                self.previous_status = code_of(&reply);
                self.push(Frame::Line { stream, phase: LinePhase::Ready });
                Request::Proceed
            },
            LinePhase::Running => {
                self.record(status_of(&reply));
                if self.flags & ERR_EXIT != 0 && self.previous_status != SUCCESS {
                    self.halt();
                    Request::Exit(self.previous_status)
                } else {
                    self.push(Frame::Line { stream, phase: LinePhase::Ready });
                    Request::Proceed
                }
            },
            LinePhase::Child => {
                self.push(Frame::Line { stream, phase });
                Request::Idle
            },
        }
    }

    /// Hands `condition` to the construct on top of the stack, or reports
    /// it when that construct does not wait for it.
    fn deliver(&mut self, condition: Condition) -> (request: Request)
        ensures
            (Outcome { state: final(self)@, request: request@ }) == deliver_spec(
                old(self)@,
                condition,
            ),
    {
        let ghost stack = self@.stack;
        assert(stack.len() > 0 ==> stack.drop_last().push(stack.last()) =~= stack);
        match self.control.pop() {
            None => Request::Finished(condition),
            Some(frame) => {
                match frame {
                    Frame::Line { stream, phase: LinePhase::Child } => {
                        self.push(Frame::Line { stream, phase: LinePhase::Ready });
                        Request::Proceed
                    },
                    Frame::Body { stream, phase: BodyPhase::Loop } => {
                        match condition {
                            Condition::SigInt => {
                                self.finish(condition);
                                Request::Proceed
                            },
                            _ => self.poll(stream),
                        }
                    },
                    Frame::Body { stream, phase: BodyPhase::Branch } => {
                        match condition {
                            Condition::NoOp => self.poll(stream),
                            _ => {
                                self.finish(condition);
                                Request::Proceed
                            },
                        }
                    },
                    Frame::While { expression, statements, phase: WhilePhase::Iterating } => {
                        match condition {
                            Condition::Break => {
                                self.finish(Condition::NoOp);
                            },
                            Condition::SigInt => {
                                self.finish(Condition::SigInt);
                            },
                            _ => {
                                self.push(
                                    Frame::While { expression, statements, phase: WhilePhase::Ready },
                                );
                            },
                        }
                        Request::Proceed
                    },
                    Frame::For {
                        variable,
                        values,
                        remaining,
                        statements,
                        phase: ForPhase::Iterating,
                    } => {
                        match condition {
                            Condition::Break => {
                                self.finish(Condition::NoOp);
                            },
                            Condition::SigInt => {
                                self.finish(Condition::SigInt);
                            },
                            _ => {
                                self.push(
                                    Frame::For {
                                        variable,
                                        values,
                                        remaining,
                                        statements,
                                        phase: ForPhase::Next,
                                    },
                                );
                            },
                        }
                        Request::Proceed
                    },
                    other => {
                        self.push(other);
                        Request::Finished(condition)
                    },
                }
            },
        }
    }

    /// Puts `frame` on top of what is running, unless a result waits to be
    /// handed on.
    fn start(&mut self, frame: Frame) -> (request: Request)
        ensures
            (Outcome { state: final(self)@, request: request@ }) == start_spec(old(self)@, frame@),
            inv(old(self)@) && old(self)@.flow_control.level == 0 && frame_ok(frame@) && !(frame@
                is Line) ==> inv(final(self)@),
            request@ is Proceed && !(frame@ is Line) ==> sigint_iff_interrupted(
                final(self)@,
                old(self)@.stack.len(),
            ),
            request@ is Proceed && is_loop(frame@) ==> never_break_or_continue(
                final(self)@,
                old(self)@.stack.len(),
            ),
    {
        proof {
            if self@.returning is None && !(frame@ is Line) {
                lemma_started_construct(self@, frame@);
            }
            if inv(self@) && self@.flow_control.level == 0 && frame_ok(frame@) && !(frame@ is Line) {
                lemma_start_keeps_inv(self@, frame@);
            }
        }
        if self.control.returning().is_some() {
            Request::Unexpected
        } else {
            self.push(frame);
            Request::Proceed
        }
    }

    /// Whether `reply` is the kind of answer that the machine waits for.
    pub fn accepts(&self, reply: &Reply) -> (accepted: bool)
        ensures
            accepted == (reply@.kind() == self@.awaits()),
    {
        let awaited = self.control.awaits();
        match reply {
            Reply::Proceed => awaited == crate::shell::Awaited::Proceed,
            Reply::Status(_) => awaited == crate::shell::Awaited::Status,
            Reply::Code(_) => awaited == crate::shell::Awaited::Code,
            Reply::Words(_) => awaited == crate::shell::Awaited::Words,
            Reply::Values(_) => awaited == crate::shell::Awaited::Values,
            Reply::Signal(_) => awaited == crate::shell::Awaited::Signal,
            Reply::Handled(_) => awaited == crate::shell::Awaited::Handled,
        }
    }

    /// One transition of the machine. `reply` answers the request that the
    /// previous transition made; the result is the next request. An answer
    /// of the wrong kind changes nothing.
    pub fn step(&mut self, reply: Reply) -> (request: Request)
        ensures
            (Outcome { state: final(self)@, request: request@ }) == step_spec(old(self)@, reply@),
            inv(old(self)@) && !strays_before_a_block(old(self)@) ==> inv(final(self)@),
            reply@.kind() == old(self)@.awaits() ==> final(self)@.previous_status == status_due(
                old(self)@,
                reply@,
            ),
    {
        proof {
            if inv(self@) && !strays_before_a_block(self@) {
                lemma_step_keeps_inv(self@, reply@);
            }
            if reply@.kind() == self@.awaits() {
                lemma_status_is_the_last_one_reported(self@, reply@);
            }
        }
        if !self.accepts(&reply) {
            return Request::Unexpected;
        }
        match self.control.returning() {
            Some(condition) => {
                self.control.set_returning(None);
                return self.deliver(condition);
            },
            None => {},
        }
        match self.control.pop() {
            None => Request::Idle,
            Some(frame) => match frame {
                Frame::Line { stream, phase } => self.step_command(stream, phase, reply),
                Frame::Body { stream, phase } => self.step_statements(stream, phase, reply),
                Frame::While { expression, statements, phase } => self.step_while(
                    expression,
                    statements,
                    phase,
                    reply,
                ),
                Frame::For { variable, values, remaining, statements, phase } => self.step_for(
                    variable,
                    values,
                    remaining,
                    statements,
                    phase,
                    reply,
                ),
                Frame::If { expression, success, else_if, failure, phase } => self.step_if(
                    expression,
                    success,
                    else_if,
                    failure,
                    phase,
                    reply,
                ),
                Frame::Match { expression, value, cases, statements, phase } => self.step_match(
                    expression,
                    value,
                    cases,
                    statements,
                    phase,
                    reply,
                ),
            },
        }
    }
}

/// The operations of the executor. Each starts a construct or takes a line
/// and returns at once; the construct then runs by `step`, and its
/// condition comes back in a `Finished` request.
pub trait FlowLogic: Sized {
    /// The state of the executor.
    spec fn state(&self) -> ShellView;

    /// Starts a body of statements. It finishes with `Break` or `Continue`
    /// when it meets one, with `SigInt` when it is interrupted, and with
    /// `NoOp` when it runs to its end.
    fn execute_statements(&mut self, statements: Vec<Statement>) -> (request: Request)
        ensures
            (Outcome { state: final(self).state(), request: request@ }) == start_spec(
                old(self).state(),
                crate::shell::FrameView::Body {
                    stream: statement_views(statements@),
                    phase: BodyPhase::Ready,
                },
            ),
            inv(old(self).state()) && old(self).state().flow_control.level == 0 && balanced(
                statement_views(statements@),
            ) ==> inv(final(self).state()),
            request@ is Proceed ==> sigint_iff_interrupted(
                final(self).state(),
                old(self).state().stack.len(),
            ),
            request@ is Proceed && statements@.len() == 0 ==> step_spec(
                final(self).state(),
                crate::shell::ReplyView::Proceed,
            ).state == old(self).state().finishing(Condition::NoOp),
    ;

    /// Starts a `while` loop: the body runs as long as the condition
    /// succeeds.
    fn execute_while(
        &mut self,
        expression: Pipeline,
        statements: Vec<Statement>,
    ) -> (request: Request)
        ensures
            (Outcome { state: final(self).state(), request: request@ }) == start_spec(
                old(self).state(),
                crate::shell::FrameView::While {
                    expression: expression@,
                    statements: statement_views(statements@),
                    phase: WhilePhase::Ready,
                },
            ),
            inv(old(self).state()) && old(self).state().flow_control.level == 0 && balanced(
                statement_views(statements@),
            ) ==> inv(final(self).state()),
            request@ is Proceed ==> sigint_iff_interrupted(
                final(self).state(),
                old(self).state().stack.len(),
            ),
            request@ is Proceed ==> never_break_or_continue(
                final(self).state(),
                old(self).state().stack.len(),
            ),
    ;

    /// Starts a `for` loop: the body runs once for each value that
    /// `values` resolves to.
    fn execute_for(
        &mut self,
        variable: String,
        values: Vec<String>,
        statements: Vec<Statement>,
    ) -> (request: Request)
        ensures
            (Outcome { state: final(self).state(), request: request@ }) == start_spec(
                old(self).state(),
                crate::shell::FrameView::For {
                    variable: variable@,
                    values: string_views(values@),
                    remaining: Seq::empty(),
                    statements: statement_views(statements@),
                    phase: ForPhase::Ready,
                },
            ),
            inv(old(self).state()) && old(self).state().flow_control.level == 0 && balanced(
                statement_views(statements@),
            ) ==> inv(final(self).state()),
            request@ is Proceed ==> sigint_iff_interrupted(
                final(self).state(),
                old(self).state().stack.len(),
            ),
            request@ is Proceed ==> never_break_or_continue(
                final(self).state(),
                old(self).state().stack.len(),
            ),
    ;

    /// Starts a conditional: the first part whose condition succeeds runs,
    /// or the `else` part when none does.
    fn execute_if(
        &mut self,
        expression: Pipeline,
        success: Vec<Statement>,
        else_if: Vec<ElseIf>,
        failure: Vec<Statement>,
    ) -> (request: Request)
        ensures
            (Outcome { state: final(self).state(), request: request@ }) == start_spec(
                old(self).state(),
                crate::shell::FrameView::If {
                    expression: expression@,
                    success: statement_views(success@),
                    else_if: else_if_views(else_if@),
                    failure: statement_views(failure@),
                    phase: IfPhase::Ready,
                },
            ),
            inv(old(self).state()) && old(self).state().flow_control.level == 0 && balanced(
                statement_views(success@),
            ) && balanced(statement_views(failure@)) && (forall|i: int|
                0 <= i < else_if@.len() ==> balanced((#[trigger] else_if_views(else_if@)[i]).success))
                ==> inv(final(self).state()),
            request@ is Proceed ==> sigint_iff_interrupted(
                final(self).state(),
                old(self).state().stack.len(),
            ),
    ;

    /// Starts a `match`: the first arm whose pattern selects the value of
    /// the expression runs.
    fn execute_match(&mut self, expression: String, cases: Vec<Case>) -> (request: Request)
        ensures
            (Outcome { state: final(self).state(), request: request@ }) == start_spec(
                old(self).state(),
                crate::shell::FrameView::Match {
                    expression: expression@,
                    value: Seq::empty(),
                    cases: case_views(cases@),
                    statements: Seq::empty(),
                    phase: MatchPhase::Ready,
                },
            ),
            inv(old(self).state()) && old(self).state().flow_control.level == 0 && (forall|i: int|
                0 <= i < cases@.len() ==> balanced((#[trigger] case_views(cases@)[i]).statements))
                ==> inv(final(self).state()),
            request@ is Proceed ==> sigint_iff_interrupted(
                final(self).state(),
                old(self).state().stack.len(),
            ),
    ;

    /// Takes one input line, as the statements it was parsed into. With
    /// nothing pending the line is put on the stack, to run statement by
    /// statement. With a statement pending the line goes to the collector
    /// of that statement: a conditional that is rejected clears the
    /// accumulator; a statement that strays into a `match` is reported and
    /// what is left of the line is dropped; a statement that closes runs,
    /// and the rest of the line after it.
    fn on_command(&mut self, statements: Vec<Statement>) -> (request: Request)
        ensures
            (Outcome { state: final(self).state(), request: request@ }) == on_command_spec(
                old(self).state(),
                statement_views(statements@),
            ),
            inv(old(self).state()) && old(self).state().stack.len() == 0 && all_bare(statement_views(statements@))
                && old(self).state().flow_control.level + statements@.len() < usize::MAX && statement_fits(
                old(self).state().flow_control.current_statement,
                statements@.len(),
            ) ==> inv(final(self).state()),
    ;

    /// Runs the top-level statement `statement`; `stream` holds what follows
    /// it on its line. A compound statement takes its blocks from `stream`:
    /// when all of them are closed there it starts to run, and otherwise it
    /// becomes the pending statement of the accumulator. What is left of
    /// the line goes on the stack, below the construct that the statement
    /// runs. The error of a conditional that is rejected is returned;
    /// nothing is put on the stack then, and it is for the caller to clear
    /// the accumulator. A statement that strays into a `match` is reported
    /// by the request, and the line goes on. A function whose body is
    /// closed on the line is declared with exactly that body.
    fn execute_toplevel(
        &mut self,
        stream: VecDeque<Statement>,
        statement: Statement,
    ) -> (result: Result<Request, SyntaxError>)
        ensures
            ({
                let t = execute_toplevel_spec(
                    old(self).state(),
                    statement@,
                    statement_views(stream@),
                );
                match result {
                    Ok(request) => t.error is None && (Outcome {
                        state: final(self).state(),
                        request: request@,
                    }) == launched(t),
                    Err(error) => t.error == Some(error) && final(self).state() == t.state,
                }
            }),
            result is Err <==> statement@ is If && collect_if_spec(
                statement_views(stream@),
                statement@->If_success,
                statement@->If_else_if,
                statement@->If_failure,
                deeper(old(self).state().flow_control.level),
                IfMode::Success,
            ).error is Some,
            result is Err ==> final(self).state() == old(self).state().with_level(
                final(self).state().flow_control.level,
            ),
            forall|body: Seq<StatementView>, following: Seq<StatementView>|
                old(self).state().flow_control.level == 0 && statement@ is Function
                    && statement@->Function_statements.len() == 0 && depth_after(body, 0) == Some(
                    0nat,
                ) && statement_views(stream@) == #[trigger] (body + seq![StatementView::End]
                    + following) ==> result == Ok::<Request, SyntaxError>(Request::Proceed)
                    && final(self).state() == old(self).state().declares(
                    function_of(extended(statement@, body)),
                ).push(
                    crate::shell::FrameView::Line { stream: following, phase: LinePhase::Ready },
                ),
            result is Ok && inv(old(self).state()) && old(self).state().stack.len() == 0 && old(
                self,
            ).state().flow_control.level == 0 && statement@.bare() && all_bare(
                statement_views(stream@),
            ) && stream@.len() + 1 < usize::MAX && !strays_at_top(
                0,
                seq![statement@] + statement_views(stream@),
            ) ==> inv(final(self).state()),
    ;
}

impl FlowLogic for Shell {
    open spec fn state(&self) -> ShellView {
        self@
    }

    /// Starts a body of statements. It finishes with `Break` or `Continue`
    /// when it meets one, with `SigInt` when it is interrupted, and with
    /// `NoOp` when it runs to its end.
    fn execute_statements(&mut self, statements: Vec<Statement>) -> (request: Request)
    {
        proof {
            if self@.returning is None && statements@.len() == 0 {
                assert(statement_views(statements@) =~= Seq::empty());
                crate::laws::lemma_empty_body_is_no_op(self@);
            }
        }
        self.start(Frame::Body { stream: into_queue(statements), phase: BodyPhase::Ready })
    }

    /// Starts a `while` loop: the body runs as long as the condition
    /// succeeds.
    fn execute_while(
        &mut self,
        expression: Pipeline,
        statements: Vec<Statement>,
    ) -> (request: Request)
    {
        self.start(Frame::While { expression, statements, phase: WhilePhase::Ready })
    }

    /// Starts a `for` loop: the body runs once for each value that
    /// `values` resolves to.
    fn execute_for(
        &mut self,
        variable: String,
        values: Vec<String>,
        statements: Vec<Statement>,
    ) -> (request: Request)
    {
        let remaining: VecDeque<String> = VecDeque::new();
        assert(string_views(remaining@) =~= Seq::empty());
        self.start(
            Frame::For {
                variable,
                values,
                remaining: ForValues::Words(remaining),
                statements,
                phase: ForPhase::Ready,
            },
        )
    }

    /// Starts a conditional: the first part whose condition succeeds runs,
    /// or the `else` part when none does.
    fn execute_if(
        &mut self,
        expression: Pipeline,
        success: Vec<Statement>,
        else_if: Vec<ElseIf>,
        failure: Vec<Statement>,
    ) -> (request: Request)
    {
        self.start(
            Frame::If {
                expression,
                success,
                else_if: into_queue(else_if),
                failure,
                phase: IfPhase::Ready,
            },
        )
    }

    /// Starts a `match`: the first arm whose pattern selects the value of
    /// the expression runs.
    fn execute_match(&mut self, expression: String, cases: Vec<Case>) -> (request: Request)
    {
        let value: Vec<String> = Vec::new();
        let statements: Vec<Statement> = Vec::new();
        assert(string_views(value@) =~= Seq::empty());
        assert(statement_views(statements@) =~= Seq::empty());
        self.start(
            Frame::Match {
                expression,
                value,
                cases: into_queue(cases),
                statements,
                phase: MatchPhase::Ready,
            },
        )
    }

    /// Takes one input line, as the statements it was parsed into.
    fn on_command(&mut self, statements: Vec<Statement>) -> (request: Request)
    {
        proof {
            if inv(self@) && self@.stack.len() == 0 && all_bare(statement_views(statements@))
                && self@.flow_control.level + statements@.len() < usize::MAX && statement_fits(
                self@.flow_control.current_statement,
                statements@.len(),
            ) {
                lemma_on_command_keeps_inv(self@, statement_views(statements@));
            }
        }
        if self.control.returning().is_some() {
            return Request::Unexpected;
        }
        self.break_flow = false;
        let mut stream = into_queue(statements);
        if self.flow_control.level == 0 {
            self.push(Frame::Line { stream, phase: LinePhase::Ready });
            return Request::Proceed;
        }
        if !self.flow_control.current_statement.opens() {
            self.finish(Condition::NoOp);
            return Request::Proceed;
        }
        let mut current = Statement::Default;
        core::mem::swap(&mut self.flow_control.current_statement, &mut current);
        let is_function = match &current {
            Statement::Function { .. } => true,
            _ => false,
        };
        let mut level = self.flow_control.level;
        let (gathered, mode, error) = gather_blocks(
            current,
            &mut stream,
            &mut level,
            self.flow_control.current_if_mode,
        );
        let is_match = match &gathered {
            Statement::Match { .. } => true,
            _ => false,
        };
        let request = match error {
            Some(error) => Request::Diagnostic(error),
            None => Request::Proceed,
        };
        let rejected = error.is_some() && !is_match;
        let failed = match mode {
            IfMode::Error => true,
            _ => false,
        };
        if rejected || failed {
            self.reset();
            self.finish(Condition::NoOp);
        } else if level != 0 {
            self.flow_control.level = level;
            self.flow_control.current_statement = gathered;
            self.flow_control.current_if_mode = mode;
            match error {
                Some(_) => {
                    self.finish(Condition::NoOp);
                },
                None => {
                    self.push(Frame::Line { stream, phase: LinePhase::Ready });
                },
            }
        } else if is_function {
            self.reset();
            self.declare(gathered);
            self.push(Frame::Line { stream, phase: LinePhase::Ready });
        } else {
            self.reset();
            self.push(Frame::Line { stream, phase: LinePhase::Child });
            match launch(gathered) {
                Some(frame) => {
                    self.push(frame);
                },
                None => {},
            }
        }
        request
    }

    /// Runs the top-level statement `statement`; `stream` holds what follows
    /// it on its line.
    fn execute_toplevel(
        &mut self,
        stream: VecDeque<Statement>,
        statement: Statement,
    ) -> (result: Result<Request, SyntaxError>)
    {
        proof {
            lemma_toplevel_refuses_only_a_conditional(
                self@,
                statement@,
                statement_views(stream@),
            );
            assert(stream@.len() == stream.len() <= usize::MAX);
            assert forall|body: Seq<StatementView>, following: Seq<StatementView>|
                self@.flow_control.level == 0 && statement@ is Function
                    && statement@->Function_statements.len() == 0 && depth_after(body, 0) == Some(
                    0nat,
                ) && statement_views(stream@) == #[trigger] (body + seq![StatementView::End]
                    + following) implies launched(
                execute_toplevel_spec(self@, statement@, statement_views(stream@)),
            ) == (Outcome {
                state: self@.declares(function_of(extended(statement@, body))).push(
                    crate::shell::FrameView::Line { stream: following, phase: LinePhase::Ready },
                ),
                request: crate::shell::RequestView::Proceed,
            }) && execute_toplevel_spec(self@, statement@, statement_views(stream@)).error
                is None by {
                assert((body + seq![StatementView::End] + following).len() == body.len() + 1
                    + following.len());
                assert(statement@->Function_statements =~= Seq::empty());
                assert(statement@->Function_statements + body =~= body);
                lemma_toplevel_declares_the_function(
                    self@,
                    statement@->Function_name,
                    statement@->Function_description,
                    statement@->Function_args,
                    body,
                    following,
                );
            }
            let line = seq![statement@] + statement_views(stream@);
            assert(line.first() == statement@ && line.drop_first() =~= statement_views(stream@));
            if inv(self@) && self@.stack.len() == 0 && self@.flow_control.level == 0
                && statement@.bare() && all_bare(statement_views(stream@)) && stream@.len() + 1
                < usize::MAX && !strays_at_top(0, line) {
                assert(all_bare(line)) by {
                    assert forall|i: int| 0 <= i < line.len() implies (#[trigger] line[i]).bare() by {
                        if i > 0 {
                            assert(line[i] == statement_views(stream@)[i - 1]);
                        }
                    }
                }
                lemma_line_keeps(self@, line, LinePhase::Ready, crate::shell::ReplyView::Proceed);
            }
        }
        let mut stream = stream;
        match self.toplevel(&mut stream, statement) {
            Err(error) => Err(error),
            Ok(next) => {
                self.push(Frame::Line { stream, phase: next.phase });
                match next.frame {
                    Some(frame) => {
                        self.push(frame);
                    },
                    None => {},
                }
                Ok(next.request)
            },
        }
    }
}

} // verus!
