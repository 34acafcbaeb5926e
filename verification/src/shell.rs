//! The executor as a machine: its state, what it asks of the embedding
//! shell, and the transition that each answer causes.
//!
//! The state is a stack of frames, one for each construct that is running,
//! and a register for the condition that a finished construct hands to the
//! construct below it. One transition does at most one piece of outside
//! work, which it returns as a request.

use crate::ast::{
    case_views, else_if_views, statement_views, string_views, Case, CaseView, Condition, ElseIf,
    ElseIfView, ForExpression, ForExpressionView, FunctionView, Pipeline, PipelineView, Statement,
    StatementView,
};
use crate::flow_control::{
    collect_cases_spec, collect_if_spec, collect_loops_spec, deeper, FlowControl, FlowControlView,
    IfMode, SyntaxError,
};
use crate::functions::FunctionTable;
use crate::text::{range_words, text_lines};
use std::collections::VecDeque;
use vstd::prelude::*;

verus! {

/// The flag that asks the shell to exit when a pipeline fails.
pub const ERR_EXIT: u8 = 1;

/// The exit status of a pipeline that succeeded.
pub const SUCCESS: i32 = 0;

/// What the machine asks of the embedding shell.
#[derive(Debug, PartialEq, Eq)]
pub enum Request {
    /// Nothing: the machine has more to do by itself.
    Proceed,
    /// Run the pipeline; its exit status is the answer.
    RunPipeline(Pipeline),
    /// Bind local variables from the expression; the status is the answer.
    Local(String),
    /// Export variables from the expression; the status is the answer.
    Export(String),
    /// Set a variable. No answer is expected.
    SetVar { name: String, value: String },
    /// Expand the text into words; the words are the answer.
    Expand(String),
    /// Resolve the value list of a `for` loop; the resolved list is the answer.
    ResolveFor(Vec<String>),
    /// Take the next pending signal; the signal, if any, is the answer.
    NextSignal,
    /// Handle the signal; whether the shell must exit is the answer.
    HandleSignal(i32),
    /// Terminate the shell with this status.
    Exit(i32),
    /// Terminate the shell with the exit status that stands for this signal.
    ExitOnSignal(i32),
    /// Report the structural error. No answer is expected.
    Diagnostic(SyntaxError),
    /// The construct that the embedding shell started has finished.
    Finished(Condition),
    /// Nothing is running.
    Idle,
    /// The answer given is not the one that the machine waits for.
    Unexpected,
}

/// A request as a mathematical value.
pub enum RequestView {
    Proceed,
    RunPipeline(PipelineView),
    Local(Seq<char>),
    Export(Seq<char>),
    SetVar { name: Seq<char>, value: Seq<char> },
    Expand(Seq<char>),
    ResolveFor(Seq<Seq<char>>),
    NextSignal,
    HandleSignal(i32),
    Exit(i32),
    ExitOnSignal(i32),
    Diagnostic(SyntaxError),
    Finished(Condition),
    Idle,
    Unexpected,
}

impl View for Request {
    type V = RequestView;

    open spec fn view(&self) -> RequestView {
        match self {
            Request::Proceed => RequestView::Proceed,
            Request::RunPipeline(pipeline) => RequestView::RunPipeline(pipeline@),
            Request::Local(expression) => RequestView::Local(expression@),
            Request::Export(expression) => RequestView::Export(expression@),
            Request::SetVar { name, value } => RequestView::SetVar { name: name@, value: value@ },
            Request::Expand(text) => RequestView::Expand(text@),
            Request::ResolveFor(values) => RequestView::ResolveFor(string_views(values@)),
            Request::NextSignal => RequestView::NextSignal,
            Request::HandleSignal(signal) => RequestView::HandleSignal(*signal),
            Request::Exit(status) => RequestView::Exit(*status),
            Request::ExitOnSignal(signal) => RequestView::ExitOnSignal(*signal),
            Request::Diagnostic(error) => RequestView::Diagnostic(*error),
            Request::Finished(condition) => RequestView::Finished(*condition),
            Request::Idle => RequestView::Idle,
            Request::Unexpected => RequestView::Unexpected,
        }
    }
}

/// What the embedding shell answers.
#[derive(Debug, PartialEq, Eq)]
pub enum Reply {
    /// Nothing to report.
    Proceed,
    /// The exit status of a pipeline; `None` when it could not be run.
    Status(Option<i32>),
    /// The status of a variable binding.
    Code(i32),
    /// The words that a text expands to.
    Words(Vec<String>),
    /// The resolved value list of a `for` loop.
    Values(ForExpression),
    /// The pending signal, if there is one.
    Signal(Option<i32>),
    /// Whether the signal that was handled requires the shell to exit.
    Handled(bool),
}

/// An answer as a mathematical value.
pub enum ReplyView {
    Proceed,
    Status(Option<i32>),
    Code(i32),
    Words(Seq<Seq<char>>),
    Values(ForExpressionView),
    Signal(Option<i32>),
    Handled(bool),
}

impl View for Reply {
    type V = ReplyView;

    open spec fn view(&self) -> ReplyView {
        match self {
            Reply::Proceed => ReplyView::Proceed,
            Reply::Status(status) => ReplyView::Status(*status),
            Reply::Code(code) => ReplyView::Code(*code),
            Reply::Words(words) => ReplyView::Words(string_views(words@)),
            Reply::Values(values) => ReplyView::Values(values@),
            Reply::Signal(signal) => ReplyView::Signal(*signal),
            Reply::Handled(fatal) => ReplyView::Handled(*fatal),
        }
    }
}

/// The kind of answer that a state waits for.
#[derive(Clone, Copy, Debug, PartialEq, Eq, Structural)]
pub enum Awaited {
    Proceed,
    Status,
    Code,
    Words,
    Values,
    Signal,
    Handled,
}

impl ReplyView {
    /// The kind of the answer.
    pub open spec fn kind(self) -> Awaited {
        match self {
            ReplyView::Proceed => Awaited::Proceed,
            ReplyView::Status(_) => Awaited::Status,
            ReplyView::Code(_) => Awaited::Code,
            ReplyView::Words(_) => Awaited::Words,
            ReplyView::Values(_) => Awaited::Values,
            ReplyView::Signal(_) => Awaited::Signal,
            ReplyView::Handled(_) => Awaited::Handled,
        }
    }
}

/// Where the statements of an input line stand.
#[derive(Clone, Copy, Debug, PartialEq, Eq, Structural)]
pub enum LinePhase {
    /// The next statement is due.
    Ready,
    /// A variable binding is under way.
    Binding,
    /// A pipeline is running.
    Running,
    /// A compound statement is running.
    Child,
}

/// Where the statements of a body stand.
#[derive(Clone, Copy, Debug, PartialEq, Eq, Structural)]
pub enum BodyPhase {
    /// The next statement is due.
    Ready,
    /// A variable binding is under way.
    Binding,
    /// A pipeline is running.
    Running,
    /// The signal source is being polled.
    Polling,
    /// The signal is being handled.
    Handling(i32),
    /// A loop is running.
    Loop,
    /// A conditional or a `match` is running.
    Branch,
}

/// Where a `while` loop stands.
#[derive(Clone, Copy, Debug, PartialEq, Eq, Structural)]
pub enum WhilePhase {
    /// The condition is due.
    Ready,
    /// The condition is running.
    Testing,
    /// The body is running.
    Iterating,
}

/// Where a `for` loop stands.
#[derive(Clone, Copy, Debug, PartialEq, Eq, Structural)]
pub enum ForPhase {
    /// The value list is still to be resolved.
    Ready,
    /// The value list is being resolved.
    Resolving,
    /// The next value is due.
    Next,
    /// The loop variable is being set.
    Binding,
    /// The body is running.
    Iterating,
}

/// Where a conditional stands.
#[derive(Clone, Copy, Debug, PartialEq, Eq, Structural)]
pub enum IfPhase {
    /// The condition is due.
    Ready,
    /// The condition is running.
    Testing,
}

/// Where a `match` stands.
#[derive(Clone, Copy, Debug, PartialEq, Eq, Structural)]
pub enum MatchPhase {
    /// The expression is still to be expanded.
    Ready,
    /// The expression is being expanded.
    Expanding,
    /// The next arm is due.
    Select,
    /// The pattern of an arm is being expanded.
    Matching,
}

/// The values that a `for` loop has still to go through.
#[derive(Debug)]
pub enum ForValues {
    Words(VecDeque<String>),
    Range(usize, usize),
}

impl View for ForValues {
    type V = Seq<Seq<char>>;

    open spec fn view(&self) -> Seq<Seq<char>> {
        match self {
            ForValues::Words(words) => string_views(words@),
            ForValues::Range(start, end) => range_words(*start as nat, *end as nat),
        }
    }
}

/// One running construct.
#[allow(inconsistent_fields)]
#[derive(Debug)]
pub enum Frame {
    /// The statements of an input line.
    Line { stream: VecDeque<Statement>, phase: LinePhase },
    /// A body of statements.
    Body { stream: VecDeque<Statement>, phase: BodyPhase },
    /// A `while` loop.
    While { expression: Pipeline, statements: Vec<Statement>, phase: WhilePhase },
    /// A `for` loop: `values` as written, `remaining` once they are resolved.
    For {
        variable: String,
        values: Vec<String>,
        remaining: ForValues,
        statements: Vec<Statement>,
        phase: ForPhase,
    },
    /// A conditional: the condition that is due, the statements that it
    /// guards, the arms that follow and the `else` part.
    If {
        expression: Pipeline,
        success: Vec<Statement>,
        else_if: VecDeque<ElseIf>,
        failure: Vec<Statement>,
        phase: IfPhase,
    },
    /// A `match`: the expression, the words it expanded to, the arms that
    /// have not been tried and the statements of the arm that is being tried.
    Match {
        expression: String,
        value: Vec<String>,
        cases: VecDeque<Case>,
        statements: Vec<Statement>,
        phase: MatchPhase,
    },
}

/// A running construct as a mathematical value.
#[allow(inconsistent_fields)]
pub enum FrameView {
    Line { stream: Seq<StatementView>, phase: LinePhase },
    Body { stream: Seq<StatementView>, phase: BodyPhase },
    While { expression: PipelineView, statements: Seq<StatementView>, phase: WhilePhase },
    For {
        variable: Seq<char>,
        values: Seq<Seq<char>>,
        remaining: Seq<Seq<char>>,
        statements: Seq<StatementView>,
        phase: ForPhase,
    },
    If {
        expression: PipelineView,
        success: Seq<StatementView>,
        else_if: Seq<ElseIfView>,
        failure: Seq<StatementView>,
        phase: IfPhase,
    },
    Match {
        expression: Seq<char>,
        value: Seq<Seq<char>>,
        cases: Seq<CaseView>,
        statements: Seq<StatementView>,
        phase: MatchPhase,
    },
}

impl View for Frame {
    type V = FrameView;

    open spec fn view(&self) -> FrameView {
        match self {
            Frame::Line { stream, phase } => FrameView::Line {
                stream: statement_views(stream@),
                phase: *phase,
            },
            Frame::Body { stream, phase } => FrameView::Body {
                stream: statement_views(stream@),
                phase: *phase,
            },
            Frame::While { expression, statements, phase } => FrameView::While {
                expression: expression@,
                statements: statement_views(statements@),
                phase: *phase,
            },
            Frame::For { variable, values, remaining, statements, phase } => FrameView::For {
                variable: variable@,
                values: string_views(values@),
                remaining: remaining@,
                statements: statement_views(statements@),
                phase: *phase,
            },
            Frame::If { expression, success, else_if, failure, phase } => FrameView::If {
                expression: expression@,
                success: statement_views(success@),
                else_if: else_if_views(else_if@),
                failure: statement_views(failure@),
                phase: *phase,
            },
            Frame::Match { expression, value, cases, statements, phase } => FrameView::Match {
                expression: expression@,
                value: string_views(value@),
                cases: case_views(cases@),
                statements: statement_views(statements@),
                phase: *phase,
            },
        }
    }
}

/// The views of a sequence of frames.
pub open spec fn frame_views(v: Seq<Frame>) -> Seq<FrameView> {
    v.map_values(|f: Frame| f@)
}

/// The constructs that are running, and the condition that the construct
/// which finished last hands to the one below it.
pub struct Control {
    stack: Vec<Frame>,
    returning: Option<Condition>,
}

/// The running constructs as a mathematical value.
pub struct ControlView {
    pub stack: Seq<FrameView>,
    pub returning: Option<Condition>,
}

impl View for Control {
    type V = ControlView;

    closed spec fn view(&self) -> ControlView {
        ControlView { stack: frame_views(self.stack@), returning: self.returning }
    }
}

/// The executor: the accumulator, the shell state that the executor keeps,
/// and the constructs that are running.
pub struct Shell {
    /// The statement that is still open, and its nesting level.
    pub flow_control: FlowControl,
    /// The exit status of the last pipeline or binding.
    pub previous_status: i32,
    /// The shell flags, `ERR_EXIT` among them.
    pub flags: u8,
    /// A request from outside to abandon the body that is running.
    pub break_flow: bool,
    /// The functions declared so far.
    pub functions: FunctionTable,
    /// The constructs that are running.
    pub control: Control,
}

/// The executor as a mathematical value.
pub struct ShellView {
    pub flow_control: FlowControlView,
    pub previous_status: i32,
    pub flags: u8,
    pub break_flow: bool,
    pub functions: Map<Seq<char>, FunctionView>,
    /// The running constructs, the innermost last.
    pub stack: Seq<FrameView>,
    /// The condition of a construct that has just finished.
    pub returning: Option<Condition>,
}

impl View for Shell {
    type V = ShellView;

    open spec fn view(&self) -> ShellView {
        ShellView {
            flow_control: self.flow_control@,
            previous_status: self.previous_status,
            flags: self.flags,
            break_flow: self.break_flow,
            functions: self.functions@,
            stack: self.control@.stack,
            returning: self.control@.returning,
        }
    }
}

/// A state together with what it asks of the embedding shell.
pub struct Outcome {
    pub state: ShellView,
    pub request: RequestView,
}

/// What a top-level statement leads to.
pub struct Toplevel {
    pub state: ShellView,
    pub rest: Seq<StatementView>,
    pub phase: LinePhase,
    pub launch: Option<FrameView>,
    pub request: RequestView,
    pub error: Option<SyntaxError>,
}

/// The status that the shell holds once a pipeline has come back.
pub open spec fn status_after(previous: i32, status: Option<i32>) -> i32 {
    match status {
        Some(code) => code,
        None => previous,
    }
}

/// Whether the shell must exit on this status.
pub open spec fn exits_on(flags: u8, status: i32) -> bool {
    flags & ERR_EXIT != 0 && status != SUCCESS
}

/// The values that a resolved value list stands for, in order.
pub open spec fn words_of(values: ForExpressionView) -> Seq<Seq<char>> {
    match values {
        ForExpressionView::Multiple(words) => words,
        ForExpressionView::Normal(text) => text_lines(text),
        ForExpressionView::Range(start, end) => range_words(start, end),
    }
}

/// Whether a pattern selects a value: some word of the one equals some word
/// of the other.
pub open spec fn pattern_matches(pattern: Seq<Seq<char>>, value: Seq<Seq<char>>) -> bool {
    exists|i: int, j: int|
        0 <= i < pattern.len() && 0 <= j < value.len() && pattern[i] == value[j]
}

/// The name of a loop variable that is not to be set.
pub open spec fn ignored_variable() -> Seq<char> {
    "_"@
}

impl ShellView {
    /// The state with one more running construct.
    pub open spec fn push(self, frame: FrameView) -> ShellView {
        ShellView { stack: self.stack.push(frame), ..self }
    }

    /// The state without its innermost construct.
    pub open spec fn base(self) -> ShellView {
        ShellView { stack: self.stack.drop_last(), ..self }
    }

    /// The state in which a construct has just finished with `condition`.
    pub open spec fn finishing(self, condition: Condition) -> ShellView {
        ShellView { returning: Some(condition), ..self }
    }

    /// The state of a shell that is about to exit: nothing is running.
    pub open spec fn halted(self) -> ShellView {
        ShellView { stack: Seq::empty(), returning: None, ..self }
    }

    /// The state with `level` blocks open.
    pub open spec fn with_level(self, level: usize) -> ShellView {
        ShellView { flow_control: FlowControlView { level, ..self.flow_control }, ..self }
    }

    /// The state with `status` as the last status.
    pub open spec fn with_status(self, status: i32) -> ShellView {
        ShellView { previous_status: status, ..self }
    }

    /// The state after a structural error: no block is open.
    pub open spec fn reset(self) -> ShellView {
        ShellView {
            flow_control: FlowControlView {
                level: 0,
                current_if_mode: IfMode::Success,
                ..self.flow_control
            },
            ..self
        }
    }

    /// The state with nothing pending in the accumulator.
    pub open spec fn clean(self) -> ShellView {
        ShellView { flow_control: FlowControlView::clean(), ..self }
    }

    /// The state with `statement` pending.
    pub open spec fn pending(self, statement: StatementView, level: usize, mode: IfMode) -> ShellView {
        ShellView {
            flow_control: FlowControlView {
                level,
                current_statement: statement,
                current_if_mode: mode,
            },
            ..self
        }
    }

    /// The state with `function` declared.
    pub open spec fn declares(self, function: FunctionView) -> ShellView {
        ShellView { functions: self.functions.insert(function.name, function), ..self }
    }

    /// Whether nothing is running and no result is waiting.
    pub open spec fn idle(self) -> bool {
        self.stack.len() == 0 && self.returning is None
    }

    /// The kind of answer that the state waits for.
    pub open spec fn awaits(self) -> Awaited {
        awaited(self.stack, self.returning)
    }
}

/// The kind of answer that a machine with these constructs and this
/// register waits for.
pub open spec fn awaited(stack: Seq<FrameView>, returning: Option<Condition>) -> Awaited {
    if returning is Some || stack.len() == 0 {
        Awaited::Proceed
    } else {
        match stack.last() {
            FrameView::Line { phase, .. } => match phase {
                LinePhase::Binding => Awaited::Code,
                LinePhase::Running => Awaited::Status,
                _ => Awaited::Proceed,
            },
            FrameView::Body { phase, .. } => match phase {
                BodyPhase::Binding => Awaited::Code,
                BodyPhase::Running => Awaited::Status,
                BodyPhase::Polling => Awaited::Signal,
                BodyPhase::Handling(_) => Awaited::Handled,
                _ => Awaited::Proceed,
            },
            FrameView::While { phase, .. } => match phase {
                WhilePhase::Testing => Awaited::Status,
                _ => Awaited::Proceed,
            },
            FrameView::For { phase, .. } => match phase {
                ForPhase::Resolving => Awaited::Values,
                _ => Awaited::Proceed,
            },
            FrameView::If { phase, .. } => match phase {
                IfPhase::Testing => Awaited::Status,
                _ => Awaited::Proceed,
            },
            FrameView::Match { phase, .. } => match phase {
                MatchPhase::Expanding => Awaited::Words,
                MatchPhase::Matching => Awaited::Words,
                _ => Awaited::Proceed,
            },
        }
    }
}

/// The frame that runs a compound statement whose blocks are all closed.
/// `Function` and the statements that are not compound have none.
pub open spec fn frame_of(statement: StatementView) -> Option<FrameView> {
    match statement {
        StatementView::While { expression, statements } => Some(
            FrameView::While { expression, statements, phase: WhilePhase::Ready },
        ),
        StatementView::For { variable, values, statements } => Some(
            FrameView::For {
                variable,
                values,
                remaining: Seq::empty(),
                statements,
                phase: ForPhase::Ready,
            },
        ),
        StatementView::If { expression, success, else_if, failure } => Some(
            FrameView::If { expression, success, else_if, failure, phase: IfPhase::Ready },
        ),
        StatementView::Match { expression, cases } => Some(
            FrameView::Match {
                expression,
                value: Seq::empty(),
                cases,
                statements: Seq::empty(),
                phase: MatchPhase::Ready,
            },
        ),
        _ => None,
    }
}

/// What collecting the blocks of a compound statement from `stream` gives.
pub struct Gathered {
    /// The statement with what was collected.
    pub statement: StatementView,
    pub rest: Seq<StatementView>,
    pub level: usize,
    pub mode: IfMode,
    pub error: Option<SyntaxError>,
}

/// Collects from `stream` into the blocks of `statement`, with the
/// collector that belongs to its kind. A statement that is not compound
/// collects nothing.
pub open spec fn gather(
    statement: StatementView,
    stream: Seq<StatementView>,
    level: usize,
    mode: IfMode,
) -> Gathered {
    match statement {
        StatementView::While { expression, statements } => {
            let c = collect_loops_spec(stream, statements, level);
            Gathered {
                statement: StatementView::While { expression, statements: c.statements },
                rest: c.rest,
                level: c.level,
                mode,
                error: None,
            }
        },
        StatementView::For { variable, values, statements } => {
            let c = collect_loops_spec(stream, statements, level);
            Gathered {
                statement: StatementView::For { variable, values, statements: c.statements },
                rest: c.rest,
                level: c.level,
                mode,
                error: None,
            }
        },
        StatementView::Function { name, description, args, statements } => {
            let c = collect_loops_spec(stream, statements, level);
            Gathered {
                statement: StatementView::Function {
                    name,
                    description,
                    args,
                    statements: c.statements,
                },
                rest: c.rest,
                level: c.level,
                mode,
                error: None,
            }
        },
        StatementView::If { expression, success, else_if, failure } => {
            let c = collect_if_spec(stream, success, else_if, failure, level, mode);
            Gathered {
                statement: StatementView::If {
                    expression,
                    success: c.success,
                    else_if: c.else_if,
                    failure: c.failure,
                },
                rest: c.rest,
                level: c.level,
                mode: if c.error is Some {
                    IfMode::Error
                } else {
                    c.mode
                },
                error: c.error,
            }
        },
        StatementView::Match { expression, cases } => {
            let c = collect_cases_spec(stream, cases, level);
            Gathered {
                statement: StatementView::Match { expression, cases: c.cases },
                rest: c.rest,
                level: c.level,
                mode,
                error: c.error,
            }
        },
        _ => Gathered { statement, rest: stream, level, mode, error: None },
    }
}

/// The function that a `Function` statement declares.
pub open spec fn function_of(statement: StatementView) -> FunctionView
    recommends
        statement is Function,
{
    FunctionView {
        name: statement->Function_name,
        description: statement->Function_description,
        args: statement->Function_args,
        statements: statement->Function_statements,
    }
}

/// Whether collecting has failed in a way that ends the line: a conditional
/// has been rejected. A statement that strays into a `match` is reported
/// only; the `match` keeps what it has collected.
pub open spec fn rejects(g: Gathered) -> bool {
    g.error is Some && !(g.statement is Match)
}

/// The request that reports a structural error, or the go-ahead when there
/// is none.
pub open spec fn report_of(error: Option<SyntaxError>) -> RequestView {
    match error {
        Some(e) => RequestView::Diagnostic(e),
        None => RequestView::Proceed,
    }
}

/// What the top-level statement `head` leads to, in a state whose line
/// holds `tail` after it. A compound statement collects its blocks from
/// `tail`; it runs when they are all closed there and is kept as the
/// pending statement otherwise. A conditional that is rejected is an error,
/// and the state is as before but for the level. A statement that strays
/// into a `match` is reported, the `match` is kept as far as it was
/// collected, and the line goes on after that statement.
pub open spec fn execute_toplevel_spec(
    s: ShellView,
    head: StatementView,
    tail: Seq<StatementView>,
) -> Toplevel {
    let plain = Toplevel {
        state: s,
        rest: tail,
        phase: LinePhase::Ready,
        launch: None,
        request: RequestView::Proceed,
        error: None,
    };
    match head {
        StatementView::Error(code) => Toplevel { state: s.with_status(code), ..plain },
        StatementView::Let { expression } => Toplevel {
            phase: LinePhase::Binding,
            request: RequestView::Local(expression),
            ..plain
        },
        StatementView::Export(expression) => Toplevel {
            phase: LinePhase::Binding,
            request: RequestView::Export(expression),
            ..plain
        },
        StatementView::Pipeline(pipeline) => Toplevel {
            phase: LinePhase::Running,
            request: RequestView::RunPipeline(pipeline),
            ..plain
        },
        StatementView::Else => Toplevel {
            request: RequestView::Diagnostic(SyntaxError::NotAnIfStatement),
            ..plain
        },
        StatementView::ElseIf(_) => Toplevel {
            request: RequestView::Diagnostic(SyntaxError::NotAnIfStatement),
            ..plain
        },
        StatementView::End => Toplevel {
            request: RequestView::Diagnostic(SyntaxError::NoBlockToEnd),
            ..plain
        },
        _ => if head.opens() {
            let g = gather(head, tail, deeper(s.flow_control.level), IfMode::Success);
            if rejects(g) {
                Toplevel { state: s.with_level(g.level), rest: g.rest, error: g.error, ..plain }
            } else if g.level != 0 {
                Toplevel {
                    state: s.pending(
                        g.statement,
                        g.level,
                        if head is If {
                            g.mode
                        } else {
                            s.flow_control.current_if_mode
                        },
                    ),
                    rest: g.rest,
                    request: report_of(g.error),
                    ..plain
                }
            } else if head is Function {
                Toplevel {
                    state: s.with_level(0).declares(function_of(g.statement)),
                    rest: g.rest,
                    request: report_of(g.error),
                    ..plain
                }
            } else {
                Toplevel {
                    state: s.with_level(0),
                    rest: g.rest,
                    phase: LinePhase::Child,
                    launch: frame_of(g.statement),
                    request: report_of(g.error),
                    ..plain
                }
            }
        } else {
            plain
        },
    }
}

/// The state and the request once a top-level statement has been decided
/// without an error: the rest of its line is on the stack, and above it the
/// construct that the statement runs, if it runs one.
pub open spec fn launched(t: Toplevel) -> Outcome {
    let line = t.state.push(FrameView::Line { stream: t.rest, phase: t.phase });
    Outcome {
        state: match t.launch {
            Some(frame) => line.push(frame),
            None => line,
        },
        request: t.request,
    }
}

/// The state once a pipeline has come back with `status`.
pub open spec fn after_pipeline(s: ShellView, status: Option<i32>) -> ShellView {
    s.with_status(status_after(s.previous_status, status))
}

/// One transition of an input line. `s` is the state without the line. The
/// statements of a line run one after another; what a compound statement
/// finishes with is not looked at, and no signal is polled for between
/// them. A conditional that is rejected ends the line: what is left of it
/// is dropped.
pub open spec fn line_spec(
    s: ShellView,
    stream: Seq<StatementView>,
    phase: LinePhase,
    reply: ReplyView,
) -> Outcome {
    match phase {
        LinePhase::Ready => if stream.len() == 0 {
            Outcome { state: s.finishing(Condition::NoOp), request: RequestView::Proceed }
        } else {
            let t = execute_toplevel_spec(s, stream.first(), stream.drop_first());
            if t.error is Some {
                Outcome {
                    state: t.state.reset().finishing(Condition::NoOp),
                    request: RequestView::Diagnostic(t.error->0),
                }
            } else {
                launched(t)
            }
        },
        LinePhase::Binding => Outcome {
            state: s.with_status(reply->Code_0).push(
                FrameView::Line { stream, phase: LinePhase::Ready },
            ),
            request: RequestView::Proceed,
        },
        LinePhase::Running => {
            let done = after_pipeline(s, reply->Status_0);
            if exits_on(done.flags, done.previous_status) {
                Outcome { state: done.halted(), request: RequestView::Exit(done.previous_status) }
            } else {
                Outcome {
                    state: done.push(FrameView::Line { stream, phase: LinePhase::Ready }),
                    request: RequestView::Proceed,
                }
            }
        },
        LinePhase::Child => Outcome {
            state: s.push(FrameView::Line { stream, phase }),
            request: RequestView::Idle,
        },
    }
}

/// The state and request with which a body goes on to poll for a signal.
pub open spec fn poll(s: ShellView, stream: Seq<StatementView>) -> Outcome {
    Outcome {
        state: s.push(FrameView::Body { stream, phase: BodyPhase::Polling }),
        request: RequestView::NextSignal,
    }
}

/// One transition of a body. `s` is the state without the body. Every
/// statement that does not end the body is followed by a poll for a signal.
/// A pipeline that fails while `ERR_EXIT` is set ends the shell before that
/// poll, so the exit takes precedence over a signal that is pending.
pub open spec fn body_spec(
    s: ShellView,
    stream: Seq<StatementView>,
    phase: BodyPhase,
    reply: ReplyView,
) -> Outcome {
    match phase {
        BodyPhase::Ready => if stream.len() == 0 {
            Outcome { state: s.finishing(Condition::NoOp), request: RequestView::Proceed }
        } else {
            let head = stream.first();
            let tail = stream.drop_first();
            match head {
                StatementView::Error(code) => poll(s.with_status(code), tail),
                StatementView::Let { expression } => Outcome {
                    state: s.push(FrameView::Body { stream: tail, phase: BodyPhase::Binding }),
                    request: RequestView::Local(expression),
                },
                StatementView::Export(expression) => Outcome {
                    state: s.push(FrameView::Body { stream: tail, phase: BodyPhase::Binding }),
                    request: RequestView::Export(expression),
                },
                StatementView::Pipeline(pipeline) => Outcome {
                    state: s.push(FrameView::Body { stream: tail, phase: BodyPhase::Running }),
                    request: RequestView::RunPipeline(pipeline),
                },
                StatementView::Break => Outcome {
                    state: s.finishing(Condition::Break),
                    request: RequestView::Proceed,
                },
                StatementView::Continue => Outcome {
                    state: s.finishing(Condition::Continue),
                    request: RequestView::Proceed,
                },
                _ => if head.opens() {
                    let g = gather(head, tail, deeper(s.flow_control.level), IfMode::Success);
                    if g.error is Some {
                        Outcome {
                            state: s.reset().finishing(Condition::Break),
                            request: RequestView::Diagnostic(g.error->0),
                        }
                    } else if head is Function {
                        poll(s.with_level(g.level).declares(function_of(g.statement)), g.rest)
                    } else {
                        Outcome {
                            state: s.with_level(g.level).push(
                                FrameView::Body {
                                    stream: g.rest,
                                    phase: if head is While || head is For {
                                        BodyPhase::Loop
                                    } else {
                                        BodyPhase::Branch
                                    },
                                },
                            ).push(frame_of(g.statement)->0),
                            request: RequestView::Proceed,
                        }
                    }
                } else {
                    poll(s, tail)
                },
            }
        },
        BodyPhase::Binding => poll(s.with_status(reply->Code_0), stream),
        BodyPhase::Running => {
            let done = after_pipeline(s, reply->Status_0);
            if exits_on(done.flags, done.previous_status) {
                Outcome { state: done.halted(), request: RequestView::Exit(done.previous_status) }
            } else {
                poll(done, stream)
            }
        },
        BodyPhase::Polling => match reply->Signal_0 {
            Some(signal) => Outcome {
                state: s.push(FrameView::Body { stream, phase: BodyPhase::Handling(signal) }),
                request: RequestView::HandleSignal(signal),
            },
            None => if s.break_flow {
                Outcome {
                    state: (ShellView { break_flow: false, ..s }).finishing(Condition::SigInt),
                    request: RequestView::Proceed,
                }
            } else {
                Outcome {
                    state: s.push(FrameView::Body { stream, phase: BodyPhase::Ready }),
                    request: RequestView::Proceed,
                }
            },
        },
        BodyPhase::Handling(signal) => if reply->Handled_0 {
            Outcome { state: s.halted(), request: RequestView::ExitOnSignal(signal) }
        } else {
            Outcome { state: s.finishing(Condition::SigInt), request: RequestView::Proceed }
        },
        _ => Outcome { state: s.push(FrameView::Body { stream, phase }), request: RequestView::Idle },
    }
}

/// One transition of a `while` loop. `s` is the state without the loop.
pub open spec fn while_spec(
    s: ShellView,
    expression: PipelineView,
    statements: Seq<StatementView>,
    phase: WhilePhase,
    reply: ReplyView,
) -> Outcome {
    match phase {
        WhilePhase::Ready => Outcome {
            state: s.push(FrameView::While { expression, statements, phase: WhilePhase::Testing }),
            request: RequestView::RunPipeline(expression),
        },
        WhilePhase::Testing => {
            let done = after_pipeline(s, reply->Status_0);
            if reply->Status_0 == Some(SUCCESS) {
                Outcome {
                    state: done.push(
                        FrameView::While { expression, statements, phase: WhilePhase::Iterating },
                    ).push(FrameView::Body { stream: statements, phase: BodyPhase::Ready }),
                    request: RequestView::Proceed,
                }
            } else {
                Outcome { state: done.finishing(Condition::NoOp), request: RequestView::Proceed }
            }
        },
        WhilePhase::Iterating => Outcome {
            state: s.push(FrameView::While { expression, statements, phase }),
            request: RequestView::Idle,
        },
    }
}

/// One transition of a `for` loop. `s` is the state without the loop.
pub open spec fn for_spec(
    s: ShellView,
    variable: Seq<char>,
    values: Seq<Seq<char>>,
    remaining: Seq<Seq<char>>,
    statements: Seq<StatementView>,
    phase: ForPhase,
    reply: ReplyView,
) -> Outcome {
    match phase {
        ForPhase::Ready => Outcome {
            state: s.push(
                FrameView::For {
                    variable,
                    values,
                    remaining,
                    statements,
                    phase: ForPhase::Resolving,
                },
            ),
            request: RequestView::ResolveFor(values),
        },
        ForPhase::Resolving => Outcome {
            state: s.push(
                FrameView::For {
                    variable,
                    values,
                    remaining: words_of(reply->Values_0),
                    statements,
                    phase: ForPhase::Next,
                },
            ),
            request: RequestView::Proceed,
        },
        ForPhase::Next => if remaining.len() == 0 {
            Outcome { state: s.finishing(Condition::NoOp), request: RequestView::Proceed }
        } else if variable == ignored_variable() {
            Outcome {
                state: s.push(
                    FrameView::For {
                        variable,
                        values,
                        remaining: remaining.drop_first(),
                        statements,
                        phase: ForPhase::Iterating,
                    },
                ).push(FrameView::Body { stream: statements, phase: BodyPhase::Ready }),
                request: RequestView::Proceed,
            }
        } else {
            Outcome {
                state: s.push(
                    FrameView::For {
                        variable,
                        values,
                        remaining: remaining.drop_first(),
                        statements,
                        phase: ForPhase::Binding,
                    },
                ),
                request: RequestView::SetVar { name: variable, value: remaining.first() },
            }
        },
        ForPhase::Binding => Outcome {
            state: s.push(
                FrameView::For {
                    variable,
                    values,
                    remaining,
                    statements,
                    phase: ForPhase::Iterating,
                },
            ).push(FrameView::Body { stream: statements, phase: BodyPhase::Ready }),
            request: RequestView::Proceed,
        },
        ForPhase::Iterating => Outcome {
            state: s.push(FrameView::For { variable, values, remaining, statements, phase }),
            request: RequestView::Idle,
        },
    }
}

/// One transition of a conditional. `s` is the state without it.
pub open spec fn if_spec(
    s: ShellView,
    expression: PipelineView,
    success: Seq<StatementView>,
    else_if: Seq<ElseIfView>,
    failure: Seq<StatementView>,
    phase: IfPhase,
    reply: ReplyView,
) -> Outcome {
    match phase {
        IfPhase::Ready => Outcome {
            state: s.push(
                FrameView::If { expression, success, else_if, failure, phase: IfPhase::Testing },
            ),
            request: RequestView::RunPipeline(expression),
        },
        IfPhase::Testing => {
            let done = after_pipeline(s, reply->Status_0);
            Outcome {
                state: if reply->Status_0 == Some(SUCCESS) {
                    done.push(FrameView::Body { stream: success, phase: BodyPhase::Ready })
                } else if else_if.len() > 0 {
                    done.push(
                        FrameView::If {
                            expression: else_if.first().expression,
                            success: else_if.first().success,
                            else_if: else_if.drop_first(),
                            failure,
                            phase: IfPhase::Ready,
                        },
                    )
                } else {
                    done.push(FrameView::Body { stream: failure, phase: BodyPhase::Ready })
                },
                request: RequestView::Proceed,
            }
        },
    }
}

/// One transition of a `match`. `s` is the state without it.
pub open spec fn match_spec(
    s: ShellView,
    expression: Seq<char>,
    value: Seq<Seq<char>>,
    cases: Seq<CaseView>,
    statements: Seq<StatementView>,
    phase: MatchPhase,
    reply: ReplyView,
) -> Outcome {
    match phase {
        MatchPhase::Ready => Outcome {
            state: s.push(
                FrameView::Match {
                    expression,
                    value,
                    cases,
                    statements,
                    phase: MatchPhase::Expanding,
                },
            ),
            request: RequestView::Expand(expression),
        },
        MatchPhase::Expanding => Outcome {
            state: s.push(
                FrameView::Match {
                    expression,
                    value: reply->Words_0,
                    cases,
                    statements,
                    phase: MatchPhase::Select,
                },
            ),
            request: RequestView::Proceed,
        },
        MatchPhase::Select => if cases.len() == 0 {
            Outcome { state: s.finishing(Condition::NoOp), request: RequestView::Proceed }
        } else {
            match cases.first().value {
                None => Outcome {
                    state: s.push(
                        FrameView::Body {
                            stream: cases.first().statements,
                            phase: BodyPhase::Ready,
                        },
                    ),
                    request: RequestView::Proceed,
                },
                Some(pattern) => Outcome {
                    state: s.push(
                        FrameView::Match {
                            expression,
                            value,
                            cases: cases.drop_first(),
                            statements: cases.first().statements,
                            phase: MatchPhase::Matching,
                        },
                    ),
                    request: RequestView::Expand(pattern),
                },
            }
        },
        MatchPhase::Matching => Outcome {
            state: if pattern_matches(reply->Words_0, value) {
                s.push(FrameView::Body { stream: statements, phase: BodyPhase::Ready })
            } else {
                s.push(
                    FrameView::Match {
                        expression,
                        value,
                        cases,
                        statements,
                        phase: MatchPhase::Select,
                    },
                )
            },
            request: RequestView::Proceed,
        },
    }
}

/// What a loop makes of the condition that its body finished with: `Break`
/// ends the loop, an interrupt goes on upwards, anything else starts the
/// next round.
pub open spec fn loop_verdict(condition: Condition) -> Option<Condition> {
    match condition {
        Condition::Break => Some(Condition::NoOp),
        Condition::SigInt => Some(Condition::SigInt),
        _ => None,
    }
}

/// Hands the condition of a construct that has finished to the construct
/// below it, or reports it to the embedding shell when that construct does
/// not wait for it. `s` is the state with the register emptied.
pub open spec fn deliver_spec(s: ShellView, condition: Condition) -> Outcome {
    let report = Outcome { state: s, request: RequestView::Finished(condition) };
    if s.stack.len() == 0 {
        report
    } else {
        let below = s.base();
        match s.stack.last() {
            FrameView::Line { stream, phase } => if phase is Child {
                Outcome {
                    state: below.push(FrameView::Line { stream, phase: LinePhase::Ready }),
                    request: RequestView::Proceed,
                }
            } else {
                report
            },
            FrameView::Body { stream, phase } => if phase is Loop {
                if condition is SigInt {
                    Outcome { state: below.finishing(condition), request: RequestView::Proceed }
                } else {
                    poll(below, stream)
                }
            } else if phase is Branch {
                if condition is NoOp {
                    poll(below, stream)
                } else {
                    Outcome { state: below.finishing(condition), request: RequestView::Proceed }
                }
            } else {
                report
            },
            FrameView::While { expression, statements, phase } => if phase is Iterating {
                Outcome {
                    state: match loop_verdict(condition) {
                        Some(verdict) => below.finishing(verdict),
                        None => below.push(
                            FrameView::While { expression, statements, phase: WhilePhase::Ready },
                        ),
                    },
                    request: RequestView::Proceed,
                }
            } else {
                report
            },
            FrameView::For { variable, values, remaining, statements, phase } => if phase
                is Iterating {
                Outcome {
                    state: match loop_verdict(condition) {
                        Some(verdict) => below.finishing(verdict),
                        None => below.push(
                            FrameView::For {
                                variable,
                                values,
                                remaining,
                                statements,
                                phase: ForPhase::Next,
                            },
                        ),
                    },
                    request: RequestView::Proceed,
                }
            } else {
                report
            },
            _ => report,
        }
    }
}

/// One transition of the machine on the answer `reply`.
pub open spec fn step_spec(s: ShellView, reply: ReplyView) -> Outcome {
    if reply.kind() != s.awaits() {
        Outcome { state: s, request: RequestView::Unexpected }
    } else if s.returning is Some {
        deliver_spec(ShellView { returning: None, ..s }, s.returning->0)
    } else if s.stack.len() == 0 {
        Outcome { state: s, request: RequestView::Idle }
    } else {
        match s.stack.last() {
            FrameView::Line { stream, phase } => line_spec(s.base(), stream, phase, reply),
            FrameView::Body { stream, phase } => body_spec(s.base(), stream, phase, reply),
            FrameView::While { expression, statements, phase } => while_spec(
                s.base(),
                expression,
                statements,
                phase,
                reply,
            ),
            FrameView::For { variable, values, remaining, statements, phase } => for_spec(
                s.base(),
                variable,
                values,
                remaining,
                statements,
                phase,
                reply,
            ),
            FrameView::If { expression, success, else_if, failure, phase } => if_spec(
                s.base(),
                expression,
                success,
                else_if,
                failure,
                phase,
                reply,
            ),
            FrameView::Match { expression, value, cases, statements, phase } => match_spec(
                s.base(),
                expression,
                value,
                cases,
                statements,
                phase,
                reply,
            ),
        }
    }
}

/// Starting a construct: it is put on top of what is running. While a
/// result waits to be handed on, nothing can be started.
pub open spec fn start_spec(s: ShellView, frame: FrameView) -> Outcome {
    if s.returning is Some {
        Outcome { state: s, request: RequestView::Unexpected }
    } else {
        Outcome { state: s.push(frame), request: RequestView::Proceed }
    }
}

/// What becomes of the pending statement once a line has been collected
/// into its blocks. A conditional that is rejected clears the accumulator
/// and ends the line, and so does the mode `Error`, whatever the statement
/// that is pending. A statement that strays into a `match` is reported;
/// the `match` stays pending as it was, and what is left of the line is
/// dropped. A statement that is still open stays pending. A statement whose
/// blocks are all closed leaves the accumulator clean, the part of a
/// conditional that was being filled forgotten with it, and runs, or is
/// declared if it is a function; the rest of the line follows it, whatever
/// the statement finishes with.
pub open spec fn after_gathering(s: ShellView, g: Gathered) -> Outcome {
    if rejects(g) || g.mode is Error {
        Outcome { state: s.clean().finishing(Condition::NoOp), request: report_of(g.error) }
    } else if g.level != 0 {
        if g.error is Some {
            Outcome {
                state: s.pending(g.statement, g.level, g.mode).finishing(Condition::NoOp),
                request: report_of(g.error),
            }
        } else {
            Outcome {
                state: s.pending(g.statement, g.level, g.mode).push(
                    FrameView::Line { stream: g.rest, phase: LinePhase::Ready },
                ),
                request: RequestView::Proceed,
            }
        }
    } else if g.statement is Function {
        Outcome {
            state: s.clean().declares(function_of(g.statement)).push(
                FrameView::Line { stream: g.rest, phase: LinePhase::Ready },
            ),
            request: report_of(g.error),
        }
    } else {
        Outcome {
            state: s.clean().push(FrameView::Line { stream: g.rest, phase: LinePhase::Child }).push(
                frame_of(g.statement)->0,
            ),
            request: report_of(g.error),
        }
    }
}

/// Taking a line of statements. With nothing pending the line is run
/// statement by statement. With a statement pending the line first goes to
/// the collector of that statement; when that closes the statement it runs,
/// and the rest of the line after it. A level above zero with a pending
/// statement that opens no block collects nothing: the line is dropped.
/// Taking a line clears `break_flow`.
pub open spec fn on_command_spec(s: ShellView, statements: Seq<StatementView>) -> Outcome {
    let fresh = ShellView { break_flow: false, ..s };
    if s.returning is Some {
        Outcome { state: s, request: RequestView::Unexpected }
    } else if s.flow_control.level == 0 {
        Outcome {
            state: fresh.push(FrameView::Line { stream: statements, phase: LinePhase::Ready }),
            request: RequestView::Proceed,
        }
    } else if !s.flow_control.current_statement.opens() {
        Outcome { state: fresh.finishing(Condition::NoOp), request: RequestView::Proceed }
    } else {
        after_gathering(
            fresh,
            gather(
                s.flow_control.current_statement,
                statements,
                s.flow_control.level,
                s.flow_control.current_if_mode,
            ),
        )
    }
}

impl Control {
    /// Nothing running, nothing waiting.
    pub fn new() -> (control: Control)
        ensures
            control@ == (ControlView { stack: Seq::empty(), returning: None }),
    {
        let control = Control { stack: Vec::new(), returning: None };
        assert(frame_views(control.stack@) =~= Seq::empty());
        control
    }

    /// How many constructs are running.
    pub fn depth(&self) -> (depth: usize)
        ensures
            depth == self@.stack.len(),
    {
        self.stack.len()
    }

    /// The condition that waits to be handed on, if there is one.
    pub fn returning(&self) -> (condition: Option<Condition>)
        ensures
            condition == self@.returning,
    {
        self.returning
    }

    /// The kind of answer that the machine waits for.
    pub fn awaits(&self) -> (kind: Awaited)
        ensures
            kind == awaited(self@.stack, self@.returning),
    {
        if self.returning.is_some() || self.stack.len() == 0 {
            return Awaited::Proceed;
        }
        match &self.stack[self.stack.len() - 1] {
            Frame::Line { phase, .. } => match phase {
                LinePhase::Binding => Awaited::Code,
                LinePhase::Running => Awaited::Status,
                _ => Awaited::Proceed,
            },
            Frame::Body { phase, .. } => match phase {
                BodyPhase::Binding => Awaited::Code,
                BodyPhase::Running => Awaited::Status,
                BodyPhase::Polling => Awaited::Signal,
                BodyPhase::Handling(_) => Awaited::Handled,
                _ => Awaited::Proceed,
            },
            Frame::While { phase, .. } => match phase {
                WhilePhase::Testing => Awaited::Status,
                _ => Awaited::Proceed,
            },
            Frame::For { phase, .. } => match phase {
                ForPhase::Resolving => Awaited::Values,
                _ => Awaited::Proceed,
            },
            Frame::If { phase, .. } => match phase {
                IfPhase::Testing => Awaited::Status,
                _ => Awaited::Proceed,
            },
            Frame::Match { phase, .. } => match phase {
                MatchPhase::Expanding => Awaited::Words,
                MatchPhase::Matching => Awaited::Words,
                _ => Awaited::Proceed,
            },
        }
    }

    pub(crate) fn push(&mut self, frame: Frame)
        ensures
            final(self)@ == (ControlView { stack: old(self)@.stack.push(frame@), ..old(self)@ }),
    {
        self.stack.push(frame);
        assert(frame_views(self.stack@) =~= frame_views(old(self).stack@).push(frame@));
    }

    pub(crate) fn pop(&mut self) -> (frame: Option<Frame>)
        ensures
            match frame {
                Some(top) => old(self)@.stack.len() > 0 && top@ == old(self)@.stack.last()
                    && final(self)@ == (ControlView {
                    stack: old(self)@.stack.drop_last(),
                    ..old(self)@
                }),
                None => old(self)@.stack.len() == 0 && final(self)@ == old(self)@,
            },
    {
        let frame = self.stack.pop();
        assert(frame is Some ==> frame_views(self.stack@) =~= frame_views(
            old(self).stack@,
        ).drop_last());
        frame
    }

    pub(crate) fn clear(&mut self)
        ensures
            final(self)@ == (ControlView { stack: Seq::empty(), returning: None }),
    {
        self.stack.clear();
        self.returning = None;
        assert(frame_views(self.stack@) =~= Seq::empty());
    }

    pub(crate) fn set_returning(&mut self, condition: Option<Condition>)
        ensures
            final(self)@ == (ControlView { returning: condition, ..old(self)@ }),
    {
        self.returning = condition;
    }
}

} // verus!
