//! The statement tree: every construct the executor understands, together
//! with the mathematical view of each type.

use vstd::prelude::*;

verus! {

/// Outcome of executing a body of statements.
#[derive(Clone, Copy, Debug, PartialEq, Eq, Structural)]
pub enum Condition {
    Continue,
    Break,
    NoOp,
    SigInt,
}

/// Which output of a job is redirected.
#[derive(Clone, Copy, Debug, PartialEq, Eq, Structural)]
pub enum RedirectFrom {
    Stdout,
    Stderr,
    Both,
}

/// How a job is connected to the job that follows it.
#[derive(Clone, Copy, Debug, PartialEq, Eq, Structural)]
pub enum JobKind {
    /// Nothing follows.
    Last,
    /// The next job runs if this one succeeds.
    And,
    /// The next job runs if this one fails.
    Or,
    /// The job runs in the background.
    Background,
    /// The named output of the job is the input of the next job.
    Pipe(RedirectFrom),
}

/// Where the output of a pipeline goes instead of the terminal.
#[derive(Debug, PartialEq, Eq)]
pub struct Redirection {
    pub from: RedirectFrom,
    pub file: String,
    pub append: bool,
}

/// Where the input of a pipeline comes from instead of the terminal.
#[derive(Debug, PartialEq, Eq)]
pub enum Input {
    /// The contents of the file of this name.
    File(String),
    /// This text.
    HereString(String),
}

/// One stage of a pipeline.
#[derive(Debug, PartialEq, Eq)]
pub struct Job {
    pub command: String,
    pub args: Vec<String>,
    pub kind: JobKind,
}

/// A chain of jobs with its redirections, run as a unit by the embedding
/// shell.
#[derive(Debug, PartialEq, Eq)]
pub struct Pipeline {
    pub jobs: Vec<Job>,
    pub stdout: Option<Redirection>,
    pub stdin: Option<Input>,
}

/// One `else if` arm of a conditional.
#[derive(Debug, PartialEq, Eq)]
pub struct ElseIf {
    pub expression: Pipeline,
    pub success: Vec<Statement>,
}

/// One arm of a `match`; `value` is `None` for the catch-all arm.
#[derive(Debug, PartialEq, Eq)]
pub struct Case {
    pub value: Option<String>,
    pub statements: Vec<Statement>,
}

/// A declared function.
#[derive(Debug, PartialEq, Eq)]
pub struct Function {
    pub name: String,
    pub description: String,
    pub args: Vec<String>,
    pub statements: Vec<Statement>,
}

/// The resolved value list of a `for` loop.
#[derive(Debug, PartialEq, Eq)]
pub enum ForExpression {
    /// Words that are already expanded.
    Multiple(Vec<String>),
    /// A single text, iterated line by line.
    Normal(String),
    /// The half-open range of integers from the first to the second.
    Range(usize, usize),
}

/// Every executable construct and block marker.
#[allow(inconsistent_fields)]
#[derive(Debug, PartialEq, Eq)]
pub enum Statement {
    Let { expression: String },
    Export(String),
    If { expression: Pipeline, success: Vec<Statement>, else_if: Vec<ElseIf>, failure: Vec<Statement> },
    ElseIf(ElseIf),
    Function { name: String, description: String, args: Vec<String>, statements: Vec<Statement> },
    For { variable: String, values: Vec<String>, statements: Vec<Statement> },
    While { expression: Pipeline, statements: Vec<Statement> },
    Match { expression: String, cases: Vec<Case> },
    Case(Case),
    Else,
    End,
    Error(i32),
    Break,
    Continue,
    Pipeline(Pipeline),
    Default,
}

/// A job as a mathematical value.
pub struct JobView {
    pub command: Seq<char>,
    pub args: Seq<Seq<char>>,
    pub kind: JobKind,
}

/// A redirection of output as a mathematical value.
pub struct RedirectionView {
    pub from: RedirectFrom,
    pub file: Seq<char>,
    pub append: bool,
}

/// A source of input as a mathematical value.
pub enum InputView {
    File(Seq<char>),
    HereString(Seq<char>),
}

/// A pipeline as a mathematical value.
pub struct PipelineView {
    pub jobs: Seq<JobView>,
    pub stdout: Option<RedirectionView>,
    pub stdin: Option<InputView>,
}

/// An `else if` arm as a mathematical value.
pub struct ElseIfView {
    pub expression: PipelineView,
    pub success: Seq<StatementView>,
}

/// An arm of a `match` as a mathematical value.
pub struct CaseView {
    pub value: Option<Seq<char>>,
    pub statements: Seq<StatementView>,
}

/// A declared function as a mathematical value.
pub struct FunctionView {
    pub name: Seq<char>,
    pub description: Seq<char>,
    pub args: Seq<Seq<char>>,
    pub statements: Seq<StatementView>,
}

/// A resolved value list as a mathematical value.
pub enum ForExpressionView {
    Multiple(Seq<Seq<char>>),
    Normal(Seq<char>),
    Range(nat, nat),
}

/// A statement as a mathematical value: texts are sequences of
/// characters and bodies are sequences of statements.
#[allow(inconsistent_fields)]
pub enum StatementView {
    Let { expression: Seq<char> },
    Export(Seq<char>),
    If {
        expression: PipelineView,
        success: Seq<StatementView>,
        else_if: Seq<ElseIfView>,
        failure: Seq<StatementView>,
    },
    ElseIf(ElseIfView),
    Function {
        name: Seq<char>,
        description: Seq<char>,
        args: Seq<Seq<char>>,
        statements: Seq<StatementView>,
    },
    For { variable: Seq<char>, values: Seq<Seq<char>>, statements: Seq<StatementView> },
    While { expression: PipelineView, statements: Seq<StatementView> },
    Match { expression: Seq<char>, cases: Seq<CaseView> },
    Case(CaseView),
    Else,
    End,
    Error(i32),
    Break,
    Continue,
    Pipeline(PipelineView),
    Default,
}

/// The texts of a sequence of strings.
pub open spec fn string_views(v: Seq<String>) -> Seq<Seq<char>> {
    v.map_values(|s: String| s@)
}

/// The views of a sequence of jobs.
pub open spec fn job_views(v: Seq<Job>) -> Seq<JobView> {
    v.map_values(|j: Job| j@)
}

impl View for Job {
    type V = JobView;

    open spec fn view(&self) -> JobView {
        JobView { command: self.command@, args: string_views(self.args@), kind: self.kind }
    }
}

impl View for Redirection {
    type V = RedirectionView;

    open spec fn view(&self) -> RedirectionView {
        RedirectionView { from: self.from, file: self.file@, append: self.append }
    }
}

impl View for Input {
    type V = InputView;

    open spec fn view(&self) -> InputView {
        match self {
            Input::File(name) => InputView::File(name@),
            Input::HereString(text) => InputView::HereString(text@),
        }
    }
}

/// The view of an optional redirection of output.
pub open spec fn stdout_view(stdout: Option<Redirection>) -> Option<RedirectionView> {
    match stdout {
        Some(redirection) => Some(redirection@),
        None => None,
    }
}

/// The view of an optional source of input.
pub open spec fn stdin_view(stdin: Option<Input>) -> Option<InputView> {
    match stdin {
        Some(input) => Some(input@),
        None => None,
    }
}

impl View for Pipeline {
    type V = PipelineView;

    open spec fn view(&self) -> PipelineView {
        PipelineView {
            jobs: job_views(self.jobs@),
            stdout: stdout_view(self.stdout),
            stdin: stdin_view(self.stdin),
        }
    }
}

/// The views of a sequence of statements.
pub open spec fn statement_views(v: Seq<Statement>) -> Seq<StatementView>
    decreases v, 0int,
{
    Seq::new(
        v.len(),
        |i: int|
            if 0 <= i < v.len() {
                statement_view(v[i])
            } else {
                StatementView::Default
            },
    )
}

/// The views of a sequence of `else if` arms.
pub open spec fn else_if_views(v: Seq<ElseIf>) -> Seq<ElseIfView>
    decreases v, 0int,
{
    Seq::new(
        v.len(),
        |i: int|
            if 0 <= i < v.len() {
                else_if_view(v[i])
            } else {
                ElseIfView {
                    expression: PipelineView { jobs: Seq::empty(), stdout: None, stdin: None },
                    success: Seq::empty(),
                }
            },
    )
}

/// The views of a sequence of `match` arms.
pub open spec fn case_views(v: Seq<Case>) -> Seq<CaseView>
    decreases v, 0int,
{
    Seq::new(
        v.len(),
        |i: int|
            if 0 <= i < v.len() {
                case_view(v[i])
            } else {
                CaseView { value: None, statements: Seq::empty() }
            },
    )
}

/// The view of an `else if` arm.
pub open spec fn else_if_view(e: ElseIf) -> ElseIfView
    decreases e, 1int,
{
    ElseIfView { expression: e.expression@, success: statement_views(e.success@) }
}

/// The text of an optional string.
pub open spec fn option_view(o: Option<String>) -> Option<Seq<char>> {
    match o {
        Some(s) => Some(s@),
        None => None,
    }
}

/// The view of a `match` arm.
pub open spec fn case_view(c: Case) -> CaseView
    decreases c, 1int,
{
    CaseView { value: option_view(c.value), statements: statement_views(c.statements@) }
}

/// The view of a statement.
pub open spec fn statement_view(s: Statement) -> StatementView
    decreases s, 1int,
{
    match s {
        Statement::Let { expression } => StatementView::Let { expression: expression@ },
        Statement::Export(expression) => StatementView::Export(expression@),
        Statement::If { expression, success, else_if, failure } => StatementView::If {
            expression: expression@,
            success: statement_views(success@),
            else_if: else_if_views(else_if@),
            failure: statement_views(failure@),
        },
        Statement::ElseIf(arm) => StatementView::ElseIf(else_if_view(arm)),
        Statement::Function { name, description, args, statements } => StatementView::Function {
            name: name@,
            description: description@,
            args: string_views(args@),
            statements: statement_views(statements@),
        },
        Statement::For { variable, values, statements } => StatementView::For {
            variable: variable@,
            values: string_views(values@),
            statements: statement_views(statements@),
        },
        Statement::While { expression, statements } => StatementView::While {
            expression: expression@,
            statements: statement_views(statements@),
        },
        Statement::Match { expression, cases } => StatementView::Match {
            expression: expression@,
            cases: case_views(cases@),
        },
        Statement::Case(case) => StatementView::Case(case_view(case)),
        Statement::Else => StatementView::Else,
        Statement::End => StatementView::End,
        Statement::Error(code) => StatementView::Error(code),
        Statement::Break => StatementView::Break,
        Statement::Continue => StatementView::Continue,
        Statement::Pipeline(pipeline) => StatementView::Pipeline(pipeline@),
        Statement::Default => StatementView::Default,
    }
}

impl View for ElseIf {
    type V = ElseIfView;

    open spec fn view(&self) -> ElseIfView {
        else_if_view(*self)
    }
}

impl View for Case {
    type V = CaseView;

    open spec fn view(&self) -> CaseView {
        case_view(*self)
    }
}

impl View for Statement {
    type V = StatementView;

    open spec fn view(&self) -> StatementView {
        statement_view(*self)
    }
}

impl View for Function {
    type V = FunctionView;

    open spec fn view(&self) -> FunctionView {
        FunctionView {
            name: self.name@,
            description: self.description@,
            args: string_views(self.args@),
            statements: statement_views(self.statements@),
        }
    }
}

impl View for ForExpression {
    type V = ForExpressionView;

    open spec fn view(&self) -> ForExpressionView {
        match self {
            ForExpression::Multiple(values) => ForExpressionView::Multiple(string_views(values@)),
            ForExpression::Normal(text) => ForExpressionView::Normal(text@),
            ForExpression::Range(start, end) => ForExpressionView::Range(*start as nat, *end as nat),
        }
    }
}

/// A copy of a list of strings with the same texts.
pub fn clone_strings(v: &Vec<String>) -> (r: Vec<String>)
    ensures
        string_views(r@) == string_views(v@),
{
    let mut out: Vec<String> = Vec::new();
    let mut i: usize = 0;
    while i < v.len()
        invariant
            i <= v.len(),
            out.len() == i,
            forall|j: int| 0 <= j < i ==> out[j]@ == v[j]@,
        decreases v.len() - i,
    {
        out.push(v[i].clone());
        i += 1;
    }
    assert(string_views(out@) =~= string_views(v@));
    out
}

impl Clone for Job {
    fn clone(&self) -> (r: Job)
        ensures
            r@ == self@,
    {
        Job { command: self.command.clone(), args: clone_strings(&self.args), kind: self.kind }
    }
}

impl Clone for Pipeline {
    fn clone(&self) -> (r: Pipeline)
        ensures
            r@ == self@,
    {
        let mut out: Vec<Job> = Vec::new();
        let mut i: usize = 0;
        while i < self.jobs.len()
            invariant
                i <= self.jobs.len(),
                out.len() == i,
                forall|j: int| 0 <= j < i ==> out[j]@ == self.jobs[j]@,
            decreases self.jobs.len() - i,
        {
            out.push(self.jobs[i].clone());
            i += 1;
        }
        assert(job_views(out@) =~= job_views(self.jobs@));
        let stdout = match &self.stdout {
            Some(redirection) => Some(
                Redirection {
                    from: redirection.from,
                    file: redirection.file.clone(),
                    append: redirection.append,
                },
            ),
            None => None,
        };
        let stdin = match &self.stdin {
            Some(Input::File(name)) => Some(Input::File(name.clone())),
            Some(Input::HereString(text)) => Some(Input::HereString(text.clone())),
            None => None,
        };
        Pipeline { jobs: out, stdout, stdin }
    }
}

/// A deep copy of a body of statements.
pub fn clone_statements(v: &Vec<Statement>) -> (r: Vec<Statement>)
    ensures
        statement_views(r@) == statement_views(v@),
    decreases v, 0int,
{
    let mut out: Vec<Statement> = Vec::new();
    let mut i: usize = 0;
    while i < v.len()
        invariant
            i <= v.len(),
            out.len() == i,
            forall|j: int| 0 <= j < i ==> out[j]@ == v[j]@,
        decreases v.len() - i,
    {
        out.push(clone_statement(&v[i]));
        i += 1;
    }
    assert(statement_views(out@) =~= statement_views(v@));
    out
}

fn clone_else_ifs(v: &Vec<ElseIf>) -> (r: Vec<ElseIf>)
    ensures
        else_if_views(r@) == else_if_views(v@),
    decreases v, 0int,
{
    let mut out: Vec<ElseIf> = Vec::new();
    let mut i: usize = 0;
    while i < v.len()
        invariant
            i <= v.len(),
            out.len() == i,
            forall|j: int| 0 <= j < i ==> out[j]@ == v[j]@,
        decreases v.len() - i,
    {
        out.push(clone_else_if(&v[i]));
        i += 1;
    }
    assert(else_if_views(out@) =~= else_if_views(v@));
    out
}

fn clone_cases(v: &Vec<Case>) -> (r: Vec<Case>)
    ensures
        case_views(r@) == case_views(v@),
    decreases v, 0int,
{
    let mut out: Vec<Case> = Vec::new();
    let mut i: usize = 0;
    while i < v.len()
        invariant
            i <= v.len(),
            out.len() == i,
            forall|j: int| 0 <= j < i ==> out[j]@ == v[j]@,
        decreases v.len() - i,
    {
        out.push(clone_case(&v[i]));
        i += 1;
    }
    assert(case_views(out@) =~= case_views(v@));
    out
}

fn clone_else_if(e: &ElseIf) -> (r: ElseIf)
    ensures
        r@ == e@,
    decreases e, 1int,
{
    ElseIf { expression: e.expression.clone(), success: clone_statements(&e.success) }
}

fn clone_option(o: &Option<String>) -> (r: Option<String>)
    ensures
        option_view(r) == option_view(*o),
{
    match o {
        Some(s) => Some(s.clone()),
        None => None,
    }
}

fn clone_case(c: &Case) -> (r: Case)
    ensures
        r@ == c@,
    decreases c, 1int,
{
    Case { value: clone_option(&c.value), statements: clone_statements(&c.statements) }
}

fn clone_statement(s: &Statement) -> (r: Statement)
    ensures
        r@ == s@,
    decreases s, 1int,
{
    match s {
        Statement::Let { expression } => Statement::Let { expression: expression.clone() },
        Statement::Export(expression) => Statement::Export(expression.clone()),
        Statement::If { expression, success, else_if, failure } => Statement::If {
            expression: expression.clone(),
            success: clone_statements(success),
            else_if: clone_else_ifs(else_if),
            failure: clone_statements(failure),
        },
        Statement::ElseIf(arm) => Statement::ElseIf(clone_else_if(arm)),
        Statement::Function { name, description, args, statements } => Statement::Function {
            name: name.clone(),
            description: description.clone(),
            args: clone_strings(args),
            statements: clone_statements(statements),
        },
        Statement::For { variable, values, statements } => Statement::For {
            variable: variable.clone(),
            values: clone_strings(values),
            statements: clone_statements(statements),
        },
        Statement::While { expression, statements } => Statement::While {
            expression: expression.clone(),
            statements: clone_statements(statements),
        },
        Statement::Match { expression, cases } => Statement::Match {
            expression: expression.clone(),
            cases: clone_cases(cases),
        },
        Statement::Case(case) => Statement::Case(clone_case(case)),
        Statement::Else => Statement::Else,
        Statement::End => Statement::End,
        Statement::Error(code) => Statement::Error(*code),
        Statement::Break => Statement::Break,
        Statement::Continue => Statement::Continue,
        Statement::Pipeline(pipeline) => Statement::Pipeline(pipeline.clone()),
        Statement::Default => Statement::Default,
    }
}

impl Clone for ElseIf {
    fn clone(&self) -> (r: ElseIf)
        ensures
            r@ == self@,
    {
        clone_else_if(self)
    }
}

impl Clone for Case {
    fn clone(&self) -> (r: Case)
        ensures
            r@ == self@,
    {
        clone_case(self)
    }
}

impl Clone for Statement {
    fn clone(&self) -> (r: Statement)
        ensures
            r@ == self@,
    {
        clone_statement(self)
    }
}

impl Clone for Function {
    fn clone(&self) -> (r: Function)
        ensures
            r@ == self@,
    {
        Function {
            name: self.name.clone(),
            description: self.description.clone(),
            args: clone_strings(&self.args),
            statements: clone_statements(&self.statements),
        }
    }
}

impl Clone for ForExpression {
    fn clone(&self) -> (r: ForExpression)
        ensures
            r@ == self@,
    {
        match self {
            ForExpression::Multiple(values) => ForExpression::Multiple(clone_strings(values)),
            ForExpression::Normal(text) => ForExpression::Normal(text.clone()),
            ForExpression::Range(start, end) => ForExpression::Range(*start, *end),
        }
    }
}

impl StatementView {
    /// Whether the statement opens a compound block that an `End` closes.
    pub open spec fn opens(self) -> bool {
        self is While || self is For || self is If || self is Function || self is Match
    }

    /// Whether the statement carries no nested statements of its own, as
    /// when it has just been parsed.
    pub open spec fn bare(self) -> bool {
        match self {
            StatementView::If { success, else_if, failure, .. } => success.len() == 0
                && else_if.len() == 0 && failure.len() == 0,
            StatementView::ElseIf(arm) => arm.success.len() == 0,
            StatementView::Function { statements, .. } => statements.len() == 0,
            StatementView::For { statements, .. } => statements.len() == 0,
            StatementView::While { statements, .. } => statements.len() == 0,
            StatementView::Match { cases, .. } => cases.len() == 0,
            StatementView::Case(case) => case.statements.len() == 0,
            _ => true,
        }
    }
}

impl Statement {
    /// Whether the statement opens a compound block.
    pub fn opens(&self) -> (r: bool)
        ensures
            r == self@.opens(),
    {
        match self {
            Statement::While { .. } => true,
            Statement::For { .. } => true,
            Statement::If { .. } => true,
            Statement::Function { .. } => true,
            Statement::Match { .. } => true,
            _ => false,
        }
    }

    /// Whether the statement is the `End` marker.
    pub fn is_end(&self) -> (r: bool)
        ensures
            r == (self@ is End),
    {
        match self {
            Statement::End => true,
            _ => false,
        }
    }
}

/// The views of a body with one more statement.
pub proof fn lemma_statement_views_push(v: Seq<Statement>, s: Statement)
    ensures
        statement_views(v.push(s)) == statement_views(v).push(s@),
{
    assert(statement_views(v.push(s)) =~= statement_views(v).push(s@));
}

/// The views of a body without its first statement.
pub proof fn lemma_statement_views_tail(v: Seq<Statement>)
    requires
        v.len() > 0,
    ensures
        statement_views(v.subrange(1, v.len() as int)) == statement_views(v).drop_first(),
        statement_views(v).first() == v[0]@,
{
    assert(statement_views(v.subrange(1, v.len() as int)) =~= statement_views(v).drop_first());
}

/// The views of a list of arms with one more arm.
pub proof fn lemma_else_if_views_push(v: Seq<ElseIf>, e: ElseIf)
    ensures
        else_if_views(v.push(e)) == else_if_views(v).push(e@),
{
    assert(else_if_views(v.push(e)) =~= else_if_views(v).push(e@));
}

/// The views of a list of arms without its last arm.
pub proof fn lemma_else_if_views_drop_last(v: Seq<ElseIf>)
    requires
        v.len() > 0,
    ensures
        else_if_views(v.subrange(0, v.len() - 1)) == else_if_views(v).drop_last(),
        else_if_views(v).last() == v.last()@,
{
    assert(else_if_views(v.subrange(0, v.len() - 1)) =~= else_if_views(v).drop_last());
}

/// The views of a list of `match` arms with one more arm.
pub proof fn lemma_case_views_push(v: Seq<Case>, c: Case)
    ensures
        case_views(v.push(c)) == case_views(v).push(c@),
{
    assert(case_views(v.push(c)) =~= case_views(v).push(c@));
}

/// The views of a list of `match` arms without its last arm.
pub proof fn lemma_case_views_drop_last(v: Seq<Case>)
    requires
        v.len() > 0,
    ensures
        case_views(v.subrange(0, v.len() - 1)) == case_views(v).drop_last(),
        case_views(v).last() == v.last()@,
{
    assert(case_views(v.subrange(0, v.len() - 1)) =~= case_views(v).drop_last());
}

} // verus!
