use ion_flow::ast::{Case, Condition, ElseIf, ForExpression, Job, JobKind, Pipeline, Statement};
use ion_flow::flow::FlowLogic;
use ion_flow::flow_control::{IfMode, SyntaxError};
use ion_flow::shell::{Awaited, Reply, Request, Shell, ERR_EXIT, SUCCESS};
use std::collections::HashMap;
use std::collections::VecDeque;

/// A small shell around the executor: variables, an output buffer in place
/// of the terminal, and a queue of signals.
struct Host {
    vars: HashMap<String, String>,
    out: String,
    diagnostics: Vec<String>,
    signals: VecDeque<i32>,
    fatal_signals: bool,
    flag_checks_left: usize,
    slept: usize,
    pipelines_run: usize,
    exit: Option<i32>,
    exit_signal: Option<i32>,
}

impl Host {
    fn new() -> Host {
        Host {
            vars: HashMap::new(),
            out: String::new(),
            diagnostics: Vec::new(),
            signals: VecDeque::new(),
            fatal_signals: false,
            flag_checks_left: 0,
            slept: 0,
            pipelines_run: 0,
            exit: None,
            exit_signal: None,
        }
    }

    fn expand_word(&self, word: &str) -> String {
        match word.strip_prefix('$') {
            Some(name) => self.vars.get(name).cloned().unwrap_or_default(),
            None => word.to_string(),
        }
    }

    fn expand(&self, text: &str) -> Vec<String> {
        text.split_whitespace().map(|w| self.expand_word(w)).collect()
    }

    fn run_pipeline(&mut self, pipeline: &Pipeline) -> Option<i32> {
        self.pipelines_run += 1;
        let mut status = None;
        for job in &pipeline.jobs {
            let args: Vec<String> = job.args.iter().map(|a| self.expand_word(a)).collect();
            status = match job.command.as_str() {
                "echo" => {
                    self.out.push_str(&args.join(" "));
                    self.out.push('\n');
                    Some(0)
                }
                "true" => Some(0),
                "false" => Some(1),
                "fail" => Some(args[0].parse().unwrap()),
                "sleep" => {
                    self.slept += 1;
                    Some(0)
                }
                "test" if args.len() == 3 && args[1] == "-eq" => {
                    Some(if args[0] == args[2] { 0 } else { 1 })
                }
                "test" if args.len() == 2 && args[0] == "-f" => {
                    if self.flag_checks_left > 0 {
                        self.flag_checks_left -= 1;
                        Some(0)
                    } else {
                        Some(1)
                    }
                }
                _ => None,
            };
        }
        status
    }

    fn bind(&mut self, expression: &str) -> i32 {
        let parts: Vec<&str> = expression.split('=').map(|p| p.trim()).collect();
        if parts.len() == 2 && !parts[0].is_empty() {
            let value = self.expand_word(parts[1]);
            self.vars.insert(parts[0].to_string(), value);
            0
        } else {
            1
        }
    }

    fn resolve(&self, values: &[String]) -> ForExpression {
        if values.len() == 1 {
            if let Some((a, b)) = values[0].split_once("..") {
                if let (Ok(a), Ok(b)) = (a.parse::<usize>(), b.parse::<usize>()) {
                    return ForExpression::Range(a, b);
                }
            }
            if let Some(text) = values[0].strip_prefix("lines:") {
                return ForExpression::Normal(text.to_string());
            }
        }
        ForExpression::Multiple(values.iter().map(|v| self.expand_word(v)).collect())
    }

    /// Answers requests until the construct that was started has finished,
    /// the shell exits, or the machine has nothing to do.
    fn drive(&mut self, shell: &mut Shell, first: Request) -> Request {
        let mut request = first;
        let mut steps = 0;
        loop {
            steps += 1;
            assert!(steps < 100_000);
            let reply = match request {
                Request::Proceed => Reply::Proceed,
                Request::RunPipeline(pipeline) => Reply::Status(self.run_pipeline(&pipeline)),
                Request::Local(expression) => Reply::Code(self.bind(&expression)),
                Request::Export(expression) => Reply::Code(self.bind(&expression)),
                Request::SetVar { name, value } => {
                    self.vars.insert(name, value);
                    Reply::Proceed
                }
                Request::Expand(text) => Reply::Words(self.expand(&text)),
                Request::ResolveFor(values) => Reply::Values(self.resolve(&values)),
                Request::NextSignal => Reply::Signal(self.signals.pop_front()),
                Request::HandleSignal(_) => Reply::Handled(self.fatal_signals),
                Request::Diagnostic(error) => {
                    self.diagnostics.push(error.message());
                    Reply::Proceed
                }
                Request::Exit(status) => {
                    self.exit = Some(status);
                    return Request::Exit(status);
                }
                Request::ExitOnSignal(signal) => {
                    self.exit_signal = Some(signal);
                    return Request::ExitOnSignal(signal);
                }
                last => return last,
            };
            request = shell.step(reply);
        }
    }

    fn feed(&mut self, shell: &mut Shell, line: Vec<Statement>) -> Request {
        let first = shell.on_command(line);
        self.drive(shell, first)
    }
}

fn words(items: &[&str]) -> Vec<String> {
    items.iter().map(|s| s.to_string()).collect()
}

fn pipeline(items: &[&str]) -> Pipeline {
    Pipeline {
        jobs: vec![Job { command: items[0].to_string(), args: words(&items[1..]), kind: JobKind::Last }],
        stdout: None,
        stdin: None,
    }
}

fn run(items: &[&str]) -> Statement {
    Statement::Pipeline(pipeline(items))
}

fn open_if(items: &[&str]) -> Statement {
    Statement::If {
        expression: pipeline(items),
        success: Vec::new(),
        else_if: Vec::new(),
        failure: Vec::new(),
    }
}

fn open_else_if(items: &[&str]) -> Statement {
    Statement::ElseIf(ElseIf { expression: pipeline(items), success: Vec::new() })
}

fn open_while(items: &[&str]) -> Statement {
    Statement::While { expression: pipeline(items), statements: Vec::new() }
}

fn open_for(variable: &str, values: &[&str]) -> Statement {
    Statement::For { variable: variable.to_string(), values: words(values), statements: Vec::new() }
}

fn open_match(expression: &str) -> Statement {
    Statement::Match { expression: expression.to_string(), cases: Vec::new() }
}

fn case(pattern: Option<&str>) -> Statement {
    Statement::Case(Case { value: pattern.map(|p| p.to_string()), statements: Vec::new() })
}

fn open_function(name: &str) -> Statement {
    Statement::Function {
        name: name.to_string(),
        description: String::new(),
        args: Vec::new(),
        statements: Vec::new(),
    }
}

fn assert_clean(shell: &Shell) {
    assert_eq!(shell.flow_control.level, 0);
    assert_eq!(shell.flow_control.current_statement, Statement::Default);
    assert_eq!(shell.flow_control.current_if_mode, IfMode::Success);
    assert_eq!(shell.control.depth(), 0);
    assert_eq!(shell.control.returning(), None);
}

#[test]
fn let_then_echo_prints_the_value() {
    let mut shell = Shell::new();
    let mut host = Host::new();
    shell.previous_status = 7;
    let line = vec![Statement::Let { expression: "x = 3".to_string() }, run(&["echo", "$x"])];
    assert_eq!(host.feed(&mut shell, line), Request::Finished(Condition::NoOp));
    assert_eq!(host.out, "3\n");
    assert_eq!(shell.previous_status, 0);
    assert_clean(&shell);
}

#[test]
fn if_runs_the_success_part() {
    let mut shell = Shell::new();
    let mut host = Host::new();
    let line = vec![
        open_if(&["test", "1", "-eq", "1"]),
        run(&["echo", "A"]),
        Statement::Else,
        run(&["echo", "B"]),
        Statement::End,
    ];
    assert_eq!(host.feed(&mut shell, line), Request::Finished(Condition::NoOp));
    assert_eq!(host.out, "A\n");
    assert_clean(&shell);
}

#[test]
fn if_runs_the_else_part_when_the_condition_fails() {
    let mut shell = Shell::new();
    let mut host = Host::new();
    let line = vec![
        open_if(&["test", "1", "-eq", "2"]),
        run(&["echo", "A"]),
        Statement::Else,
        run(&["echo", "B"]),
        Statement::End,
    ];
    assert_eq!(host.feed(&mut shell, line), Request::Finished(Condition::NoOp));
    assert_eq!(host.out, "B\n");
    assert_eq!(shell.previous_status, 0);
}

#[test]
fn if_runs_the_first_else_if_arm_that_succeeds() {
    let mut shell = Shell::new();
    let mut host = Host::new();
    let line = vec![
        open_if(&["false"]),
        run(&["echo", "A"]),
        open_else_if(&["false"]),
        run(&["echo", "B"]),
        open_else_if(&["true"]),
        run(&["echo", "C"]),
        open_else_if(&["true"]),
        run(&["echo", "D"]),
        Statement::Else,
        run(&["echo", "E"]),
        Statement::End,
        run(&["echo", "after"]),
    ];
    assert_eq!(host.feed(&mut shell, line), Request::Finished(Condition::NoOp));
    assert_eq!(host.out, "C\nafter\n");
}

#[test]
fn for_over_a_range_prints_each_number() {
    let mut shell = Shell::new();
    let mut host = Host::new();
    let line = vec![open_for("i", &["1..3"]), run(&["echo", "$i"]), Statement::End];
    assert_eq!(host.feed(&mut shell, line), Request::Finished(Condition::NoOp));
    assert_eq!(host.out, "1\n2\n");
    assert_clean(&shell);
}

#[test]
fn for_renders_numbers_in_decimal() {
    let mut shell = Shell::new();
    let mut host = Host::new();
    let line = vec![open_for("i", &["8..12"]), run(&["echo", "$i"]), Statement::End];
    host.feed(&mut shell, line);
    assert_eq!(host.out, "8\n9\n10\n11\n");
    let mut host = Host::new();
    let line = vec![open_for("i", &["0..1"]), run(&["echo", "$i"]), Statement::End];
    host.feed(&mut shell, line);
    assert_eq!(host.out, "0\n");
    let mut host = Host::new();
    let line = vec![open_for("i", &["99..101"]), run(&["echo", "$i"]), Statement::End];
    host.feed(&mut shell, line);
    assert_eq!(host.out, "99\n100\n");
}

#[test]
fn for_over_words_binds_each_word() {
    let mut shell = Shell::new();
    let mut host = Host::new();
    let line = vec![open_for("w", &["a", "b", "c"]), run(&["echo", "$w"]), Statement::End];
    assert_eq!(host.feed(&mut shell, line), Request::Finished(Condition::NoOp));
    assert_eq!(host.out, "a\nb\nc\n");
    assert_eq!(host.vars.get("w").map(|s| s.as_str()), Some("c"));
}

#[test]
fn for_over_a_text_goes_line_by_line() {
    let mut shell = Shell::new();
    let mut host = Host::new();
    let line = vec![open_for("l", &["lines:one\r\ntwo\n\nfour\n"]), run(&["echo", "$l"]), Statement::End];
    assert_eq!(host.feed(&mut shell, line), Request::Finished(Condition::NoOp));
    assert_eq!(host.out, "one\ntwo\n\nfour\n");
    let mut host = Host::new();
    let line = vec![open_for("l", &["lines:last\r"]), run(&["echo", "[$l]"]), Statement::End];
    host.feed(&mut shell, line);
    assert_eq!(host.vars.get("l").map(|s| s.as_str()), Some("last\r"));
    let mut host = Host::new();
    let line = vec![open_for("l", &["lines:"]), run(&["echo", "x"]), Statement::End];
    host.feed(&mut shell, line);
    assert_eq!(host.out, "");
}

#[test]
fn for_with_an_underscore_sets_no_variable() {
    let mut shell = Shell::new();
    let mut host = Host::new();
    let line = vec![open_for("_", &["0..3"]), run(&["echo", "x"]), Statement::End];
    assert_eq!(host.feed(&mut shell, line), Request::Finished(Condition::NoOp));
    assert_eq!(host.out, "x\nx\nx\n");
    assert!(host.vars.is_empty());
    let mut host = Host::new();
    let line = vec![open_for("_", &["a", "b"]), run(&["echo", "y"]), Statement::End];
    host.feed(&mut shell, line);
    assert_eq!(host.out, "y\ny\n");
    assert!(host.vars.is_empty());
}

#[test]
fn for_over_an_empty_range_does_nothing() {
    let mut shell = Shell::new();
    let mut host = Host::new();
    let line = vec![open_for("_", &["1..1"]), run(&["echo", "x"]), Statement::End];
    assert_eq!(host.feed(&mut shell, line), Request::Finished(Condition::NoOp));
    assert_eq!(host.out, "");
    assert_eq!(host.pipelines_run, 0);
    let line = vec![open_for("x", &["5..2"]), run(&["echo", "$x"]), Statement::End];
    assert_eq!(host.feed(&mut shell, line), Request::Finished(Condition::NoOp));
    assert_eq!(host.out, "");
    assert_eq!(host.pipelines_run, 0);
    assert!(host.vars.is_empty());
    assert_clean(&shell);
}

#[test]
fn while_split_over_two_lines() {
    let mut shell = Shell::new();
    let mut host = Host::new();
    host.flag_checks_left = 2;
    let first = vec![open_while(&["test", "-f", "/tmp/flag"])];
    assert_eq!(host.feed(&mut shell, first), Request::Finished(Condition::NoOp));
    assert_eq!(shell.flow_control.level, 1);
    assert_eq!(
        shell.flow_control.current_statement,
        Statement::While { expression: pipeline(&["test", "-f", "/tmp/flag"]), statements: Vec::new() }
    );
    assert_eq!(host.pipelines_run, 0);
    let second = vec![run(&["sleep", "1"]), Statement::End];
    assert_eq!(host.feed(&mut shell, second), Request::Finished(Condition::NoOp));
    assert_eq!(shell.flow_control.level, 0);
    assert_eq!(host.slept, 2);
    assert_eq!(host.pipelines_run, 5);
    assert_clean(&shell);
}

#[test]
fn match_runs_the_first_arm_that_matches() {
    let mut shell = Shell::new();
    let mut host = Host::new();
    let line = vec![
        open_match("foo"),
        case(Some("bar")),
        run(&["echo", "X"]),
        case(Some("foo")),
        run(&["echo", "Y"]),
        case(None),
        run(&["echo", "Z"]),
        Statement::End,
    ];
    assert_eq!(host.feed(&mut shell, line), Request::Finished(Condition::NoOp));
    assert_eq!(host.out, "Y\n");
    assert_clean(&shell);
}

#[test]
fn match_falls_back_to_the_default_arm() {
    let mut shell = Shell::new();
    let mut host = Host::new();
    let line = vec![
        open_match("qux"),
        case(Some("bar")),
        run(&["echo", "X"]),
        case(None),
        run(&["echo", "Z"]),
        case(Some("qux")),
        run(&["echo", "late"]),
        Statement::End,
    ];
    host.feed(&mut shell, line);
    assert_eq!(host.out, "Z\n");
}

#[test]
fn match_without_a_matching_arm_does_nothing() {
    let mut shell = Shell::new();
    let mut host = Host::new();
    let first = shell.execute_match(
        "foo".to_string(),
        vec![
            Case { value: Some("bar".to_string()), statements: vec![run(&["echo", "X"])] },
            Case { value: Some("baz qux".to_string()), statements: vec![run(&["echo", "Y"])] },
        ],
    );
    assert_eq!(host.drive(&mut shell, first), Request::Finished(Condition::NoOp));
    assert_eq!(host.out, "");
    assert_eq!(host.pipelines_run, 0);
}

#[test]
fn match_compares_every_word_of_pattern_and_value() {
    let mut shell = Shell::new();
    let mut host = Host::new();
    let first = shell.execute_match(
        "a b".to_string(),
        vec![
            Case { value: Some("c d".to_string()), statements: vec![run(&["echo", "no"])] },
            Case { value: Some("c b".to_string()), statements: vec![run(&["echo", "yes"])] },
        ],
    );
    assert_eq!(host.drive(&mut shell, first), Request::Finished(Condition::NoOp));
    assert_eq!(host.out, "yes\n");
}

#[test]
fn break_leaves_the_loop_from_inside_an_if() {
    let mut shell = Shell::new();
    let mut host = Host::new();
    let line = vec![
        open_for("i", &["1..5"]),
        open_if(&["test", "$i", "-eq", "3"]),
        Statement::Break,
        Statement::End,
        run(&["echo", "$i"]),
        Statement::End,
    ];
    assert_eq!(host.feed(&mut shell, line), Request::Finished(Condition::NoOp));
    assert_eq!(host.out, "1\n2\n");
    assert_clean(&shell);
}

#[test]
fn continue_skips_the_rest_of_the_round() {
    let mut shell = Shell::new();
    let mut host = Host::new();
    let line = vec![
        open_for("i", &["1..5"]),
        open_if(&["test", "$i", "-eq", "3"]),
        Statement::Continue,
        Statement::End,
        run(&["echo", "$i"]),
        Statement::End,
    ];
    assert_eq!(host.feed(&mut shell, line), Request::Finished(Condition::NoOp));
    assert_eq!(host.out, "1\n2\n4\n");
}

#[test]
fn a_loop_turns_break_into_no_op() {
    let mut shell = Shell::new();
    let mut host = Host::new();
    let first = shell.execute_while(pipeline(&["true"]), vec![run(&["echo", "once"]), Statement::Break]);
    assert_eq!(host.drive(&mut shell, first), Request::Finished(Condition::NoOp));
    assert_eq!(host.out, "once\n");
    let first = shell.execute_for("x".to_string(), words(&["a", "b"]), vec![Statement::Break]);
    assert_eq!(host.drive(&mut shell, first), Request::Finished(Condition::NoOp));
    let first = shell.execute_for("x".to_string(), words(&["a", "b"]), vec![Statement::Continue]);
    assert_eq!(host.drive(&mut shell, first), Request::Finished(Condition::NoOp));
}

#[test]
fn a_body_hands_break_and_continue_upwards() {
    let mut shell = Shell::new();
    let mut host = Host::new();
    let first = shell.execute_statements(vec![run(&["echo", "a"]), Statement::Break, run(&["echo", "b"])]);
    assert_eq!(host.drive(&mut shell, first), Request::Finished(Condition::Break));
    let first = shell.execute_statements(vec![Statement::Continue, run(&["echo", "c"])]);
    assert_eq!(host.drive(&mut shell, first), Request::Finished(Condition::Continue));
    assert_eq!(host.out, "a\n");
    let first = shell.execute_if(pipeline(&["true"]), vec![Statement::Break], Vec::new(), Vec::new());
    assert_eq!(host.drive(&mut shell, first), Request::Finished(Condition::Break));
}

#[test]
fn an_empty_body_is_a_no_op() {
    let mut shell = Shell::new();
    let mut host = Host::new();
    let first = shell.execute_statements(Vec::new());
    assert_eq!(first, Request::Proceed);
    assert_eq!(host.drive(&mut shell, first), Request::Finished(Condition::NoOp));
    assert_eq!(host.pipelines_run, 0);
    assert_clean(&shell);
}

#[test]
fn markers_in_a_body_are_skipped() {
    let mut shell = Shell::new();
    let mut host = Host::new();
    let first = shell.execute_statements(vec![
        Statement::Default,
        Statement::Else,
        Statement::End,
        case(None),
        run(&["echo", "ok"]),
    ]);
    assert_eq!(host.drive(&mut shell, first), Request::Finished(Condition::NoOp));
    assert_eq!(host.out, "ok\n");
    assert!(host.diagnostics.is_empty());
}

#[test]
fn nested_loops_inside_a_body() {
    let mut shell = Shell::new();
    let mut host = Host::new();
    let line = vec![
        open_for("i", &["1..3"]),
        open_for("j", &["a", "b"]),
        run(&["echo", "$i", "$j"]),
        Statement::End,
        run(&["echo", "-"]),
        Statement::End,
        run(&["echo", "done"]),
    ];
    assert_eq!(host.feed(&mut shell, line), Request::Finished(Condition::NoOp));
    assert_eq!(host.out, "1 a\n1 b\n-\n2 a\n2 b\n-\ndone\n");
    assert_clean(&shell);
}

#[test]
fn a_signal_interrupts_the_body() {
    let mut shell = Shell::new();
    let mut host = Host::new();
    host.signals.push_back(2);
    let first = shell.execute_statements(vec![run(&["echo", "a"]), run(&["echo", "b"])]);
    assert_eq!(host.drive(&mut shell, first), Request::Finished(Condition::SigInt));
    assert_eq!(host.out, "a\n");
}

#[test]
fn a_signal_unwinds_every_loop() {
    let mut shell = Shell::new();
    let mut host = Host::new();
    host.signals.push_back(2);
    let first = shell.execute_while(
        pipeline(&["true"]),
        vec![
            open_for("i", &["1..4"]),
            open_if(&["true"]),
            run(&["echo", "$i"]),
            Statement::End,
            Statement::End,
        ],
    );
    assert_eq!(host.drive(&mut shell, first), Request::Finished(Condition::SigInt));
    assert_eq!(host.out, "1\n");
    assert_eq!(shell.control.depth(), 0);
}

#[test]
fn a_fatal_signal_ends_the_shell() {
    let mut shell = Shell::new();
    let mut host = Host::new();
    host.signals.push_back(15);
    host.fatal_signals = true;
    let first = shell.execute_statements(vec![run(&["echo", "a"]), run(&["echo", "b"])]);
    assert_eq!(host.drive(&mut shell, first), Request::ExitOnSignal(15));
    assert_eq!(host.out, "a\n");
    assert_eq!(shell.control.depth(), 0);
}

#[test]
fn break_flow_interrupts_once() {
    let mut shell = Shell::new();
    let mut host = Host::new();
    let first = shell.execute_statements(vec![run(&["echo", "a"]), run(&["echo", "b"])]);
    shell.break_flow = true;
    assert_eq!(host.drive(&mut shell, first), Request::Finished(Condition::SigInt));
    assert_eq!(host.out, "a\n");
    assert!(!shell.break_flow);
    let first = shell.execute_statements(vec![run(&["echo", "c"])]);
    assert_eq!(host.drive(&mut shell, first), Request::Finished(Condition::NoOp));
    assert_eq!(host.out, "a\nc\n");
}

#[test]
fn on_command_clears_break_flow() {
    let mut shell = Shell::new();
    let mut host = Host::new();
    shell.break_flow = true;
    let line = vec![open_for("_", &["0..2"]), run(&["echo", "x"]), Statement::End];
    assert_eq!(host.feed(&mut shell, line), Request::Finished(Condition::NoOp));
    assert_eq!(host.out, "x\nx\n");
    assert!(!shell.break_flow);
}

#[test]
fn the_status_is_that_of_the_last_pipeline_or_binding() {
    let mut shell = Shell::new();
    let mut host = Host::new();
    host.feed(&mut shell, vec![run(&["fail", "3"])]);
    assert_eq!(shell.previous_status, 3);
    host.feed(&mut shell, vec![Statement::Error(9)]);
    assert_eq!(shell.previous_status, 9);
    host.feed(&mut shell, vec![Statement::Let { expression: "a = 1".to_string() }]);
    assert_eq!(shell.previous_status, 0);
    host.feed(&mut shell, vec![Statement::Export("broken".to_string())]);
    assert_eq!(shell.previous_status, 1);
    host.feed(&mut shell, vec![run(&["fail", "4"]), run(&["true"]), run(&["fail", "6"])]);
    assert_eq!(shell.previous_status, 6);
    host.feed(&mut shell, vec![run(&["unknown-command"])]);
    assert_eq!(shell.previous_status, 6);
    let first = shell.execute_statements(vec![Statement::Error(5), run(&["fail", "2"])]);
    host.drive(&mut shell, first);
    assert_eq!(shell.previous_status, 2);
}

#[test]
fn err_exit_ends_the_shell_on_a_failing_pipeline() {
    let mut shell = Shell::new();
    let mut host = Host::new();
    shell.flags = ERR_EXIT;
    let line = vec![run(&["echo", "a"]), run(&["fail", "3"]), run(&["echo", "b"])];
    assert_eq!(host.feed(&mut shell, line), Request::Exit(3));
    assert_eq!(host.out, "a\n");
    assert_eq!(shell.control.depth(), 0);
    let mut host = Host::new();
    let line = vec![open_for("_", &["0..3"]), run(&["fail", "4"]), run(&["echo", "b"]), Statement::End];
    assert_eq!(host.feed(&mut shell, line), Request::Exit(4));
    assert_eq!(host.out, "");
    assert_eq!(host.pipelines_run, 1);
}

#[test]
fn err_exit_leaves_conditions_alone() {
    let mut shell = Shell::new();
    let mut host = Host::new();
    shell.flags = ERR_EXIT;
    let line = vec![
        open_if(&["false"]),
        run(&["echo", "A"]),
        Statement::Else,
        run(&["echo", "B"]),
        Statement::End,
        open_while(&["false"]),
        Statement::End,
    ];
    assert_eq!(host.feed(&mut shell, line), Request::Finished(Condition::NoOp));
    assert_eq!(host.out, "B\n");
}

#[test]
fn without_err_exit_a_failing_pipeline_goes_on() {
    let mut shell = Shell::new();
    let mut host = Host::new();
    shell.flags = 2;
    let line = vec![run(&["fail", "3"]), run(&["echo", "b"])];
    assert_eq!(host.feed(&mut shell, line), Request::Finished(Condition::NoOp));
    assert_eq!(host.out, "b\n");
}

#[test]
fn stray_markers_at_top_level_are_reported() {
    let mut shell = Shell::new();
    let mut host = Host::new();
    let line = vec![
        Statement::Else,
        run(&["echo", "a"]),
        Statement::End,
        open_else_if(&["true"]),
        Statement::Break,
        Statement::Continue,
        case(None),
        Statement::Default,
        run(&["echo", "b"]),
    ];
    assert_eq!(host.feed(&mut shell, line), Request::Finished(Condition::NoOp));
    assert_eq!(host.out, "a\nb\n");
    assert_eq!(
        host.diagnostics,
        vec![
            "ion: syntax error: not an if statement".to_string(),
            "ion: syntax error: no block to end".to_string(),
            "ion: syntax error: not an if statement".to_string(),
        ]
    );
    assert_clean(&shell);
}

#[test]
fn else_if_after_else_is_a_structural_error() {
    let mut shell = Shell::new();
    let mut host = Host::new();
    let line = vec![
        run(&["echo", "before"]),
        open_if(&["true"]),
        run(&["echo", "A"]),
        Statement::Else,
        run(&["echo", "B"]),
        open_else_if(&["true"]),
        run(&["echo", "C"]),
        Statement::End,
        run(&["echo", "after"]),
    ];
    assert_eq!(host.feed(&mut shell, line), Request::Finished(Condition::NoOp));
    assert_eq!(host.out, "before\n");
    assert_eq!(host.diagnostics, vec!["ion: syntax error: else block already given".to_string()]);
    assert_clean(&shell);
    assert_eq!(host.feed(&mut shell, vec![run(&["echo", "next"])]), Request::Finished(Condition::NoOp));
    assert_eq!(host.out, "before\nnext\n");
}

#[test]
fn else_after_else_across_lines_resets_the_accumulator() {
    let mut shell = Shell::new();
    let mut host = Host::new();
    host.feed(&mut shell, vec![open_if(&["true"]), run(&["echo", "A"]), Statement::Else]);
    assert_eq!(shell.flow_control.level, 1);
    assert_eq!(shell.flow_control.current_if_mode, IfMode::Failure);
    assert_eq!(shell.flow_control.current_if_mode.code(), 3);
    host.feed(&mut shell, vec![run(&["echo", "B"]), Statement::Else, run(&["echo", "C"]), Statement::End]);
    assert_eq!(host.diagnostics, vec![SyntaxError::ElseBlockAlreadyGiven.message()]);
    assert_eq!(host.out, "");
    assert_clean(&shell);
}

#[test]
fn a_structural_error_inside_a_body_breaks_out() {
    let mut shell = Shell::new();
    let mut host = Host::new();
    let first = shell.execute_statements(vec![
        run(&["echo", "a"]),
        open_if(&["true"]),
        Statement::Else,
        Statement::Else,
        Statement::End,
        run(&["echo", "b"]),
    ]);
    assert_eq!(host.drive(&mut shell, first), Request::Finished(Condition::Break));
    assert_eq!(host.out, "a\n");
    assert_eq!(host.diagnostics, vec!["ion: syntax error: else block already given".to_string()]);
    assert_eq!(shell.flow_control.level, 0);
    let first = shell.execute_statements(vec![open_match("x"), run(&["echo", "stray"]), Statement::End]);
    assert_eq!(host.drive(&mut shell, first), Request::Finished(Condition::Break));
    assert_eq!(host.diagnostics.len(), 2);
    assert_eq!(host.diagnostics[1], "ion: syntax error: statement outside of a case block");
}

#[test]
fn a_statement_before_the_first_case_is_reported_and_the_line_goes_on() {
    let mut shell = Shell::new();
    let mut host = Host::new();
    let line = vec![open_match("x"), run(&["echo", "stray"]), case(None), Statement::End, run(&["echo", "z"])];
    assert_eq!(host.feed(&mut shell, line), Request::Finished(Condition::NoOp));
    assert_eq!(
        host.diagnostics,
        vec![SyntaxError::OutsideCase.message(), SyntaxError::NoBlockToEnd.message()]
    );
    assert_eq!(host.out, "z\n");
    assert_eq!(shell.flow_control.level, 1);
    assert_eq!(shell.flow_control.current_statement, open_match("x"));
    assert_eq!(shell.control.depth(), 0);
    let line = vec![case(Some("x")), run(&["echo", "in"]), Statement::End, run(&["echo", "after"])];
    assert_eq!(host.feed(&mut shell, line), Request::Finished(Condition::NoOp));
    assert_eq!(host.out, "z\nin\nafter\n");
    assert_clean(&shell);
}

#[test]
fn a_stray_statement_fed_to_a_pending_match_is_reported_and_its_line_dropped() {
    let mut shell = Shell::new();
    let mut host = Host::new();
    host.feed(&mut shell, vec![open_match("y")]);
    assert_eq!(shell.flow_control.level, 1);
    let line = vec![run(&["echo", "stray"]), run(&["echo", "dropped"]), case(None)];
    assert_eq!(host.feed(&mut shell, line), Request::Finished(Condition::NoOp));
    assert_eq!(host.diagnostics, vec![SyntaxError::OutsideCase.message()]);
    assert_eq!(host.out, "");
    assert_eq!(shell.flow_control.level, 1);
    assert_eq!(shell.flow_control.current_statement, open_match("y"));
    let line = vec![case(None), run(&["echo", "d"]), Statement::End];
    assert_eq!(host.feed(&mut shell, line), Request::Finished(Condition::NoOp));
    assert_eq!(host.out, "d\n");
    assert_clean(&shell);
}

#[test]
fn execute_toplevel_reports_a_stray_statement_without_an_error() {
    let mut shell = Shell::new();
    let rest = VecDeque::from(vec![run(&["echo", "stray"]), run(&["echo", "next"])]);
    assert_eq!(
        shell.execute_toplevel(rest, open_match("x")),
        Ok(Request::Diagnostic(SyntaxError::OutsideCase))
    );
    assert_eq!(shell.flow_control.level, 1);
    assert_eq!(shell.flow_control.current_statement, open_match("x"));
    assert_eq!(shell.control.depth(), 1);
    assert_eq!(shell.step(Reply::Proceed), Request::RunPipeline(pipeline(&["echo", "next"])));
}

#[test]
fn one_line_and_many_lines_end_in_the_same_state() {
    let block = || {
        vec![
            open_if(&["false"]),
            run(&["echo", "A"]),
            open_while(&["false"]),
            run(&["echo", "never"]),
            Statement::End,
            open_else_if(&["true"]),
            open_for("i", &["1..3"]),
            run(&["echo", "$i"]),
            Statement::End,
            Statement::Else,
            run(&["echo", "C"]),
            Statement::End,
        ]
    };
    let mut whole = Shell::new();
    let mut whole_host = Host::new();
    assert_eq!(whole_host.feed(&mut whole, block()), Request::Finished(Condition::NoOp));
    assert_eq!(whole_host.out, "1\n2\n");
    for cut in 1..block().len() {
        let mut shell = Shell::new();
        let mut host = Host::new();
        let mut first = block();
        let second = first.split_off(cut);
        assert_eq!(host.feed(&mut shell, first), Request::Finished(Condition::NoOp));
        assert!(shell.flow_control.level > 0);
        assert_eq!(host.out, "");
        assert_eq!(host.feed(&mut shell, second), Request::Finished(Condition::NoOp));
        assert_eq!(host.out, whole_host.out);
        assert_eq!(shell.previous_status, whole.previous_status);
        assert_eq!(shell.flow_control.level, whole.flow_control.level);
        assert_eq!(shell.flow_control.current_statement, whole.flow_control.current_statement);
        assert_eq!(shell.flow_control.current_if_mode, whole.flow_control.current_if_mode);
        assert_eq!(host.vars, whole_host.vars);
    }
    let mut shell = Shell::new();
    let mut host = Host::new();
    for statement in block() {
        assert_eq!(host.feed(&mut shell, vec![statement]), Request::Finished(Condition::NoOp));
    }
    assert_eq!(host.out, whole_host.out);
    assert_clean(&shell);
}

#[test]
fn the_level_follows_the_open_blocks() {
    let mut shell = Shell::new();
    let mut host = Host::new();
    host.feed(&mut shell, vec![open_for("i", &["0..2"]), open_if(&["true"])]);
    assert_eq!(shell.flow_control.level, 2);
    host.feed(&mut shell, vec![open_while(&["false"]), run(&["echo", "w"])]);
    assert_eq!(shell.flow_control.level, 3);
    host.feed(&mut shell, vec![Statement::End]);
    assert_eq!(shell.flow_control.level, 2);
    host.feed(&mut shell, vec![Statement::Else, run(&["echo", "e"]), Statement::End]);
    assert_eq!(shell.flow_control.level, 1);
    match &shell.flow_control.current_statement {
        Statement::For { statements, .. } => assert_eq!(statements.len(), 7),
        other => panic!("unexpected pending statement {:?}", other),
    }
    assert_eq!(host.out, "");
    host.feed(&mut shell, vec![run(&["echo", "$i"]), Statement::End, run(&["echo", "tail"])]);
    assert_eq!(host.out, "0\n1\ntail\n");
    assert_clean(&shell);
}

#[test]
fn statements_after_the_closing_end_run_afterwards() {
    let mut shell = Shell::new();
    let mut host = Host::new();
    host.feed(&mut shell, vec![run(&["echo", "first"]), open_for("i", &["1..2"])]);
    assert_eq!(host.out, "first\n");
    assert_eq!(shell.flow_control.level, 1);
    host.feed(
        &mut shell,
        vec![run(&["echo", "$i"]), Statement::End, run(&["echo", "last"]), open_while(&["false"])],
    );
    assert_eq!(host.out, "first\n1\nlast\n");
    assert_eq!(shell.flow_control.level, 1);
    host.feed(&mut shell, vec![Statement::End]);
    assert_clean(&shell);
}

#[test]
fn a_function_is_declared_when_its_block_closes() {
    let mut shell = Shell::new();
    let mut host = Host::new();
    host.feed(&mut shell, vec![open_function("greet"), run(&["echo", "hi"])]);
    assert_eq!(shell.flow_control.level, 1);
    assert!(shell.functions.get(&"greet".to_string()).is_none());
    host.feed(&mut shell, vec![Statement::End, run(&["echo", "after"])]);
    assert_clean(&shell);
    assert_eq!(host.out, "after\n");
    let declared = shell.functions.get(&"greet".to_string()).unwrap();
    assert_eq!(declared.name, "greet");
    assert_eq!(declared.statements, vec![run(&["echo", "hi"])]);
}

#[test]
fn a_function_declared_again_resolves_to_the_second_body() {
    let mut shell = Shell::new();
    let mut host = Host::new();
    host.feed(&mut shell, vec![open_function("f"), run(&["echo", "one"]), Statement::End]);
    host.feed(&mut shell, vec![open_function("g"), run(&["echo", "other"]), Statement::End]);
    host.feed(&mut shell, vec![open_function("f"), run(&["echo", "two"]), Statement::End]);
    assert_eq!(shell.functions.get(&"f".to_string()).unwrap().statements, vec![run(&["echo", "two"])]);
    assert_eq!(shell.functions.get(&"g".to_string()).unwrap().statements, vec![run(&["echo", "other"])]);
    assert!(shell.functions.get(&"h".to_string()).is_none());
    let first = shell.execute_statements(vec![open_function("g"), Statement::Break, Statement::End, run(&["echo", "x"])]);
    assert_eq!(host.drive(&mut shell, first), Request::Finished(Condition::NoOp));
    assert_eq!(shell.functions.get(&"g".to_string()).unwrap().statements, vec![Statement::Break]);
    assert_eq!(host.out, "x\n");
}

#[test]
fn an_answer_of_the_wrong_kind_changes_nothing() {
    let mut shell = Shell::new();
    let first = shell.execute_statements(vec![run(&["echo", "a"])]);
    assert_eq!(first, Request::Proceed);
    assert_eq!(shell.step(Reply::Status(Some(0))), Request::Unexpected);
    assert_eq!(shell.step(Reply::Proceed), Request::RunPipeline(pipeline(&["echo", "a"])));
    assert!(!shell.accepts(&Reply::Proceed));
    assert!(shell.accepts(&Reply::Status(None)));
    assert_eq!(shell.step(Reply::Proceed), Request::Unexpected);
    assert_eq!(shell.step(Reply::Code(0)), Request::Unexpected);
    assert_eq!(shell.step(Reply::Status(Some(0))), Request::NextSignal);
    assert_eq!(shell.step(Reply::Handled(true)), Request::Unexpected);
    assert_eq!(shell.step(Reply::Signal(Some(2))), Request::HandleSignal(2));
    assert_eq!(shell.step(Reply::Handled(false)), Request::Proceed);
    assert_eq!(shell.control.returning(), Some(Condition::SigInt));
    assert_eq!(shell.on_command(vec![run(&["echo", "b"])]), Request::Unexpected);
    assert_eq!(shell.execute_statements(Vec::new()), Request::Unexpected);
    assert_eq!(shell.step(Reply::Proceed), Request::Finished(Condition::SigInt));
    assert_eq!(shell.step(Reply::Proceed), Request::Idle);
    assert_eq!(shell.step(Reply::Words(Vec::new())), Request::Unexpected);
}

#[test]
fn the_requests_of_a_for_loop_in_order() {
    let mut shell = Shell::new();
    let first = shell.execute_for("v".to_string(), words(&["$list"]), vec![run(&["use", "$v"])]);
    assert_eq!(first, Request::Proceed);
    assert_eq!(shell.step(Reply::Proceed), Request::ResolveFor(words(&["$list"])));
    assert_eq!(shell.step(Reply::Values(ForExpression::Multiple(words(&["p", "q"])))), Request::Proceed);
    assert_eq!(
        shell.step(Reply::Proceed),
        Request::SetVar { name: "v".to_string(), value: "p".to_string() }
    );
    assert_eq!(shell.step(Reply::Proceed), Request::Proceed);
    assert_eq!(shell.control.depth(), 2);
    assert_eq!(shell.step(Reply::Proceed), Request::RunPipeline(pipeline(&["use", "$v"])));
    assert_eq!(shell.step(Reply::Status(Some(1))), Request::NextSignal);
    assert_eq!(shell.previous_status, 1);
    assert_eq!(shell.step(Reply::Signal(None)), Request::Proceed);
    assert_eq!(shell.step(Reply::Proceed), Request::Proceed);
    assert_eq!(shell.step(Reply::Proceed), Request::Proceed);
    assert_eq!(
        shell.step(Reply::Proceed),
        Request::SetVar { name: "v".to_string(), value: "q".to_string() }
    );
}

#[test]
fn a_construct_started_while_another_waits_reports_to_the_shell() {
    let mut shell = Shell::new();
    let mut host = Host::new();
    let first = shell.execute_statements(vec![run(&["call"]), run(&["echo", "outer"])]);
    assert_eq!(first, Request::Proceed);
    assert_eq!(shell.step(Reply::Proceed), Request::RunPipeline(pipeline(&["call"])));
    let inner = shell.execute_statements(vec![run(&["echo", "inner"]), Statement::Break]);
    assert_eq!(host.drive(&mut shell, inner), Request::Finished(Condition::Break));
    assert_eq!(shell.control.depth(), 1);
    let next = shell.step(Reply::Status(Some(0)));
    assert_eq!(host.drive(&mut shell, next), Request::Finished(Condition::NoOp));
    assert_eq!(host.out, "inner\nouter\n");
}

#[test]
fn err_exit_comes_before_a_pending_signal() {
    let mut shell = Shell::new();
    let mut host = Host::new();
    shell.flags = ERR_EXIT;
    host.signals.push_back(2);
    let first = shell.execute_statements(vec![run(&["fail", "5"]), run(&["echo", "b"])]);
    assert_eq!(host.drive(&mut shell, first), Request::Exit(5));
    assert_eq!(host.signals.len(), 1);
    assert_eq!(host.out, "");
}

#[test]
fn a_signal_at_top_level_is_left_in_the_queue() {
    let mut shell = Shell::new();
    let mut host = Host::new();
    host.signals.push_back(2);
    let line = vec![run(&["echo", "a"]), run(&["echo", "b"])];
    assert_eq!(host.feed(&mut shell, line), Request::Finished(Condition::NoOp));
    assert_eq!(host.out, "a\nb\n");
    assert_eq!(host.signals.len(), 1);
}

#[test]
fn an_interrupted_loop_does_not_stop_the_rest_of_the_line() {
    let mut shell = Shell::new();
    let mut host = Host::new();
    host.signals.push_back(2);
    let line = vec![
        open_while(&["true"]),
        run(&["echo", "in"]),
        Statement::End,
        run(&["echo", "after"]),
    ];
    assert_eq!(host.feed(&mut shell, line), Request::Finished(Condition::NoOp));
    assert_eq!(host.out, "in\nafter\n");
    let mut host = Host::new();
    host.signals.push_back(2);
    host.feed(&mut shell, vec![open_while(&["true"]), run(&["echo", "in"])]);
    host.feed(&mut shell, vec![Statement::End, run(&["echo", "after"])]);
    assert_eq!(host.out, "in\nafter\n");
    assert_clean(&shell);
}

#[test]
fn a_line_fed_while_a_statement_that_is_no_block_is_pending_is_dropped() {
    let mut shell = Shell::new();
    let mut host = Host::new();
    shell.flow_control.level = 2;
    shell.flow_control.current_statement = Statement::Break;
    assert_eq!(host.feed(&mut shell, vec![run(&["echo", "a"])]), Request::Finished(Condition::NoOp));
    assert_eq!(host.out, "");
    assert_eq!(shell.flow_control.level, 2);
}

#[test]
fn a_filled_block_in_a_line_is_kept_and_extended() {
    let mut shell = Shell::new();
    let mut host = Host::new();
    let line = vec![
        Statement::For {
            variable: "i".to_string(),
            values: words(&["1..3"]),
            statements: vec![run(&["echo", "first", "$i"])],
        },
        run(&["echo", "second", "$i"]),
        Statement::End,
    ];
    assert_eq!(host.feed(&mut shell, line), Request::Finished(Condition::NoOp));
    assert_eq!(host.out, "first 1\nsecond 1\nfirst 2\nsecond 2\n");
}

#[test]
fn execute_toplevel_runs_one_statement_of_a_line() {
    let mut shell = Shell::new();
    let mut host = Host::new();
    let rest = VecDeque::from(vec![run(&["echo", "$i"]), Statement::End, run(&["echo", "tail"])]);
    let first = shell.execute_toplevel(rest, open_for("i", &["1..3"]));
    assert_eq!(first, Ok(Request::Proceed));
    assert_eq!(shell.control.depth(), 2);
    assert_eq!(host.drive(&mut shell, first.unwrap()), Request::Finished(Condition::NoOp));
    assert_eq!(host.out, "1\n2\ntail\n");
    assert_clean(&shell);
}

#[test]
fn execute_toplevel_keeps_an_open_statement_pending() {
    let mut shell = Shell::new();
    let rest = VecDeque::from(vec![run(&["echo", "a"]), Statement::Else, open_while(&["true"])]);
    assert_eq!(shell.execute_toplevel(rest, open_if(&["true"])), Ok(Request::Proceed));
    assert_eq!(shell.flow_control.level, 2);
    assert_eq!(shell.flow_control.current_if_mode, IfMode::Failure);
    assert_eq!(
        shell.flow_control.current_statement,
        Statement::If {
            expression: pipeline(&["true"]),
            success: vec![run(&["echo", "a"])],
            else_if: Vec::new(),
            failure: vec![open_while(&["true"])],
        }
    );
    assert_eq!(shell.control.depth(), 1);
}

#[test]
fn execute_toplevel_returns_the_structural_error() {
    let mut shell = Shell::new();
    let rest = VecDeque::from(vec![Statement::Else, Statement::Else, Statement::End]);
    assert_eq!(
        shell.execute_toplevel(rest, open_if(&["true"])),
        Err(SyntaxError::ElseBlockAlreadyGiven)
    );
    assert_eq!(shell.control.depth(), 0);
    assert_eq!(shell.flow_control.level, 1);
    let rest = VecDeque::from(vec![run(&["echo", "a"])]);
    assert_eq!(
        shell.execute_toplevel(rest, Statement::End),
        Ok(Request::Diagnostic(SyntaxError::NoBlockToEnd))
    );
    assert_eq!(
        shell.execute_toplevel(VecDeque::new(), Statement::Let { expression: "a = b".to_string() }),
        Ok(Request::Local("a = b".to_string()))
    );
}

#[test]
fn the_machine_tells_what_it_waits_for() {
    let mut shell = Shell::new();
    assert_eq!(shell.previous_status, SUCCESS);
    assert_eq!(shell.control.awaits(), Awaited::Proceed);
    let first = shell.execute_match("x".to_string(), vec![Case { value: Some("y".to_string()), statements: Vec::new() }]);
    assert_eq!(first, Request::Proceed);
    assert_eq!(shell.step(Reply::Proceed), Request::Expand("x".to_string()));
    assert_eq!(shell.control.awaits(), Awaited::Words);
    assert_eq!(shell.step(Reply::Words(words(&["x"]))), Request::Proceed);
    assert_eq!(shell.step(Reply::Proceed), Request::Expand("y".to_string()));
    assert_eq!(shell.step(Reply::Words(words(&["y"]))), Request::Proceed);
    assert_eq!(shell.step(Reply::Proceed), Request::Proceed);
    assert_eq!(shell.control.returning(), Some(Condition::NoOp));
    assert_eq!(shell.step(Reply::Proceed), Request::Finished(Condition::NoOp));
    let first = shell.execute_while(pipeline(&["true"]), Vec::new());
    assert_eq!(first, Request::Proceed);
    assert_eq!(shell.step(Reply::Proceed), Request::RunPipeline(pipeline(&["true"])));
    assert_eq!(shell.control.awaits(), Awaited::Status);
    assert_eq!(shell.step(Reply::Status(None)), Request::Proceed);
    assert_eq!(shell.step(Reply::Proceed), Request::Finished(Condition::NoOp));
    let first = shell.execute_statements(vec![Statement::Let { expression: "a = b".to_string() }]);
    assert_eq!(first, Request::Proceed);
    assert_eq!(shell.step(Reply::Proceed), Request::Local("a = b".to_string()));
    assert_eq!(shell.control.awaits(), Awaited::Code);
    assert_eq!(shell.step(Reply::Code(4)), Request::NextSignal);
    assert_eq!(shell.control.awaits(), Awaited::Signal);
    assert_eq!(shell.step(Reply::Signal(Some(9))), Request::HandleSignal(9));
    assert_eq!(shell.control.awaits(), Awaited::Handled);
    assert_eq!(shell.previous_status, 4);
}

#[test]
fn a_block_after_a_stray_statement_takes_the_place_of_the_pending_match() {
    let mut shell = Shell::new();
    let mut host = Host::new();
    let line = vec![open_match("x"), run(&["echo", "stray"]), open_while(&["true"]), Statement::End];
    assert_eq!(host.feed(&mut shell, line), Request::Finished(Condition::NoOp));
    assert_eq!(host.diagnostics, vec![SyntaxError::OutsideCase.message()]);
    assert_eq!(host.out, "");
    assert_eq!(shell.flow_control.level, 1);
    assert_eq!(
        shell.flow_control.current_statement,
        Statement::While { expression: pipeline(&["true"]), statements: vec![Statement::End] }
    );
}

#[test]
fn continue_in_a_while_loop_skips_the_body_in_every_round() {
    let mut shell = Shell::new();
    let mut host = Host::new();
    host.flag_checks_left = 3;
    let first = shell.execute_while(
        pipeline(&["test", "-f", "flag"]),
        vec![Statement::Continue, run(&["echo", "x"])],
    );
    assert_eq!(host.drive(&mut shell, first), Request::Finished(Condition::NoOp));
    assert_eq!(host.pipelines_run, 4);
    assert_eq!(host.out, "");
}

#[test]
fn the_error_mode_clears_the_accumulator_when_a_line_is_taken() {
    let mut shell = Shell::new();
    let mut host = Host::new();
    host.feed(&mut shell, vec![open_while(&["true"]), run(&["echo", "in"])]);
    assert_eq!(shell.flow_control.level, 1);
    shell.flow_control.current_if_mode = IfMode::Error;
    let line = vec![run(&["echo", "more"]), Statement::End, run(&["echo", "after"])];
    assert_eq!(host.feed(&mut shell, line), Request::Finished(Condition::NoOp));
    assert_eq!(host.out, "");
    assert!(host.diagnostics.is_empty());
    assert_clean(&shell);
}
