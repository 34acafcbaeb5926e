use ion_flow::ast::{
    Case, Condition, ElseIf, Function, Input, Job, JobKind, Pipeline, RedirectFrom, Redirection,
    Statement,
};
use ion_flow::flow_control::{
    collect_cases, collect_if, collect_loops, FlowControl, IfMode, SyntaxError,
};
use ion_flow::functions::FunctionTable;
use std::collections::VecDeque;

fn words(items: &[&str]) -> Vec<String> {
    items.iter().map(|s| s.to_string()).collect()
}

fn pipeline(items: &[&str]) -> Pipeline {
    Pipeline {
        jobs: vec![Job { command: items[0].to_string(), args: words(&items[1..]), kind: JobKind::Last }],
        stdout: None,
        stdin: None,
    }
}

fn run(name: &str) -> Statement {
    Statement::Pipeline(pipeline(&[name]))
}

fn open_while() -> Statement {
    Statement::While { expression: pipeline(&["true"]), statements: Vec::new() }
}

fn open_for() -> Statement {
    Statement::For { variable: "i".to_string(), values: words(&["1..3"]), statements: Vec::new() }
}

fn open_if() -> Statement {
    Statement::If {
        expression: pipeline(&["true"]),
        success: Vec::new(),
        else_if: Vec::new(),
        failure: Vec::new(),
    }
}

fn open_match() -> Statement {
    Statement::Match { expression: "x".to_string(), cases: Vec::new() }
}

fn open_function() -> Statement {
    Statement::Function {
        name: "f".to_string(),
        description: String::new(),
        args: Vec::new(),
        statements: Vec::new(),
    }
}

fn else_if(name: &str) -> Statement {
    Statement::ElseIf(ElseIf { expression: pipeline(&[name]), success: Vec::new() })
}

fn case(pattern: Option<&str>) -> Statement {
    Statement::Case(Case { value: pattern.map(|p| p.to_string()), statements: Vec::new() })
}

fn stream(items: Vec<Statement>) -> VecDeque<Statement> {
    VecDeque::from(items)
}

fn rest(stream: VecDeque<Statement>) -> Vec<Statement> {
    stream.into_iter().collect()
}

#[test]
fn collect_loops_stops_at_the_closing_end() {
    let mut input = stream(vec![run("a"), run("b"), Statement::End, run("c"), Statement::End]);
    let mut body = vec![run("z")];
    let mut level = 1;
    collect_loops(&mut input, &mut body, &mut level);
    assert_eq!(level, 0);
    assert_eq!(body, vec![run("z"), run("a"), run("b")]);
    assert_eq!(rest(input), vec![run("c"), Statement::End]);
}

#[test]
fn collect_loops_keeps_nested_blocks_whole() {
    let mut input = stream(vec![
        open_while(),
        open_if(),
        run("a"),
        Statement::Else,
        Statement::End,
        open_match(),
        open_function(),
        open_for(),
        Statement::End,
        Statement::End,
        Statement::End,
        Statement::End,
        run("b"),
        Statement::End,
        run("after"),
    ]);
    let mut body = Vec::new();
    let mut level = 1;
    collect_loops(&mut input, &mut body, &mut level);
    assert_eq!(level, 0);
    assert_eq!(body.len(), 13);
    assert_eq!(body[0], open_while());
    assert_eq!(body[3], Statement::Else);
    assert_eq!(body[11], Statement::End);
    assert_eq!(body[12], run("b"));
    assert_eq!(rest(input), vec![run("after")]);
}

#[test]
fn collect_loops_reports_the_open_blocks_when_the_stream_runs_out() {
    let mut input = stream(vec![run("a"), open_for(), open_if(), Statement::End, run("b")]);
    let mut body = Vec::new();
    let mut level = 1;
    collect_loops(&mut input, &mut body, &mut level);
    assert_eq!(level, 2);
    assert_eq!(body.len(), 5);
    assert!(input.is_empty());
    let mut more = stream(vec![Statement::End, run("c"), Statement::End, run("d")]);
    collect_loops(&mut more, &mut body, &mut level);
    assert_eq!(level, 0);
    assert_eq!(body.len(), 7);
    assert_eq!(body[5], Statement::End);
    assert_eq!(body[6], run("c"));
    assert_eq!(rest(more), vec![run("d")]);
}

#[test]
fn collect_loops_on_an_empty_stream_changes_nothing() {
    let mut input = stream(Vec::new());
    let mut body = vec![run("a")];
    let mut level = 3;
    collect_loops(&mut input, &mut body, &mut level);
    assert_eq!(level, 3);
    assert_eq!(body, vec![run("a")]);
}

#[test]
fn collect_loops_in_pieces_is_collect_loops_at_once() {
    let all = vec![run("a"), open_while(), run("b"), Statement::End, Statement::Break, Statement::End, run("c")];
    let mut whole_input = stream(all.clone());
    let mut whole_body = Vec::new();
    let mut whole_level = 1;
    collect_loops(&mut whole_input, &mut whole_body, &mut whole_level);
    for cut in 0..6 {
        let mut first = stream(all[..cut].to_vec());
        let mut second = stream(all[cut..].to_vec());
        let mut body = Vec::new();
        let mut level = 1;
        collect_loops(&mut first, &mut body, &mut level);
        assert!(level > 0);
        assert!(first.is_empty());
        collect_loops(&mut second, &mut body, &mut level);
        assert_eq!(level, whole_level);
        assert_eq!(body, whole_body);
        assert_eq!(second, whole_input);
    }
}

#[test]
fn collect_if_routes_statements_to_the_parts() {
    let mut input = stream(vec![
        run("s1"),
        open_while(),
        Statement::Else,
        Statement::End,
        else_if("c1"),
        run("e1"),
        else_if("c2"),
        run("e2"),
        run("e3"),
        Statement::Else,
        run("f1"),
        Statement::End,
        run("after"),
    ]);
    let mut success = Vec::new();
    let mut arms = Vec::new();
    let mut failure = Vec::new();
    let mut level = 1;
    let mode = collect_if(&mut input, &mut success, &mut arms, &mut failure, &mut level, IfMode::Success);
    assert_eq!(mode, Ok(IfMode::Failure));
    assert_eq!(level, 0);
    assert_eq!(success, vec![run("s1"), open_while(), Statement::Else, Statement::End]);
    assert_eq!(arms.len(), 2);
    assert_eq!(arms[0].expression, pipeline(&["c1"]));
    assert_eq!(arms[0].success, vec![run("e1")]);
    assert_eq!(arms[1].expression, pipeline(&["c2"]));
    assert_eq!(arms[1].success, vec![run("e2"), run("e3")]);
    assert_eq!(failure, vec![run("f1")]);
    assert_eq!(rest(input), vec![run("after")]);
}

#[test]
fn collect_if_reports_the_part_it_stopped_in() {
    let mut success = Vec::new();
    let mut arms = Vec::new();
    let mut failure = Vec::new();
    let mut level = 1;
    let mut input = stream(vec![run("a")]);
    let mode = collect_if(&mut input, &mut success, &mut arms, &mut failure, &mut level, IfMode::Success);
    assert_eq!(mode, Ok(IfMode::Success));
    assert_eq!(mode.unwrap().code(), 0);
    let mut input = stream(vec![else_if("c"), open_for()]);
    let mode = collect_if(&mut input, &mut success, &mut arms, &mut failure, &mut level, IfMode::Success);
    assert_eq!(mode, Ok(IfMode::ElseIfSuccess));
    assert_eq!(mode.unwrap().code(), 2);
    assert_eq!(level, 2);
    let mut input = stream(vec![Statement::Else, Statement::End, Statement::Else, run("f")]);
    let mode = collect_if(&mut input, &mut success, &mut arms, &mut failure, &mut level, IfMode::ElseIfSuccess);
    assert_eq!(mode, Ok(IfMode::Failure));
    assert_eq!(mode.unwrap().code(), 3);
    assert_eq!(level, 1);
    assert_eq!(success, vec![run("a")]);
    assert_eq!(arms[0].success, vec![open_for(), Statement::Else, Statement::End]);
    assert_eq!(failure, vec![run("f")]);
    assert_eq!(IfMode::ElseIfExpression.code(), 1);
    assert_eq!(IfMode::Error.code(), 4);
}

#[test]
fn collect_if_refuses_else_if_after_else() {
    let mut input = stream(vec![run("a"), Statement::Else, run("b"), else_if("c"), run("d"), Statement::End]);
    let mut success = Vec::new();
    let mut arms = Vec::new();
    let mut failure = Vec::new();
    let mut level = 1;
    let mode = collect_if(&mut input, &mut success, &mut arms, &mut failure, &mut level, IfMode::Success);
    assert_eq!(mode, Err(SyntaxError::ElseBlockAlreadyGiven));
    assert_eq!(rest(input), vec![run("d"), Statement::End]);
    assert_eq!(failure, vec![run("b")]);
    assert!(arms.is_empty());
}

#[test]
fn collect_if_refuses_a_second_else() {
    let mut input = stream(vec![Statement::Else, Statement::End]);
    let mut success = Vec::new();
    let mut arms = Vec::new();
    let mut failure = Vec::new();
    let mut level = 1;
    let mode = collect_if(&mut input, &mut success, &mut arms, &mut failure, &mut level, IfMode::Failure);
    assert_eq!(mode, Err(SyntaxError::ElseBlockAlreadyGiven));
    assert_eq!(level, 1);
}

#[test]
fn collect_if_accepts_else_inside_a_nested_block() {
    let mut input = stream(vec![
        Statement::Else,
        open_if(),
        Statement::Else,
        else_if("c"),
        Statement::End,
        Statement::End,
    ]);
    let mut success = Vec::new();
    let mut arms = Vec::new();
    let mut failure = Vec::new();
    let mut level = 1;
    let mode = collect_if(&mut input, &mut success, &mut arms, &mut failure, &mut level, IfMode::Success);
    assert_eq!(mode, Ok(IfMode::Failure));
    assert_eq!(level, 0);
    assert_eq!(failure, vec![open_if(), Statement::Else, else_if("c"), Statement::End]);
}

#[test]
fn collect_if_refuses_a_malformed_conditional() {
    let mut success = Vec::new();
    let mut arms = Vec::new();
    let mut failure = Vec::new();
    let mut level = 1;
    let mut input = stream(vec![run("a")]);
    let mode = collect_if(&mut input, &mut success, &mut arms, &mut failure, &mut level, IfMode::ElseIfSuccess);
    assert_eq!(mode, Err(SyntaxError::MalformedIf));
    let mut input = stream(vec![run("a")]);
    let mode = collect_if(&mut input, &mut success, &mut arms, &mut failure, &mut level, IfMode::Error);
    assert_eq!(mode, Err(SyntaxError::MalformedIf));
    let mut input = stream(vec![Statement::Else]);
    let mode = collect_if(&mut input, &mut success, &mut arms, &mut failure, &mut level, IfMode::ElseIfExpression);
    assert_eq!(mode, Err(SyntaxError::MalformedIf));
    assert!(success.is_empty() && arms.is_empty() && failure.is_empty());
    let mut input = stream(Vec::new());
    let mode = collect_if(&mut input, &mut success, &mut arms, &mut failure, &mut level, IfMode::Error);
    assert_eq!(mode, Ok(IfMode::Error));
}

#[test]
fn collect_cases_gathers_the_arms() {
    let mut input = stream(vec![
        case(Some("a")),
        run("x"),
        open_match(),
        case(Some("inner")),
        Statement::End,
        case(None),
        run("y"),
        Statement::End,
        run("after"),
    ]);
    let mut cases = Vec::new();
    let mut level = 1;
    assert_eq!(collect_cases(&mut input, &mut cases, &mut level), Ok(()));
    assert_eq!(level, 0);
    assert_eq!(cases.len(), 2);
    assert_eq!(cases[0].value, Some("a".to_string()));
    assert_eq!(cases[0].statements, vec![run("x"), open_match(), case(Some("inner")), Statement::End]);
    assert_eq!(cases[1].value, None);
    assert_eq!(cases[1].statements, vec![run("y")]);
    assert_eq!(rest(input), vec![run("after")]);
}

#[test]
fn collect_cases_refuses_a_statement_before_the_first_case() {
    let mut input = stream(vec![run("x"), case(None), Statement::End]);
    let mut cases = Vec::new();
    let mut level = 1;
    assert_eq!(collect_cases(&mut input, &mut cases, &mut level), Err(SyntaxError::OutsideCase));
    assert_eq!(level, 1);
    assert_eq!(rest(input), vec![case(None), Statement::End]);
    let mut input = stream(vec![open_while()]);
    assert_eq!(collect_cases(&mut input, &mut cases, &mut level), Err(SyntaxError::OutsideCase));
    assert_eq!(level, 1);
}

#[test]
fn collect_cases_goes_on_over_several_streams() {
    let mut cases = Vec::new();
    let mut level = 1;
    let mut input = stream(vec![case(Some("a")), open_for()]);
    assert_eq!(collect_cases(&mut input, &mut cases, &mut level), Ok(()));
    assert_eq!(level, 2);
    let mut input = stream(vec![Statement::End, case(Some("b"))]);
    assert_eq!(collect_cases(&mut input, &mut cases, &mut level), Ok(()));
    assert_eq!(level, 1);
    let mut input = stream(vec![Statement::End, run("after")]);
    assert_eq!(collect_cases(&mut input, &mut cases, &mut level), Ok(()));
    assert_eq!(level, 0);
    assert_eq!(cases.len(), 2);
    assert_eq!(cases[0].statements, vec![open_for(), Statement::End]);
    assert!(cases[1].statements.is_empty());
    assert_eq!(input.len(), 1);
}

#[test]
fn the_level_does_not_wrap() {
    let mut input = stream(vec![open_while(), open_if()]);
    let mut body = Vec::new();
    let mut level = usize::MAX - 1;
    collect_loops(&mut input, &mut body, &mut level);
    assert_eq!(level, usize::MAX);
    let mut input = stream(vec![Statement::End]);
    let mut level = 0;
    collect_loops(&mut input, &mut body, &mut level);
    assert_eq!(level, 0);
    assert_eq!(body.len(), 2);
}

#[test]
fn statements_know_whether_they_open_a_block() {
    assert!(open_while().opens());
    assert!(open_for().opens());
    assert!(open_if().opens());
    assert!(open_match().opens());
    assert!(open_function().opens());
    assert!(!Statement::End.opens());
    assert!(!Statement::Else.opens());
    assert!(!else_if("c").opens());
    assert!(!case(None).opens());
    assert!(!run("a").opens());
    assert!(!Statement::Default.opens());
    assert!(Statement::End.is_end());
    assert!(!Statement::Else.is_end());
}

#[test]
fn a_clone_is_equal_and_independent() {
    let nested = Statement::If {
        expression: pipeline(&["test", "a"]),
        success: vec![open_while(), run("x"), Statement::End],
        else_if: vec![ElseIf { expression: pipeline(&["c"]), success: vec![Statement::Let { expression: "a = b".to_string() }] }],
        failure: vec![Statement::Match {
            expression: "$x".to_string(),
            cases: vec![Case { value: None, statements: vec![Statement::Export("e".to_string()), Statement::Error(3)] }],
        }],
    };
    let mut copy = nested.clone();
    assert_eq!(copy, nested);
    if let Statement::If { success, .. } = &mut copy {
        success.push(Statement::Break);
    }
    assert_ne!(copy, nested);
    let function = Function {
        name: "f".to_string(),
        description: "d".to_string(),
        args: words(&["a", "b"]),
        statements: vec![nested.clone(), Statement::Continue, Statement::Default],
    };
    assert_eq!(function.clone(), function);
    assert_eq!(Condition::SigInt.clone(), Condition::SigInt);
    let redirected = Pipeline {
        jobs: vec![
            Job { command: "ls".to_string(), args: words(&["-l"]), kind: JobKind::Pipe(RedirectFrom::Both) },
            Job { command: "wc".to_string(), args: Vec::new(), kind: JobKind::Last },
        ],
        stdout: Some(Redirection { from: RedirectFrom::Stderr, file: "log".to_string(), append: true }),
        stdin: Some(Input::HereString("text".to_string())),
    };
    assert_eq!(redirected.clone(), redirected);
    let from_file = Pipeline { jobs: Vec::new(), stdout: None, stdin: Some(Input::File("in".to_string())) };
    assert_eq!(from_file.clone(), from_file);
    assert_ne!(from_file.clone(), redirected);
}

#[test]
fn a_new_accumulator_is_clean() {
    let mut flow = FlowControl::new();
    assert_eq!(flow.level, 0);
    assert_eq!(flow.current_statement, Statement::Default);
    assert_eq!(flow.current_if_mode, IfMode::Success);
    flow.level = 2;
    flow.current_statement = open_if();
    flow.current_if_mode = IfMode::Failure;
    flow.reset();
    assert_eq!(flow.level, 0);
    assert_eq!(flow.current_statement, Statement::Default);
    assert_eq!(flow.current_if_mode, IfMode::Success);
}

#[test]
fn the_table_keeps_one_function_per_name() {
    let function = |name: &str, body: &str| Function {
        name: name.to_string(),
        description: String::new(),
        args: Vec::new(),
        statements: vec![run(body)],
    };
    let mut table = FunctionTable::new();
    assert!(table.get(&"f".to_string()).is_none());
    table.insert(function("f", "one"));
    table.insert(function("g", "two"));
    table.insert(function("f", "three"));
    table.insert(function("h", "four"));
    table.insert(function("g", "five"));
    assert_eq!(table.get(&"f".to_string()), Some(&function("f", "three")));
    assert_eq!(table.get(&"g".to_string()), Some(&function("g", "five")));
    assert_eq!(table.get(&"h".to_string()), Some(&function("h", "four")));
    assert!(table.get(&"i".to_string()).is_none());
    assert!(table.get(&"".to_string()).is_none());
}

#[test]
fn a_pattern_matches_when_it_shares_a_word_with_the_value() {
    assert!(ion_flow::flow::matches(&words(&["a"]), &words(&["a"])));
    assert!(ion_flow::flow::matches(&words(&["x", "a"]), &words(&["b", "a", "c"])));
    assert!(!ion_flow::flow::matches(&words(&["x", "y"]), &words(&["b", "a", "c"])));
    assert!(!ion_flow::flow::matches(&words(&[]), &words(&["a"])));
    assert!(!ion_flow::flow::matches(&words(&["a"]), &words(&[])));
    assert!(!ion_flow::flow::matches(&words(&["ab"]), &words(&["a", "b"])));
}

#[test]
fn the_diagnostics_begin_with_the_shell_name() {
    for error in [
        SyntaxError::NotAnIfStatement,
        SyntaxError::NoBlockToEnd,
        SyntaxError::ElseBlockAlreadyGiven,
        SyntaxError::MalformedIf,
        SyntaxError::OutsideCase,
    ] {
        assert!(error.message().starts_with("ion: syntax error: "));
        assert!(!error.message().ends_with('\n'));
    }
    assert_eq!(SyntaxError::NotAnIfStatement.message(), "ion: syntax error: not an if statement");
    assert_eq!(SyntaxError::NoBlockToEnd.message(), "ion: syntax error: no block to end");
    assert_eq!(SyntaxError::ElseBlockAlreadyGiven.message(), "ion: syntax error: else block already given");
    assert_eq!(SyntaxError::MalformedIf.message(), "ion: syntax error: malformed if statement");
}
