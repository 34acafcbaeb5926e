//! Blocks that are closed and blocks that are still open: how many blocks a
//! run of statements leaves open, and what the collectors keep of it.

use crate::ast::{CaseView, ElseIfView, StatementView};
use crate::flow_control::{
    collect_cases_spec, collect_if_spec, collect_loops_spec, level_after, routable,
    with_arm_statement, with_case_statement, IfMode,
};
use vstd::prelude::*;

verus! {

/// The number of blocks that are open after `statements`, when `level`
/// blocks were open before them; `None` when an `End` among them finds no
/// block to close.
pub open spec fn depth_after(statements: Seq<StatementView>, level: nat) -> Option<nat>
    decreases statements.len(),
{
    if statements.len() == 0 {
        Some(level)
    } else {
        let head = statements.first();
        if head.opens() {
            depth_after(statements.drop_first(), level + 1)
        } else if head is End {
            if level == 0 {
                None
            } else {
                depth_after(statements.drop_first(), (level - 1) as nat)
            }
        } else {
            depth_after(statements.drop_first(), level)
        }
    }
}

/// Whether every statement is as the parser gives it: no block of its own
/// is filled.
pub open spec fn all_bare(statements: Seq<StatementView>) -> bool {
    forall|i: int| 0 <= i < statements.len() ==> (#[trigger] statements[i]).bare()
}

/// A body of bare statements that leaves `open` of its blocks open and
/// closes none that it did not open.
pub open spec fn open_body(statements: Seq<StatementView>, open: nat) -> bool {
    all_bare(statements) && depth_after(statements, 0) == Some(open)
}

/// A body in which every block is closed.
pub open spec fn balanced(statements: Seq<StatementView>) -> bool {
    open_body(statements, 0) && statements.len() < usize::MAX
}

/// Whether `statements` and `more` further statements fit in a list.
pub open spec fn fits(statements: Seq<StatementView>, more: nat) -> bool {
    statements.len() + more < usize::MAX
}

/// The depth after two runs of statements is the depth after the second,
/// begun at the depth after the first.
pub proof fn lemma_depth_after_concat(a: Seq<StatementView>, b: Seq<StatementView>, level: nat)
    ensures
        depth_after(a + b, level) == match depth_after(a, level) {
            Some(between) => depth_after(b, between),
            None => None,
        },
    decreases a.len(),
{
    if a.len() == 0 {
        assert(a + b =~= b);
    } else {
        let head = a.first();
        assert((a + b).first() == head);
        assert((a + b).drop_first() =~= a.drop_first() + b);
        if head.opens() {
            lemma_depth_after_concat(a.drop_first(), b, level + 1);
        } else if head is End {
            if level > 0 {
                lemma_depth_after_concat(a.drop_first(), b, (level - 1) as nat);
            }
        } else {
            lemma_depth_after_concat(a.drop_first(), b, level);
        }
    }
}

/// The depth after a body with one more statement.
pub proof fn lemma_depth_after_push(statements: Seq<StatementView>, head: StatementView, open: nat)
    requires
        depth_after(statements, 0) == Some(open),
    ensures
        depth_after(statements.push(head), 0) == if head.opens() {
            Some(open + 1)
        } else if head is End {
            if open == 0 {
                None
            } else {
                Some((open - 1) as nat)
            }
        } else {
            Some(open)
        },
{
    lemma_depth_after_concat(statements, seq![head], 0);
    assert(statements.push(head) =~= statements + seq![head]);
    assert(seq![head].drop_first() =~= Seq::<StatementView>::empty());
    reveal_with_fuel(depth_after, 2);
}

/// A body and one more bare statement are bare.
pub proof fn lemma_all_bare_push(statements: Seq<StatementView>, head: StatementView)
    requires
        all_bare(statements),
        head.bare(),
    ensures
        all_bare(statements.push(head)),
{
}

/// What a loop body keeps when it is collected from bare statements. When
/// the block closes, every block of the body is closed and the depth of the
/// stream goes on from the rest; when it stays open, the stream is used up
/// and the body leaves one block fewer open than the level counts.
pub proof fn lemma_collect_loops_balance(
    stream: Seq<StatementView>,
    statements: Seq<StatementView>,
    level: usize,
)
    requires
        level >= 1,
        all_bare(stream),
        open_body(statements, (level - 1) as nat),
        level + stream.len() < usize::MAX,
    ensures
        ({
            let c = collect_loops_spec(stream, statements, level);
            &&& all_bare(c.statements)
            &&& all_bare(c.rest)
            &&& c.rest.len() <= stream.len()
            &&& c.statements.len() + c.rest.len() <= statements.len() + stream.len()
            &&& c.level == 0 ==> open_body(c.statements, 0) && depth_after(stream, level as nat)
                == depth_after(c.rest, 0)
            &&& c.level != 0 ==> c.rest.len() == 0 && open_body(
                c.statements,
                (c.level - 1) as nat,
            ) && depth_after(stream, level as nat) == Some(c.level as nat)
        }),
    decreases stream.len(),
{
    if stream.len() > 0 {
        let head = stream.first();
        let tail = stream.drop_first();
        assert(head.bare());
        assert forall|i: int| 0 <= i < tail.len() implies (#[trigger] tail[i]).bare() by {
            assert(stream[i + 1].bare());
        }
        if head is End && level <= 1 {
        } else {
            lemma_depth_after_push(statements, head, (level - 1) as nat);
            lemma_all_bare_push(statements, head);
            lemma_collect_loops_balance(tail, statements.push(head), level_after(level, head));
        }
    }
}

/// The parts of a conditional that is still open: the parts before the one
/// that `mode` names are closed, that part leaves one block fewer open than
/// the level counts, and the parts after it are empty.
pub open spec fn if_parts_open(
    success: Seq<StatementView>,
    else_if: Seq<ElseIfView>,
    failure: Seq<StatementView>,
    level: usize,
    mode: IfMode,
) -> bool {
    &&& level >= 1
    &&& match mode {
        IfMode::Success => else_if.len() == 0 && failure.len() == 0 && open_body(
            success,
            (level - 1) as nat,
        ),
        IfMode::ElseIfSuccess => else_if.len() > 0 && failure.len() == 0 && open_body(success, 0)
            && (forall|i: int|
            0 <= i < else_if.len() - 1 ==> open_body((#[trigger] else_if[i]).success, 0))
            && open_body(else_if.last().success, (level - 1) as nat),
        IfMode::Failure => open_body(success, 0) && (forall|i: int|
            0 <= i < else_if.len() ==> open_body((#[trigger] else_if[i]).success, 0))
            && open_body(failure, (level - 1) as nat),
        _ => false,
    }
}

/// The parts of a conditional in which every block is closed.
pub open spec fn if_parts_closed(
    success: Seq<StatementView>,
    else_if: Seq<ElseIfView>,
    failure: Seq<StatementView>,
) -> bool {
    &&& open_body(success, 0)
    &&& forall|i: int| 0 <= i < else_if.len() ==> open_body((#[trigger] else_if[i]).success, 0)
    &&& open_body(failure, 0)
}

/// Whether each part of a conditional, with `more` further statements,
/// fits in a list.
pub open spec fn if_parts_fit(
    success: Seq<StatementView>,
    else_if: Seq<ElseIfView>,
    failure: Seq<StatementView>,
    more: nat,
) -> bool {
    &&& fits(success, more)
    &&& forall|i: int| 0 <= i < else_if.len() ==> fits((#[trigger] else_if[i]).success, more)
    &&& fits(failure, more)
}

/// What the parts of a conditional keep when they are collected from bare
/// statements.
pub proof fn lemma_collect_if_balance(
    stream: Seq<StatementView>,
    success: Seq<StatementView>,
    else_if: Seq<ElseIfView>,
    failure: Seq<StatementView>,
    level: usize,
    mode: IfMode,
)
    requires
        all_bare(stream),
        if_parts_open(success, else_if, failure, level, mode),
        if_parts_fit(success, else_if, failure, stream.len()),
        level + stream.len() < usize::MAX,
    ensures
        ({
            let c = collect_if_spec(stream, success, else_if, failure, level, mode);
            &&& all_bare(c.rest)
            &&& c.rest.len() <= stream.len()
            &&& c.error is None ==> if_parts_fit(c.success, c.else_if, c.failure, c.rest.len())
            &&& c.error is None && c.level == 0 ==> if_parts_closed(
                c.success,
                c.else_if,
                c.failure,
            ) && depth_after(stream, level as nat) == depth_after(c.rest, 0)
            &&& c.error is None && c.level != 0 ==> c.rest.len() == 0 && if_parts_open(
                c.success,
                c.else_if,
                c.failure,
                c.level,
                c.mode,
            ) && depth_after(stream, level as nat) == Some(c.level as nat)
        }),
    decreases stream.len(),
{
    if stream.len() > 0 {
        let head = stream.first();
        let tail = stream.drop_first();
        assert(head.bare());
        assert forall|i: int| 0 <= i < tail.len() implies (#[trigger] tail[i]).bare() by {
            assert(stream[i + 1].bare());
        }
        if head is End && level <= 1 {
        } else if (head is ElseIf || head is Else) && level <= 1 {
            if mode is Failure {
            } else if head is ElseIf {
                let arms = else_if.push(head->ElseIf_0);
                assert(arms.drop_last() =~= else_if);
                assert forall|i: int| 0 <= i < arms.len() - 1 implies open_body(
                    (#[trigger] arms[i]).success,
                    0,
                ) by {
                    assert(arms[i] == else_if[i]);
                }
                assert forall|i: int| 0 <= i < arms.len() implies fits(
                    (#[trigger] arms[i]).success,
                    tail.len(),
                ) by {
                    if i < else_if.len() {
                        assert(arms[i] == else_if[i]);
                    }
                }
                lemma_collect_if_balance(tail, success, arms, failure, level, IfMode::ElseIfSuccess);
            } else {
                lemma_collect_if_balance(tail, success, else_if, failure, level, IfMode::Failure);
            }
        } else {
            let next = level_after(level, head);
            match mode {
                IfMode::Success => {
                    lemma_depth_after_push(success, head, (level - 1) as nat);
                    lemma_collect_if_balance(
                        tail,
                        success.push(head),
                        else_if,
                        failure,
                        next,
                        mode,
                    );
                },
                IfMode::Failure => {
                    lemma_depth_after_push(failure, head, (level - 1) as nat);
                    lemma_collect_if_balance(
                        tail,
                        success,
                        else_if,
                        failure.push(head),
                        next,
                        mode,
                    );
                },
                _ => {
                    let arms = with_arm_statement(else_if, head);
                    lemma_depth_after_push(else_if.last().success, head, (level - 1) as nat);
                    assert forall|i: int| 0 <= i < arms.len() - 1 implies open_body(
                        (#[trigger] arms[i]).success,
                        0,
                    ) by {
                        assert(arms[i] == else_if[i]);
                    }
                    assert forall|i: int| 0 <= i < arms.len() implies fits(
                        (#[trigger] arms[i]).success,
                        tail.len(),
                    ) by {
                        if i < else_if.len() - 1 {
                            assert(arms[i] == else_if[i]);
                        } else {
                            assert(fits(else_if[i].success, stream.len()));
                        }
                    }
                    lemma_collect_if_balance(tail, success, arms, failure, next, mode);
                },
            }
        }
    }
}

/// The arms of a `match` that is still open: the arms before the last are
/// closed and the last leaves one block fewer open than the level counts.
pub open spec fn cases_open(cases: Seq<CaseView>, level: usize) -> bool {
    &&& level >= 1
    &&& cases.len() == 0 ==> level == 1
    &&& forall|i: int| 0 <= i < cases.len() - 1 ==> open_body((#[trigger] cases[i]).statements, 0)
    &&& cases.len() > 0 ==> open_body(cases.last().statements, (level - 1) as nat)
}

/// The arms of a `match` in which every block is closed.
pub open spec fn cases_closed(cases: Seq<CaseView>) -> bool {
    forall|i: int| 0 <= i < cases.len() ==> open_body((#[trigger] cases[i]).statements, 0)
}

/// Whether each arm of a `match`, with `more` further statements, fits in
/// a list.
pub open spec fn cases_fit(cases: Seq<CaseView>, more: nat) -> bool {
    forall|i: int| 0 <= i < cases.len() ==> fits((#[trigger] cases[i]).statements, more)
}

/// What the arms of a `match` keep when they are collected from bare
/// statements.
pub proof fn lemma_collect_cases_balance(
    stream: Seq<StatementView>,
    cases: Seq<CaseView>,
    level: usize,
)
    requires
        all_bare(stream),
        cases_open(cases, level),
        cases_fit(cases, stream.len()),
        level + stream.len() < usize::MAX,
    ensures
        ({
            let c = collect_cases_spec(stream, cases, level);
            &&& all_bare(c.rest)
            &&& c.rest.len() <= stream.len()
            &&& c.error is None ==> cases_fit(c.cases, c.rest.len())
            &&& c.error is None && c.level == 0 ==> cases_closed(c.cases) && depth_after(
                stream,
                level as nat,
            ) == depth_after(c.rest, 0)
            &&& c.error is None && c.level != 0 ==> c.rest.len() == 0 && cases_open(
                c.cases,
                c.level,
            ) && depth_after(stream, level as nat) == Some(c.level as nat)
        }),
    decreases stream.len(),
{
    if stream.len() > 0 {
        let head = stream.first();
        let tail = stream.drop_first();
        assert(head.bare());
        assert forall|i: int| 0 <= i < tail.len() implies (#[trigger] tail[i]).bare() by {
            assert(stream[i + 1].bare());
        }
        if head is End && level <= 1 {
            if cases.len() > 0 {
                assert forall|i: int| 0 <= i < cases.len() implies open_body(
                    (#[trigger] cases[i]).statements,
                    0,
                ) by {
                    if i == cases.len() - 1 {
                        assert(cases[i] == cases.last());
                    }
                }
            }
        } else if head is Case && level <= 1 {
            let arms = cases.push(head->Case_0);
            assert forall|i: int| 0 <= i < arms.len() - 1 implies open_body(
                (#[trigger] arms[i]).statements,
                0,
            ) by {
                assert(arms[i] == cases[i]);
                if i == cases.len() - 1 {
                    assert(cases[i] == cases.last());
                }
            }
            assert forall|i: int| 0 <= i < arms.len() implies fits(
                (#[trigger] arms[i]).statements,
                tail.len(),
            ) by {
                if i < cases.len() {
                    assert(arms[i] == cases[i]);
                }
            }
            lemma_collect_cases_balance(tail, arms, level);
        } else if cases.len() == 0 {
        } else {
            let arms = with_case_statement(cases, head);
            lemma_depth_after_push(cases.last().statements, head, (level - 1) as nat);
            assert forall|i: int| 0 <= i < arms.len() - 1 implies open_body(
                (#[trigger] arms[i]).statements,
                0,
            ) by {
                assert(arms[i] == cases[i]);
            }
            assert forall|i: int| 0 <= i < arms.len() implies fits(
                (#[trigger] arms[i]).statements,
                tail.len(),
            ) by {
                if i < cases.len() - 1 {
                    assert(arms[i] == cases[i]);
                } else {
                    assert(fits(cases[i].statements, stream.len()));
                }
            }
            lemma_collect_cases_balance(tail, arms, level_after(level, head));
        }
    }
}

/// Arms once begun are never refused: collecting into a `match` that has
/// an arm gives no error.
pub proof fn lemma_collect_cases_accepts_after_a_case(
    stream: Seq<StatementView>,
    cases: Seq<CaseView>,
    level: usize,
)
    requires
        cases.len() > 0,
    ensures
        collect_cases_spec(stream, cases, level).error is None,
    decreases stream.len(),
{
    if stream.len() > 0 {
        let head = stream.first();
        let tail = stream.drop_first();
        if head is End && level <= 1 {
        } else if head is Case && level <= 1 {
            lemma_collect_cases_accepts_after_a_case(tail, cases.push(head->Case_0), level);
        } else {
            lemma_collect_cases_accepts_after_a_case(
                tail,
                with_case_statement(cases, head),
                level_after(level, head),
            );
        }
    }
}

/// A `match` refuses a statement only before its first arm, and is then
/// left as it was: without an arm, at the level it had.
pub proof fn lemma_collect_cases_refuses_before_the_first_case(
    stream: Seq<StatementView>,
    cases: Seq<CaseView>,
    level: usize,
)
    requires
        collect_cases_spec(stream, cases, level).error is Some,
    ensures
        cases.len() == 0,
        collect_cases_spec(stream, cases, level).cases == cases,
        collect_cases_spec(stream, cases, level).level == level,
        stream.len() > 0,
        collect_cases_spec(stream, cases, level).rest == stream.drop_first(),
{
    if cases.len() > 0 {
        lemma_collect_cases_accepts_after_a_case(stream, cases, level);
    } else if stream.len() > 0 {
        let head = stream.first();
        if head is Case && level <= 1 {
            lemma_collect_cases_accepts_after_a_case(
                stream.drop_first(),
                cases.push(head->Case_0),
                level,
            );
        }
    }
}

} // verus!
