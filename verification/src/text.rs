//! Texts that the executor produces or takes apart: the decimal form of a
//! loop counter, the lines of a value list, the wording of a diagnostic.

use crate::ast::string_views;
use crate::flow_control::SyntaxError;
use vstd::prelude::*;

verus! {

/// The character for a single decimal digit.
pub open spec fn digit_char(d: nat) -> char {
    if d == 0 {
        '0'
    } else if d == 1 {
        '1'
    } else if d == 2 {
        '2'
    } else if d == 3 {
        '3'
    } else if d == 4 {
        '4'
    } else if d == 5 {
        '5'
    } else if d == 6 {
        '6'
    } else if d == 7 {
        '7'
    } else if d == 8 {
        '8'
    } else {
        '9'
    }
}

/// The decimal form of a natural number, without leading zeros.
pub open spec fn decimal_text(n: nat) -> Seq<char>
    decreases n,
{
    if n < 10 {
        seq![digit_char(n)]
    } else {
        decimal_text(n / 10).push(digit_char(n % 10))
    }
}

/// The decimal forms of the integers from `start` up to, not including,
/// `end`.
pub open spec fn range_words(start: nat, end: nat) -> Seq<Seq<char>> {
    Seq::new(
        if start < end {
            (end - start) as nat
        } else {
            0
        },
        |i: int| decimal_text((start + i) as nat),
    )
}

/// The index of the first line feed in `text`, or its length when it holds
/// none.
pub open spec fn line_end(text: Seq<char>) -> nat
    decreases text.len(),
{
    if text.len() == 0 || text.first() == '\n' {
        0
    } else {
        1 + line_end(text.drop_first())
    }
}

/// A line without the carriage return that stood before its line feed.
pub open spec fn without_carriage_return(line: Seq<char>) -> Seq<char> {
    if line.len() > 0 && line.last() == '\r' {
        line.drop_last()
    } else {
        line
    }
}

/// The lines of a text. A line ends at a line feed, or at a carriage return
/// directly followed by a line feed; neither belongs to the line. What
/// follows the last line feed is a line of its own unless it is empty.
pub open spec fn text_lines(text: Seq<char>) -> Seq<Seq<char>>
    decreases text.len(),
{
    if text.len() == 0 {
        Seq::empty()
    } else {
        let end = line_end(text) as int;
        if end >= text.len() {
            seq![text]
        } else {
            seq![without_carriage_return(text.take(end))] + text_lines(text.skip(end + 1))
        }
    }
}

/// Calls `usize::to_string`, which renders an unsigned integer in decimal
/// notation: the digits of the number, most significant first, with no sign
/// and no leading zeros.
#[verifier::external_body]
pub(crate) fn render_decimal(n: usize) -> (text: String)
    ensures
        text@ == decimal_text(n as nat),
{
    n.to_string()
}

/// Calls `str::lines`, which yields the lines of a text without their
/// terminators: a line feed, or a carriage return and a line feed, ends a
/// line, and a final terminator is optional.
#[verifier::external_body]
pub(crate) fn split_lines(text: &String) -> (lines: Vec<String>)
    ensures
        string_views(lines@) == text_lines(text@),
{
    let mut lines: Vec<String> = Vec::new();
    for line in text.lines() {
        lines.push(line.to_owned());
    }
    lines
}

impl SyntaxError {
    /// The wording of the diagnostic.
    pub open spec fn message_spec(self) -> Seq<char> {
        match self {
            SyntaxError::NotAnIfStatement => "ion: syntax error: not an if statement"@,
            SyntaxError::NoBlockToEnd => "ion: syntax error: no block to end"@,
            SyntaxError::ElseBlockAlreadyGiven => "ion: syntax error: else block already given"@,
            SyntaxError::MalformedIf => "ion: syntax error: malformed if statement"@,
            SyntaxError::OutsideCase => "ion: syntax error: statement outside of a case block"@,
        }
    }

    /// The line that reports the error, without its line feed.
    pub fn message(&self) -> (text: String)
        ensures
            text@ == self.message_spec(),
    {
        match self {
            SyntaxError::NotAnIfStatement => "ion: syntax error: not an if statement".to_owned(),
            SyntaxError::NoBlockToEnd => "ion: syntax error: no block to end".to_owned(),
            SyntaxError::ElseBlockAlreadyGiven => "ion: syntax error: else block already given".to_owned(),
            SyntaxError::MalformedIf => "ion: syntax error: malformed if statement".to_owned(),
            SyntaxError::OutsideCase => "ion: syntax error: statement outside of a case block".to_owned(),
        }
    }
}

} // verus!
