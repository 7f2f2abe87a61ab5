//! Exit codes and what is said on the way out. Distinct codes let CI tell a real block
//! from a failure of network or authentication.
use vstd::prelude::*;

verus! {

/// Success.
pub const OK: u8 = 0;

/// A finding at or above the threshold.
pub const FINDING: u8 = 1;

/// Bad arguments or an unreadable file.
pub const USAGE: u8 = 2;

/// A missing or invalid key, or a plan that is not entitled.
pub const AUTH: u8 = 3;

/// A backend that is unreachable or answers wrongly.
pub const BACKEND: u8 = 4;

/// A line for standard output or standard error.
#[derive(Debug)]
pub enum Line {
    Stdout(String),
    Stderr(String),
}

pub enum LineView {
    Stdout(Seq<char>),
    Stderr(Seq<char>),
}

impl View for Line {
    type V = LineView;

    open spec fn view(&self) -> LineView {
        match self {
            Line::Stdout(s) => LineView::Stdout(s@),
            Line::Stderr(s) => LineView::Stderr(s@),
        }
    }
}

pub open spec fn line_views(lines: Seq<Line>) -> Seq<LineView> {
    lines.map_values(|l: Line| l@)
}

/// The end of a command: its exit code, and a line that says why.
#[derive(Debug)]
pub struct Stop {
    pub code: u8,
    pub line: Line,
}

pub struct StopView {
    pub code: u8,
    pub line: LineView,
}

impl View for Stop {
    type V = StopView;

    open spec fn view(&self) -> StopView {
        StopView { code: self.code, line: self.line@ }
    }
}

pub open spec fn stop_view<T>(r: Result<T, Stop>) -> Result<T, StopView> {
    match r {
        Ok(v) => Ok(v),
        Err(s) => Err(s@),
    }
}

/// An end with an error line.
pub open spec fn error_stop(code: u8, message: Seq<char>) -> StopView {
    StopView { code, line: LineView::Stderr("error: "@ + message) }
}

/// Ends a command with an error line.
pub fn stop_with(code: u8, message: &str) -> (r: Stop)
    ensures
        r@ == error_stop(code, message@),
{
    Stop { code, line: Line::Stderr("error: ".to_owned().concat(message)) }
}

/// The exit codes are distinct.
pub proof fn law_exit_codes_are_distinct()
    ensures
        OK != FINDING,
        OK != USAGE,
        OK != AUTH,
        OK != BACKEND,
        FINDING != USAGE,
        FINDING != AUTH,
        FINDING != BACKEND,
        USAGE != AUTH,
        USAGE != BACKEND,
        AUTH != BACKEND,
{
}

/// Whether `n` items were dealt with in order, up to the first that failed: there is a
/// result for each, or the last result is a failure.
pub open spec fn dealt_with<T>(results: Seq<Result<T, String>>, n: nat) -> bool {
    results.len() == n || (0 < results.len() < n && results.last() is Err)
}

} // verus!
