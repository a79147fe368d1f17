//! Lines of output and how they are meant.

use vstd::prelude::*;

verus! {

/// How a line of output is meant.
#[derive(Debug, Clone, Copy, PartialEq, Eq, Structural)]
pub enum OutputType {
    Info,
    Success,
    Warning,
    Error,
}

/// A line of output.
#[derive(Debug, Clone)]
pub struct OutputLine {
    pub kind: OutputType,
    pub text: String,
}

/// A line of output, as a value.
pub type LineView = (OutputType, Seq<char>);

impl View for OutputLine {
    type V = LineView;

    open spec fn view(&self) -> LineView {
        (self.kind, self.text@)
    }
}

/// The values of lines of output.
pub open spec fn line_views(v: Seq<OutputLine>) -> Seq<LineView> {
    Seq::new(v.len(), |i: int| v[i]@)
}

/// A line that informs.
pub open spec fn info(s: Seq<char>) -> LineView {
    (OutputType::Info, s)
}

/// A line that reports success.
pub open spec fn success(s: Seq<char>) -> LineView {
    (OutputType::Success, s)
}

/// A line that warns.
pub open spec fn warning(s: Seq<char>) -> LineView {
    (OutputType::Warning, s)
}

/// A line that reports an error.
pub open spec fn error(s: Seq<char>) -> LineView {
    (OutputType::Error, s)
}

impl OutputLine {
    /// A line that informs.
    pub fn info(s: &str) -> (r: OutputLine)
        ensures
            r@ == info(s@),
    {
        OutputLine { kind: OutputType::Info, text: s.to_owned() }
    }

    /// A line that reports success.
    pub fn success(s: &str) -> (r: OutputLine)
        ensures
            r@ == success(s@),
    {
        OutputLine { kind: OutputType::Success, text: s.to_owned() }
    }

    /// A line that warns.
    pub fn warning(s: &str) -> (r: OutputLine)
        ensures
            r@ == warning(s@),
    {
        OutputLine { kind: OutputType::Warning, text: s.to_owned() }
    }

    /// A line that reports an error.
    pub fn error(s: &str) -> (r: OutputLine)
        ensures
            r@ == error(s@),
    {
        OutputLine { kind: OutputType::Error, text: s.to_owned() }
    }
}

/// Appends a line.
pub fn say(out: &mut Vec<OutputLine>, line: OutputLine)
    ensures
        line_views(final(out)@) == line_views(old(out)@).push(line@),
{
    let ghost before = line_views(out@);
    out.push(line);
    assert(line_views(out@) =~= before.push(line@));
}

/// A line holds its text and is meant as it says.
pub proof fn law_lines_are_meant_as_they_say(s: Seq<char>)
    ensures
        info(s) == (OutputType::Info, s),
        success(s) == (OutputType::Success, s),
        warning(s) == (OutputType::Warning, s),
        error(s) == (OutputType::Error, s),
{
}

} // verus!
