//! The lines that report what the tool has done.

use crate::text::appended;
use vstd::prelude::*;

verus! {

/// One reported line: the time, the level and the message, which a full
/// stop closes.
pub open spec fn trace_line(now: Seq<char>, level: Seq<char>, output: Seq<char>) -> Seq<char> {
    now + " | "@ + level + " » "@ + output + "."@
}

/// The reporter of outcomes.
pub struct Trace;

impl Trace {
    /// The line that reports `output` as information, at the time `now`.
    pub fn info(now: &str, output: &str) -> (line: String)
        ensures
            line@ == trace_line(now@, "INFO"@, output@),
    {
        Self::line(now, "INFO", output)
    }

    /// The line that reports `output` as an error, at the time `now`.
    pub fn error(now: &str, output: &str) -> (line: String)
        ensures
            line@ == trace_line(now@, "ERROR"@, output@),
    {
        Self::line(now, "ERROR", output)
    }

    fn line(now: &str, level: &str, output: &str) -> (line: String)
        ensures
            line@ == trace_line(now@, level@, output@),
    {
        let mut line = appended(now, " | ");
        line.append(level);
        line.append(" » ");
        line.append(output);
        line.append(".");
        line
    }
}

} // verus!
