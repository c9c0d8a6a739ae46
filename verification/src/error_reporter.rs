//! A small collector for diagnostics: it remembers whether any error was
//! reported and keeps each report, rendered in the uniform
//! `[line N] Error: <message>` shape, for the caller to show.

use vstd::prelude::*;
use crate::error::line_prefix;

verus! {

/// The rendering of one report.
pub open spec fn report_text(line: int, message: Seq<char>) -> Seq<char> {
    line_prefix(line) + "Error: "@ + message
}

/// Collects rendered error reports and remembers that something failed.
pub struct ErrorReporter {
    pub had_error: bool,
    pub reports: Vec<String>,
}

impl ErrorReporter {
    /// Records one error at `line` with `message`.
    pub fn error(&mut self, line: i32, message: String)
        ensures
            final(self).had_error,
            final(self).reports@.len() == old(self).reports@.len() + 1,
            final(self).reports@ == old(self).reports@.push(
                final(self).reports@[final(self).reports@.len() - 1],
            ),
            final(self).reports@[final(self).reports@.len() - 1]@ == report_text(
                line as int,
                message@,
            ),
    {
        self.report(line, message);
    }

    fn report(&mut self, line: i32, message: String)
        ensures
            final(self).had_error,
            final(self).reports@.len() == old(self).reports@.len() + 1,
            final(self).reports@ == old(self).reports@.push(
                final(self).reports@[final(self).reports@.len() - 1],
            ),
            final(self).reports@[final(self).reports@.len() - 1]@ == report_text(
                line as int,
                message@,
            ),
    {
        let mut s = String::from_str("[line ");
        let n = crate::text::i64_to_string(line as i64);
        s.append(n.as_str());
        s.append("] ");
        s.append("Error: ");
        s.append(message.as_str());
        proof {
            assert(s@ =~= report_text(line as int, message@));
        }
        let ghost r0 = self.reports@;
        self.reports.push(s);
        proof {
            assert(self.reports@ =~= r0.push(self.reports@[self.reports@.len() - 1]));
        }
        self.had_error = true;
    }

    /// Whether any error has been reported so far.
    pub fn errored(&self) -> (r: bool)
        ensures
            r == self.had_error,
    {
        self.had_error
    }
}

impl Default for ErrorReporter {
    /// A fresh reporter: no error yet, no reports.
    fn default() -> (r: ErrorReporter)
        ensures
            !r.had_error,
            r.reports@.len() == 0,
    {
        ErrorReporter { had_error: false, reports: Vec::new() }
    }
}

} // verus!
