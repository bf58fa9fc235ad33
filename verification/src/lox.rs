//! The collaborator to which lexical errors are reported.

use vstd::prelude::*;
use vstd::string::StringExecFns;
use crate::text::decimal_text;
use crate::text::push_decimal;

verus! {

/// One reported error: the line it was found on, a hint that locates it
/// further, and the message.
#[derive(PartialEq, Debug)]
pub struct Report {
    line: usize,
    hint: String,
    message: String,
}

/// A reported error as plain mathematical data.
pub struct ReportModel {
    pub line: nat,
    pub hint: Seq<char>,
    pub message: Seq<char>,
}

impl View for Report {
    type V = ReportModel;

    closed spec fn view(&self) -> ReportModel {
        ReportModel { line: self.line as nat, hint: self.hint@, message: self.message@ }
    }
}

/// The diagnostic line of a report.
pub open spec fn report_text(r: ReportModel) -> Seq<char> {
    "[line "@ + decimal_text(r.line) + "] Error "@ + r.hint + ": "@ + r.message
}

/// The views of a sequence of reports, in order.
pub open spec fn report_views(rs: Seq<Report>) -> Seq<ReportModel> {
    Seq::new(rs.len(), |i: int| rs[i]@)
}

impl Report {
    /// The line the error was found on.
    pub fn line(&self) -> (res: usize)
        ensures
            res as nat == self@.line,
    {
        self.line
    }

    /// The hint that locates the error further.
    pub fn hint(&self) -> (res: &String)
        ensures
            res@ == self@.hint,
    {
        &self.hint
    }

    /// The message.
    pub fn message(&self) -> (res: &String)
        ensures
            res@ == self@.message,
    {
        &self.message
    }

    /// The diagnostic line to show for this report.
    pub fn render(&self) -> (res: String)
        ensures
            res@ == report_text(self@),
    {
        let mut r = String::from_str("[line ");
        push_decimal(&mut r, self.line);
        r.append("] Error ");
        r.append(self.hint.as_str());
        r.append(": ");
        r.append(self.message.as_str());
        r
    }
}

/// Records the errors found in a run and whether there was any.
#[derive(Debug)]
pub struct Lox {
    pub had_error: bool,
    pub reports: Vec<Report>,
}

impl Default for Lox {
    fn default() -> (res: Self)
        ensures
            !res.had_error,
            res.log() == Seq::<ReportModel>::empty(),
    {
        let res = Lox { had_error: false, reports: Vec::new() };
        proof {
            assert(res.log() =~= Seq::<ReportModel>::empty());
        }
        res
    }
}

impl Lox {
    /// The errors reported so far, oldest first.
    pub open spec fn log(&self) -> Seq<ReportModel> {
        report_views(self.reports@)
    }

    /// Reports an error on a line, with no hint.
    pub fn error(&mut self, line: usize, message: String)
        ensures
            final(self).had_error,
            final(self).log() == old(self).log().push(
                ReportModel { line: line as nat, hint: Seq::<char>::empty(), message: message@ },
            ),
    {
        self.report(line, String::new(), message);
    }

    fn report(&mut self, line: usize, hint: String, message: String)
        ensures
            final(self).had_error,
            final(self).log() == old(self).log().push(
                ReportModel { line: line as nat, hint: hint@, message: message@ },
            ),
    {
        let ghost model = ReportModel { line: line as nat, hint: hint@, message: message@ };
        self.reports.push(Report { line, hint, message });
        self.had_error = true;
        proof {
            assert(final(self).log() =~= old(self).log().push(model));
        }
    }

    /// The errors reported so far, oldest first.
    pub fn reports(&self) -> (res: &Vec<Report>)
        ensures
            report_views(res@) == self.log(),
    {
        &self.reports
    }
}

} // verus!
