use crate::text::{str_bytes, to_bytes};
use vstd::prelude::*;
use vstd::string::StringSliceAdditionalSpecFns;

verus! {

/// A complaint about a text: the line, where on the line, and what is
/// wrong.
#[derive(Debug)]
pub struct Report {
    pub line: usize,
    pub location: Vec<u8>,
    pub message: Vec<u8>,
}

/// What a complaint says.
pub struct ReportView {
    pub line: usize,
    pub location: Seq<u8>,
    pub message: Seq<u8>,
}

impl View for Report {
    type V = ReportView;

    open spec fn view(&self) -> ReportView {
        ReportView { line: self.line, location: self.location@, message: self.message@ }
    }
}

/// The view of each complaint of a sequence.
pub open spec fn reports_view(reports: Seq<Report>) -> Seq<ReportView> {
    reports.map_values(|report: Report| report@)
}

/// A complaint about a line as a whole.
pub open spec fn complaint(line: usize, message: Seq<u8>) -> ReportView {
    ReportView { line, location: Seq::empty(), message }
}

impl Report {
    /// A complaint about a line as a whole.
    pub fn error(line: usize, message: &[u8]) -> (report: Report)
        ensures
            report@ == complaint(line, message@),
    {
        Report { line, location: Vec::new(), message: to_bytes(message) }
    }

    /// A complaint about a place on a line.
    pub fn at(line: usize, location: &[u8], message: &str) -> (report: Report)
        ensures
            report@ == (ReportView {
                line,
                location: location@,
                message: message.spec_bytes(),
            }),
    {
        Report { line, location: to_bytes(location), message: str_bytes(message) }
    }
}

/// The complaints with one more.
pub proof fn lemma_reports_push(reports: Seq<Report>, report: Report)
    ensures
        reports_view(reports.push(report)) == reports_view(reports).push(report@),
{
    assert(reports_view(reports.push(report)) =~= reports_view(reports).push(report@));
}

} // verus!
