//! The error reporter: renders a classified failure as one line of text.
//!
//! A recoverable failure carries a context string (the offending path, or a
//! generic description when no single path is to blame) and renders as
//! `"<context>: <message>\n"`. A fatal failure carries no context and
//! renders bare, as `"<message>\n"`.

use vstd::prelude::*;
use vstd::string::*;

verus! {

/// Severity of a failure: `Recoverable` failures are reported with a context
/// prefix and traversal continues with siblings; `Fatal` failures are
/// reported bare and abandon the operation that raised them.
pub enum ReportKind {
    Recoverable(String),
    Fatal,
}

/// Ghost form of a classified failure, over character sequences.
///
/// Invariant of the taxonomy: a recoverable report always carries a context
/// string; a fatal report never does.
pub enum ReportV {
    Recoverable { context: Seq<char>, message: Seq<char> },
    Fatal { message: Seq<char> },
}

/// The line a report renders to: `"<context>: <message>\n"` for a
/// recoverable failure, `"<message>\n"` for a fatal one.
pub open spec fn rendered(r: ReportV) -> Seq<char> {
    match r {
        ReportV::Recoverable { context, message } => context + ": "@ + message + "\n"@,
        ReportV::Fatal { message } => message + "\n"@,
    }
}

/// Pairs a severity with a message into a ghost report.
pub open spec fn report_v(kind: ReportKind, msg: Seq<char>) -> ReportV {
    match kind {
        ReportKind::Recoverable(ctx) => ReportV::Recoverable { context: ctx@, message: msg },
        ReportKind::Fatal => ReportV::Fatal { message: msg },
    }
}

impl ReportKind {
    /// Renders one failure line for the error sink.
    pub fn report(&self, msg: &str) -> (line: String)
        ensures
            line@ == rendered(report_v(*self, msg@)),
    {
        match self {
            ReportKind::Recoverable(ctx) => ctx.clone().concat(": ").concat(msg).concat("\n"),
            ReportKind::Fatal => String::from_str(msg).concat("\n"),
        }
    }
}

/// One classified failure, with the message derived from the underlying
/// operating-system error.
pub struct Report {
    pub kind: ReportKind,
    pub message: String,
}

impl View for Report {
    type V = ReportV;

    open spec fn view(&self) -> ReportV {
        report_v(self.kind, self.message@)
    }
}

impl DeepView for Report {
    type V = ReportV;

    open spec fn deep_view(&self) -> ReportV {
        self.view()
    }
}

impl Report {
    /// Renders this report as the one line it contributes to the error sink.
    pub fn line(&self) -> (line: String)
        ensures
            line@ == rendered(self@),
    {
        self.kind.report(self.message.as_str())
    }
}

/// Renders a batch of reports, one line each, in order.
pub fn render_reports(reports: &Vec<Report>) -> (lines: Vec<String>)
    ensures
        lines.deep_view() == reports.deep_view().map_values(|r: ReportV| rendered(r)),
{
    let mut lines: Vec<String> = Vec::new();
    let mut i: usize = 0;
    while i < reports.len()
        invariant
            i <= reports.len(),
            lines.deep_view() == reports.deep_view().take(i as int).map_values(
                |r: ReportV| rendered(r),
            ),
        decreases reports.len() - i,
    {
        let ghost pre = lines.deep_view();
        lines.push(reports[i].line());
        proof {
            assert(lines.deep_view() =~= pre.push(rendered(reports.deep_view()[i as int])));
            assert(reports.deep_view().take(i + 1) =~= reports.deep_view().take(i as int).push(
                reports.deep_view()[i as int],
            ));
            assert(lines.deep_view() =~= reports.deep_view().take(i + 1).map_values(
                |r: ReportV| rendered(r),
            ));
        }
        i = i + 1;
    }
    proof {
        assert(reports.deep_view().take(reports.len() as int) =~= reports.deep_view());
    }
    lines
}

} // verus!
