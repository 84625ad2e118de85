//! Choosing the layout of a report and rendering its plain-text form.

use vstd::prelude::*;
use crate::engine::{severity_label, views, Issue, IssueView};

verus! {

/// The layout in which a report is written.
#[derive(Debug, Clone, Copy, PartialEq, Eq, Structural)]
pub enum Layout {
    Json,
    Text,
    /// The name asked for is neither `json` nor `text`.
    Unknown,
}

/// What is to be written for a scan.
#[derive(Debug, Clone, PartialEq, Eq)]
pub enum Report {
    /// The issues as a JSON document. `unknown` holds the lower-cased name
    /// that was asked for, where JSON is only the fallback for it.
    Json { unknown: Option<String> },
    /// The issues as plain text, one line each.
    Text { body: String },
}

/// A [`Report`] as plain mathematical values.
pub enum ReportView {
    Json { unknown: Option<Seq<char>> },
    Text { body: Seq<char> },
}

impl View for Report {
    type V = ReportView;

    open spec fn view(&self) -> ReportView {
        match *self {
            Report::Json { unknown: Some(name) } => ReportView::Json { unknown: Some(name@) },
            Report::Json { unknown: None } => ReportView::Json { unknown: None },
            Report::Text { body } => ReportView::Text { body: body@ },
        }
    }
}

/// The lower-case form that `str::to_lowercase` gives a text.
pub uninterp spec fn lowercase_text(s: Seq<char>) -> Seq<char>;

/// Lower-cases a text with `str::to_lowercase`. Trusted: the result is the
/// lower-case form of the argument and depends on nothing else.
#[verifier::external_body]
fn lowercase(s: &str) -> (lowered: String)
    ensures
        lowered@ == lowercase_text(s@),
{
    s.to_lowercase()
}

/// The layout that a lower-cased format name stands for.
pub open spec fn layout_of(lowered: Seq<char>) -> Layout {
    if lowered == "json"@ {
        Layout::Json
    } else if lowered == "text"@ {
        Layout::Text
    } else {
        Layout::Unknown
    }
}

/// The line of one issue: `[severity] id - message` and a line feed.
pub open spec fn report_line(issue: IssueView) -> Seq<char> {
    "["@ + severity_label(issue.severity) + "] "@ + issue.id + " - "@ + issue.message + "\n"@
}

/// The plain-text report: the lines of the issues, in order.
pub open spec fn report_text(issues: Seq<IssueView>) -> Seq<char>
    decreases issues.len(),
{
    if issues.len() == 0 {
        Seq::empty()
    } else {
        report_text(issues.drop_last()) + report_line(issues.last())
    }
}

/// The report for `issues` under a lower-cased format name: text for
/// `text`, JSON for `json`, and JSON with the name noted for any other.
pub open spec fn report_for(issues: Seq<IssueView>, lowered: Seq<char>) -> ReportView {
    match layout_of(lowered) {
        Layout::Json => ReportView::Json { unknown: None },
        Layout::Text => ReportView::Text { body: report_text(issues) },
        Layout::Unknown => ReportView::Json { unknown: Some(lowered) },
    }
}

/// Tells which layout a lower-cased format name stands for.
pub fn choose_layout(lowered: &String) -> (layout: Layout)
    ensures
        layout == layout_of(lowered@),
{
    if *lowered == String::from_str("json") {
        Layout::Json
    } else if *lowered == String::from_str("text") {
        Layout::Text
    } else {
        Layout::Unknown
    }
}

/// Renders the plain-text report.
pub fn render_text(issues: &Vec<Issue>) -> (body: String)
    ensures
        body@ == report_text(views(issues@)),
{
    let mut body = String::new();
    let mut k: usize = 0;
    assert(views(issues@).take(0) =~= Seq::empty());
    while k < issues.len()
        invariant
            k <= issues.len(),
            body@ == report_text(views(issues@).take(k as int)),
        decreases issues.len() - k,
    {
        let issue = &issues[k];
        let ghost before = body@;
        body.append("[");
        body.append(issue.severity.label());
        body.append("] ");
        body.append(issue.id.as_str());
        body.append(" - ");
        body.append(issue.message.as_str());
        body.append("\n");
        proof {
            let upto = views(issues@).take(k + 1);
            assert(upto.drop_last() =~= views(issues@).take(k as int));
            assert(upto.last() == issue@);
            assert(body@ =~= before + report_line(issue@));
        }
        k += 1;
    }
    assert(views(issues@).take(k as int) =~= views(issues@));
    body
}

/// Composes the report for `issues` under an already lower-cased format
/// name.
pub fn compose_report(issues: &Vec<Issue>, lowered: String) -> (report: Report)
    ensures
        report@ == report_for(views(issues@), lowered@),
{
    match choose_layout(&lowered) {
        Layout::Json => Report::Json { unknown: None },
        Layout::Text => Report::Text { body: render_text(issues) },
        Layout::Unknown => Report::Json { unknown: Some(lowered) },
    }
}

/// Composes the report for `issues` in the format asked for; the name is
/// matched without regard to case.
pub fn emit_report(issues: &Vec<Issue>, format: &str) -> (report: Report)
    ensures
        report@ == report_for(views(issues@), lowercase_text(format@)),
{
    compose_report(issues, lowercase(format))
}

} // verus!
