//! Findings and their mathematical view.

use vstd::prelude::*;
use crate::config::Config;
use crate::reporter::{emit_report, lowercase_text, report_for, Report};
use crate::rules::{root_fault, run_all, scan_issues, ScanError};
use crate::tree::Entry;

verus! {

/// How serious a finding is.
#[derive(Debug, Clone, Copy, PartialEq, Eq, Structural)]
pub enum Severity {
    Info,
    Warning,
    High,
}

/// One finding of a rule: a stable `category::check` tag, a severity and a
/// message that starts with the path of the file it was found in.
#[derive(Debug, Clone, PartialEq, Eq)]
pub struct Issue {
    pub id: String,
    pub severity: Severity,
    pub message: String,
}

/// What an [`Issue`] says, as plain mathematical values.
pub struct IssueView {
    pub id: Seq<char>,
    pub severity: Severity,
    pub message: Seq<char>,
}

impl View for Issue {
    type V = IssueView;

    open spec fn view(&self) -> IssueView {
        IssueView { id: self.id@, severity: self.severity, message: self.message@ }
    }
}

/// The views of a sequence of issues, in order.
pub open spec fn views(issues: Seq<Issue>) -> Seq<IssueView> {
    Seq::new(issues.len(), |i: int| issues[i]@)
}

/// The word by which a severity is written in reports.
pub open spec fn severity_label(s: Severity) -> Seq<char> {
    match s {
        Severity::Info => "info"@,
        Severity::Warning => "warning"@,
        Severity::High => "high"@,
    }
}

impl Severity {
    /// The word by which this severity is written in reports.
    pub fn label(&self) -> (s: &'static str)
        ensures
            s@ == severity_label(*self),
    {
        match self {
            Severity::Info => "info",
            Severity::Warning => "warning",
            Severity::High => "high",
        }
    }
}

/// Appending one issue appends its view.
pub proof fn lemma_views_push(issues: Seq<Issue>, issue: Issue)
    ensures
        views(issues.push(issue)) == views(issues).push(issue@),
{
    assert(views(issues.push(issue)) =~= views(issues).push(issue@));
}

/// The views of a concatenation are the concatenation of the views.
pub proof fn lemma_views_add(a: Seq<Issue>, b: Seq<Issue>)
    ensures
        views(a + b) == views(a) + views(b),
{
    assert(views(a + b) =~= views(a) + views(b));
}

/// The outcome of one scan: the findings and the report made of them.
#[derive(Debug, Clone, PartialEq, Eq)]
pub struct Scan {
    pub issues: Vec<Issue>,
    pub report: Report,
}

/// Scans a project tree given as a pre-order listing and composes the
/// report in the format asked for. Fails only where the root is missing or
/// is not a directory.
pub fn run_scan(listing: &Vec<Entry>, config: &Config, format: &str) -> (result: Result<
    Scan,
    ScanError,
>)
    ensures
        match result {
            Ok(scan) => {
                &&& root_fault(listing@).is_none()
                &&& views(scan.issues@) == scan_issues(
                    listing@,
                    config.effective_ignore(),
                    config.effective_large_file_kb(),
                )
                &&& scan.report@ == report_for(views(scan.issues@), lowercase_text(format@))
            },
            Err(fault) => root_fault(listing@) == Some(fault),
        },
{
    match run_all(listing, config) {
        Ok(issues) => {
            let report = emit_report(&issues, format);
            Ok(Scan { issues, report })
        },
        Err(fault) => Err(fault),
    }
}

} // verus!
