//! What the bots say: messages to Matrix and lines for the operator.

use vstd::prelude::*;

verus! {

/// A Matrix message, as plain text and as HTML.
#[derive(Debug)]
pub struct Message {
    pub plain: String,
    pub html: String,
}

/// The texts of a `Message`.
pub struct MessageView {
    pub plain: Seq<char>,
    pub html: Seq<char>,
}

impl View for Message {
    type V = MessageView;

    open spec fn view(&self) -> MessageView {
        MessageView { plain: self.plain@, html: self.html@ }
    }
}

/// A line for the operator: an error, or a note on the bot's progress.
#[derive(Debug)]
pub enum Report {
    Note(String),
    Error(String),
}

/// The text of a `Report`.
pub enum ReportView {
    Note(Seq<char>),
    Error(Seq<char>),
}

impl View for Report {
    type V = ReportView;

    open spec fn view(&self) -> ReportView {
        match self {
            Report::Note(t) => ReportView::Note(t@),
            Report::Error(t) => ReportView::Error(t@),
        }
    }
}

/// The texts of a list of reports.
pub open spec fn report_views(list: Seq<Report>) -> Seq<ReportView> {
    list.map_values(|r: Report| r@)
}

/// A message is seen by its two texts.
pub proof fn law_message_view(m: Message)
    ensures
        m@.plain == m.plain@,
        m@.html == m.html@,
{
}

/// A report is seen by its kind and its text, and a list of reports by its entries,
/// in order.
pub proof fn law_report_views(note: String, error: String, list: Seq<Report>)
    ensures
        Report::Note(note)@ == ReportView::Note(note@),
        Report::Error(error)@ == ReportView::Error(error@),
        report_views(list).len() == list.len(),
        forall|k: int| 0 <= k < list.len() ==> #[trigger] report_views(list)[k] == list[k]@,
{
}

/// Nothing to tell the operator.
pub fn no_reports() -> (r: Vec<Report>)
    ensures
        report_views(r@) == Seq::<ReportView>::empty(),
{
    let r: Vec<Report> = Vec::new();
    assert(report_views(r@) =~= Seq::empty());
    r
}

/// One thing to tell the operator.
pub fn one_report(report: Report) -> (r: Vec<Report>)
    ensures
        report_views(r@) == seq![report@],
{
    let mut r: Vec<Report> = Vec::new();
    r.push(report);
    assert(report_views(r@) =~= seq![report@]);
    r
}

} // verus!
