//! The course of a synchronisation.
use crate::app::sync::{SyncEvent, SyncEventView};
use crate::app::{NewPageInfo, NewPageView};
use crate::config::IngestOptions;
use crate::ingest::batches;
use crate::ingest::batches::new_pages_line;
use crate::ingest::wants_issue_images;
use vstd::prelude::*;

verus! {

/// What is done next in a synchronisation.
#[derive(Debug, Clone, Copy, PartialEq, Eq, Structural)]
pub enum SyncStage {
    /// The issues are searched for.
    SearchIssues,
    /// The images of the issues are described.
    IssueImages,
    /// The chunks of the issues are embedded and stored.
    EmbedIssues,
    /// The pages are listed.
    ListPages,
    /// The diagrams and images of the pages are fetched.
    PageExtras,
    /// The chunks of the pages are embedded and stored.
    EmbedPages,
    /// New pages are reported.
    ReportNewPages,
    Done,
}

/// What is done after a stage.
pub open spec fn next_stage(stage: SyncStage, options: IngestOptions, has_vision: bool) -> SyncStage {
    match stage {
        SyncStage::SearchIssues => if options.fetch_attachments && options.enable_vision
            && has_vision {
            SyncStage::IssueImages
        } else {
            SyncStage::EmbedIssues
        },
        SyncStage::IssueImages => SyncStage::EmbedIssues,
        SyncStage::EmbedIssues => SyncStage::ListPages,
        SyncStage::ListPages => if options.fetch_attachments {
            SyncStage::PageExtras
        } else {
            SyncStage::EmbedPages
        },
        SyncStage::PageExtras => SyncStage::EmbedPages,
        SyncStage::EmbedPages => SyncStage::ReportNewPages,
        SyncStage::ReportNewPages => SyncStage::Done,
        SyncStage::Done => SyncStage::Done,
    }
}

impl SyncStage {
    /// What is done first.
    pub fn first() -> (r: Self)
        ensures
            r == SyncStage::SearchIssues,
    {
        SyncStage::SearchIssues
    }

    /// What is done after this.
    pub fn next(self, options: &IngestOptions, has_vision: bool) -> (r: Self)
        ensures
            r == next_stage(self, *options, has_vision),
    {
        match self {
            SyncStage::SearchIssues => if wants_issue_images(options, has_vision) {
                SyncStage::IssueImages
            } else {
                SyncStage::EmbedIssues
            },
            SyncStage::IssueImages => SyncStage::EmbedIssues,
            SyncStage::EmbedIssues => SyncStage::ListPages,
            SyncStage::ListPages => if options.fetch_attachments {
                SyncStage::PageExtras
            } else {
                SyncStage::EmbedPages
            },
            SyncStage::PageExtras => SyncStage::EmbedPages,
            SyncStage::EmbedPages => SyncStage::ReportNewPages,
            SyncStage::ReportNewPages => SyncStage::Done,
            SyncStage::Done => SyncStage::Done,
        }
    }

    /// The line that the log gets when this begins.
    pub fn opening_line(self) -> (r: Option<String>)
        ensures
            r.deep_view() == (match self {
                SyncStage::SearchIssues => Some("Jira 検索を実行"@),
                SyncStage::ListPages => Some("Confluence pages を取得"@),
                _ => None,
            }),
    {
        match self {
            SyncStage::SearchIssues => Some("Jira 検索を実行".to_owned()),
            SyncStage::ListPages => Some("Confluence pages を取得".to_owned()),
            _ => None,
        }
    }
}

/// What is reported of new pages: nothing where there are none.
pub open spec fn new_page_reports(pages: Seq<NewPageView>) -> Seq<SyncEventView> {
    if pages.len() == 0 {
        Seq::empty()
    } else {
        seq![
            SyncEventView::Log(batches::new_pages_text(pages.len())),
            SyncEventView::NewPagesDetected(pages),
        ]
    }
}

/// What is reported of new pages.
pub fn report_new_pages(pages: Vec<NewPageInfo>) -> (r: Vec<SyncEvent>)
    ensures
        r.deep_view() == new_page_reports(pages.deep_view()),
{
    let mut out: Vec<SyncEvent> = Vec::new();
    let ghost all = pages.deep_view();
    if pages.len() > 0 {
        out.push(SyncEvent::Log(new_pages_line(pages.len())));
        out.push(SyncEvent::NewPagesDetected(pages));
    }
    assert(out.deep_view() =~= new_page_reports(all));
    out
}

// ---------------------------------------------------------------------------
// Laws

/// How many stages are left at most.
pub open spec fn stages_left(stage: SyncStage) -> int {
    match stage {
        SyncStage::SearchIssues => 7,
        SyncStage::IssueImages => 6,
        SyncStage::EmbedIssues => 5,
        SyncStage::ListPages => 4,
        SyncStage::PageExtras => 3,
        SyncStage::EmbedPages => 2,
        SyncStage::ReportNewPages => 1,
        SyncStage::Done => 0,
    }
}

/// Every synchronisation comes to its end, whatever the settings are.
pub proof fn law_sync_ends(stage: SyncStage, options: IngestOptions, has_vision: bool)
    requires
        stage != SyncStage::Done,
    ensures
        0 <= stages_left(next_stage(stage, options, has_vision)) < stages_left(stage),
{
}

} // verus!
