use jira_ai::app::sync::SyncEvent;
use jira_ai::app::NewPageInfo;
use jira_ai::atlassian::confluence::{PageBody, PageBodyVariant};
use jira_ai::atlassian::jira::JiraFields;
use jira_ai::atlassian::{
    AtlassianClient, ConfluenceAttachment, ConfluencePage, JiraAttachment, JiraIssue,
};
use jira_ai::config::{AtlassianConfig, IngestOptions};
use jira_ai::ingest::extras::{ExtraAction, PageExtras};
use jira_ai::ingest::issue_images::IssueImages;
use jira_ai::ingest::run::{report_new_pages, SyncStage};

const DIAGRAM: &str = "<mxGraphModel><root><mxCell id=\"a\" value=\"N\" vertex=\"1\"/></root></mxGraphModel>";

fn client() -> AtlassianClient {
    AtlassianClient::new(AtlassianConfig {
        site_url: "https://a.net".into(),
        email: "u".into(),
        api_token: "t".into(),
    })
}

fn att(title: &str, media: &str) -> ConfluenceAttachment {
    ConfluenceAttachment {
        title: title.into(),
        media_type: Some(media.into()),
        download_link: Some(format!("/dl/{title}")),
        links: None,
    }
}

fn page(diagrams: &[&str], images: &[&str]) -> ConfluencePage {
    let mut html = String::from("<p>x</p>");
    for d in diagrams {
        html.push_str(&format!("<ac:structured-macro ac:name=\"drawio\"><ac:parameter ac:name=\"diagramName\">{d}</ac:parameter></ac:structured-macro>"));
    }
    for i in images {
        html.push_str(&format!("<ac:image><ri:attachment ri:filename=\"{i}\"/></ac:image>"));
    }
    ConfluencePage {
        id: "p".into(),
        title: "T".into(),
        space_id: None,
        version: None,
        body: Some(PageBody {
            storage: Some(PageBodyVariant { value: html }),
            atlas_doc_format: None,
        }),
        links: None,
    }
}

/// Runs the extras of a page. Files whose name holds `bad` do not come, images
/// whose name holds `dark` are not described.
fn run(page: &ConfluencePage, atts: Option<Vec<ConfluenceAttachment>>, max: u32) -> Vec<String> {
    let c = client();
    let mut x = PageExtras::new(page, true, true, max);
    let mut last = String::new();
    let mut atts = atts;
    loop {
        x = match x.action() {
            ExtraAction::FetchAttachments => x.attachments(atts.take()),
            ExtraAction::Download(url) => {
                last = url.clone();
                if url.contains("bad") {
                    x.downloaded(&c, page, None)
                } else {
                    x.downloaded(&c, page, Some(DIAGRAM.as_bytes()))
                }
            }
            ExtraAction::Describe(mime) => {
                assert_eq!(mime, "image/png");
                if last.contains("dark") {
                    x.described(&c, page, None)
                } else {
                    x.described(&c, page, Some("d"))
                }
            }
            ExtraAction::Finish => break,
        };
    }
    x.finish().into_iter().map(|c| c.id).collect()
}

#[test]
fn extras_take_diagrams_and_then_images() {
    let p = page(&["one", "bad", "gone", "two"], &["i1.png", "dark.png", "doc.pdf", "i2.png", "i3.png"]);
    let atts = || {
        vec![
            att("one.drawio", "x"),
            att("bad.drawio", "x"),
            att("two.drawio", "x"),
            att("i1.png", "image/png"),
            att("dark.png", "image/png"),
            att("doc.pdf", "application/pdf"),
            att("i2.png", "image/png"),
            att("i3.png", "image/png"),
        ]
    };
    assert_eq!(
        run(&p, Some(atts()), 2),
        vec![
            "confluence:p:drawio:0:0",
            "confluence:p:drawio:3:0",
            "confluence:p:img:0:0",
            "confluence:p:img:3:0",
        ]
    );
    assert_eq!(run(&p, None, 2), Vec::<String>::new());
    assert_eq!(run(&p, Some(atts()), 0).len(), 2);
}

#[test]
fn extras_follow_the_settings() {
    let p = page(&["one"], &["i1.png"]);
    let atts = vec![att("one.drawio", "x"), att("i1.png", "image/png")];
    let x = PageExtras::new(&p, false, true, 5).attachments(Some(atts.clone()));
    assert!(matches!(x.action(), ExtraAction::Download(u) if u == "/dl/i1.png"));
    let x = PageExtras::new(&p, false, false, 5).attachments(Some(atts));
    assert!(matches!(x.action(), ExtraAction::Finish));
    let none = page(&[], &[]);
    assert!(matches!(PageExtras::new(&none, true, true, 5).action(), ExtraAction::Finish));
}

#[test]
fn unasked_answers_change_nothing() {
    let p = page(&["one"], &[]);
    let x = PageExtras::new(&p, true, true, 5)
        .downloaded(&client(), &p, Some(b"x"))
        .described(&client(), &p, Some("d"));
    assert!(matches!(x.action(), ExtraAction::FetchAttachments));
    assert!(x.finish().is_empty());
}

#[test]
fn issue_images_in_order_and_limited() {
    let a = |name: &str, mime: &str| JiraAttachment {
        id: "1".into(),
        filename: name.into(),
        mime_type: Some(mime.into()),
        content: Some(format!("https://f/{name}")),
        size: Some(1),
    };
    let issue = JiraIssue {
        key: "K-1".into(),
        fields: JiraFields {
            summary: Some("S".into()),
            description: None,
            updated: None,
            created: None,
            project: None,
            status: None,
            attachment: vec![
                a("a.txt", "text/plain"),
                a("bad.png", "image/png"),
                a("b.png", "image/png"),
                a("c.png", "image/png"),
                a("d.png", "image/png"),
            ],
        },
    };
    let c = client();
    let mut x = IssueImages::new(&issue, 2);
    assert_eq!(x.file_name(), "bad.png");
    loop {
        x = match x.action() {
            ExtraAction::Download(url) => x.downloaded(!url.contains("bad")),
            ExtraAction::Describe(_) => x.described(&c, Some("d")),
            _ => break,
        };
    }
    assert_eq!(x.file_name(), "");
    let ids: Vec<String> = x.finish().into_iter().map(|c| c.id).collect();
    assert_eq!(ids, vec!["jira:K-1:img:2:0", "jira:K-1:img:3:0"]);
    assert!(matches!(IssueImages::new(&issue, 0).action(), ExtraAction::Finish));
}

fn stages(options: &IngestOptions, vision: bool) -> Vec<SyncStage> {
    let mut out = vec![];
    let mut s = SyncStage::first();
    while s != SyncStage::Done {
        out.push(s);
        s = s.next(options, vision);
    }
    out
}

#[test]
fn stages_of_a_synchronisation() {
    let mut o = IngestOptions::default();
    o.enable_vision = true;
    assert_eq!(stages(&o, true).len(), 7);
    assert!(!stages(&o, false).contains(&SyncStage::IssueImages));
    assert!(stages(&o, false).contains(&SyncStage::PageExtras));
    o.fetch_attachments = false;
    assert_eq!(
        stages(&o, true),
        vec![
            SyncStage::SearchIssues,
            SyncStage::EmbedIssues,
            SyncStage::ListPages,
            SyncStage::EmbedPages,
            SyncStage::ReportNewPages,
        ]
    );
    assert_eq!(SyncStage::first().opening_line().as_deref(), Some("Jira 検索を実行"));
    assert_eq!(
        SyncStage::ListPages.opening_line().as_deref(),
        Some("Confluence pages を取得")
    );
    assert_eq!(SyncStage::Done.opening_line(), None);
}

#[test]
fn new_pages_are_reported() {
    assert!(report_new_pages(vec![]).is_empty());
    let p = NewPageInfo { id: "1".into(), title: "t".into(), url: "u".into(), text: "x".into() };
    let events = report_new_pages(vec![p]);
    assert!(matches!(&events[0], SyncEvent::Log(l) if l == "新規 Confluence ページを 1 件検出"));
    assert!(matches!(&events[1], SyncEvent::NewPagesDetected(v) if v.len() == 1));
}
