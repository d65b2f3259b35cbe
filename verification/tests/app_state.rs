use jira_ai::app::browse::{
    chunk_summary, source_label, BrowseCounts, BrowseEvent, BrowseState, LIST_LIMIT,
};
use jira_ai::app::chat::{history_label, questions, ChatEvent, ChatState};
use jira_ai::app::review::{findings_heading, review_header, ReviewEvent, ReviewState};
use jira_ai::app::sync::{incremental_label, synced_text, SyncEvent, SyncStatus};
use jira_ai::app::NewPageInfo;
use jira_ai::chat::{Citation, Role};
use jira_ai::config::{AppConfig, IngestOptions, SyncState};
use jira_ai::review::ReviewResult;
use jira_ai::vectordb::Chunk;

fn new_page(id: &str) -> NewPageInfo {
    NewPageInfo { id: id.into(), title: "t".into(), url: "u".into(), text: "x".into() }
}

#[test]
fn sync_events_change_the_status() {
    let mut config = AppConfig::default();
    config.ingest.auto_review_new_pages = true;
    config.ingest.max_auto_reviews = 2;
    let mut times = SyncState::default();
    let mut st = SyncStatus::new(&times);
    st.start(false);
    assert!(st.busy);
    let o = config.ingest.clone();
    assert!(!st.apply(SyncEvent::Log("line".into()), &mut times, &o));
    assert!(!st.apply(SyncEvent::JiraDone("T1".into()), &mut times, &o));
    assert!(!st.apply(SyncEvent::ConfluenceDone("T2".into()), &mut times, &o));
    let pages = vec![new_page("1"), new_page("2"), new_page("3")];
    assert!(!st.apply(SyncEvent::NewPagesDetected(pages), &mut times, &o));
    assert!(st.apply(SyncEvent::Finished, &mut times, &o));
    assert!(!st.busy);
    assert_eq!(times.jira_last_synced.as_deref(), Some("T1"));
    assert_eq!(times.confluence_last_synced.as_deref(), Some("T2"));
    assert_eq!(st.jira_last_synced.as_deref(), Some("T1"));
    assert_eq!(
        st.log,
        vec![
            "全件同期を開始",
            "line",
            "Jira sync 完了",
            "Confluence sync 完了",
            "新規 3 件を自動レビュー候補に",
        ]
    );
    let shown = st.shown_log();
    assert_eq!(shown[0], "新規 3 件を自動レビュー候補に");
    assert_eq!(shown.len(), 5);
    let reviews = st.take_reviews(&o);
    assert_eq!(reviews.len(), 2);
    assert_eq!(reviews[0].id, "1");
    assert!(st.take_reviews(&o).is_empty());
}

#[test]
fn new_pages_wait_for_the_end_of_the_sync() {
    let mut config = AppConfig::default();
    config.ingest.auto_review_new_pages = true;
    config.ingest.max_auto_reviews = 2;
    let o = config.ingest.clone();
    let mut times = SyncState::default();
    let mut st = SyncStatus::new(&times);
    st.start(false);
    let pages = vec![new_page("1"), new_page("2"), new_page("3")];
    let earlier = vec![SyncEvent::Log("line".into()), SyncEvent::NewPagesDetected(pages)];
    assert!(st.drain(earlier, &mut times, &o).is_none());
    assert!(st.busy);
    assert_eq!(st.to_review.len(), 3);
    let later = vec![SyncEvent::ConfluenceDone("T2".into()), SyncEvent::Finished];
    let reviews = st.drain(later, &mut times, &o).unwrap();
    assert_eq!(reviews.iter().map(|p| p.id.as_str()).collect::<Vec<_>>(), vec!["1", "2"]);
    assert!(!st.busy && st.to_review.is_empty());
    assert_eq!(times.confluence_last_synced.as_deref(), Some("T2"));
    let mut r = ReviewState::new(vec![]);
    r.start_auto(reviews.len());
    assert_eq!(r.pending_auto, 2);
    assert!(st.drain(vec![], &mut times, &o).is_none());
}

#[test]
fn failed_syncs_are_logged() {
    let mut times = SyncState::default();
    let mut st = SyncStatus::new(&times);
    st.start(true);
    let o = IngestOptions::default();
    st.apply(SyncEvent::NewPagesDetected(vec![new_page("1")]), &mut times, &o);
    assert!(st.apply(SyncEvent::Failed("boom".into()), &mut times, &o));
    assert_eq!(st.log[0], "増分同期を開始");
    assert_eq!(st.log.last().unwrap(), "エラー: boom");
    assert!(st.take_reviews(&o).is_empty());
    assert_eq!(incremental_label(true), "増分同期");
    assert_eq!(incremental_label(false), "増分同期 (未同期)");
    assert_eq!(synced_text(&None), "未同期");
    assert_eq!(synced_text(&Some("T".into())), "T");
}

#[test]
fn the_log_shows_its_last_lines() {
    let mut times = SyncState::default();
    let mut st = SyncStatus::new(&times);
    let o = IngestOptions::default();
    for i in 0..250 {
        st.apply(SyncEvent::Log(i.to_string()), &mut times, &o);
    }
    let shown = st.shown_log();
    assert_eq!(shown.len(), 200);
    assert_eq!(shown[0], "249");
    assert_eq!(shown[199], "50");
}

#[test]
fn chat_asks_and_answers() {
    let mut c = ChatState::new();
    c.input = "  \n".into();
    assert!(c.submit().is_none());
    c.input = "q1".into();
    let q = c.submit().unwrap();
    assert_eq!(q.text, "q1");
    assert!(q.history.is_empty());
    assert!(c.busy && c.input.is_empty());
    c.apply(ChatEvent::Response(
        "a1".into(),
        vec![Citation { title: "t".into(), url: "u".into(), source_type: "jira".into() }],
    ));
    assert!(!c.busy);
    c.input = "q2".into();
    assert_eq!(c.submit().unwrap().history.len(), 2);
    c.apply(ChatEvent::Failed("no".into()));
    assert_eq!(c.history[3].content, "エラー: no");
    assert_eq!(c.history[3].role, Role::Assistant);
    assert_eq!(c.history[1].citations.len(), 1);
    assert_eq!(questions(&c.history), vec![(0, "q1".to_owned()), (2, "q2".to_owned())]);
}

#[test]
fn labels_are_one_short_line() {
    assert_eq!(history_label("a\nb"), "a b");
    assert_eq!(history_label(&"あ".repeat(22)), "あ".repeat(22));
    assert_eq!(history_label(&"あ".repeat(23)), format!("{}…", "あ".repeat(22)));
}

fn chunk(id: &str, title: &str, text: &str) -> Chunk {
    Chunk {
        id: id.into(),
        source_type: "jira".into(),
        source_id: id.into(),
        title: title.into(),
        url: "".into(),
        space_or_project: "".into(),
        author: "".into(),
        created_at: 0,
        updated_at: 0,
        labels: vec![],
        text: text.into(),
        vector: vec![],
    }
}

#[test]
fn browse_events_and_filters() {
    let mut b = BrowseState::new();
    assert!(b.first_show());
    assert!(!b.first_show());
    b.busy = true;
    b.apply(BrowseEvent::Counts(BrowseCounts { total: 3, jira: 2, confluence: 1 }));
    assert!(b.busy);
    assert_eq!(b.counts_line(), "合計: 3 件  (jira: 2, confluence: 1)");
    b.apply(BrowseEvent::Chunks(vec![
        chunk("1", "Alpha", "one"),
        chunk("2", "Beta", "TWO"),
        chunk("3", "Gamma", "three"),
    ]));
    assert!(!b.busy);
    assert_eq!(b.visible(), vec![0, 1, 2]);
    b.keyword = " ALPHA ".into();
    assert_eq!(b.visible(), vec![0]);
    b.keyword = "two".into();
    assert_eq!(b.visible(), vec![1]);
    b.keyword = "t".into();
    assert_eq!(b.visible(), vec![1, 2]);
    b.apply(BrowseEvent::Failed("x".into()));
    assert_eq!(b.chunks.len(), 3);
    assert!(b.filter().source_type.is_none());
    b.filter_source_type = "jira".into();
    assert_eq!(b.filter().source_type.as_deref(), Some("jira"));
    b.toggle("2");
    let two = b.chunks[1].clone();
    assert!(b.is_expanded(&two));
    b.toggle("2");
    assert!(!b.is_expanded(&two));
    assert_eq!(LIST_LIMIT, 500);
}

#[test]
fn chunk_lines() {
    assert_eq!(chunk_summary(&chunk("1", "T", "a\nb")), "[jira] T  —  a b");
    let long = chunk("1", "T", &"x".repeat(121));
    assert_eq!(chunk_summary(&long), format!("[jira] T  —  {}…", "x".repeat(120)));
    assert_eq!(source_label(""), "すべて");
    assert_eq!(source_label("jira"), "Jira");
    assert_eq!(source_label("confluence"), "Confluence");
    assert_eq!(source_label("x"), "x");
}

#[test]
fn review_events() {
    let mut r = ReviewState::new(vec![]);
    assert_eq!(r.tab_label(), "レビュー");
    assert!(!r.can_review());
    r.paste_text = "x".into();
    assert!(r.can_review());
    assert_eq!(r.title(), "(無題)");
    r.paste_title = "T".into();
    assert_eq!(r.title(), "T");
    r.start_auto(2);
    assert!(r.apply(ReviewEvent::Auto(ReviewResult::default())));
    assert_eq!(r.pending_auto, 1);
    assert_eq!(r.tab_label(), "レビュー (1)");
    assert!(!r.apply(ReviewEvent::Failed("x".into())));
    assert!(!r.apply(ReviewEvent::Failed("x".into())));
    assert_eq!(r.pending_auto, 0);
    r.busy = true;
    assert!(!r.apply(ReviewEvent::Manual(ReviewResult::default())));
    assert!(!r.busy && r.manual_result.is_some());
    r.toggle(0);
    assert_eq!(r.expanded_idx, Some(0));
    r.toggle(0);
    assert_eq!(r.expanded_idx, None);
    r.clear_pasted();
    assert!(r.manual_result.is_none() && r.paste_text.is_empty());
}

#[test]
fn review_lines() {
    let mut r = ReviewResult::default();
    r.overall_grade = "A".into();
    r.doc_title = "D".into();
    r.summary = "s".repeat(90);
    assert_eq!(review_header(&r), format!("[A] D  —  {}", "s".repeat(80)));
    assert_eq!(findings_heading("⚠️ 矛盾", 2), "⚠️ 矛盾 (2件)");
}
