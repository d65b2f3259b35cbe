use jira_ai::atlassian::confluence::{PageBody, PageBodyVariant, PageVersion};
use jira_ai::atlassian::jira::{JiraFields, JiraProject, JiraStatus};
use jira_ai::atlassian::{
    AtlassianClient, ConfluenceAttachment, ConfluencePage, JiraAttachment, JiraIssue,
};
use jira_ai::config::{AtlassianConfig, IngestOptions};
use jira_ai::ingest::attachments::{
    base_name, diagram_download_url, matches_name, normalize_name, ImageWalk, NameMatch,
};
use jira_ai::ingest::batches::{
    chunks_to_embed, fetched_line, new_pages_line, EmbedRun, StoredTime, EMBED_BATCH,
};
use jira_ai::ingest::{
    attachment_download_url, chunk_parts, confluence_to_chunks, detect_new_pages, drawio_chunks,
    find_drawio_attachment, jira_image_chunks, jira_to_chunks, jql, page_extras,
    page_image_chunks, source_of_issue, wants_issue_images, PreChunk, MAX_DOCUMENTS,
};
use jira_ai::json::Json;

fn client() -> AtlassianClient {
    AtlassianClient::new(AtlassianConfig {
        site_url: "https://a.net".into(),
        email: "u@example.com".into(),
        api_token: "t".into(),
    })
}

fn att(_id: &str, title: &str, media: Option<&str>) -> ConfluenceAttachment {
    ConfluenceAttachment {
        title: title.into(),
        media_type: media.map(|s| s.into()),
        download_link: Some(format!("/wiki/download/attachments/x/{title}")),
        links: None,
    }
}

fn page(id: &str, title: &str, storage: &str) -> ConfluencePage {
    ConfluencePage {
        id: id.into(),
        title: title.into(),
        space_id: Some("DEV".into()),
        version: Some(PageVersion {
            number: 1,
            created_at: Some("2026-05-10T00:00:00Z".into()),
        }),
        body: Some(PageBody {
            storage: Some(PageBodyVariant { value: storage.into() }),
            atlas_doc_format: None,
        }),
        links: None,
    }
}

fn obj(fields: Vec<(&str, Json)>) -> Json {
    Json::Object(fields.into_iter().map(|(k, v)| (k.to_owned(), v)).collect())
}

fn s(t: &str) -> Json {
    Json::Str(t.to_owned())
}

fn issue(key: &str, summary: &str) -> JiraIssue {
    JiraIssue {
        key: key.into(),
        fields: JiraFields {
            summary: Some(summary.into()),
            description: Some(obj(vec![
                ("type", s("doc")),
                (
                    "content",
                    Json::Array(vec![obj(vec![
                        ("type", s("paragraph")),
                        (
                            "content",
                            Json::Array(vec![obj(vec![
                                ("type", s("text")),
                                ("text", s("再現手順は...")),
                            ])]),
                        ),
                    ])]),
                ),
            ])),
            updated: Some("2026-05-02T00:00:00.000+0000".into()),
            created: Some("2026-05-01T00:00:00.000+0000".into()),
            project: Some(JiraProject { key: "PROJ".into(), name: "Project".into() }),
            status: Some(JiraStatus { name: "Open".into() }),
            attachment: vec![],
        },
    }
}

#[test]
fn find_drawio_exact_match() {
    let atts = vec![att("1", "flow.drawio", None), att("2", "other.png", None)];
    let r = find_drawio_attachment(&atts, "flow").unwrap();
    assert_eq!(r.title, "flow.drawio");
}

#[test]
fn find_drawio_case_insensitive() {
    let atts = vec![att("1", "Flow.DrawIO", None)];
    let r = find_drawio_attachment(&atts, "flow").unwrap();
    assert_eq!(r.title, "Flow.DrawIO");
}

#[test]
fn find_drawio_whitespace_normalized() {
    let atts = vec![att("1", "Auth  Flow.drawio", None)];
    let r = find_drawio_attachment(&atts, "Auth Flow").unwrap();
    assert_eq!(r.title, "Auth  Flow.drawio");
}

#[test]
fn find_drawio_fallback_single_diagram() {
    // A single diagram is taken though its name is another.
    let atts = vec![
        att("1", "unrelated_name.drawio", None),
        att("2", "screenshot.png", Some("image/png")),
    ];
    let r = find_drawio_attachment(&atts, "Something Else").unwrap();
    assert_eq!(r.title, "unrelated_name.drawio");
}

#[test]
fn find_drawio_no_match_when_multiple_candidates() {
    let atts = vec![
        att("1", "a.drawio", None),
        att("2", "b.drawio", None),
        att("3", "c.png", None),
    ];
    // Several diagrams, none of that name.
    assert!(find_drawio_attachment(&atts, "totally_different").is_none());
}

#[test]
fn find_drawio_other_ways() {
    let atts = vec![att("1", "x.png", None), att("2", "flow v2.xml", None)];
    assert_eq!(find_drawio_attachment(&atts, "FLOW").unwrap().title, "flow v2.xml");
    let atts = vec![att("1", "blob", Some("application/vnd.jgraph.mxfile"))];
    assert_eq!(find_drawio_attachment(&atts, "q").unwrap().title, "blob");
    assert!(find_drawio_attachment(&atts, "   ").is_none());
    assert_eq!(
        diagram_download_url(&atts, "q").as_deref(),
        Some("/wiki/download/attachments/x/blob")
    );
    assert_eq!(diagram_download_url(&atts, ""), None);
}

#[test]
fn names_are_normalized() {
    assert_eq!(normalize_name("  Ａ B\t\tÇ  "), "ａ b ç");
    assert_eq!(base_name("a.b.drawio"), "a.b");
    assert_eq!(base_name("none"), "none");
    assert!(matches_name(NameMatch::Fuzzy, "fl", "flow.xml", &None));
    assert!(!matches_name(NameMatch::Fuzzy, "fl", "flow.png", &None));
}

#[test]
fn download_links() {
    let mut a = att("1", "t", None);
    assert_eq!(
        attachment_download_url(&a).as_deref(),
        Some("/wiki/download/attachments/x/t")
    );
    a.download_link = None;
    assert_eq!(attachment_download_url(&a), None);
}

#[test]
fn ingest_jira_creates_text_chunk() {
    let chunks = jira_to_chunks(&client(), &vec![issue("PROJ-1", "ログイン障害")]);
    let jira = chunks.iter().find(|c| c.source_id == "PROJ-1").expect("PROJ-1 chunk missing");
    assert_eq!(jira.id, "jira:PROJ-1:0");
    assert_eq!(jira.source_type, "jira");
    assert!(jira.text.contains("ログイン障害") || jira.text.contains("再現手順"));
    assert!(jira.text.starts_with("ログイン障害\n\n再現手順は..."));
    assert!(jira.url.ends_with("/browse/PROJ-1"));
    assert_eq!(jira.space_or_project, "PROJ");
    assert_eq!(jira.labels, vec!["Open"]);
    assert_eq!(jira.created_at, 0);
    assert_eq!(jira.updated_at, 0);
    assert_eq!(jira.author, "");
}

#[test]
fn issue_times_are_read() {
    let mut i = issue("PROJ-1", "t");
    i.fields.created = Some("2026-05-01T00:00:00Z".into());
    i.fields.updated = Some("2026-05-02T09:00:00.5+09:00".into());
    let c = jira_to_chunks(&client(), &vec![i.clone()]);
    assert_eq!(c[0].created_at, 1777593600);
    assert_eq!(c[0].updated_at, 1777680000);
    assert_eq!(i.fields.description.unwrap().str_field("type"), Some("doc"));
}

#[test]
fn issue_without_text_has_no_chunk() {
    let mut i = issue("P-1", "  ");
    i.fields.description = None;
    assert!(jira_to_chunks(&client(), &vec![i]).is_empty());
    let mut i = issue("P-2", "only title");
    i.fields.description = None;
    i.fields.project = None;
    i.fields.status = None;
    let c = jira_to_chunks(&client(), &vec![i]);
    assert_eq!(c.len(), 1);
    assert_eq!(c[0].text, "only title");
    assert_eq!(c[0].space_or_project, "");
    assert!(c[0].labels.is_empty());
}

#[test]
fn ingest_confluence_creates_text_chunk() {
    let chunks = confluence_to_chunks(
        &client(),
        &vec![page("p1", "認証フロー設計", "<p>認証は OAuth2 を使う</p>")],
    );
    let conf = chunks.iter().find(|c| c.source_id == "p1").expect("p1 chunk missing");
    assert_eq!(conf.source_type, "confluence");
    assert!(conf.text.contains("OAuth2"));
    assert_eq!(conf.space_or_project, "DEV");
    assert_eq!(conf.id, "confluence:p1:0");
    assert_eq!(conf.created_at, 1778371200);
    assert_eq!(conf.updated_at, conf.created_at);
}

#[test]
fn mermaid_stands_below_the_text() {
    let html = "<p>t</p><ac:structured-macro ac:name=\"mermaid\"><ac:plain-text-body><![CDATA[graph TD]]></ac:plain-text-body></ac:structured-macro>";
    let chunks = confluence_to_chunks(&client(), &vec![page("9", "T", html)]);
    assert_eq!(chunks.len(), 1);
    assert!(
        chunks[0].text.contains("[Mermaid 図: page 9 #1]\ngraph TD"),
        "got: {}",
        chunks[0].text
    );
}

#[test]
fn page_without_body_has_its_title() {
    let chunks = confluence_to_chunks(&client(), &vec![page("9", "T", "")]);
    assert_eq!(chunks.len(), 1);
    assert_eq!(chunks[0].text, "T");
    assert!(confluence_to_chunks(&client(), &vec![page("9", " ", "")]).is_empty());
}

#[test]
fn ingest_confluence_with_drawio_adds_diagram_chunk() {
    let drawio_xml = r#"<?xml version="1.0" encoding="UTF-8"?>
<mxfile>
  <diagram id="p" name="認証フロー">
    <mxGraphModel><root>
      <mxCell id="0"/>
      <mxCell id="1" parent="0"/>
      <mxCell id="A" value="ユーザー" vertex="1" parent="1"/>
      <mxCell id="B" value="API Gateway" vertex="1" parent="1"/>
      <mxCell id="E" value="HTTP request" edge="1" source="A" target="B" parent="1"/>
    </root></mxGraphModel>
  </diagram>
</mxfile>"#;
    let p = page(
        "p1",
        "認証設計",
        "<p>see diagram</p><ac:structured-macro ac:name=\"drawio\"><ac:parameter ac:name=\"diagramName\">flow</ac:parameter></ac:structured-macro>",
    );
    let content = page_extras(&p).expect("diagram wanted");
    let atts = vec![att("att1", "flow.drawio", Some("application/vnd.jgraph.mxfile"))];
    let name = &content.drawio_refs[0];
    assert_eq!(
        diagram_download_url(&atts, name).as_deref(),
        Some("/wiki/download/attachments/x/flow.drawio")
    );
    let chunks = drawio_chunks(&client(), &p, 0, name, drawio_xml.as_bytes()).unwrap();
    let drawio = chunks
        .iter()
        .find(|c| c.id.contains(":drawio:"))
        .expect("drawio chunk missing");
    assert_eq!(drawio.id, "confluence:p1:drawio:0:0");
    assert_eq!(drawio.title, "認証設計 (draw.io: flow)");
    assert!(drawio.labels.contains(&"drawio".to_owned()));
    assert!(drawio.text.contains("ユーザー"), "got: {}", drawio.text);
    assert!(drawio.text.contains("HTTP request"), "got: {}", drawio.text);
    assert!(drawio_chunks(&client(), &p, 0, name, b"<a></b>").is_err());
}

#[test]
fn image_chunks() {
    let c = page_image_chunks(&client(), &page("1", "T", ""), 3, "a.png", "説明");
    assert_eq!(c[0].id, "confluence:1:img:3:0");
    assert_eq!(c[0].title, "T (画像: a.png)");
    assert_eq!(c[0].text, "[画像: a.png]\n説明");
    assert_eq!(c[0].labels, vec!["image"]);
    let mut k = issue("K-1", "S");
    k.fields.created = Some("2026-05-01T00:00:00Z".into());
    let c = jira_image_chunks(&client(), &k, 2, "b.png", "d");
    assert_eq!(c[0].id, "jira:K-1:img:2:0");
    assert_eq!(c[0].title, "S (画像: b.png)");
    assert_eq!(c[0].url, "https://a.net/browse/K-1");
    assert_eq!(c[0].created_at, 1777593600);
}

#[test]
fn long_issue_has_numbered_chunks() {
    let c = jira_to_chunks(&client(), &vec![issue("K-1", &"語 ".repeat(3000))]);
    assert!(c.len() > 2);
    for (i, chunk) in c.iter().enumerate() {
        assert_eq!(chunk.id, format!("jira:K-1:{i}"));
    }
    let src = source_of_issue(&client(), &issue("K-1", "x"));
    let parts = chunk_parts(&src, &vec!["p".to_owned(), "q".to_owned()]);
    assert_eq!(parts[1].id, "jira:K-1:1");
    assert_eq!(parts[1].text, "q");
}

#[test]
fn new_pages_are_those_in_their_first_version() {
    let mut second = page("2", "B", "<p>x</p>");
    second.version = Some(PageVersion { number: 2, created_at: None });
    let mut unknown = page("3", "C", "<p>x</p>");
    unknown.version = None;
    let pages = vec![
        page("1", "A", "<p>x</p>"),
        second,
        unknown,
        page("4", "D", ""),
        page("5", "E", "<p> </p>"),
    ];
    let found = detect_new_pages(&client(), &pages);
    assert_eq!(found.len(), 1);
    assert_eq!(found[0].id, "1");
    assert_eq!(found[0].title, "A");
    assert!(found[0].text.starts_with("A\n\n"));
    assert!(found[0].text.contains('x'));
    assert_eq!(found[0].url, "https://a.net/wiki/spaces/_/pages/1");
}

#[test]
fn queries() {
    assert_eq!(jql(None), "ORDER BY updated DESC");
    assert_eq!(jql(Some("T")), "updated >= 'T' ORDER BY updated DESC");
    assert_eq!(MAX_DOCUMENTS, 5000);
}

#[test]
fn page_extras_only_where_needed() {
    assert!(page_extras(&page("1", "T", "<p>x</p>")).is_none());
    assert!(page_extras(&page("1", "T", "")).is_none());
    let p = page("1", "T", "<ac:image><ri:attachment ri:filename=\"a.png\"/></ac:image>");
    assert_eq!(page_extras(&p).unwrap().image_refs, vec!["a.png"]);
}

#[test]
fn vision_needs_all_three() {
    let mut o = IngestOptions::default();
    assert!(!wants_issue_images(&o, true));
    o.enable_vision = true;
    assert!(wants_issue_images(&o, true));
    assert!(!wants_issue_images(&o, false));
    o.fetch_attachments = false;
    assert!(!wants_issue_images(&o, true));
}

#[test]
fn images_of_a_page_in_order_and_limited() {
    let refs: Vec<String> =
        ["none", "doc.pdf", "a.png", "b.png", "c.png"].iter().map(|s| s.to_string()).collect();
    let mut no_link = att("4", "b.png", Some("image/png"));
    no_link.download_link = None;
    let atts = vec![
        att("1", "doc.pdf", Some("application/pdf")),
        att("2", "a.png", Some("image/png")),
        no_link,
        att("3", "c.png", Some("image/jpeg")),
    ];
    let mut walk = ImageWalk::new();
    let job = walk.next_on_page(&atts, &refs, 2).unwrap();
    assert_eq!((job.index, job.name.as_str(), job.mime.as_str()), (2, "a.png", "image/png"));
    assert_eq!(job.url, "/wiki/download/attachments/x/a.png");
    walk.described();
    let job = walk.next_on_page(&atts, &refs, 2).unwrap();
    assert_eq!(job.index, 4);
    assert!(walk.next_on_page(&atts, &refs, 2).is_none());
    let mut walk = ImageWalk::new();
    assert!(walk.next_on_page(&atts, &refs, 0).is_none());
    let mut walk = ImageWalk::new();
    walk.next_on_page(&atts, &refs, 1).unwrap();
    walk.described();
    assert!(walk.next_on_page(&atts, &refs, 1).is_none());
}

#[test]
fn images_of_an_issue() {
    let a = |name: &str, mime: Option<&str>, content: Option<&str>| JiraAttachment {
        id: "1".into(),
        filename: name.into(),
        mime_type: mime.map(|s| s.into()),
        content: content.map(|s| s.into()),
        size: None,
    };
    let atts = vec![
        a("x.txt", Some("text/plain"), Some("u")),
        a("y.png", None, Some("u")),
        a("z.png", Some("image/png"), None),
        a("w.png", Some("image/png"), Some("https://w")),
    ];
    let mut walk = ImageWalk::new();
    let job = walk.next_on_issue(&atts, 5).unwrap();
    assert_eq!((job.index, job.name.as_str(), job.url.as_str()), (3, "w.png", "https://w"));
    walk.described();
    assert!(walk.next_on_issue(&atts, 5).is_none());
}

fn pre(id: &str, updated_at: i64) -> PreChunk {
    PreChunk {
        id: id.into(),
        source_type: "jira".into(),
        source_id: id.into(),
        title: "t".into(),
        url: "u".into(),
        space_or_project: "p".into(),
        author: String::new(),
        created_at: 1,
        updated_at,
        labels: vec!["l".into()],
        text: format!("text {id}"),
    }
}

#[test]
fn unchanged_chunks_are_not_embedded_again() {
    let stored = vec![
        StoredTime { id: "a".into(), updated_at: 5 },
        StoredTime { id: "b".into(), updated_at: 6 },
    ];
    let ids = |v: Vec<PreChunk>| v.into_iter().map(|c| c.id).collect::<Vec<_>>();
    let chunks = || vec![pre("a", 5), pre("b", 7), pre("c", 5)];
    assert_eq!(ids(chunks_to_embed(chunks(), &stored, true)), vec!["b", "c"]);
    assert_eq!(ids(chunks_to_embed(chunks(), &stored, false)), vec!["a", "b", "c"]);
}

#[test]
fn chunks_without_a_known_time_are_embedded_again() {
    let before = jira_to_chunks(&client(), &vec![issue("PROJ-1", "old text")]);
    assert_eq!(before[0].updated_at, 0);
    let stored: Vec<StoredTime> = before
        .iter()
        .map(|c| StoredTime { id: c.id.clone(), updated_at: c.updated_at })
        .collect();
    let after = jira_to_chunks(&client(), &vec![issue("PROJ-1", "new text")]);
    assert_eq!(after[0].id, before[0].id);
    let again = chunks_to_embed(after, &stored, true);
    assert_eq!(again.len(), 1);
    assert!(again[0].text.starts_with("new text"));
}

#[test]
fn batches_cover_all_chunks() {
    let chunks: Vec<PreChunk> = (0..70).map(|i| pre(&i.to_string(), i)).collect();
    let mut run = EmbedRun::new("jira", chunks);
    assert_eq!(run.start_line().as_deref(), Some("jira: 70 チャンクを埋め込み中..."));
    let mut sizes = vec![];
    let mut ids = vec![];
    while let Some(texts) = run.next_texts() {
        sizes.push(texts.len());
        let vectors: Vec<Vec<u32>> = (0..texts.len()).map(|i| vec![i as u32]).collect();
        for (i, c) in run.receive(&vectors).into_iter().enumerate() {
            assert_eq!(c.vector, vec![i as u32]);
            assert_eq!(c.text, texts[i]);
            assert_eq!(c.labels, vec!["l"]);
            ids.push(c.id);
        }
    }
    assert_eq!(sizes, vec![EMBED_BATCH, EMBED_BATCH, 6]);
    assert_eq!(ids, (0..70).map(|i| i.to_string()).collect::<Vec<_>>());
    assert_eq!(run.progress_line(), "jira: 70/70 upsert 完了");
    assert_eq!(EmbedRun::new("x", vec![]).start_line(), None);
}

#[test]
fn too_few_vectors_give_fewer_records() {
    let mut run = EmbedRun::new("jira", vec![pre("a", 1), pre("b", 1)]);
    let recs = run.receive(&vec![vec![9]]);
    assert_eq!(recs.len(), 1);
    assert_eq!(recs[0].id, "a");
    assert_eq!(recs[0].vector, vec![9]);
    assert!(run.next_texts().is_none());
}

#[test]
fn log_lines() {
    assert_eq!(fetched_line("Jira", 12), "Jira: 12 件取得");
    assert_eq!(new_pages_line(3), "新規 Confluence ページを 3 件検出");
}
