use jira_ai::chunking::adf::walk_adf;
use jira_ai::chunking::storage::content_of;
use jira_ai::chunking::{
    adf_to_text, compress_whitespace, known_time, parse_confluence_storage, parse_iso,
    parse_iso_string, split, ConfluencePageContent, CHUNK_CHARS, CHUNK_OVERLAP,
};
use jira_ai::json::Json;
use jira_ai::xml::{read_events, XmlEvent};

fn s(t: &str) -> Json {
    Json::Str(t.to_owned())
}

fn obj(fields: Vec<(&str, Json)>) -> Json {
    Json::Object(fields.into_iter().map(|(k, v)| (k.to_owned(), v)).collect())
}

fn text_node(t: &str) -> Json {
    obj(vec![("type", s("text")), ("text", s(t))])
}

fn node(kind: &str, content: Vec<Json>) -> Json {
    obj(vec![("type", s(kind)), ("content", Json::Array(content))])
}

fn cell(kind: &str, t: &str) -> Json {
    node(kind, vec![node("paragraph", vec![text_node(t)])])
}

#[test]
fn split_short_text_yields_one_chunk() {
    let chunks = split("hello world");
    assert_eq!(chunks.len(), 1);
    assert_eq!(chunks[0], "hello world");
}

#[test]
fn split_long_text_yields_multiple_chunks() {
    let long = "あ".repeat(3000);
    let chunks = split(&long);
    assert!(
        chunks.len() > 1,
        "expected multiple chunks, got {}",
        chunks.len()
    );
    for c in &chunks {
        assert!(c.chars().count() <= CHUNK_CHARS + CHUNK_OVERLAP);
    }
}

#[test]
fn chunks_are_not_empty_and_not_too_long() {
    let body = "word ".repeat(2000);
    let chunks = split(&body);
    assert!(chunks.len() > 5);
    for c in &chunks {
        assert!(!c.is_empty());
        assert!(c.chars().count() <= CHUNK_CHARS);
    }
    assert!(split("").is_empty());
    assert!(split("  \n ").is_empty());
}

#[test]
fn parse_iso_handles_valid() {
    let t = parse_iso(Some("2026-06-04T12:00:00Z"));
    assert!(t > 0);
    assert!(t > 1700000000); // > 2023
}

#[test]
fn parse_iso_handles_invalid() {
    assert_eq!(parse_iso(Some("not-a-date")), 0);
    assert_eq!(parse_iso(None), 0);
}

#[test]
fn parse_iso_gives_unix_seconds() {
    assert_eq!(parse_iso(Some("1970-01-01T00:00:10Z")), 10);
    assert_eq!(parse_iso(Some("1970-01-01T01:00:00+01:00")), 0);
    assert_eq!(parse_iso(Some("1969-12-31T23:59:59Z")), -1);
    assert_eq!(parse_iso(Some("2026-05-01T00:00:00.000+0000")), 0);
    assert_eq!(parse_iso_string(&Some("1970-01-02T00:00:00Z".to_owned())), 86400);
    assert_eq!(parse_iso_string(&None), 0);
    assert_eq!(known_time(Some(7)), 7);
    assert_eq!(known_time(None), 0);
}

#[test]
fn adf_to_text_extracts_table() {
    let adf = node(
        "doc",
        vec![node(
            "table",
            vec![
                node(
                    "tableRow",
                    vec![cell("tableHeader", "name"), cell("tableHeader", "value")],
                ),
                node(
                    "tableRow",
                    vec![cell("tableCell", "timeout"), cell("tableCell", "30s")],
                ),
            ],
        )],
    );
    let text = adf_to_text(&adf);
    assert!(text.contains("name | value"), "got: {text:?}");
    assert!(text.contains("timeout | 30s"), "got: {text:?}");
}

#[test]
fn adf_to_text_extracts_mention_and_emoji() {
    let adf = node(
        "paragraph",
        vec![
            text_node("hello "),
            obj(vec![
                ("type", s("mention")),
                ("attrs", obj(vec![("id", s("12345")), ("text", s("@kyosuke"))])),
            ]),
            text_node(" "),
            obj(vec![
                ("type", s("emoji")),
                ("attrs", obj(vec![("shortName", s(":wave:"))])),
            ]),
        ],
    );
    let text = adf_to_text(&adf);
    assert!(text.contains("@kyosuke"), "got: {text:?}");
    assert!(text.contains(":wave:"), "got: {text:?}");
}

#[test]
fn adf_to_text_extracts_codeblock() {
    let adf = obj(vec![
        ("type", s("codeBlock")),
        ("attrs", obj(vec![("language", s("rust"))])),
        ("content", Json::Array(vec![text_node("fn main() {}")])),
    ]);
    let text = adf_to_text(&adf);
    assert!(text.contains("```rust"), "got: {text:?}");
    assert!(text.contains("fn main() {}"), "got: {text:?}");
}

#[test]
fn adf_to_text_extracts_panel() {
    let adf = obj(vec![
        ("type", s("panel")),
        ("attrs", obj(vec![("panelType", s("warning"))])),
        (
            "content",
            Json::Array(vec![node("paragraph", vec![text_node("watch out")])]),
        ),
    ]);
    let text = adf_to_text(&adf);
    assert!(text.contains("[warning]"), "got: {text:?}");
    assert!(text.contains("watch out"), "got: {text:?}");
}

#[test]
fn adf_to_text_extracts_paragraph() {
    let adf = node(
        "doc",
        vec![
            node("paragraph", vec![text_node("Hello "), text_node("world")]),
            node("heading", vec![text_node("Section 2")]),
        ],
    );
    let text = adf_to_text(&adf);
    assert!(text.contains("Hello world"), "got: {text:?}");
    assert!(text.contains("Section 2"), "got: {text:?}");
}

#[test]
fn adf_text_has_at_most_two_line_feeds_in_a_row() {
    let adf = node(
        "doc",
        vec![
            node("paragraph", vec![text_node("a\n\n\n\n\nb")]),
            node("paragraph", vec![]),
            node("paragraph", vec![]),
            node("paragraph", vec![text_node("c")]),
        ],
    );
    let text = adf_to_text(&adf);
    assert!(!text.contains("\n\n\n"), "got: {text:?}");
    assert!(text.contains("a\n\nb"), "got: {text:?}");
    assert_eq!(adf_to_text(&Json::Null), "");
    assert_eq!(adf_to_text(&Json::Number), "");
    assert_eq!(adf_to_text(&Json::Bool(true)), "");
}

#[test]
fn compress_whitespace_collapses_runs() {
    assert_eq!(compress_whitespace("a   b\n\n\nc"), "a b\nc");
    assert_eq!(compress_whitespace("  hello   world  "), " hello world ");
}

#[test]
fn compress_whitespace_twice_is_once() {
    let once = compress_whitespace(" a \t b \n \n\n  c\u{3000}d ");
    assert_eq!(compress_whitespace(&once), once);
    assert!(!once.contains("\n\n"));
    assert!(!once.contains("  "));
}

#[test]
fn parse_confluence_storage_extracts_plain_text() {
    let html = "<p>Hello <strong>world</strong></p>";
    let r = parse_confluence_storage(html);
    assert!(r.text.contains("Hello"), "text: {}", r.text);
    assert!(r.text.contains("world"), "text: {}", r.text);
}

#[test]
fn parse_confluence_storage_detects_drawio_macro() {
    let html = r#"<p>before</p>
<ac:structured-macro ac:name="drawio">
  <ac:parameter ac:name="diagramName">MyDiagram</ac:parameter>
  <ac:parameter ac:name="contentId">12345</ac:parameter>
</ac:structured-macro>
<p>after</p>"#;
    let r = parse_confluence_storage(html);
    assert_eq!(r.drawio_refs, vec!["MyDiagram"]);
    assert!(r.text.contains("before"));
    assert!(r.text.contains("after"));
}

#[test]
fn parse_confluence_storage_detects_mermaid_macro() {
    let html = r#"<ac:structured-macro ac:name="mermaid-cloud">
  <ac:parameter ac:name="code">
    <ac:plain-text-body><![CDATA[graph TD
  A --> B]]></ac:plain-text-body>
  </ac:parameter>
</ac:structured-macro>"#;
    let r = parse_confluence_storage(html);
    assert_eq!(
        r.mermaid_blocks.len(),
        1,
        "got blocks: {:?}",
        r.mermaid_blocks
    );
    assert!(r.mermaid_blocks[0].contains("graph TD"));
    assert!(r.mermaid_blocks[0].contains("A --> B"));
}

#[test]
fn parse_confluence_storage_detects_image_refs() {
    let html = r#"<p>see this</p>
<ac:image><ri:attachment ri:filename="screenshot.png"/></ac:image>
<ac:image><ri:attachment ri:filename="arch.svg"/></ac:image>"#;
    let r = parse_confluence_storage(html);
    assert_eq!(r.image_refs, vec!["screenshot.png", "arch.svg"]);
}

#[test]
fn parse_confluence_storage_separates_drawio_from_body_text() {
    // The text inside a draw.io macro is not part of the text of the page.
    let html = r#"<p>visible</p>
<ac:structured-macro ac:name="drawio">
  <ac:parameter ac:name="diagramName">Hidden</ac:parameter>
</ac:structured-macro>"#;
    let r = parse_confluence_storage(html);
    assert!(r.text.contains("visible"));
    assert!(
        !r.text.contains("Hidden"),
        "drawio param leaked into body: {}",
        r.text
    );
}

#[test]
fn macros_do_not_hide_what_follows() {
    let before = "<p>before</p>";
    let after = r#"<span>after</span><ac:image><ri:attachment ri:filename="a.png"/></ac:image>
<ac:structured-macro ac:name="drawio"><ac:parameter ac:name="diagramName">Two</ac:parameter></ac:structured-macro>"#;
    let without = parse_confluence_storage(&format!("{before}{after}"));
    assert!(without.text.contains("after"));
    assert_eq!(without.image_refs, vec!["a.png"]);
    let macros = [
        r#"<ac:structured-macro ac:name="drawio"><ac:parameter ac:name="diagramName">One</ac:parameter><ac:parameter ac:name="border"/></ac:structured-macro>"#,
        r#"<ac:structured-macro ac:name="mermaid"><ac:plain-text-body/></ac:structured-macro>"#,
        r#"<ac:structured-macro ac:name="mermaid-cloud"/>"#,
        r#"<ac:structured-macro ac:name="drawio"/>"#,
        r#"<ac:structured-macro ac:name="drawio"><ac:structured-macro ac:name="toc"/><ac:parameter ac:name="diagramName">One</ac:parameter>in</ac:structured-macro>"#,
        r#"<ac:structured-macro ac:name="drawio"><p>in</p><ri:attachment ri:filename="b.png"/></ac:structured-macro>"#,
    ];
    for m in macros {
        let r = parse_confluence_storage(&format!("{before}{m}{after}"));
        assert_eq!(r.text, without.text, "with {m}");
        assert_eq!(r.image_refs, without.image_refs, "with {m}");
        let mut refs = parse_confluence_storage(m).drawio_refs;
        refs.push("Two".to_owned());
        assert_eq!(r.drawio_refs, refs, "with {m}");
    }
}

#[test]
fn an_empty_macro_does_not_end_the_one_around_it() {
    let html = r#"<ac:structured-macro ac:name="drawio"><ac:structured-macro ac:name="toc"/><ac:parameter ac:name="diagramName">Flow</ac:parameter></ac:structured-macro><p>body</p>"#;
    let r = parse_confluence_storage(html);
    assert_eq!(r.drawio_refs, vec!["Flow"]);
    assert_eq!(r.text, "\nbody ");
    let html = r#"<ac:structured-macro ac:name="mermaid"><ac:structured-macro ac:name="drawio"/><ac:plain-text-body><![CDATA[graph TD]]></ac:plain-text-body></ac:structured-macro>"#;
    assert_eq!(parse_confluence_storage(html).mermaid_blocks, vec!["graph TD"]);
}

#[test]
fn adf_children_are_read_in_order() {
    let children = vec![
        node("paragraph", vec![text_node("a")]),
        node("heading", vec![text_node("b"), text_node("c")]),
    ];
    let mut out = "kept ".to_owned();
    walk_adf(&node("doc", children.clone()), &mut out);
    assert_eq!(out, "kept a\nbc\n");
    let copy = Json::Array(children).clone();
    assert_eq!(copy.as_array().unwrap().len(), 2);
    assert_eq!(copy.as_array().unwrap()[1].str_field("type"), Some("heading"));
}

#[test]
fn broken_storage_counts_up_to_the_break() {
    let r = parse_confluence_storage("<p>kept</p><p attr=\"open>lost");
    assert!(r.text.contains("kept"), "text: {}", r.text);
    assert!(!r.text.contains("lost"), "text: {}", r.text);
}

#[test]
fn no_events_no_content() {
    let c = content_of(&vec![XmlEvent::Eof]);
    assert!(c.text.is_empty());
    assert!(c.drawio_refs.is_empty());
    assert!(c.mermaid_blocks.is_empty());
    assert!(c.image_refs.is_empty());
    let d = ConfluencePageContent::default();
    assert!(d.text.is_empty() && d.image_refs.is_empty());
}

#[test]
fn xml_events_come_in_order_and_end() {
    let events = read_events(b"<a x=\"1\"><b/>t&amp;u</a>", false, false, true);
    assert!(matches!(events.last(), Some(XmlEvent::Eof)));
    match &events[0] {
        XmlEvent::Start(tag) => {
            assert_eq!(tag.name, b"a".to_vec());
            let attr = tag.attrs[0].as_ref().unwrap();
            assert_eq!(attr.key, b"x".to_vec());
            assert_eq!(attr.value.as_deref(), Some("1"));
        }
        other => panic!("got {other:?}"),
    }
    assert!(matches!(&events[1], XmlEvent::Empty(tag) if tag.name == b"b".to_vec()));
    assert!(matches!(&events[2], XmlEvent::Text(Some(t)) if t == "t&u"));
    assert!(matches!(&events[3], XmlEvent::End(name) if *name == b"a".to_vec()));
    let broken = read_events(b"<a></b>", false, true, false);
    assert!(matches!(broken.last(), Some(XmlEvent::Malformed(_))));
}
