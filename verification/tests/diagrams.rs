use base64::Engine;
use flate2::write::DeflateEncoder;
use flate2::Compression;
use jira_ai::diagrams::drawio::{
    decode_compressed, diagram_from_events, find_model, parse_mxgraph_model, strip_html, to_text,
    to_text_pub, url_decode, DecodeError, DrawioDiagram, DrawioEdge, DrawioError, DrawioNode,
    DrawioPage,
};
use jira_ai::diagrams::{extract_mermaid_text, parse_drawio};
use jira_ai::xml::{read_events, XmlEvent};
use std::io::Write;

const UNCOMPRESSED_SAMPLE: &str = r#"<?xml version="1.0" encoding="UTF-8"?>
<mxfile>
  <diagram id="page1" name="認証フロー">
    <mxGraphModel>
      <root>
        <mxCell id="0"/>
        <mxCell id="1" parent="0"/>
        <mxCell id="2" value="User" vertex="1" parent="1"/>
        <mxCell id="3" value="API Gateway" vertex="1" parent="1"/>
        <mxCell id="4" value="Auth Server" vertex="1" parent="1"/>
        <mxCell id="5" value="HTTP request" edge="1" source="2" target="3" parent="1"/>
        <mxCell id="6" value="validate" edge="1" source="3" target="4" parent="1"/>
      </root>
    </mxGraphModel>
  </diagram>
</mxfile>"#;

fn compressed(inner: &str) -> String {
    let mut enc = DeflateEncoder::new(Vec::new(), Compression::default());
    enc.write_all(inner.as_bytes()).unwrap();
    base64::engine::general_purpose::STANDARD.encode(enc.finish().unwrap())
}

#[test]
fn parse_uncompressed_drawio() {
    let d = parse_drawio(UNCOMPRESSED_SAMPLE.as_bytes()).expect("parse ok");
    assert_eq!(d.pages.len(), 1);
    let page = &d.pages[0];
    assert_eq!(page.name.as_deref(), Some("認証フロー"));
    assert_eq!(page.nodes.len(), 3);
    let labels: Vec<_> = page.nodes.iter().map(|n| n.value.as_str()).collect();
    assert!(labels.contains(&"User"), "got: {labels:?}");
    assert!(labels.contains(&"API Gateway"), "got: {labels:?}");
    assert!(labels.contains(&"Auth Server"), "got: {labels:?}");
    assert_eq!(page.edges.len(), 2);
}

#[test]
fn to_text_formats_nodes_and_edges() {
    let d = parse_drawio(UNCOMPRESSED_SAMPLE.as_bytes()).unwrap();
    let text = to_text(&d, Some("Sample"));
    assert!(text.contains("Sample"), "title missing: {text}");
    assert!(text.contains("User"), "node missing: {text}");
    assert!(text.contains("User -> API Gateway: HTTP request"), "edge missing: {text}");
    assert!(text.contains("API Gateway -> Auth Server: validate"), "edge missing: {text}");
}

#[test]
fn strip_html_removes_tags() {
    assert_eq!(strip_html("<b>label</b>"), "label");
    assert_eq!(strip_html("<font color=\"red\">A</font> <i>B</i>"), "A B");
    assert_eq!(strip_html("plain"), "plain");
}

#[test]
fn strip_html_leaves_no_angle_bracket() {
    assert_eq!(strip_html("a < b > c"), "a c");
    assert_eq!(strip_html(">>x<<"), "x");
    assert_eq!(strip_html("open <never closed"), "open");
    assert_eq!(strip_html("  much \n space "), "much space");
}

#[test]
fn parse_compressed_drawio() {
    let inner = r#"<mxGraphModel><root>
<mxCell id="0"/>
<mxCell id="1" parent="0"/>
<mxCell id="A" value="Node1" vertex="1" parent="1"/>
<mxCell id="B" value="Node2" vertex="1" parent="1"/>
<mxCell id="E" value="link" edge="1" source="A" target="B" parent="1"/>
</root></mxGraphModel>"#;
    let mut enc = DeflateEncoder::new(Vec::new(), Compression::default());
    enc.write_all(inner.as_bytes()).unwrap();
    let compressed = enc.finish().unwrap();
    let b64 = base64::engine::general_purpose::STANDARD.encode(&compressed);

    let xml = format!(
        r#"<?xml version="1.0" encoding="UTF-8"?>
<mxfile>
  <diagram id="p" name="C">{}</diagram>
</mxfile>"#,
        b64
    );
    let d = parse_drawio(xml.as_bytes()).expect("parse ok");
    assert_eq!(d.pages.len(), 1, "pages: {:?}", d.pages);
    let p = &d.pages[0];
    assert_eq!(p.nodes.len(), 2);
    assert_eq!(p.edges.len(), 1);
}

#[test]
fn url_decode_passthrough_xml() {
    let xml = "<root>hi</root>";
    assert_eq!(url_decode(xml), xml);
}

#[test]
fn url_decode_percent_encoded() {
    assert_eq!(url_decode("a%20b%2Bc"), "a b+c");
}

#[test]
fn url_decode_edge_cases() {
    assert_eq!(url_decode("a+b"), "a b");
    assert_eq!(url_decode("%E3%81%82"), "あ");
    assert_eq!(url_decode("%zz%2"), "%zz%2");
    assert_eq!(url_decode("%4"), "%4");
    assert_eq!(url_decode("%41"), "A");
    assert_eq!(url_decode("%+f"), "\u{f}");
    assert_eq!(url_decode("日本語"), "日本語");
    assert_eq!(url_decode("  <a>%20</a>"), "  <a>%20</a>");
    assert_eq!(url_decode("%FF"), "\u{fffd}");
    assert_eq!(url_decode("%éx"), "\u{e9}x".replace('\u{e9}', "%é"));
    assert_eq!(url_decode("%日本"), format!("\0{}", "\u{fffd}本"));
}

#[test]
fn plain_and_compressed_pages_are_read_alike() {
    let graph = "<mxGraphModel><root>\n<mxCell id=\"A\" value=\"一 + 50%25\" vertex=\"1\"/><mxCell id=\"B\" value=\"b\" vertex=\"1\"/><mxCell id=\"E\" value=\"l\" edge=\"1\" source=\"A\" target=\"B\"/></root></mxGraphModel>";
    let escaped: String = graph.bytes().map(|b| format!("%{b:02X}")).collect();
    let file = |inner: &str| {
        format!("<mxfile><diagram name=\"N\">{inner}</diagram></mxfile>")
    };
    let read = |xml: String| parse_drawio(xml.as_bytes()).unwrap();
    let plain = read(file(graph));
    assert_eq!(plain.pages.len(), 1);
    assert_eq!(plain.pages[0].name.as_deref(), Some("N"));
    assert_eq!(plain.pages[0].nodes[0].value, "一 + 50%25");
    assert_eq!(plain.pages[0].edges.len(), 1);
    for packed in [compressed(graph), compressed(&escaped)] {
        let d = read(file(&packed));
        assert_eq!(format!("{d:?}"), format!("{plain:?}"));
    }
}

#[test]
fn decode_compressed_gives_the_markup_back() {
    assert_eq!(decode_compressed(&compressed("<a>x</a>")).unwrap(), "<a>x</a>");
    let with_space = format!("  {}\n", compressed("%3Ca%3E"));
    assert_eq!(decode_compressed(&with_space).unwrap(), "<a>");
}

#[test]
fn decode_compressed_names_its_errors() {
    assert_eq!(decode_compressed("***").unwrap_err(), DecodeError::Base64);
    let garbage = base64::engine::general_purpose::STANDARD.encode([0xffu8, 0xff, 0xff]);
    assert_eq!(decode_compressed(&garbage).unwrap_err(), DecodeError::Deflate);
}

#[test]
fn malformed_files_name_where() {
    match parse_drawio(b"<mxfile><diagram></mxfile>") {
        Err(DrawioError::Xml(m)) => {
            assert!(DrawioError::Xml(m.clone()).message().starts_with("drawio xml: "));
            assert!(!m.is_empty());
        }
        other => panic!("got {other:?}"),
    }
    match parse_drawio(b"<mxfile><mxGraphModel><root></mxGraphModel></mxfile>") {
        Err(DrawioError::Model(m)) => {
            assert!(DrawioError::Model(m).message().starts_with("mxGraphModel: "));
        }
        other => panic!("got {other:?}"),
    }
}

#[test]
fn payload_that_cannot_be_decoded_is_passed_over() {
    let d = parse_drawio(b"<mxfile><diagram name=\"x\">not base64!</diagram></mxfile>").unwrap();
    assert!(d.pages.is_empty());
    let no_model = compressed("<other/>");
    let xml = format!("<mxfile><diagram>{no_model}</diagram></mxfile>");
    assert!(parse_drawio(xml.as_bytes()).unwrap().pages.is_empty());
}

#[test]
fn cells_without_label_are_no_nodes() {
    let xml = r#"<mxGraphModel><root>
<mxCell id="a" value="  " vertex="1"/>
<mxCell id="b" value="&lt;b&gt;B&lt;/b&gt;" vertex="1"></mxCell>
<mxCell id="e" edge="1" source="b"/>
</root></mxGraphModel>"#;
    let events = read_events(xml.as_bytes(), true, true, false);
    let m = find_model(&events).unwrap().unwrap();
    assert_eq!(m.nodes.len(), 1);
    assert_eq!(m.nodes[0].id, "b");
    assert_eq!(m.nodes[0].value, "B");
    assert_eq!(m.edges.len(), 1);
    assert_eq!(m.edges[0].source.as_deref(), Some("b"));
    assert_eq!(m.edges[0].target, None);
    assert_eq!(m.edges[0].value, "");
    let (again, end) = parse_mxgraph_model(&events, 1).unwrap();
    assert_eq!(again.nodes.len(), 1);
    assert!(end <= events.len());
}

#[test]
fn events_without_a_graph_hold_no_page() {
    assert!(diagram_from_events(&vec![XmlEvent::Eof]).unwrap().pages.is_empty());
    assert!(find_model(&vec![XmlEvent::Eof]).unwrap().is_none());
    assert!(DrawioDiagram::default().pages.is_empty());
    assert!(DrawioPage::default().nodes.is_empty());
}

fn two_pages() -> DrawioDiagram {
    DrawioDiagram {
        pages: vec![
            DrawioPage {
                name: Some("P".to_owned()),
                nodes: vec![
                    DrawioNode { id: "1".to_owned(), value: "old".to_owned() },
                    DrawioNode { id: "1".to_owned(), value: "new".to_owned() },
                ],
                edges: vec![
                    DrawioEdge {
                        source: Some("1".to_owned()),
                        target: None,
                        value: " ".to_owned(),
                    },
                    DrawioEdge {
                        source: Some("x".to_owned()),
                        target: Some("1".to_owned()),
                        value: "go".to_owned(),
                    },
                ],
            },
            DrawioPage { name: None, nodes: vec![], edges: vec![] },
        ],
    }
}

#[test]
fn to_text_writes_pages_nodes_and_edges() {
    assert_eq!(
        to_text(&two_pages(), None),
        "[draw.io 図]\n--- ページ1 P ---\nノード:\n  - old\n  - new\n接続:\n  new -> (?)\n  (?) -> new: go\n--- ページ2 (無題) ---\n"
    );
    assert_eq!(to_text_pub(&DrawioDiagram::default(), Some("t")), "[draw.io 図: t]\n");
}

#[test]
fn extract_with_title() {
    let out = extract_mermaid_text("graph TD\n  A --> B", Some("flow"));
    assert!(out.starts_with("[Mermaid 図: flow]"));
    assert!(out.contains("graph TD"));
    assert!(out.ends_with('\n'));
}

#[test]
fn extract_without_title() {
    let out = extract_mermaid_text("sequenceDiagram\n  A->>B: x\n", None);
    assert!(out.starts_with("[Mermaid 図]"));
    assert!(out.contains("A->>B"));
}

#[test]
fn mermaid_text_ends_in_one_line_feed() {
    assert_eq!(extract_mermaid_text("a", None), "[Mermaid 図]\na\n");
    assert_eq!(extract_mermaid_text("a\n", Some("t")), "[Mermaid 図: t]\na\n");
    assert_eq!(extract_mermaid_text("", None), "[Mermaid 図]\n\n");
}

#[test]
fn url_decode_undoes_form_encoding() {
    for t in ["a b+c%", "日本語 & more", "x=1;y=<2>", "100% \u{1f600}"] {
        assert_eq!(url_decode(&jira_ai::codec::urlencoding(t)), t);
    }
}
