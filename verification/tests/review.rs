use jira_ai::llm::RagDocument;
use jira_ai::review::{
    build_prompt, build_request, existing_text, extract_json_block, finish_review, review_queries,
    ContradictionFinding, Related, ReviewResult, ReviewRun, SYSTEM, UNREADABLE,
};
use jira_ai::vectordb::{Chunk, SearchHit};

fn hit(id: &str, source_id: &str) -> SearchHit {
    SearchHit {
        chunk: Chunk {
            id: id.into(),
            source_type: "jira".into(),
            source_id: source_id.into(),
            title: format!("t{id}"),
            url: format!("u{id}"),
            space_or_project: "".into(),
            author: "".into(),
            created_at: 0,
            updated_at: 0,
            labels: vec![],
            text: format!("x{id}"),
            vector: vec![],
        },
        score: 0,
    }
}

#[test]
fn json_in_a_marked_fence() {
    let s = "Here is the review:\n\n```json\n{\n  \"gaps\": [\"missing error handling\"],\n  \"overall_grade\": \"C\"\n}\n```\n\nDone.";
    assert_eq!(
        extract_json_block(s).as_deref(),
        Some("{\n  \"gaps\": [\"missing error handling\"],\n  \"overall_grade\": \"C\"\n}")
    );
}

#[test]
fn json_between_the_outermost_braces() {
    let s = "Sure, here is the JSON: {\"summary\": \"all good\", \"overall_grade\": \"A\"} let me know.";
    assert_eq!(
        extract_json_block(s).as_deref(),
        Some("{\"summary\": \"all good\", \"overall_grade\": \"A\"}")
    );
}

#[test]
fn json_in_a_plain_fence() {
    assert_eq!(extract_json_block("a ``` {\"x\": 1} ``` b").as_deref(), Some("{\"x\": 1}"));
    assert_eq!(extract_json_block("``` text ``` {y}").as_deref(), Some("{y}"));
    assert_eq!(extract_json_block("```json {z}").as_deref(), Some("{z}"));
}

#[test]
fn no_json_at_all() {
    assert_eq!(extract_json_block("this is just text"), None);
    assert_eq!(extract_json_block("{ broken json"), None);
    assert_eq!(extract_json_block("} {"), None);
    assert_eq!(extract_json_block(""), None);
}

#[test]
fn long_documents_are_searched_by_chunks() {
    assert_eq!(review_queries("short"), vec!["short"]);
    let edge = "あ".repeat(1200);
    assert_eq!(review_queries(&edge), vec![edge.clone()]);
    assert!(review_queries(&"あ".repeat(1201)).len() > 1);
}

#[test]
fn related_documents_are_others_and_once() {
    let mut r = Related::new();
    r.add_hits("me", &vec![hit("1", "a"), hit("2", "me"), hit("1", "a")]);
    r.add_hits("me", &vec![hit("1", "a"), hit("3", "b")]);
    assert_eq!(r.ids, vec!["1", "3"]);
    assert_eq!(r.docs[0].title, "t1 (a)");
    assert_eq!(r.docs[1].text, "x3");
}

#[test]
fn prompt_holds_all_parts() {
    let none: Vec<RagDocument> = vec![];
    assert_eq!(existing_text(&none), "(関連既存ナレッジは見つかりませんでした)\n");
    let docs = vec![RagDocument {
        title: "D".into(),
        url: "U".into(),
        source_type: "jira".into(),
        text: "B".into(),
    }];
    assert_eq!(existing_text(&docs), "[1] D (jira)\nURL: U\nB\n\n");
    let p = build_prompt("題", "本文", &docs);
    assert!(p.starts_with("## NEW ドキュメント\nタイトル: 題\n本文:\n本文\n\n## EXISTING 関連ナレッジ\n[1] D (jira)\nURL: U\nB\n\n\n\n以下の JSON"));
    assert!(!p.contains("{TITLE}") && !p.contains("{NEW_BODY}") && !p.contains("{EXISTING_DOCS}"));
    let odd = build_prompt("{NEW_BODY}", "x", &none);
    assert!(odd.contains("タイトル: x\n"));
    let q = build_request("m", "題", "本文", &docs);
    assert_eq!(q.user, p);
    assert_eq!(q.system, SYSTEM);
    assert!(q.history.is_empty() && q.documents.is_empty());
}

#[test]
fn unreadable_answers_are_kept() {
    let r = finish_review("t", "s", "u", 42, "raw".into(), None);
    assert_eq!(r.doc_title, "t");
    assert_eq!(r.doc_source_id, "s");
    assert_eq!(r.doc_url, "u");
    assert_eq!(r.reviewed_at, 42);
    assert_eq!(r.summary, UNREADABLE);
    assert_eq!(r.raw_response, "raw");
}

#[test]
fn answers_that_were_read_are_not_kept() {
    let mut parsed = ReviewResult::default();
    parsed.overall_grade = "B".into();
    parsed.raw_response = "earlier".into();
    let r = finish_review("t", "s", "u", 1, "raw".into(), Some(parsed.clone()));
    assert_eq!(r.raw_response, "");
    assert_eq!(r.overall_grade, "B");
    parsed.contradictions.push(ContradictionFinding {
        new_excerpt: "n".into(),
        existing_title: "e".into(),
        existing_url: "u".into(),
        explanation: "x".into(),
    });
    let r = finish_review("t", "s", "u", 1, "raw".into(), Some(parsed));
    assert_eq!(r.raw_response, "");
    assert_eq!(r.contradictions.len(), 1);
}

#[test]
fn a_review_searches_and_then_asks() {
    let mut run = ReviewRun::new("題", "me", "u", "本文", "m");
    assert_eq!(run.next_query().as_deref(), Some("本文"));
    run.receive(&vec![hit("1", "a"), hit("2", "me")]);
    assert_eq!(run.next_query(), None);
    let q = run.request();
    assert_eq!(q.model, "m");
    assert!(q.user.contains("[1] t1 (a) (jira)\nURL: u1\nx1\n"));
    assert!(!q.user.contains("t2"));
}
