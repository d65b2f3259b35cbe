use jira_ai::chat::{
    build_request, documents_of, hits_or_none, question_vector, trimmed_history, ChatMessage, Role,
    HISTORY_LIMIT, SYSTEM_PROMPT, TOP_K,
};
use jira_ai::llm::claude::{
    build_messages, read_answer, ContentBlock, ResponseBlock, ResponseCitation,
};
use jira_ai::llm::gemini;
use jira_ai::llm::gemini::{
    build_contents, extract_citations, generate_url, question_of, Candidate, CandidateContent,
    GenerateResponse, RespPart,
};
use jira_ai::llm::{is_success, HistoryMessage, HistoryRole, LlmRequest, RagDocument};
use jira_ai::vectordb::{Chunk, SearchHit};
use jira_ai::vision::{description, VisionClient, VISION_PROMPT};

fn doc(i: usize) -> RagDocument {
    RagDocument {
        title: format!("doc-{i}"),
        url: format!("https://example.com/{i}"),
        source_type: "jira".to_owned(),
        text: String::new(),
    }
}

fn request(documents: Vec<RagDocument>) -> LlmRequest {
    LlmRequest {
        system: "sys".into(),
        user: "q?".into(),
        history: vec![
            HistoryMessage { role: HistoryRole::User, content: "a".into() },
            HistoryMessage { role: HistoryRole::Assistant, content: "b".into() },
        ],
        documents,
        model: "m".into(),
    }
}

#[test]
fn extract_simple_citations() {
    let docs = vec![doc(1), doc(2), doc(3)];
    let text = "this is [1] and also [3].";
    let cites = extract_citations(text, &docs);
    assert_eq!(cites.len(), 2);
    let titles: Vec<&str> = cites.iter().map(|c| c.title.as_str()).collect();
    assert!(titles.contains(&"doc-1"));
    assert!(titles.contains(&"doc-3"));
}

#[test]
fn extract_dedupes_citations() {
    let docs = vec![doc(1), doc(2)];
    let text = "[1][1] [2] [1]";
    let cites = extract_citations(text, &docs);
    assert_eq!(cites.len(), 2);
}

#[test]
fn extract_ignores_out_of_range() {
    let docs = vec![doc(1)];
    let text = "[1] [5] [99]";
    let cites = extract_citations(text, &docs);
    assert_eq!(cites.len(), 1);
    assert_eq!(cites[0].title, "doc-1");
}

#[test]
fn extract_ignores_non_digit_brackets() {
    let docs = vec![doc(1)];
    let text = "[foo] [bar] [1abc] [1]";
    let cites = extract_citations(text, &docs);
    assert_eq!(cites.len(), 1);
}

#[test]
fn extract_handles_empty_docs() {
    let cites = extract_citations("[1][2]", &vec![]);
    assert_eq!(cites.len(), 0);
}

#[test]
fn citations_come_in_the_order_of_the_documents() {
    let docs = vec![doc(1), doc(2), doc(3)];
    let titles = |t: &str| -> Vec<String> {
        extract_citations(t, &docs).into_iter().map(|c| c.title).collect()
    };
    assert_eq!(titles("[3] then [1]"), vec!["doc-1", "doc-3"]);
    assert_eq!(titles("[[2]"), vec!["doc-2"]);
    assert_eq!(titles("日[002]本"), vec!["doc-2"]);
    assert_eq!(titles("[0] [+1] [1"), Vec::<String>::new());
    assert_eq!(titles("[99999999999999999999999999]"), Vec::<String>::new());
    assert_eq!(titles("[]"), Vec::<String>::new());
}

#[test]
fn gemini_request_holds_documents_and_question() {
    let mut d = doc(1);
    d.text = "body".into();
    let r = build_contents(&request(vec![d]));
    assert_eq!(r.system_instruction, "sys");
    assert_eq!(r.max_output_tokens, 2048);
    let roles: Vec<&str> = r.contents.iter().map(|c| c.role.as_str()).collect();
    assert_eq!(roles, vec!["user", "model", "user"]);
    assert_eq!(
        r.contents[2].text,
        "## 参考ドキュメント\n\n[1] doc-1 (jira)\nbody\n\n## 質問\n\nq?\n\n回答時は根拠となる参照を `[n]` 形式で本文中に明示してください。"
    );
    assert_eq!(question_of(&vec![], "q?"), "## 質問\n\nq?");
    assert_eq!(
        generate_url("x"),
        "https://generativelanguage.googleapis.com/v1beta/models/x:generateContent"
    );
}

fn candidate(parts: Vec<Option<&str>>) -> Candidate {
    Candidate {
        content: Some(CandidateContent {
            parts: Some(
                parts.into_iter().map(|t| RespPart { text: t.map(|s| s.to_owned()) }).collect(),
            ),
        }),
    }
}

#[test]
fn gemini_answer_is_the_first_candidate() {
    let resp = GenerateResponse {
        candidates: Some(vec![
            candidate(vec![Some("a [1]"), None, Some("b")]),
            candidate(vec![Some("other")]),
        ]),
    };
    let r = gemini::read_answer(&vec![doc(1)], &resp);
    assert_eq!(r.content, "a [1]b");
    assert_eq!(r.citations.len(), 1);
    assert_eq!(description(&resp), "other");
    let none = GenerateResponse { candidates: None };
    assert_eq!(gemini::read_answer(&vec![], &none).content, "");
    assert_eq!(description(&none), "");
    let empty = GenerateResponse {
        candidates: Some(vec![
            Candidate { content: None },
            Candidate { content: Some(CandidateContent { parts: None }) },
        ]),
    };
    assert_eq!(empty.first(), "");
    assert_eq!(empty.last(), "");
}

#[test]
fn messages_request_holds_documents_and_question() {
    let mut d = doc(1);
    d.text = "body".into();
    let r = build_messages(&request(vec![d]));
    assert_eq!(r.model, "m");
    assert_eq!(r.max_tokens, 2048);
    assert_eq!(r.system, "sys");
    let roles: Vec<&str> = r.messages.iter().map(|m| m.role.as_str()).collect();
    assert_eq!(roles, vec!["user", "assistant", "user"]);
    assert_eq!(r.messages[2].content.len(), 2);
    assert!(matches!(&r.messages[2].content[0],
        ContentBlock::Document { title, data } if title == "doc-1" && data == "body"));
    assert!(matches!(&r.messages[2].content[1], ContentBlock::Text { text } if text == "q?"));
}

#[test]
fn messages_answer_resolves_citations() {
    let c = |i: Option<usize>, t: Option<&str>| ResponseCitation {
        document_index: i,
        document_title: t.map(|s| s.to_owned()),
    };
    let blocks = vec![
        ResponseBlock::Text {
            text: "x".into(),
            citations: vec![c(Some(1), None), c(None, Some("given")), c(Some(9), Some("gone"))],
        },
        ResponseBlock::Other,
        ResponseBlock::Text { text: "y".into(), citations: vec![c(Some(9), None)] },
    ];
    let r = read_answer(&vec![doc(1), doc(2)], &blocks);
    assert_eq!(r.content, "xy");
    let got: Vec<(String, String)> =
        r.citations.into_iter().map(|c| (c.title, c.url)).collect();
    assert_eq!(
        got,
        vec![
            ("doc-2".into(), "https://example.com/2".into()),
            ("given".into(), "https://example.com/1".into()),
            ("gone".into(), "".into()),
            ("".into(), "".into()),
        ]
    );
}

fn hit(id: &str) -> SearchHit {
    SearchHit {
        chunk: Chunk {
            id: id.into(),
            source_type: "jira".into(),
            source_id: "K-1".into(),
            title: "T".into(),
            url: "u".into(),
            space_or_project: "".into(),
            author: "".into(),
            created_at: 0,
            updated_at: 0,
            labels: vec![],
            text: "body".into(),
            vector: vec![],
        },
        score: 0,
    }
}

fn message(role: Role, content: String) -> ChatMessage {
    ChatMessage { role, content, citations: vec![] }
}

#[test]
fn rag_request_takes_the_last_messages() {
    let history: Vec<ChatMessage> = (0..10)
        .map(|i| message(if i % 2 == 0 { Role::User } else { Role::Assistant }, i.to_string()))
        .collect();
    let r = build_request("m", "q", &history, &vec![hit("a")]);
    assert_eq!(r.system, SYSTEM_PROMPT);
    assert_eq!(r.user, "q");
    assert_eq!(r.model, "m");
    let got: Vec<&str> = r.history.iter().map(|h| h.content.as_str()).collect();
    assert_eq!(got, vec!["2", "3", "4", "5", "6", "7", "8", "9"]);
    assert_eq!(r.history[0].role, HistoryRole::User);
    assert_eq!(r.history[1].role, HistoryRole::Assistant);
    assert_eq!(r.documents[0].title, "T (K-1)");
    assert_eq!(r.documents[0].text, "body");
    assert_eq!(trimmed_history(&history[..3].to_vec()).len(), 3);
    assert!(trimmed_history(&history).len() <= HISTORY_LIMIT);
    assert_eq!(documents_of(&vec![hit("a"), hit("b")]).len(), 2);
    assert!(SYSTEM_PROMPT.starts_with("あなたは社内ナレッジ検索アシスタントです。ユーザー"));
}

#[test]
fn vision_requests() {
    let c = VisionClient::new("key".into(), "m".into());
    let q = c.request(b"\x00\xff", "image/png").unwrap();
    assert_eq!(q.data, "AP8=");
    assert_eq!(q.mime_type, "image/png");
    assert_eq!(q.prompt, VISION_PROMPT);
    assert_eq!(q.max_output_tokens, 1024);
    assert!(c.url().ends_with("/m:generateContent"));
    let none = VisionClient::new("".into(), "m".into());
    assert_eq!(none.request(b"x", "image/png").unwrap_err(), "Gemini API key is empty");
}

#[test]
fn statuses() {
    assert!(is_success(200) && is_success(299));
    assert!(!is_success(199) && !is_success(300) && !is_success(404));
}

#[test]
fn a_failed_search_gives_no_hits() {
    assert!(hits_or_none(None).is_empty());
    assert_eq!(hits_or_none(Some(vec![hit("a")])).len(), 1);
    assert_eq!(question_vector(&vec![vec![1, 2], vec![3]]), vec![1, 2]);
    assert!(question_vector(&vec![]).is_empty());
    assert_eq!(TOP_K, 10);
}
