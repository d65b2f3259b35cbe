use jira_ai::embedding::{
    after_attempt, backoff, check_count, retry_after, AfterAttempt, EmbedPlan, GeminiEmbedder,
    Outcome, Wait, EMBED_DIM, MAX_EMBED_ATTEMPTS,
};

#[test]
fn backoff_doubles_up_to_eight_seconds() {
    let got: Vec<u64> = (1..=8).map(backoff).collect();
    assert_eq!(got, vec![500, 1000, 2000, 4000, 8000, 8000, 8000, 8000]);
    assert_eq!(backoff(u32::MAX), 8000);
}

#[test]
fn retry_after_is_read() {
    assert_eq!(retry_after(" 12 "), Some(12));
    assert_eq!(retry_after("+3"), Some(3));
    assert_eq!(retry_after("-1"), None);
    assert_eq!(retry_after("soon"), None);
    assert_eq!(retry_after(""), None);
    assert_eq!(retry_after("18446744073709551615"), Some(u64::MAX));
    assert_eq!(retry_after("18446744073709551616"), None);
}

#[test]
fn attempts() {
    let answered = |status: u16, header: Option<&str>| {
        Outcome::Answered(status, header.map(|s| s.to_owned()))
    };
    assert_eq!(after_attempt(1, &answered(200, None)), AfterAttempt::Read);
    assert_eq!(
        after_attempt(1, &answered(429, Some("7"))),
        AfterAttempt::Retry(Wait::Seconds(7))
    );
    assert_eq!(
        after_attempt(2, &answered(503, Some("x"))),
        AfterAttempt::Retry(Wait::Millis(1000))
    );
    assert_eq!(
        after_attempt(4, &answered(500, None)),
        AfterAttempt::Retry(Wait::Millis(4000))
    );
    assert_eq!(after_attempt(MAX_EMBED_ATTEMPTS, &answered(429, Some("7"))), AfterAttempt::Fail);
    assert_eq!(after_attempt(1, &answered(400, None)), AfterAttempt::Fail);
    assert_eq!(
        after_attempt(3, &Outcome::Unanswered),
        AfterAttempt::Retry(Wait::Millis(2000))
    );
    assert_eq!(after_attempt(5, &Outcome::Unanswered), AfterAttempt::Fail);
}

#[test]
fn plans() {
    let e = GeminiEmbedder::new("k".into(), "  ".into());
    assert_eq!(e.model, "text-embedding-004");
    assert_eq!(
        e.url(),
        "https://generativelanguage.googleapis.com/v1beta/models/text-embedding-004:batchEmbedContents"
    );
    assert!(matches!(e.plan(&vec![]), EmbedPlan::Nothing));
    match e.plan(&vec!["a".to_owned(), "b".to_owned()]) {
        EmbedPlan::Send(reqs) => {
            assert_eq!(reqs.len(), 2);
            assert_eq!(reqs[1].text, "b");
            assert_eq!(reqs[1].model, "models/text-embedding-004");
            assert_eq!(reqs[1].output_dimensionality, EMBED_DIM);
        }
        other => panic!("got {other:?}"),
    }
    let named = GeminiEmbedder::new("".into(), "m".into());
    assert_eq!(named.model, "m");
    assert!(matches!(named.plan(&vec!["a".to_owned()]), EmbedPlan::NoKey));
    assert!(matches!(named.plan(&vec![]), EmbedPlan::Nothing));
}

#[test]
fn counts_must_agree() {
    assert!(check_count(2, 2).is_ok());
    assert_eq!(
        check_count(2, 13).unwrap_err(),
        "gemini embed: expected 2 embeddings, got 13"
    );
}
