use jira_ai::config::{
    default_max_reviews, AppConfig, LlmProviderKind, SecretAction, StoredSecrets, ATLASSIAN_TOKEN,
    EMBEDDING_API_KEY, KEYRING_SERVICE, LLM_API_KEY,
};

#[test]
fn defaults() {
    let c = AppConfig::default();
    assert_eq!(c.llm.kind, LlmProviderKind::Gemini);
    assert_eq!(c.llm.model, "gemini-2.5-flash");
    assert_eq!(c.embedding.model, "text-embedding-004");
    assert!(c.ingest.fetch_attachments && c.ingest.parse_drawio);
    assert!(!c.ingest.enable_vision && !c.ingest.auto_review_new_pages);
    assert_eq!(c.ingest.max_images_per_doc, 5);
    assert_eq!(c.ingest.vision_model, "gemini-2.5-flash");
    assert_eq!(c.ingest.max_auto_reviews, 10);
    assert_eq!(default_max_reviews(), 10);
    assert!(c.atlassian.site_url.is_empty());
    assert!(c.sync_state.jira_last_synced.is_none());
    assert_eq!(KEYRING_SERVICE, "jira_ai");
}

fn secret_config() -> AppConfig {
    let mut c = AppConfig::default();
    c.atlassian.site_url = "https://a.net".into();
    c.atlassian.api_token = "tok".into();
    c.embedding.api_key = "emb".into();
    c
}

#[test]
fn files_hold_no_secret() {
    let stripped = secret_config().without_secrets();
    assert_eq!(stripped.atlassian.api_token, "");
    assert_eq!(stripped.llm.api_key, "");
    assert_eq!(stripped.embedding.api_key, "");
    assert_eq!(stripped.atlassian.site_url, "https://a.net");
}

#[test]
fn empty_secrets_are_deleted() {
    let actions = secret_config().secret_actions();
    assert_eq!(actions.len(), 3);
    assert!(matches!(&actions[0], SecretAction::Keep(n, v) if n == ATLASSIAN_TOKEN && v == "tok"));
    assert!(matches!(&actions[1], SecretAction::Delete(n) if n == LLM_API_KEY));
    assert!(matches!(&actions[2], SecretAction::Keep(n, v) if n == EMBEDDING_API_KEY && v == "emb"));
}

#[test]
fn settings_read_back() {
    let c = secret_config();
    let back = c.without_secrets().with_secrets(&StoredSecrets {
        atlassian_token: Some("tok".into()),
        llm_api_key: None,
        embedding_api_key: Some("emb".into()),
    });
    assert_eq!(back.atlassian.api_token, c.atlassian.api_token);
    assert_eq!(back.llm.api_key, c.llm.api_key);
    assert_eq!(back.embedding.api_key, c.embedding.api_key);
    assert_eq!(back.atlassian.site_url, c.atlassian.site_url);
}

#[test]
fn missing_models_are_filled() {
    let mut c = AppConfig::default();
    c.llm.model = String::new();
    c.fill_model("other");
    assert_eq!(c.llm.model, "gemini-2.5-flash");
    c.llm.model = String::new();
    c.llm.kind = LlmProviderKind::Claude;
    c.fill_model("other");
    assert_eq!(c.llm.model, "other");
    c.fill_model("another");
    assert_eq!(c.llm.model, "other");
}

#[test]
fn embedding_key_falls_back_to_gemini() {
    let mut c = AppConfig::default();
    c.llm.api_key = "llm".into();
    assert_eq!(c.embedding_params(), ("llm".into(), "text-embedding-004".into()));
    c.llm.kind = LlmProviderKind::Claude;
    assert_eq!(c.embedding_params().0, "");
    c.embedding.api_key = "emb".into();
    assert_eq!(c.embedding_params().0, "emb");
    assert!(!c.ingest.uses_vision("k"));
    c.ingest.enable_vision = true;
    assert!(c.ingest.uses_vision("k"));
    assert!(!c.ingest.uses_vision(""));
}
