//! Settings.
use vstd::prelude::*;

verus! {

/// The name under which the secrets are kept.
pub const KEYRING_SERVICE: &'static str = "jira_ai";

/// The name of the secret that is the Atlassian token.
pub const ATLASSIAN_TOKEN: &'static str = "atlassian_token";

/// The name of the secret that is the key of the language model.
pub const LLM_API_KEY: &'static str = "llm_api_key";

/// The name of the secret that is the key of the embedding model.
pub const EMBEDDING_API_KEY: &'static str = "embedding_api_key";

/// All settings.
pub struct AppConfig {
    pub atlassian: AtlassianConfig,
    pub llm: LlmConfig,
    pub sync_state: SyncState,
    pub ingest: IngestOptions,
    pub embedding: EmbeddingConfig,
}

/// Settings of the embedding model.
pub struct EmbeddingConfig {
    /// The name of the Gemini model.
    pub model: String,
    /// The Gemini key. Where it is empty and the language model is Gemini, the
    /// key of that is used. Kept in memory and among the secrets only.
    pub api_key: String,
}

/// Settings of the synchronisation.
pub struct IngestOptions {
    /// Whether attachments are fetched.
    pub fetch_attachments: bool,
    /// Whether draw.io files are read.
    pub parse_drawio: bool,
    /// Whether images are described by Gemini.
    pub enable_vision: bool,
    /// The largest number of images of one page or issue that are described.
    pub max_images_per_doc: u32,
    /// The model that describes images.
    pub vision_model: String,
    /// Whether new pages are reviewed after a synchronisation.
    pub auto_review_new_pages: bool,
    /// The largest number of reviews after one synchronisation.
    pub max_auto_reviews: u32,
}

/// Settings of the Atlassian site.
pub struct AtlassianConfig {
    /// Such as `https://yourorg.atlassian.net`.
    pub site_url: String,
    pub email: String,
    /// Kept in memory and among the secrets only.
    pub api_token: String,
}

/// Settings of the language model.
pub struct LlmConfig {
    pub kind: LlmProviderKind,
    pub model: String,
    /// Kept in memory and among the secrets only.
    pub api_key: String,
}

/// The provider of the language model.
#[derive(Debug, Clone, Copy, PartialEq, Eq, Structural)]
pub enum LlmProviderKind {
    Claude,
    Gemini,
}

/// When the last synchronisations ended.
pub struct SyncState {
    pub jira_last_synced: Option<String>,
    pub confluence_last_synced: Option<String>,
}

// ---------------------------------------------------------------------------
// Models

/// The model of all settings.
pub struct ConfigView {
    pub atlassian: AtlassianView,
    pub llm: LlmView,
    pub sync_state: SyncStateView,
    pub ingest: IngestView,
    pub embedding: EmbeddingView,
}

/// The model of the settings of the embedding model.
pub struct EmbeddingView {
    pub model: Seq<char>,
    pub api_key: Seq<char>,
}

/// The model of the settings of the synchronisation.
pub struct IngestView {
    pub fetch_attachments: bool,
    pub parse_drawio: bool,
    pub enable_vision: bool,
    pub max_images_per_doc: u32,
    pub vision_model: Seq<char>,
    pub auto_review_new_pages: bool,
    pub max_auto_reviews: u32,
}

/// The model of the settings of the Atlassian site.
pub struct AtlassianView {
    pub site_url: Seq<char>,
    pub email: Seq<char>,
    pub api_token: Seq<char>,
}

/// The model of the settings of the language model.
pub struct LlmView {
    pub kind: LlmProviderKind,
    pub model: Seq<char>,
    pub api_key: Seq<char>,
}

/// The model of when the last synchronisations ended.
pub struct SyncStateView {
    pub jira_last_synced: Option<Seq<char>>,
    pub confluence_last_synced: Option<Seq<char>>,
}

impl DeepView for AppConfig {
    type V = ConfigView;

    open spec fn deep_view(&self) -> ConfigView {
        ConfigView {
            atlassian: self.atlassian.deep_view(),
            llm: self.llm.deep_view(),
            sync_state: self.sync_state.deep_view(),
            ingest: self.ingest.deep_view(),
            embedding: self.embedding.deep_view(),
        }
    }
}

impl DeepView for EmbeddingConfig {
    type V = EmbeddingView;

    open spec fn deep_view(&self) -> EmbeddingView {
        EmbeddingView { model: self.model@, api_key: self.api_key@ }
    }
}

impl DeepView for IngestOptions {
    type V = IngestView;

    open spec fn deep_view(&self) -> IngestView {
        IngestView {
            fetch_attachments: self.fetch_attachments,
            parse_drawio: self.parse_drawio,
            enable_vision: self.enable_vision,
            max_images_per_doc: self.max_images_per_doc,
            vision_model: self.vision_model@,
            auto_review_new_pages: self.auto_review_new_pages,
            max_auto_reviews: self.max_auto_reviews,
        }
    }
}

impl DeepView for AtlassianConfig {
    type V = AtlassianView;

    open spec fn deep_view(&self) -> AtlassianView {
        AtlassianView {
            site_url: self.site_url@,
            email: self.email@,
            api_token: self.api_token@,
        }
    }
}

impl DeepView for LlmConfig {
    type V = LlmView;

    open spec fn deep_view(&self) -> LlmView {
        LlmView { kind: self.kind, model: self.model@, api_key: self.api_key@ }
    }
}

impl DeepView for SyncState {
    type V = SyncStateView;

    open spec fn deep_view(&self) -> SyncStateView {
        SyncStateView {
            jira_last_synced: self.jira_last_synced.deep_view(),
            confluence_last_synced: self.confluence_last_synced.deep_view(),
        }
    }
}

// ---------------------------------------------------------------------------
// Copies

impl Clone for AppConfig {
    fn clone(&self) -> (r: Self)
        ensures
            r.deep_view() == self.deep_view(),
    {
        AppConfig {
            atlassian: self.atlassian.clone(),
            llm: self.llm.clone(),
            sync_state: self.sync_state.clone(),
            ingest: self.ingest.clone(),
            embedding: self.embedding.clone(),
        }
    }
}

impl Clone for EmbeddingConfig {
    fn clone(&self) -> (r: Self)
        ensures
            r.deep_view() == self.deep_view(),
    {
        EmbeddingConfig { model: self.model.clone(), api_key: self.api_key.clone() }
    }
}

impl Clone for IngestOptions {
    fn clone(&self) -> (r: Self)
        ensures
            r.deep_view() == self.deep_view(),
    {
        IngestOptions {
            fetch_attachments: self.fetch_attachments,
            parse_drawio: self.parse_drawio,
            enable_vision: self.enable_vision,
            max_images_per_doc: self.max_images_per_doc,
            vision_model: self.vision_model.clone(),
            auto_review_new_pages: self.auto_review_new_pages,
            max_auto_reviews: self.max_auto_reviews,
        }
    }
}

impl Clone for AtlassianConfig {
    fn clone(&self) -> (r: Self)
        ensures
            r.deep_view() == self.deep_view(),
    {
        AtlassianConfig {
            site_url: self.site_url.clone(),
            email: self.email.clone(),
            api_token: self.api_token.clone(),
        }
    }
}

impl Clone for LlmConfig {
    fn clone(&self) -> (r: Self)
        ensures
            r.deep_view() == self.deep_view(),
    {
        LlmConfig {
            kind: self.kind,
            model: self.model.clone(),
            api_key: self.api_key.clone(),
        }
    }
}

impl Clone for SyncState {
    fn clone(&self) -> (r: Self)
        ensures
            r.deep_view() == self.deep_view(),
    {
        SyncState {
            jira_last_synced: self.jira_last_synced.clone(),
            confluence_last_synced: self.confluence_last_synced.clone(),
        }
    }
}

// ---------------------------------------------------------------------------
// Defaults

/// The default of the settings of the embedding model.
pub open spec fn default_embedding() -> EmbeddingView {
    EmbeddingView { model: "text-embedding-004"@, api_key: Seq::empty() }
}

/// The default of the settings of the synchronisation.
pub open spec fn default_ingest() -> IngestView {
    IngestView {
        fetch_attachments: true,
        parse_drawio: true,
        enable_vision: false,
        max_images_per_doc: 5,
        vision_model: "gemini-2.5-flash"@,
        auto_review_new_pages: false,
        max_auto_reviews: 10,
    }
}

/// The default of the settings of the Atlassian site.
pub open spec fn default_atlassian() -> AtlassianView {
    AtlassianView { site_url: Seq::empty(), email: Seq::empty(), api_token: Seq::empty() }
}

/// The default of the settings of the language model.
pub open spec fn default_llm() -> LlmView {
    LlmView {
        kind: LlmProviderKind::Gemini,
        model: "gemini-2.5-flash"@,
        api_key: Seq::empty(),
    }
}

/// Before the first synchronisation.
pub open spec fn never_synced() -> SyncStateView {
    SyncStateView { jira_last_synced: None, confluence_last_synced: None }
}

/// The default of all settings.
pub open spec fn default_config() -> ConfigView {
    ConfigView {
        atlassian: default_atlassian(),
        llm: default_llm(),
        sync_state: never_synced(),
        ingest: default_ingest(),
        embedding: default_embedding(),
    }
}

/// The largest number of reviews after one synchronisation where none is set.
pub fn default_max_reviews() -> (r: u32)
    ensures
        r == 10,
{
    10
}

impl Default for EmbeddingConfig {
    fn default() -> (r: Self)
        ensures
            r.deep_view() == default_embedding(),
    {
        EmbeddingConfig { model: "text-embedding-004".to_owned(), api_key: String::new() }
    }
}

impl Default for IngestOptions {
    fn default() -> (r: Self)
        ensures
            r.deep_view() == default_ingest(),
    {
        IngestOptions {
            fetch_attachments: true,
            parse_drawio: true,
            enable_vision: false,
            max_images_per_doc: 5,
            vision_model: "gemini-2.5-flash".to_owned(),
            auto_review_new_pages: false,
            max_auto_reviews: default_max_reviews(),
        }
    }
}

impl Default for AtlassianConfig {
    fn default() -> (r: Self)
        ensures
            r.deep_view() == default_atlassian(),
    {
        AtlassianConfig {
            site_url: String::new(),
            email: String::new(),
            api_token: String::new(),
        }
    }
}

impl Default for LlmConfig {
    fn default() -> (r: Self)
        ensures
            r.deep_view() == default_llm(),
    {
        LlmConfig {
            kind: LlmProviderKind::Gemini,
            model: "gemini-2.5-flash".to_owned(),
            api_key: String::new(),
        }
    }
}

impl Default for SyncState {
    fn default() -> (r: Self)
        ensures
            r.deep_view() == never_synced(),
    {
        SyncState { jira_last_synced: None, confluence_last_synced: None }
    }
}

impl Default for AppConfig {
    fn default() -> (r: Self)
        ensures
            r.deep_view() == default_config(),
    {
        AppConfig {
            atlassian: AtlassianConfig::default(),
            llm: LlmConfig::default(),
            sync_state: SyncState::default(),
            ingest: IngestOptions::default(),
            embedding: EmbeddingConfig::default(),
        }
    }
}

// ---------------------------------------------------------------------------
// Secrets

/// What saving does with a secret.
#[derive(Debug)]
pub enum SecretAction {
    /// Keep this value under this name.
    Keep(String, String),
    /// Keep nothing under this name.
    Delete(String),
}

/// The model of what saving does with a secret.
pub enum SecretActionView {
    Keep(Seq<char>, Seq<char>),
    Delete(Seq<char>),
}

impl DeepView for SecretAction {
    type V = SecretActionView;

    open spec fn deep_view(&self) -> SecretActionView {
        match self {
            SecretAction::Keep(name, value) => SecretActionView::Keep(name@, value@),
            SecretAction::Delete(name) => SecretActionView::Delete(name@),
        }
    }
}

/// Secrets that were found; one that was not is `None`.
#[derive(Debug)]
pub struct StoredSecrets {
    pub atlassian_token: Option<String>,
    pub llm_api_key: Option<String>,
    pub embedding_api_key: Option<String>,
}

/// The model of secrets that were found.
pub struct SecretsView {
    pub atlassian_token: Option<Seq<char>>,
    pub llm_api_key: Option<Seq<char>>,
    pub embedding_api_key: Option<Seq<char>>,
}

impl DeepView for StoredSecrets {
    type V = SecretsView;

    open spec fn deep_view(&self) -> SecretsView {
        SecretsView {
            atlassian_token: self.atlassian_token.deep_view(),
            llm_api_key: self.llm_api_key.deep_view(),
            embedding_api_key: self.embedding_api_key.deep_view(),
        }
    }
}

/// What saving does with a secret of this name and value: an empty one is
/// deleted.
pub open spec fn secret_action(name: Seq<char>, value: Seq<char>) -> SecretActionView {
    if value.len() == 0 {
        SecretActionView::Delete(name)
    } else {
        SecretActionView::Keep(name, value)
    }
}

/// What saving does with the secrets.
pub open spec fn secret_actions(c: ConfigView) -> Seq<SecretActionView> {
    seq![
        secret_action(ATLASSIAN_TOKEN@, c.atlassian.api_token),
        secret_action(LLM_API_KEY@, c.llm.api_key),
        secret_action(EMBEDDING_API_KEY@, c.embedding.api_key),
    ]
}

/// The settings as they are written to a file: without the secrets.
pub open spec fn without_secrets(c: ConfigView) -> ConfigView {
    ConfigView {
        atlassian: AtlassianView { api_token: Seq::empty(), ..c.atlassian },
        llm: LlmView { api_key: Seq::empty(), ..c.llm },
        embedding: EmbeddingView { api_key: Seq::empty(), ..c.embedding },
        ..c
    }
}

/// A secret that was found, or else what was there.
pub open spec fn found_or(found: Option<Seq<char>>, value: Seq<char>) -> Seq<char> {
    match found {
        Some(s) => s,
        None => value,
    }
}

/// The settings with the secrets that were found.
pub open spec fn with_secrets(c: ConfigView, s: SecretsView) -> ConfigView {
    ConfigView {
        atlassian: AtlassianView {
            api_token: found_or(s.atlassian_token, c.atlassian.api_token),
            ..c.atlassian
        },
        llm: LlmView { api_key: found_or(s.llm_api_key, c.llm.api_key), ..c.llm },
        embedding: EmbeddingView {
            api_key: found_or(s.embedding_api_key, c.embedding.api_key),
            ..c.embedding
        },
        ..c
    }
}

/// `secret_action`, executable.
fn secret_action_of(name: &str, value: &String) -> (r: SecretAction)
    ensures
        r.deep_view() == secret_action(name@, value@),
{
    if value.as_str().is_empty() {
        SecretAction::Delete(name.to_owned())
    } else {
        SecretAction::Keep(name.to_owned(), value.clone())
    }
}

impl AppConfig {
    /// The settings as they are written to a file: without the secrets.
    pub fn without_secrets(&self) -> (r: AppConfig)
        ensures
            r.deep_view() == without_secrets(self.deep_view()),
    {
        let mut r = self.clone();
        r.atlassian.api_token = String::new();
        r.llm.api_key = String::new();
        r.embedding.api_key = String::new();
        r
    }

    /// What saving does with the secrets.
    pub fn secret_actions(&self) -> (r: Vec<SecretAction>)
        ensures
            r.deep_view() == secret_actions(self.deep_view()),
    {
        let mut r: Vec<SecretAction> = Vec::new();
        r.push(secret_action_of(ATLASSIAN_TOKEN, &self.atlassian.api_token));
        r.push(secret_action_of(LLM_API_KEY, &self.llm.api_key));
        r.push(secret_action_of(EMBEDDING_API_KEY, &self.embedding.api_key));
        assert(r.deep_view() =~= secret_actions(self.deep_view()));
        r
    }

    /// The settings with the secrets that were found.
    pub fn with_secrets(&self, secrets: &StoredSecrets) -> (r: AppConfig)
        ensures
            r.deep_view() == with_secrets(self.deep_view(), secrets.deep_view()),
    {
        let mut r = self.clone();
        if let Some(s) = &secrets.atlassian_token {
            r.atlassian.api_token = s.clone();
        }
        if let Some(s) = &secrets.llm_api_key {
            r.llm.api_key = s.clone();
        }
        if let Some(s) = &secrets.embedding_api_key {
            r.embedding.api_key = s.clone();
        }
        r
    }
}

// ---------------------------------------------------------------------------
// Models and keys

/// The model of a provider that is used where none is set; `other` is that of
/// the provider that is not Gemini.
pub open spec fn default_model(kind: LlmProviderKind, other: Seq<char>) -> Seq<char> {
    match kind {
        LlmProviderKind::Gemini => "gemini-2.5-flash"@,
        LlmProviderKind::Claude => other,
    }
}

/// The key for embeddings and images: the one that is set, or else that of the
/// language model where it is Gemini.
pub open spec fn gemini_key(c: ConfigView) -> Seq<char> {
    if c.embedding.api_key.len() > 0 {
        c.embedding.api_key
    } else if c.llm.kind == LlmProviderKind::Gemini {
        c.llm.api_key
    } else {
        Seq::empty()
    }
}

impl AppConfig {
    /// Sets the model of the language model where none is set: that of Gemini,
    /// or `other` where the provider is not Gemini.
    pub fn fill_model(&mut self, other: &str)
        ensures
            final(self).deep_view() == (ConfigView {
                llm: LlmView {
                    model: if old(self).llm.model@.len() == 0 {
                        default_model(old(self).llm.kind, other@)
                    } else {
                        old(self).llm.model@
                    },
                    ..old(self).llm.deep_view()
                },
                ..old(self).deep_view()
            }),
    {
        if self.llm.model.as_str().is_empty() {
            self.llm.model = match self.llm.kind {
                LlmProviderKind::Gemini => "gemini-2.5-flash".to_owned(),
                LlmProviderKind::Claude => other.to_owned(),
            };
        }
    }

    /// The key and the model for embeddings.
    pub fn embedding_params(&self) -> (r: (String, String))
        ensures
            r.0@ == gemini_key(self.deep_view()),
            r.1@ == self.embedding.model@,
    {
        let key = if !self.embedding.api_key.as_str().is_empty() {
            self.embedding.api_key.clone()
        } else if self.llm.kind == LlmProviderKind::Gemini {
            self.llm.api_key.clone()
        } else {
            String::new()
        };
        (key, self.embedding.model.clone())
    }
}

impl IngestOptions {
    /// Whether images are described, given the key that there is for it.
    pub fn uses_vision(&self, key: &str) -> (r: bool)
        ensures
            r == (self.enable_vision && key@.len() > 0),
    {
        self.enable_vision && !key.is_empty()
    }
}

// ---------------------------------------------------------------------------
// Laws

/// What is found under a name after an action on a secret of that name.
pub open spec fn found_after(action: SecretActionView) -> Option<Seq<char>> {
    match action {
        SecretActionView::Keep(_, value) => Some(value),
        SecretActionView::Delete(_) => None,
    }
}

/// Settings that are written without their secrets and read back with the
/// secrets that were kept are the same settings.
pub proof fn law_settings_read_back(c: ConfigView)
    ensures
        with_secrets(
            without_secrets(c),
            SecretsView {
                atlassian_token: found_after(secret_actions(c)[0]),
                llm_api_key: found_after(secret_actions(c)[1]),
                embedding_api_key: found_after(secret_actions(c)[2]),
            },
        ) == c,
{
    let r = with_secrets(
        without_secrets(c),
        SecretsView {
            atlassian_token: found_after(secret_actions(c)[0]),
            llm_api_key: found_after(secret_actions(c)[1]),
            embedding_api_key: found_after(secret_actions(c)[2]),
        },
    );
    assert(r.atlassian.api_token =~= c.atlassian.api_token);
    assert(r.llm.api_key =~= c.llm.api_key);
    assert(r.embedding.api_key =~= c.embedding.api_key);
}

/// What is written to a file does not depend on the secrets.
pub proof fn law_file_holds_no_secret(a: ConfigView, b: ConfigView)
    requires
        a.atlassian.site_url == b.atlassian.site_url,
        a.atlassian.email == b.atlassian.email,
        a.llm.kind == b.llm.kind,
        a.llm.model == b.llm.model,
        a.sync_state == b.sync_state,
        a.ingest == b.ingest,
        a.embedding.model == b.embedding.model,
    ensures
        without_secrets(a) == without_secrets(b),
        without_secrets(a).atlassian.api_token.len() == 0,
        without_secrets(a).llm.api_key.len() == 0,
        without_secrets(a).embedding.api_key.len() == 0,
{
}

} // verus!
