//! Laws on settings, on requests for vectors, and on texts of other formats.
use crate::codec;
use crate::config;
use crate::config::{
    AtlassianView, ConfigView, EmbeddingView, IngestView, LlmProviderKind, LlmView,
    SecretActionView, SecretsView, SyncStateView,
};
use crate::embedding;
use crate::embedding::{AfterAttempt, EmbedReqView, Wait};
use crate::json;
use crate::json::Json;
use crate::text;
use vstd::prelude::*;

verus! {

// ---------------------------------------------------------------------------
// Settings

/// The settings that hold where nothing is set.
pub proof fn law_default_settings()
    ensures
        config::default_config() == (ConfigView {
            atlassian: AtlassianView {
                site_url: Seq::empty(),
                email: Seq::empty(),
                api_token: Seq::empty(),
            },
            llm: LlmView {
                kind: LlmProviderKind::Gemini,
                model: "gemini-2.5-flash"@,
                api_key: Seq::empty(),
            },
            sync_state: SyncStateView { jira_last_synced: None, confluence_last_synced: None },
            ingest: IngestView {
                fetch_attachments: true,
                parse_drawio: true,
                enable_vision: false,
                max_images_per_doc: 5,
                vision_model: "gemini-2.5-flash"@,
                auto_review_new_pages: false,
                max_auto_reviews: 10,
            },
            embedding: EmbeddingView { model: "text-embedding-004"@, api_key: Seq::empty() },
        }),
{
}

/// Each secret is kept whole under its own name, or deleted where it is empty.
pub proof fn law_secrets_are_kept_apart(c: ConfigView)
    ensures
        config::secret_actions(c).len() == 3,
        config::secret_actions(c)[0] == (if c.atlassian.api_token.len() > 0 {
            SecretActionView::Keep("atlassian_token"@, c.atlassian.api_token)
        } else {
            SecretActionView::Delete("atlassian_token"@)
        }),
        config::secret_actions(c)[1] == (if c.llm.api_key.len() > 0 {
            SecretActionView::Keep("llm_api_key"@, c.llm.api_key)
        } else {
            SecretActionView::Delete("llm_api_key"@)
        }),
        config::secret_actions(c)[2] == (if c.embedding.api_key.len() > 0 {
            SecretActionView::Keep("embedding_api_key"@, c.embedding.api_key)
        } else {
            SecretActionView::Delete("embedding_api_key"@)
        }),
{
}

/// A secret that is found takes the place of the one that is set; one that is not
/// found leaves it. Nothing else changes.
pub proof fn law_found_secrets_count(c: ConfigView, s: SecretsView)
    ensures
        ({
            let r = config::with_secrets(c, s);
            &&& s.atlassian_token matches Some(t) ==> r.atlassian.api_token == t
            &&& s.atlassian_token is None ==> r.atlassian.api_token == c.atlassian.api_token
            &&& s.llm_api_key matches Some(t) ==> r.llm.api_key == t
            &&& s.llm_api_key is None ==> r.llm.api_key == c.llm.api_key
            &&& s.embedding_api_key matches Some(t) ==> r.embedding.api_key == t
            &&& s.embedding_api_key is None ==> r.embedding.api_key == c.embedding.api_key
            &&& r.atlassian.site_url == c.atlassian.site_url && r.atlassian.email
                == c.atlassian.email
            &&& r.llm.kind == c.llm.kind && r.llm.model == c.llm.model
            &&& r.embedding.model == c.embedding.model
            &&& r.sync_state == c.sync_state && r.ingest == c.ingest
        }),
{
}

/// What goes into the file holds all but the secrets.
pub proof fn law_settings_without_secrets(c: ConfigView)
    ensures
        ({
            let r = config::without_secrets(c);
            &&& r.atlassian.api_token.len() == 0 && r.llm.api_key.len() == 0
                && r.embedding.api_key.len() == 0
            &&& r.atlassian.site_url == c.atlassian.site_url && r.atlassian.email
                == c.atlassian.email
            &&& r.llm.kind == c.llm.kind && r.llm.model == c.llm.model
            &&& r.embedding.model == c.embedding.model
            &&& r.sync_state == c.sync_state && r.ingest == c.ingest
        }),
{
}

/// Vectors are asked for with the key that is set for them, or else with that of
/// the language model where it is Gemini, or else with none.
pub proof fn law_which_key(c: ConfigView, other: Seq<char>)
    ensures
        c.embedding.api_key.len() > 0 ==> config::gemini_key(c) == c.embedding.api_key,
        c.embedding.api_key.len() == 0 && c.llm.kind == LlmProviderKind::Gemini
            ==> config::gemini_key(c) == c.llm.api_key,
        c.embedding.api_key.len() == 0 && c.llm.kind != LlmProviderKind::Gemini
            ==> config::gemini_key(c).len() == 0,
        config::default_model(LlmProviderKind::Gemini, other) == "gemini-2.5-flash"@,
        config::default_model(LlmProviderKind::Claude, other) == other,
{
}

// ---------------------------------------------------------------------------
// Vectors

/// A request holds the text whole and names the model and the dimension; a model
/// that is blank is the one that holds where nothing is set.
pub proof fn law_embed_request(model: Seq<char>, body: Seq<char>)
    ensures
        embedding::embed_request(model, body) == (EmbedReqView {
            model: "models/"@ + model,
            text: body,
            output_dimensionality: 768,
        }),
        (forall|k: int| 0 <= k < model.len() ==> text::is_white(#[trigger] model[k]))
            ==> embedding::embed_model(model) == "text-embedding-004"@,
        (exists|k: int| 0 <= k < model.len() && !text::is_white(#[trigger] model[k]))
            ==> embedding::embed_model(model) == model,
{
    text::law_blank_is_white(model);
}

/// The time between attempts is half a second, and doubles with each up to eight
/// seconds.
pub proof fn law_backoff_doubles(attempt: int)
    ensures
        attempt <= 1 ==> embedding::backoff_of(attempt) == 500,
        embedding::backoff_of(2) == 1000,
        embedding::backoff_of(3) == 2000,
        embedding::backoff_of(4) == 4000,
        attempt >= 5 ==> embedding::backoff_of(attempt) == 8000,
    decreases attempt,
{
    assert(embedding::backoff_of(1) == 500);
    assert(embedding::backoff_of(2) == 1000);
    assert(embedding::backoff_of(3) == 2000);
    assert(embedding::backoff_of(4) == 4000);
    assert(embedding::backoff_of(5) == 8000);
    if attempt > 5 {
        law_backoff_doubles(attempt - 1);
    }
}

/// An answer is read where it is a success; where it asks to come again or the
/// service failed, it is tried again, five times in all, after as many seconds as
/// it asks for or else after the time between attempts; any other fails.
pub proof fn law_after_answer(attempt: int, status: int, header: Option<Seq<char>>)
    requires
        1 <= attempt,
    ensures
        200 <= status <= 299 ==> embedding::after_answer(attempt, status, header)
            == AfterAttempt::Read,
        (status == 429 || 500 <= status <= 599) && attempt <= 4 ==> (match header {
            Some(h) => match text::unsigned(text::trim(h), 0xffff_ffff_ffff_ffff) {
                Some(n) => embedding::after_answer(attempt, status, header) == AfterAttempt::Retry(
                    Wait::Seconds(n as u64),
                ),
                None => embedding::after_answer(attempt, status, header) == AfterAttempt::Retry(
                    Wait::Millis(embedding::backoff_of(attempt) as u64),
                ),
            },
            None => embedding::after_answer(attempt, status, header) == AfterAttempt::Retry(
                Wait::Millis(embedding::backoff_of(attempt) as u64),
            ),
        }),
        (status == 429 || 500 <= status <= 599) && attempt >= 5 ==> embedding::after_answer(
            attempt,
            status,
            header,
        ) == AfterAttempt::Fail,
        status != 429 && !(200 <= status <= 299) && !(500 <= status <= 599)
            ==> embedding::after_answer(attempt, status, header) == AfterAttempt::Fail,
        attempt <= 4 ==> embedding::after_silence(attempt) == AfterAttempt::Retry(
            Wait::Millis(embedding::backoff_of(attempt) as u64),
        ),
        attempt >= 5 ==> embedding::after_silence(attempt) == AfterAttempt::Fail,
{
}

/// The message on a wrong number of vectors names both numbers.
pub proof fn law_count_message(expected: nat, got: nat)
    ensures
        embedding::count_message(expected, got) == "gemini embed: expected "@ + text::decimal(
            expected,
        ) + " embeddings, got "@ + text::decimal(got),
{
}

// ---------------------------------------------------------------------------
// Forms

/// The digit of a value below sixteen.
pub open spec fn upper_hex(d: int) -> char {
    "0123456789ABCDEF"@[d]
}

/// Encoding a form goes byte by byte: letters, digits and four signs stay, a
/// space is a plus, any other byte is a percent sign with its two digits.
pub proof fn law_form_encoding(a: Seq<u8>, b: Seq<u8>, c: u8)
    ensures
        codec::form_encoded(a + b) == codec::form_encoded(a) + codec::form_encoded(b),
        48 <= c <= 57 || 65 <= c <= 90 || 97 <= c <= 122 || c == 42 || c == 45 || c == 46 || c == 95
            ==> codec::form_encoded(seq![c]) == seq![c as char],
        codec::form_encoded(seq![32u8]) == seq!['+'],
        !(48 <= c <= 57 || 65 <= c <= 90 || 97 <= c <= 122 || c == 42 || c == 45 || c == 46 || c
            == 95 || c == 32) ==> codec::form_encoded(seq![c]) == seq![
            '%',
            upper_hex(c as int / 16),
            upper_hex(c as int % 16),
        ],
    decreases b.len(),
{
    lemma_one_form_byte(c);
    lemma_one_form_byte(32);
    lemma_hex(c as int / 16);
    lemma_hex(c as int % 16);
    if b.len() == 0 {
        assert(a + b =~= a);
    } else {
        law_form_encoding(a, b.drop_last(), c);
        assert((a + b).drop_last() =~= a + b.drop_last());
        assert((a + b).last() == b.last());
        assert(codec::form_encoded(a) + (codec::form_encoded(b.drop_last()) + codec::form_byte(
            b.last(),
        )) =~= codec::form_encoded(a) + codec::form_encoded(b.drop_last()) + codec::form_byte(
            b.last(),
        ));
    }
}

proof fn lemma_one_form_byte(c: u8)
    ensures
        codec::form_encoded(seq![c]) == codec::form_byte(c),
{
    let one = seq![c];
    assert(one.drop_last() =~= Seq::empty());
    assert(codec::form_encoded(one.drop_last()) =~= Seq::empty());
    assert(Seq::<char>::empty() + codec::form_byte(c) =~= codec::form_byte(c));
}

proof fn lemma_hex(d: int)
    requires
        0 <= d < 16,
    ensures
        codec::hex_digit(d) == upper_hex(d),
{
    reveal_strlit("0123456789ABCDEF");
}

// ---------------------------------------------------------------------------
// JSON

/// The field of an object is the first with its name; those before it do not
/// matter, nor those behind it. What is no object has no fields.
pub proof fn law_first_field_counts(
    before: Seq<(String, Json)>,
    f: (String, Json),
    behind: Seq<(String, Json)>,
)
    requires
        forall|i: int| 0 <= i < before.len() ==> (#[trigger] before[i]).0@ != f.0@,
    ensures
        json::field(before + seq![f] + behind, f.0@) == Some(f.1),
        json::field(before, f.0@) is None,
    decreases before.len(),
{
    let all = before + seq![f] + behind;
    if before.len() > 0 {
        let rest = before.drop_first();
        assert(before[0].0@ != f.0@);
        assert forall|i: int| 0 <= i < rest.len() implies (#[trigger] rest[i]).0@ != f.0@ by {
            assert(rest[i] == before[i + 1]);
        }
        law_first_field_counts(rest, f, behind);
        assert(all.drop_first() =~= rest + seq![f] + behind);
        assert(all[0] == before[0]);
    } else {
        assert(all[0] == f);
    }
}

/// Fields, texts and items are read from objects, texts and arrays alone.
pub proof fn law_json_values(j: Json, key: Seq<char>)
    ensures
        j matches Json::Object(fields) ==> json::json_get(j, key) == json::field(fields@, key),
        !(j is Object) ==> json::json_get(j, key) is None,
        j matches Json::Str(s) ==> json::json_str(Some(j)) == Some(s@),
        !(j is Str) ==> json::json_str(Some(j)) is None,
        j matches Json::Array(items) ==> json::json_items(Some(j)) == Some(items@),
        !(j is Array) ==> json::json_items(Some(j)) is None,
        json::json_str(None) is None,
        json::json_items(None) is None,
{
}

/// A copy is the same all the way down: the same truth values and texts, and as
/// many items and fields, each the same and under the same name.
pub proof fn law_copies_are_the_same(a: Json, b: Json)
    requires
        json::same_json(a, b),
    ensures
        a is Null <==> b is Null,
        a is Number <==> b is Number,
        a matches Json::Bool(x) ==> b == Json::Bool(x),
        a matches Json::Str(x) ==> (b matches Json::Str(y) && x@ == y@),
        a matches Json::Array(x) ==> (b matches Json::Array(y) && x@.len() == y@.len() && forall|
            i: int,
        |
            0 <= i < x@.len() ==> json::same_json(#[trigger] x@[i], y@[i])),
        a matches Json::Object(x) ==> (b matches Json::Object(y) && x@.len() == y@.len() && forall|
            i: int,
        |
            0 <= i < x@.len() ==> (#[trigger] x@[i]).0@ == y@[i].0@ && json::same_json(
                x@[i].1,
                y@[i].1,
            )),
{
    if let Json::Array(x) = a {
        if let Json::Array(y) = b {
            lemma_same_items(x@, y@);
        }
    }
    if let Json::Object(x) = a {
        if let Json::Object(y) = b {
            lemma_same_fields(x@, y@);
        }
    }
}

proof fn lemma_same_items(a: Seq<Json>, b: Seq<Json>)
    requires
        json::same_items(a, b),
    ensures
        a.len() == b.len(),
        forall|i: int| 0 <= i < a.len() ==> json::same_json(#[trigger] a[i], b[i]),
    decreases a.len(),
{
    if a.len() > 0 {
        lemma_same_items(a.drop_last(), b.drop_last());
        assert forall|i: int| 0 <= i < a.len() implies json::same_json(#[trigger] a[i], b[i]) by {
            if i < a.len() - 1 {
                assert(a.drop_last()[i] == a[i] && b.drop_last()[i] == b[i]);
            }
        }
    }
}

proof fn lemma_same_fields(a: Seq<(String, Json)>, b: Seq<(String, Json)>)
    requires
        json::same_fields(a, b),
    ensures
        a.len() == b.len(),
        forall|i: int|
            0 <= i < a.len() ==> (#[trigger] a[i]).0@ == b[i].0@ && json::same_json(a[i].1, b[i].1),
    decreases a.len(),
{
    if a.len() > 0 {
        lemma_same_fields(a.drop_last(), b.drop_last());
        assert forall|i: int| 0 <= i < a.len() implies (#[trigger] a[i]).0@ == b[i].0@
            && json::same_json(a[i].1, b[i].1) by {
            if i < a.len() - 1 {
                assert(a.drop_last()[i] == a[i] && b.drop_last()[i] == b[i]);
            }
        }
    }
}

} // verus!
