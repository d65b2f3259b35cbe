//! Requests for embeddings.
use crate::llm::gemini::GEMINI_API;
use crate::llm::is_success;
use crate::text;
use crate::text::{chars_of, is_blank, number, parse_unsigned, trimmed};
use vstd::prelude::*;

verus! {

/// The dimension of the vectors, which every request asks for.
pub const EMBED_DIM: usize = 768;

/// The model that is used where none is set.
pub const DEFAULT_MODEL: &'static str = "text-embedding-004";

/// How often a request is tried.
pub const MAX_EMBED_ATTEMPTS: u32 = 5;

/// What is said where there is no key.
pub const NO_KEY: &'static str =
    "Gemini 埋め込み用 API キーが未設定です（設定タブの「埋め込み (Gemini)」で入力してください）";

/// Asks Gemini for embeddings.
pub struct GeminiEmbedder {
    pub api_key: String,
    pub model: String,
}

/// A request for the embedding of one text.
#[derive(Debug)]
pub struct EmbedReq {
    pub model: String,
    pub text: String,
    pub output_dimensionality: usize,
}

/// The model of a request for the embedding of one text.
pub struct EmbedReqView {
    pub model: Seq<char>,
    pub text: Seq<char>,
    pub output_dimensionality: usize,
}

impl DeepView for EmbedReq {
    type V = EmbedReqView;

    open spec fn deep_view(&self) -> EmbedReqView {
        EmbedReqView {
            model: self.model@,
            text: self.text@,
            output_dimensionality: self.output_dimensionality,
        }
    }
}

/// What is done to embed texts.
#[derive(Debug)]
pub enum EmbedPlan {
    /// There are no texts: the answer is empty.
    Nothing,
    /// There is no key: it fails.
    NoKey,
    /// These requests are sent in one.
    Send(Vec<EmbedReq>),
}

/// The model that is asked: the one that is set, or else the default.
pub open spec fn embed_model(model: Seq<char>) -> Seq<char> {
    if text::blank(model) {
        DEFAULT_MODEL@
    } else {
        model
    }
}

/// The request for the embedding of one text.
pub open spec fn embed_request(model: Seq<char>, body: Seq<char>) -> EmbedReqView {
    EmbedReqView { model: "models/"@ + model, text: body, output_dimensionality: EMBED_DIM }
}

impl GeminiEmbedder {
    /// Asks with this key, and this model where one is named.
    pub fn new(api_key: String, model: String) -> (r: Self)
        ensures
            r.api_key == api_key,
            r.model@ == embed_model(model@),
    {
        let model = if is_blank(model.as_str()) {
            DEFAULT_MODEL.to_owned()
        } else {
            model
        };
        GeminiEmbedder { api_key, model }
    }

    /// The address of the interface.
    pub fn url(&self) -> (r: String)
        ensures
            r@ == GEMINI_API@ + "/"@ + self.model@ + ":batchEmbedContents"@,
    {
        let mut url = GEMINI_API.to_owned();
        url.append("/");
        url.append(self.model.as_str());
        url.append(":batchEmbedContents");
        url
    }

    /// The requests for the embeddings of texts, one for each.
    fn requests(&self, texts: &Vec<String>) -> (r: Vec<EmbedReq>)
        ensures
            r.deep_view() == texts.deep_view().map_values(
                |t: Seq<char>| embed_request(self.model@, t),
            ),
    {
        let ghost all = texts.deep_view();
        let ghost m = self.model@;
        let mut out: Vec<EmbedReq> = Vec::new();
        assert(out.deep_view() =~= Seq::empty());
        for i in 0..texts.len()
            invariant
                all == texts.deep_view(),
                m == self.model@,
                out.deep_view() == all.take(i as int).map_values(
                    |t: Seq<char>| embed_request(m, t),
                ),
        {
            let ghost before = out.deep_view();
            let mut model = "models/".to_owned();
            model.append(self.model.as_str());
            let q = EmbedReq { model, text: texts[i].clone(), output_dimensionality: EMBED_DIM };
            out.push(q);
            assert(out.deep_view() =~= before.push(q.deep_view()));
            assert(all.take(i + 1) =~= all.take(i as int).push(all[i as int]));
            assert(out.deep_view() =~= all.take(i + 1).map_values(
                |t: Seq<char>| embed_request(m, t),
            ));
        }
        assert(all.take(texts.len() as int) =~= all);
        out
    }

    /// What is done to embed texts.
    pub fn plan(&self, texts: &Vec<String>) -> (r: EmbedPlan)
        ensures
            match r {
                EmbedPlan::Nothing => texts@.len() == 0,
                EmbedPlan::NoKey => texts@.len() > 0 && self.api_key@.len() == 0,
                EmbedPlan::Send(requests) => texts@.len() > 0 && self.api_key@.len() > 0
                    && requests.deep_view() == texts.deep_view().map_values(
                    |t: Seq<char>| embed_request(self.model@, t),
                ),
            },
    {
        if texts.len() == 0 {
            EmbedPlan::Nothing
        } else if self.api_key.as_str().is_empty() {
            EmbedPlan::NoKey
        } else {
            EmbedPlan::Send(self.requests(texts))
        }
    }
}

// ---------------------------------------------------------------------------
// Trying again

/// The milliseconds that are waited after an attempt: half a second after the
/// first, twice as long after each further one, and eight seconds at most.
pub open spec fn backoff_of(attempt: int) -> int
    decreases attempt,
{
    if attempt <= 1 {
        500
    } else if 2 * backoff_of(attempt - 1) <= 8000 {
        2 * backoff_of(attempt - 1)
    } else {
        8000
    }
}

/// The milliseconds that are waited after an attempt.
pub fn backoff(attempt: u32) -> (r: u64)
    requires
        attempt >= 1,
    ensures
        r == backoff_of(attempt as int),
        500 <= r <= 8000,
{
    let mut ms: u64 = 500;
    let mut i: u32 = 1;
    while i < attempt && ms < 8000
        invariant
            1 <= i <= attempt,
            500 <= ms <= 8000,
            ms == backoff_of(i as int),
        decreases attempt - i,
    {
        ms = if 2 * ms <= 8000 {
            2 * ms
        } else {
            8000
        };
        i += 1;
    }
    proof {
        lemma_backoff(i as int, attempt as int);
    }
    ms
}

proof fn lemma_backoff(i: int, j: int)
    requires
        1 <= i <= j,
    ensures
        500 <= backoff_of(i) <= backoff_of(j) <= 8000,
    decreases j - i, i,
{
    if i < j {
        lemma_backoff(i, j - 1);
    } else if i > 1 {
        lemma_backoff(i - 1, i - 1);
    }
}

/// The seconds that a header asks to wait.
pub open spec fn seconds_asked(header: Seq<char>) -> Option<int> {
    text::unsigned(text::trim(header), u64::MAX as int)
}

/// The seconds that a header asks to wait.
pub fn retry_after(header: &str) -> (r: Option<u64>)
    ensures
        match r {
            Some(n) => seconds_asked(header@) == Some(n as int),
            None => seconds_asked(header@) is None,
        },
{
    parse_unsigned(&chars_of(trimmed(header).as_str()), u64::MAX)
}

/// How a request went.
#[derive(Debug)]
pub enum Outcome {
    /// It was answered with this HTTP status and this header that asks to
    /// wait.
    Answered(u16, Option<String>),
    /// It could not be sent, or was not answered.
    Unanswered,
}

/// How long is waited before a request is sent again.
#[derive(Debug, Clone, Copy, PartialEq, Eq, Structural)]
pub enum Wait {
    Seconds(u64),
    Millis(u64),
}

/// What is done after an attempt.
#[derive(Debug, Clone, Copy, PartialEq, Eq, Structural)]
pub enum AfterAttempt {
    /// The answer is read.
    Read,
    /// The request is sent again.
    Retry(Wait),
    /// It fails.
    Fail,
}

/// Whether a status says that trying again may help.
pub open spec fn is_retryable(status: int) -> bool {
    status == 429 || 500 <= status < 600
}

/// What is done after an attempt with this status and header.
pub open spec fn after_answer(attempt: int, status: int, header: Option<Seq<char>>) -> AfterAttempt {
    if 200 <= status < 300 {
        AfterAttempt::Read
    } else if is_retryable(status) && attempt < MAX_EMBED_ATTEMPTS {
        let asked = match header {
            Some(h) => seconds_asked(h),
            None => None,
        };
        match asked {
            Some(n) => AfterAttempt::Retry(Wait::Seconds(n as u64)),
            None => AfterAttempt::Retry(Wait::Millis(backoff_of(attempt) as u64)),
        }
    } else {
        AfterAttempt::Fail
    }
}

/// What is done after an attempt that was not answered.
pub open spec fn after_silence(attempt: int) -> AfterAttempt {
    if attempt < MAX_EMBED_ATTEMPTS {
        AfterAttempt::Retry(Wait::Millis(backoff_of(attempt) as u64))
    } else {
        AfterAttempt::Fail
    }
}

/// What is done after an attempt; attempts are counted from one.
pub fn after_attempt(attempt: u32, outcome: &Outcome) -> (r: AfterAttempt)
    requires
        attempt >= 1,
    ensures
        r == (match *outcome {
            Outcome::Answered(status, header) => after_answer(
                attempt as int,
                status as int,
                header.deep_view(),
            ),
            Outcome::Unanswered => after_silence(attempt as int),
        }),
{
    match outcome {
        Outcome::Answered(status, header) => {
            if is_success(*status) {
                return AfterAttempt::Read;
            }
            let retryable = *status == 429 || (500 <= *status && *status < 600);
            if !retryable || attempt >= MAX_EMBED_ATTEMPTS {
                return AfterAttempt::Fail;
            }
            let asked = match header {
                Some(h) => retry_after(h.as_str()),
                None => None,
            };
            match asked {
                Some(n) => AfterAttempt::Retry(Wait::Seconds(n)),
                None => AfterAttempt::Retry(Wait::Millis(backoff(attempt))),
            }
        },
        Outcome::Unanswered => if attempt < MAX_EMBED_ATTEMPTS {
            AfterAttempt::Retry(Wait::Millis(backoff(attempt)))
        } else {
            AfterAttempt::Fail
        },
    }
}

/// What is said where there are not as many embeddings as texts.
pub open spec fn count_message(expected: nat, got: nat) -> Seq<char> {
    "gemini embed: expected "@ + text::decimal(expected) + " embeddings, got "@ + text::decimal(got)
}

/// Whether there are as many embeddings as texts, and what is said where there
/// are not.
pub fn check_count(expected: usize, got: usize) -> (r: Result<(), String>)
    ensures
        match r {
            Ok(_) => expected == got,
            Err(m) => expected != got && m@ == count_message(expected as nat, got as nat),
        },
{
    if expected == got {
        return Ok(());
    }
    let mut m = "gemini embed: expected ".to_owned();
    m.append(number(expected as u64).as_str());
    m.append(" embeddings, got ");
    m.append(number(got as u64).as_str());
    Err(m)
}

// ---------------------------------------------------------------------------
// Laws

/// The waits never get shorter, and none is below half a second or above eight.
pub proof fn law_backoff_grows(i: int, j: int)
    requires
        1 <= i <= j,
    ensures
        500 <= backoff_of(i) <= backoff_of(j) <= 8000,
{
    lemma_backoff(i, j);
}

/// No request is tried more than `MAX_EMBED_ATTEMPTS` times, whatever comes
/// back.
pub proof fn law_attempts_are_limited(attempt: int, status: int, header: Option<Seq<char>>)
    requires
        attempt >= MAX_EMBED_ATTEMPTS,
    ensures
        !(after_answer(attempt, status, header) is Retry),
        !(after_silence(attempt) is Retry),
{
}

} // verus!
