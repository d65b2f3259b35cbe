//! Descriptions of images.
use crate::codec;
use crate::codec::base64_encode;
use crate::llm::gemini;
use crate::llm::gemini::{generate_url, GenerateResponse};
use vstd::prelude::*;

verus! {

/// What the model is told to say of an image.
pub const VISION_PROMPT: &'static str = "\
あなたは技術ドキュメント用の画像解析アシスタントです。\
以下の画像について、社内ナレッジ検索でヒットしやすいように構造化された日本語の説明を生成してください:\n\
\n\
1. 【種別】 スクリーンショット / アーキ図 / フローチャート / グラフ / その他、のどれか\n\
2. 【テキスト】 画像内に含まれる全ての可読テキスト（OCR相当）\n\
3. 【内容】 画像が何を表しているかの要約（2-3文）\n\
4. 【構造】 図の場合は登場要素と関係性をリスト化\n\
\n\
専門用語はそのまま残してください。情報がない項目は省略可。\
";

/// The largest number of tokens in a description.
pub const MAX_OUTPUT_TOKENS: u32 = 1024;

/// Has images described by Gemini.
pub struct VisionClient {
    pub api_key: String,
    pub model: String,
}

/// A request for a description.
#[derive(Debug)]
pub struct VisionRequest {
    pub mime_type: String,
    /// The image in base64.
    pub data: String,
    pub prompt: String,
    pub max_output_tokens: u32,
}

impl VisionClient {
    /// Asks this model with this key.
    pub fn new(api_key: String, model: String) -> (r: Self)
        ensures
            r.api_key == api_key,
            r.model == model,
    {
        VisionClient { api_key, model }
    }

    /// The address of the interface.
    pub fn url(&self) -> (r: String)
        ensures
            r@ == gemini::generate_address(self.model@),
    {
        generate_url(self.model.as_str())
    }

    /// The request for the description of an image; there must be a key.
    pub fn request(&self, bytes: &[u8], mime_type: &str) -> (r: Result<VisionRequest, String>)
        ensures
            match r {
                Ok(q) => self.api_key@.len() > 0 && q.mime_type@ == mime_type@ && q.data@
                    == codec::base64_text(bytes@) && codec::base64_bytes(q.data@) == Some(bytes@)
                    && q.prompt@ == VISION_PROMPT@ && q.max_output_tokens == MAX_OUTPUT_TOKENS,
                Err(m) => self.api_key@.len() == 0 && m@ == "Gemini API key is empty"@,
            },
    {
        if self.api_key.as_str().is_empty() {
            return Err("Gemini API key is empty".to_owned());
        }
        Ok(
            VisionRequest {
                mime_type: mime_type.to_owned(),
                data: base64_encode(bytes),
                prompt: VISION_PROMPT.to_owned(),
                max_output_tokens: MAX_OUTPUT_TOKENS,
            },
        )
    }
}

/// The description in an answer: the text of its last candidate.
pub fn description(response: &GenerateResponse) -> (r: String)
    ensures
        r@ == gemini::last_text(response.deep_view()),
{
    response.last()
}

} // verus!
