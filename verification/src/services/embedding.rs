//! Helpers for embedding requests.

use crate::models::schemas::{EmbeddingInput, EmbeddingUsage};
use crate::utils::response::byte_count;
use crate::utils::text::{char_views, chars_of, join, join_chars, str_eq, string_of, views};
use vstd::prelude::*;

verus! {

/// The embedding models that are served.
pub open spec fn supported_models() -> Seq<Seq<char>> {
    seq!["text-embedding-004"@, "text-multilingual-embedding-002"@, "embedding-001"@]
}

/// How many inputs a request holds: one for a string, else the length of the
/// list.
pub open spec fn input_count(input: EmbeddingInput) -> nat {
    match input {
        EmbeddingInput::String(_) => 1,
        EmbeddingInput::ArrayOfStrings(v) => v@.len(),
        EmbeddingInput::ArrayOfTokens(v) => v@.len(),
        EmbeddingInput::ArrayOfTokenArrays(v) => v@.len(),
    }
}

/// How many inputs a request holds.
pub fn get_input_count(input: &EmbeddingInput) -> (n: usize)
    ensures
        n == input_count(*input),
{
    match input {
        EmbeddingInput::String(_) => 1,
        EmbeddingInput::ArrayOfStrings(v) => v.len(),
        EmbeddingInput::ArrayOfTokens(v) => v.len(),
        EmbeddingInput::ArrayOfTokenArrays(v) => v.len(),
    }
}

/// The embedding models that are served.
pub fn get_supported_models() -> (r: Vec<String>)
    ensures
        views(r@) == supported_models(),
{
    let mut r: Vec<String> = Vec::new();
    r.push("text-embedding-004".to_string());
    r.push("text-multilingual-embedding-002".to_string());
    r.push("embedding-001".to_string());
    proof {
        assert(views(r@) =~= supported_models());
    }
    r
}

/// Whether an embedding model is served.
pub fn is_model_supported(model: &str) -> (r: bool)
    ensures
        r == supported_models().contains(model@),
{
    let r = str_eq(model, "text-embedding-004") || str_eq(model, "text-multilingual-embedding-002")
        || str_eq(model, "embedding-001");
    proof {
        let s = supported_models();
        if r {
            let i = if model@ == s[0] {
                0int
            } else if model@ == s[1] {
                1int
            } else {
                2int
            };
            assert(s[i] == model@);
        }
    }
    r
}

/// The text that is embedded for an input: a string itself, the strings of
/// a list with a blank between neighbours; nothing for tokens, which are
/// not taken.
pub open spec fn embedded_text(input: EmbeddingInput) -> Option<Seq<char>> {
    match input {
        EmbeddingInput::String(text) => Some(text@),
        EmbeddingInput::ArrayOfStrings(texts) => Some(join(views(texts@), " "@)),
        _ => None,
    }
}

/// The text that is sent to the provider for an input, if the input is
/// taken.
pub fn embedding_content(input: &EmbeddingInput) -> (r: Option<String>)
    ensures
        crate::models::schemas::opt_view(r) == embedded_text(*input),
{
    match input {
        EmbeddingInput::String(text) => Some(text.clone()),
        EmbeddingInput::ArrayOfStrings(texts) => {
            let mut parts: Vec<Vec<char>> = Vec::new();
            let mut i: usize = 0;
            while i < texts.len()
                invariant
                    i <= texts.len(),
                    char_views(parts@) == views(texts@).take(i as int),
                decreases texts.len() - i,
            {
                let ghost before = char_views(parts@);
                parts.push(chars_of(texts[i].as_str()));
                proof {
                    assert(char_views(parts@) == before.push(texts@[i as int]@));
                }
                i += 1;
            }
            proof {
                assert(views(texts@).take(texts.len() as int) == views(texts@));
            }
            let blank = chars_of(" ");
            let joined = join_chars(&parts, blank.as_slice());
            Some(string_of(joined.as_slice()))
        },
        _ => None,
    }
}

/// The token counts that are reported for an embedded text: a quarter of
/// the low 32 bits of its length in bytes, rounded down, as both counts.
pub open spec fn usage_for(content: Seq<char>) -> EmbeddingUsage {
    EmbeddingUsage {
        prompt_tokens: ((byte_count(content) as int % 0x1_0000_0000) / 4) as u32,
        total_tokens: ((byte_count(content) as int % 0x1_0000_0000) / 4) as u32,
    }
}

/// The token counts that are reported for an embedded text.
pub fn embedding_usage(content: &str) -> (u: EmbeddingUsage)
    ensures
        u == usage_for(content@),
{
    let low: u64 = content.len() as u64 % 0x1_0000_0000;
    let tokens: u32 = (low / 4) as u32;
    EmbeddingUsage { prompt_tokens: tokens, total_tokens: tokens }
}

} // verus!
