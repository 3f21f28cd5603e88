//! Helpers for the provider's OpenAI-compatible endpoint.

use crate::utils::text::{
    append_str, char_views, chars_of, contains, copy_range, lines, lines_of, lowercase_of,
    matches_at, starts_with, str_contains, string_of, to_lowercase, trim, trimmed, views,
};
use vstd::prelude::*;

verus! {

/// The request fields that are passed on to the provider.
pub open spec fn default_whitelist() -> Seq<Seq<char>> {
    seq![
        "model"@,
        "messages"@,
        "temperature"@,
        "top_p"@,
        "n"@,
        "stream"@,
        "stop"@,
        "max_tokens"@,
        "presence_penalty"@,
        "frequency_penalty"@,
        "logit_bias"@,
        "user"@,
        "response_format"@,
        "seed"@,
        "tools"@,
        "tool_choice"@,
        "search"@,
    ]
}

/// The request fields that are passed on to the provider.
pub fn get_default_whitelist() -> (r: Vec<String>)
    ensures
        views(r@) == default_whitelist(),
{
    let mut r: Vec<String> = Vec::new();
    r.push("model".to_string());
    r.push("messages".to_string());
    r.push("temperature".to_string());
    r.push("top_p".to_string());
    r.push("n".to_string());
    r.push("stream".to_string());
    r.push("stop".to_string());
    r.push("max_tokens".to_string());
    r.push("presence_penalty".to_string());
    r.push("frequency_penalty".to_string());
    r.push("logit_bias".to_string());
    r.push("user".to_string());
    r.push("response_format".to_string());
    r.push("seed".to_string());
    r.push("tools".to_string());
    r.push("tool_choice".to_string());
    r.push("search".to_string());
    proof {
        assert(views(r@) =~= default_whitelist());
    }
    r
}

/// The names of `fields` that are on `whitelist`, in order.
pub open spec fn allowed_fields(fields: Seq<Seq<char>>, whitelist: Seq<Seq<char>>) -> Seq<
    Seq<char>,
> {
    fields.filter(|f: Seq<char>| whitelist.contains(f))
}

/// Keeps the request fields that are on the whitelist.
pub fn filter_request_fields(fields: &Vec<String>, whitelist: &Vec<String>) -> (r: Vec<String>)
    ensures
        views(r@) == allowed_fields(views(fields@), views(whitelist@)),
{
    let ghost keep = |f: Seq<char>| views(whitelist@).contains(f);
    let mut r: Vec<String> = Vec::new();
    let mut i: usize = 0;
    proof {
        reveal(Seq::filter);
        assert(views(fields@).take(0) == Seq::<Seq<char>>::empty());
    }
    while i < fields.len()
        invariant
            i <= fields.len(),
            keep == |f: Seq<char>| views(whitelist@).contains(f),
            views(r@) == views(fields@).take(i as int).filter(keep),
        decreases fields.len() - i,
    {
        let ghost before = views(r@);
        proof {
            reveal(Seq::filter);
            assert(views(fields@).take(i as int + 1).drop_last() == views(fields@).take(i as int));
            assert(views(fields@).take(i as int + 1).last() == fields@[i as int]@);
        }
        if crate::config::settings::list_contains(whitelist, fields[i].as_str()) {
            r.push(fields[i].clone());
            proof {
                assert(views(r@) == before.push(fields@[i as int]@));
            }
        }
        i += 1;
    }
    proof {
        assert(views(fields@).take(fields.len() as int) == views(fields@));
    }
    r
}

/// The payload of one line of an event stream: what follows `data: ` on a
/// trimmed line, unless the line is empty, a comment, not a data line, or
/// the end-of-stream marker.
pub open spec fn sse_payload(line: Seq<char>) -> Option<Seq<char>> {
    let t = trimmed(line);
    if t.len() == 0 || t[0] == ':' || !starts_with(t, "data: "@) {
        None
    } else if trimmed(t.skip("data: "@.len() as int)) == "[DONE]"@ {
        None
    } else {
        Some(t.skip("data: "@.len() as int))
    }
}

/// Reads the payload of one line of an event stream; the caller parses it.
pub fn parse_sse_line(line: &str) -> (r: Option<String>)
    ensures
        crate::models::schemas::opt_view(r) == sse_payload(line@),
{
    let v = chars_of(line);
    let t = trim(v.as_slice());
    if t.len() == 0 || t[0] == ':' {
        return None;
    }
    let p = chars_of("data: ");
    if !matches_at(t.as_slice(), p.as_slice(), 0) {
        return None;
    }
    let data = copy_range(t.as_slice(), p.len(), t.len());
    let inner = trim(data.as_slice());
    let done = chars_of("[DONE]");
    if crate::utils::text::chars_eq(inner.as_slice(), done.as_slice()) {
        return None;
    }
    Some(string_of(data.as_slice()))
}

/// The models that the compatible endpoint serves.
pub open spec fn supported_models() -> Seq<Seq<char>> {
    seq![
        "gemini-1.5-flash"@,
        "gemini-1.5-pro"@,
        "gemini-1.0-pro"@,
        "gemini-exp-1121"@,
        "gemini-exp-1206"@,
    ]
}

/// The models that the compatible endpoint serves.
pub fn get_supported_models() -> (r: Vec<String>)
    ensures
        views(r@) == supported_models(),
{
    let mut r: Vec<String> = Vec::new();
    r.push("gemini-1.5-flash".to_string());
    r.push("gemini-1.5-pro".to_string());
    r.push("gemini-1.0-pro".to_string());
    r.push("gemini-exp-1121".to_string());
    r.push("gemini-exp-1206".to_string());
    proof {
        assert(views(r@) =~= supported_models());
    }
    r
}

/// Whether the compatible endpoint serves a model.
pub fn is_model_supported(model: &str) -> (r: bool)
    ensures
        r == supported_models().contains(model@),
{
    let models = get_supported_models();
    crate::config::settings::list_contains(&models, model)
}

/// The payloads of the data lines among `lines`, in order.
pub open spec fn payloads(lines: Seq<Seq<char>>) -> Seq<Seq<char>>
    decreases lines.len(),
{
    if lines.len() == 0 {
        Seq::<Seq<char>>::empty()
    } else {
        match sse_payload(lines.last()) {
            Some(p) => payloads(lines.drop_last()).push(p),
            None => payloads(lines.drop_last()),
        }
    }
}

/// The lines of `text` that are complete: all of them if the text ends with
/// a line feed or has no line, else all but the last.
pub open spec fn complete_lines(text: Seq<char>) -> Seq<Seq<char>> {
    if (text.len() > 0 && text.last() == '\n') || lines_of(text).len() == 0 {
        lines_of(text)
    } else {
        lines_of(text).drop_last()
    }
}

/// What of `text` is left for later: nothing if the text ends with a line
/// feed or has no line, else its last line.
pub open spec fn unfinished_line(text: Seq<char>) -> Seq<char> {
    if (text.len() > 0 && text.last() == '\n') || lines_of(text).len() == 0 {
        Seq::<char>::empty()
    } else {
        lines_of(text).last()
    }
}

/// The part of an event stream that has arrived without its end of line.
pub struct SseLineBuffer {
    pending: Vec<char>,
}

impl SseLineBuffer {
    /// What has arrived without its end of line.
    pub closed spec fn pending(&self) -> Seq<char> {
        self.pending@
    }

    /// A buffer with nothing pending.
    pub fn new() -> (b: Self)
        ensures
            b.pending().len() == 0,
    {
        SseLineBuffer { pending: Vec::new() }
    }

    fn payloads_of(all: &Vec<Vec<char>>, count: usize) -> (r: Vec<String>)
        requires
            count <= all@.len(),
        ensures
            views(r@) == payloads(char_views(all@).take(count as int)),
    {
        let mut r: Vec<String> = Vec::new();
        let mut i: usize = 0;
        let ghost ls = char_views(all@);
        proof {
            assert(ls.take(0) == Seq::<Seq<char>>::empty());
            assert(views(r@) =~= Seq::<Seq<char>>::empty());
        }
        while i < count
            invariant
                i <= count <= all@.len(),
                ls == char_views(all@),
                views(r@) == payloads(ls.take(i as int)),
            decreases count - i,
        {
            let ghost before = views(r@);
            proof {
                assert(ls.take(i as int + 1).drop_last() == ls.take(i as int));
                assert(ls.take(i as int + 1).last() == all@[i as int]@);
            }
            let line = string_of(all[i].as_slice());
            match parse_sse_line(line.as_str()) {
                Some(p) => {
                    r.push(p);
                    proof {
                        assert(views(r@) == before.push(sse_payload(all@[i as int]@)->0));
                    }
                },
                None => {},
            }
            i += 1;
        }
        r
    }

    /// Takes in the next piece of the stream and hands out the payloads of
    /// the data lines that are now complete.
    pub fn push(&mut self, text: &str) -> (r: Vec<String>)
        ensures
            views(r@) == payloads(complete_lines(old(self).pending() + text@)),
            final(self).pending() == unfinished_line(old(self).pending() + text@),
    {
        append_str(&mut self.pending, text);
        let all = lines(self.pending.as_slice());
        let ends = self.pending.len() > 0 && self.pending[self.pending.len() - 1] == '\n';
        if ends || all.len() == 0 {
            let r = Self::payloads_of(&all, all.len());
            proof {
                assert(char_views(all@).take(all.len() as int) == char_views(all@));
            }
            self.pending = Vec::new();
            r
        } else {
            let r = Self::payloads_of(&all, all.len() - 1);
            proof {
                assert(char_views(all@).take(all.len() - 1) == char_views(all@).drop_last());
                assert(char_views(all@).last() == all@[all.len() - 1]@);
            }
            let mut rest: Vec<char> = Vec::new();
            crate::utils::text::append_chars(&mut rest, all[all.len() - 1].as_slice());
            self.pending = rest;
            r
        }
    }

    /// Hands out the payloads of the data lines in what is pending when the
    /// stream ends.
    pub fn finish(&mut self) -> (r: Vec<String>)
        ensures
            views(r@) == payloads(lines_of(old(self).pending())),
            final(self).pending().len() == 0,
    {
        let all = lines(self.pending.as_slice());
        let r = Self::payloads_of(&all, all.len());
        proof {
            assert(char_views(all@).take(all.len() as int) == char_views(all@));
        }
        self.pending = Vec::new();
        r
    }
}

/// Whether a text asks for a search: in lowercase it holds the word, in
/// English or in Chinese.
pub open spec fn asks_for_search(content: Seq<char>) -> bool {
    contains(lowercase_of(content), "search"@) || contains(lowercase_of(content), "搜索"@)
}

/// Whether some message of a conversation asks for a search. `contents`
/// holds the text of each message, if it has one.
pub fn is_search_mode_enabled(contents: &Vec<Option<String>>) -> (r: bool)
    ensures
        r == exists|i: int|
            0 <= i < contents@.len() && (#[trigger] contents@[i]) is Some && asks_for_search(
                contents@[i]->0@,
            ),
{
    let mut i: usize = 0;
    while i < contents.len()
        invariant
            i <= contents.len(),
            forall|k: int|
                0 <= k < i ==> !((#[trigger] contents@[k]) is Some && asks_for_search(
                    contents@[k]->0@,
                )),
        decreases contents.len() - i,
    {
        match &contents[i] {
            Some(text) => {
                let lower = to_lowercase(text.as_str());
                if str_contains(lower.as_str(), "search") || str_contains(lower.as_str(), "搜索") {
                    return true;
                }
            },
            None => {},
        }
        i += 1;
    }
    false
}

/// What the client of the compatible endpoint is set up with: the request
/// fields that it passes on.
#[derive(Debug, Clone)]
pub struct OpenAIClient {
    whitelist: Vec<String>,
}

impl OpenAIClient {
    /// The fields that are passed on.
    pub closed spec fn whitelist(&self) -> Seq<Seq<char>> {
        views(self.whitelist@)
    }

    /// A client that passes on the default fields.
    pub fn new() -> (c: Self)
        ensures
            c.whitelist() == default_whitelist(),
    {
        OpenAIClient { whitelist: get_default_whitelist() }
    }

    /// Replaces the fields that are passed on.
    pub fn set_whitelist(&mut self, whitelist: Vec<String>)
        ensures
            final(self).whitelist() == views(whitelist@),
    {
        self.whitelist = whitelist;
    }

    /// The fields that are passed on.
    pub fn get_whitelist(&self) -> (r: &[String])
        ensures
            views(r@) == self.whitelist(),
    {
        self.whitelist.as_slice()
    }

    /// Keeps the request fields that are passed on.
    pub fn filter_request_data(&self, fields: &Vec<String>) -> (r: Vec<String>)
        ensures
            views(r@) == allowed_fields(views(fields@), self.whitelist()),
    {
        filter_request_fields(fields, &self.whitelist)
    }
}

} // verus!
