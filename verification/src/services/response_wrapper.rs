//! Reading of provider responses: the text, the thoughts of models that
//! think aloud, function calls, token counts and safety verdicts.

use crate::models::schemas::{
    opt_view, FunctionCall, GeminiPart, GeminiResponse, GeminiSafetyRating, ToolCall, Usage,
};
use crate::services::gemini::{
    call_parts, calls_for, fresh_uuid, text_parts, usage_of,
};
use crate::utils::text::{
    append_str, chars_of, concat_all, contains, copy_range, find, has_substring, occurs_at,
    rfind, str_eq, string_of, trim, trimmed, views,
};
use vstd::prelude::*;

verus! {

/// The tag that opens the thoughts of a model.
pub open spec fn open_tag() -> Seq<char> {
    "<thinking>"@
}

/// The tag that closes the thoughts of a model.
pub open spec fn close_tag() -> Seq<char> {
    "</thinking>"@
}

/// Whether a text holds a thinking tag.
pub open spec fn has_tag(text: Seq<char>) -> bool {
    contains(text, open_tag()) || contains(text, close_tag())
}

/// Whether `i` is the last position at which `pat` stands in `s`.
pub open spec fn last_at(s: Seq<char>, pat: Seq<char>, i: int) -> bool {
    occurs_at(s, pat, i) && forall|j: int| i < j ==> !occurs_at(s, pat, j)
}

/// Whether `i` is the first position at which `pat` stands in `s`.
pub open spec fn first_at(s: Seq<char>, pat: Seq<char>, i: int) -> bool {
    occurs_at(s, pat, i) && forall|j: int| 0 <= j < i ==> !occurs_at(s, pat, j)
}

/// Whether `answer` is the final answer in `text`: what follows the last
/// closing tag, trimmed, if that is not empty; else the whole text if it has
/// no tag at all; else nothing.
pub open spec fn is_final_answer(text: Seq<char>, answer: Option<Seq<char>>) -> bool {
    if exists|i: int|
        last_at(text, close_tag(), i) && trimmed(text.skip(i + close_tag().len())).len() > 0 {
        exists|i: int|
            last_at(text, close_tag(), i) && answer == Some(
                trimmed(text.skip(i + close_tag().len())),
            )
    } else if !has_tag(text) {
        answer == Some(text)
    } else {
        answer is None
    }
}

/// The final answer in a text of a model that thinks aloud.
pub fn extract_final_answer(text: &str) -> (r: Option<String>)
    ensures
        is_final_answer(text@, opt_view(r)),
{
    let v = chars_of(text);
    let open = chars_of("<thinking>");
    let close = chars_of("</thinking>");
    match rfind(v.as_slice(), close.as_slice()) {
        Some(end) => {
            proof {
                assert(occurs_at(v@, close@, end as int));
                assert(close@.len() == close.len());
                assert(end + close.len() <= v.len());
            }
            let after = copy_range(v.as_slice(), end + close.len(), v.len());
            let answer = trim(after.as_slice());
            proof {
                assert(after@ == v@.skip(end + close.len()));
                assert(last_at(v@, close@, end as int));
                assert forall|i: int| last_at(v@, close@, i) implies i == end by {
                    if i < end {
                        assert(!occurs_at(v@, close@, end as int));
                    }
                }
            }
            if answer.len() > 0 {
                return Some(string_of(answer.as_slice()));
            }
            proof {
                assert(contains(v@, close@));
            }
            None
        },
        None => {
            proof {
                assert forall|i: int| !last_at(v@, close@, i) by {}
            }
            if !has_substring(v.as_slice(), open.as_slice()) {
                Some(text.to_string())
            } else {
                None
            }
        },
    }
}

/// Whether `thoughts` are the thoughts in `text`: what stands between the
/// first opening tag and the first closing tag, trimmed, if both are there
/// and the closing tag comes after the whole of the opening tag.
pub open spec fn are_thoughts(text: Seq<char>, thoughts: Option<Seq<char>>) -> bool {
    if exists|a: int, b: int|
        first_at(text, open_tag(), a) && first_at(text, close_tag(), b) && a + open_tag().len()
            <= b {
        exists|a: int, b: int|
            first_at(text, open_tag(), a) && first_at(text, close_tag(), b) && a
                + open_tag().len() <= b && thoughts == Some(
                trimmed(text.subrange(a + open_tag().len(), b)),
            )
    } else {
        thoughts is None
    }
}

/// The thoughts in a text of a model that thinks aloud.
pub fn extract_thinking_content(text: &str) -> (r: Option<String>)
    ensures
        are_thoughts(text@, opt_view(r)),
{
    let v = chars_of(text);
    let open = chars_of("<thinking>");
    let close = chars_of("</thinking>");
    let start = find(v.as_slice(), open.as_slice());
    let end = find(v.as_slice(), close.as_slice());
    match (start, end) {
        (Some(a), Some(b)) => {
            proof {
                assert(first_at(v@, open@, a as int));
                assert(first_at(v@, close@, b as int));
                assert forall|x: int, y: int|
                    first_at(v@, open@, x) && first_at(v@, close@, y) implies x == a && y
                    == b by {
                    if x < a {
                        assert(!occurs_at(v@, open@, x));
                    }
                    if a < x {
                        assert(!occurs_at(v@, open@, a as int));
                    }
                    if y < b {
                        assert(!occurs_at(v@, close@, y));
                    }
                    if b < y {
                        assert(!occurs_at(v@, close@, b as int));
                    }
                }
            }
            proof {
                assert(occurs_at(v@, open@, a as int));
                assert(open@.len() == open.len());
                assert(a + open.len() <= v.len());
            }
            if a + open.len() <= b {
                let inner = copy_range(v.as_slice(), a + open.len(), b);
                let thoughts = trim(inner.as_slice());
                proof {
                    assert(first_at(v@, open_tag(), a as int) && first_at(
                        v@,
                        close_tag(),
                        b as int,
                    ) && a + open_tag().len() <= b && Some(thoughts@) == Some(
                        trimmed(v@.subrange(a + open_tag().len(), b as int)),
                    ));
                }
                Some(string_of(thoughts.as_slice()))
            } else {
                proof {
                    assert forall|x: int, y: int|
                        !(first_at(v@, open_tag(), x) && first_at(v@, close_tag(), y) && x
                            + open_tag().len() <= y) by {}
                }
                None
            }
        },
        _ => {
            proof {
                assert forall|x: int, y: int|
                    !(first_at(v@, open@, x) && first_at(v@, close@, y)) by {
                    if first_at(v@, open@, x) && first_at(v@, close@, y) {
                        assert(contains(v@, open@));
                        assert(contains(v@, close@));
                    }
                }
            }
            None
        },
    }
}

/// Whether some text part of `parts` holds a thinking tag.
pub open spec fn parts_think(parts: Seq<GeminiPart>) -> bool {
    exists|i: int| 0 <= i < text_parts(parts).len() && has_tag(#[trigger] text_parts(parts)[i])
}

/// Whether some text of some candidate holds a thinking tag.
pub open spec fn thinks(response: GeminiResponse) -> bool {
    exists|c: int|
        0 <= c < response.candidates@.len() && parts_think(
            (#[trigger] response.candidates@[c]).content.parts@,
        )
}

fn any_part_thinks(parts: &Vec<GeminiPart>) -> (r: bool)
    ensures
        r == parts_think(parts@),
{
    let open = chars_of("<thinking>");
    let close = chars_of("</thinking>");
    let mut i: usize = 0;
    proof {
        assert(parts@.take(0) == Seq::<GeminiPart>::empty());
    }
    while i < parts.len()
        invariant
            i <= parts.len(),
            open@ == open_tag(),
            close@ == close_tag(),
            !parts_think(parts@.take(i as int)),
        decreases parts.len() - i,
    {
        let ghost seen = text_parts(parts@.take(i as int));
        proof {
            assert(parts@.take(i as int + 1).drop_last() == parts@.take(i as int));
            assert(parts@.take(i as int + 1).last() == parts@[i as int]);
        }
        match &parts[i] {
            GeminiPart::Text { text } => {
                let v = chars_of(text.as_str());
                let tagged = has_substring(v.as_slice(), open.as_slice()) || has_substring(
                    v.as_slice(),
                    close.as_slice(),
                );
                proof {
                    assert(text_parts(parts@.take(i as int + 1)) == seen.push(text@));
                }
                if tagged {
                    proof {
                        lemma_thinks_on(parts@, i as int + 1, seen.len() as int);
                    }
                    return true;
                }
                proof {
                    assert forall|k: int| 0 <= k < seen.push(text@).len() implies !has_tag(
                        #[trigger] seen.push(text@)[k],
                    ) by {
                        if k < seen.len() {
                            assert(seen.push(text@)[k] == seen[k]);
                        }
                    }
                }
            },
            _ => {},
        }
        i += 1;
    }
    proof {
        assert(parts@.take(parts.len() as int) == parts@);
    }
    false
}

/// The texts of a prefix of a list of parts are a prefix of the texts of the
/// list.
proof fn lemma_text_parts_prefix(parts: Seq<GeminiPart>, n: int)
    requires
        0 <= n <= parts.len(),
    ensures
        text_parts(parts.take(n)).len() <= text_parts(parts).len(),
        forall|k: int|
            0 <= k < text_parts(parts.take(n)).len() ==> text_parts(parts)[k] == text_parts(
                parts.take(n),
            )[k],
    decreases parts.len() - n,
{
    if n == parts.len() {
        assert(parts.take(n) == parts);
    } else {
        lemma_text_parts_prefix(parts, n + 1);
        assert(parts.take(n + 1).drop_last() == parts.take(n));
    }
}

/// A tagged text among the first `n` parts is a tagged text of the list.
proof fn lemma_thinks_on(parts: Seq<GeminiPart>, n: int, k: int)
    requires
        0 <= n <= parts.len(),
        0 <= k < text_parts(parts.take(n)).len(),
        has_tag(text_parts(parts.take(n))[k]),
    ensures
        parts_think(parts),
{
    lemma_text_parts_prefix(parts, n);
    assert(has_tag(text_parts(parts)[k]));
}

/// What was read from a response.
#[derive(Debug, Clone)]
pub struct GeneratedText {
    pub text: String,
    pub thoughts: Option<String>,
    pub token_count: Option<i32>,
    pub finish_reason: Option<String>,
}

/// A provider response, with whether its model thinks aloud.
#[derive(Debug, Clone)]
pub struct GeminiResponseWrapper {
    pub response: GeminiResponse,
    pub is_thinking_model: bool,
}

/// Whether `answers` are the final answers of `texts`, in order, leaving out
/// the texts that have none.
pub open spec fn final_answers(texts: Seq<Seq<char>>, answers: Seq<Seq<char>>) -> bool
    decreases texts.len(),
{
    if texts.len() == 0 {
        answers.len() == 0
    } else {
        ||| is_final_answer(texts.last(), None) && final_answers(texts.drop_last(), answers)
        ||| answers.len() > 0 && is_final_answer(texts.last(), Some(answers.last()))
            && final_answers(texts.drop_last(), answers.drop_last())
    }
}

impl GeminiResponseWrapper {
    /// Wraps a response. The model counts as thinking aloud when some text
    /// of the response holds a thinking tag.
    pub fn new(response: GeminiResponse) -> (w: Self)
        ensures
            w.response == response,
            w.is_thinking_model == thinks(response),
    {
        let mut found = false;
        let mut i: usize = 0;
        while i < response.candidates.len() && !found
            invariant
                i <= response.candidates.len(),
                found ==> thinks(response),
                !found ==> forall|c: int|
                    0 <= c < i ==> !parts_think(
                        (#[trigger] response.candidates@[c]).content.parts@,
                    ),
            decreases response.candidates.len() - i + (if found { 0int } else { 1int }),
        {
            if any_part_thinks(&response.candidates[i].content.parts) {
                found = true;
            } else {
                i += 1;
            }
        }
        GeminiResponseWrapper { response, is_thinking_model: found }
    }

    /// The text of the first candidate: its texts laid end to end, or, for a
    /// model that thinks aloud, their final answers. Nothing when there is no
    /// candidate or no such text.
    pub fn get_text(&self) -> (r: Option<String>)
        ensures
            self.response.candidates@.len() == 0 ==> r is None,
            self.response.candidates@.len() > 0 && !self.is_thinking_model ==> opt_view(r) == (
            if text_parts(self.response.candidates@[0].content.parts@).len() == 0 {
                None
            } else {
                Some(concat_all(text_parts(self.response.candidates@[0].content.parts@)))
            }),
            self.response.candidates@.len() > 0 && self.is_thinking_model ==> exists|
                answers: Seq<Seq<char>>,
            |
                final_answers(text_parts(self.response.candidates@[0].content.parts@), answers)
                    && opt_view(r) == (if answers.len() == 0 {
                    None
                } else {
                    Some(concat_all(answers))
                }),
    {
        if self.response.candidates.len() == 0 {
            return None;
        }
        let parts = &self.response.candidates[0].content.parts;
        let mut out: Vec<char> = Vec::new();
        let mut any = false;
        let ghost mut answers: Seq<Seq<char>> = Seq::empty();
        let mut i: usize = 0;
        proof {
            assert(parts@.take(0) == Seq::<GeminiPart>::empty());
        }
        while i < parts.len()
            invariant
                i <= parts.len(),
                !self.is_thinking_model ==> out@ == concat_all(text_parts(parts@.take(i as int)))
                    && any == (text_parts(parts@.take(i as int)).len() > 0),
                self.is_thinking_model ==> final_answers(
                    text_parts(parts@.take(i as int)),
                    answers,
                ) && out@ == concat_all(answers) && any == (answers.len() > 0),
            decreases parts.len() - i,
        {
            proof {
                assert(parts@.take(i as int + 1).drop_last() == parts@.take(i as int));
                assert(parts@.take(i as int + 1).last() == parts@[i as int]);
            }
            match &parts[i] {
                GeminiPart::Text { text } => {
                    let ghost seen = text_parts(parts@.take(i as int));
                    proof {
                        assert(text_parts(parts@.take(i as int + 1)) == seen.push(text@));
                        assert(seen.push(text@).drop_last() == seen);
                    }
                    if self.is_thinking_model {
                        match extract_final_answer(text.as_str()) {
                            Some(answer) => {
                                append_str(&mut out, answer.as_str());
                                any = true;
                                proof {
                                    let next = answers.push(answer@);
                                    assert(next.drop_last() == answers);
                                    answers = next;
                                }
                            },
                            None => {},
                        }
                    } else {
                        append_str(&mut out, text.as_str());
                        any = true;
                    }
                },
                _ => {},
            }
            i += 1;
        }
        proof {
            assert(parts@.take(parts.len() as int) == parts@);
        }
        if any {
            Some(string_of(out.as_slice()))
        } else {
            None
        }
    }

    /// The thoughts of a model that thinks aloud: those of the first text of
    /// the first candidate that has any.
    pub fn get_thoughts(&self) -> (r: Option<String>)
        ensures
            !self.is_thinking_model || self.response.candidates@.len() == 0 ==> r is None,
            r is Some ==> exists|i: int|
                0 <= i < text_parts(self.response.candidates@[0].content.parts@).len()
                    && are_thoughts(
                    #[trigger] text_parts(self.response.candidates@[0].content.parts@)[i],
                    opt_view(r),
                ),
            r is None && self.is_thinking_model && self.response.candidates@.len() > 0
                ==> forall|i: int|
                0 <= i < text_parts(self.response.candidates@[0].content.parts@).len()
                    ==> are_thoughts(
                    #[trigger] text_parts(self.response.candidates@[0].content.parts@)[i],
                    None,
                ),
    {
        if !self.is_thinking_model || self.response.candidates.len() == 0 {
            return None;
        }
        let parts = &self.response.candidates[0].content.parts;
        let mut i: usize = 0;
        proof {
            assert(parts@.take(0) == Seq::<GeminiPart>::empty());
        }
        while i < parts.len()
            invariant
                i <= parts.len(),
                parts == &self.response.candidates[0].content.parts,
                self.response.candidates@.len() > 0,
                self.is_thinking_model,
                forall|k: int|
                    0 <= k < text_parts(parts@.take(i as int)).len() ==> are_thoughts(
                        #[trigger] text_parts(parts@.take(i as int))[k],
                        None,
                    ),
            decreases parts.len() - i,
        {
            proof {
                assert(parts@.take(i as int + 1).drop_last() == parts@.take(i as int));
                assert(parts@.take(i as int + 1).last() == parts@[i as int]);
            }
            match &parts[i] {
                GeminiPart::Text { text } => {
                    let ghost seen = text_parts(parts@.take(i as int));
                    proof {
                        assert(text_parts(parts@.take(i as int + 1)) == seen.push(text@));
                    }
                    match extract_thinking_content(text.as_str()) {
                        Some(thoughts) => {
                            proof {
                                lemma_text_parts_prefix(parts@, i as int + 1);
                                assert(text_parts(parts@)[seen.len() as int] == text@);
                            }
                            return Some(thoughts);
                        },
                        None => {
                            proof {
                                assert(are_thoughts(text@, None));
                                assert forall|k: int|
                                    0 <= k < seen.push(text@).len() implies are_thoughts(
                                    #[trigger] seen.push(text@)[k],
                                    None,
                                ) by {
                                    if k < seen.len() {
                                        assert(seen.push(text@)[k] == seen[k]);
                                    } else {
                                        assert(seen.push(text@)[k] == text@);
                                    }
                                }
                            }
                        },
                    }
                },
                _ => {
                    proof {
                        assert(text_parts(parts@.take(i as int + 1)) == text_parts(
                            parts@.take(i as int),
                        ));
                    }
                },
            }
            i += 1;
        }
        proof {
            assert(parts@.take(parts.len() as int) == parts@);
        }
        None
    }

    /// The function calls of the first candidate, each under a fresh
    /// identifier.
    pub fn get_function_calls(&self) -> (r: Vec<ToolCall>)
        ensures
            self.response.candidates@.len() == 0 ==> r@.len() == 0,
            self.response.candidates@.len() > 0 ==> calls_for(
                r@,
                call_parts(self.response.candidates@[0].content.parts@),
            ),
    {
        let mut calls: Vec<ToolCall> = Vec::new();
        if self.response.candidates.len() == 0 {
            return calls;
        }
        let parts = &self.response.candidates[0].content.parts;
        let mut i: usize = 0;
        proof {
            assert(parts@.take(0) == Seq::<GeminiPart>::empty());
        }
        while i < parts.len()
            invariant
                i <= parts.len(),
                calls_for(calls@, call_parts(parts@.take(i as int))),
            decreases parts.len() - i,
        {
            proof {
                assert(parts@.take(i as int + 1).drop_last() == parts@.take(i as int));
                assert(parts@.take(i as int + 1).last() == parts@[i as int]);
            }
            match &parts[i] {
                GeminiPart::FunctionCall { function_call } => {
                    let mut id: Vec<char> = Vec::new();
                    append_str(&mut id, "call_");
                    let unique = fresh_uuid();
                    append_str(&mut id, unique.as_str());
                    proof {
                        assert(id@.subrange(0, "call_"@.len() as int) == "call_"@);
                    }
                    calls.push(
                        ToolCall {
                            id: string_of(id.as_slice()),
                            tool_type: "function".to_string(),
                            function: FunctionCall {
                                name: function_call.name.clone(),
                                arguments: function_call.args.clone(),
                            },
                        },
                    );
                },
                _ => {},
            }
            i += 1;
        }
        proof {
            assert(parts@.take(parts.len() as int) == parts@);
        }
        calls
    }

    /// The token counts that the response reports.
    pub fn get_token_count(&self) -> (r: Option<Usage>)
        ensures
            r == usage_of(self.response),
    {
        match self.response.usage_metadata {
            Some(meta) => Some(
                Usage {
                    prompt_tokens: match meta.prompt_token_count {
                        Some(n) => n,
                        None => 0,
                    },
                    completion_tokens: match meta.candidates_token_count {
                        Some(n) => n,
                        None => 0,
                    },
                    total_tokens: match meta.total_token_count {
                        Some(n) => n,
                        None => 0,
                    },
                },
            ),
            None => None,
        }
    }

    /// Why the first candidate stopped.
    pub fn get_finish_reason(&self) -> (r: Option<String>)
        ensures
            opt_view(r) == (if self.response.candidates@.len() == 0 {
                None
            } else {
                opt_view(self.response.candidates@[0].finish_reason)
            }),
    {
        if self.response.candidates.len() == 0 {
            return None;
        }
        match &self.response.candidates[0].finish_reason {
            Some(reason) => Some(reason.clone()),
            None => None,
        }
    }

    /// Whether a stop reason says that safety filters blocked the answer.
    pub open spec fn blocking(reason: Option<Seq<char>>) -> bool {
        reason == Some("SAFETY"@) || reason == Some("BLOCKED_SAFETY"@)
    }

    /// Whether safety filters blocked some candidate.
    pub fn is_blocked(&self) -> (r: bool)
        ensures
            r == exists|c: int|
                0 <= c < self.response.candidates@.len() && Self::blocking(
                    opt_view((#[trigger] self.response.candidates@[c]).finish_reason),
                ),
    {
        let mut i: usize = 0;
        while i < self.response.candidates.len()
            invariant
                i <= self.response.candidates.len(),
                forall|c: int|
                    0 <= c < i ==> !Self::blocking(
                        opt_view((#[trigger] self.response.candidates@[c]).finish_reason),
                    ),
            decreases self.response.candidates.len() - i,
        {
            match &self.response.candidates[i].finish_reason {
                Some(reason) => {
                    if str_eq(reason.as_str(), "SAFETY") || str_eq(reason.as_str(), "BLOCKED_SAFETY") {
                        return true;
                    }
                },
                None => {},
            }
            i += 1;
        }
        false
    }

    /// Whether some candidate has a part.
    pub fn has_content(&self) -> (r: bool)
        ensures
            r == exists|c: int|
                0 <= c < self.response.candidates@.len() && (
                #[trigger] self.response.candidates@[c]).content.parts@.len() > 0,
    {
        let mut i: usize = 0;
        while i < self.response.candidates.len()
            invariant
                i <= self.response.candidates.len(),
                forall|c: int|
                    0 <= c < i ==> (#[trigger] self.response.candidates@[c]).content.parts@.len()
                        == 0,
            decreases self.response.candidates.len() - i,
        {
            if self.response.candidates[i].content.parts.len() > 0 {
                return true;
            }
            i += 1;
        }
        false
    }

    /// The texts of the first candidate, thoughts included.
    pub fn get_all_text_parts(&self) -> (r: Vec<String>)
        ensures
            views(r@) == (if self.response.candidates@.len() == 0 {
                Seq::<Seq<char>>::empty()
            } else {
                text_parts(self.response.candidates@[0].content.parts@)
            }),
    {
        let mut texts: Vec<String> = Vec::new();
        if self.response.candidates.len() == 0 {
            proof {
                assert(views(texts@) =~= Seq::<Seq<char>>::empty());
            }
            return texts;
        }
        let parts = &self.response.candidates[0].content.parts;
        let mut i: usize = 0;
        proof {
            assert(parts@.take(0) == Seq::<GeminiPart>::empty());
            assert(views(texts@) =~= Seq::<Seq<char>>::empty());
        }
        while i < parts.len()
            invariant
                i <= parts.len(),
                views(texts@) == text_parts(parts@.take(i as int)),
            decreases parts.len() - i,
        {
            let ghost before = views(texts@);
            proof {
                assert(parts@.take(i as int + 1).drop_last() == parts@.take(i as int));
                assert(parts@.take(i as int + 1).last() == parts@[i as int]);
            }
            match &parts[i] {
                GeminiPart::Text { text } => {
                    texts.push(text.clone());
                    proof {
                        assert(views(texts@) == before.push(text@));
                    }
                },
                _ => {},
            }
            i += 1;
        }
        proof {
            assert(parts@.take(parts.len() as int) == parts@);
        }
        texts
    }

    /// The text, the thoughts, the total of tokens and the stop reason. The
    /// total is held at the largest signed 32-bit value.
    pub fn extract_text(&self) -> (r: GeneratedText)
        ensures
            r.token_count == (match usage_of(self.response) {
                Some(u) => Some(
                    if u.total_tokens > i32::MAX {
                        i32::MAX
                    } else {
                        u.total_tokens as i32
                    },
                ),
                None => None,
            }),
            opt_view(r.finish_reason) == (if self.response.candidates@.len() == 0 {
                None
            } else {
                opt_view(self.response.candidates@[0].finish_reason)
            }),
    {
        let text = match self.get_text() {
            Some(t) => t,
            None => String::new(),
        };
        let thoughts = self.get_thoughts();
        let token_count = match self.get_token_count() {
            Some(u) => Some(
                if u.total_tokens > i32::MAX as u32 {
                    i32::MAX
                } else {
                    u.total_tokens as i32
                },
            ),
            None => None,
        };
        let finish_reason = self.get_finish_reason();
        GeneratedText { text, thoughts, token_count, finish_reason }
    }

    /// The ratings that the provider gave the first candidate.
    pub fn get_safety_ratings(&self) -> (r: Vec<GeminiSafetyRating>)
        ensures
            rating_views(r@) == (if self.response.candidates@.len() == 0 {
                Seq::<(Seq<char>, Seq<char>)>::empty()
            } else {
                match self.response.candidates@[0].safety_ratings {
                    Some(ratings) => rating_views(ratings@),
                    None => Seq::<(Seq<char>, Seq<char>)>::empty(),
                }
            }),
    {
        let mut r: Vec<GeminiSafetyRating> = Vec::new();
        proof {
            assert(rating_views(r@) == Seq::<(Seq<char>, Seq<char>)>::empty());
        }
        if self.response.candidates.len() == 0 {
            return r;
        }
        match &self.response.candidates[0].safety_ratings {
            Some(ratings) => {
                let mut i: usize = 0;
                while i < ratings.len()
                    invariant
                        i <= ratings.len(),
                        rating_views(r@) == rating_views(ratings@).take(i as int),
                    decreases ratings.len() - i,
                {
                    let ghost before = rating_views(r@);
                    r.push(
                        GeminiSafetyRating {
                            category: ratings[i].category.clone(),
                            probability: ratings[i].probability.clone(),
                        },
                    );
                    proof {
                        assert(rating_views(r@) == before.push(
                            (ratings@[i as int].category@, ratings@[i as int].probability@),
                        ));
                    }
                    i += 1;
                }
                proof {
                    assert(rating_views(ratings@).take(ratings.len() as int) == rating_views(
                        ratings@,
                    ));
                }
                r
            },
            None => r,
        }
    }

    /// What is known about the response besides its text.
    pub fn get_metadata(&self) -> (m: ResponseMetadata)
        ensures
            m.model_type@ == (if self.is_thinking_model {
                "thinking"@
            } else {
                "standard"@
            }),
            m.candidate_count == self.response.candidates@.len(),
            m.has_function_calls == (self.response.candidates@.len() > 0 && call_parts(
                self.response.candidates@[0].content.parts@,
            ).len() > 0),
            m.is_blocked == exists|c: int|
                0 <= c < self.response.candidates@.len() && Self::blocking(
                    opt_view((#[trigger] self.response.candidates@[c]).finish_reason),
                ),
            m.tokens == usage_of(self.response),
    {
        let calls = self.get_function_calls();
        ResponseMetadata {
            model_type: if self.is_thinking_model {
                "thinking".to_string()
            } else {
                "standard".to_string()
            },
            candidate_count: self.response.candidates.len(),
            has_function_calls: calls.len() > 0,
            is_blocked: self.is_blocked(),
            tokens: self.get_token_count(),
        }
    }
}

/// The ratings of a list, each by its category and its probability.
pub open spec fn rating_views(ratings: Seq<GeminiSafetyRating>) -> Seq<(Seq<char>, Seq<char>)> {
    ratings.map_values(|r: GeminiSafetyRating| (r.category@, r.probability@))
}

/// What is known about a response besides its text: the kind of model, how
/// many candidates it has, whether the first calls functions, whether
/// safety filters blocked one, and the token counts if it reports any.
#[derive(Debug, Clone)]
pub struct ResponseMetadata {
    pub model_type: String,
    pub candidate_count: usize,
    pub has_function_calls: bool,
    pub is_blocked: bool,
    pub tokens: Option<Usage>,
}

} // verus!
