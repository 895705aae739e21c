//! Translation requests and responses, and the prompt and endpoint of an
//! OpenAI-compatible chat-completions service.

use vstd::prelude::*;
use std::collections::HashMap;
use crate::text::{push_char, string_views};
use crate::subtitle::join;
use crate::error::{AppError, ErrorView};

verus! {

/// A translation error: `prefix` followed by `detail`.
fn translate_error(prefix: &str, detail: &str) -> (e: AppError)
    ensures
        e@ == ErrorView::Translate(prefix@ + detail@),
{
    let mut m = String::from_str(prefix);
    m.append(detail);
    AppError::Translate(m)
}

/// A request to translate one line, with the lines before it as context.
#[derive(Clone, Debug)]
pub struct TranslateRequest {
    pub text: String,
    pub source_lang: String,
    pub target_lang: String,
    pub context: Vec<String>,
    pub glossary: Option<HashMap<String, String>>,
}

/// A [`TranslateRequest`] with its strings taken as character sequences.
pub struct TranslateRequestView {
    pub text: Seq<char>,
    pub source_lang: Seq<char>,
    pub target_lang: Seq<char>,
    pub context: Seq<Seq<char>>,
    pub has_glossary: bool,
}

impl View for TranslateRequest {
    type V = TranslateRequestView;

    open spec fn view(&self) -> TranslateRequestView {
        TranslateRequestView {
            text: self.text@,
            source_lang: self.source_lang@,
            target_lang: self.target_lang@,
            context: string_views(self.context@),
            has_glossary: self.glossary is Some,
        }
    }
}

/// The translated text of one request.
#[derive(Clone, Debug)]
pub struct TranslateResponse {
    pub translated_text: String,
}

/// A translation service speaking the OpenAI chat-completions protocol.
#[derive(Clone, Debug)]
pub struct OpenAiCompatibleProvider {
    pub base_url: String,
    pub model: String,
    pub api_key: String,
}

/// One chat message: who speaks and what.
#[derive(Clone, Debug)]
pub struct ChatMessage {
    pub role: String,
    pub content: String,
}

pub open spec fn system_prompt() -> Seq<char> {
    "You are a professional subtitle translator. Translate the given text naturally and accurately, preserving the tone, style, and context. Avoid literal word-for-word translation. Focus on conveying the meaning in fluent, idiomatic target language."@
}

/// The context block of a prompt: empty without context, else the earlier
/// lines one per line after a heading, followed by a blank line.
pub open spec fn context_block(context: Seq<Seq<char>>) -> Seq<char> {
    if context.len() == 0 {
        seq![]
    } else {
        "Previous context:\n"@ + join(context, seq!['\n']) + "\n\n"@
    }
}

/// The user message asking for the translation of `r`.
pub open spec fn user_prompt_text(r: TranslateRequestView) -> Seq<char> {
    context_block(r.context) + "Translate"@ + " from "@ + r.source_lang + " to "@ + r.target_lang + ":\n\n"@
        + r.text
}

/// The conversation sent for `r`: the system prompt, two worked examples
/// (English to Chinese) and the request itself, as (role, content) pairs.
pub open spec fn chat_for(r: TranslateRequestView) -> Seq<(Seq<char>, Seq<char>)> {
    seq![
        ("system"@, system_prompt()),
        ("user"@, "Translate"@ + " from en to zh:\n\nWe have main engine start, 4, 3, 2, 1."@),
        ("assistant"@, "主发动机启动，4、3、2、1。"@),
        ("user"@, "Translate"@ + " from en to zh:\n\nYou have your robotics, and I just want to be awesome in space."@),
        ("assistant"@, "你有你的机器人技术，而我只想在太空中大显身手。"@),
        ("user"@, user_prompt_text(r)),
    ]
}

pub open spec fn message_views(v: Seq<ChatMessage>) -> Seq<(Seq<char>, Seq<char>)> {
    v.map_values(|m: ChatMessage| (m.role@, m.content@))
}

/// The request verb followed by `rest`.
fn example_request(rest: &str) -> (r: String)
    ensures
        r@ == "Translate"@ + rest@,
{
    let mut m = String::from_str("Translate");
    m.append(rest);
    m
}

fn message(role: &str, content: String) -> (m: ChatMessage)
    ensures
        m.role@ == role@,
        m.content@ == content@,
{
    ChatMessage { role: String::from_str(role), content }
}

impl OpenAiCompatibleProvider {
    /// The chat-completions endpoint under the base URL.
    pub fn chat_completions_url(&self) -> (r: String)
        ensures
            r@ == self.base_url@ + "/chat/completions"@,
    {
        let mut url = self.base_url.clone();
        url.append("/chat/completions");
        url
    }

    /// The `Authorization` header value: the key as a bearer token.
    pub fn authorization(&self) -> (r: String)
        ensures
            r@ == "Bearer "@ + self.api_key@,
    {
        let mut h = String::from_str("Bearer ");
        h.append(self.api_key.as_str());
        h
    }

    /// The user message asking for the translation of `req`, preceded by the
    /// earlier lines when there are any.
    pub fn user_prompt(req: &TranslateRequest) -> (r: String)
        ensures
            r@ == user_prompt_text(req@),
    {
        let mut out = String::new();
        let n = req.context.len();
        if n > 0 {
            out.append("Previous context:\n");
            let ghost lines = string_views(req.context@);
            let ghost start = out@;
            let mut i: usize = 0;
            while i < n
                invariant
                    i <= n,
                    n == req.context@.len(),
                    lines == string_views(req.context@),
                    out@ == start + join(lines.take(i as int), seq!['\n']),
                decreases n - i,
            {
                if i > 0 {
                    push_char(&mut out, '\n');
                }
                out.append(req.context[i].as_str());
                assert(lines.take(i + 1).drop_last() =~= lines.take(i as int));
                i = i + 1;
            }
            assert(lines.take(n as int) =~= lines);
            out.append("\n\n");
        }
        assert(out@ == context_block(req@.context));
        out.append("Translate");
        out.append(" from ");
        out.append(req.source_lang.as_str());
        out.append(" to ");
        out.append(req.target_lang.as_str());
        out.append(":\n\n");
        out.append(req.text.as_str());
        out
    }

    /// The conversation to send for `req`.
    pub fn chat_messages(req: &TranslateRequest) -> (r: Vec<ChatMessage>)
        ensures
            message_views(r@) == chat_for(req@),
    {
        let mut v: Vec<ChatMessage> = Vec::new();
        v.push(message("system", String::from_str("You are a professional subtitle translator. Translate the given text naturally and accurately, preserving the tone, style, and context. Avoid literal word-for-word translation. Focus on conveying the meaning in fluent, idiomatic target language.")));
        v.push(message("user", example_request(" from en to zh:\n\nWe have main engine start, 4, 3, 2, 1.")));
        v.push(message("assistant", String::from_str("主发动机启动，4、3、2、1。")));
        v.push(message("user", example_request(" from en to zh:\n\nYou have your robotics, and I just want to be awesome in space.")));
        v.push(message("assistant", String::from_str("你有你的机器人技术，而我只想在太空中大显身手。")));
        v.push(message("user", Self::user_prompt(req)));
        assert(message_views(v@) =~= chat_for(req@));
        v
    }

    /// The translation found in a reply: the first choice's message content,
    /// or an invalid-format error when the reply has none.
    pub fn translation_from_reply(content: Option<String>) -> (r: Result<TranslateResponse, AppError>)
        ensures
            match content {
                Some(c) => r matches Ok(t) && t.translated_text@ == c@,
                None => r matches Err(e) && e@ == ErrorView::Translate("Invalid response format"@),
            },
    {
        match content {
            Some(c) => Ok(TranslateResponse { translated_text: c }),
            None => Err(AppError::Translate(String::from_str("Invalid response format"))),
        }
    }

    /// The error when a translation request could not be sent; `detail` is
    /// the transport's own message.
    pub fn request_failed(detail: &str) -> (e: AppError)
        ensures
            e@ == ErrorView::Translate("HTTP request failed: "@ + detail@),
    {
        translate_error("HTTP request failed: ", detail)
    }

    /// The error when the connection test could not be sent.
    pub fn connection_test_failed(detail: &str) -> (e: AppError)
        ensures
            e@ == ErrorView::Translate("Connection test failed: "@ + detail@),
    {
        translate_error("Connection test failed: ", detail)
    }

    /// The error when a reply's body is not the expected JSON.
    pub fn unreadable_reply(detail: &str) -> (e: AppError)
        ensures
            e@ == ErrorView::Translate("Failed to parse response: "@ + detail@),
    {
        translate_error("Failed to parse response: ", detail)
    }

    /// The error when the service answers with a status other than success:
    /// the status and the body it sent.
    pub fn api_error(status: &str, body: &str) -> (e: AppError)
        ensures
            e@ == ErrorView::Translate("API error "@ + status@ + ": "@ + body@),
    {
        let mut m = String::from_str("API error ");
        m.append(status);
        m.append(": ");
        m.append(body);
        AppError::Translate(m)
    }
}

} // verus!
