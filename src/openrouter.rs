//! The request-shaping and response-reading rules of the generator client.
//! The HTTP exchange itself lives with the service binary.

use vstd::prelude::*;
use crate::models::{Millis, Saying, SayingSource};

verus! {

/// The outcome of a chat exchange: the answer, or why there is none.
#[derive(Debug)]
pub struct ChatResponse {
    pub content: Option<String>,
    pub error: Option<String>,
}

impl ChatResponse {
    /// A failed exchange with message `error`.
    pub fn failure(error: String) -> (r: ChatResponse)
        ensures
            r.content is None,
            r.error == Some(error),
    {
        ChatResponse { content: None, error: Some(error) }
    }
}

/// Token counts reported with a completion.
#[derive(Debug, Clone, Copy)]
pub struct OpenRouterUsage {
    pub prompt_tokens: Option<u32>,
    pub completion_tokens: Option<u32>,
    pub total_tokens: Option<u32>,
}

/// The message given when no API key is configured.
pub open spec fn missing_key_message() -> Seq<char> {
    "OpenRouter API key is not configured. Please add it to your .env file."@
}

/// `None` when an API key is configured; else the message that says it is missing.
pub fn check_api_key(api_key: &str) -> (r: Option<String>)
    ensures
        api_key@.len() > 0 ==> r is None,
        api_key@.len() == 0 ==> (r matches Some(m) && m@ == missing_key_message()),
{
    if api_key.is_empty() {
        Some(String::from_str("OpenRouter API key is not configured. Please add it to your .env file."))
    } else {
        None
    }
}

/// The model asked for, else the configured one, else the fallback model.
pub open spec fn chosen_model(requested: Option<Seq<char>>, configured: Seq<char>) -> Seq<char> {
    match requested {
        Some(m) => m,
        None => if configured.len() == 0 {
            "openai/gpt-3.5-turbo"@
        } else {
            configured
        },
    }
}

/// Picks the model of a request (see `chosen_model`).
pub fn resolve_model(requested: Option<String>, configured: &str) -> (r: String)
    ensures
        r@ == chosen_model(
            match requested {
                Some(m) => Some(m@),
                None => None,
            },
            configured@,
        ),
{
    match requested {
        Some(m) => m,
        None => if configured.is_empty() {
            String::from_str("openai/gpt-3.5-turbo")
        } else {
            configured.to_owned()
        },
    }
}

/// The chat-completions endpoint under `base_url`.
pub fn completions_url(base_url: &str) -> (r: String)
    ensures
        r@ == base_url@ + "/chat/completions"@,
{
    base_url.to_owned().concat("/chat/completions")
}

/// The answer of a completion: the content of its first choice.
pub fn first_choice(contents: &Vec<String>) -> (r: Result<String, String>)
    ensures
        contents@.len() > 0 ==> r == Ok::<String, String>(contents@[0]),
        contents@.len() == 0 ==> (r matches Err(m) && m@ == "OpenRouter response contained no choices"@),
{
    if contents.len() == 0 {
        Err(String::from_str("OpenRouter response contained no choices"))
    } else {
        Ok(contents[0].clone())
    }
}

/// The outcome of a chat exchange from the contents of its choices: the
/// first one, unless there is none or it is empty.
pub fn chat_response_from_choices(contents: &Vec<String>) -> (r: ChatResponse)
    ensures
        contents@.len() > 0 && contents@[0]@.len() > 0 ==> r.content == Some(contents@[0])
            && r.error is None,
        !(contents@.len() > 0 && contents@[0]@.len() > 0) ==> r.content is None && (r.error matches Some(
            m,
        ) && m@ == "Received an invalid response from OpenRouter."@),
{
    if contents.len() == 0 || contents[0].as_str().is_empty() {
        ChatResponse::failure(String::from_str("Received an invalid response from OpenRouter."))
    } else {
        ChatResponse { content: Some(contents[0].clone()), error: None }
    }
}

impl Saying {
    /// A fresh answer of the generator to `prompt`, not yet tied to a preset.
    pub fn generated(id: String, content: String, prompt: String, created_at: Millis) -> (r: Saying)
        ensures
            r == (Saying {
                id: id,
                content: content,
                prompt: prompt,
                created_at: created_at,
                source: SayingSource::LLM,
                preset_id: None,
            }),
    {
        Saying { id, content, prompt, created_at, source: SayingSource::LLM, preset_id: None }
    }
}

} // verus!
