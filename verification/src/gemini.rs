//! The Gemini-style model client as a record: which messages a request
//! carries, how the request is built, and what a response yields.

use vstd::prelude::*;
use crate::config::Config;
use crate::message::{
    conversation, join_text_parts, joined_text, last_system, non_system, refs_view, request_from_refs,
    request_of, ContentView, GeminiRequest, GeminiResponse, Message, MessageRole, MessageView,
};
use crate::text::{decimal_of, decimal_text};

verus! {

/// The instructions that tell the model which tools it has and how to ask
/// for them.
pub const SYSTEM_PROMPT: &'static str = r#"
You are a macOS/Linux system expert assistant. You help users accomplish system administration tasks.

You have access to these tools (respond with JSON):

1. Run shell command:
   {"tool": "run_cmd", "command": "<shell command>"}

2. Read file contents:
   {"tool": "read_file", "path": "<file path>"}

3. Write to file:
   {"tool": "write_file", "path": "<file path>", "content": "<content>"}

4. Search for files:
   {"tool": "search", "pattern": "<filename pattern>", "directory": "<dir>"}

Rules:
1. Only output raw JSON when using a tool. No markdown, no explanation before it.
2. If you can answer without a tool, just respond with plain text.
3. After seeing tool output, provide a helpful summary.
4. Be concise but informative.
5. For dangerous operations, warn the user first.

Examples:
- "List files": {"tool": "run_cmd", "command": "ls -la"}
- "Show config.toml": {"tool": "read_file", "path": "config.toml"}
- "Find all .rs files": {"tool": "search", "pattern": "*.rs", "directory": "."}
- "What is 2+2?": 4
"#;

/// What can go wrong with a call of the Gemini-style endpoint.
#[derive(Debug, PartialEq, Eq)]
pub enum GeminiError {
    /// The request did not get through; the text says why.
    Network(String),
    /// The endpoint answered with an error status.
    ApiError { status: u16, message: String },
    /// The endpoint asks to slow down.
    RateLimited,
    /// The answer could not be read; the text says why.
    InvalidResponse(String),
    /// No key is configured.
    MissingApiKey,
    /// The answer holds no text.
    EmptyResponse,
}

/// An error as plain values.
pub enum GeminiErrorView {
    Network(Seq<char>),
    ApiError { status: u16, message: Seq<char> },
    RateLimited,
    InvalidResponse(Seq<char>),
    MissingApiKey,
    EmptyResponse,
}

impl View for GeminiError {
    type V = GeminiErrorView;

    open spec fn view(&self) -> GeminiErrorView {
        match self {
            GeminiError::Network(text) => GeminiErrorView::Network(text@),
            GeminiError::ApiError { status, message } => GeminiErrorView::ApiError {
                status: *status,
                message: message@,
            },
            GeminiError::RateLimited => GeminiErrorView::RateLimited,
            GeminiError::InvalidResponse(text) => GeminiErrorView::InvalidResponse(text@),
            GeminiError::MissingApiKey => GeminiErrorView::MissingApiKey,
            GeminiError::EmptyResponse => GeminiErrorView::EmptyResponse,
        }
    }
}

/// The sentence that describes an error.
pub open spec fn gemini_error_text(error: GeminiErrorView) -> Seq<char> {
    match error {
        GeminiErrorView::Network(text) => "Network error: "@ + text,
        GeminiErrorView::ApiError { status, message } => "API error: "@ + decimal_text(
            status as int,
        ) + " - "@ + message,
        GeminiErrorView::RateLimited => "Rate limit exceeded. Please wait and try again."@,
        GeminiErrorView::InvalidResponse(text) => "Invalid response format: "@ + text,
        GeminiErrorView::MissingApiKey => "Missing API key. Set AGENT_RS_API_KEY or configure in config.toml"@,
        GeminiErrorView::EmptyResponse => "Empty response from API"@,
    }
}

impl GeminiError {
    /// The sentence that describes the error.
    pub fn to_string(&self) -> (text: String)
        ensures
            text@ == gemini_error_text(self@),
    {
        match self {
            GeminiError::Network(detail) => {
                let mut text = String::from_str("Network error: ");
                text.append(detail.as_str());
                text
            },
            GeminiError::ApiError { status, message } => {
                let mut text = String::from_str("API error: ");
                let number = decimal_of(*status as u128);
                text.append(number.as_str());
                text.append(" - ");
                text.append(message.as_str());
                text
            },
            GeminiError::RateLimited => String::from_str(
                "Rate limit exceeded. Please wait and try again.",
            ),
            GeminiError::InvalidResponse(detail) => {
                let mut text = String::from_str("Invalid response format: ");
                text.append(detail.as_str());
                text
            },
            GeminiError::MissingApiKey => String::from_str(
                "Missing API key. Set AGENT_RS_API_KEY or configure in config.toml",
            ),
            GeminiError::EmptyResponse => String::from_str("Empty response from API"),
        }
    }
}

/// The error for an HTTP status, if it is one: 429 means rate limiting,
/// any other status outside 200..=299 is an API error that carries the
/// status and the body.
pub open spec fn status_error(status: u16, body: Seq<char>) -> Option<GeminiErrorView> {
    if status == 429 {
        Some(GeminiErrorView::RateLimited)
    } else if status < 200 || status > 299 {
        Some(GeminiErrorView::ApiError { status, message: body })
    } else {
        None
    }
}

/// The last `window` messages of `messages`, or all of them where there
/// are no more than that.
pub open spec fn recent(messages: Seq<MessageView>, window: nat) -> Seq<MessageView> {
    if messages.len() > window {
        messages.skip(messages.len() - window)
    } else {
        messages
    }
}

/// The messages that a request carries: the system message, if there is
/// one, then the last `window` messages that are not system messages, in
/// their order.
pub open spec fn window_spec(messages: Seq<MessageView>, window: nat) -> Seq<MessageView> {
    (match last_system(messages) {
        Some(system) => seq![system],
        None => Seq::empty(),
    }) + recent(non_system(messages), window)
}

/// The text of the first candidate of a response, where there is one and
/// its text is not empty.
pub open spec fn first_text(response: Seq<ContentView>) -> Option<Seq<char>> {
    if response.len() == 0 {
        None
    } else if joined_text(response[0].parts).len() == 0 {
        None
    } else {
        Some(joined_text(response[0].parts))
    }
}

/// The messages that a request carries for a conversation under a window:
/// the system message, if there is one, then the most recent other
/// messages, as many as the window allows, in their order.
pub fn sliding_window<'a>(messages: &'a [Message], window: usize) -> (kept: Vec<&'a Message>)
    ensures
        refs_view(kept@) == window_spec(conversation(messages@), window as nat),
{
    let ghost all = conversation(messages@);
    let ghost keep = |m: MessageView| m.role != MessageRole::System;
    let mut system_prompt: Option<&'a Message> = None;
    let mut others: Vec<&'a Message> = Vec::new();
    let mut i: usize = 0;
    proof {
        assert(all.take(0) == Seq::<MessageView>::empty());
        assert(refs_view(others@) == all.take(0).filter(keep));
    }
    while i < messages.len()
        invariant
            i <= messages.len(),
            all == conversation(messages@),
            keep == |m: MessageView| m.role != MessageRole::System,
            refs_view(others@) == all.take(i as int).filter(keep),
            match last_system(all.take(i as int)) {
                Some(system) => system_prompt matches Some(found) && found@ == system,
                None => system_prompt is None,
            },
        decreases messages.len() - i,
    {
        let ghost before = refs_view(others@);
        proof {
            reveal(Seq::filter);
            assert(all.take(i + 1).drop_last() == all.take(i as int));
            assert(all.take(i + 1).last() == messages@[i as int]@);
        }
        let message = &messages[i];
        if message.role == MessageRole::System {
            system_prompt = Some(message);
        } else {
            others.push(message);
            proof {
                assert(refs_view(others@) == before.push(message@));
            }
        }
        i += 1;
    }
    proof {
        assert(all.take(messages.len() as int) == all);
    }
    let mut kept: Vec<&'a Message> = Vec::new();
    if let Some(system) = system_prompt {
        kept.push(system);
    }
    let ghost head = refs_view(kept@);
    let start: usize = if others.len() > window {
        others.len() - window
    } else {
        0
    };
    let mut k: usize = start;
    proof {
        assert(refs_view(others@).subrange(start as int, start as int) == Seq::<
            MessageView,
        >::empty());
    }
    while k < others.len()
        invariant
            start <= k <= others.len(),
            refs_view(kept@) == head + refs_view(others@).subrange(start as int, k as int),
        decreases others.len() - k,
    {
        let ghost before = refs_view(kept@);
        kept.push(others[k]);
        proof {
            assert(refs_view(kept@) == before.push(others@[k as int]@));
            assert(refs_view(others@).subrange(start as int, k + 1) == refs_view(
                others@,
            ).subrange(start as int, k as int).push(others@[k as int]@));
        }
        k += 1;
    }
    proof {
        assert(refs_view(others@).subrange(start as int, others.len() as int) == recent(
            non_system(all),
            window as nat,
        ));
    }
    kept
}

/// The Gemini-style client: the key, the model, and the window size.
#[derive(Debug, PartialEq, Eq)]
pub struct GeminiClient {
    api_key: String,
    model: String,
    max_history_messages: usize,
}

impl Clone for GeminiClient {
    fn clone(&self) -> (copy: Self)
        ensures
            copy == *self,
    {
        GeminiClient {
            api_key: self.api_key.clone(),
            model: self.model.clone(),
            max_history_messages: self.max_history_messages,
        }
    }
}

impl GeminiClient {
    /// The key sent with each request.
    pub closed spec fn key(&self) -> Seq<char> {
        self.api_key@
    }

    /// The model identifier.
    pub closed spec fn model_name(&self) -> Seq<char> {
        self.model@
    }

    /// The window size.
    pub closed spec fn window(&self) -> nat {
        self.max_history_messages as nat
    }

    /// A client for the key, model and window of `config`; it takes a key
    /// that is not empty.
    pub fn new(config: &Config) -> (client: Result<Self, GeminiError>)
        ensures
            match client {
                Ok(c) => config@.api_key.len() > 0 && c.key() == config@.api_key && c.model_name()
                    == config@.model && c.window() == config@.max_history_messages,
                Err(e) => config@.api_key.len() == 0 && e@ == GeminiErrorView::MissingApiKey,
            },
    {
        if config.api_key.as_str().is_empty() {
            return Err(GeminiError::MissingApiKey);
        }
        Ok(
            GeminiClient {
                api_key: config.api_key.clone(),
                model: config.model.clone(),
                max_history_messages: config.max_history_messages,
            },
        )
    }

    /// A client for the given key, model and window; it takes a key that
    /// is not empty.
    pub fn with_params(api_key: String, model: String, max_history_messages: usize) -> (client:
        Result<Self, GeminiError>)
        ensures
            match client {
                Ok(c) => api_key@.len() > 0 && c.key() == api_key@ && c.model_name() == model@
                    && c.window() == max_history_messages,
                Err(e) => api_key@.len() == 0 && e@ == GeminiErrorView::MissingApiKey,
            },
    {
        if api_key.as_str().is_empty() {
            return Err(GeminiError::MissingApiKey);
        }
        Ok(GeminiClient { api_key, model, max_history_messages })
    }

    /// The window size.
    pub fn max_history_messages(&self) -> (n: usize)
        ensures
            n == self.window(),
    {
        self.max_history_messages
    }

    /// The model identifier.
    pub fn model(&self) -> (name: &str)
        ensures
            name@ == self.model_name(),
    {
        self.model.as_str()
    }

    /// Replaces the model identifier.
    pub fn set_model(&mut self, model: String)
        ensures
            final(self).model_name() == model@,
            final(self).key() == old(self).key(),
            final(self).window() == old(self).window(),
    {
        self.model = model;
    }

    /// The address that a request goes to.
    pub fn request_url(&self) -> (url: String)
        ensures
            url@ == "https://generativelanguage.googleapis.com/v1beta/models/"@ + self.model_name()
                + ":generateContent?key="@ + self.key(),
    {
        let mut url = String::from_str("https://generativelanguage.googleapis.com/v1beta/models/");
        url.append(self.model.as_str());
        url.append(":generateContent?key=");
        url.append(self.api_key.as_str());
        url
    }

    /// The address that lists the models.
    pub fn models_url(&self) -> (url: String)
        ensures
            url@ == "https://generativelanguage.googleapis.com/v1beta/models?key="@ + self.key(),
    {
        let mut url = String::from_str(
            "https://generativelanguage.googleapis.com/v1beta/models?key=",
        );
        url.append(self.api_key.as_str());
        url
    }

    /// Whether an HTTP status reports success: 200 to 299.
    pub fn is_success(status: u16) -> (ok: bool)
        ensures
            ok == (200 <= status <= 299),
            ok ==> status_error(status, Seq::empty()) is None,
    {
        200 <= status && status <= 299
    }

    /// The messages that a request carries for a conversation: the system
    /// message, if there is one, then the most recent other messages, as
    /// many as the window allows, in their order.
    pub fn apply_sliding_window<'a>(&self, messages: &'a [Message]) -> (kept: Vec<&'a Message>)
        ensures
            refs_view(kept@) == window_spec(conversation(messages@), self.window()),
    {
        sliding_window(messages, self.max_history_messages)
    }

    /// The request for the given messages: the other messages as content
    /// blocks, and the system message's text as the system instruction.
    pub fn build_request(&self, messages: &[&Message]) -> (request: GeminiRequest)
        ensures
            request@ == request_of(refs_view(messages@)),
    {
        request_from_refs(messages)
    }

    /// The text of a response: that of its first candidate. A response
    /// without candidates, or whose text is empty, is an empty response.
    pub fn extract_text(&self, response: &GeminiResponse) -> (text: Result<String, GeminiError>)
        ensures
            match text {
                Ok(t) => first_text(response@) == Some(t@),
                Err(e) => first_text(response@) is None && e@ == GeminiErrorView::EmptyResponse,
            },
    {
        if response.candidates.len() == 0 {
            return Err(GeminiError::EmptyResponse);
        }
        let text = join_text_parts(&response.candidates[0].content.parts);
        if text.as_str().is_empty() {
            return Err(GeminiError::EmptyResponse);
        }
        Ok(text)
    }

    /// What an HTTP status means for a call: rate limiting for 429, an API
    /// error with the status and the body for any other status outside
    /// 200..=299, and nothing wrong otherwise.
    pub fn check_status(status: u16, body: &str) -> (outcome: Result<(), GeminiError>)
        ensures
            match outcome {
                Ok(_) => status_error(status, body@) is None,
                Err(e) => status_error(status, body@) == Some(e@),
            },
    {
        if status == 429 {
            Err(GeminiError::RateLimited)
        } else if status < 200 || status > 299 {
            Err(GeminiError::ApiError { status, message: body.to_owned() })
        } else {
            Ok(())
        }
    }
}

/// The request holds the system message, if the conversation has one, and
/// no more messages beside it than the window allows: the last ones of
/// the conversation that are not system messages, in their order.
pub proof fn lemma_sliding_window(messages: Seq<MessageView>, window: nat)
    ensures
        ({
            let others = non_system(messages);
            let count = if others.len() <= window {
                others.len()
            } else {
                window
            };
            let kept = window_spec(messages, window);
            &&& last_system(messages) matches Some(system) ==> kept.len() == count + 1 && kept[0]
                == system && kept.skip(1) == others.skip(others.len() - count)
            &&& last_system(messages) is None ==> kept == others.skip(others.len() - count)
            &&& forall|i: int| 0 <= i < others.len() ==> (#[trigger] others[i]).role
                != MessageRole::System
        }),
{
    let others = non_system(messages);
    let keep = |m: MessageView| m.role != MessageRole::System;
    assert forall|i: int| 0 <= i < others.len() implies (#[trigger] others[i]).role
        != MessageRole::System by {
        messages.lemma_filter_pred(keep, i);
    }
    assert(others.skip(0) == others);
    let kept = window_spec(messages, window);
    match last_system(messages) {
        Some(system) => {
            assert(kept.skip(1) == recent(others, window));
        },
        None => {
            assert(kept == recent(others, window));
        },
    }
}

/// The name of a model as the list of models gives it: without the
/// leading `models/`, where it has one.
pub open spec fn listed_model_spec(name: Seq<char>) -> Seq<char> {
    if crate::text::has_prefix(name, "models/"@) {
        name.skip(7)
    } else {
        name
    }
}

/// The name of a model as the list of models gives it.
pub fn listed_model_name(name: &str) -> (model: String)
    ensures
        model@ == listed_model_spec(name@),
{
    let chars = crate::text::chars_of(name);
    let prefix = crate::text::chars_of("models/");
    proof {
        reveal_strlit("models/");
    }
    if crate::text::occurs_at_index(chars.as_slice(), prefix.as_slice(), 0) {
        let model = crate::text::string_of_range(chars.as_slice(), 7, chars.len());
        proof {
            assert(chars@.subrange(7, chars.len() as int) == chars@.skip(7));
        }
        model
    } else {
        name.to_owned()
    }
}

} // verus!
