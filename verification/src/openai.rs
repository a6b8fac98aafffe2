//! The OpenAI-style model client as a record: which messages a request
//! carries, under which roles, and what a response yields.

use vstd::prelude::*;
use crate::config::Config;
use crate::gemini::{sliding_window, window_spec};
use crate::message::{conversation, refs_view, Message, MessageRole, MessageView};
use crate::text::{decimal_of, decimal_text};

verus! {

/// What can go wrong with a call of the OpenAI-style endpoint.
#[derive(Debug, PartialEq, Eq)]
pub enum OpenAIError {
    /// The request did not get through; the text says why.
    Network(String),
    /// The endpoint answered with an error status.
    ApiError { status: u16, message: String },
    /// The endpoint asks to slow down.
    RateLimited,
    /// No key is configured.
    MissingApiKey,
    /// The answer holds no text.
    EmptyResponse,
}

/// An error as plain values.
pub enum OpenAIErrorView {
    Network(Seq<char>),
    ApiError { status: u16, message: Seq<char> },
    RateLimited,
    MissingApiKey,
    EmptyResponse,
}

impl View for OpenAIError {
    type V = OpenAIErrorView;

    open spec fn view(&self) -> OpenAIErrorView {
        match self {
            OpenAIError::Network(text) => OpenAIErrorView::Network(text@),
            OpenAIError::ApiError { status, message } => OpenAIErrorView::ApiError {
                status: *status,
                message: message@,
            },
            OpenAIError::RateLimited => OpenAIErrorView::RateLimited,
            OpenAIError::MissingApiKey => OpenAIErrorView::MissingApiKey,
            OpenAIError::EmptyResponse => OpenAIErrorView::EmptyResponse,
        }
    }
}

/// The sentence that describes an error.
pub open spec fn openai_error_text(error: OpenAIErrorView) -> Seq<char> {
    match error {
        OpenAIErrorView::Network(text) => "Network error: "@ + text,
        OpenAIErrorView::ApiError { status, message } => "API error: "@ + decimal_text(
            status as int,
        ) + " - "@ + message,
        OpenAIErrorView::RateLimited => "Rate limit exceeded. Please wait and try again."@,
        OpenAIErrorView::MissingApiKey => "Missing API key"@,
        OpenAIErrorView::EmptyResponse => "Empty response"@,
    }
}

impl OpenAIError {
    /// The sentence that describes the error.
    pub fn to_string(&self) -> (text: String)
        ensures
            text@ == openai_error_text(self@),
    {
        match self {
            OpenAIError::Network(detail) => {
                let mut text = String::from_str("Network error: ");
                text.append(detail.as_str());
                text
            },
            OpenAIError::ApiError { status, message } => {
                let mut text = String::from_str("API error: ");
                let number = decimal_of(*status as u128);
                text.append(number.as_str());
                text.append(" - ");
                text.append(message.as_str());
                text
            },
            OpenAIError::RateLimited => String::from_str(
                "Rate limit exceeded. Please wait and try again.",
            ),
            OpenAIError::MissingApiKey => String::from_str("Missing API key"),
            OpenAIError::EmptyResponse => String::from_str("Empty response"),
        }
    }
}

/// One message of a chat request or response.
#[derive(Debug, PartialEq, Eq)]
pub struct ChatMessage {
    /// "system", "user" or "assistant".
    pub role: String,
    /// The text.
    pub content: String,
}

/// A chat message as plain values.
pub struct ChatMessageView {
    pub role: Seq<char>,
    pub content: Seq<char>,
}

impl View for ChatMessage {
    type V = ChatMessageView;

    open spec fn view(&self) -> ChatMessageView {
        ChatMessageView { role: self.role@, content: self.content@ }
    }
}

/// The chat messages of a list as plain values.
pub open spec fn chat_view(messages: Seq<ChatMessage>) -> Seq<ChatMessageView> {
    Seq::new(messages.len(), |i: int| messages[i]@)
}

/// The role under which a message goes into a chat request.
pub open spec fn chat_role(role: MessageRole) -> Seq<char> {
    match role {
        MessageRole::User => "user"@,
        MessageRole::Model => "assistant"@,
        MessageRole::System => "system"@,
    }
}

/// The chat message for a message.
pub open spec fn chat_message_of(message: MessageView) -> ChatMessageView {
    ChatMessageView { role: chat_role(message.role), content: message.content }
}

/// The error for an HTTP status, if it is one: 429 means rate limiting,
/// any other status outside 200..=299 is an API error that carries the
/// status and the body.
pub open spec fn chat_status_error(status: u16, body: Seq<char>) -> Option<OpenAIErrorView> {
    if status == 429 {
        Some(OpenAIErrorView::RateLimited)
    } else if status < 200 || status > 299 {
        Some(OpenAIErrorView::ApiError { status, message: body })
    } else {
        None
    }
}

/// The text of the first choice of a response, where there is one and its
/// text is not empty.
pub open spec fn first_choice(choices: Seq<ChatMessageView>) -> Option<Seq<char>> {
    if choices.len() == 0 || choices[0].content.len() == 0 {
        None
    } else {
        Some(choices[0].content)
    }
}

/// The OpenAI-style client: the key, the endpoint, the model, and the
/// window size.
#[derive(Debug, PartialEq, Eq)]
pub struct OpenAIClient {
    api_key: String,
    base_url: String,
    model: String,
    max_history_messages: usize,
}

impl Clone for OpenAIClient {
    fn clone(&self) -> (copy: Self)
        ensures
            copy == *self,
    {
        OpenAIClient {
            api_key: self.api_key.clone(),
            base_url: self.base_url.clone(),
            model: self.model.clone(),
            max_history_messages: self.max_history_messages,
        }
    }
}

impl OpenAIClient {
    /// The key sent with each request.
    pub closed spec fn key(&self) -> Seq<char> {
        self.api_key@
    }

    /// The endpoint.
    pub closed spec fn endpoint(&self) -> Seq<char> {
        self.base_url@
    }

    /// The model identifier.
    pub closed spec fn model_name(&self) -> Seq<char> {
        self.model@
    }

    /// The window size.
    pub closed spec fn window(&self) -> nat {
        self.max_history_messages as nat
    }

    /// A client for the key, model and window of `config`, at its endpoint
    /// or, where it names none, at "https://api.openai.com/v1"; it takes a
    /// key that is not empty.
    pub fn new(config: &Config) -> (client: Result<Self, OpenAIError>)
        ensures
            match client {
                Ok(c) => config@.api_key.len() > 0 && c.key() == config@.api_key && c.model_name()
                    == config@.model && c.window() == config@.max_history_messages && c.endpoint()
                    == (match config@.base_url {
                    Some(url) => url,
                    None => "https://api.openai.com/v1"@,
                }),
                Err(e) => config@.api_key.len() == 0 && e@ == OpenAIErrorView::MissingApiKey,
            },
    {
        if config.api_key.as_str().is_empty() {
            return Err(OpenAIError::MissingApiKey);
        }
        let base_url = match &config.base_url {
            Some(url) => url.clone(),
            None => String::from_str("https://api.openai.com/v1"),
        };
        Ok(
            OpenAIClient {
                api_key: config.api_key.clone(),
                base_url,
                model: config.model.clone(),
                max_history_messages: config.max_history_messages,
            },
        )
    }

    /// Replaces the model identifier.
    pub fn set_model(&mut self, model: String)
        ensures
            final(self).model_name() == model@,
            final(self).key() == old(self).key(),
            final(self).endpoint() == old(self).endpoint(),
            final(self).window() == old(self).window(),
    {
        self.model = model;
    }

    /// The model identifier.
    pub fn model(&self) -> (name: &str)
        ensures
            name@ == self.model_name(),
    {
        self.model.as_str()
    }

    /// The address that a chat request goes to.
    pub fn chat_url(&self) -> (url: String)
        ensures
            url@ == self.endpoint() + "/chat/completions"@,
    {
        let mut url = self.base_url.clone();
        url.append("/chat/completions");
        url
    }

    /// The address that lists the models.
    pub fn models_url(&self) -> (url: String)
        ensures
            url@ == self.endpoint() + "/models"@,
    {
        let mut url = self.base_url.clone();
        url.append("/models");
        url
    }

    /// The value of the authorization header.
    pub fn authorization(&self) -> (value: String)
        ensures
            value@ == "Bearer "@ + self.key(),
    {
        let mut value = String::from_str("Bearer ");
        value.append(self.api_key.as_str());
        value
    }

    /// Whether an HTTP status reports success: 200 to 299.
    pub fn is_success(status: u16) -> (ok: bool)
        ensures
            ok == (200 <= status <= 299),
            ok ==> chat_status_error(status, Seq::empty()) is None,
    {
        200 <= status && status <= 299
    }

    /// The messages of a chat request for a conversation: the system
    /// message, if there is one, under the role "system", then the most
    /// recent other messages, as many as the window allows, in their
    /// order, the model's under the role "assistant".
    pub fn build_messages(&self, messages: &[Message]) -> (chat: Vec<ChatMessage>)
        ensures
            chat_view(chat@) == window_spec(conversation(messages@), self.window()).map_values(
                |m: MessageView| chat_message_of(m),
            ),
    {
        let kept = sliding_window(messages, self.max_history_messages);
        let mut chat: Vec<ChatMessage> = Vec::new();
        let mut i: usize = 0;
        while i < kept.len()
            invariant
                i <= kept.len(),
                chat.len() == i,
                forall|k: int|
                    0 <= k < i ==> (#[trigger] chat@[k])@ == chat_message_of(kept@[k]@),
            decreases kept.len() - i,
        {
            let message = kept[i];
            let role = match message.role {
                MessageRole::User => "user",
                MessageRole::Model => "assistant",
                MessageRole::System => "system",
            };
            chat.push(ChatMessage { role: role.to_owned(), content: message.content.clone() });
            i += 1;
        }
        assert(chat_view(chat@) =~= refs_view(kept@).map_values(
            |m: MessageView| chat_message_of(m),
        ));
        chat
    }

    /// The text of a response: that of its first choice. A response
    /// without choices, or whose text is empty, is an empty response.
    pub fn extract_text(choices: &[ChatMessage]) -> (text: Result<String, OpenAIError>)
        ensures
            match text {
                Ok(t) => first_choice(chat_view(choices@)) == Some(t@),
                Err(e) => first_choice(chat_view(choices@)) is None && e@
                    == OpenAIErrorView::EmptyResponse,
            },
    {
        if choices.len() == 0 {
            return Err(OpenAIError::EmptyResponse);
        }
        if choices[0].content.as_str().is_empty() {
            return Err(OpenAIError::EmptyResponse);
        }
        Ok(choices[0].content.clone())
    }

    /// What an HTTP status means for a call: rate limiting for 429, an API
    /// error with the status and the body for any other status outside
    /// 200..=299, and nothing wrong otherwise.
    pub fn check_status(status: u16, body: &str) -> (outcome: Result<(), OpenAIError>)
        ensures
            match outcome {
                Ok(_) => chat_status_error(status, body@) is None,
                Err(e) => chat_status_error(status, body@) == Some(e@),
            },
    {
        if status == 429 {
            Err(OpenAIError::RateLimited)
        } else if status < 200 || status > 299 {
            Err(OpenAIError::ApiError { status, message: body.to_owned() })
        } else {
            Ok(())
        }
    }
}

} // verus!
