//! The model client as the turn logic sees it: one of the two transports,
//! and the error kinds that it tells apart.

use vstd::prelude::*;
use crate::config::{Config, Provider};
use crate::gemini::{GeminiClient, GeminiError, GeminiErrorView};
use crate::openai::{OpenAIClient, OpenAIError, OpenAIErrorView};
use crate::text::{decimal_of, decimal_text};

verus! {

/// What can go wrong with a model call, whichever the transport.
#[derive(Debug, PartialEq, Eq)]
pub enum AIError {
    /// No key is configured.
    MissingApiKey,
    /// The endpoint asks to slow down.
    RateLimited,
    /// The request did not get through; the text says why.
    Network(String),
    /// The endpoint answered with an error status.
    ApiError { status: u16, message: String },
    /// The answer could not be read; the text says why.
    InvalidResponse(String),
    /// The answer holds no text.
    EmptyResponse,
}

/// An error as plain values.
pub enum AIErrorView {
    MissingApiKey,
    RateLimited,
    Network(Seq<char>),
    ApiError { status: u16, message: Seq<char> },
    InvalidResponse(Seq<char>),
    EmptyResponse,
}

impl View for AIError {
    type V = AIErrorView;

    open spec fn view(&self) -> AIErrorView {
        match self {
            AIError::MissingApiKey => AIErrorView::MissingApiKey,
            AIError::RateLimited => AIErrorView::RateLimited,
            AIError::Network(text) => AIErrorView::Network(text@),
            AIError::ApiError { status, message } => AIErrorView::ApiError {
                status: *status,
                message: message@,
            },
            AIError::InvalidResponse(text) => AIErrorView::InvalidResponse(text@),
            AIError::EmptyResponse => AIErrorView::EmptyResponse,
        }
    }
}

impl Clone for AIError {
    fn clone(&self) -> (copy: Self)
        ensures
            copy == *self,
    {
        match self {
            AIError::MissingApiKey => AIError::MissingApiKey,
            AIError::RateLimited => AIError::RateLimited,
            AIError::Network(text) => AIError::Network(text.clone()),
            AIError::ApiError { status, message } => AIError::ApiError {
                status: *status,
                message: message.clone(),
            },
            AIError::InvalidResponse(text) => AIError::InvalidResponse(text.clone()),
            AIError::EmptyResponse => AIError::EmptyResponse,
        }
    }
}

/// The sentence that describes an error. Only an API error carries
/// details of the transport: the status and the message of the server.
pub open spec fn error_text(error: AIErrorView) -> Seq<char> {
    match error {
        AIErrorView::MissingApiKey => "Missing API key. Set AGENT_RS_API_KEY or configure in config.toml"@,
        AIErrorView::RateLimited => "Rate limit exceeded. Please wait and try again."@,
        AIErrorView::Network(text) => "Network error: "@ + text,
        AIErrorView::ApiError { status, message } => "API error: "@ + decimal_text(status as int)
            + " - "@ + message,
        AIErrorView::InvalidResponse(text) => "Invalid response format: "@ + text,
        AIErrorView::EmptyResponse => "Empty response from API"@,
    }
}

/// The error kind for an error of the Gemini-style transport.
pub open spec fn of_gemini(error: GeminiErrorView) -> AIErrorView {
    match error {
        GeminiErrorView::Network(text) => AIErrorView::Network(text),
        GeminiErrorView::ApiError { status, message } => AIErrorView::ApiError { status, message },
        GeminiErrorView::RateLimited => AIErrorView::RateLimited,
        GeminiErrorView::InvalidResponse(text) => AIErrorView::InvalidResponse(text),
        GeminiErrorView::MissingApiKey => AIErrorView::MissingApiKey,
        GeminiErrorView::EmptyResponse => AIErrorView::EmptyResponse,
    }
}

/// The error kind for an error of the OpenAI-style transport.
pub open spec fn of_openai(error: OpenAIErrorView) -> AIErrorView {
    match error {
        OpenAIErrorView::Network(text) => AIErrorView::Network(text),
        OpenAIErrorView::ApiError { status, message } => AIErrorView::ApiError { status, message },
        OpenAIErrorView::RateLimited => AIErrorView::RateLimited,
        OpenAIErrorView::MissingApiKey => AIErrorView::MissingApiKey,
        OpenAIErrorView::EmptyResponse => AIErrorView::EmptyResponse,
    }
}

impl AIError {
    /// The sentence that describes the error.
    pub fn to_string(&self) -> (text: String)
        ensures
            text@ == error_text(self@),
    {
        match self {
            AIError::MissingApiKey => String::from_str(
                "Missing API key. Set AGENT_RS_API_KEY or configure in config.toml",
            ),
            AIError::RateLimited => String::from_str(
                "Rate limit exceeded. Please wait and try again.",
            ),
            AIError::Network(detail) => {
                let mut text = String::from_str("Network error: ");
                text.append(detail.as_str());
                text
            },
            AIError::ApiError { status, message } => {
                let mut text = String::from_str("API error: ");
                let number = decimal_of(*status as u128);
                text.append(number.as_str());
                text.append(" - ");
                text.append(message.as_str());
                text
            },
            AIError::InvalidResponse(detail) => {
                let mut text = String::from_str("Invalid response format: ");
                text.append(detail.as_str());
                text
            },
            AIError::EmptyResponse => String::from_str("Empty response from API"),
        }
    }

    /// The error kind for an error of the Gemini-style transport.
    pub fn from_gemini(error: GeminiError) -> (kind: Self)
        ensures
            kind@ == of_gemini(error@),
    {
        match error {
            GeminiError::Network(text) => AIError::Network(text),
            GeminiError::ApiError { status, message } => AIError::ApiError { status, message },
            GeminiError::RateLimited => AIError::RateLimited,
            GeminiError::InvalidResponse(text) => AIError::InvalidResponse(text),
            GeminiError::MissingApiKey => AIError::MissingApiKey,
            GeminiError::EmptyResponse => AIError::EmptyResponse,
        }
    }

    /// The error kind for an error of the OpenAI-style transport.
    pub fn from_openai(error: OpenAIError) -> (kind: Self)
        ensures
            kind@ == of_openai(error@),
    {
        match error {
            OpenAIError::Network(text) => AIError::Network(text),
            OpenAIError::ApiError { status, message } => AIError::ApiError { status, message },
            OpenAIError::RateLimited => AIError::RateLimited,
            OpenAIError::MissingApiKey => AIError::MissingApiKey,
            OpenAIError::EmptyResponse => AIError::EmptyResponse,
        }
    }
}

/// What a client talks with apart from its model: which transport it is,
/// its key, its endpoint where the transport has one of its own, and the
/// size of its window.
pub struct TransportView {
    pub gemini: bool,
    pub key: Seq<char>,
    pub endpoint: Option<Seq<char>>,
    pub window: nat,
}

/// The model client: one of the two transports.
#[derive(Debug, PartialEq, Eq)]
pub enum AIClient {
    Gemini(GeminiClient),
    OpenAI(OpenAIClient),
}

impl Clone for AIClient {
    fn clone(&self) -> (copy: Self)
        ensures
            copy == *self,
    {
        match self {
            AIClient::Gemini(client) => AIClient::Gemini(client.clone()),
            AIClient::OpenAI(client) => AIClient::OpenAI(client.clone()),
        }
    }
}

impl AIClient {
    /// The model identifier.
    pub open spec fn model_name(&self) -> Seq<char> {
        match self {
            AIClient::Gemini(client) => client.model_name(),
            AIClient::OpenAI(client) => client.model_name(),
        }
    }

    /// The transport, key, endpoint and window of the client.
    pub open spec fn transport(&self) -> TransportView {
        match self {
            AIClient::Gemini(client) => TransportView {
                gemini: true,
                key: client.key(),
                endpoint: None,
                window: client.window(),
            },
            AIClient::OpenAI(client) => TransportView {
                gemini: false,
                key: client.key(),
                endpoint: Some(client.endpoint()),
                window: client.window(),
            },
        }
    }

    /// The client for the provider that `config` names; it takes a key
    /// that is not empty.
    pub fn new(config: &Config) -> (client: Result<Self, AIError>)
        ensures
            match client {
                Ok(c) => config@.api_key.len() > 0 && c.model_name() == config@.model && (
                config@.provider == Provider::Gemini <==> c is Gemini),
                Err(e) => config@.api_key.len() == 0 && e@ == AIErrorView::MissingApiKey,
            },
    {
        match config.provider {
            Provider::Gemini => match GeminiClient::new(config) {
                Ok(client) => Ok(AIClient::Gemini(client)),
                Err(error) => Err(AIError::from_gemini(error)),
            },
            Provider::OpenAI => match OpenAIClient::new(config) {
                Ok(client) => Ok(AIClient::OpenAI(client)),
                Err(error) => Err(AIError::from_openai(error)),
            },
        }
    }

    /// The model identifier.
    pub fn model(&self) -> (name: &str)
        ensures
            name@ == self.model_name(),
    {
        match self {
            AIClient::Gemini(client) => client.model(),
            AIClient::OpenAI(client) => client.model(),
        }
    }

    /// Replaces the model identifier and leaves the transport, the key,
    /// the endpoint and the window as they are.
    pub fn set_model(&mut self, model: String)
        ensures
            final(self).model_name() == model@,
            final(self).transport() == old(self).transport(),
    {
        match self {
            AIClient::Gemini(client) => client.set_model(model),
            AIClient::OpenAI(client) => client.set_model(model),
        }
    }
}

} // verus!
