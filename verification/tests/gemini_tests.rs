use sabi::ai_client::{AIClient, AIError};
use sabi::config::{Config, Provider};
use sabi::gemini::{listed_model_name, sliding_window, GeminiClient, GeminiError, SYSTEM_PROMPT};
use sabi::message::{
    GeminiCandidate, GeminiContent, GeminiPart, GeminiResponse, Message, MessageRole,
};
use sabi::openai::{ChatMessage, OpenAIClient, OpenAIError};

fn client(window: usize) -> GeminiClient {
    GeminiClient::with_params("test".to_string(), "test".to_string(), window).unwrap()
}

#[test]
fn test_sliding_window_basic() {
    let client = client(3);

    let messages = vec![
        Message::system("System prompt"),
        Message::user("First"),
        Message::model("Response 1"),
        Message::user("Second"),
        Message::model("Response 2"),
        Message::user("Third"),
    ];

    let windowed = client.apply_sliding_window(&messages);

    // Should have system + last 3 messages
    // Non-system messages in order: First, Response 1, Second, Response 2, Third
    // Last 3: Second, Response 2, Third
    assert_eq!(windowed.len(), 4);
    assert_eq!(windowed[0].role, MessageRole::System);
    assert_eq!(windowed[1].content, "Second");
    assert_eq!(windowed[2].content, "Response 2");
    assert_eq!(windowed[3].content, "Third");
}

#[test]
fn test_sliding_window_no_system() {
    let client = client(2);

    let messages = vec![
        Message::user("First"),
        Message::model("Response 1"),
        Message::user("Second"),
    ];

    let windowed = client.apply_sliding_window(&messages);

    // Should have last 2 messages only
    assert_eq!(windowed.len(), 2);
    assert_eq!(windowed[0].content, "Response 1");
    assert_eq!(windowed[1].content, "Second");
}

#[test]
fn test_missing_api_key_error() {
    let config = Config {
        api_key: String::new(),
        ..Config::default()
    };

    let result = GeminiClient::new(&config);
    assert!(matches!(result, Err(GeminiError::MissingApiKey)));
}

#[test]
fn test_build_request_with_system() {
    let client = client(10);

    let messages = vec![
        Message::system("Be helpful"),
        Message::user("Hello"),
    ];

    let refs: Vec<&Message> = messages.iter().collect();
    let request = client.build_request(&refs);

    assert!(request.system_instruction.is_some());
    assert_eq!(request.contents.len(), 1);
    assert_eq!(request.contents[0].role, "user");
}

#[test]
fn test_gemini_error_display() {
    // Test error message formatting
    let network_err = GeminiError::MissingApiKey;
    assert!(network_err.to_string().contains("Missing API key"));

    let api_err = GeminiError::ApiError {
        status: 400,
        message: "Bad request".to_string(),
    };
    assert!(api_err.to_string().contains("400"));
    assert!(api_err.to_string().contains("Bad request"));

    let rate_err = GeminiError::RateLimited;
    assert!(rate_err.to_string().contains("Rate limit"));

    let invalid_err = GeminiError::InvalidResponse("parse error".to_string());
    assert!(invalid_err.to_string().contains("parse error"));

    let empty_err = GeminiError::EmptyResponse;
    assert!(empty_err.to_string().contains("Empty response"));
}

#[test]
fn test_extract_text_empty_candidates() {
    let client = client(10);

    let response = GeminiResponse {
        candidates: vec![],
    };

    let result = client.extract_text(&response);
    assert!(matches!(result, Err(GeminiError::EmptyResponse)));
}

#[test]
fn test_extract_text_empty_content() {
    let client = client(10);

    let response = GeminiResponse {
        candidates: vec![GeminiCandidate {
            content: GeminiContent {
                role: "model".to_string(),
                parts: vec![GeminiPart::text("")],
            },
        }],
    };

    let result = client.extract_text(&response);
    assert!(matches!(result, Err(GeminiError::EmptyResponse)));
}

#[test]
fn test_extract_text_success() {
    let client = client(10);

    let response = GeminiResponse {
        candidates: vec![GeminiCandidate {
            content: GeminiContent {
                role: "model".to_string(),
                parts: vec![GeminiPart::text("Hello, world!")],
            },
        }],
    };

    let result = client.extract_text(&response);
    assert!(result.is_ok());
    assert_eq!(result.unwrap(), "Hello, world!");
}

fn conversation(count: usize, with_system: bool) -> Vec<Message> {
    let mut messages = Vec::new();
    if with_system {
        messages.push(Message::system("rules"));
    }
    for i in 0..count {
        if i % 2 == 0 {
            messages.push(Message::user(&format!("u{}", i)));
        } else {
            messages.push(Message::model(&format!("m{}", i)));
        }
    }
    messages
}

#[test]
fn test_sliding_window_sizes() {
    for count in 0..8usize {
        for window in 0..10usize {
            for with_system in [false, true] {
                let messages = conversation(count, with_system);
                let kept = sliding_window(&messages, window);
                let expected = count.min(window);
                let offset = if with_system { 1 } else { 0 };
                assert_eq!(kept.len(), expected + offset);
                if with_system {
                    assert_eq!(kept[0], &messages[0]);
                }
                for k in 0..expected {
                    assert_eq!(kept[offset + k], &messages[offset + count - expected + k]);
                }
            }
        }
    }
}

#[test]
fn test_sliding_window_hoists_a_late_system_message() {
    let messages = vec![
        Message::user("a"),
        Message::system("old"),
        Message::model("b"),
        Message::system("new"),
        Message::user("c"),
    ];
    let kept = sliding_window(&messages, 2);
    assert_eq!(kept, vec![&Message::system("new"), &Message::model("b"), &Message::user("c")]);
    let none = sliding_window(&messages, 0);
    assert_eq!(none, vec![&Message::system("new")]);
}

#[test]
fn test_gemini_client_accessors() {
    let mut client = GeminiClient::with_params("key".to_string(), "m1".to_string(), 7).unwrap();
    assert_eq!(client.max_history_messages(), 7);
    assert_eq!(client.model(), "m1");
    assert_eq!(
        client.request_url(),
        "https://generativelanguage.googleapis.com/v1beta/models/m1:generateContent?key=key"
    );
    client.set_model("m2".to_string());
    assert_eq!(client.model(), "m2");
    assert!(matches!(
        GeminiClient::with_params(String::new(), "m".to_string(), 1),
        Err(GeminiError::MissingApiKey)
    ));
    let config = Config { api_key: "k".to_string(), ..Config::default() };
    let from_config = GeminiClient::new(&config).unwrap();
    assert_eq!(from_config.model(), "gemini-2.5-flash");
    assert_eq!(from_config.max_history_messages(), 20);
}

#[test]
fn test_gemini_error_texts_exact() {
    assert_eq!(GeminiError::Network("timed out".to_string()).to_string(), "Network error: timed out");
    assert_eq!(
        GeminiError::ApiError { status: 503, message: "down".to_string() }.to_string(),
        "API error: 503 - down"
    );
    assert_eq!(
        GeminiError::RateLimited.to_string(),
        "Rate limit exceeded. Please wait and try again."
    );
    assert_eq!(
        GeminiError::InvalidResponse("bad".to_string()).to_string(),
        "Invalid response format: bad"
    );
    assert_eq!(
        GeminiError::MissingApiKey.to_string(),
        "Missing API key. Set AGENT_RS_API_KEY or configure in config.toml"
    );
    assert_eq!(GeminiError::EmptyResponse.to_string(), "Empty response from API");
}

#[test]
fn test_status_classification() {
    assert_eq!(GeminiClient::check_status(200, "ok"), Ok(()));
    assert_eq!(GeminiClient::check_status(299, ""), Ok(()));
    assert_eq!(GeminiClient::check_status(429, "slow"), Err(GeminiError::RateLimited));
    assert_eq!(
        GeminiClient::check_status(404, "nope"),
        Err(GeminiError::ApiError { status: 404, message: "nope".to_string() })
    );
    assert_eq!(
        GeminiClient::check_status(199, ""),
        Err(GeminiError::ApiError { status: 199, message: String::new() })
    );
    assert_eq!(
        GeminiClient::check_status(300, "moved"),
        Err(GeminiError::ApiError { status: 300, message: "moved".to_string() })
    );
    assert_eq!(OpenAIClient::check_status(201, ""), Ok(()));
    assert_eq!(OpenAIClient::check_status(429, ""), Err(OpenAIError::RateLimited));
    assert_eq!(
        OpenAIClient::check_status(500, "boom"),
        Err(OpenAIError::ApiError { status: 500, message: "boom".to_string() })
    );
}

#[test]
fn test_extract_text_uses_first_candidate_and_joins_parts() {
    let client = client(10);
    let response = GeminiResponse {
        candidates: vec![
            GeminiCandidate {
                content: GeminiContent {
                    role: "model".to_string(),
                    parts: vec![GeminiPart::text("Hel"), GeminiPart::text("lo")],
                },
            },
            GeminiCandidate {
                content: GeminiContent {
                    role: "model".to_string(),
                    parts: vec![GeminiPart::text("other")],
                },
            },
        ],
    };
    assert_eq!(client.extract_text(&response), Ok("Hello".to_string()));
    let no_parts = GeminiResponse {
        candidates: vec![GeminiCandidate {
            content: GeminiContent { role: "model".to_string(), parts: vec![] },
        }],
    };
    assert_eq!(client.extract_text(&no_parts), Err(GeminiError::EmptyResponse));
}

#[test]
fn test_system_prompt_names_the_tools() {
    assert!(SYSTEM_PROMPT.starts_with("\nYou are a macOS/Linux system expert assistant."));
    assert!(SYSTEM_PROMPT.contains(r#"{"tool": "run_cmd", "command": "<shell command>"}"#));
    assert!(SYSTEM_PROMPT.contains(r#"{"tool": "read_file", "path": "<file path>"}"#));
    assert!(SYSTEM_PROMPT.ends_with("- \"What is 2+2?\": 4\n"));
}

#[test]
fn test_openai_client() {
    let missing = OpenAIClient::new(&Config::default());
    assert_eq!(missing, Err(OpenAIError::MissingApiKey));
    let config = Config {
        provider: Provider::OpenAI,
        api_key: "sk".to_string(),
        model: "gpt".to_string(),
        max_history_messages: 2,
        ..Config::default()
    };
    let mut client = OpenAIClient::new(&config).unwrap();
    assert_eq!(client.model(), "gpt");
    assert_eq!(client.chat_url(), "https://api.openai.com/v1/chat/completions");
    assert_eq!(client.models_url(), "https://api.openai.com/v1/models");
    assert_eq!(client.authorization(), "Bearer sk");
    client.set_model("other".to_string());
    assert_eq!(client.model(), "other");
    let custom = Config { base_url: Some("http://localhost:11434/v1".to_string()), ..config };
    assert_eq!(
        OpenAIClient::new(&custom).unwrap().chat_url(),
        "http://localhost:11434/v1/chat/completions"
    );
    let messages = vec![
        Message::system("rules"),
        Message::user("one"),
        Message::model("two"),
        Message::user("three"),
    ];
    let chat = client.build_messages(&messages);
    assert_eq!(
        chat,
        vec![
            ChatMessage { role: "system".to_string(), content: "rules".to_string() },
            ChatMessage { role: "assistant".to_string(), content: "two".to_string() },
            ChatMessage { role: "user".to_string(), content: "three".to_string() },
        ]
    );
}

#[test]
fn test_openai_extract_text_and_errors() {
    let choices = vec![
        ChatMessage { role: "assistant".to_string(), content: "hi".to_string() },
        ChatMessage { role: "assistant".to_string(), content: "second".to_string() },
    ];
    assert_eq!(OpenAIClient::extract_text(&choices), Ok("hi".to_string()));
    assert_eq!(OpenAIClient::extract_text(&[]), Err(OpenAIError::EmptyResponse));
    let empty = vec![ChatMessage { role: "assistant".to_string(), content: String::new() }];
    assert_eq!(OpenAIClient::extract_text(&empty), Err(OpenAIError::EmptyResponse));
    assert_eq!(OpenAIError::Network("x".to_string()).to_string(), "Network error: x");
    assert_eq!(
        OpenAIError::ApiError { status: 401, message: "no".to_string() }.to_string(),
        "API error: 401 - no"
    );
    assert_eq!(
        OpenAIError::RateLimited.to_string(),
        "Rate limit exceeded. Please wait and try again."
    );
    assert_eq!(OpenAIError::MissingApiKey.to_string(), "Missing API key");
    assert_eq!(OpenAIError::EmptyResponse.to_string(), "Empty response");
}

#[test]
fn test_ai_client_and_error_kinds() {
    assert_eq!(AIClient::new(&Config::default()), Err(AIError::MissingApiKey));
    let gemini = Config { api_key: "k".to_string(), ..Config::default() };
    let mut client = AIClient::new(&gemini).unwrap();
    assert!(matches!(client, AIClient::Gemini(_)));
    assert_eq!(client.model(), "gemini-2.5-flash");
    client.set_model("gemini-pro".to_string());
    assert_eq!(client.model(), "gemini-pro");
    assert!(matches!(client, AIClient::Gemini(_)));
    let openai = Config { provider: Provider::OpenAI, api_key: "k".to_string(), ..Config::default() };
    assert!(matches!(AIClient::new(&openai), Ok(AIClient::OpenAI(_))));
    assert_eq!(
        AIError::from_gemini(GeminiError::InvalidResponse("x".to_string())),
        AIError::InvalidResponse("x".to_string())
    );
    assert_eq!(AIError::from_gemini(GeminiError::RateLimited), AIError::RateLimited);
    assert_eq!(
        AIError::from_openai(OpenAIError::ApiError { status: 500, message: "m".to_string() }),
        AIError::ApiError { status: 500, message: "m".to_string() }
    );
    assert_eq!(
        AIError::from_openai(OpenAIError::Network("n".to_string())),
        AIError::Network("n".to_string())
    );
    assert_eq!(AIError::Network("down".to_string()).to_string(), "Network error: down");
    assert_eq!(
        AIError::ApiError { status: 65535, message: "m".to_string() }.to_string(),
        "API error: 65535 - m"
    );
    assert_eq!(AIError::ApiError { status: 0, message: String::new() }.to_string(), "API error: 0 - ");
    assert_eq!(AIError::EmptyResponse.to_string(), "Empty response from API");
    assert_eq!(AIError::InvalidResponse("bad".to_string()).to_string(), "Invalid response format: bad");
    assert_eq!(
        AIError::MissingApiKey.to_string(),
        "Missing API key. Set AGENT_RS_API_KEY or configure in config.toml"
    );
    assert_eq!(AIError::RateLimited.to_string(), "Rate limit exceeded. Please wait and try again.");
}

#[test]
fn test_models_url_and_names() {
    let client = GeminiClient::with_params("key".to_string(), "m".to_string(), 1).unwrap();
    assert_eq!(
        client.models_url(),
        "https://generativelanguage.googleapis.com/v1beta/models?key=key"
    );
    assert_eq!(listed_model_name("models/gemini-2.5-flash"), "gemini-2.5-flash");
    assert_eq!(listed_model_name("gemini-2.5-flash"), "gemini-2.5-flash");
    assert_eq!(listed_model_name("models/models/x"), "models/x");
    assert_eq!(listed_model_name("models/"), "");
    assert_eq!(listed_model_name("model"), "model");
    assert_eq!(listed_model_name(""), "");
    for status in [0u16, 199, 200, 250, 299, 300, 429, 500, u16::MAX] {
        let ok = (200..=299).contains(&status);
        assert_eq!(GeminiClient::is_success(status), ok);
        assert_eq!(OpenAIClient::is_success(status), ok);
        assert_eq!(GeminiClient::check_status(status, "").is_ok(), ok);
        assert_eq!(OpenAIClient::check_status(status, "").is_ok(), ok);
    }
}

#[test]
fn test_switching_the_model_keeps_the_rest_of_the_client() {
    let gemini = Config { api_key: "k".to_string(), max_history_messages: 7, ..Config::default() };
    let openai = Config {
        provider: Provider::OpenAI,
        base_url: Some("https://example.test/v1".to_string()),
        ..gemini.clone()
    };
    for config in [gemini, openai] {
        let original = AIClient::new(&config).unwrap();
        let mut client = original.clone();
        client.set_model("other".to_string());
        assert_ne!(client, original);
        assert_eq!(client.model(), "other");
        // Only the model differs: with the model put back the clients are equal
        client.set_model(original.model().to_string());
        assert_eq!(client, original);
    }
}
