use sabi::ai_client::{AIClient, AIError};
use sabi::app::{App, Request, TaskKind};
use sabi::config::Config;
use sabi::event::{Action, Event};
use sabi::executor::{
    CommandExecutor, CommandResult, DangerousCommandDetector, InteractiveCommandDetector,
};
use sabi::key::{KeyCode, KeyEvent, KeyModifiers};
use sabi::message::Message;
use sabi::run_loop::{
    on_api_response, on_command_complete, on_key, on_models_response, on_tool_call, step,
};
use sabi::state::AppState;
use sabi::tool_call::ToolCall;

struct Agent {
    app: App,
    client: Option<AIClient>,
    detector: DangerousCommandDetector,
    interactive: InteractiveCommandDetector,
}

impl Agent {
    fn new(config: Config, python_available: bool) -> Agent {
        let with_key = Config { api_key: "key".to_string(), ..config };
        Agent {
            client: AIClient::new(&with_key).ok(),
            detector: DangerousCommandDetector::new(&with_key.dangerous_patterns),
            interactive: InteractiveCommandDetector::new(),
            app: App::new(with_key, python_available),
        }
    }

    fn plain() -> Agent {
        Agent::new(Config::default(), true)
    }

    fn handle(&mut self, event: Event) -> Action {
        step(&mut self.app, event, &mut self.client, &self.detector, &self.interactive)
    }

    fn press(&mut self, code: KeyCode) -> Action {
        self.handle(Event::Key(KeyEvent::new(code, KeyModifiers::none())))
    }

    fn submit(&mut self, text: &str) -> Action {
        self.app.set_input_text(text);
        self.press(KeyCode::Enter)
    }

    fn answer(&mut self, text: &str) -> Action {
        self.handle(Event::ApiResponse(Ok(text.to_string())))
    }
}

fn ok_result(stdout: &str) -> CommandResult {
    CommandResult {
        stdout: stdout.to_string(),
        stderr: String::new(),
        exit_code: 0,
        success: true,
        truncated: false,
    }
}

#[test]
fn test_scenario_simple_query() {
    let mut agent = Agent::plain();
    agent.app.add_message(Message::system("rules"));
    let action = agent.submit("what is two plus two");
    assert_eq!(
        action,
        Action::CallModel {
            messages: vec![Message::system("rules"), Message::user("what is two plus two")]
        }
    );
    assert_eq!(agent.app.state, AppState::Thinking);
    assert_eq!(agent.app.running_task, Some(TaskKind::ModelCall));
    assert_eq!(agent.answer("4"), Action::Wait);
    assert_eq!(agent.app.state, AppState::Input);
    assert_eq!(agent.app.running_task, None);
    assert_eq!(
        agent.app.messages,
        vec![
            Message::system("rules"),
            Message::user("what is two plus two"),
            Message::model("4"),
        ]
    );
}

#[test]
fn test_scenario_one_shot_command() {
    let mut agent = Agent::plain();
    assert!(matches!(agent.submit("list files"), Action::CallModel { .. }));
    assert_eq!(agent.app.state, AppState::Thinking);
    assert_eq!(agent.answer(r#"{"tool":"run_cmd","command":"ls"}"#), Action::Wait);
    assert_eq!(agent.app.state, AppState::ReviewAction);
    assert_eq!(agent.app.get_action_text(), "ls");
    assert_eq!(agent.app.current_tool, Some(ToolCall::run_cmd("ls")));
    assert!(!agent.app.dangerous_command_detected);
    assert_eq!(agent.press(KeyCode::Enter), Action::RunTool { tool: ToolCall::run_cmd("ls") });
    assert_eq!(agent.app.state, AppState::Executing);
    assert_eq!(agent.app.running_task, Some(TaskKind::Execution));
    let action = agent.handle(Event::CommandComplete(ok_result("a\nb\n")));
    let observation = Message::user("Tool: run_cmd: ls\nExit code: 0\nOutput:\na\nb\n");
    assert_eq!(agent.app.messages.last().unwrap(), &observation);
    assert_eq!(agent.app.execution_output, "a\nb\n");
    assert_eq!(agent.app.state, AppState::Finalizing);
    assert_eq!(agent.app.running_task, Some(TaskKind::ModelCall));
    assert_eq!(
        action,
        Action::CallModel {
            messages: vec![
                Message::user("list files"),
                Message::model(r#"{"tool":"run_cmd","command":"ls"}"#),
                observation,
            ]
        }
    );
    assert_eq!(agent.answer("Found 2 files."), Action::Wait);
    assert_eq!(agent.app.state, AppState::Input);
    assert_eq!(agent.app.messages.last().unwrap(), &Message::model("Found 2 files."));
    assert_eq!(agent.app.messages.len(), 4);
}

#[test]
fn test_scenario_cancel_during_review() {
    let mut agent = Agent::plain();
    agent.submit("delete everything");
    agent.answer(r#"{"tool":"run_cmd","command":"rm -rf /"}"#);
    assert_eq!(agent.app.state, AppState::ReviewAction);
    assert!(agent.app.dangerous_command_detected);
    assert_eq!(agent.press(KeyCode::Esc), Action::Wait);
    assert_eq!(agent.app.state, AppState::Input);
    assert_eq!(agent.app.get_action_text(), "");
    assert_eq!(agent.app.action_textarea.lines(), vec![String::new()]);
    assert!(!agent.app.dangerous_command_detected);
    assert_eq!(
        agent.app.messages.last().unwrap(),
        &Message::system("\u{26a0}\u{fe0f} Command cancelled")
    );
    assert_eq!(agent.app.error_message, None);
}

#[test]
fn test_scenario_interactive_command_refused() {
    let mut agent = Agent::plain();
    agent.submit("edit the config");
    let answer = r#"{"tool":"run_cmd","command":"nano config.toml"}"#;
    assert_eq!(agent.answer(answer), Action::Wait);
    assert_eq!(agent.app.state, AppState::Input);
    assert_eq!(agent.app.current_tool, None);
    assert_eq!(agent.app.get_action_text(), "");
    let refusal = agent.app.messages.last().unwrap();
    assert!(refusal.content.contains("Use /save or write_file tool instead"));
    assert_eq!(
        refusal,
        &Message::model(
            "\u{26a0}\u{fe0f} Cannot run interactive command: `nano config.toml`\nUse /save or write_file tool instead"
        )
    );
    assert_eq!(agent.app.messages[agent.app.messages.len() - 2], Message::model(answer));

    agent.submit("open a database shell");
    agent.answer(r#"{"tool":"run_cmd","command":"psql"}"#);
    assert_eq!(
        agent.app.messages.last().unwrap(),
        &Message::model(
            "\u{26a0}\u{fe0f} Cannot run interactive command: `psql`\nThis command requires an interactive terminal"
        )
    );
    assert_eq!(agent.app.state, AppState::Input);
}

#[test]
fn test_scenario_truncated_output() {
    let config = Config { max_output_bytes: 100, max_output_lines: 10, ..Config::default() };
    let mut agent = Agent::new(config, true);
    agent.submit("count");
    agent.answer(r#"{"tool":"run_cmd","command":"seq 1 100000"}"#);
    let action = agent.press(KeyCode::Enter);
    assert_eq!(action, Action::RunTool { tool: ToolCall::run_cmd("seq 1 100000") });
    let executor = CommandExecutor::new(&agent.app.config);
    let mut output = String::new();
    for i in 1..=100000 {
        output.push_str(&format!("{}\n", i));
    }
    let result = executor.capture(output, String::new(), Some(0));
    assert!(result.truncated);
    assert!(result.stdout.ends_with("[Output truncated due to size limits]"));
    assert_eq!(
        result.stdout,
        "1\n2\n3\n4\n5\n6\n7\n8\n9\n10\n\n[Output truncated due to size limits]"
    );
    agent.handle(Event::CommandComplete(result));
    assert_eq!(agent.app.state, AppState::Finalizing);
    assert!(agent.app.messages.last().unwrap().content.ends_with(
        "Output:\n1\n2\n3\n4\n5\n6\n7\n8\n9\n10\n\n[Output truncated due to size limits]"
    ));
}

#[test]
fn test_scenario_model_error_recovery() {
    let mut agent = Agent::plain();
    agent.submit("hello");
    let before = agent.app.messages.clone();
    let failure = Event::ApiResponse(Err(AIError::Network("connection reset".to_string())));
    assert_eq!(agent.handle(failure), Action::Wait);
    assert_eq!(agent.app.state, AppState::Input);
    assert_eq!(agent.app.error_message, Some("Network error: connection reset".to_string()));
    assert_eq!(agent.app.messages, before);
    assert_eq!(agent.app.running_task, None);
    // The error stays while the user types and submits again
    agent.press(KeyCode::Char('x'));
    agent.handle(Event::Tick);
    assert_eq!(agent.app.error_message, Some("Network error: connection reset".to_string()));
    agent.press(KeyCode::Enter);
    assert_eq!(agent.app.state, AppState::Thinking);
    assert_eq!(agent.app.error_message, Some("Network error: connection reset".to_string()));
    // ... and goes with the next answer
    agent.answer("fine");
    assert_eq!(agent.app.error_message, None);
    assert_eq!(agent.app.state, AppState::Input);
}

#[test]
fn test_each_error_kind_is_surfaced_the_same_way() {
    let errors = vec![
        (AIError::RateLimited, "Rate limit exceeded. Please wait and try again."),
        (AIError::Network("n".to_string()), "Network error: n"),
        (AIError::ApiError { status: 500, message: "oops".to_string() }, "API error: 500 - oops"),
        (AIError::InvalidResponse("bad".to_string()), "Invalid response format: bad"),
        (AIError::EmptyResponse, "Empty response from API"),
        (
            AIError::MissingApiKey,
            "Missing API key. Set AGENT_RS_API_KEY or configure in config.toml",
        ),
    ];
    for (error, text) in errors {
        for from_finalizing in [false, true] {
            let mut agent = Agent::plain();
            agent.submit("q");
            if from_finalizing {
                agent.answer(r#"{"tool":"run_cmd","command":"ls"}"#);
                agent.press(KeyCode::Enter);
                agent.handle(Event::CommandComplete(ok_result("x")));
                assert_eq!(agent.app.state, AppState::Finalizing);
            }
            let before = agent.app.messages.clone();
            agent.handle(Event::ApiResponse(Err(error.clone())));
            assert_eq!(agent.app.state, AppState::Input);
            assert_eq!(agent.app.error_message, Some(text.to_string()));
            assert_eq!(agent.app.messages, before);
        }
    }
}

#[test]
fn test_late_events_are_dropped() {
    let mut agent = Agent::plain();
    agent.app.add_message(Message::user("kept"));
    assert_eq!(agent.answer("stray answer"), Action::Wait);
    assert_eq!(agent.handle(Event::CommandComplete(ok_result("stray"))), Action::Wait);
    assert_eq!(agent.app.messages, vec![Message::user("kept")]);
    assert_eq!(agent.app.state, AppState::Input);
    assert_eq!(agent.app.error_message, None);

    // A result that arrives after the execution was cancelled
    agent.submit("go");
    agent.answer(r#"{"tool":"run_cmd","command":"sleep 100"}"#);
    agent.press(KeyCode::Enter);
    assert_eq!(agent.app.state, AppState::Executing);
    assert_eq!(agent.press(KeyCode::Esc), Action::AbortTask);
    assert_eq!(agent.app.state, AppState::Input);
    assert_eq!(agent.app.running_task, None);
    let count = agent.app.messages.len();
    assert_eq!(agent.handle(Event::CommandComplete(ok_result("late"))), Action::Wait);
    assert_eq!(agent.app.messages.len(), count);
    assert_eq!(agent.app.state, AppState::Input);

    // A result that arrives while a model call owns the turn
    agent.submit("again");
    assert_eq!(agent.app.running_task, Some(TaskKind::ModelCall));
    assert_eq!(agent.handle(Event::CommandComplete(ok_result("late"))), Action::Wait);
    assert_eq!(agent.app.state, AppState::Thinking);
    assert_eq!(agent.app.running_task, Some(TaskKind::ModelCall));
    assert_eq!(agent.handle(Event::CommandCancelled), Action::Wait);
    assert_eq!(agent.handle(Event::Resize(80, 24)), Action::Wait);
    assert_eq!(agent.app.state, AppState::Thinking);
}

#[test]
fn test_escape_cancels_a_model_call_while_finalizing() {
    let mut agent = Agent::plain();
    agent.submit("q");
    agent.answer(r#"{"tool":"run_cmd","command":"ls"}"#);
    agent.press(KeyCode::Enter);
    agent.handle(Event::CommandComplete(ok_result("x")));
    assert_eq!(agent.app.state, AppState::Finalizing);
    let count = agent.app.messages.len();
    assert_eq!(agent.press(KeyCode::Esc), Action::AbortTask);
    assert_eq!(agent.app.state, AppState::Input);
    assert_eq!(agent.app.running_task, None);
    assert_eq!(agent.app.messages.len(), count + 1);
    assert_eq!(
        agent.app.messages.last().unwrap(),
        &Message::system("\u{26a0}\u{fe0f} Command cancelled")
    );
    assert_eq!(agent.answer("late"), Action::Wait);
    assert_eq!(agent.app.messages.len(), count + 1);
}

#[test]
fn test_escape_while_thinking_quits_and_aborts() {
    let mut agent = Agent::plain();
    agent.submit("q");
    assert_eq!(agent.press(KeyCode::Esc), Action::AbortTask);
    assert!(agent.app.should_quit);
    assert_eq!(agent.app.running_task, None);
}

#[test]
fn test_blocked_keys_in_the_loop() {
    let mut agent = Agent::plain();
    agent.submit("q");
    agent.app.set_input_text("draft");
    let before = agent.app.messages.clone();
    for code in [KeyCode::Char('a'), KeyCode::Enter, KeyCode::Backspace, KeyCode::Up] {
        assert_eq!(agent.press(code), Action::Wait);
        assert_eq!(agent.app.state, AppState::Thinking);
        assert_eq!(agent.app.input_textarea.lines(), vec!["draft"]);
        assert_eq!(agent.app.messages, before);
        assert_eq!(agent.app.running_task, Some(TaskKind::ModelCall));
    }
}

#[test]
fn test_submit_without_client() {
    let mut agent = Agent::plain();
    agent.client = None;
    assert_eq!(agent.submit("hello"), Action::Wait);
    assert_eq!(agent.app.state, AppState::Input);
    assert_eq!(agent.app.error_message, Some("API key not configured".to_string()));
    assert_eq!(agent.app.messages, vec![Message::user("hello")]);
    assert_eq!(agent.app.running_task, None);
    assert_eq!(agent.submit("/model"), Action::Wait);
    assert_eq!(agent.app.messages.last().unwrap(), &Message::system("API key not configured"));

    // Without a client the analysis of a result is complete at once
    agent.app.state = AppState::Executing;
    agent.app.running_task = Some(TaskKind::Execution);
    agent.app.current_tool = Some(ToolCall::run_cmd("ls"));
    assert_eq!(agent.handle(Event::CommandComplete(ok_result("x"))), Action::Wait);
    assert_eq!(agent.app.state, AppState::Input);
    assert_eq!(agent.app.running_task, None);
}

#[test]
fn test_safe_mode_describes_instead_of_running() {
    let config = Config { safe_mode: true, ..Config::default() };
    let cases: Vec<(&str, &str)> = vec![
        (r#"{"tool":"run_cmd","command":"ls -la"}"#, "Would run: ls -la"),
        (r#"{"tool":"run_python","code":"print(1)"}"#, "Would run Python:\nprint(1)"),
        (r#"{"tool":"read_file","path":"a.txt"}"#, "Would read: a.txt"),
        (
            r#"{"tool":"write_file","path":"b.txt","content":"héllo"}"#,
            "Would write 6 bytes to: b.txt",
        ),
        (
            r#"{"tool":"search","pattern":"*.rs","directory":"src"}"#,
            "Would search '*.rs' in src",
        ),
    ];
    for (answer, described) in cases {
        let mut agent = Agent::new(config.clone(), true);
        agent.submit("do it");
        agent.answer(answer);
        assert_eq!(agent.app.state, AppState::ReviewAction);
        assert_eq!(agent.press(KeyCode::Enter), Action::Wait);
        assert_eq!(agent.app.state, AppState::Input);
        assert_eq!(agent.app.running_task, None);
        assert_eq!(
            agent.app.messages.last().unwrap(),
            &Message::system(&format!("\u{1f512} [SAFE MODE] {}", described))
        );
    }
}

#[test]
fn test_staging_shows_each_tool() {
    let cases: Vec<(&str, &str, bool)> = vec![
        (r#"{"tool":"run_cmd","command":"echo hi"}"#, "echo hi", false),
        (r#"{"tool":"run_cmd","command":"dd if=/dev/zero of=x"}"#, "dd if=/dev/zero of=x", true),
        (r#"{"tool":"run_python","code":"print(1)\nprint(2)"}"#, "python:\nprint(1)\nprint(2)", false),
        (r#"{"tool":"read_file","path":"a.txt"}"#, "read_file: a.txt", false),
        (
            r#"{"tool":"write_file","path":"b.txt","content":"12345"}"#,
            "write_file: b.txt (5 bytes)",
            true,
        ),
        (r#"{"tool":"search","pattern":"*.rs"}"#, "search: *.rs in .", false),
        (r#"{"tool":"search","pattern":"mkfs","directory":"/etc"}"#, "search: mkfs in /etc", false),
        (r#"{"tool":"read_file","path":"rm -rf /"}"#, "read_file: rm -rf /", false),
    ];
    for (answer, shown, dangerous) in cases {
        let mut agent = Agent::plain();
        agent.submit("do it");
        assert_eq!(agent.answer(answer), Action::Wait);
        assert_eq!(agent.app.state, AppState::ReviewAction, "{}", answer);
        assert_eq!(agent.app.get_action_text(), shown);
        assert_eq!(agent.app.dangerous_command_detected, dangerous, "{}", answer);
        assert_eq!(agent.app.current_tool, ToolCall::parse(answer));
        assert_eq!(agent.app.messages.last().unwrap(), &Message::model(answer));
    }
}

#[test]
fn test_python_and_unknown_tools_are_refused() {
    let mut agent = Agent::new(Config::default(), false);
    agent.submit("compute");
    agent.answer(r#"{"tool":"run_python","code":"print(2**100)"}"#);
    assert_eq!(agent.app.state, AppState::Input);
    assert_eq!(agent.app.current_tool, None);
    assert_eq!(
        agent.app.messages.last().unwrap(),
        &Message::model(
            "\u{26a0}\u{fe0f} Python is not available on this system.\nPlease install Python 3 to use this feature."
        )
    );
    agent.submit("launch");
    agent.answer(r#"{"tool":"launch_rocket","command":"now"}"#);
    assert_eq!(agent.app.state, AppState::Input);
    assert_eq!(agent.app.current_tool, None);
    assert_eq!(agent.app.get_action_text(), "");
    assert_eq!(
        agent.app.messages.last().unwrap(),
        &Message::system(
            "\u{26d4} Blocked unknown tool: 'launch_rocket'\nAllowed: run_cmd, read_file, write_file, search, run_python"
        )
    );
}

#[test]
fn test_observation_formats() {
    let failed = CommandResult {
        stdout: "partial".to_string(),
        stderr: "boom".to_string(),
        exit_code: -1,
        success: false,
        truncated: false,
    };
    let mut python = ToolCall::new("run_python", "");
    python.code = "print(1)".to_string();
    let mut read = ToolCall::new("read_file", "");
    read.path = "a.txt".to_string();
    let mut search = ToolCall::new("search", "");
    search.pattern = "*.rs".to_string();
    let cases = vec![
        (Some(ToolCall::run_cmd("false")), "Tool: run_cmd: false\nExit code: -1\nOutput:\npartial\nboom"),
        (Some(python), "Tool: run_python: print(1)\nExit code: -1\nOutput:\npartial\nboom"),
        (Some(read), "Tool: read_file: a.txt\nExit code: -1\nOutput:\npartial\nboom"),
        (Some(search), "Tool: search: \nExit code: -1\nOutput:\npartial\nboom"),
        (None, "Tool: \nExit code: -1\nOutput:\npartial\nboom"),
    ];
    for (tool, text) in cases {
        let mut app = App::new(Config::default(), true);
        app.state = AppState::Executing;
        app.running_task = Some(TaskKind::Execution);
        app.current_tool = tool;
        let action = on_command_complete(&mut app, failed.clone(), true);
        assert_eq!(app.messages, vec![Message::user(text)]);
        assert_eq!(app.execution_output, "partial\nboom");
        assert_eq!(action, Action::CallModel { messages: vec![Message::user(text)] });
        assert_eq!(app.state, AppState::Finalizing);
    }
    let mut app = App::new(Config::default(), true);
    app.state = AppState::Executing;
    app.running_task = Some(TaskKind::Execution);
    app.current_tool = Some(ToolCall::run_cmd("exit 130"));
    let result = CommandResult { exit_code: 130, success: false, ..ok_result("") };
    on_command_complete(&mut app, result, true);
    assert_eq!(
        app.messages,
        vec![Message::user("Tool: run_cmd: exit 130\nExit code: 130\nOutput:\n\n")]
    );
}

#[test]
fn test_tool_chain_goes_back_to_review() {
    let mut agent = Agent::plain();
    agent.submit("two steps");
    agent.answer(r#"{"tool":"run_cmd","command":"ls"}"#);
    agent.press(KeyCode::Enter);
    agent.handle(Event::CommandComplete(ok_result("a.txt\n")));
    assert_eq!(agent.app.state, AppState::Finalizing);
    agent.answer("```json\n{\"tool\": \"read_file\", \"path\": \"a.txt\"}\n```");
    assert_eq!(agent.app.state, AppState::ReviewAction);
    assert_eq!(agent.app.get_action_text(), "read_file: a.txt");
    let mut read = ToolCall::new("read_file", "");
    read.path = "a.txt".to_string();
    assert_eq!(agent.press(KeyCode::Enter), Action::RunTool { tool: read });
}

#[test]
fn test_edited_command_is_what_runs() {
    let mut agent = Agent::plain();
    agent.submit("list");
    agent.answer(r#"{"tool":"run_cmd","command":"ls"}"#);
    for c in " -la".chars() {
        assert_eq!(agent.press(KeyCode::Char(c)), Action::Wait);
    }
    assert_eq!(agent.press(KeyCode::Enter), Action::RunTool { tool: ToolCall::run_cmd("ls -la") });
    agent.handle(Event::CommandComplete(ok_result("")));
    assert_eq!(
        agent.app.messages.last().unwrap(),
        &Message::user("Tool: run_cmd: ls -la\nExit code: 0\nOutput:\n")
    );
}

#[test]
fn test_confirm_without_staged_tool_returns_to_input() {
    let mut agent = Agent::plain();
    agent.app.state = AppState::ReviewAction;
    agent.app.set_action_text("ls");
    assert_eq!(agent.press(KeyCode::Enter), Action::Wait);
    assert_eq!(agent.app.state, AppState::Input);
    assert_eq!(agent.app.running_task, None);
}

#[test]
fn test_tick_and_quit() {
    let mut agent = Agent::plain();
    for i in 1..=12usize {
        assert_eq!(agent.handle(Event::Tick), Action::Wait);
        assert_eq!(agent.app.spinner_frame, i % 10);
    }
    let interrupt = Event::Key(KeyEvent::new(KeyCode::Char('c'), KeyModifiers::control()));
    assert_eq!(agent.handle(interrupt), Action::Wait);
    assert!(agent.app.should_quit);
    let mut other = Agent::plain();
    assert_eq!(other.submit("/quit"), Action::Wait);
    assert!(other.app.should_quit);
}

#[test]
fn test_slash_requests_reach_the_driver() {
    let mut agent = Agent::plain();
    assert_eq!(agent.submit("/sessions"), Action::Perform(Request::ListSessions));
    assert_eq!(agent.app.pending_request, None);
    assert_eq!(
        agent.submit("/switch abc"),
        Action::Perform(Request::SwitchSession { id: "abc".to_string() })
    );
    assert_eq!(
        agent.submit("/delete abc"),
        Action::Perform(Request::DeleteSession { id: "abc".to_string() })
    );
    assert_eq!(
        agent.submit("/model pro"),
        Action::Perform(Request::FetchModels { model: Some("pro".to_string()) })
    );
    assert_eq!(agent.submit("/model"), Action::Perform(Request::FetchModels { model: None }));
    assert_eq!(agent.submit("/help"), Action::Wait);
    agent.app.messages.clear();
    agent.app.add_message(Message::user("q"));
    let id = agent.app.current_session_id.clone();
    assert_eq!(
        agent.submit("/new"),
        Action::Perform(Request::SaveSession { id, messages: vec![Message::user("q")] })
    );
    assert_eq!(agent.app.state, AppState::Input);
}

#[test]
fn test_models_response() {
    let mut agent = Agent::plain();
    let models =
        vec!["gemini-2.5-pro".to_string(), "gemini-2.5-flash".to_string(), "gemma".to_string()];
    agent.handle(Event::ModelsResponse(Ok(models.clone()), None));
    assert_eq!(
        agent.app.messages.last().unwrap(),
        &Message::system(
            "Available models:\n  gemini-2.5-pro\n→ gemini-2.5-flash\n  gemma\n\nUse /model <name> to switch"
        )
    );
    agent.handle(Event::ModelsResponse(Ok(models.clone()), Some("2.5".to_string())));
    assert_eq!(
        agent.app.messages.last().unwrap(),
        &Message::system("✓ Switched to: gemini-2.5-pro")
    );
    assert_eq!(agent.client.as_ref().unwrap().model(), "gemini-2.5-pro");
    // Of the client only the model has changed
    let mut expected = Agent::plain().client.unwrap();
    expected.set_model("gemini-2.5-pro".to_string());
    assert_eq!(agent.client.as_ref().unwrap(), &expected);
    agent.handle(Event::ModelsResponse(Ok(models.clone()), Some("gpt".to_string())));
    assert_eq!(agent.app.messages.last().unwrap(), &Message::system("✗ Model 'gpt' not found"));
    assert_eq!(agent.client.as_ref().unwrap().model(), "gemini-2.5-pro");
    agent.handle(Event::ModelsResponse(Err(AIError::RateLimited), Some("x".to_string())));
    assert_eq!(
        agent.app.messages.last().unwrap(),
        &Message::system(
            "✗ Failed to fetch models: Rate limit exceeded. Please wait and try again."
        )
    );
    agent.handle(Event::ModelsResponse(Ok(Vec::new()), None));
    assert_eq!(
        agent.app.messages.last().unwrap(),
        &Message::system("Available models:\n\n\nUse /model <name> to switch")
    );
    assert_eq!(agent.app.state, AppState::Input);

    let mut app = App::new(Config::default(), true);
    let mut none: Option<AIClient> = None;
    on_models_response(&mut app, Ok(models.clone()), Some("gemma".to_string()), &mut none);
    assert!(app.messages.is_empty());
    on_models_response(&mut app, Ok(models), None, &mut none);
    assert_eq!(
        app.messages,
        vec![Message::system(
            "Available models:\n  gemini-2.5-pro\n  gemini-2.5-flash\n  gemma\n\nUse /model <name> to switch"
        )]
    );
}

#[test]
fn test_handlers_can_be_called_directly() {
    let detector = DangerousCommandDetector::with_defaults();
    let interactive = InteractiveCommandDetector::new();
    let mut app = App::new(Config::default(), true);
    app.set_input_text("q");
    let action = on_key(&mut app, KeyEvent::new(KeyCode::Enter, KeyModifiers::none()), true);
    assert_eq!(action, Action::CallModel { messages: vec![Message::user("q")] });
    on_api_response(&mut app, Ok("plain".to_string()), &detector, &interactive);
    assert_eq!(app.state, AppState::Input);
    assert_eq!(app.messages, vec![Message::user("q"), Message::model("plain")]);
}

#[test]
fn test_same_events_give_the_same_run() {
    let run = || {
        let mut agent = Agent::plain();
        agent.app.current_session_id = "20240101_000000".to_string();
        let mut actions = Vec::new();
        for c in "show disk".chars() {
            actions.push(agent.press(KeyCode::Char(c)));
        }
        actions.push(agent.press(KeyCode::Enter));
        actions.push(agent.handle(Event::Tick));
        actions.push(agent.answer(r#"{"tool":"run_cmd","command":"df -h"}"#));
        actions.push(agent.press(KeyCode::Char('x')));
        actions.push(agent.press(KeyCode::Backspace));
        actions.push(agent.press(KeyCode::Enter));
        actions.push(agent.handle(Event::CommandComplete(ok_result("/dev/sda1 40G\n"))));
        actions.push(agent.answer("Your disk has 40G."));
        actions.push(agent.submit("/help"));
        let typed = agent.app.get_input_text();
        (actions, agent.app.state, agent.app.messages, typed)
    };
    let first = run();
    let second = run();
    assert_eq!(first, second);
    assert_eq!(first.1, AppState::Input);
    assert_eq!(first.2.len(), 5);
    assert_eq!(first.2[0], Message::user("show disk"));
}

#[test]
fn test_staged_action_is_discarded_when_the_turn_ends() {
    // After the model's last word
    let mut agent = Agent::plain();
    agent.submit("list");
    agent.answer(r#"{"tool":"run_cmd","command":"ls"}"#);
    agent.press(KeyCode::Enter);
    agent.handle(Event::CommandComplete(ok_result("a")));
    assert_eq!(agent.app.current_tool, Some(ToolCall::run_cmd("ls")));
    agent.answer("done");
    assert_eq!(agent.app.state, AppState::Input);
    assert_eq!(agent.app.current_tool, None);

    // After a cancelled review
    agent.submit("again");
    agent.answer(r#"{"tool":"run_cmd","command":"ls"}"#);
    assert!(agent.app.current_tool.is_some());
    agent.press(KeyCode::Esc);
    assert_eq!(agent.app.current_tool, None);

    // After a cancelled execution
    agent.submit("again");
    agent.answer(r#"{"tool":"run_cmd","command":"ls"}"#);
    agent.press(KeyCode::Enter);
    agent.press(KeyCode::Esc);
    assert_eq!(agent.app.state, AppState::Input);
    assert_eq!(agent.app.current_tool, None);

    // After an error while finalizing
    agent.submit("again");
    agent.answer(r#"{"tool":"run_cmd","command":"ls"}"#);
    agent.press(KeyCode::Enter);
    agent.handle(Event::CommandComplete(ok_result("a")));
    agent.handle(Event::ApiResponse(Err(AIError::EmptyResponse)));
    assert_eq!(agent.app.state, AppState::Input);
    assert_eq!(agent.app.current_tool, None);

    // In safe mode
    let mut safe = Agent::new(Config { safe_mode: true, ..Config::default() }, true);
    safe.submit("list");
    safe.answer(r#"{"tool":"run_cmd","command":"ls"}"#);
    safe.press(KeyCode::Enter);
    assert_eq!(safe.app.current_tool, None);
}

#[test]
fn test_tool_calls_can_be_handled_directly() {
    let detector = DangerousCommandDetector::with_defaults();
    let interactive = InteractiveCommandDetector::new();
    let mut app = App::new(Config::default(), true);
    app.state = AppState::Thinking;
    on_tool_call(&mut app, ToolCall::run_cmd("mkfs /dev/sda"), &detector, &interactive);
    assert_eq!(app.state, AppState::ReviewAction);
    assert!(app.dangerous_command_detected);
    assert_eq!(app.get_action_text(), "mkfs /dev/sda");
    let mut other = App::new(Config::default(), true);
    other.state = AppState::Thinking;
    on_tool_call(&mut other, ToolCall::run_cmd("  top "), &detector, &interactive);
    assert_eq!(other.state, AppState::Input);
    assert_eq!(
        other.messages,
        vec![Message::model(
            "\u{26a0}\u{fe0f} Cannot run interactive command: `  top `\nUse 'ps aux' or 'ps aux | head' instead"
        )]
    );
}
