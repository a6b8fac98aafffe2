use sabi::app::{parse_slash_command, slash_command_for, slash_commands, App, InputResult, Request, Session, SlashCommand, SubmitResult};
use sabi::config::Config;
use sabi::editor::EditBuffer;
use sabi::key::{KeyCode, KeyEvent, KeyModifiers};
use sabi::message::{Message, MessageRole};
use sabi::state::{AppState, StateEvent};
use sabi::tool_call::ToolCall;

/// Create a test App with default config
fn test_app() -> App {
    App::new(Config::default(), false)
}

fn press(app: &mut App, code: KeyCode) -> InputResult {
    app.handle_key_event(KeyEvent::new(code, KeyModifiers::none()))
}

#[test]
fn test_is_input_empty_with_whitespace() {
    let mut app = test_app();

    // Empty by default
    assert!(app.is_input_empty());

    // Add spaces
    app.set_input_text("   ");
    assert!(app.is_input_empty());

    // Add tabs
    app.clear_input();
    app.set_input_text("\t\t");
    assert!(app.is_input_empty());

    // Add newlines
    app.clear_input();
    app.set_input_text("\n\n");
    assert!(app.is_input_empty());

    // Add actual content
    app.clear_input();
    app.set_input_text("hello");
    assert!(!app.is_input_empty());
}

#[test]
fn test_valid_input_submission() {
    let mut app = test_app();

    // Set valid input
    app.set_input_text("list files");

    // Submit
    let submitted = app.submit_input();

    assert_eq!(submitted, SubmitResult::Query);
    assert_eq!(app.state, AppState::Thinking);
    assert_eq!(app.messages.len(), 1);
    assert_eq!(app.messages[0].content, "list files");
}

#[test]
fn test_api_error_recovery() {
    let mut app = test_app();

    // Get to Thinking state
    app.set_input_text("test");
    app.submit_input();
    assert_eq!(app.state, AppState::Thinking);

    // Simulate API error
    app.set_error("Network error");
    app.transition(StateEvent::ApiError);

    // Should be back in Input state with error
    assert_eq!(app.state, AppState::Input);
    assert!(app.error_message.is_some());
    assert_eq!(app.error_message.unwrap(), "Network error");
}

#[test]
fn test_review_action_enter_executes() {
    let mut app = test_app();

    // Set up in ReviewAction state
    app.state = AppState::ReviewAction;
    app.set_action_text("ls -la");

    // Press Enter
    let key = KeyEvent::new(KeyCode::Enter, KeyModifiers::none());
    let result = app.handle_key_event(key);

    assert_eq!(result, InputResult::ExecuteCommand);
    assert_eq!(app.state, AppState::Executing);
    assert_eq!(app.current_command, Some("ls -la".to_string()));
}

#[test]
fn test_review_action_escape_cancels() {
    let mut app = test_app();

    // Set up in ReviewAction state
    app.state = AppState::ReviewAction;
    app.set_action_text("rm -rf /");
    app.dangerous_command_detected = true;

    // Press Escape
    let key = KeyEvent::new(KeyCode::Esc, KeyModifiers::none());
    let result = app.handle_key_event(key);

    assert_eq!(result, InputResult::CancelCommand);
    assert_eq!(app.state, AppState::Input);
    assert!(app.get_action_text().is_empty());
    assert!(!app.dangerous_command_detected);
}

#[test]
fn test_thinking_blocks_character_input() {
    let mut app = test_app();

    // Get to Thinking state
    app.set_input_text("test");
    app.submit_input();
    assert_eq!(app.state, AppState::Thinking);

    // Try to type a character
    let key = KeyEvent::new(KeyCode::Char('x'), KeyModifiers::none());
    let result = app.handle_key_event(key);

    assert_eq!(result, InputResult::Blocked);
    assert!(app.get_input_text().is_empty()); // Was cleared on submit
}

#[test]
fn test_thinking_allows_escape() {
    let mut app = test_app();

    // Get to Thinking state
    app.set_input_text("test");
    app.submit_input();
    assert_eq!(app.state, AppState::Thinking);

    // Press Escape
    let key = KeyEvent::new(KeyCode::Esc, KeyModifiers::none());
    let result = app.handle_key_event(key);

    assert_eq!(result, InputResult::Quit);
    assert!(app.should_quit);
}

#[test]
fn test_executing_blocks_input() {
    let mut app = test_app();

    // Set to Executing state
    app.state = AppState::Executing;

    // Try to type
    let key = KeyEvent::new(KeyCode::Char('a'), KeyModifiers::none());
    let result = app.handle_key_event(key);

    assert_eq!(result, InputResult::Blocked);
}

#[test]
fn test_finalizing_blocks_input() {
    let mut app = test_app();

    // Set to Finalizing state
    app.state = AppState::Finalizing;

    // Try to press Enter
    let key = KeyEvent::new(KeyCode::Enter, KeyModifiers::none());
    let result = app.handle_key_event(key);

    assert_eq!(result, InputResult::Blocked);
}

#[test]
fn test_react_loop_tool_call_to_review() {
    let mut app = test_app();

    // Start in Thinking (after user submitted query)
    app.state = AppState::Thinking;

    // Receive tool call
    app.set_action_text("ls -la");
    app.transition(StateEvent::ToolCallReceived);

    assert_eq!(app.state, AppState::ReviewAction);
    assert_eq!(app.get_action_text(), "ls -la");
}

#[test]
fn test_react_loop_text_response_to_input() {
    let mut app = test_app();

    // Start in Thinking
    app.state = AppState::Thinking;

    // Receive text response (no tool call)
    app.add_message(Message::model("The answer is 42"));
    app.transition(StateEvent::TextResponseReceived);

    assert_eq!(app.state, AppState::Input);
    assert_eq!(app.messages.last().unwrap().content, "The answer is 42");
}

#[test]
fn test_react_loop_execute_to_finalizing() {
    let mut app = test_app();

    // Start in Executing
    app.state = AppState::Executing;
    app.current_command = Some("echo test".to_string());

    // Command completes
    app.execution_output = "test".to_string();
    app.transition(StateEvent::CommandComplete);

    assert_eq!(app.state, AppState::Finalizing);
}

#[test]
fn test_react_loop_finalizing_to_input() {
    let mut app = test_app();

    // Start in Finalizing
    app.state = AppState::Finalizing;

    // AI analysis completes with text response
    app.add_message(Message::model("Command executed successfully"));
    app.transition(StateEvent::TextResponseReceived);

    assert_eq!(app.state, AppState::Input);
}

#[test]
fn test_react_loop_finalizing_to_review_action() {
    let mut app = test_app();

    // Start in Finalizing
    app.state = AppState::Finalizing;

    // AI wants to run another command
    app.set_action_text("cat output.txt");
    app.transition(StateEvent::ToolCallReceived);

    assert_eq!(app.state, AppState::ReviewAction);
    assert_eq!(app.get_action_text(), "cat output.txt");
}

#[test]
fn test_session_new_has_unique_id() {
    let s1 = Session::new("/tmp");
    let s2 = Session::new("/tmp");

    assert!(!s1.id.is_empty(), "Session ID should not be empty");
    assert!(!s2.id.is_empty(), "Session ID should not be empty");
    assert!(s1.messages.is_empty(), "New session should have no messages");
}

#[test]
fn test_session_preview() {
    let mut session = Session::new("/tmp");
    assert_eq!(session.preview(), "(empty)");

    session.messages.push(Message::user("Hello world"));
    assert_eq!(session.preview(), "Hello world");

    session.messages.clear();
    session.messages.push(Message::user("A".repeat(50).as_str()));
    assert!(session.preview().ends_with("..."));
    assert!(session.preview().len() <= 43); // 40 + "..."
}

#[test]
fn test_executing_state_esc_cancels() {
    let mut app = test_app();
    app.state = AppState::Executing;

    let key = KeyEvent::new(KeyCode::Esc, KeyModifiers::none());
    let result = app.handle_key_event(key);

    assert_eq!(result, InputResult::CancelCommand);
}

#[test]
fn test_finalizing_state_esc_cancels() {
    let mut app = test_app();
    app.state = AppState::Finalizing;

    let key = KeyEvent::new(KeyCode::Esc, KeyModifiers::none());
    let result = app.handle_key_event(key);

    assert_eq!(result, InputResult::CancelCommand);
}

#[test]
fn test_new_session_clears_messages() {
    let mut app = test_app();
    app.add_message(Message::user("test"));
    app.add_message(Message::model("response"));

    let old_id = app.current_session_id.clone();

    // Wait to ensure different timestamp
    let start = std::time::Instant::now();
    while start.elapsed() < std::time::Duration::from_secs(1) {
        std::hint::spin_loop();
    }
    app.new_session();

    // Only system messages should remain
    assert!(app.messages.iter().all(|m| m.role == MessageRole::System));
    assert_ne!(app.current_session_id, old_id, "Session ID should change after new_session");
}

#[test]
fn test_slash_command_new() {
    let mut app = test_app();
    app.set_input_text("/new");

    let result = app.submit_input();

    assert_eq!(result, SubmitResult::Handled);
}

#[test]
fn test_slash_command_sessions() {
    let mut app = test_app();
    app.set_input_text("/sessions");

    let result = app.submit_input();

    assert_eq!(result, SubmitResult::Handled);
}

#[test]
fn test_slash_command_help() {
    let mut app = test_app();
    app.set_input_text("/help");

    let initial_count = app.messages.len();
    let result = app.submit_input();

    assert_eq!(result, SubmitResult::Handled);
    assert!(app.messages.len() > initial_count, "Help should add a message");
}

#[test]
fn test_slash_command_clear() {
    let mut app = test_app();
    app.add_message(Message::user("test"));
    app.add_message(Message::model("response"));

    app.set_input_text("/clear");
    let result = app.submit_input();

    assert_eq!(result, SubmitResult::Handled);
    // Should only have system messages + clear confirmation
    let non_system: Vec<_> = app.messages.iter()
        .filter(|m| m.role != MessageRole::System)
        .collect();
    assert!(non_system.is_empty() || non_system.len() == 1); // clear message might be system
}

#[test]
fn test_safe_mode_config() {
    let mut config = Config::default();
    assert!(!config.safe_mode, "Safe mode should be off by default");

    config.safe_mode = true;
    let app = App::new(config, false);
    assert!(app.config.safe_mode, "App should inherit safe_mode from config");
}

#[test]
fn test_python_availability_check() {
    let app = App::new(Config::default(), true);
    // Just verify the field exists and is set
    assert!(app.python_available);
    assert!(!test_app().python_available);
}

#[test]
fn test_new_app_is_at_rest() {
    let app = test_app();
    assert_eq!(app.state, AppState::Input);
    assert!(app.messages.is_empty());
    assert_eq!(app.input_textarea.lines(), vec![String::new()]);
    assert_eq!(app.action_textarea.lines(), vec![String::new()]);
    assert_eq!(app.current_command, None);
    assert_eq!(app.current_tool, None);
    assert_eq!(app.execution_output, "");
    assert_eq!(app.error_message, None);
    assert_eq!(app.spinner_frame, 0);
    assert!(!app.should_quit);
    assert_eq!(app.scroll_offset, 0);
    assert!(!app.dangerous_command_detected);
    assert_eq!(app.config, Config::default());
    assert_eq!(app.running_task, None);
    assert_eq!(app.pending_request, None);
    assert_eq!(app.current_session_id.len(), 15);
    assert_eq!(app.current_session_id.as_bytes()[8], b'_');
}

#[test]
fn test_blank_submit_changes_nothing() {
    for blank in ["", " ", "\t \n", "\r\n\r\n", "\u{a0}\u{2003}", " \u{3000} "] {
        let mut app = test_app();
        app.add_message(Message::system("rules"));
        app.set_input_text(blank);
        let lines = app.input_textarea.lines();
        assert_eq!(app.submit_input(), SubmitResult::Empty);
        assert_eq!(app.state, AppState::Input);
        assert_eq!(app.messages, vec![Message::system("rules")]);
        assert_eq!(app.input_textarea.lines(), lines);
        assert_eq!(press(&mut app, KeyCode::Enter), InputResult::Handled);
        assert_eq!(app.state, AppState::Input);
        assert_eq!(app.messages.len(), 1);
    }
}

#[test]
fn test_query_submit_appends_trimmed_text_and_clears() {
    for (typed, trimmed) in [
        ("hello", "hello"),
        ("  padded\t", "padded"),
        ("two\nlines\n", "two\nlines"),
        ("\n\n x / y \n", "x / y"),
        ("ünï cödé", "ünï cödé"),
    ] {
        let mut app = test_app();
        app.add_message(Message::model("before"));
        app.scroll_offset = 4;
        app.set_input_text(typed);
        assert_eq!(app.submit_input(), SubmitResult::Query);
        assert_eq!(app.state, AppState::Thinking);
        assert_eq!(app.messages, vec![Message::model("before"), Message::user(trimmed)]);
        assert_eq!(app.messages[1].content.trim(), typed.trim());
        assert_eq!(app.input_textarea.lines(), vec![String::new()]);
        assert_eq!(app.scroll_offset, 0);
        assert_eq!(app.error_message, None);
    }
}

#[test]
fn test_submit_outside_input_records_the_refusal() {
    let mut app = test_app();
    app.state = AppState::Done;
    app.set_input_text("late");
    assert_eq!(app.submit_input(), SubmitResult::Query);
    assert_eq!(app.state, AppState::Done);
    assert_eq!(app.messages, vec![Message::user("late")]);
    assert_eq!(
        app.error_message,
        Some("Invalid transition: Done with event SubmitInput { is_empty: false }".to_string())
    );
}

#[test]
fn test_buffers_hold_what_was_loaded() {
    let mut app = test_app();
    app.set_action_text("first\r\nsecond\n\nfourth\n");
    assert_eq!(app.action_textarea.lines(), vec!["first", "second", "", "fourth"]);
    assert_eq!(app.get_action_text(), "first\nsecond\n\nfourth");
    app.set_action_text("");
    assert_eq!(app.action_textarea.lines(), vec![String::new()]);
    app.set_input_text("  keep inner  spaces ");
    assert_eq!(app.input_textarea.lines(), vec!["  keep inner  spaces "]);
    assert_eq!(app.get_input_text(), "keep inner  spaces");
    app.clear_input();
    assert_eq!(app.get_input_text(), "");
    app.dangerous_command_detected = true;
    app.set_action_text("x");
    app.clear_action();
    assert_eq!(app.get_action_text(), "");
    assert!(!app.dangerous_command_detected);
    assert_eq!(EditBuffer::with_text("a\nb").text(), "a\nb");
    assert_eq!(EditBuffer::new().text(), "");
}

#[test]
fn test_typing_goes_to_the_input_buffer() {
    let mut app = test_app();
    for c in "hi there".chars() {
        assert_eq!(press(&mut app, KeyCode::Char(c)), InputResult::Handled);
    }
    assert_eq!(app.get_input_text(), "hi there");
    assert_eq!(press(&mut app, KeyCode::Backspace), InputResult::Handled);
    assert_eq!(app.get_input_text(), "hi ther");
    assert_eq!(press(&mut app, KeyCode::Home), InputResult::Handled);
    assert_eq!(press(&mut app, KeyCode::Delete), InputResult::Handled);
    assert_eq!(app.get_input_text(), "i ther");
    assert_eq!(press(&mut app, KeyCode::End), InputResult::Handled);
    assert_eq!(press(&mut app, KeyCode::Left), InputResult::Handled);
    assert_eq!(press(&mut app, KeyCode::Char('X')), InputResult::Handled);
    assert_eq!(app.get_input_text(), "i theXr");
    assert_eq!(press(&mut app, KeyCode::Null), InputResult::Handled);
    assert_eq!(app.get_input_text(), "i theXr");
    assert_eq!(app.get_action_text(), "");
    assert_eq!(app.state, AppState::Input);
    assert!(app.messages.is_empty());
}

#[test]
fn test_typing_in_review_edits_the_action_buffer() {
    let mut app = test_app();
    app.state = AppState::ReviewAction;
    app.set_action_text("ls");
    for c in " -la".chars() {
        assert_eq!(press(&mut app, KeyCode::Char(c)), InputResult::Handled);
    }
    assert_eq!(app.get_action_text(), "ls -la");
    assert_eq!(press(&mut app, KeyCode::Up), InputResult::Handled);
    assert_eq!(app.scroll_offset, 0);
    assert_eq!(app.get_input_text(), "");
}

#[test]
fn test_arrows_scroll_while_typing() {
    let mut app = test_app();
    assert_eq!(press(&mut app, KeyCode::Down), InputResult::Handled);
    assert_eq!(app.scroll_offset, 0);
    assert_eq!(press(&mut app, KeyCode::Up), InputResult::Handled);
    assert_eq!(press(&mut app, KeyCode::Up), InputResult::Handled);
    assert_eq!(app.scroll_offset, 2);
    assert_eq!(press(&mut app, KeyCode::Down), InputResult::Handled);
    assert_eq!(app.scroll_offset, 1);
    app.scroll_offset = u16::MAX;
    app.scroll_up();
    assert_eq!(app.scroll_offset, u16::MAX);
    app.scroll_down();
    assert_eq!(app.scroll_offset, u16::MAX - 1);
}

#[test]
fn test_control_c_quits_from_every_state() {
    for state in AppState::all_states() {
        let mut app = test_app();
        app.state = state;
        app.set_input_text("typed");
        let key = KeyEvent::new(KeyCode::Char('c'), KeyModifiers::control());
        assert_eq!(app.handle_key_event(key), InputResult::Quit);
        assert!(app.should_quit);
        assert_eq!(app.state, state);
        assert_eq!(app.get_input_text(), "typed");
    }
}

#[test]
fn test_blocked_states_leave_buffers_alone() {
    let keys = [
        KeyCode::Char('a'), KeyCode::Char('q'), KeyCode::Enter, KeyCode::Backspace, KeyCode::Up,
        KeyCode::Down, KeyCode::Left, KeyCode::Tab, KeyCode::Delete, KeyCode::F(5), KeyCode::Null,
    ];
    for state in [AppState::Thinking, AppState::Executing, AppState::Finalizing] {
        for code in keys {
            for modifiers in [KeyModifiers::none(), KeyModifiers::control()] {
                let mut app = test_app();
                app.state = state;
                app.set_input_text("input text");
                app.set_action_text("action text");
                app.scroll_offset = 3;
                let result = app.handle_key_event(KeyEvent::new(code, modifiers));
                assert_eq!(result, InputResult::Blocked);
                assert_eq!(app.input_textarea.lines(), vec!["input text"]);
                assert_eq!(app.action_textarea.lines(), vec!["action text"]);
                assert_eq!(app.state, state);
                assert_eq!(app.scroll_offset, 3);
                assert!(!app.should_quit);
                assert!(app.messages.is_empty());
            }
        }
    }
}

#[test]
fn test_escape_while_typing_goes_to_done() {
    let mut app = test_app();
    assert_eq!(press(&mut app, KeyCode::Esc), InputResult::Quit);
    assert!(app.should_quit);
    assert_eq!(app.state, AppState::Done);
}

#[test]
fn test_done_state_keys() {
    let mut app = test_app();
    app.state = AppState::Done;
    assert_eq!(press(&mut app, KeyCode::Char('x')), InputResult::Ignored);
    assert_eq!(app.state, AppState::Done);
    assert_eq!(press(&mut app, KeyCode::Enter), InputResult::Continue);
    assert_eq!(app.state, AppState::Input);
    app.state = AppState::Done;
    assert_eq!(press(&mut app, KeyCode::Char('q')), InputResult::Quit);
    assert!(app.should_quit);
    let mut other = test_app();
    other.state = AppState::Done;
    assert_eq!(press(&mut other, KeyCode::Esc), InputResult::Quit);
    assert!(other.should_quit);
}

#[test]
fn test_review_enter_on_blank_buffer_is_ignored() {
    let mut app = test_app();
    app.state = AppState::ReviewAction;
    app.set_action_text("  \n ");
    app.current_tool = Some(ToolCall::run_cmd("ls"));
    assert_eq!(press(&mut app, KeyCode::Enter), InputResult::Ignored);
    assert_eq!(app.state, AppState::ReviewAction);
    assert_eq!(app.current_command, None);
    assert_eq!(app.current_tool, Some(ToolCall::run_cmd("ls")));
}

#[test]
fn test_review_enter_commits_the_edited_text() {
    let mut app = test_app();
    app.state = AppState::ReviewAction;
    app.current_tool = Some(ToolCall::run_cmd("ls"));
    app.set_action_text("  ls -la /tmp \n");
    assert_eq!(press(&mut app, KeyCode::Enter), InputResult::ExecuteCommand);
    assert_eq!(app.current_command, Some("ls -la /tmp".to_string()));
    assert_eq!(app.current_tool, Some(ToolCall::run_cmd("ls -la /tmp")));

    let mut python = ToolCall::new("run_python", "");
    python.code = "print(1)".to_string();
    let mut app = test_app();
    app.state = AppState::ReviewAction;
    app.current_tool = Some(python.clone());
    app.set_action_text("python:\nprint(2)\nprint(3)");
    assert_eq!(press(&mut app, KeyCode::Enter), InputResult::ExecuteCommand);
    python.code = "print(2)\nprint(3)".to_string();
    assert_eq!(app.current_tool, Some(python.clone()));
    app.state = AppState::ReviewAction;
    app.set_action_text("print(4)");
    assert_eq!(press(&mut app, KeyCode::Enter), InputResult::ExecuteCommand);
    python.code = "print(4)".to_string();
    assert_eq!(app.current_tool, Some(python));

    let mut read = ToolCall::new("read_file", "");
    read.path = "a.txt".to_string();
    let mut app = test_app();
    app.state = AppState::ReviewAction;
    app.current_tool = Some(read.clone());
    app.set_action_text("read_file: b.txt");
    assert_eq!(press(&mut app, KeyCode::Enter), InputResult::ExecuteCommand);
    assert_eq!(app.current_tool, Some(read));
    assert_eq!(app.current_command, Some("read_file: b.txt".to_string()));
}

#[test]
fn test_transition_reports_and_records() {
    let mut app = test_app();
    assert!(!app.transition(StateEvent::SubmitInput { is_empty: true }));
    assert_eq!(app.state, AppState::Input);
    assert_eq!(app.error_message, None);
    assert!(!app.transition(StateEvent::CommandComplete));
    assert_eq!(app.state, AppState::Input);
    assert_eq!(
        app.error_message,
        Some("Invalid transition: Input with event CommandComplete".to_string())
    );
    app.clear_error();
    assert_eq!(app.error_message, None);
    assert!(app.transition(StateEvent::SubmitInput { is_empty: false }));
    assert_eq!(app.state, AppState::Thinking);
}

#[test]
fn test_spinner() {
    let mut app = test_app();
    let glyphs = ['⠋', '⠙', '⠹', '⠸', '⠼', '⠴', '⠦', '⠧', '⠇', '⠏'];
    for round in 0..25 {
        assert_eq!(app.spinner_frame, round % 10);
        assert_eq!(app.spinner_char(), glyphs[round % 10]);
        app.tick_spinner();
    }
    app.spinner_frame = usize::MAX;
    let shown = app.spinner_char();
    assert_eq!(shown, glyphs[usize::MAX % 10]);
    app.tick_spinner();
    assert_eq!(app.spinner_frame, (usize::MAX % 10 + 1) % 10);
}

#[test]
fn test_cancel_task_and_add_message() {
    let mut app = test_app();
    app.running_task = Some(sabi::app::TaskKind::Execution);
    app.cancel_task();
    assert_eq!(app.running_task, None);
    app.scroll_offset = 9;
    app.add_message(Message::user("x"));
    assert_eq!(app.scroll_offset, 0);
    assert_eq!(app.messages, vec![Message::user("x")]);
}

#[test]
fn test_parse_slash_command() {
    assert_eq!(parse_slash_command("/clear"), SlashCommand::Clear);
    assert_eq!(parse_slash_command("  /HELP  "), SlashCommand::Help);
    assert_eq!(parse_slash_command("/New"), SlashCommand::New);
    assert_eq!(parse_slash_command("/sessions"), SlashCommand::Sessions);
    assert_eq!(parse_slash_command("/switch"), SlashCommand::Switch(None));
    assert_eq!(
        parse_slash_command("/switch   20240101_120000 "),
        SlashCommand::Switch(Some("20240101_120000".to_string()))
    );
    assert_eq!(parse_slash_command("/delete a b"), SlashCommand::Delete(Some("a b".to_string())));
    assert_eq!(parse_slash_command("/delete"), SlashCommand::Delete(None));
    assert_eq!(parse_slash_command("/model"), SlashCommand::Model(None));
    assert_eq!(
        parse_slash_command("/MODEL Gemini-Pro"),
        SlashCommand::Model(Some("Gemini-Pro".to_string()))
    );
    for quit in ["/quit", "/exit", "/q", "/QUIT now"] {
        assert_eq!(parse_slash_command(quit), SlashCommand::Quit);
    }
    assert_eq!(parse_slash_command("/Frobnicate x"), SlashCommand::Unknown("/frobnicate".to_string()));
    assert_eq!(parse_slash_command("/switch\tid"), SlashCommand::Unknown("/switch\tid".to_string()));
    assert_eq!(parse_slash_command("/"), SlashCommand::Unknown("/".to_string()));
    assert_eq!(parse_slash_command(""), SlashCommand::Unknown(String::new()));
}

#[test]
fn test_slash_commands_change_the_conversation() {
    let mut app = test_app();
    app.add_message(Message::system("rules"));
    app.add_message(Message::user("q"));
    app.add_message(Message::model("a"));
    app.set_input_text("/clear");
    assert_eq!(app.submit_input(), SubmitResult::Handled);
    assert_eq!(app.messages, vec![Message::system("rules"), Message::system("Chat cleared.")]);
    assert_eq!(app.state, AppState::Input);
    assert_eq!(app.get_input_text(), "");

    app.set_input_text("/help");
    assert_eq!(app.submit_input(), SubmitResult::Handled);
    assert_eq!(
        app.messages.last().unwrap(),
        &Message::system(
            "Available commands:\n/new - Start new session\n/sessions - List all sessions\n/switch <id> - Switch to session\n/delete <id> - Delete session\n/clear - Clear chat history\n/help - Show this help\n/quit - Exit application"
        )
    );

    app.set_input_text("/bogus arg");
    assert_eq!(app.submit_input(), SubmitResult::Handled);
    assert_eq!(
        app.messages.last().unwrap(),
        &Message::system("Unknown command: /bogus. Type /help for available commands.")
    );
    app.set_input_text("/switch");
    assert_eq!(app.submit_input(), SubmitResult::Handled);
    assert_eq!(app.messages.last().unwrap(), &Message::system("Usage: /switch <session_id>"));
    app.set_input_text("/delete");
    assert_eq!(app.submit_input(), SubmitResult::Handled);
    assert_eq!(app.messages.last().unwrap(), &Message::system("Usage: /delete <session_id>"));
    let current = app.current_session_id.clone();
    app.set_input_text(&format!("/delete {}", current));
    assert_eq!(app.submit_input(), SubmitResult::Handled);
    assert_eq!(
        app.messages.last().unwrap(),
        &Message::system("Cannot delete current session. Switch first.")
    );
    assert_eq!(app.pending_request, None);
    assert_eq!(app.state, AppState::Input);
    assert!(!app.should_quit);
    app.set_input_text("/q");
    assert_eq!(app.submit_input(), SubmitResult::Quit);
    assert!(app.should_quit);
}

#[test]
fn test_slash_commands_leave_requests() {
    let mut app = test_app();
    app.set_input_text("/sessions");
    assert_eq!(app.submit_input(), SubmitResult::Handled);
    assert_eq!(app.take_request(), Some(Request::ListSessions));
    assert_eq!(app.take_request(), None);
    app.set_input_text("/switch 20240101_000000");
    app.submit_input();
    assert_eq!(
        app.take_request(),
        Some(Request::SwitchSession { id: "20240101_000000".to_string() })
    );
    app.set_input_text("/delete other");
    app.submit_input();
    assert_eq!(app.take_request(), Some(Request::DeleteSession { id: "other".to_string() }));
    app.set_input_text("/model");
    assert_eq!(press(&mut app, KeyCode::Enter), InputResult::FetchModels(None));
    assert_eq!(app.pending_request, None);
    app.set_input_text("/model flash");
    assert_eq!(press(&mut app, KeyCode::Enter), InputResult::FetchModels(Some("flash".to_string())));
    assert!(app.messages.is_empty());

    app.add_message(Message::system("rules"));
    app.add_message(Message::user("q"));
    let old_id = app.current_session_id.clone();
    app.set_input_text("/new");
    assert_eq!(app.submit_input(), SubmitResult::Handled);
    assert_eq!(
        app.take_request(),
        Some(Request::SaveSession {
            id: old_id,
            messages: vec![Message::system("rules"), Message::user("q")],
        })
    );
    assert_eq!(
        app.messages,
        vec![
            Message::system("rules"),
            Message::system(&format!("New session started: {}", app.current_session_id)),
        ]
    );
}

#[test]
fn test_slash_suggestions() {
    let mut app = test_app();
    assert!(app.get_suggestions().is_empty());
    app.set_input_text("hello");
    assert!(app.get_suggestions().is_empty());
    app.set_input_text("/");
    assert_eq!(app.get_suggestions(), slash_commands());
    assert_eq!(slash_commands().len(), 7);
    assert_eq!(slash_commands()[0], ("/clear", "Clear chat history"));
    app.set_input_text("/s");
    assert_eq!(
        app.get_suggestions(),
        vec![
            ("/sessions", "List all sessions"),
            ("/switch", "Switch to session: /switch <id>"),
        ]
    );
    app.set_input_text("/quit");
    assert_eq!(app.get_suggestions(), vec![("/quit", "Exit application")]);
    app.set_input_text("/quit ");
    assert!(app.get_suggestions().is_empty());
    app.set_input_text(" /q");
    assert!(app.get_suggestions().is_empty());
    app.set_input_text("/S");
    assert!(app.get_suggestions().is_empty());
}

#[test]
fn test_session_fields_and_previews() {
    let session = Session::new("/home/user");
    assert_eq!(session.cwd, "/home/user");
    assert_eq!(session.name, format!("Session {}", &session.id[9..]));
    assert!(session.timestamp.contains('T'));
    let messages = vec![
        Message::system("rules"),
        Message::model("m"),
        Message::user("first question"),
        Message::user("second"),
    ];
    let stored = Session::from_messages(&messages, "/w");
    assert_eq!(
        stored.messages,
        vec![Message::model("m"), Message::user("first question"), Message::user("second")]
    );
    assert_eq!(stored.preview(), "first question");
    let mut long = Session::new("/");
    long.messages.push(Message::user(&"A".repeat(41)));
    assert_eq!(long.preview(), format!("{}...", "A".repeat(40)));
    long.messages[0] = Message::user(&"B".repeat(40));
    assert_eq!(long.preview(), "B".repeat(40));
    // Thirty characters of two bytes each: more than 40 bytes, no more than 40 characters
    long.messages[0] = Message::user(&"é".repeat(30));
    assert_eq!(long.preview(), format!("{}...", "é".repeat(30)));
    long.messages[0] = Message::model("only the model spoke");
    assert_eq!(long.preview(), "(empty)");
}

#[test]
fn test_session_snapshot_and_load() {
    let mut app = test_app();
    app.add_message(Message::system("rules"));
    app.add_message(Message::user("q"));
    let snapshot = app.session_snapshot("/cwd");
    assert_eq!(snapshot.id, app.current_session_id);
    assert_eq!(snapshot.cwd, "/cwd");
    assert_eq!(snapshot.messages, vec![Message::user("q")]);

    let mut stored = Session::new("/old");
    stored.id = "20200101_000000".to_string();
    stored.messages = vec![Message::user("old q"), Message::model("old a")];
    app.load_session(stored);
    assert_eq!(app.current_session_id, "20200101_000000");
    assert_eq!(
        app.messages,
        vec![Message::system("rules"), Message::user("old q"), Message::model("old a")]
    );
}

#[test]
fn test_session_outcomes_are_reported() {
    let mut app = test_app();
    app.add_message(Message::system("rules"));
    app.add_message(Message::user("q"));
    app.sessions_listed(&Vec::new());
    assert_eq!(app.messages.last().unwrap(), &Message::system("No saved sessions."));

    let mut current = Session::new("/");
    current.id = app.current_session_id.clone();
    current.timestamp = "2024-05-06T07:08:09+00:00".to_string();
    current.messages = vec![Message::user("hello there")];
    let mut other = Session::new("/");
    other.id = "20200101_000000".to_string();
    other.timestamp = "no date".to_string();
    app.sessions_listed(&vec![current, other]);
    assert_eq!(
        app.messages.last().unwrap(),
        &Message::system(&format!(
            "Sessions:\n→ {} | 2024-05-06 | hello there\n  20200101_000000 | no date | (empty)",
            app.current_session_id
        ))
    );

    app.session_deleted("x1", Ok(()));
    assert_eq!(app.messages.last().unwrap(), &Message::system("Deleted session: x1"));
    app.session_deleted("x2", Err("gone".to_string()));
    assert_eq!(app.messages.last().unwrap(), &Message::system("Failed to delete: gone"));
    let count = app.messages.len();
    app.session_switched("x3", Err("unreadable".to_string()));
    assert_eq!(app.messages.last().unwrap(), &Message::system("Failed to switch: unreadable"));
    assert_eq!(app.messages.len(), count + 1);

    let mut stored = Session::new("/");
    stored.id = "x4".to_string();
    stored.messages = vec![Message::user("stored")];
    app.session_switched("x4", Ok(stored));
    assert_eq!(app.current_session_id, "x4");
    assert!(app.messages.iter().take(app.messages.len() - 2).all(|m| m.role == MessageRole::System));
    assert_eq!(app.messages[app.messages.len() - 2], Message::user("stored"));
    assert_eq!(app.messages.last().unwrap(), &Message::system("Switched to session: x4"));
}

fn two_digits(text: &[u8], at: usize) -> u32 {
    assert!(text[at].is_ascii_digit() && text[at + 1].is_ascii_digit());
    ((text[at] - b'0') as u32) * 10 + (text[at + 1] - b'0') as u32
}

fn assert_session_stamp(id: &str) {
    let text = id.as_bytes();
    assert!(text.len() >= 15, "{}", id);
    let year = text.len() - 11;
    let digits = if text[0] == b'+' || text[0] == b'-' { &text[1..year] } else { &text[..year] };
    assert!(digits.len() >= 4 && digits.iter().all(|c| c.is_ascii_digit()), "{}", id);
    assert!(year == 4 || text[0] == b'+' || text[0] == b'-', "{}", id);
    assert!((1..=12).contains(&two_digits(text, year)), "{}", id);
    assert!((1..=31).contains(&two_digits(text, year + 2)), "{}", id);
    assert_eq!(text[year + 4], b'_');
    assert!(two_digits(text, year + 5) <= 23, "{}", id);
    assert!(two_digits(text, year + 7) <= 59, "{}", id);
    assert!(two_digits(text, year + 9) <= 60, "{}", id);
}

#[test]
fn test_session_ids_have_the_form_of_a_stamp() {
    let mut app = test_app();
    assert_session_stamp(&app.current_session_id);
    app.new_session();
    assert_session_stamp(&app.current_session_id);
    let session = Session::new("/");
    assert_session_stamp(&session.id);
    assert_eq!(session.name, format!("Session {}", &session.id[9..]));
    assert_session_stamp(&Session::from_messages(&[], "/").id);
    app.set_input_text("/new");
    app.submit_input();
    assert_session_stamp(&app.current_session_id);
}

fn key(code: KeyCode) -> KeyEvent {
    KeyEvent::new(code, KeyModifiers::none())
}

#[test]
fn test_keys_that_do_not_change_text_leave_the_lines() {
    let others = [
        KeyCode::Left, KeyCode::Right, KeyCode::Up, KeyCode::Down, KeyCode::Home, KeyCode::End,
        KeyCode::PageUp, KeyCode::PageDown, KeyCode::Esc, KeyCode::F(1), KeyCode::F(12),
        KeyCode::Null,
    ];
    for code in others {
        for ctrl in [false, true] {
            for alt in [false, true] {
                for shift in [false, true] {
                    let mut buffer = EditBuffer::with_text("first line\nsecond\n\nfourth");
                    let before = buffer.lines();
                    let pressed = KeyEvent::new(code, KeyModifiers { ctrl, alt, shift });
                    assert!(!buffer.input(pressed), "{:?}", pressed);
                    assert_eq!(buffer.lines(), before, "{:?}", pressed);
                    // The cursor or the selection may have moved; the text has not
                    assert!(buffer.input(key(KeyCode::Char('x'))));
                    assert_ne!(buffer.lines(), before);
                }
            }
        }
    }
}

#[test]
fn test_keys_that_change_text() {
    let mut buffer = EditBuffer::new();
    assert!(buffer.input(key(KeyCode::Char('a'))));
    assert!(buffer.input(key(KeyCode::Char('b'))));
    assert_eq!(buffer.lines(), vec!["ab"]);
    assert!(buffer.input(key(KeyCode::Enter)));
    assert_eq!(buffer.lines(), vec!["ab", ""]);
    assert!(buffer.input(key(KeyCode::Char('c'))));
    assert_eq!(buffer.lines(), vec!["ab", "c"]);
    assert!(buffer.input(key(KeyCode::Backspace)));
    assert!(buffer.input(key(KeyCode::Backspace)));
    assert_eq!(buffer.lines(), vec!["ab"]);
    assert!(!buffer.input(key(KeyCode::Delete)));
    assert_eq!(buffer.lines(), vec!["ab"]);
    assert!(!buffer.input(key(KeyCode::Home)));
    assert!(buffer.input(key(KeyCode::Delete)));
    assert_eq!(buffer.lines(), vec!["b"]);
    assert!(buffer.input(key(KeyCode::Tab)));
    assert_eq!(buffer.lines(), vec!["    b"]);
    // With control held, a character stands for a command
    assert!(buffer.input(KeyEvent::new(KeyCode::Char('k'), KeyModifiers::control())));
    assert_eq!(buffer.lines(), vec!["    "]);
    assert!(!buffer.input(KeyEvent::new(KeyCode::Char('k'), KeyModifiers::control())));
    assert_eq!(buffer.lines(), vec!["    "]);
    assert!(buffer.input(KeyEvent::new(KeyCode::Char('u'), KeyModifiers::control())));
    assert_eq!(buffer.lines(), vec!["    b"]);
    // Left moves the cursor, so the next character goes before the last one
    assert!(!buffer.input(key(KeyCode::End)));
    assert!(!buffer.input(key(KeyCode::Left)));
    assert!(buffer.input(key(KeyCode::Char('z'))));
    assert_eq!(buffer.lines(), vec!["    zb"]);
}

#[test]
fn test_paste_over_a_selection_is_reported_as_no_change() {
    let mut buffer = EditBuffer::with_text("abc");
    let shift = KeyModifiers { ctrl: false, alt: false, shift: true };
    assert!(!buffer.input(KeyEvent::new(KeyCode::Left, shift)));
    assert_eq!(buffer.lines(), vec!["abc"]);
    // Nothing was yanked yet: the paste takes the selection away and
    // puts nothing in its place
    assert!(!buffer.input(KeyEvent::new(KeyCode::Char('y'), KeyModifiers::control())));
    assert_eq!(buffer.lines(), vec!["ab"]);
}

#[test]
fn test_same_text_and_keys_give_the_same_lines() {
    let keys = vec![
        key(KeyCode::Char('x')),
        key(KeyCode::Up),
        key(KeyCode::Enter),
        KeyEvent::new(KeyCode::Char('w'), KeyModifiers::control()),
        key(KeyCode::PageDown),
        key(KeyCode::Char('y')),
        key(KeyCode::Esc),
        key(KeyCode::Tab),
        key(KeyCode::Home),
        key(KeyCode::Delete),
    ];
    let mut first = EditBuffer::with_text("one\ntwo\r\nthree");
    let mut second = EditBuffer::with_text("one\ntwo\r\nthree");
    assert_eq!(first.lines(), vec!["one", "two", "three"]);
    for pressed in keys {
        let first_report = first.input(pressed);
        let second_report = second.input(pressed);
        assert_eq!(first_report, second_report);
        assert_eq!(first.lines(), second.lines());
    }
    assert_ne!(first.lines(), vec!["one", "two", "three"]);
    // A buffer made empty is one into which an empty text was loaded
    let mut empty = EditBuffer::new();
    let mut loaded = EditBuffer::with_text("");
    assert_eq!(empty.lines(), loaded.lines());
    for pressed in [key(KeyCode::Char('a')), KeyEvent::new(KeyCode::Char('u'), KeyModifiers::control())] {
        assert_eq!(empty.input(pressed), loaded.input(pressed));
        assert_eq!(empty.lines(), loaded.lines());
    }
}

#[test]
fn test_slash_command_for_a_lowercase_word() {
    assert_eq!(slash_command_for("/clear", None), SlashCommand::Clear);
    assert_eq!(slash_command_for("/help", Some("x".to_string())), SlashCommand::Help);
    assert_eq!(slash_command_for("/new", None), SlashCommand::New);
    assert_eq!(slash_command_for("/sessions", None), SlashCommand::Sessions);
    assert_eq!(slash_command_for("/switch", Some("id".to_string())), SlashCommand::Switch(Some("id".to_string())));
    assert_eq!(slash_command_for("/delete", None), SlashCommand::Delete(None));
    assert_eq!(slash_command_for("/model", Some("pro".to_string())), SlashCommand::Model(Some("pro".to_string())));
    assert_eq!(slash_command_for("/quit", None), SlashCommand::Quit);
    assert_eq!(slash_command_for("/exit", None), SlashCommand::Quit);
    assert_eq!(slash_command_for("/q", None), SlashCommand::Quit);
    // The word is taken as it stands
    assert_eq!(slash_command_for("/QUIT", None), SlashCommand::Unknown("/QUIT".to_string()));
    assert_eq!(slash_command_for("", Some("x".to_string())), SlashCommand::Unknown(String::new()));
}
