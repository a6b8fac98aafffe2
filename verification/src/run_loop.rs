//! One step of the agent's loop: what an event does to the agent, and what
//! the driver of the loop has to do next. The driver waits for events,
//! runs the model calls and the tools, and draws the interface; every
//! decision is taken here.

use vstd::prelude::*;
use crate::ai_client::{error_text, AIClient, AIError, AIErrorView, TransportView};
use crate::app::{
    committed, key_step, lemma_input_blocked, lemma_key_deterministic, notice, offered, optional_text,
    user_message, App, AppView, InputResult, InputResultView, Request, RequestView, TaskKind,
};
use crate::editor::{buffer_text, holds_text, is_cleared};
use crate::event::{Action, ActionView, Event, EventView};
use crate::executor::{
    any_matches, CommandResult, CommandResultView, DangerousCommandDetector,
    InteractiveCommandDetector, suggestion_spec,
};
use crate::key::{KeyCode, KeyEvent};
use crate::message::{clone_messages, plain_message, Message, MessageRole, MessageView};
use crate::state::{AppState, StateEvent};
use crate::text::{
    byte_count, byte_len, chars_of, decimal_of, decimal_text, find_chars, find_from, first_word,
    same_text, signed_decimal_of, texts, trim_spec,
};
use crate::tool_call::{
    is_known_tool, parse_spec, parsed_response_spec, ParsedResponse, ParsedResponseView, ToolCall,
    ToolCallView,
};

verus! {

/// What the action buffer shows for a staged tool call.
pub open spec fn display_text(tool: ToolCallView) -> Seq<char> {
    if tool.tool == "run_cmd"@ {
        tool.command
    } else if tool.tool == "run_python"@ {
        "python:\n"@ + tool.code
    } else if tool.tool == "read_file"@ {
        "read_file: "@ + tool.path
    } else if tool.tool == "write_file"@ {
        "write_file: "@ + tool.path + " ("@ + decimal_text(byte_len(tool.content) as int)
            + " bytes)"@
    } else if tool.tool == "search"@ {
        "search: "@ + tool.pattern + " in "@ + (if tool.directory.len() == 0 {
            "."@
        } else {
            tool.directory
        })
    } else {
        tool.tool
    }
}

/// What safe mode says instead of running a tool call.
pub open spec fn safe_mode_text(tool: ToolCallView) -> Seq<char> {
    "🔒 [SAFE MODE] "@ + (if tool.tool == "run_cmd"@ {
        "Would run: "@ + tool.command
    } else if tool.tool == "run_python"@ {
        "Would run Python:\n"@ + tool.code
    } else if tool.tool == "read_file"@ {
        "Would read: "@ + tool.path
    } else if tool.tool == "write_file"@ {
        "Would write "@ + decimal_text(byte_len(tool.content) as int) + " bytes to: "@ + tool.path
    } else if tool.tool == "search"@ {
        "Would search '"@ + tool.pattern + "' in "@ + tool.directory
    } else {
        "Would execute: "@ + tool.tool
    })
}

/// The field that an observation names for a tool call: the command of
/// `run_cmd`, the code of `run_python`, and the path otherwise.
pub open spec fn primary_field(tool: ToolCallView) -> Seq<char> {
    if tool.tool == "run_cmd"@ {
        tool.command
    } else if tool.tool == "run_python"@ {
        tool.code
    } else {
        tool.path
    }
}

/// The output that the model gets to see: standard output alone after a
/// success, and otherwise standard output, a line feed, and standard
/// error.
pub open spec fn shown_output(result: CommandResultView) -> Seq<char> {
    if result.success {
        result.stdout
    } else {
        result.stdout + "\n"@ + result.stderr
    }
}

/// The observation that goes back to the model as a user message.
pub open spec fn observation(tool: Option<ToolCallView>, result: CommandResultView) -> Seq<char> {
    "Tool: "@ + (match tool {
        Some(t) => t.tool + ": "@ + primary_field(t),
        None => Seq::empty(),
    }) + "\nExit code: "@ + decimal_text(result.exit_code as int) + "\nOutput:\n"@ + shown_output(
        result,
    )
}

/// The refusal of a command that needs a terminal of its own.
pub open spec fn interactive_refusal(command: Seq<char>) -> Seq<char> {
    "⚠\u{fe0f} Cannot run interactive command: `"@ + command + "`\n"@ + (match suggestion_spec(
        first_word(command),
    ) {
        Some(advice) => advice,
        None => "This command requires an interactive terminal"@,
    })
}

/// The refusal of Python code where no interpreter was found.
pub open spec fn python_missing() -> Seq<char> {
    "⚠\u{fe0f} Python is not available on this system.\nPlease install Python 3 to use this feature."@
}

/// The notice for a tool that is not one of the five.
pub open spec fn blocked_notice(tool: Seq<char>) -> Seq<char> {
    "⛔ Blocked unknown tool: '"@ + tool
        + "'\nAllowed: run_cmd, read_file, write_file, search, run_python"@
}

/// The notice for a cancelled action.
pub open spec fn cancelled_notice() -> Seq<char> {
    "⚠\u{fe0f} Command cancelled"@
}

/// A model message.
pub open spec fn model_message(text: Seq<char>) -> MessageView {
    plain_message(MessageRole::Model, text)
}

/// The state with one more message, scrolled to the end.
pub open spec fn with_message(before: AppView, message: MessageView) -> AppView {
    AppView { messages: before.messages.push(message), scroll_offset: 0, ..before }
}

/// The state once a step is over: back at typing, the staged action is
/// discarded.
pub open spec fn settled(view: AppView) -> AppView {
    if view.state == AppState::Input {
        AppView { current_tool: None, ..view }
    } else {
        view
    }
}

/// How a key press takes the agent from `before` to `after`, and what the
/// driver has to do.
///
/// The key is handled as `key_step` says. After a cancellation the agent
/// is back at typing, with a notice in the conversation, and the task, if
/// there was one, is to be aborted. A submitted query starts a model call
/// on a copy of the conversation; without a client it is an error that
/// takes the agent back to typing. A confirmed action is run, unless safe
/// mode only describes it, or nothing is staged: then the agent is back at
/// typing. A request that a slash command left is handed to the driver.
pub open spec fn key_event_step(
    before: AppView,
    key: KeyEvent,
    client_ready: bool,
    after: AppView,
    action: ActionView,
) -> bool {
    exists|mid: AppView, result: InputResultView|
        #[trigger] key_step(before, key, mid, result) && key_outcome(
            before,
            client_ready,
            mid,
            result,
            after,
            action,
        )
}

/// What follows once a key press was handled with `result` and left the
/// agent at `mid`.
pub open spec fn key_outcome(
    before: AppView,
    client_ready: bool,
    mid: AppView,
    result: InputResultView,
    after: AppView,
    action: ActionView,
) -> bool {
    match result {
        InputResultView::CancelCommand => after == with_message(
            AppView { state: AppState::Input, running_task: None, current_tool: None, ..mid },
            notice(cancelled_notice()),
        ) && action == (if before.running_task is Some {
            ActionView::AbortTask
        } else {
            ActionView::Wait
        }),
        InputResultView::FetchModels(model) => if client_ready {
            after == mid && action == ActionView::Perform(RequestView::FetchModels { model })
        } else {
            after == with_message(mid, notice("API key not configured"@)) && action
                == ActionView::Wait
        },
        InputResultView::SubmitQuery => if client_ready {
            after == (AppView { running_task: Some(TaskKind::ModelCall), ..mid }) && action == (
            ActionView::CallModel { messages: mid.messages })
        } else {
            after == settled(
                offered(
                    AppView { error_message: Some("API key not configured"@), ..mid },
                    StateEvent::ApiError,
                ),
            ) && action == ActionView::Wait
        },
        InputResultView::ExecuteCommand => match mid.current_tool {
            Some(tool) => if mid.config.safe_mode {
                after == with_message(
                    AppView { state: AppState::Input, current_tool: None, ..mid },
                    notice(safe_mode_text(tool)),
                ) && action == ActionView::Wait
            } else {
                after == (AppView { running_task: Some(TaskKind::Execution), ..mid }) && action
                    == (ActionView::RunTool { tool })
            },
            None => after == (AppView { state: AppState::Input, ..mid }) && action
                == ActionView::Wait,
        },
        InputResultView::Quit => after == mid && action == (if before.running_task is Some
            && mid.running_task is None {
            ActionView::AbortTask
        } else {
            ActionView::Wait
        }),
        InputResultView::Handled => after == (AppView { pending_request: None, ..mid }) && action
            == (match mid.pending_request {
            Some(request) => ActionView::Perform(request),
            None => ActionView::Wait,
        }),
        _ => after == mid && action == ActionView::Wait,
    }
}

/// How a tool call that the model asked for takes the agent from
/// `replied`, the state in which the answer is part of the conversation,
/// to `after`.
///
/// The tool call is refused, with a message, where its command needs a
/// terminal of its own, where it is Python code and no interpreter was
/// found, or where its tool is unknown; the turn then ends. Any other tool
/// call is staged for review: the action buffer shows it, and it is
/// flagged where it writes a file or its command matches a dangerous
/// pattern.
pub open spec fn tool_call_step(
    replied: AppView,
    tool: ToolCallView,
    dangerous: Seq<Seq<char>>,
    interactive: Seq<Seq<char>>,
    after: AppView,
) -> bool {
    if tool.tool == "run_cmd"@ && any_matches(interactive, trim_spec(tool.command)) {
        after == settled(
            offered(
                with_message(replied, model_message(interactive_refusal(tool.command))),
                StateEvent::TextResponseReceived,
            ),
        )
    } else if tool.tool == "run_python"@ && !replied.python_available {
        after == settled(
            offered(
                with_message(replied, model_message(python_missing())),
                StateEvent::TextResponseReceived,
            ),
        )
    } else if !is_known_tool(tool.tool) {
        after == settled(
            offered(
                with_message(replied, notice(blocked_notice(tool.tool))),
                StateEvent::TextResponseReceived,
            ),
        )
    } else {
        &&& holds_text(after.action, display_text(tool))
        &&& after == offered(
            AppView {
                action: after.action,
                current_tool: Some(tool),
                dangerous_command_detected: tool.tool == "write_file"@ || (tool.tool == "run_cmd"@
                    && any_matches(dangerous, tool.command)),
                ..replied
            },
            StateEvent::ToolCallReceived,
        )
    }
}

/// How the answer of a model call takes the agent from `before` to
/// `after`.
///
/// An answer that arrives while no model call owns the turn is dropped.
/// Otherwise the turn is free again, and where it ends at typing, the
/// staged action is discarded. An error is recorded, and the agent is
/// back at typing. A text is appended as a model message and clears the
/// last error. A text that is no tool call ends the turn; a tool call is
/// refused or staged, as `tool_call_step` defines it.
pub open spec fn response_step(
    before: AppView,
    response: Result<Seq<char>, AIErrorView>,
    dangerous: Seq<Seq<char>>,
    interactive: Seq<Seq<char>>,
    after: AppView,
) -> bool {
    if before.running_task != Some(TaskKind::ModelCall) {
        after == before
    } else {
        let free = AppView { running_task: None, ..before };
        match response {
            Err(error) => after == settled(
                offered(
                    AppView { error_message: Some(error_text(error)), ..free },
                    StateEvent::ApiError,
                ),
            ),
            Ok(text) => {
                let replied = with_message(
                    AppView { error_message: None, ..free },
                    model_message(text),
                );
                match parsed_response_spec(text) {
                    ParsedResponseView::TextResponse(_) => after == settled(
                        offered(replied, StateEvent::TextResponseReceived),
                    ),
                    ParsedResponseView::ToolCall(tool) => tool_call_step(
                        replied,
                        tool,
                        dangerous,
                        interactive,
                        after,
                    ),
                }
            },
        }
    }
}

/// How the result of a tool takes the agent from `before` to `after`, and
/// what the driver has to do.
///
/// A result that arrives while no execution owns the turn is dropped.
/// Otherwise the observation is appended as a user message, the automaton
/// is told that the command is complete, and the model is called on a
/// copy of the conversation; without a client the analysis is complete at
/// once.
pub open spec fn complete_step(
    before: AppView,
    result: CommandResultView,
    client_ready: bool,
    after: AppView,
    action: ActionView,
) -> bool {
    if before.running_task != Some(TaskKind::Execution) {
        after == before && action == ActionView::Wait
    } else {
        let observed = offered(
            with_message(
                AppView { running_task: None, execution_output: shown_output(result), ..before },
                user_message(observation(before.current_tool, result)),
            ),
            StateEvent::CommandComplete,
        );
        if client_ready {
            after == (AppView { running_task: Some(TaskKind::ModelCall), ..observed }) && action
                == (ActionView::CallModel { messages: observed.messages })
        } else {
            after == settled(offered(observed, StateEvent::AnalysisComplete)) && action
                == ActionView::Wait
        }
    }
}

/// The first model whose name holds `wanted`.
pub open spec fn first_containing(models: Seq<Seq<char>>, wanted: Seq<char>) -> Option<Seq<char>>
    decreases models.len(),
{
    if models.len() == 0 {
        None
    } else if find_from(models[0], wanted, 0) is Some {
        Some(models[0])
    } else {
        first_containing(models.drop_first(), wanted)
    }
}

/// The listing of the models, one per line, the current one marked.
pub open spec fn model_listing(models: Seq<Seq<char>>, current: Seq<char>) -> Seq<char>
    decreases models.len(),
{
    if models.len() == 0 {
        Seq::empty()
    } else {
        let line = (if models.last() == current {
            "→ "@
        } else {
            "  "@
        }) + models.last();
        if models.len() == 1 {
            line
        } else {
            model_listing(models.drop_last(), current) + "\n"@ + line
        }
    }
}

/// The notice that a list of models, or the failure to get one, leaves in
/// the conversation; `None` where there is nothing to say. `current` is
/// the model of the client, if there is a client.
pub open spec fn models_notice(
    models: Result<Seq<Seq<char>>, AIErrorView>,
    wanted: Option<Seq<char>>,
    current: Option<Seq<char>>,
) -> Option<Seq<char>> {
    match models {
        Ok(names) => match wanted {
            Some(name) => match first_containing(names, name) {
                Some(found) => if current is Some {
                    Some("✓ Switched to: "@ + found)
                } else {
                    None
                },
                None => Some("✗ Model '"@ + name + "' not found"@),
            },
            None => Some(
                "Available models:\n"@ + model_listing(
                    names,
                    match current {
                        Some(model) => model,
                        None => "unknown"@,
                    },
                ) + "\n\nUse /model <name> to switch"@,
            ),
        },
        Err(error) => Some("✗ Failed to fetch models: "@ + error_text(error)),
    }
}

/// The model of the client after a list of models arrived: the first one
/// that holds the wanted name, where there is one; otherwise the model as
/// it was.
pub open spec fn switched_model(
    models: Result<Seq<Seq<char>>, AIErrorView>,
    wanted: Option<Seq<char>>,
    current: Seq<char>,
) -> Seq<char> {
    match (models, wanted) {
        (Ok(names), Some(name)) => match first_containing(names, name) {
            Some(found) => found,
            None => current,
        },
        _ => current,
    }
}

/// What the client talks with apart from its model, where there is a
/// client.
pub open spec fn client_transport(client: Option<AIClient>) -> Option<TransportView> {
    match client {
        Some(active) => Some(active.transport()),
        None => None,
    }
}

/// The model of an optional client.
pub open spec fn client_model(client: Option<AIClient>) -> Option<Seq<char>> {
    match client {
        Some(c) => Some(c.model_name()),
        None => None,
    }
}

/// How an event takes the agent from `before` to `after`, and what the
/// driver has to do. A tick advances the spinner; a resize and the
/// notice that a tool was cancelled change nothing.
pub open spec fn step_spec(
    before: AppView,
    event: EventView,
    client_before: Option<Seq<char>>,
    dangerous: Seq<Seq<char>>,
    interactive: Seq<Seq<char>>,
    after: AppView,
    action: ActionView,
) -> bool {
    match event {
        EventView::Key(key) => key_event_step(before, key, client_before is Some, after, action),
        EventView::Tick => after == (AppView {
            spinner_frame: ((before.spinner_frame + 1) % 10) as usize,
            ..before
        }) && action == ActionView::Wait,
        EventView::Resize(_, _) => after == before && action == ActionView::Wait,
        EventView::ApiResponse(response) => response_step(
            before,
            response,
            dangerous,
            interactive,
            after,
        ) && action == ActionView::Wait,
        EventView::CommandComplete(result) => complete_step(
            before,
            result,
            client_before is Some,
            after,
            action,
        ),
        EventView::CommandCancelled => after == before && action == ActionView::Wait,
        EventView::ModelsResponse(models, wanted) => after == (match models_notice(
            models,
            wanted,
            client_before,
        ) {
            Some(text) => with_message(before, notice(text)),
            None => before,
        }) && action == ActionView::Wait,
    }
}

fn byte_count_text(text: &str) -> (count: String)
    ensures
        count@ == decimal_text(byte_len(text@) as int),
{
    let chars = chars_of(text);
    decimal_of(byte_count(chars.as_slice()))
}

fn display_for(tool: &ToolCall) -> (text: String)
    ensures
        text@ == display_text(tool@),
{
    if tool.is_run_cmd() {
        tool.command.clone()
    } else if tool.is_run_python() {
        let mut text = String::from_str("python:\n");
        text.append(tool.code.as_str());
        text
    } else if tool.is_read_file() {
        let mut text = String::from_str("read_file: ");
        text.append(tool.path.as_str());
        text
    } else if tool.is_write_file() {
        let mut text = String::from_str("write_file: ");
        text.append(tool.path.as_str());
        text.append(" (");
        let count = byte_count_text(tool.content.as_str());
        text.append(count.as_str());
        text.append(" bytes)");
        text
    } else if tool.is_search() {
        let mut text = String::from_str("search: ");
        text.append(tool.pattern.as_str());
        text.append(" in ");
        if tool.directory.as_str().is_empty() {
            text.append(".");
        } else {
            text.append(tool.directory.as_str());
        }
        text
    } else {
        tool.tool.clone()
    }
}

fn safe_mode_for(tool: &ToolCall) -> (text: String)
    ensures
        text@ == safe_mode_text(tool@),
{
    let mut what = if tool.is_run_cmd() {
        let mut what = String::from_str("Would run: ");
        what.append(tool.command.as_str());
        what
    } else if tool.is_run_python() {
        let mut what = String::from_str("Would run Python:\n");
        what.append(tool.code.as_str());
        what
    } else if tool.is_read_file() {
        let mut what = String::from_str("Would read: ");
        what.append(tool.path.as_str());
        what
    } else if tool.is_write_file() {
        let mut what = String::from_str("Would write ");
        let count = byte_count_text(tool.content.as_str());
        what.append(count.as_str());
        what.append(" bytes to: ");
        what.append(tool.path.as_str());
        what
    } else if tool.is_search() {
        let mut what = String::from_str("Would search '");
        what.append(tool.pattern.as_str());
        what.append("' in ");
        what.append(tool.directory.as_str());
        what
    } else {
        let mut what = String::from_str("Would execute: ");
        what.append(tool.tool.as_str());
        what
    };
    let mut text = String::from_str("🔒 [SAFE MODE] ");
    text.append(what.as_str());
    text
}

fn shown_output_for(result: &CommandResult) -> (text: String)
    ensures
        text@ == shown_output(result@),
{
    if result.success {
        result.stdout.clone()
    } else {
        let mut text = result.stdout.clone();
        text.append("\n");
        text.append(result.stderr.as_str());
        text
    }
}

fn observation_for(tool: &Option<ToolCall>, result: &CommandResult, output: &str) -> (text: String)
    requires
        output@ == shown_output(result@),
    ensures
        text@ == observation(
            match *tool {
                Some(t) => Some(t@),
                None => None,
            },
            result@,
        ),
{
    let mut text = String::from_str("Tool: ");
    match tool {
        Some(t) => {
            let mut described = t.tool.clone();
            described.append(": ");
            if t.is_run_cmd() {
                described.append(t.command.as_str());
            } else if t.is_run_python() {
                described.append(t.code.as_str());
            } else {
                described.append(t.path.as_str());
            }
            text.append(described.as_str());
        },
        None => {
            assert(text@ + Seq::<char>::empty() == text@);
        },
    }
    text.append("\nExit code: ");
    let code = signed_decimal_of(result.exit_code as i64);
    text.append(code.as_str());
    text.append("\nOutput:\n");
    text.append(output);
    text
}

fn refusal_for(command: &str, interactive: &InteractiveCommandDetector) -> (text: String)
    ensures
        text@ == interactive_refusal(command@),
{
    let mut text = String::from_str("⚠\u{fe0f} Cannot run interactive command: `");
    text.append(command);
    text.append("`\n");
    match interactive.suggestion(command) {
        Some(advice) => {
            text.append(advice);
        },
        None => {
            text.append("This command requires an interactive terminal");
        },
    }
    text
}

fn settle(app: &mut App)
    ensures
        final(app)@ == settled(old(app)@),
{
    if app.state == AppState::Input {
        app.current_tool = None;
    }
}

fn add_notice(app: &mut App, text: &str)
    ensures
        final(app)@ == with_message(old(app)@, notice(text@)),
{
    app.add_message(Message::system(text));
}

/// Handles a key press, as `key_event_step` defines it.
pub fn on_key(app: &mut App, key: KeyEvent, client_ready: bool) -> (action: Action)
    ensures
        key_event_step(old(app)@, key, client_ready, final(app)@, action@),
{
    let had_task = app.running_task.is_some();
    let result = app.handle_key_event(key);
    let ghost mid = app@;
    let ghost outcome = result@;
    let action = match result {
        InputResult::CancelCommand => {
            app.state = AppState::Input;
            app.running_task = None;
            app.current_tool = None;
            add_notice(app, "⚠\u{fe0f} Command cancelled");
            if had_task {
                Action::AbortTask
            } else {
                Action::Wait
            }
        },
        InputResult::FetchModels(model) => {
            if client_ready {
                Action::Perform(Request::FetchModels { model })
            } else {
                add_notice(app, "API key not configured");
                Action::Wait
            }
        },
        InputResult::SubmitQuery => {
            if client_ready {
                app.running_task = Some(TaskKind::ModelCall);
                Action::CallModel { messages: clone_messages(&app.messages) }
            } else {
                app.set_error("API key not configured");
                end_turn(app, StateEvent::ApiError);
                Action::Wait
            }
        },
        InputResult::ExecuteCommand => {
            let staged = match &app.current_tool {
                Some(tool) => Some(tool.clone()),
                None => None,
            };
            match staged {
                Some(tool) => {
                    if app.config.safe_mode {
                        let text = safe_mode_for(&tool);
                        app.state = AppState::Input;
                        app.current_tool = None;
                        add_notice(app, text.as_str());
                        Action::Wait
                    } else {
                        app.running_task = Some(TaskKind::Execution);
                        Action::RunTool { tool }
                    }
                },
                None => {
                    app.state = AppState::Input;
                    Action::Wait
                },
            }
        },
        InputResult::Quit => {
            if had_task && app.running_task.is_none() {
                Action::AbortTask
            } else {
                Action::Wait
            }
        },
        InputResult::Handled => {
            match app.take_request() {
                Some(request) => Action::Perform(request),
                None => Action::Wait,
            }
        },
        _ => Action::Wait,
    };
    proof {
        assert(key_step(old(app)@, key, mid, outcome));
        assert(key_outcome(old(app)@, client_ready, mid, outcome, app@, action@));
    }
    action
}

fn end_turn(app: &mut App, event: StateEvent)
    ensures
        final(app)@ == settled(offered(old(app)@, event)),
{
    app.transition(event);
    settle(app);
}

fn refuse(app: &mut App, message: Message)
    ensures
        final(app)@ == settled(
            offered(with_message(old(app)@, message@), StateEvent::TextResponseReceived),
        ),
{
    app.add_message(message);
    end_turn(app, StateEvent::TextResponseReceived);
}

fn stage(app: &mut App, tool: ToolCall, flagged: bool)
    ensures
        holds_text(final(app)@.action, display_text(tool@)),
        final(app)@ == offered(
            AppView {
                action: final(app)@.action,
                current_tool: Some(tool@),
                dangerous_command_detected: flagged,
                ..old(app)@
            },
            StateEvent::ToolCallReceived,
        ),
{
    let display = display_for(&tool);
    app.set_action_text(display.as_str());
    app.dangerous_command_detected = flagged;
    app.current_tool = Some(tool);
    app.transition(StateEvent::ToolCallReceived);
}

/// Refuses or stages a tool call that the model asked for, as
/// `tool_call_step` defines it.
pub fn on_tool_call(
    app: &mut App,
    tool: ToolCall,
    detector: &DangerousCommandDetector,
    interactive: &InteractiveCommandDetector,
)
    ensures
        tool_call_step(
            old(app)@,
            tool@,
            detector.patterns(),
            interactive.patterns(),
            final(app)@,
        ),
{
    if tool.is_run_cmd() && interactive.is_interactive(tool.command.as_str()) {
        let refusal = refusal_for(tool.command.as_str(), interactive);
        refuse(app, Message::model(refusal.as_str()));
    } else if tool.is_run_python() && !app.python_available {
        refuse(
            app,
            Message::model(
                "⚠\u{fe0f} Python is not available on this system.\nPlease install Python 3 to use this feature.",
            ),
        );
    } else if !tool.is_allowed_tool() {
        let mut text = String::from_str("⛔ Blocked unknown tool: '");
        text.append(tool.tool.as_str());
        text.append("'\nAllowed: run_cmd, read_file, write_file, search, run_python");
        refuse(app, Message::system(text.as_str()));
    } else {
        let flagged = tool.is_destructive() || (tool.is_run_cmd() && detector.is_dangerous(
            tool.command.as_str(),
        ));
        stage(app, tool, flagged);
    }
}

/// The view of the answer of a model call.
pub open spec fn response_view(response: Result<String, AIError>) -> Result<Seq<char>, AIErrorView> {
    match response {
        Ok(text) => Ok(text@),
        Err(error) => Err(error@),
    }
}

/// Handles the answer of a model call, as `response_step` defines it.
pub fn on_api_response(
    app: &mut App,
    response: Result<String, AIError>,
    detector: &DangerousCommandDetector,
    interactive: &InteractiveCommandDetector,
)
    ensures
        response_step(
            old(app)@,
            response_view(response),
            detector.patterns(),
            interactive.patterns(),
            final(app)@,
        ),
{
    if app.running_task != Some(TaskKind::ModelCall) {
        return ;
    }
    app.running_task = None;
    match response {
        Err(error) => {
            let text = error.to_string();
            app.set_error(text.as_str());
            end_turn(app, StateEvent::ApiError);
        },
        Ok(text) => {
            app.clear_error();
            app.add_message(Message::model(text.as_str()));
            match ParsedResponse::parse(text.as_str()) {
                ParsedResponse::TextResponse(_) => {
                    end_turn(app, StateEvent::TextResponseReceived);
                },
                ParsedResponse::ToolCall(tool) => {
                    on_tool_call(app, tool, detector, interactive);
                },
            }
        },
    }
}

/// Handles the result of a tool, as `complete_step` defines it.
pub fn on_command_complete(app: &mut App, result: CommandResult, client_ready: bool) -> (action:
    Action)
    ensures
        complete_step(old(app)@, result@, client_ready, final(app)@, action@),
{
    if app.running_task != Some(TaskKind::Execution) {
        return Action::Wait;
    }
    app.running_task = None;
    let output = shown_output_for(&result);
    let feedback = observation_for(&app.current_tool, &result, output.as_str());
    app.execution_output = output;
    app.add_message(Message::user(feedback.as_str()));
    app.transition(StateEvent::CommandComplete);
    if client_ready {
        app.running_task = Some(TaskKind::ModelCall);
        Action::CallModel { messages: clone_messages(&app.messages) }
    } else {
        end_turn(app, StateEvent::AnalysisComplete);
        Action::Wait
    }
}

fn find_model(models: &Vec<String>, wanted: &str) -> (found: Option<String>)
    ensures
        optional_text(found) == first_containing(texts(models@), wanted@),
{
    let ghost all = texts(models@);
    let needle = chars_of(wanted);
    let mut i: usize = 0;
    proof {
        assert(all.skip(0) == all);
    }
    while i < models.len()
        invariant
            i <= models.len(),
            all == texts(models@),
            needle@ == wanted@,
            first_containing(all, wanted@) == first_containing(all.skip(i as int), wanted@),
        decreases models.len() - i,
    {
        proof {
            assert(all.skip(i as int)[0] == models@[i as int]@);
            assert(all.skip(i as int).drop_first() == all.skip(i + 1));
        }
        let name = chars_of(models[i].as_str());
        if find_chars(name.as_slice(), needle.as_slice(), 0).is_some() {
            return Some(models[i].clone());
        }
        i += 1;
    }
    None
}

fn listing_for(models: &Vec<String>, current: &str) -> (text: String)
    ensures
        text@ == model_listing(texts(models@), current@),
{
    let ghost all = texts(models@);
    let mut text = String::new();
    let mut i: usize = 0;
    proof {
        assert(all.take(0) == Seq::<Seq<char>>::empty());
    }
    while i < models.len()
        invariant
            i <= models.len(),
            all == texts(models@),
            text@ == model_listing(all.take(i as int), current@),
        decreases models.len() - i,
    {
        proof {
            let next = all.take(i + 1);
            assert(next.drop_last() == all.take(i as int));
            assert(next.last() == models@[i as int]@);
        }
        let mut line = if same_text(models[i].as_str(), current) {
            String::from_str("→ ")
        } else {
            String::from_str("  ")
        };
        line.append(models[i].as_str());
        if i > 0 {
            text.append("\n");
            text.append(line.as_str());
        } else {
            text = line;
        }
        i += 1;
    }
    proof {
        assert(all.take(models.len() as int) == all);
    }
    text
}

/// The view of a list of models, or of the failure to get one.
pub open spec fn models_view(models: Result<Vec<String>, AIError>) -> Result<
    Seq<Seq<char>>,
    AIErrorView,
> {
    match models {
        Ok(names) => Ok(texts(names@)),
        Err(error) => Err(error@),
    }
}

/// Handles a list of models: switches the client to the first model that
/// holds the wanted name, or lists the models, and says so in the
/// conversation, as `models_notice` and `switched_model` define it. A
/// failure is reported in the conversation.
pub fn on_models_response(
    app: &mut App,
    models: Result<Vec<String>, AIError>,
    wanted: Option<String>,
    client: &mut Option<AIClient>,
)
    ensures
        final(app)@ == (match models_notice(
            models_view(models),
            optional_text(wanted),
            client_model(*old(client)),
        ) {
            Some(text) => with_message(old(app)@, notice(text)),
            None => old(app)@,
        }),
        client_model(*final(client)) == (match client_model(*old(client)) {
            Some(current) => Some(switched_model(models_view(models), optional_text(wanted), current)),
            None => None,
        }),
        client_transport(*final(client)) == client_transport(*old(client)),
{
    match models {
        Ok(names) => match wanted {
            Some(name) => match find_model(&names, name.as_str()) {
                Some(found) => {
                    if let Some(active) = client {
                        let mut text = String::from_str("✓ Switched to: ");
                        text.append(found.as_str());
                        active.set_model(found);
                        add_notice(app, text.as_str());
                    }
                },
                None => {
                    let mut text = String::from_str("✗ Model '");
                    text.append(name.as_str());
                    text.append("' not found");
                    add_notice(app, text.as_str());
                },
            },
            None => {
                let listing = match client {
                    Some(active) => listing_for(&names, active.model()),
                    None => listing_for(&names, "unknown"),
                };
                let mut text = String::from_str("Available models:\n");
                text.append(listing.as_str());
                text.append("\n\nUse /model <name> to switch");
                add_notice(app, text.as_str());
            },
        },
        Err(error) => {
            let mut text = String::from_str("✗ Failed to fetch models: ");
            let detail = error.to_string();
            text.append(detail.as_str());
            add_notice(app, text.as_str());
        },
    }
}

/// One step of the loop: takes an event, changes the agent as `step_spec`
/// defines it, and says what the driver has to do next. Only a list of
/// models can change the client, and of it only the model: its
/// transport, key, endpoint and window stay as they are.
pub fn step(
    app: &mut App,
    event: Event,
    client: &mut Option<AIClient>,
    detector: &DangerousCommandDetector,
    interactive: &InteractiveCommandDetector,
) -> (action: Action)
    ensures
        step_spec(
            old(app)@,
            event@,
            client_model(*old(client)),
            detector.patterns(),
            interactive.patterns(),
            final(app)@,
            action@,
        ),
        client_model(*final(client)) == client_after(event@, client_model(*old(client))),
        client_transport(*final(client)) == client_transport(*old(client)),
{
    match event {
        Event::Key(key) => on_key(app, key, client.is_some()),
        Event::Tick => {
            app.tick_spinner();
            Action::Wait
        },
        Event::Resize(_, _) => Action::Wait,
        Event::ApiResponse(response) => {
            on_api_response(app, response, detector, interactive);
            Action::Wait
        },
        Event::CommandComplete(result) => on_command_complete(app, result, client.is_some()),
        Event::CommandCancelled => Action::Wait,
        Event::ModelsResponse(models, wanted) => {
            on_models_response(app, models, wanted, client);
            Action::Wait
        },
    }
}

/// Whether the background task and the state go together: a model call
/// owns the turn exactly while thinking or finalizing, an execution
/// exactly while executing, and otherwise there is no task. An agent that
/// is about to quit is exempt.
pub open spec fn task_matches_state(view: AppView) -> bool {
    view.should_quit || (match view.running_task {
        Some(TaskKind::ModelCall) => view.state == AppState::Thinking || view.state
            == AppState::Finalizing,
        Some(TaskKind::Execution) => view.state == AppState::Executing,
        None => !view.state.spec_blocks_input(),
    })
}

/// A step keeps the task and the state together, and so there is never
/// more than one background task: a step asks for a model call or a tool
/// run only when no other task owns the turn any more, and the task it
/// asks for is then the one that owns the turn.
pub proof fn lemma_single_task(
    before: AppView,
    event: EventView,
    client: Option<Seq<char>>,
    dangerous: Seq<Seq<char>>,
    interactive: Seq<Seq<char>>,
    after: AppView,
    action: ActionView,
)
    requires
        task_matches_state(before),
        !before.should_quit,
        step_spec(before, event, client, dangerous, interactive, after, action),
    ensures
        task_matches_state(after),
        action is CallModel ==> after.running_task == Some(TaskKind::ModelCall) && (
        before.running_task is None || event is CommandComplete),
        action is RunTool ==> after.running_task == Some(TaskKind::Execution)
            && before.running_task is None,
        action is AbortTask ==> before.running_task is Some && after.running_task is None,
{
}

/// What follows a handled key press is fixed by the state that the key
/// press left.
pub proof fn lemma_key_outcome_deterministic(
    before: AppView,
    client_ready: bool,
    mid: AppView,
    result: InputResultView,
    first: AppView,
    first_action: ActionView,
    second: AppView,
    second_action: ActionView,
)
    requires
        key_outcome(before, client_ready, mid, result, first, first_action),
        key_outcome(before, client_ready, mid, result, second, second_action),
    ensures
        first == second,
        first_action == second_action,
{
}

/// What a key press does in a step is fixed by the state before it and
/// the key, given the session id that the clock gives to a new session.
pub proof fn lemma_key_event_deterministic(
    before: AppView,
    key: KeyEvent,
    client_ready: bool,
    first: AppView,
    first_action: ActionView,
    second: AppView,
    second_action: ActionView,
)
    requires
        key_event_step(before, key, client_ready, first, first_action),
        key_event_step(before, key, client_ready, second, second_action),
        first.current_session_id == second.current_session_id,
    ensures
        first == second,
        first_action == second_action,
{
    let (a, x) = choose|a: AppView, x: InputResultView| #[trigger]
        key_step(before, key, a, x) && key_outcome(before, client_ready, a, x, first, first_action);
    let (b, y) = choose|b: AppView, y: InputResultView| #[trigger]
        key_step(before, key, b, y) && key_outcome(
            before,
            client_ready,
            b,
            y,
            second,
            second_action,
        );
    assert(a.current_session_id == first.current_session_id);
    assert(b.current_session_id == second.current_session_id);
    lemma_key_deterministic(before, key, a, x, b, y);
    lemma_key_outcome_deterministic(
        before,
        client_ready,
        a,
        x,
        first,
        first_action,
        second,
        second_action,
    );
}

/// What the answer of a model call does is fixed by the state before it
/// and the answer.
pub proof fn lemma_response_deterministic(
    before: AppView,
    response: Result<Seq<char>, AIErrorView>,
    dangerous: Seq<Seq<char>>,
    interactive: Seq<Seq<char>>,
    first: AppView,
    second: AppView,
)
    requires
        response_step(before, response, dangerous, interactive, first),
        response_step(before, response, dangerous, interactive, second),
    ensures
        first == second,
{
}

/// A step is fixed by the state before it and the event, given the
/// session id that the clock gives to a new session: two steps from the
/// same state on the same event that agree on it end in the same state,
/// with the same conversation and the same buffers, and ask for the same
/// action.
pub proof fn lemma_step_deterministic(
    before: AppView,
    event: EventView,
    client: Option<Seq<char>>,
    dangerous: Seq<Seq<char>>,
    interactive: Seq<Seq<char>>,
    first: AppView,
    first_action: ActionView,
    second: AppView,
    second_action: ActionView,
)
    requires
        step_spec(before, event, client, dangerous, interactive, first, first_action),
        step_spec(before, event, client, dangerous, interactive, second, second_action),
        first.current_session_id == second.current_session_id,
    ensures
        first == second,
        first.state == second.state,
        first.messages == second.messages,
        first_action == second_action,
{
    match event {
        EventView::Key(key) => {
            lemma_key_event_deterministic(
                before,
                key,
                client is Some,
                first,
                first_action,
                second,
                second_action,
            );
        },
        EventView::ApiResponse(response) => {
            lemma_response_deterministic(before, response, dangerous, interactive, first, second);
        },
        _ => {},
    }
}

/// While a background task owns the turn, a key other than Escape and
/// control-C changes nothing in the loop either: the agent, with its
/// conversation and both edit buffers, stays as it was, and the driver
/// has nothing to do.
pub proof fn lemma_blocked_key_in_loop(
    before: AppView,
    key: KeyEvent,
    client_ready: bool,
    after: AppView,
    action: ActionView,
)
    requires
        before.state.spec_blocks_input(),
        !key.is_interrupt(),
        !key.is_escape(),
        key_event_step(before, key, client_ready, after, action),
    ensures
        after == before,
        action == ActionView::Wait,
{
    let (mid, result) = choose|mid: AppView, result: InputResultView| #[trigger]
        key_step(before, key, mid, result) && key_outcome(
            before,
            client_ready,
            mid,
            result,
            after,
            action,
        );
    lemma_input_blocked(before, key, mid, result);
}

/// The model of the client after an event: only a list of models changes
/// it, to the model that was asked for, where there is a client.
pub open spec fn client_after(event: EventView, client: Option<Seq<char>>) -> Option<Seq<char>> {
    match (event, client) {
        (EventView::ModelsResponse(models, wanted), Some(current)) => Some(
            switched_model(models, wanted, current),
        ),
        (_, current) => current,
    }
}

/// Whether `states`, `clients` and `actions` record a run of the loop on
/// `events`: each state follows from the one before it by a step on the
/// event of that index.
pub open spec fn is_run(
    states: Seq<AppView>,
    clients: Seq<Option<Seq<char>>>,
    events: Seq<EventView>,
    actions: Seq<ActionView>,
    dangerous: Seq<Seq<char>>,
    interactive: Seq<Seq<char>>,
) -> bool {
    &&& states.len() == events.len() + 1
    &&& clients.len() == events.len() + 1
    &&& actions.len() == events.len()
    &&& forall|i: int|
        0 <= i < events.len() ==> #[trigger] step_spec(
            states[i],
            events[i],
            clients[i],
            dangerous,
            interactive,
            states[i + 1],
            actions[i],
        ) && clients[i + 1] == client_after(events[i], clients[i])
}

/// Whether two runs agree on the session ids that the clock gave.
pub open spec fn same_sessions(first: Seq<AppView>, second: Seq<AppView>) -> bool {
    &&& first.len() == second.len()
    &&& forall|i: int|
        0 <= i < first.len() ==> (#[trigger] first[i]).current_session_id
            == second[i].current_session_id
}

/// A run is fixed by the state it starts from and the events, given what
/// the clock gives: two runs from the same state on the same events that
/// agree on the session ids pass through the same states, with the same
/// conversations and the same buffers, and ask for the same actions.
pub proof fn lemma_run_deterministic(
    events: Seq<EventView>,
    dangerous: Seq<Seq<char>>,
    interactive: Seq<Seq<char>>,
    first: Seq<AppView>,
    first_clients: Seq<Option<Seq<char>>>,
    first_actions: Seq<ActionView>,
    second: Seq<AppView>,
    second_clients: Seq<Option<Seq<char>>>,
    second_actions: Seq<ActionView>,
    upto: int,
)
    requires
        is_run(first, first_clients, events, first_actions, dangerous, interactive),
        is_run(second, second_clients, events, second_actions, dangerous, interactive),
        first[0] == second[0],
        first_clients[0] == second_clients[0],
        same_sessions(first, second),
        0 <= upto <= events.len(),
    ensures
        first[upto] == second[upto],
        first_clients[upto] == second_clients[upto],
        forall|i: int| 0 <= i < upto ==> first_actions[i] == second_actions[i],
        forall|i: int| 0 <= i <= upto ==> first[i].messages == second[i].messages,
    decreases upto,
{
    if upto > 0 {
        lemma_run_deterministic(
            events,
            dangerous,
            interactive,
            first,
            first_clients,
            first_actions,
            second,
            second_clients,
            second_actions,
            upto - 1,
        );
        let i = upto - 1;
        assert(step_spec(
            first[i],
            events[i],
            first_clients[i],
            dangerous,
            interactive,
            first[i + 1],
            first_actions[i],
        ));
        assert(step_spec(
            second[i],
            events[i],
            second_clients[i],
            dangerous,
            interactive,
            second[i + 1],
            second_actions[i],
        ));
        assert(first[i + 1].current_session_id == second[i + 1].current_session_id);
        lemma_step_deterministic(
            first[i],
            events[i],
            first_clients[i],
            dangerous,
            interactive,
            first[i + 1],
            first_actions[i],
            second[i + 1],
            second_actions[i],
        );
    }
}

/// Throughout a run that starts with the task and the state together,
/// they stay together, as long as the agent was not asked to quit: a
/// background task exists exactly while the state blocks input.
pub proof fn lemma_run_keeps_single_task(
    states: Seq<AppView>,
    clients: Seq<Option<Seq<char>>>,
    events: Seq<EventView>,
    actions: Seq<ActionView>,
    dangerous: Seq<Seq<char>>,
    interactive: Seq<Seq<char>>,
    upto: int,
)
    requires
        is_run(states, clients, events, actions, dangerous, interactive),
        task_matches_state(states[0]),
        forall|i: int| 0 <= i < events.len() ==> !(#[trigger] states[i]).should_quit,
        0 <= upto <= events.len(),
    ensures
        task_matches_state(states[upto]),
        !states[upto].should_quit ==> (states[upto].running_task is Some
            <==> states[upto].state.spec_blocks_input()),
    decreases upto,
{
    if upto > 0 {
        lemma_run_keeps_single_task(
            states,
            clients,
            events,
            actions,
            dangerous,
            interactive,
            upto - 1,
        );
        let i = upto - 1;
        assert(step_spec(
            states[i],
            events[i],
            clients[i],
            dangerous,
            interactive,
            states[i + 1],
            actions[i],
        ));
        lemma_single_task(
            states[i],
            events[i],
            clients[i],
            dangerous,
            interactive,
            states[i + 1],
            actions[i],
        );
    }
}

/// Whether a model call owns the turn.
pub open spec fn awaits_model(view: AppView) -> bool {
    (view.state == AppState::Thinking || view.state == AppState::Finalizing) && view.running_task
        == Some(TaskKind::ModelCall)
}

/// An answer that holds no tool call ends the turn: the agent is back at
/// typing, free of its task, and the conversation ends with the answer as
/// a model message.
pub proof fn lemma_text_answer_ends_turn(
    before: AppView,
    text: Seq<char>,
    dangerous: Seq<Seq<char>>,
    interactive: Seq<Seq<char>>,
    after: AppView,
)
    requires
        awaits_model(before),
        parse_spec(text) is None,
        response_step(before, Ok(text), dangerous, interactive, after),
    ensures
        after.state == AppState::Input,
        after.messages == before.messages.push(model_message(text)),
        after.running_task is None,
        after.current_tool is None,
        after.error_message is None,
{
}

/// A tool call that is not refused is staged for review: the answer is
/// appended to the conversation, the action buffer shows the tool call,
/// and it is flagged where it writes a file or its command matches a
/// dangerous pattern.
pub proof fn lemma_tool_call_staged(
    before: AppView,
    text: Seq<char>,
    tool: ToolCallView,
    dangerous: Seq<Seq<char>>,
    interactive: Seq<Seq<char>>,
    after: AppView,
)
    requires
        awaits_model(before),
        parse_spec(text) == Some(tool),
        is_known_tool(tool.tool),
        !(tool.tool == "run_cmd"@ && any_matches(interactive, trim_spec(tool.command))),
        !(tool.tool == "run_python"@ && !before.python_available),
        response_step(before, Ok(text), dangerous, interactive, after),
    ensures
        after.state == AppState::ReviewAction,
        after.messages == before.messages.push(model_message(text)),
        after.current_tool == Some(tool),
        holds_text(after.action, display_text(tool)),
        after.dangerous_command_detected == (tool.tool == "write_file"@ || (tool.tool == "run_cmd"@
            && any_matches(dangerous, tool.command))),
        after.running_task is None,
{
}

/// A command that needs a terminal of its own is refused: nothing is
/// staged, the agent is back at typing, and the conversation ends with
/// the answer and the refusal, both as model messages.
pub proof fn lemma_interactive_command_refused(
    before: AppView,
    text: Seq<char>,
    tool: ToolCallView,
    dangerous: Seq<Seq<char>>,
    interactive: Seq<Seq<char>>,
    after: AppView,
)
    requires
        awaits_model(before),
        parse_spec(text) == Some(tool),
        tool.tool == "run_cmd"@,
        any_matches(interactive, trim_spec(tool.command)),
        response_step(before, Ok(text), dangerous, interactive, after),
    ensures
        after.state == AppState::Input,
        after.messages == before.messages.push(model_message(text)).push(
            model_message(interactive_refusal(tool.command)),
        ),
        after.current_tool is None,
        after.action == before.action,
        after.running_task is None,
{
}

/// A model call that fails is recorded and ends the turn: the agent is
/// back at typing with the error set, and the conversation is as it was.
pub proof fn lemma_model_error_recorded(
    before: AppView,
    error: AIErrorView,
    dangerous: Seq<Seq<char>>,
    interactive: Seq<Seq<char>>,
    after: AppView,
)
    requires
        awaits_model(before),
        response_step(before, Err(error), dangerous, interactive, after),
    ensures
        after.state == AppState::Input,
        after.error_message == Some(error_text(error)),
        after.messages == before.messages,
        after.running_task is None,
{
}

/// Escape while an action is under review cancels it: the agent is back
/// at typing, the action buffer is empty, nothing is staged or flagged any
/// more, and the conversation ends with the notice of the cancellation.
pub proof fn lemma_escape_cancels_review(
    before: AppView,
    key: KeyEvent,
    client_ready: bool,
    after: AppView,
    action: ActionView,
)
    requires
        before.state == AppState::ReviewAction,
        key.code == KeyCode::Esc,
        !key.is_interrupt(),
        key_event_step(before, key, client_ready, after, action),
    ensures
        after.state == AppState::Input,
        is_cleared(after.action),
        !after.dangerous_command_detected,
        after.current_tool is None,
        after.messages == before.messages.push(notice(cancelled_notice())),
        after.input == before.input,
{
}

/// The result of a tool is fed back: the observation is appended to the
/// conversation as a user message, and with a client the model is called
/// on the conversation that ends with it.
pub proof fn lemma_result_observed(
    before: AppView,
    result: CommandResultView,
    after: AppView,
    action: ActionView,
)
    requires
        before.state == AppState::Executing,
        before.running_task == Some(TaskKind::Execution),
        complete_step(before, result, true, after, action),
    ensures
        after.state == AppState::Finalizing,
        after.messages == before.messages.push(
            user_message(observation(before.current_tool, result)),
        ),
        action == (ActionView::CallModel { messages: after.messages }),
        after.running_task == Some(TaskKind::ModelCall),
{
}

/// Enter on a query starts a turn: the query is appended to the
/// conversation as a user message, the input buffer is cleared, and with
/// a client the model is called on the conversation that ends with the
/// query.
pub proof fn lemma_query_calls_model(
    before: AppView,
    key: KeyEvent,
    after: AppView,
    action: ActionView,
)
    requires
        before.state == AppState::Input,
        key.code == KeyCode::Enter,
        !key.is_interrupt(),
        buffer_text(before.input).len() > 0,
        buffer_text(before.input)[0] != '/',
        key_event_step(before, key, true, after, action),
    ensures
        after.state == AppState::Thinking,
        after.messages == before.messages.push(user_message(buffer_text(before.input))),
        is_cleared(after.input),
        action == (ActionView::CallModel { messages: after.messages }),
        after.running_task == Some(TaskKind::ModelCall),
{
}

/// Enter on a reviewed action runs it: outside safe mode, the text of the
/// action buffer goes onto the staged tool call, which is handed out to
/// be run.
pub proof fn lemma_confirmed_action_runs(
    before: AppView,
    key: KeyEvent,
    tool: ToolCallView,
    client_ready: bool,
    after: AppView,
    action: ActionView,
)
    requires
        before.state == AppState::ReviewAction,
        key.code == KeyCode::Enter,
        !key.is_interrupt(),
        before.current_tool == Some(tool),
        !before.config.safe_mode,
        buffer_text(before.action).len() > 0,
        key_event_step(before, key, client_ready, after, action),
    ensures
        after.state == AppState::Executing,
        after.current_tool == Some(committed(tool, buffer_text(before.action))),
        action == (ActionView::RunTool { tool: committed(tool, buffer_text(before.action)) }),
        after.running_task == Some(TaskKind::Execution),
        after.messages == before.messages,
{
}

} // verus!
