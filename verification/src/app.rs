//! The agent's state and how keys, submitted input and slash commands
//! change it.

use vstd::prelude::*;
use crate::config::{Config, ConfigView};
use crate::editor::{
    buffer_lines, buffer_text, holds_text, is_cleared, lines_after_keys, pressed, BufferView,
    EditBuffer,
};
use crate::key::{KeyCode, KeyEvent};
use crate::message::{
    clone_messages, conversation, non_system, plain_message, Message, MessageRole, MessageView,
};
use crate::state::{next_state, transition, transition_spec, AppState, StateEvent, TransitionResult, TransitionView};
use crate::text::{
    byte_count, byte_len, chars_of, has_prefix, index_of, index_of_char, is_blank, join, join_spec,
    lemma_trim_blank, lemma_trim_idempotent, lowercase_of, occurs_at_index, same_text,
    string_of_range, texts, to_lowercase, trim, trim_spec,
};
use crate::tool_call::{ToolCall, ToolCallView};

verus! {

/// Which kind of background task owns the turn.
#[derive(Debug, Clone, Copy, PartialEq, Eq, Structural)]
pub enum TaskKind {
    /// A call of the model.
    ModelCall,
    /// The execution of a tool.
    Execution,
}

/// Work that a slash command leaves to whoever can reach the session
/// store or the model transport.
#[derive(Debug, PartialEq, Eq)]
pub enum Request {
    /// Store the given conversation under the given session id.
    SaveSession { id: String, messages: Vec<Message> },
    /// List the stored sessions.
    ListSessions,
    /// Store the current session, then load the named one.
    SwitchSession { id: String },
    /// Remove the named session.
    DeleteSession { id: String },
    /// Fetch the list of models; switch to the one named, if any.
    FetchModels { model: Option<String> },
}

/// A request as plain values.
pub enum RequestView {
    SaveSession { id: Seq<char>, messages: Seq<MessageView> },
    ListSessions,
    SwitchSession { id: Seq<char> },
    DeleteSession { id: Seq<char> },
    FetchModels { model: Option<Seq<char>> },
}

impl View for Request {
    type V = RequestView;

    open spec fn view(&self) -> RequestView {
        match self {
            Request::SaveSession { id, messages } => RequestView::SaveSession {
                id: id@,
                messages: conversation(messages@),
            },
            Request::ListSessions => RequestView::ListSessions,
            Request::SwitchSession { id } => RequestView::SwitchSession { id: id@ },
            Request::DeleteSession { id } => RequestView::DeleteSession { id: id@ },
            Request::FetchModels { model } => RequestView::FetchModels {
                model: match model {
                    Some(name) => Some(name@),
                    None => None,
                },
            },
        }
    }
}

/// What handling a key press came to.
#[derive(Debug, PartialEq, Eq)]
pub enum InputResult {
    /// The key was taken (a character typed, a line scrolled).
    Handled,
    /// The key had no effect.
    Ignored,
    /// The key was refused because a background task owns the turn.
    Blocked,
    /// The user submitted a query; the model is to be called.
    SubmitQuery,
    /// The user confirmed the proposed action; it is to be executed.
    ExecuteCommand,
    /// The user cancelled.
    CancelCommand,
    /// The user continues after the summary.
    Continue,
    /// The user asked for the list of models, or to switch to one.
    FetchModels(Option<String>),
    /// The user wants to quit.
    Quit,
}

/// What submitting the input buffer came to.
#[derive(Debug, PartialEq, Eq)]
pub enum SubmitResult {
    /// The buffer was blank; nothing happened.
    Empty,
    /// A query was appended to the conversation.
    Query,
    /// A slash command was handled.
    Handled,
    /// The user asked to quit.
    Quit,
}

/// The agent's state: the automaton's state, the conversation, the two
/// edit buffers, the staged action, and the flags that the interface
/// shows.
pub struct App {
    /// The automaton's state.
    pub state: AppState,
    /// The buffer in which the user types a query.
    pub input_textarea: EditBuffer,
    /// The buffer in which the user reviews a proposed action.
    pub action_textarea: EditBuffer,
    /// The conversation.
    pub messages: Vec<Message>,
    /// The text that the user confirmed for execution.
    pub current_command: Option<String>,
    /// The action that is staged or running.
    pub current_tool: Option<ToolCall>,
    /// The output of the last execution, as shown to the model.
    pub execution_output: String,
    /// The last error, until an action succeeds.
    pub error_message: Option<String>,
    /// The frame of the spinner animation.
    pub spinner_frame: usize,
    /// Whether the loop is to end.
    pub should_quit: bool,
    /// How far the chat history is scrolled back.
    pub scroll_offset: u16,
    /// Whether the staged action was flagged as dangerous.
    pub dangerous_command_detected: bool,
    /// The options.
    pub config: Config,
    /// Whether a Python interpreter was found at startup.
    pub python_available: bool,
    /// The background task that owns the turn, if any.
    pub running_task: Option<TaskKind>,
    /// The id of the session that the conversation belongs to.
    pub current_session_id: String,
    /// Work left to whoever drives the agent, if any.
    pub pending_request: Option<Request>,
}

/// The agent's state as plain values; each buffer by what was loaded into
/// it and the keys that it was handed since.
pub struct AppView {
    pub state: AppState,
    pub input: BufferView,
    pub action: BufferView,
    pub messages: Seq<MessageView>,
    pub current_command: Option<Seq<char>>,
    pub current_tool: Option<ToolCallView>,
    pub execution_output: Seq<char>,
    pub error_message: Option<Seq<char>>,
    pub spinner_frame: usize,
    pub should_quit: bool,
    pub scroll_offset: u16,
    pub dangerous_command_detected: bool,
    pub config: ConfigView,
    pub python_available: bool,
    pub running_task: Option<TaskKind>,
    pub current_session_id: Seq<char>,
    pub pending_request: Option<RequestView>,
}

impl View for App {
    type V = AppView;

    open spec fn view(&self) -> AppView {
        AppView {
            state: self.state,
            input: self.input_textarea@,
            action: self.action_textarea@,
            messages: conversation(self.messages@),
            current_command: match self.current_command {
                Some(text) => Some(text@),
                None => None,
            },
            current_tool: match self.current_tool {
                Some(tool) => Some(tool@),
                None => None,
            },
            execution_output: self.execution_output@,
            error_message: match self.error_message {
                Some(text) => Some(text@),
                None => None,
            },
            spinner_frame: self.spinner_frame,
            should_quit: self.should_quit,
            scroll_offset: self.scroll_offset,
            dangerous_command_detected: self.dangerous_command_detected,
            config: self.config@,
            python_available: self.python_available,
            running_task: self.running_task,
            current_session_id: self.current_session_id@,
            pending_request: match self.pending_request {
                Some(request) => Some(request@),
                None => None,
            },
        }
    }
}

/// `chrono::Local::now` and `DateTime::format`: the local time in the
/// form of a session id. Which time it is depends on the clock; whatever
/// the clock says, the text has the form that the format gives it: the
/// year in four digits (with a sign, and more digits where needed, before
/// year 0 and after year 9999), then month, day, an underscore, hour,
/// minute and second in two digits each, within their ranges.
#[verifier::external_body]
fn local_time(format: &str) -> (stamp: String)
    requires
        format@ == stamp_format(),
    ensures
        is_session_stamp(stamp@),
{
    chrono::Local::now().format(format).to_string()
}

fn session_stamp() -> (stamp: String)
    ensures
        is_session_stamp(stamp@),
{
    local_time("%Y%m%d_%H%M%S")
}

/// The form of a session id: year, month, day, an underscore, and hour,
/// minute, second.
pub open spec fn stamp_format() -> Seq<char> {
    "%Y%m%d_%H%M%S"@
}

/// Whether a character is a decimal digit.
pub open spec fn is_digit(c: char) -> bool {
    '0' <= c <= '9'
}

/// Whether the two characters at `at` are digits that make a number from
/// `low` to `high`.
pub open spec fn is_two_digit_number(s: Seq<char>, at: int, low: int, high: int) -> bool {
    &&& is_digit(s[at])
    &&& is_digit(s[at + 1])
    &&& low <= (s[at] as u32 - 48) * 10 + (s[at + 1] as u32 - 48) <= high
}

/// Whether a text is a year as the clock writes it: four digits, or a
/// sign and four digits or more for a year before 0 or after 9999.
pub open spec fn is_year_text(s: Seq<char>) -> bool {
    if s.len() > 0 && (s[0] == '+' || s[0] == '-') {
        s.len() >= 5 && forall|i: int| 1 <= i < s.len() ==> is_digit(#[trigger] s[i])
    } else {
        s.len() == 4 && forall|i: int| 0 <= i < s.len() ==> is_digit(#[trigger] s[i])
    }
}

/// Whether a text has the form of a session id: the year, the month (01
/// to 12), the day (01 to 31), an underscore, the hour (00 to 23), the
/// minute (00 to 59) and the second (00 to 60, for a leap second).
pub open spec fn is_session_stamp(s: Seq<char>) -> bool {
    let year = s.len() - 11;
    &&& s.len() >= 15
    &&& is_year_text(s.take(year))
    &&& is_two_digit_number(s, year, 1, 12)
    &&& is_two_digit_number(s, year + 2, 1, 31)
    &&& s[year + 4] == '_'
    &&& is_two_digit_number(s, year + 5, 0, 23)
    &&& is_two_digit_number(s, year + 7, 0, 59)
    &&& is_two_digit_number(s, year + 9, 0, 60)
}

/// The character of a spinner frame.
pub open spec fn spinner_glyph(frame: int) -> char {
    if frame == 0 {
        '⠋'
    } else if frame == 1 {
        '⠙'
    } else if frame == 2 {
        '⠹'
    } else if frame == 3 {
        '⠸'
    } else if frame == 4 {
        '⠼'
    } else if frame == 5 {
        '⠴'
    } else if frame == 6 {
        '⠦'
    } else if frame == 7 {
        '⠧'
    } else if frame == 8 {
        '⠇'
    } else {
        '⠏'
    }
}

impl App {
    /// The agent at startup: typing a query, with an empty conversation,
    /// empty buffers, nothing staged, no task, no error, and the session
    /// id taken from the clock.
    pub fn new(config: Config, python_available: bool) -> (app: Self)
        ensures
            app@.state == AppState::Input,
            is_cleared(app@.input),
            is_cleared(app@.action),
            app@.messages.len() == 0,
            app@.current_command is None,
            app@.current_tool is None,
            app@.execution_output.len() == 0,
            app@.error_message is None,
            app@.spinner_frame == 0,
            !app@.should_quit,
            app@.scroll_offset == 0,
            !app@.dangerous_command_detected,
            app@.config == config@,
            app@.python_available == python_available,
            app@.running_task is None,
            app@.pending_request is None,
            is_session_stamp(app@.current_session_id),
    {
        App {
            state: AppState::Input,
            input_textarea: EditBuffer::new(),
            action_textarea: EditBuffer::new(),
            messages: Vec::new(),
            current_command: None,
            current_tool: None,
            execution_output: String::new(),
            error_message: None,
            spinner_frame: 0,
            should_quit: false,
            scroll_offset: 0,
            dangerous_command_detected: false,
            config,
            python_available,
            running_task: None,
            current_session_id: session_stamp(),
            pending_request: None,
        }
    }

    /// Gives up the background task, if there is one. Whoever drives the
    /// agent aborts the task itself.
    pub fn cancel_task(&mut self)
        ensures
            final(self)@ == (AppView { running_task: None, ..old(self)@ }),
    {
        self.running_task = None;
    }

    /// The text of the input buffer, trimmed.
    pub fn get_input_text(&self) -> (text: String)
        ensures
            text@ == buffer_text(self@.input),
    {
        self.input_textarea.text()
    }

    /// The text of the action buffer, trimmed.
    pub fn get_action_text(&self) -> (text: String)
        ensures
            text@ == buffer_text(self@.action),
    {
        self.action_textarea.text()
    }

    /// Whether the input buffer is blank.
    pub fn is_input_empty(&self) -> (empty: bool)
        ensures
            empty == (buffer_text(self@.input).len() == 0),
    {
        self.get_input_text().as_str().is_empty()
    }

    /// Replaces the input buffer by an empty one.
    pub fn clear_input(&mut self)
        ensures
            is_cleared(final(self)@.input),
            final(self)@ == (AppView { input: final(self)@.input, ..old(self)@ }),
    {
        self.input_textarea = EditBuffer::new();
    }

    /// Replaces the action buffer by an empty one and clears the danger
    /// flag.
    pub fn clear_action(&mut self)
        ensures
            is_cleared(final(self)@.action),
            final(self)@ == (AppView {
                action: final(self)@.action,
                dangerous_command_detected: false,
                ..old(self)@
            }),
    {
        self.action_textarea = EditBuffer::new();
        self.dangerous_command_detected = false;
    }

    /// Loads `text` into the input buffer, replacing what it held.
    pub fn set_input_text(&mut self, text: &str)
        ensures
            holds_text(final(self)@.input, text@),
            final(self)@ == (AppView { input: final(self)@.input, ..old(self)@ }),
    {
        self.input_textarea = EditBuffer::with_text(text);
    }

    /// Loads `text` into the action buffer, replacing what it held.
    pub fn set_action_text(&mut self, text: &str)
        ensures
            holds_text(final(self)@.action, text@),
            final(self)@ == (AppView { action: final(self)@.action, ..old(self)@ }),
    {
        self.action_textarea = EditBuffer::with_text(text);
    }

    /// Appends a message to the conversation and scrolls to the end.
    pub fn add_message(&mut self, message: Message)
        ensures
            final(self)@ == (AppView {
                messages: old(self)@.messages.push(message@),
                scroll_offset: 0,
                ..old(self)@
            }),
    {
        self.messages.push(message);
        self.scroll_offset = 0;
        assert(conversation(self.messages@) == conversation(old(self).messages@).push(message@));
    }

    /// Forgets the last error.
    pub fn clear_error(&mut self)
        ensures
            final(self)@ == (AppView { error_message: None, ..old(self)@ }),
    {
        self.error_message = None;
    }

    /// Records an error.
    pub fn set_error(&mut self, error: &str)
        ensures
            final(self)@ == (AppView { error_message: Some(error@), ..old(self)@ }),
    {
        self.error_message = Some(error.to_owned());
    }

    /// Offers an event to the automaton. Where the table has a successor,
    /// the state moves there and the result is true. An ignored event
    /// changes nothing; an event that is not accepted leaves the state
    /// and records the error. In both cases the result is false.
    pub fn transition(&mut self, event: StateEvent) -> (moved: bool)
        ensures
            moved == (next_state(old(self)@.state, event) is Some),
            final(self)@ == (match transition_spec(old(self)@.state, event) {
                TransitionView::Success(next) => AppView { state: next, ..old(self)@ },
                TransitionView::Ignored => old(self)@,
                TransitionView::Error(text) => AppView { error_message: Some(text), ..old(self)@ },
            }),
    {
        match transition(self.state, event) {
            TransitionResult::Success(next) => {
                self.state = next;
                true
            },
            TransitionResult::Ignored => false,
            TransitionResult::Error(text) => {
                self.error_message = Some(text);
                false
            },
        }
    }

    /// Advances the spinner by one frame, around its ten frames.
    pub fn tick_spinner(&mut self)
        ensures
            final(self)@ == (AppView {
                spinner_frame: ((old(self)@.spinner_frame + 1) % 10) as usize,
                ..old(self)@
            }),
    {
        self.spinner_frame = (self.spinner_frame % 10 + 1) % 10;
    }

    /// The character of the current spinner frame.
    pub fn spinner_char(&self) -> (glyph: char)
        ensures
            glyph == spinner_glyph(self@.spinner_frame as int % 10),
    {
        let frame = self.spinner_frame % 10;
        if frame == 0 {
            '⠋'
        } else if frame == 1 {
            '⠙'
        } else if frame == 2 {
            '⠹'
        } else if frame == 3 {
            '⠸'
        } else if frame == 4 {
            '⠼'
        } else if frame == 5 {
            '⠴'
        } else if frame == 6 {
            '⠦'
        } else if frame == 7 {
            '⠧'
        } else if frame == 8 {
            '⠇'
        } else {
            '⠏'
        }
    }

    /// Scrolls the chat history back by one line, up to the limit of the
    /// counter.
    pub fn scroll_up(&mut self)
        ensures
            final(self)@ == (AppView {
                scroll_offset: if old(self)@.scroll_offset == u16::MAX {
                    u16::MAX
                } else {
                    (old(self)@.scroll_offset + 1) as u16
                },
                ..old(self)@
            }),
    {
        if self.scroll_offset < u16::MAX {
            self.scroll_offset += 1;
        }
    }

    /// Scrolls the chat history forward by one line, down to the end.
    pub fn scroll_down(&mut self)
        ensures
            final(self)@ == (AppView {
                scroll_offset: if old(self)@.scroll_offset == 0 {
                    0u16
                } else {
                    (old(self)@.scroll_offset - 1) as u16
                },
                ..old(self)@
            }),
    {
        if self.scroll_offset > 0 {
            self.scroll_offset -= 1;
        }
    }
}

/// A slash command, as the user typed it.
#[derive(Debug, PartialEq, Eq)]
pub enum SlashCommand {
    /// `/clear`
    Clear,
    /// `/help`
    Help,
    /// `/new`
    New,
    /// `/sessions`
    Sessions,
    /// `/switch`, with the session id if one was given.
    Switch(Option<String>),
    /// `/delete`, with the session id if one was given.
    Delete(Option<String>),
    /// `/model`, with the model name if one was given.
    Model(Option<String>),
    /// `/quit`, `/exit` or `/q`
    Quit,
    /// Anything else; the text is the command word in lowercase.
    Unknown(String),
}

/// A slash command as plain values.
pub enum SlashCommandView {
    Clear,
    Help,
    New,
    Sessions,
    Switch(Option<Seq<char>>),
    Delete(Option<Seq<char>>),
    Model(Option<Seq<char>>),
    Quit,
    Unknown(Seq<char>),
}

/// The text of an optional string.
pub open spec fn optional_text(text: Option<String>) -> Option<Seq<char>> {
    match text {
        Some(t) => Some(t@),
        None => None,
    }
}

impl View for SlashCommand {
    type V = SlashCommandView;

    open spec fn view(&self) -> SlashCommandView {
        match self {
            SlashCommand::Clear => SlashCommandView::Clear,
            SlashCommand::Help => SlashCommandView::Help,
            SlashCommand::New => SlashCommandView::New,
            SlashCommand::Sessions => SlashCommandView::Sessions,
            SlashCommand::Switch(arg) => SlashCommandView::Switch(optional_text(*arg)),
            SlashCommand::Delete(arg) => SlashCommandView::Delete(optional_text(*arg)),
            SlashCommand::Model(arg) => SlashCommandView::Model(optional_text(*arg)),
            SlashCommand::Quit => SlashCommandView::Quit,
            SlashCommand::Unknown(word) => SlashCommandView::Unknown(word@),
        }
    }
}

/// The command word of an input line: what stands before its first space.
pub open spec fn command_word(input: Seq<char>) -> Seq<char> {
    input.take(index_of(input, ' '))
}

/// The argument of an input line: what follows its first space, trimmed;
/// `None` where the line has no space.
pub open spec fn command_argument(input: Seq<char>) -> Option<Seq<char>> {
    let at = index_of(input, ' ');
    if at < input.len() {
        Some(trim_spec(input.skip(at + 1)))
    } else {
        None
    }
}

/// The slash command that a command word, already in lowercase, and an
/// argument stand for: the word picks the command; the argument goes with
/// `/switch`, `/delete` and `/model`; any other word is unknown.
pub open spec fn command_for(word: Seq<char>, argument: Option<Seq<char>>) -> SlashCommandView {
    if word == "/clear"@ {
        SlashCommandView::Clear
    } else if word == "/help"@ {
        SlashCommandView::Help
    } else if word == "/new"@ {
        SlashCommandView::New
    } else if word == "/sessions"@ {
        SlashCommandView::Sessions
    } else if word == "/switch"@ {
        SlashCommandView::Switch(argument)
    } else if word == "/delete"@ {
        SlashCommandView::Delete(argument)
    } else if word == "/model"@ {
        SlashCommandView::Model(argument)
    } else if word == "/quit"@ || word == "/exit"@ || word == "/q"@ {
        SlashCommandView::Quit
    } else {
        SlashCommandView::Unknown(word)
    }
}

/// The slash command that a trimmed input line stands for: its command
/// word, in lowercase, picks the command with the line's argument.
pub open spec fn slash_command_spec(input: Seq<char>) -> SlashCommandView {
    let line = trim_spec(input);
    command_for(lowercase_of(command_word(line)), command_argument(line))
}

/// The slash command of a command word that is already in lowercase, with
/// the argument that followed it.
pub fn slash_command_for(word: &str, argument: Option<String>) -> (command: SlashCommand)
    ensures
        command@ == command_for(word@, optional_text(argument)),
{
    if same_text(word, "/clear") {
        SlashCommand::Clear
    } else if same_text(word, "/help") {
        SlashCommand::Help
    } else if same_text(word, "/new") {
        SlashCommand::New
    } else if same_text(word, "/sessions") {
        SlashCommand::Sessions
    } else if same_text(word, "/switch") {
        SlashCommand::Switch(argument)
    } else if same_text(word, "/delete") {
        SlashCommand::Delete(argument)
    } else if same_text(word, "/model") {
        SlashCommand::Model(argument)
    } else if same_text(word, "/quit") || same_text(word, "/exit") || same_text(word, "/q") {
        SlashCommand::Quit
    } else {
        SlashCommand::Unknown(String::from_str(word))
    }
}

/// Reads an input line as a slash command.
pub fn parse_slash_command(input: &str) -> (command: SlashCommand)
    ensures
        command@ == slash_command_spec(input@),
{
    let line = trim(input);
    let chars = chars_of(line.as_str());
    let at = index_of_char(chars.as_slice(), ' ', 0);
    proof {
        assert(chars@.skip(0) == chars@);
    }
    let raw_word = string_of_range(chars.as_slice(), 0, at);
    proof {
        assert(chars@.subrange(0, at as int) == chars@.take(at as int));
    }
    let word = to_lowercase(raw_word.as_str());
    let argument = if at < chars.len() {
        let rest = string_of_range(chars.as_slice(), at + 1, chars.len());
        proof {
            assert(chars@.subrange(at + 1, chars.len() as int) == chars@.skip(at + 1));
        }
        Some(trim(rest.as_str()))
    } else {
        None
    };
    slash_command_for(word.as_str(), argument)
}

/// The system messages of a conversation, in order.
pub open spec fn system_only(messages: Seq<MessageView>) -> Seq<MessageView> {
    messages.filter(|m: MessageView| m.role == MessageRole::System)
}

/// The text that `/help` shows.
pub open spec fn help_text() -> Seq<char> {
    "Available commands:\n/new - Start new session\n/sessions - List all sessions\n/switch <id> - Switch to session\n/delete <id> - Delete session\n/clear - Clear chat history\n/help - Show this help\n/quit - Exit application"@
}

/// A system notice.
pub open spec fn notice(text: Seq<char>) -> MessageView {
    plain_message(MessageRole::System, text)
}

/// The state after a slash command, given the state before it and, for
/// `/new`, the id of the new session. Commands that need the session
/// store or the model transport leave a request; the others append a
/// notice; `/quit` sets the quit flag.
pub open spec fn slash_outcome(before: AppView, command: SlashCommandView, fresh_id: Seq<char>) -> AppView {
    match command {
        SlashCommandView::Clear => AppView {
            messages: system_only(before.messages).push(notice("Chat cleared."@)),
            scroll_offset: 0,
            ..before
        },
        SlashCommandView::Help => AppView {
            messages: before.messages.push(notice(help_text())),
            scroll_offset: 0,
            ..before
        },
        SlashCommandView::New => AppView {
            messages: system_only(before.messages).push(
                notice("New session started: "@ + fresh_id),
            ),
            scroll_offset: 0,
            current_session_id: fresh_id,
            pending_request: Some(
                RequestView::SaveSession {
                    id: before.current_session_id,
                    messages: before.messages,
                },
            ),
            ..before
        },
        SlashCommandView::Sessions => AppView {
            pending_request: Some(RequestView::ListSessions),
            ..before
        },
        SlashCommandView::Switch(Some(id)) => AppView {
            pending_request: Some(RequestView::SwitchSession { id }),
            ..before
        },
        SlashCommandView::Switch(None) => AppView {
            messages: before.messages.push(notice("Usage: /switch <session_id>"@)),
            scroll_offset: 0,
            ..before
        },
        SlashCommandView::Delete(Some(id)) => if id == before.current_session_id {
            AppView {
                messages: before.messages.push(
                    notice("Cannot delete current session. Switch first."@),
                ),
                scroll_offset: 0,
                ..before
            }
        } else {
            AppView { pending_request: Some(RequestView::DeleteSession { id }), ..before }
        },
        SlashCommandView::Delete(None) => AppView {
            messages: before.messages.push(notice("Usage: /delete <session_id>"@)),
            scroll_offset: 0,
            ..before
        },
        SlashCommandView::Model(model) => AppView {
            pending_request: Some(RequestView::FetchModels { model }),
            ..before
        },
        SlashCommandView::Quit => AppView { should_quit: true, ..before },
        SlashCommandView::Unknown(word) => AppView {
            messages: before.messages.push(
                notice("Unknown command: "@ + word + ". Type /help for available commands."@),
            ),
            scroll_offset: 0,
            ..before
        },
    }
}

/// The system messages of a conversation, in order.
pub fn keep_system(messages: &Vec<Message>) -> (kept: Vec<Message>)
    ensures
        conversation(kept@) == system_only(conversation(messages@)),
{
    let ghost all = conversation(messages@);
    let ghost keep = |m: MessageView| m.role == MessageRole::System;
    let mut kept: Vec<Message> = Vec::new();
    let mut i: usize = 0;
    proof {
        assert(all.take(0) == Seq::<MessageView>::empty());
        assert(conversation(kept@) == all.take(0).filter(keep));
    }
    while i < messages.len()
        invariant
            i <= messages.len(),
            all == conversation(messages@),
            keep == |m: MessageView| m.role == MessageRole::System,
            conversation(kept@) == all.take(i as int).filter(keep),
        decreases messages.len() - i,
    {
        let ghost before = conversation(kept@);
        proof {
            reveal(Seq::filter);
            assert(all.take(i + 1).drop_last() == all.take(i as int));
            assert(all.take(i + 1).last() == messages@[i as int]@);
        }
        if messages[i].role == MessageRole::System {
            kept.push(messages[i].clone());
            proof {
                assert(conversation(kept@) == before.push(messages@[i as int]@));
            }
        }
        i += 1;
    }
    proof {
        assert(all.take(messages.len() as int) == all);
    }
    kept
}

fn system_notice(text: &str) -> (message: Message)
    ensures
        message@ == notice(text@),
{
    Message::system(text)
}

impl App {
    fn notify(&mut self, text: &str)
        ensures
            final(self)@ == (AppView {
                messages: old(self)@.messages.push(notice(text@)),
                scroll_offset: 0,
                ..old(self)@
            }),
    {
        self.add_message(system_notice(text));
    }

    /// Carries out a slash command, as `slash_outcome` defines it. The
    /// result is `Quit` for `/quit`, `/exit` and `/q`, and `Handled` for
    /// everything else.
    pub fn handle_slash_command(&mut self, input: &str) -> (result: SubmitResult)
        ensures
            final(self)@ == slash_outcome(
                old(self)@,
                slash_command_spec(input@),
                final(self)@.current_session_id,
            ),
            result == (if slash_command_spec(input@) is Quit {
                SubmitResult::Quit
            } else {
                SubmitResult::Handled
            }),
    {
        match parse_slash_command(input) {
            SlashCommand::Clear => {
                self.messages = keep_system(&self.messages);
                self.notify("Chat cleared.");
                SubmitResult::Handled
            },
            SlashCommand::Help => {
                self.notify(
                    "Available commands:\n/new - Start new session\n/sessions - List all sessions\n/switch <id> - Switch to session\n/delete <id> - Delete session\n/clear - Clear chat history\n/help - Show this help\n/quit - Exit application",
                );
                SubmitResult::Handled
            },
            SlashCommand::New => {
                self.new_session();
                let mut text = String::from_str("New session started: ");
                text.append(self.current_session_id.as_str());
                self.notify(text.as_str());
                SubmitResult::Handled
            },
            SlashCommand::Sessions => {
                self.pending_request = Some(Request::ListSessions);
                SubmitResult::Handled
            },
            SlashCommand::Switch(Some(id)) => {
                self.pending_request = Some(Request::SwitchSession { id });
                SubmitResult::Handled
            },
            SlashCommand::Switch(None) => {
                self.notify("Usage: /switch <session_id>");
                SubmitResult::Handled
            },
            SlashCommand::Delete(Some(id)) => {
                if same_text(id.as_str(), self.current_session_id.as_str()) {
                    self.notify("Cannot delete current session. Switch first.");
                } else {
                    self.pending_request = Some(Request::DeleteSession { id });
                }
                SubmitResult::Handled
            },
            SlashCommand::Delete(None) => {
                self.notify("Usage: /delete <session_id>");
                SubmitResult::Handled
            },
            SlashCommand::Model(model) => {
                self.pending_request = Some(Request::FetchModels { model });
                SubmitResult::Handled
            },
            SlashCommand::Quit => {
                self.should_quit = true;
                SubmitResult::Quit
            },
            SlashCommand::Unknown(word) => {
                let mut text = String::from_str("Unknown command: ");
                text.append(word.as_str());
                text.append(". Type /help for available commands.");
                self.notify(text.as_str());
                SubmitResult::Handled
            },
        }
    }

    /// Starts a new session: leaves a request to store the current one,
    /// keeps only the system messages, and takes a new id from the clock.
    pub fn new_session(&mut self)
        ensures
            is_session_stamp(final(self)@.current_session_id),
            final(self)@ == (AppView {
                messages: system_only(old(self)@.messages),
                current_session_id: final(self)@.current_session_id,
                pending_request: Some(
                    RequestView::SaveSession {
                        id: old(self)@.current_session_id,
                        messages: old(self)@.messages,
                    },
                ),
                ..old(self)@
            }),
    {
        self.pending_request = Some(
            Request::SaveSession {
                id: self.current_session_id.clone(),
                messages: clone_messages(&self.messages),
            },
        );
        self.messages = keep_system(&self.messages);
        self.current_session_id = session_stamp();
    }

    /// Hands over the work that a slash command left, if any.
    pub fn take_request(&mut self) -> (request: Option<Request>)
        ensures
            request == old(self).pending_request,
            final(self)@ == (AppView { pending_request: None, ..old(self)@ }),
    {
        self.pending_request.take()
    }
}

/// A key result as plain values.
pub enum InputResultView {
    Handled,
    Ignored,
    Blocked,
    SubmitQuery,
    ExecuteCommand,
    CancelCommand,
    Continue,
    FetchModels(Option<Seq<char>>),
    Quit,
}

impl View for InputResult {
    type V = InputResultView;

    open spec fn view(&self) -> InputResultView {
        match self {
            InputResult::Handled => InputResultView::Handled,
            InputResult::Ignored => InputResultView::Ignored,
            InputResult::Blocked => InputResultView::Blocked,
            InputResult::SubmitQuery => InputResultView::SubmitQuery,
            InputResult::ExecuteCommand => InputResultView::ExecuteCommand,
            InputResult::CancelCommand => InputResultView::CancelCommand,
            InputResult::Continue => InputResultView::Continue,
            InputResult::FetchModels(model) => InputResultView::FetchModels(optional_text(*model)),
            InputResult::Quit => InputResultView::Quit,
        }
    }
}

/// The state after an event was offered to the automaton: the successor
/// state where the table has one; the error recorded where the event is
/// not accepted; no change where it is ignored.
pub open spec fn offered(before: AppView, event: StateEvent) -> AppView {
    match transition_spec(before.state, event) {
        TransitionView::Success(next) => AppView { state: next, ..before },
        TransitionView::Ignored => before,
        TransitionView::Error(text) => AppView { error_message: Some(text), ..before },
    }
}

/// A user message.
pub open spec fn user_message(text: Seq<char>) -> MessageView {
    plain_message(MessageRole::User, text)
}

/// How submitting the input buffer takes the agent from `before` to
/// `after`. A blank buffer changes nothing. A text that starts with `/` is
/// a slash command: the buffer is cleared and the command carried out.
/// Any other text is a query: it is appended to the conversation as a
/// user message, the buffer is cleared, and a non-empty submit is offered
/// to the automaton.
pub open spec fn submit_step(before: AppView, after: AppView, result: SubmitResult) -> bool {
    let text = buffer_text(before.input);
    if text.len() == 0 {
        after == before && result == SubmitResult::Empty
    } else if text[0] == '/' {
        &&& is_cleared(after.input)
        &&& after == slash_outcome(
            AppView { input: after.input, ..before },
            slash_command_spec(text),
            after.current_session_id,
        )
        &&& result == (if slash_command_spec(text) is Quit {
            SubmitResult::Quit
        } else {
            SubmitResult::Handled
        })
    } else {
        &&& is_cleared(after.input)
        &&& after == offered(
            AppView {
                input: after.input,
                messages: before.messages.push(user_message(text)),
                scroll_offset: 0,
                ..before
            },
            StateEvent::SubmitInput { is_empty: false },
        )
        &&& result == SubmitResult::Query
    }
}

/// The text of the action buffer as it goes onto the staged command: for
/// Python code, the text without the heading line of the display.
pub open spec fn without_heading(text: Seq<char>) -> Seq<char> {
    if has_prefix(text, "python:\n"@) {
        text.skip(8)
    } else {
        text
    }
}

/// The staged tool call after the user confirmed `text`: it replaces the
/// command of `run_cmd` and the code of `run_python`, and leaves any
/// other tool as it is.
pub open spec fn committed(tool: ToolCallView, text: Seq<char>) -> ToolCallView {
    if tool.tool == "run_cmd"@ {
        ToolCallView { command: text, ..tool }
    } else if tool.tool == "run_python"@ {
        ToolCallView { code: without_heading(text), ..tool }
    } else {
        tool
    }
}

/// How a key press takes the agent from `before` to `after`.
///
/// Control-C sets the quit flag in every state. Otherwise the state
/// decides. While typing: Enter submits, Escape quits, the arrows scroll,
/// any other key goes to the input buffer, which is then one key
/// further. While a task owns the turn:
/// Escape quits (while thinking) or cancels (while executing or
/// finalizing), and every other key is blocked and changes nothing. While
/// reviewing: Enter confirms a buffer that is not blank, Escape cancels
/// and clears the buffer and the danger flag, any other key goes to the
/// action buffer. After the summary: Enter continues, Escape and `q`
/// quit.
pub open spec fn key_step(before: AppView, key: KeyEvent, after: AppView, result: InputResultView) -> bool {
    if key.is_interrupt() {
        after == (AppView { should_quit: true, ..before }) && result == InputResultView::Quit
    } else {
        match before.state {
            AppState::Input => match key.code {
                KeyCode::Enter => exists|submitted: AppView, outcome: SubmitResult|
                    {
                        &&& #[trigger] submit_step(before, submitted, outcome)
                        &&& match (outcome, submitted.pending_request) {
                            (
                                SubmitResult::Handled,
                                Some(RequestView::FetchModels { model }),
                            ) => after == (AppView { pending_request: None, ..submitted })
                                && result == InputResultView::FetchModels(model),
                            (SubmitResult::Query, _) => after == submitted && result
                                == InputResultView::SubmitQuery,
                            (SubmitResult::Quit, _) => after == submitted && result
                                == InputResultView::Quit,
                            _ => after == submitted && result == InputResultView::Handled,
                        }
                    },
                KeyCode::Esc => after == offered(
                    AppView { should_quit: true, ..before },
                    StateEvent::Escape,
                ) && result == InputResultView::Quit,
                KeyCode::Up => after == (AppView {
                    scroll_offset: if before.scroll_offset == u16::MAX {
                        u16::MAX
                    } else {
                        (before.scroll_offset + 1) as u16
                    },
                    ..before
                }) && result == InputResultView::Handled,
                KeyCode::Down => after == (AppView {
                    scroll_offset: if before.scroll_offset == 0 {
                        0u16
                    } else {
                        (before.scroll_offset - 1) as u16
                    },
                    ..before
                }) && result == InputResultView::Handled,
                _ => after == (AppView { input: pressed(before.input, key), ..before })
                    && result == InputResultView::Handled,
            },
            AppState::Thinking => if key.is_escape() {
                after == (AppView { should_quit: true, running_task: None, ..before }) && result
                    == InputResultView::Quit
            } else {
                after == before && result == InputResultView::Blocked
            },
            AppState::ReviewAction => match key.code {
                KeyCode::Enter => {
                    let text = buffer_text(before.action);
                    if text.len() > 0 {
                        after == offered(
                            AppView {
                                current_command: Some(text),
                                current_tool: match before.current_tool {
                                    Some(tool) => Some(committed(tool, text)),
                                    None => None,
                                },
                                ..before
                            },
                            StateEvent::ConfirmCommand,
                        ) && result == InputResultView::ExecuteCommand
                    } else {
                        after == before && result == InputResultView::Ignored
                    }
                },
                KeyCode::Esc => is_cleared(after.action) && after == offered(
                    AppView { action: after.action, dangerous_command_detected: false, ..before },
                    StateEvent::CancelCommand,
                ) && result == InputResultView::CancelCommand,
                _ => after == (AppView { action: pressed(before.action, key), ..before })
                    && result == InputResultView::Handled,
            },
            AppState::Executing | AppState::Finalizing => if key.is_escape() {
                after == (AppView { running_task: None, ..before }) && result
                    == InputResultView::CancelCommand
            } else {
                after == before && result == InputResultView::Blocked
            },
            AppState::Done => match key.code {
                KeyCode::Enter => after == offered(before, StateEvent::Continue) && result
                    == InputResultView::Continue,
                KeyCode::Esc | KeyCode::Char('q') => after == (AppView {
                    should_quit: true,
                    ..before
                }) && result == InputResultView::Quit,
                _ => after == before && result == InputResultView::Ignored,
            },
        }
    }
}

fn commit_text(tool: &ToolCall, text: &str) -> (staged: ToolCall)
    ensures
        staged@ == committed(tool@, text@),
{
    let mut staged = tool.clone();
    if tool.is_run_cmd() {
        staged.command = text.to_owned();
    } else if tool.is_run_python() {
        let chars = chars_of(text);
        let heading = chars_of("python:\n");
        proof {
            reveal_strlit("python:\n");
        }
        if occurs_at_index(chars.as_slice(), heading.as_slice(), 0) {
            staged.code = string_of_range(chars.as_slice(), 8, chars.len());
            proof {
                assert(chars@.subrange(8, chars.len() as int) == chars@.skip(8));
            }
        } else {
            staged.code = text.to_owned();
        }
    }
    staged
}

impl App {
    /// Submits the input buffer, as `submit_step` defines it.
    pub fn submit_input(&mut self) -> (result: SubmitResult)
        ensures
            submit_step(old(self)@, final(self)@, result),
    {
        let input = self.get_input_text();
        if input.as_str().is_empty() {
            return SubmitResult::Empty;
        }
        let chars = chars_of(input.as_str());
        if chars[0] == '/' {
            self.clear_input();
            return self.handle_slash_command(input.as_str());
        }
        self.add_message(Message::user(input.as_str()));
        self.clear_input();
        self.transition(StateEvent::SubmitInput { is_empty: false });
        SubmitResult::Query
    }

    fn handle_input_state(&mut self, key: KeyEvent) -> (result: InputResult)
        requires
            old(self)@.state == AppState::Input,
            !key.is_interrupt(),
        ensures
            key_step(old(self)@, key, final(self)@, result@),
    {
        match key.code {
            KeyCode::Enter => {
                let outcome = self.submit_input();
                let ghost submitted = self@;
                let result = match outcome {
                    SubmitResult::Query => InputResult::SubmitQuery,
                    SubmitResult::Quit => InputResult::Quit,
                    SubmitResult::Handled => {
                        let models = match &self.pending_request {
                            Some(Request::FetchModels { .. }) => true,
                            _ => false,
                        };
                        if models {
                            match self.pending_request.take() {
                                Some(Request::FetchModels { model }) => InputResult::FetchModels(
                                    model,
                                ),
                                _ => InputResult::Handled,
                            }
                        } else {
                            InputResult::Handled
                        }
                    },
                    SubmitResult::Empty => InputResult::Handled,
                };
                proof {
                    assert(submit_step(old(self)@, submitted, outcome));
                }
                result
            },
            KeyCode::Esc => {
                self.should_quit = true;
                self.transition(StateEvent::Escape);
                InputResult::Quit
            },
            KeyCode::Up => {
                self.scroll_up();
                InputResult::Handled
            },
            KeyCode::Down => {
                self.scroll_down();
                InputResult::Handled
            },
            _ => {
                self.input_textarea.input(key);
                InputResult::Handled
            },
        }
    }

    fn handle_thinking_state(&mut self, key: KeyEvent) -> (result: InputResult)
        requires
            old(self)@.state == AppState::Thinking,
            !key.is_interrupt(),
        ensures
            key_step(old(self)@, key, final(self)@, result@),
    {
        match key.code {
            KeyCode::Esc => {
                self.cancel_task();
                self.should_quit = true;
                InputResult::Quit
            },
            _ => InputResult::Blocked,
        }
    }

    fn handle_review_action_state(&mut self, key: KeyEvent) -> (result: InputResult)
        requires
            old(self)@.state == AppState::ReviewAction,
            !key.is_interrupt(),
        ensures
            key_step(old(self)@, key, final(self)@, result@),
    {
        match key.code {
            KeyCode::Enter => {
                let command = self.get_action_text();
                if !command.as_str().is_empty() {
                    let staged = match &self.current_tool {
                        Some(tool) => Some(commit_text(tool, command.as_str())),
                        None => None,
                    };
                    self.current_tool = staged;
                    self.current_command = Some(command);
                    self.transition(StateEvent::ConfirmCommand);
                    InputResult::ExecuteCommand
                } else {
                    InputResult::Ignored
                }
            },
            KeyCode::Esc => {
                self.clear_action();
                self.transition(StateEvent::CancelCommand);
                InputResult::CancelCommand
            },
            _ => {
                self.action_textarea.input(key);
                InputResult::Handled
            },
        }
    }

    fn handle_busy_state(&mut self, key: KeyEvent) -> (result: InputResult)
        requires
            old(self)@.state == AppState::Executing || old(self)@.state == AppState::Finalizing,
            !key.is_interrupt(),
        ensures
            key_step(old(self)@, key, final(self)@, result@),
    {
        match key.code {
            KeyCode::Esc => {
                self.cancel_task();
                InputResult::CancelCommand
            },
            _ => InputResult::Blocked,
        }
    }

    fn handle_done_state(&mut self, key: KeyEvent) -> (result: InputResult)
        requires
            old(self)@.state == AppState::Done,
            !key.is_interrupt(),
        ensures
            key_step(old(self)@, key, final(self)@, result@),
    {
        match key.code {
            KeyCode::Enter => {
                self.transition(StateEvent::Continue);
                InputResult::Continue
            },
            KeyCode::Esc | KeyCode::Char('q') => {
                self.should_quit = true;
                InputResult::Quit
            },
            _ => InputResult::Ignored,
        }
    }

    /// Handles a key press, as `key_step` defines it.
    pub fn handle_key_event(&mut self, key: KeyEvent) -> (result: InputResult)
        ensures
            key_step(old(self)@, key, final(self)@, result@),
    {
        if key.modifiers.ctrl && key.code == KeyCode::Char('c') {
            self.should_quit = true;
            return InputResult::Quit;
        }
        match self.state {
            AppState::Input => self.handle_input_state(key),
            AppState::Thinking => self.handle_thinking_state(key),
            AppState::ReviewAction => self.handle_review_action_state(key),
            AppState::Executing => self.handle_busy_state(key),
            AppState::Finalizing => self.handle_busy_state(key),
            AppState::Done => self.handle_done_state(key),
        }
    }
}

/// A stored conversation.
#[derive(Debug, PartialEq, Eq)]
pub struct Session {
    /// The session id: the local time at which it began, as
    /// `YYYYMMDD_HHMMSS`.
    pub id: String,
    /// A name for listings.
    pub name: String,
    /// When the session was stored.
    pub timestamp: String,
    /// The working directory at that time.
    pub cwd: String,
    /// The conversation, without system messages.
    pub messages: Vec<Message>,
}

/// A session as plain values.
pub struct SessionView {
    pub id: Seq<char>,
    pub name: Seq<char>,
    pub timestamp: Seq<char>,
    pub cwd: Seq<char>,
    pub messages: Seq<MessageView>,
}

impl View for Session {
    type V = SessionView;

    open spec fn view(&self) -> SessionView {
        SessionView {
            id: self.id@,
            name: self.name@,
            timestamp: self.timestamp@,
            cwd: self.cwd@,
            messages: conversation(self.messages@),
        }
    }
}

/// `chrono::Local::now` and `to_rfc3339`: the local time in RFC 3339
/// form. It depends on the clock, so nothing is promised of it.
#[verifier::external_body]
fn timestamp_now() -> (stamp: String) {
    chrono::Local::now().to_rfc3339()
}

/// The name of a session: "Session " and the time part of its id, which
/// is what follows the ninth character.
pub open spec fn session_name(id: Seq<char>) -> Seq<char> {
    "Session "@ + (if id.len() >= 9 {
        id.skip(9)
    } else {
        Seq::empty()
    })
}

/// The first user message of a conversation, if there is one.
pub open spec fn first_user(messages: Seq<MessageView>) -> Option<MessageView>
    decreases messages.len(),
{
    if messages.len() == 0 {
        None
    } else if messages[0].role == MessageRole::User {
        Some(messages[0])
    } else {
        first_user(messages.drop_first())
    }
}

/// The preview of a text: its first 40 characters, followed by "..."
/// where the text takes more than 40 bytes.
pub open spec fn shortened(text: Seq<char>) -> Seq<char> {
    let head = if text.len() > 40 {
        text.take(40)
    } else {
        text
    };
    if byte_len(text) > 40 {
        head + "..."@
    } else {
        head
    }
}

/// The preview of a conversation: that of its first user message, or
/// "(empty)" where it has none.
pub open spec fn preview_spec(messages: Seq<MessageView>) -> Seq<char> {
    match first_user(messages) {
        Some(message) => shortened(message.content),
        None => "(empty)"@,
    }
}

/// The messages of a conversation that are not system messages.
pub fn without_system(messages: &[Message]) -> (kept: Vec<Message>)
    ensures
        conversation(kept@) == non_system(conversation(messages@)),
{
    let ghost all = conversation(messages@);
    let ghost keep = |m: MessageView| m.role != MessageRole::System;
    let mut kept: Vec<Message> = Vec::new();
    let mut i: usize = 0;
    proof {
        assert(all.take(0) == Seq::<MessageView>::empty());
        assert(conversation(kept@) == all.take(0).filter(keep));
    }
    while i < messages.len()
        invariant
            i <= messages.len(),
            all == conversation(messages@),
            keep == |m: MessageView| m.role != MessageRole::System,
            conversation(kept@) == all.take(i as int).filter(keep),
        decreases messages.len() - i,
    {
        let ghost before = conversation(kept@);
        proof {
            reveal(Seq::filter);
            assert(all.take(i + 1).drop_last() == all.take(i as int));
            assert(all.take(i + 1).last() == messages@[i as int]@);
        }
        if messages[i].role != MessageRole::System {
            kept.push(messages[i].clone());
            proof {
                assert(conversation(kept@) == before.push(messages@[i as int]@));
            }
        }
        i += 1;
    }
    proof {
        assert(all.take(messages.len() as int) == all);
    }
    kept
}

impl Session {
    /// A session that begins now in the working directory `cwd`, without
    /// messages. Its id and timestamp come from the clock; the name goes
    /// by the id.
    pub fn new(cwd: &str) -> (session: Self)
        ensures
            is_session_stamp(session@.id),
            session@.name == session_name(session@.id),
            session@.cwd == cwd@,
            session@.messages.len() == 0,
    {
        let id = session_stamp();
        let chars = chars_of(id.as_str());
        let mut name = String::from_str("Session ");
        if chars.len() >= 9 {
            let time = string_of_range(chars.as_slice(), 9, chars.len());
            proof {
                assert(chars@.subrange(9, chars.len() as int) == chars@.skip(9));
            }
            name.append(time.as_str());
        } else {
            assert(name@ + Seq::<char>::empty() == name@);
        }
        Session { id, name, timestamp: timestamp_now(), cwd: cwd.to_owned(), messages: Vec::new() }
    }

    /// A session that begins now and holds the given conversation without
    /// its system messages.
    pub fn from_messages(messages: &[Message], cwd: &str) -> (session: Self)
        ensures
            is_session_stamp(session@.id),
            session@.name == session_name(session@.id),
            session@.cwd == cwd@,
            session@.messages == non_system(conversation(messages@)),
    {
        let mut session = Session::new(cwd);
        session.messages = without_system(messages);
        session
    }

    /// A line that stands for the session in listings: the beginning of
    /// its first user message.
    pub fn preview(&self) -> (text: String)
        ensures
            text@ == preview_spec(self@.messages),
    {
        let ghost all = conversation(self.messages@);
        let mut i: usize = 0;
        proof {
            assert(all.skip(0) == all);
        }
        while i < self.messages.len()
            invariant
                i <= self.messages.len(),
                all == conversation(self.messages@),
                first_user(all) == first_user(all.skip(i as int)),
            decreases self.messages.len() - i,
        {
            proof {
                assert(all.skip(i as int)[0] == self.messages@[i as int]@);
                assert(all.skip(i as int).drop_first() == all.skip(i + 1));
            }
            if self.messages[i].role == MessageRole::User {
                let chars = chars_of(self.messages[i].content.as_str());
                let count: usize = if chars.len() > 40 {
                    40
                } else {
                    chars.len()
                };
                let mut text = string_of_range(chars.as_slice(), 0, count);
                proof {
                    assert(chars@.subrange(0, count as int) == chars@.take(count as int));
                    assert(chars@.take(chars.len() as int) == chars@);
                }
                if byte_count(chars.as_slice()) > 40 {
                    text.append("...");
                }
                return text;
            }
            i += 1;
        }
        String::from_str("(empty)")
    }
}

/// The commands that completion offers, each with what it does.
pub open spec fn slash_commands_spec() -> Seq<(Seq<char>, Seq<char>)> {
    seq![
        ("/clear"@, "Clear chat history"@),
        ("/new"@, "Start new session"@),
        ("/sessions"@, "List all sessions"@),
        ("/switch"@, "Switch to session: /switch <id>"@),
        ("/delete"@, "Delete session: /delete <id>"@),
        ("/help"@, "Show available commands"@),
        ("/quit"@, "Exit application"@),
    ]
}

/// The commands that completion offers, each with what it does.
pub fn slash_commands() -> (commands: Vec<(&'static str, &'static str)>)
    ensures
        pairs_view(commands@) == slash_commands_spec(),
{
    let mut commands: Vec<(&'static str, &'static str)> = Vec::new();
    commands.push(("/clear", "Clear chat history"));
    commands.push(("/new", "Start new session"));
    commands.push(("/sessions", "List all sessions"));
    commands.push(("/switch", "Switch to session: /switch <id>"));
    commands.push(("/delete", "Delete session: /delete <id>"));
    commands.push(("/help", "Show available commands"));
    commands.push(("/quit", "Exit application"));
    assert(pairs_view(commands@) == slash_commands_spec());
    commands
}

/// Pairs of texts as plain values.
pub open spec fn pairs_view(pairs: Seq<(&'static str, &'static str)>) -> Seq<(Seq<char>, Seq<char>)> {
    Seq::new(pairs.len(), |i: int| (pairs[i].0@, pairs[i].1@))
}

/// The commands that completion offers for a typed text: none unless the
/// text starts with `/`, and then those that start with the text.
pub open spec fn suggestions_spec(typed: Seq<char>) -> Seq<(Seq<char>, Seq<char>)> {
    if typed.len() > 0 && typed[0] == '/' {
        slash_commands_spec().filter(|c: (Seq<char>, Seq<char>)| has_prefix(c.0, typed))
    } else {
        Seq::empty()
    }
}

impl App {
    /// The commands that completion offers for what the input buffer
    /// holds, its lines taken together without separator.
    pub fn get_suggestions(&self) -> (offered: Vec<(&'static str, &'static str)>)
        ensures
            pairs_view(offered@) == suggestions_spec(
                join_spec(buffer_lines(self@.input), Seq::empty()),
            ),
    {
        let lines = self.input_textarea.lines();
        let typed_text = join(&lines, "");
        proof {
            reveal_strlit("");
            assert(""@ == Seq::<char>::empty());
        }
        let typed = chars_of(typed_text.as_str());
        let mut offered: Vec<(&'static str, &'static str)> = Vec::new();
        if typed.len() == 0 || typed[0] != '/' {
            return offered;
        }
        let commands = slash_commands();
        let ghost all = slash_commands_spec();
        let ghost keep = |c: (Seq<char>, Seq<char>)| has_prefix(c.0, typed@);
        let mut i: usize = 0;
        proof {
            assert(all.take(0) == Seq::<(Seq<char>, Seq<char>)>::empty());
            assert(pairs_view(offered@) == all.take(0).filter(keep));
        }
        while i < commands.len()
            invariant
                i <= commands.len(),
                all == pairs_view(commands@),
                keep == |c: (Seq<char>, Seq<char>)| has_prefix(c.0, typed@),
                pairs_view(offered@) == all.take(i as int).filter(keep),
            decreases commands.len() - i,
        {
            let ghost before = pairs_view(offered@);
            proof {
                reveal(Seq::filter);
                assert(all.take(i + 1).drop_last() == all.take(i as int));
                assert(all.take(i + 1).last() == (commands@[i as int].0@, commands@[i as int].1@));
            }
            let word = chars_of(commands[i].0);
            if occurs_at_index(word.as_slice(), typed.as_slice(), 0) {
                offered.push(commands[i]);
                proof {
                    assert(pairs_view(offered@) == before.push(
                        (commands@[i as int].0@, commands@[i as int].1@),
                    ));
                }
            }
            i += 1;
        }
        proof {
            assert(all.take(commands.len() as int) == all);
        }
        offered
    }
}

/// The line that stands for a session in a listing: a mark that tells
/// the current session, the id, the date of the timestamp (what stands
/// before its `T`), and the preview.
pub open spec fn session_line(session: SessionView, current: Seq<char>) -> Seq<char> {
    (if session.id == current {
        "→ "@
    } else {
        "  "@
    }) + session.id + " | "@ + session.timestamp.take(index_of(session.timestamp, 'T')) + " | "@
        + preview_spec(session.messages)
}

/// The sessions of a list as plain values.
pub open spec fn sessions_view(sessions: Seq<Session>) -> Seq<SessionView> {
    Seq::new(sessions.len(), |i: int| sessions[i]@)
}

/// The notice that lists the stored sessions.
pub open spec fn sessions_notice(sessions: Seq<SessionView>, current: Seq<char>) -> Seq<char> {
    if sessions.len() == 0 {
        "No saved sessions."@
    } else {
        "Sessions:\n"@ + join_spec(
            sessions.map_values(|s: SessionView| session_line(s, current)),
            "\n"@,
        )
    }
}

impl App {
    /// What is stored of the current session: the conversation without
    /// its system messages, under the current session id.
    pub fn session_snapshot(&self, cwd: &str) -> (session: Session)
        ensures
            session@.id == self@.current_session_id,
            session@.cwd == cwd@,
            session@.messages == non_system(self@.messages),
    {
        let mut session = Session::from_messages(self.messages.as_slice(), cwd);
        session.id = self.current_session_id.clone();
        session
    }

    /// Makes a stored session the current one: its messages follow the
    /// system messages of the conversation, and its id becomes the current
    /// session id.
    pub fn load_session(&mut self, session: Session)
        ensures
            final(self)@ == (AppView {
                messages: system_only(old(self)@.messages) + session@.messages,
                current_session_id: session@.id,
                ..old(self)@
            }),
    {
        let mut messages = keep_system(&self.messages);
        let ghost kept = conversation(messages@);
        let mut loaded = session.messages;
        let ghost added = conversation(loaded@);
        messages.append(&mut loaded);
        proof {
            assert(conversation(messages@) =~= kept + added);
        }
        self.messages = messages;
        self.current_session_id = session.id;
    }

    /// Shows the stored sessions in the conversation, one per line, or
    /// says that there are none.
    pub fn sessions_listed(&mut self, sessions: &Vec<Session>)
        ensures
            final(self)@ == (AppView {
                messages: old(self)@.messages.push(
                    notice(
                        sessions_notice(sessions_view(sessions@), old(self)@.current_session_id),
                    ),
                ),
                scroll_offset: 0,
                ..old(self)@
            }),
    {
        if sessions.len() == 0 {
            self.notify("No saved sessions.");
            return ;
        }
        let ghost current = self.current_session_id@;
        let ghost all = sessions_view(sessions@).map_values(
            |s: SessionView| session_line(s, current),
        );
        let mut lines: Vec<String> = Vec::new();
        let mut i: usize = 0;
        while i < sessions.len()
            invariant
                i <= sessions.len(),
                current == self.current_session_id@,
                lines.len() == i,
                forall|k: int|
                    0 <= k < i ==> (#[trigger] lines@[k])@ == session_line(sessions@[k]@, current),
            decreases sessions.len() - i,
        {
            let session = &sessions[i];
            let mut line = if same_text(session.id.as_str(), self.current_session_id.as_str()) {
                String::from_str("→ ")
            } else {
                String::from_str("  ")
            };
            line.append(session.id.as_str());
            line.append(" | ");
            let stamp = chars_of(session.timestamp.as_str());
            let at = index_of_char(stamp.as_slice(), 'T', 0);
            let date = string_of_range(stamp.as_slice(), 0, at);
            proof {
                assert(stamp@.skip(0) == stamp@);
                assert(stamp@.subrange(0, at as int) == stamp@.take(at as int));
            }
            line.append(date.as_str());
            line.append(" | ");
            let preview = session.preview();
            line.append(preview.as_str());
            lines.push(line);
            i += 1;
        }
        proof {
            assert(texts(lines@) =~= all);
        }
        let listing = join(&lines, "\n");
        let mut text = String::from_str("Sessions:\n");
        text.append(listing.as_str());
        self.notify(text.as_str());
    }

    /// Takes note of an attempt to switch to the session `id`: a session
    /// that was read becomes the current one, and the conversation says
    /// so; a failure is reported in the conversation.
    pub fn session_switched(&mut self, id: &str, outcome: Result<Session, String>)
        ensures
            final(self)@ == (match outcome {
                Ok(session) => AppView {
                    messages: (system_only(old(self)@.messages) + session@.messages).push(
                        notice("Switched to session: "@ + id@),
                    ),
                    current_session_id: session@.id,
                    scroll_offset: 0,
                    ..old(self)@
                },
                Err(error) => AppView {
                    messages: old(self)@.messages.push(notice("Failed to switch: "@ + error@)),
                    scroll_offset: 0,
                    ..old(self)@
                },
            }),
    {
        match outcome {
            Ok(session) => {
                self.load_session(session);
                let mut text = String::from_str("Switched to session: ");
                text.append(id);
                self.notify(text.as_str());
            },
            Err(error) => {
                let mut text = String::from_str("Failed to switch: ");
                text.append(error.as_str());
                self.notify(text.as_str());
            },
        }
    }

    /// Takes note of an attempt to delete the session `id`, and reports
    /// it in the conversation.
    pub fn session_deleted(&mut self, id: &str, outcome: Result<(), String>)
        ensures
            final(self)@ == (AppView {
                messages: old(self)@.messages.push(
                    notice(
                        match outcome {
                            Ok(_) => "Deleted session: "@ + id@,
                            Err(error) => "Failed to delete: "@ + error@,
                        },
                    ),
                ),
                scroll_offset: 0,
                ..old(self)@
            }),
    {
        match outcome {
            Ok(_) => {
                let mut text = String::from_str("Deleted session: ");
                text.append(id);
                self.notify(text.as_str());
            },
            Err(error) => {
                let mut text = String::from_str("Failed to delete: ");
                text.append(error.as_str());
                self.notify(text.as_str());
            },
        }
    }
}

/// Whether `a` comes before `b` in the order of texts: character by
/// character, a text before its extensions.
pub open spec fn text_before(a: Seq<char>, b: Seq<char>) -> bool
    decreases a.len(),
{
    if b.len() == 0 {
        false
    } else if a.len() == 0 {
        true
    } else if a[0] != b[0] {
        a[0] < b[0]
    } else {
        text_before(a.drop_first(), b.drop_first())
    }
}

/// Where a session with the timestamp `stamp` goes into a list that is
/// ordered from the latest to the earliest: before the first session that
/// is earlier, and so after those of the same time.
pub open spec fn slot_for(sorted: Seq<Session>, stamp: Seq<char>) -> int
    decreases sorted.len(),
{
    if sorted.len() == 0 || text_before(sorted[0].timestamp@, stamp) {
        0
    } else {
        1 + slot_for(sorted.drop_first(), stamp)
    }
}

/// The sessions ordered from the latest to the earliest, those of the same
/// time in the order in which they came.
pub open spec fn latest_first(sessions: Seq<Session>) -> Seq<Session>
    decreases sessions.len(),
{
    if sessions.len() == 0 {
        Seq::empty()
    } else {
        let sorted = latest_first(sessions.drop_last());
        sorted.insert(slot_for(sorted, sessions.last().timestamp@), sessions.last())
    }
}

/// Whether no session of the list is earlier than one that follows it.
pub open spec fn is_latest_first(sessions: Seq<Session>) -> bool {
    forall|i: int, j: int|
        0 <= i < j < sessions.len() ==> !text_before(
            (#[trigger] sessions[i]).timestamp@,
            (#[trigger] sessions[j]).timestamp@,
        )
}

/// The order of texts is transitive.
pub proof fn lemma_text_before_transitive(a: Seq<char>, b: Seq<char>, c: Seq<char>)
    requires
        text_before(a, b),
        text_before(b, c),
    ensures
        text_before(a, c),
    decreases a.len(),
{
    if a.len() > 0 && a[0] == b[0] && b[0] == c[0] {
        lemma_text_before_transitive(a.drop_first(), b.drop_first(), c.drop_first());
    }
}

/// Of two texts, one comes before the other or they are the same; so a
/// text that is not before another is the same or comes after it.
pub proof fn lemma_text_order_total(a: Seq<char>, b: Seq<char>)
    ensures
        text_before(a, b) || text_before(b, a) || a == b,
        !(text_before(a, b) && text_before(b, a)),
    decreases a.len(),
{
    if a.len() > 0 && b.len() > 0 && a[0] == b[0] {
        lemma_text_order_total(a.drop_first(), b.drop_first());
        if a.drop_first() == b.drop_first() {
            assert(a =~= seq![a[0]] + a.drop_first());
            assert(b =~= seq![b[0]] + b.drop_first());
        }
    } else if a.len() == 0 && b.len() == 0 {
        assert(a =~= b);
    }
}

/// The slot lies within the list; no session before it is earlier than
/// the stamp, and the session at it, if any, is.
pub proof fn lemma_slot_for(sorted: Seq<Session>, stamp: Seq<char>)
    ensures
        0 <= slot_for(sorted, stamp) <= sorted.len(),
        forall|i: int|
            0 <= i < slot_for(sorted, stamp) ==> !text_before(
                (#[trigger] sorted[i]).timestamp@,
                stamp,
            ),
        slot_for(sorted, stamp) < sorted.len() ==> text_before(
            sorted[slot_for(sorted, stamp)].timestamp@,
            stamp,
        ),
    decreases sorted.len(),
{
    if sorted.len() == 0 || text_before(sorted[0].timestamp@, stamp) {
    } else {
        let rest = sorted.drop_first();
        lemma_slot_for(rest, stamp);
        assert forall|i: int| 0 <= i < slot_for(sorted, stamp) implies !text_before(
            (#[trigger] sorted[i]).timestamp@,
            stamp,
        ) by {
            if i > 0 {
                assert(sorted[i] == rest[i - 1]);
            }
        }
    }
}

/// The ordered list holds the same sessions as the list it was made of,
/// each as often, and none of them is earlier than one that follows it.
pub proof fn lemma_latest_first(sessions: Seq<Session>)
    ensures
        latest_first(sessions).to_multiset() == sessions.to_multiset(),
        latest_first(sessions).len() == sessions.len(),
        is_latest_first(latest_first(sessions)),
    decreases sessions.len(),
{
    broadcast use vstd::seq_lib::group_to_multiset_ensures;

    if sessions.len() == 0 {
        assert(latest_first(sessions) =~= sessions);
    } else {
        let rest = sessions.drop_last();
        let last = sessions.last();
        lemma_latest_first(rest);
        let sorted = latest_first(rest);
        let at = slot_for(sorted, last.timestamp@);
        lemma_slot_for(sorted, last.timestamp@);
        vstd::seq_lib::to_multiset_insert(sorted, at, last);
        assert(sessions =~= rest.push(last));
        let result = sorted.insert(at, last);
        assert forall|i: int, j: int| 0 <= i < j < result.len() implies !text_before(
            (#[trigger] result[i]).timestamp@,
            (#[trigger] result[j]).timestamp@,
        ) by {
            if j == at {
                assert(result[i] == sorted[i]);
            } else if i == at {
                assert(result[j] == sorted[j - 1]);
                assert(!text_before(sorted[at].timestamp@, sorted[j - 1].timestamp@) || j - 1
                    == at);
                lemma_text_order_total(last.timestamp@, sorted[j - 1].timestamp@);
                if text_before(last.timestamp@, sorted[j - 1].timestamp@) {
                    if j - 1 == at {
                        lemma_text_order_total(sorted[at].timestamp@, last.timestamp@);
                    } else {
                        lemma_text_order_total(sorted[at].timestamp@, sorted[j - 1].timestamp@);
                        lemma_text_before_transitive(
                            sorted[at].timestamp@,
                            last.timestamp@,
                            sorted[j - 1].timestamp@,
                        );
                    }
                }
            } else {
                let a = if i < at {
                    i
                } else {
                    i - 1
                };
                let b = if j < at {
                    j
                } else {
                    j - 1
                };
                assert(result[i] == sorted[a]);
                assert(result[j] == sorted[b]);
            }
        }
    }
}

fn comes_before(a: &str, b: &str) -> (before: bool)
    ensures
        before == text_before(a@, b@),
{
    let x = chars_of(a);
    let y = chars_of(b);
    let mut i: usize = 0;
    proof {
        assert(x@.skip(0) == x@);
        assert(y@.skip(0) == y@);
    }
    while i < x.len() && i < y.len()
        invariant
            i <= x.len(),
            i <= y.len(),
            x@ == a@,
            y@ == b@,
            text_before(x@, y@) == text_before(x@.skip(i as int), y@.skip(i as int)),
        decreases x.len() - i,
    {
        proof {
            assert(x@.skip(i as int)[0] == x@[i as int]);
            assert(y@.skip(i as int)[0] == y@[i as int]);
            assert(x@.skip(i as int).drop_first() == x@.skip(i + 1));
            assert(y@.skip(i as int).drop_first() == y@.skip(i + 1));
        }
        if x[i] != y[i] {
            return x[i] < y[i];
        }
        i += 1;
    }
    i < y.len()
}

/// The sessions ordered from the latest to the earliest by their
/// timestamps, those of the same time in the order in which they came.
pub fn sort_sessions(sessions: Vec<Session>) -> (sorted: Vec<Session>)
    ensures
        sorted@ == latest_first(sessions@),
{
    let ghost all = sessions@;
    let mut rest = sessions;
    let mut sorted: Vec<Session> = Vec::new();
    let ghost mut taken: int = 0;
    proof {
        assert(all.take(0) == Seq::<Session>::empty());
        assert(sorted@ =~= latest_first(all.take(0)));
    }
    while rest.len() > 0
        invariant
            0 <= taken <= all.len(),
            rest@ == all.skip(taken),
            sorted@ == latest_first(all.take(taken)),
        decreases rest.len(),
    {
        let session = rest.remove(0);
        proof {
            assert(session == all[taken]);
            assert(rest@ =~= all.skip(taken + 1));
            assert(all.take(taken + 1).drop_last() == all.take(taken));
            assert(all.take(taken + 1).last() == session);
        }
        let mut at: usize = 0;
        proof {
            assert(sorted@.skip(0) == sorted@);
        }
        while at < sorted.len() && !comes_before(
            sorted[at].timestamp.as_str(),
            session.timestamp.as_str(),
        )
            invariant
                at <= sorted.len(),
                slot_for(sorted@, session.timestamp@) == at + slot_for(
                    sorted@.skip(at as int),
                    session.timestamp@,
                ),
            decreases sorted.len() - at,
        {
            proof {
                assert(sorted@.skip(at as int)[0] == sorted@[at as int]);
                assert(sorted@.skip(at as int).drop_first() == sorted@.skip(at + 1));
            }
            at += 1;
        }
        proof {
            if at < sorted.len() {
                assert(sorted@.skip(at as int)[0] == sorted@[at as int]);
            }
        }
        sorted.insert(at, session);
        proof {
            taken = taken + 1;
        }
    }
    proof {
        assert(all.take(all.len() as int) == all);
    }
    sorted
}

/// What the input buffer holds, its lines joined by line feeds.
pub open spec fn typed_input(view: AppView) -> Seq<char> {
    join_spec(buffer_lines(view.input), "\n"@)
}

/// Submitting an input that holds nothing but whitespace changes nothing:
/// the agent stays at typing and the conversation is as it was.
pub proof fn lemma_empty_input_rejected(before: AppView, after: AppView, result: SubmitResult)
    requires
        before.state == AppState::Input,
        is_blank(typed_input(before)),
        submit_step(before, after, result),
    ensures
        after == before,
        after.state == AppState::Input,
        after.messages == before.messages,
        result == SubmitResult::Empty,
{
    lemma_trim_blank(typed_input(before));
}

/// Submitting an input that holds a character other than whitespace, and
/// does not start with `/` once trimmed, takes the agent from typing to
/// thinking, appends exactly one user message, whose text is the trimmed
/// input, and clears the input buffer.
pub proof fn lemma_valid_input_submitted(before: AppView, after: AppView, result: SubmitResult)
    requires
        before.state == AppState::Input,
        !is_blank(typed_input(before)),
        trim_spec(typed_input(before))[0] != '/',
        submit_step(before, after, result),
    ensures
        after.state == AppState::Thinking,
        after.messages == before.messages.push(user_message(trim_spec(typed_input(before)))),
        trim_spec(after.messages.last().content) == trim_spec(typed_input(before)),
        is_cleared(after.input),
        result == SubmitResult::Query,
{
    lemma_trim_blank(typed_input(before));
    lemma_trim_idempotent(typed_input(before));
}

/// While a background task owns the turn, a key other than Escape and
/// control-C is blocked: the agent, and with it both edit buffers, stays
/// exactly as it was.
pub proof fn lemma_input_blocked(before: AppView, key: KeyEvent, after: AppView, result: InputResultView)
    requires
        before.state.spec_blocks_input(),
        !key.is_interrupt(),
        !key.is_escape(),
        key_step(before, key, after, result),
    ensures
        after == before,
        after.input == before.input,
        after.action == before.action,
        result == InputResultView::Blocked,
{
}

/// What submitting the input buffer does is fixed by the state before it,
/// given the session id that the clock gives to a new session.
pub proof fn lemma_submit_deterministic(
    before: AppView,
    first: AppView,
    first_result: SubmitResult,
    second: AppView,
    second_result: SubmitResult,
)
    requires
        submit_step(before, first, first_result),
        submit_step(before, second, second_result),
        first.current_session_id == second.current_session_id,
    ensures
        first == second,
        first_result == second_result,
{
}

/// What a key press does is fixed by the state before it and the key,
/// given the session id that the clock gives to a new session. The
/// buffers afterwards are fixed with it: by what was loaded into each and
/// the keys that it was handed since.
pub proof fn lemma_key_deterministic(
    before: AppView,
    key: KeyEvent,
    first: AppView,
    first_result: InputResultView,
    second: AppView,
    second_result: InputResultView,
)
    requires
        key_step(before, key, first, first_result),
        key_step(before, key, second, second_result),
        first.current_session_id == second.current_session_id,
    ensures
        first == second,
        first_result == second_result,
{
    if !key.is_interrupt() && before.state == AppState::Input && key.code == KeyCode::Enter {
        let (a, x) = choose|a: AppView, x: SubmitResult| #[trigger]
            submit_step(before, a, x) && (match (x, a.pending_request) {
                (SubmitResult::Handled, Some(RequestView::FetchModels { model })) => first == (AppView {
                    pending_request: None,
                    ..a
                }) && first_result == InputResultView::FetchModels(model),
                (SubmitResult::Query, _) => first == a && first_result
                    == InputResultView::SubmitQuery,
                (SubmitResult::Quit, _) => first == a && first_result == InputResultView::Quit,
                _ => first == a && first_result == InputResultView::Handled,
            });
        let (b, y) = choose|b: AppView, y: SubmitResult| #[trigger]
            submit_step(before, b, y) && (match (y, b.pending_request) {
                (SubmitResult::Handled, Some(RequestView::FetchModels { model })) => second == (AppView {
                    pending_request: None,
                    ..b
                }) && second_result == InputResultView::FetchModels(model),
                (SubmitResult::Query, _) => second == b && second_result
                    == InputResultView::SubmitQuery,
                (SubmitResult::Quit, _) => second == b && second_result == InputResultView::Quit,
                _ => second == b && second_result == InputResultView::Handled,
            });
        lemma_submit_deterministic(before, a, x, b, y);
    }
}

/// Whether a key goes to the input buffer while the user is typing: any
/// key but control-C, Enter, Escape and the two arrows that scroll.
pub open spec fn is_typed(key: KeyEvent) -> bool {
    !key.is_interrupt() && key.code != KeyCode::Enter && key.code != KeyCode::Esc && key.code
        != KeyCode::Up && key.code != KeyCode::Down
}

/// While the user is typing, a key that goes to the input buffer changes
/// nothing else: the buffer is one key further.
pub proof fn lemma_typed_key(before: AppView, key: KeyEvent, after: AppView, result: InputResultView)
    requires
        before.state == AppState::Input,
        is_typed(key),
        key_step(before, key, after, result),
    ensures
        after == (AppView { input: pressed(before.input, key), ..before }),
        result == InputResultView::Handled,
{
}

/// Whether a key press takes the agent from `before` to `after`.
pub open spec fn key_leads(before: AppView, key: KeyEvent, after: AppView) -> bool {
    exists|result: InputResultView| #[trigger] key_step(before, key, after, result)
}

/// While the user is typing, the lines of the input buffer after a run of
/// keys that go to it are those that the text loaded into the buffer and
/// all keys since, those of the run included, make; nothing else changes.
pub proof fn lemma_typed_keys(states: Seq<AppView>, keys: Seq<KeyEvent>, upto: int)
    requires
        states.len() == keys.len() + 1,
        states[0].state == AppState::Input,
        forall|i: int| 0 <= i < keys.len() ==> is_typed(#[trigger] keys[i]),
        forall|i: int|
            0 <= i < keys.len() ==> #[trigger] key_leads(states[i], keys[i], states[i + 1]),
        0 <= upto <= keys.len(),
    ensures
        states[upto] == (AppView {
            input: BufferView {
                loaded: states[0].input.loaded,
                keys: states[0].input.keys + keys.take(upto),
            },
            ..states[0]
        }),
        buffer_lines(states[upto].input) == lines_after_keys(
            states[0].input.loaded,
            states[0].input.keys + keys.take(upto),
        ),
    decreases upto,
{
    if upto == 0 {
        assert(states[0].input.keys + keys.take(0) =~= states[0].input.keys);
    } else {
        lemma_typed_keys(states, keys, upto - 1);
        let i = upto - 1;
        assert(is_typed(keys[i]));
        assert(key_leads(states[i], keys[i], states[i + 1]));
        let result = choose|result: InputResultView| #[trigger]
            key_step(states[i], keys[i], states[i + 1], result);
        lemma_typed_key(states[i], keys[i], states[i + 1], result);
        assert(keys.take(upto) =~= keys.take(i).push(keys[i]));
        assert((states[0].input.keys + keys.take(i)).push(keys[i]) =~= states[0].input.keys
            + keys.take(upto));
    }
}

} // verus!
