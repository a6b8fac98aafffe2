//! The six-state automaton that gates user input and tool execution.

use vstd::prelude::*;

verus! {

/// Where the conversation currently stands.
#[derive(Debug, Clone, Copy, PartialEq, Eq, Hash, Structural)]
pub enum AppState {
    /// The user is typing a query.
    Input,
    /// A model call is in flight.
    Thinking,
    /// The model proposed an action; the user may edit it.
    ReviewAction,
    /// The action is running.
    Executing,
    /// The result was sent back to the model, whose answer is awaited.
    Finalizing,
    /// The final summary is displayed.
    Done,
}

impl Default for AppState {
    fn default() -> (s: Self)
        ensures
            s == AppState::Input,
    {
        AppState::Input
    }
}

/// Outcome of offering an event to the automaton.
#[derive(Debug, PartialEq, Eq)]
pub enum TransitionResult {
    /// The automaton moved to the given state.
    Success(AppState),
    /// The event was dropped without effect.
    Ignored,
    /// The event is not accepted in the current state; the text says why.
    Error(String),
}

/// Events that drive the automaton.
#[derive(Debug, Clone, Copy, PartialEq, Eq, Structural)]
pub enum StateEvent {
    /// The user submitted the input buffer.
    SubmitInput { is_empty: bool },
    /// The user pressed escape.
    Escape,
    /// The model answered with a tool call.
    ToolCallReceived,
    /// The model answered with plain text.
    TextResponseReceived,
    /// The model call failed.
    ApiError,
    /// The user confirmed the proposed action.
    ConfirmCommand,
    /// The user rejected the proposed action.
    CancelCommand,
    /// The action finished.
    CommandComplete,
    /// The analysis of a result finished without a further model call.
    AnalysisComplete,
    /// The user continues after the summary.
    Continue,
}

/// The state that `event` leads to from `current`, or `None` where the pair
/// has no successor (the event is ignored or not accepted).
pub open spec fn next_state(current: AppState, event: StateEvent) -> Option<AppState> {
    match (current, event) {
        (AppState::Input, StateEvent::SubmitInput { is_empty: false }) => Some(AppState::Thinking),
        (AppState::Input, StateEvent::Escape) => Some(AppState::Done),
        (AppState::Thinking, StateEvent::ToolCallReceived) => Some(AppState::ReviewAction),
        (AppState::Thinking, StateEvent::TextResponseReceived) => Some(AppState::Input),
        (AppState::Thinking, StateEvent::ApiError) => Some(AppState::Input),
        (AppState::ReviewAction, StateEvent::ConfirmCommand) => Some(AppState::Executing),
        (AppState::ReviewAction, StateEvent::CancelCommand) => Some(AppState::Input),
        (AppState::ReviewAction, StateEvent::Escape) => Some(AppState::Input),
        (AppState::Executing, StateEvent::CommandComplete) => Some(AppState::Finalizing),
        (AppState::Finalizing, StateEvent::ToolCallReceived) => Some(AppState::ReviewAction),
        (AppState::Finalizing, StateEvent::TextResponseReceived) => Some(AppState::Input),
        (AppState::Finalizing, StateEvent::AnalysisComplete) => Some(AppState::Input),
        (AppState::Finalizing, StateEvent::ApiError) => Some(AppState::Input),
        (AppState::Done, StateEvent::Continue) => Some(AppState::Input),
        _ => None,
    }
}

/// Whether the pair is the one that the automaton drops silently: an empty
/// submit while the user is typing.
pub open spec fn is_ignored(current: AppState, event: StateEvent) -> bool {
    current == AppState::Input && event == (StateEvent::SubmitInput { is_empty: true })
}

/// The name of a state as it appears in diagnostics.
pub open spec fn state_debug_name(state: AppState) -> Seq<char> {
    match state {
        AppState::Input => "Input"@,
        AppState::Thinking => "Thinking"@,
        AppState::ReviewAction => "ReviewAction"@,
        AppState::Executing => "Executing"@,
        AppState::Finalizing => "Finalizing"@,
        AppState::Done => "Done"@,
    }
}

/// The name of an event as it appears in diagnostics.
pub open spec fn event_debug_name(event: StateEvent) -> Seq<char> {
    match event {
        StateEvent::SubmitInput { is_empty: true } => "SubmitInput { is_empty: true }"@,
        StateEvent::SubmitInput { is_empty: false } => "SubmitInput { is_empty: false }"@,
        StateEvent::Escape => "Escape"@,
        StateEvent::ToolCallReceived => "ToolCallReceived"@,
        StateEvent::TextResponseReceived => "TextResponseReceived"@,
        StateEvent::ApiError => "ApiError"@,
        StateEvent::ConfirmCommand => "ConfirmCommand"@,
        StateEvent::CancelCommand => "CancelCommand"@,
        StateEvent::CommandComplete => "CommandComplete"@,
        StateEvent::AnalysisComplete => "AnalysisComplete"@,
        StateEvent::Continue => "Continue"@,
    }
}

/// The text carried by the error for a pair that is not accepted.
pub open spec fn invalid_transition_text(current: AppState, event: StateEvent) -> Seq<char> {
    "Invalid transition: "@ + state_debug_name(current) + " with event "@ + event_debug_name(event)
}

impl AppState {
    /// Every state, in declaration order.
    pub fn all_states() -> (states: Vec<AppState>)
        ensures
            states@ == seq![
                AppState::Input,
                AppState::Thinking,
                AppState::ReviewAction,
                AppState::Executing,
                AppState::Finalizing,
                AppState::Done,
            ],
    {
        vec![
            AppState::Input,
            AppState::Thinking,
            AppState::ReviewAction,
            AppState::Executing,
            AppState::Finalizing,
            AppState::Done,
        ]
    }

    /// Whether a background task owns the turn in this state.
    pub open spec fn spec_blocks_input(&self) -> bool {
        *self == AppState::Thinking || *self == AppState::Finalizing || *self == AppState::Executing
    }

    /// Whether the interface animates a spinner in this state.
    pub open spec fn spec_shows_spinner(&self) -> bool {
        *self == AppState::Thinking || *self == AppState::Finalizing
    }

    /// The label shown in the status bar.
    pub open spec fn spec_display_name(&self) -> Seq<char> {
        match self {
            AppState::Input => "Input"@,
            AppState::Thinking => "Thinking..."@,
            AppState::ReviewAction => "Review Command"@,
            AppState::Executing => "Executing..."@,
            AppState::Finalizing => "Analyzing..."@,
            AppState::Done => "Done"@,
        }
    }

    /// True exactly in `Thinking`, `Executing` and `Finalizing`.
    #[verifier::when_used_as_spec(spec_blocks_input)]
    pub fn blocks_input(&self) -> (b: bool)
        ensures
            b == self.spec_blocks_input(),
    {
        match self {
            AppState::Thinking | AppState::Finalizing | AppState::Executing => true,
            _ => false,
        }
    }

    /// True exactly in `Thinking` and `Finalizing`.
    #[verifier::when_used_as_spec(spec_shows_spinner)]
    pub fn shows_spinner(&self) -> (b: bool)
        ensures
            b == self.spec_shows_spinner(),
    {
        match self {
            AppState::Thinking | AppState::Finalizing => true,
            _ => false,
        }
    }

    /// The label shown in the status bar.
    pub fn display_name(&self) -> (name: &'static str)
        ensures
            name@ == self.spec_display_name(),
    {
        match self {
            AppState::Input => "Input",
            AppState::Thinking => "Thinking...",
            AppState::ReviewAction => "Review Command",
            AppState::Executing => "Executing...",
            AppState::Finalizing => "Analyzing...",
            AppState::Done => "Done",
        }
    }

    /// The variant's name, as used in diagnostics.
    pub fn debug_name(&self) -> (name: &'static str)
        ensures
            name@ == state_debug_name(*self),
    {
        match self {
            AppState::Input => "Input",
            AppState::Thinking => "Thinking",
            AppState::ReviewAction => "ReviewAction",
            AppState::Executing => "Executing",
            AppState::Finalizing => "Finalizing",
            AppState::Done => "Done",
        }
    }
}

impl StateEvent {
    /// The event's name, as used in diagnostics.
    pub fn debug_name(&self) -> (name: &'static str)
        ensures
            name@ == event_debug_name(*self),
    {
        match self {
            StateEvent::SubmitInput { is_empty: true } => "SubmitInput { is_empty: true }",
            StateEvent::SubmitInput { is_empty: false } => "SubmitInput { is_empty: false }",
            StateEvent::Escape => "Escape",
            StateEvent::ToolCallReceived => "ToolCallReceived",
            StateEvent::TextResponseReceived => "TextResponseReceived",
            StateEvent::ApiError => "ApiError",
            StateEvent::ConfirmCommand => "ConfirmCommand",
            StateEvent::CancelCommand => "CancelCommand",
            StateEvent::CommandComplete => "CommandComplete",
            StateEvent::AnalysisComplete => "AnalysisComplete",
            StateEvent::Continue => "Continue",
        }
    }
}

/// What a transition result says, with the error text as a sequence of
/// characters.
pub enum TransitionView {
    Success(AppState),
    Ignored,
    Error(Seq<char>),
}

impl View for TransitionResult {
    type V = TransitionView;

    open spec fn view(&self) -> TransitionView {
        match self {
            TransitionResult::Success(s) => TransitionView::Success(*s),
            TransitionResult::Ignored => TransitionView::Ignored,
            TransitionResult::Error(msg) => TransitionView::Error(msg@),
        }
    }
}

impl Clone for TransitionResult {
    fn clone(&self) -> (copy: Self)
        ensures
            copy == *self,
    {
        match self {
            TransitionResult::Success(state) => TransitionResult::Success(*state),
            TransitionResult::Ignored => TransitionResult::Ignored,
            TransitionResult::Error(text) => TransitionResult::Error(text.clone()),
        }
    }
}

/// What `transition` returns, as a mathematical function of its arguments.
pub open spec fn transition_spec(current: AppState, event: StateEvent) -> TransitionView {
    match next_state(current, event) {
        Some(s) => TransitionView::Success(s),
        None => if is_ignored(current, event) {
            TransitionView::Ignored
        } else {
            TransitionView::Error(invalid_transition_text(current, event))
        },
    }
}

/// The transition function of the automaton: the successor state where the
/// table has one, `Ignored` for an empty submit while typing, and otherwise
/// an error that names the state and the event. It never changes anything.
pub fn transition(current: AppState, event: StateEvent) -> (result: TransitionResult)
    ensures
        result@ == transition_spec(current, event),
{
    match (current, event) {
        (AppState::Input, StateEvent::SubmitInput { is_empty: true }) => TransitionResult::Ignored,
        (AppState::Input, StateEvent::SubmitInput { is_empty: false }) => {
            TransitionResult::Success(AppState::Thinking)
        },
        (AppState::Input, StateEvent::Escape) => TransitionResult::Success(AppState::Done),
        (AppState::Thinking, StateEvent::ToolCallReceived) => {
            TransitionResult::Success(AppState::ReviewAction)
        },
        (AppState::Thinking, StateEvent::TextResponseReceived) => {
            TransitionResult::Success(AppState::Input)
        },
        (AppState::Thinking, StateEvent::ApiError) => TransitionResult::Success(AppState::Input),
        (AppState::ReviewAction, StateEvent::ConfirmCommand) => {
            TransitionResult::Success(AppState::Executing)
        },
        (AppState::ReviewAction, StateEvent::CancelCommand) => {
            TransitionResult::Success(AppState::Input)
        },
        (AppState::ReviewAction, StateEvent::Escape) => TransitionResult::Success(AppState::Input),
        (AppState::Executing, StateEvent::CommandComplete) => {
            TransitionResult::Success(AppState::Finalizing)
        },
        (AppState::Finalizing, StateEvent::ToolCallReceived) => {
            TransitionResult::Success(AppState::ReviewAction)
        },
        (AppState::Finalizing, StateEvent::TextResponseReceived) => {
            TransitionResult::Success(AppState::Input)
        },
        (AppState::Finalizing, StateEvent::AnalysisComplete) => {
            TransitionResult::Success(AppState::Input)
        },
        (AppState::Finalizing, StateEvent::ApiError) => TransitionResult::Success(AppState::Input),
        (AppState::Done, StateEvent::Continue) => TransitionResult::Success(AppState::Input),
        (state, event) => {
            let mut text = String::from_str("Invalid transition: ");
            text.append(state.debug_name());
            text.append(" with event ");
            text.append(event.debug_name());
            TransitionResult::Error(text)
        },
    }
}

/// The pairs of states that some event, or an ignored one, connects.
pub open spec fn valid_transition_spec(from: AppState, to: AppState) -> bool {
    match (from, to) {
        (AppState::Input, AppState::Thinking) => true,
        (AppState::Input, AppState::Done) => true,
        (AppState::Input, AppState::Input) => true,
        (AppState::Thinking, AppState::ReviewAction) => true,
        (AppState::Thinking, AppState::Input) => true,
        (AppState::ReviewAction, AppState::Executing) => true,
        (AppState::ReviewAction, AppState::Input) => true,
        (AppState::Executing, AppState::Finalizing) => true,
        (AppState::Finalizing, AppState::ReviewAction) => true,
        (AppState::Finalizing, AppState::Input) => true,
        (AppState::Done, AppState::Input) => true,
        _ => false,
    }
}

/// Whether the automaton can go from `from` to `to` in one step (staying in
/// `Input` on an empty submit counts).
pub fn is_valid_transition(from: AppState, to: AppState) -> (valid: bool)
    ensures
        valid == valid_transition_spec(from, to),
{
    match (from, to) {
        (AppState::Input, AppState::Thinking) => true,
        (AppState::Input, AppState::Done) => true,
        (AppState::Input, AppState::Input) => true,
        (AppState::Thinking, AppState::ReviewAction) => true,
        (AppState::Thinking, AppState::Input) => true,
        (AppState::ReviewAction, AppState::Executing) => true,
        (AppState::ReviewAction, AppState::Input) => true,
        (AppState::Executing, AppState::Finalizing) => true,
        (AppState::Finalizing, AppState::ReviewAction) => true,
        (AppState::Finalizing, AppState::Input) => true,
        (AppState::Done, AppState::Input) => true,
        _ => false,
    }
}

/// Every pair of state and event yields a successor among the six states,
/// or is ignored, or is an error; and the three cases exclude each other.
pub proof fn lemma_transition_total(current: AppState, event: StateEvent)
    ensures
        transition_spec(current, event) is Success || transition_spec(current, event) is Ignored
            || transition_spec(current, event) is Error,
        transition_spec(current, event) is Ignored <==> is_ignored(current, event),
        transition_spec(current, event) is Success <==> next_state(current, event) is Some,
{
}

/// A successful step connects a pair that `is_valid_transition` accepts, and
/// every accepted pair other than staying in `Input` is reached by some
/// event.
pub proof fn lemma_steps_are_valid(current: AppState, event: StateEvent)
    ensures
        next_state(current, event) matches Some(to) ==> valid_transition_spec(current, to),
{
}

/// Each pair accepted by `is_valid_transition`, apart from staying in
/// `Input`, is the step of some event.
pub proof fn lemma_valid_pairs_are_steps(from: AppState, to: AppState)
    requires
        valid_transition_spec(from, to),
        !(from == AppState::Input && to == AppState::Input),
    ensures
        exists|event: StateEvent| next_state(from, event) == Some(to),
{
    let witness = match (from, to) {
        (AppState::Input, AppState::Thinking) => StateEvent::SubmitInput { is_empty: false },
        (AppState::Input, AppState::Done) => StateEvent::Escape,
        (AppState::Thinking, AppState::ReviewAction) => StateEvent::ToolCallReceived,
        (AppState::Thinking, AppState::Input) => StateEvent::TextResponseReceived,
        (AppState::ReviewAction, AppState::Executing) => StateEvent::ConfirmCommand,
        (AppState::ReviewAction, AppState::Input) => StateEvent::CancelCommand,
        (AppState::Executing, AppState::Finalizing) => StateEvent::CommandComplete,
        (AppState::Finalizing, AppState::ReviewAction) => StateEvent::ToolCallReceived,
        (AppState::Finalizing, AppState::Input) => StateEvent::TextResponseReceived,
        _ => StateEvent::Continue,
    };
    assert(next_state(from, witness) == Some(to));
}

/// A task owns the turn in a state exactly if no key but cancel or quit is
/// accepted there; the spinner shows only in such states.
pub proof fn lemma_spinner_implies_blocked(state: AppState)
    ensures
        state.spec_shows_spinner() ==> state.spec_blocks_input(),
{
}

} // verus!
