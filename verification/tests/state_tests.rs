use sabi::state::{is_valid_transition, transition, AppState, StateEvent, TransitionResult};

#[test]
fn test_default_state_is_input() {
    assert_eq!(AppState::default(), AppState::Input);
}

#[test]
fn test_all_states_returns_all_variants() {
    let states = AppState::all_states();
    assert_eq!(states.len(), 6);
    assert!(states.contains(&AppState::Input));
    assert!(states.contains(&AppState::Thinking));
    assert!(states.contains(&AppState::ReviewAction));
    assert!(states.contains(&AppState::Executing));
    assert!(states.contains(&AppState::Finalizing));
    assert!(states.contains(&AppState::Done));
}

#[test]
fn test_blocks_input() {
    assert!(!AppState::Input.blocks_input());
    assert!(AppState::Thinking.blocks_input());
    assert!(!AppState::ReviewAction.blocks_input());
    assert!(AppState::Executing.blocks_input());
    assert!(AppState::Finalizing.blocks_input());
    assert!(!AppState::Done.blocks_input());
}

#[test]
fn test_input_empty_submit_ignored() {
    let result = transition(AppState::Input, StateEvent::SubmitInput { is_empty: true });
    assert_eq!(result, TransitionResult::Ignored);
}

#[test]
fn test_input_valid_submit_to_thinking() {
    let result = transition(AppState::Input, StateEvent::SubmitInput { is_empty: false });
    assert_eq!(result, TransitionResult::Success(AppState::Thinking));
}

#[test]
fn test_input_escape_to_done() {
    let result = transition(AppState::Input, StateEvent::Escape);
    assert_eq!(result, TransitionResult::Success(AppState::Done));
}

#[test]
fn test_thinking_tool_call_to_review() {
    let result = transition(AppState::Thinking, StateEvent::ToolCallReceived);
    assert_eq!(result, TransitionResult::Success(AppState::ReviewAction));
}

#[test]
fn test_thinking_text_response_to_input() {
    let result = transition(AppState::Thinking, StateEvent::TextResponseReceived);
    assert_eq!(result, TransitionResult::Success(AppState::Input));
}

#[test]
fn test_thinking_api_error_to_input() {
    let result = transition(AppState::Thinking, StateEvent::ApiError);
    assert_eq!(result, TransitionResult::Success(AppState::Input));
}

#[test]
fn test_review_confirm_to_executing() {
    let result = transition(AppState::ReviewAction, StateEvent::ConfirmCommand);
    assert_eq!(result, TransitionResult::Success(AppState::Executing));
}

#[test]
fn test_review_cancel_to_input() {
    let result = transition(AppState::ReviewAction, StateEvent::CancelCommand);
    assert_eq!(result, TransitionResult::Success(AppState::Input));
}

#[test]
fn test_executing_complete_to_finalizing() {
    let result = transition(AppState::Executing, StateEvent::CommandComplete);
    assert_eq!(result, TransitionResult::Success(AppState::Finalizing));
}

#[test]
fn test_finalizing_analysis_complete_to_input() {
    let result = transition(AppState::Finalizing, StateEvent::AnalysisComplete);
    assert_eq!(result, TransitionResult::Success(AppState::Input));
}

#[test]
fn test_invalid_transition_returns_error() {
    let result = transition(
        AppState::Executing,
        StateEvent::SubmitInput { is_empty: false },
    );
    assert!(matches!(result, TransitionResult::Error(_)));
}

fn all_events() -> Vec<StateEvent> {
    vec![
        StateEvent::SubmitInput { is_empty: true },
        StateEvent::SubmitInput { is_empty: false },
        StateEvent::Escape,
        StateEvent::ToolCallReceived,
        StateEvent::TextResponseReceived,
        StateEvent::ApiError,
        StateEvent::ConfirmCommand,
        StateEvent::CancelCommand,
        StateEvent::CommandComplete,
        StateEvent::AnalysisComplete,
        StateEvent::Continue,
    ]
}

#[test]
fn test_every_pair_has_one_of_three_outcomes() {
    let mut successes = 0;
    let mut ignored = 0;
    let mut errors = 0;
    for state in AppState::all_states() {
        for event in all_events() {
            match transition(state, event) {
                TransitionResult::Success(next) => {
                    assert!(AppState::all_states().contains(&next));
                    assert!(is_valid_transition(state, next));
                    successes += 1;
                }
                TransitionResult::Ignored => ignored += 1,
                TransitionResult::Error(_) => errors += 1,
            }
        }
    }
    assert_eq!(successes, 14);
    assert_eq!(ignored, 1);
    assert_eq!(errors, 66 - 15);
}

#[test]
fn test_invalid_transition_text_names_state_and_event() {
    let result = transition(AppState::Executing, StateEvent::SubmitInput { is_empty: false });
    assert_eq!(
        result,
        TransitionResult::Error(
            "Invalid transition: Executing with event SubmitInput { is_empty: false }".to_string()
        )
    );
    let result = transition(AppState::Done, StateEvent::Escape);
    assert_eq!(
        result,
        TransitionResult::Error("Invalid transition: Done with event Escape".to_string())
    );
}

#[test]
fn test_remaining_table_rows() {
    assert_eq!(
        transition(AppState::ReviewAction, StateEvent::Escape),
        TransitionResult::Success(AppState::Input)
    );
    assert_eq!(
        transition(AppState::Finalizing, StateEvent::ToolCallReceived),
        TransitionResult::Success(AppState::ReviewAction)
    );
    assert_eq!(
        transition(AppState::Finalizing, StateEvent::TextResponseReceived),
        TransitionResult::Success(AppState::Input)
    );
    assert_eq!(
        transition(AppState::Finalizing, StateEvent::ApiError),
        TransitionResult::Success(AppState::Input)
    );
    assert_eq!(
        transition(AppState::Done, StateEvent::Continue),
        TransitionResult::Success(AppState::Input)
    );
}

#[test]
fn test_shows_spinner_and_display_names() {
    assert!(AppState::Thinking.shows_spinner());
    assert!(AppState::Finalizing.shows_spinner());
    assert!(!AppState::Executing.shows_spinner());
    assert!(!AppState::Input.shows_spinner());
    assert!(!AppState::ReviewAction.shows_spinner());
    assert!(!AppState::Done.shows_spinner());
    assert_eq!(AppState::Input.display_name(), "Input");
    assert_eq!(AppState::Thinking.display_name(), "Thinking...");
    assert_eq!(AppState::ReviewAction.display_name(), "Review Command");
    assert_eq!(AppState::Executing.display_name(), "Executing...");
    assert_eq!(AppState::Finalizing.display_name(), "Analyzing...");
    assert_eq!(AppState::Done.display_name(), "Done");
}

#[test]
fn test_is_valid_transition_table() {
    assert!(is_valid_transition(AppState::Input, AppState::Input));
    assert!(is_valid_transition(AppState::Input, AppState::Thinking));
    assert!(is_valid_transition(AppState::Input, AppState::Done));
    assert!(!is_valid_transition(AppState::Input, AppState::Executing));
    assert!(!is_valid_transition(AppState::Thinking, AppState::Executing));
    assert!(!is_valid_transition(AppState::Executing, AppState::Input));
    assert!(is_valid_transition(AppState::Done, AppState::Input));
    assert!(!is_valid_transition(AppState::Done, AppState::Done));
}
