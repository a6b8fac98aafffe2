//! What the agent's loop consumes and what it asks its driver to do.

use vstd::prelude::*;
use crate::ai_client::{AIError, AIErrorView};
use crate::app::{optional_text, Request, RequestView};
use crate::executor::{CommandResult, CommandResultView};
use crate::key::KeyEvent;
use crate::message::{conversation, Message, MessageView};
use crate::text::texts;
use crate::tool_call::{ToolCall, ToolCallView};

verus! {

/// Something that happened and that the loop has to act on.
#[derive(Debug, PartialEq, Eq)]
pub enum Event {
    /// A key was pressed.
    Key(KeyEvent),
    /// A tick of the animation clock.
    Tick,
    /// The terminal changed its size.
    Resize(u16, u16),
    /// The model call ended, with its text or an error.
    ApiResponse(Result<String, AIError>),
    /// The tool ran to its end.
    CommandComplete(CommandResult),
    /// The tool was cancelled.
    CommandCancelled,
    /// The list of models arrived, or an error; with the model that the
    /// user asked to switch to, if any.
    ModelsResponse(Result<Vec<String>, AIError>, Option<String>),
}

/// An event as plain values.
pub enum EventView {
    Key(KeyEvent),
    Tick,
    Resize(u16, u16),
    ApiResponse(Result<Seq<char>, AIErrorView>),
    CommandComplete(CommandResultView),
    CommandCancelled,
    ModelsResponse(Result<Seq<Seq<char>>, AIErrorView>, Option<Seq<char>>),
}

impl View for Event {
    type V = EventView;

    open spec fn view(&self) -> EventView {
        match self {
            Event::Key(key) => EventView::Key(*key),
            Event::Tick => EventView::Tick,
            Event::Resize(w, h) => EventView::Resize(*w, *h),
            Event::ApiResponse(response) => EventView::ApiResponse(
                match response {
                    Ok(text) => Ok(text@),
                    Err(error) => Err(error@),
                },
            ),
            Event::CommandComplete(result) => EventView::CommandComplete(result@),
            Event::CommandCancelled => EventView::CommandCancelled,
            Event::ModelsResponse(models, wanted) => EventView::ModelsResponse(
                match models {
                    Ok(names) => Ok(texts(names@)),
                    Err(error) => Err(error@),
                },
                optional_text(*wanted),
            ),
        }
    }
}

/// What the driver of the loop has to do after a step.
#[derive(Debug, PartialEq, Eq)]
pub enum Action {
    /// Nothing.
    Wait,
    /// Call the model with this copy of the conversation, and hand its
    /// answer back as an `ApiResponse` event.
    CallModel { messages: Vec<Message> },
    /// Run this tool call, and hand its result back as a
    /// `CommandComplete` event.
    RunTool { tool: ToolCall },
    /// Abort the background task.
    AbortTask,
    /// Carry out the request and hand its outcome back.
    Perform(Request),
}

/// An action as plain values.
pub enum ActionView {
    Wait,
    CallModel { messages: Seq<MessageView> },
    RunTool { tool: ToolCallView },
    AbortTask,
    Perform(RequestView),
}

impl View for Action {
    type V = ActionView;

    open spec fn view(&self) -> ActionView {
        match self {
            Action::Wait => ActionView::Wait,
            Action::CallModel { messages } => ActionView::CallModel {
                messages: conversation(messages@),
            },
            Action::RunTool { tool } => ActionView::RunTool { tool: tool@ },
            Action::AbortTask => ActionView::AbortTask,
            Action::Perform(request) => ActionView::Perform(request@),
        }
    }
}

} // verus!
