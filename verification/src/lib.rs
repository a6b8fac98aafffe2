//! Core of an interactive terminal agent: the conversation state machine,
//! the tool-call parser, command classification, output capture limits and
//! the event-driven turn logic, each with a machine-checked contract.

pub mod ai_client;
pub mod app;
pub mod cli;
pub mod config;
pub mod context;
pub mod editor;
pub mod event;
pub mod executor;
pub mod gemini;
pub mod key;
pub mod message;
pub mod openai;
pub mod run_loop;
pub mod state;
pub mod text;
pub mod tool_call;
pub mod ui;
