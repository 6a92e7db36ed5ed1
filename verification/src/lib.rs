//! A provider-agnostic toolkit for building AI agents.

mod agent;
pub mod auth;
pub mod conversation;
pub mod error;
pub mod json;
pub mod model;
pub mod models;
pub mod mpsc_runner;
pub mod registry_runner;
pub mod render;
pub mod runner;
pub mod text;
pub mod tool_loop;
pub mod tools;
pub mod views;

pub use agent::{empty_builder, Agent, AgentBuilder, AgentBuilderView, AgentView};
