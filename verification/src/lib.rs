//! A verified core for a Model Context Protocol server that drives the IBM Cloud CLI.
pub mod args;
pub mod catalog;
pub mod command;
mod entries;
pub mod rpc;
pub mod text;

pub use entries::{spec_tool, tool_at};
