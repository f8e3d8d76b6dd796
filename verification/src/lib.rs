//! Verified core of the Loom command-line interface: the terminal UI's
//! text editing, layout and state logic, and the text, orderings and
//! decisions of the CLI's subcommands.

pub mod text;
pub mod ranking;
pub mod key;
pub mod event;
pub mod composer;
pub mod viewport;
pub mod state;
pub mod status;
pub mod spinner;
pub mod history;
pub mod notification;
pub mod pane;
pub mod app;
pub mod diff;
pub mod streaming;
pub mod selection;
pub mod render;
pub mod approval;
pub mod task_cmd;
pub mod tool_cmd;
pub mod skill_usage_cmd;
pub mod subcommands;
pub mod skill_inspect;
