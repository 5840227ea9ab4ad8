//! Verified core logic of the Codex command-line tools: the auto-continue
//! directive parser, base-instruction guidance, configuration diagnostics,
//! line truncation for the terminal UI, Markdown event listing and the
//! remote compaction protocol.

pub mod text;
pub mod sorted_keys;

pub mod auto_continue;
pub mod base_instructions;
pub mod config_warnings;
pub mod config_report;
pub mod config_command;
pub mod line_truncation;
pub mod markdown_events;
pub mod remote_compact;
