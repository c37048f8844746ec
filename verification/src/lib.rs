//! The logic of a coding-agent harness, with contracts that Verus proves.
pub mod model;
pub mod text;
pub mod text_laws;
pub mod json;
pub mod message;
pub mod message_json;
pub mod provider;
pub mod suggest;
pub mod ledger;
pub mod ledger_laws;
pub mod hooks;
pub mod compaction;
pub mod compaction_laws;
pub mod session;
pub mod session_laws;
pub mod turn_laws;
pub mod tool_run;
pub mod order;
pub mod script;
pub mod hook_engine;
pub mod hook_laws;
pub mod anthropic;
pub mod openai;
pub mod gemini;
pub mod provider_laws;
pub mod mentions;
pub mod mention_laws;
pub mod slash;
pub mod ansi;
pub mod transcript;
pub mod input_text;
pub mod layout;
pub mod input_box;
pub mod ask;
pub mod mailbox;
pub mod ask_overlay;
pub mod history;
pub mod reporter;
pub mod tui;
pub mod session_store;
pub mod store_laws;
pub mod status_reporter;
pub mod input_watcher;
pub mod file_reporter;
pub mod schedule_mode;
pub mod bang;
pub mod config;
pub mod provider_select;
pub mod loop_mode;
pub mod cli;
pub mod setup;
pub mod start_laws;
pub mod mode_laws;
pub mod tool;
pub mod replace;
pub mod diff;
pub mod edit_file;
pub mod read_file;
pub mod write_file;
pub mod glob_tool;
pub mod ls;
pub mod skill;
pub mod manifest;
pub mod wasm;
pub mod mcp;
pub mod tool_laws;
pub mod markdown;
pub mod dialog_laws;
pub mod display_laws;
pub mod terminal_laws;
pub mod format_laws;
