//! Verified core of the CodexPotter terminal user interface.
//!
//! The crate holds the decisions of the interface: text rules, configuration
//! resolution, selection lists, layout arithmetic and the state machines that
//! turn backend events into transcript actions. Drawing, file access and the
//! event loops live around it.

pub mod app_event;
pub mod app_server_render;
pub mod bottom_pane;
pub mod codex_config;
pub mod codex_home;
pub mod codex_system_paths;
pub mod commentary_status;
pub mod exec_cell;
pub mod exec_human_output;
pub mod exit;
pub mod files;
pub mod geometry;
pub mod history_cell;
pub mod human_time;
pub mod interrupted_project_prompt;
pub mod key;
pub mod layout;
pub mod local_path;
pub mod path_utils;
pub mod paths;
pub mod potter_config;
pub mod potter_project_summary;
pub mod prompt_history_store;
pub mod prompt_screen;
pub mod protocol;
pub mod reasoning_status;
pub mod resume_picker_prompt;
pub mod skills_discovery;
pub mod slash_command;
pub mod startup_banner;
pub mod startup_setup;
pub mod status_line;
pub mod styled;
pub mod terminal_output;
pub mod text;
pub mod toml_doc;
pub mod transcript;
pub mod turn_loop;
pub mod ui_colors;
pub mod utf8;
pub mod verbosity;
pub mod verbosity_picker;
pub mod verbosity_prompt;
pub mod viewport;
pub mod width;
pub mod yolo_picker;
