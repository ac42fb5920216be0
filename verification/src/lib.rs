//! Editor, search, project and tooling logic of the ZZZ mobile-development IDE.
//!
//! Every module here is plain data and decisions; windows, processes, the
//! network and the disk are driven by the application around this crate.
pub mod text;
pub mod code_editor;
pub mod paths;
pub mod keyed;
pub mod file_system;
pub mod search;
pub mod walker;
pub mod project_files;
pub mod git_manager;
pub mod ai_assistant;
pub mod app_creation;
pub mod android_resources;
pub mod path_set;
pub mod file_modal;
pub mod file_panel;
pub mod terminal;
pub mod emulator_panel;
pub mod lsp;
pub mod settings_modal;
pub mod downloader;
pub mod app_state;
pub mod extension;
pub mod plugin;
pub mod basic_file_system;
pub mod console_panel;
pub mod git_modal;
pub mod ide;
pub mod android_sdk;
pub mod syntax_highlighter;
