//! A session-launcher library: it enumerates candidate work contexts
//! (directories below configured search roots, plus named sessions from a
//! configuration), classifies a selection, and plans the exact terminal
//! multiplexer commands that realise the chosen session.
//!
//! All decisions live here and are verified; reading the filesystem,
//! loading the configuration, showing the interactive picker and spawning
//! the planned commands are left to the surrounding binary.

pub mod aggregate;
pub mod config;
pub mod dispatch;
pub mod paths;
pub mod plan;
pub mod strutil;
pub mod walk;

pub use aggregate::aggregate;
pub use config::check_config;
pub use config::find_session;
pub use config::Config;
pub use config::Directory;
pub use config::Session;
pub use config::SplitConfig;
pub use dispatch::dispatch;
pub use dispatch::Action;
pub use dispatch::DispatchError;
pub use dispatch::LaunchKind;
pub use paths::expand_home;
pub use paths::last_component;
pub use paths::session_name_for_dir;
pub use strutil::concat_str;
pub use strutil::join_lines;
pub use strutil::replace_char;
pub use strutil::split_lines;
pub use plan::finish_commands;
pub use plan::has_session_cmd;
pub use plan::last_pane;
pub use plan::list_panes_cmd;
pub use plan::needs_existence_query;
pub use plan::pane_id_query_cmd;
pub use plan::server_query_cmd;
pub use plan::setup_commands;
pub use plan::split_followup_cmds;
pub use plan::split_window_cmd;
pub use plan::ssh_command;
pub use plan::target_window;
pub use plan::wants_split;
pub use strutil::str_eq;
pub use walk::find_dirs;
pub use walk::FsEntry;
pub use walk::FsTree;
