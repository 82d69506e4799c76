//! Workspace state for a terminal multiplexer.

pub mod actions;
pub mod claims;
pub mod claude_env;
pub mod collections;
pub mod extensions_state;
pub mod focus;
pub mod harness_state;
pub mod layout;
pub mod layout_drops;
pub mod layout_edit;
pub mod layout_frames;
pub mod layout_laws;
pub mod layout_merge;
pub mod layout_moves;
pub mod layout_terminals;
pub mod layout_weights;
pub mod numbers;
pub mod outside;
pub mod path_laws;
pub mod paths;
pub mod persistence;
pub mod process_memory;
pub mod remote_again;
pub mod remote_api;
pub mod remote_apply;
pub mod remote_laws;
pub mod remote_memory;
pub mod remote_presentation;
pub mod remote_reports;
pub mod remote_sync;
pub mod requests;
pub mod rows;
pub mod settings;
pub mod sorted;
pub mod space_laws;
pub mod spaces;
pub mod spaces_state;
pub mod state;
pub mod text;
pub mod toast;
pub mod visibility;
pub mod windows;
pub mod workspace;
pub mod wsl;
