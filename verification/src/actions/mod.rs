//! What can be done to a workspace.

pub mod claim_laws;
pub mod close_laws;
pub mod focus;
pub mod hook_laws;
pub mod merge_laws;
pub mod move_laws;
pub mod move_ops;
pub mod open_laws;
pub mod pending_laws;
pub mod project_laws;
pub mod project_open;
pub mod project_path_laws;
pub mod project_paths;
pub mod project_rows;
pub mod project_view;
pub mod soft_close;
pub mod soft_close_flow;
pub mod soft_close_laws;
pub mod toast_laws;
pub mod undo_laws;
pub mod view_laws;
pub mod worktree_close;
pub mod worktree_merge;
pub mod worktree_removal;
pub mod worktree_remove;
pub mod worktree_row_laws;
pub mod worktree_rows;
