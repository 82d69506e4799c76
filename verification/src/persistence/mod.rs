//! What is kept between runs: checking it, bringing it up to date, and taking
//! up what an earlier run left unfinished.

pub mod client_laws;
pub mod disk_laws;
pub mod instance_lock;
pub mod legacy;
pub mod load;
pub mod load_laws;
pub mod migration_laws;
pub mod save;
pub mod validate;
pub mod validate_laws;
pub mod window_layout;
pub mod worktree_laws;
pub mod worktrees;
