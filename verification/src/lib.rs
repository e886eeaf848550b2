//! Verified core of a workspace manager for jujutsu repositories: template
//! filters, configuration layering, planning of workspace operations, list
//! rendering, and the small decision procedures of the command layer.

pub mod text;
pub mod trash;
pub mod strmap;
pub mod state;
pub mod filters;
pub mod paths;
pub mod hookgroup;
pub mod jj_view;
pub mod json;
pub mod types;
pub mod template;
pub mod format;
pub mod plan;
pub mod config_check;
pub mod config_loader;
pub mod quoting;
pub mod llm;
pub mod llm_cache;
pub mod approvals;
pub mod ci;
pub mod shortcuts;
pub mod observe;
pub mod exec;
pub mod highlight;
pub mod shell;
pub mod completion;
pub mod copy_ignored;
pub mod tether;
