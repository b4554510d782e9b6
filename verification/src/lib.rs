//! Verified core of the moon IDE workspace engine.
pub mod app_state;
pub mod blame;
pub mod branch_info;
pub mod branches;
pub mod commit;
pub mod commit_flow;
pub mod editorconfig;
pub mod error;
pub mod forge;
pub mod format;
pub mod git;
pub mod git_run;
pub mod json;
pub mod lint_staged;
pub mod logs;
pub mod lsp;
pub mod next_edit;
pub mod next_edit_server;
pub mod num;
pub mod patch;
pub mod paths;
pub mod pre_save;
pub mod status;
pub mod summary;
pub mod text;
pub mod time;
pub mod workspace;
