//! Git panels: the diff view, the source control panel, the branch
//! manager and the commit history.

pub mod branch_manager;
pub mod commit_history;
pub mod diff_view;
pub mod source_control_panel;
