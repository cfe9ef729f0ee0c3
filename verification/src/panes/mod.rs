//! The panes of the dashboard: what each of them shows, as styled lines.

pub mod editor;
pub mod file_tree;
pub mod status_bar;
pub mod terminal;
