//! A playback engine that replays the commits of a history as live typing:
//! it morphs the old text of each changed file into the new text step by
//! step, and keeps the cursor, the scroll offset, the syntax highlighting
//! and a terminal transcript in step with it.

pub mod buffer;
pub mod commit;
pub mod config;
pub mod diff;
pub mod engine;
pub mod order;
pub mod panes;
pub mod playback;
pub mod script;
pub mod scroll;
pub mod snapshot;
pub mod style;
pub mod syntax;
pub mod text;
pub mod theme;
pub mod transcript;
