//! Renders a directory listing as an indented text tree.
//!
//! A pre-order listing of entries is walked under an [`Options`] record:
//! the walker decides, entry by entry, whether the entry is shown and whether
//! the walk goes below it, and the renderer turns each shown entry into one
//! line of text.

pub mod entry;
pub mod filter;
pub mod laws;
pub mod options;
pub mod render;
pub mod tree;
pub mod walk;

pub use entry::{Entry, EntryKind, EntryView, Event, Metadata};
pub use options::Options;
pub use render::display_file;
pub use tree::render_tree;
pub use walk::{Step, Walker};
