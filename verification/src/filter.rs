//! The two tests that an entry passes before it is shown.
//!
//! The visibility test decides whether the walk goes below an entry at all;
//! the kind test only decides whether the entry itself is shown.

use vstd::prelude::*;

use crate::entry::{Entry, EntryKind, EntryView};

verus! {

/// A name is hidden when it starts with a dot. A name that is not text
/// counts as hidden.
pub open spec fn hidden_name(name: Option<Seq<char>>) -> bool {
    match name {
        Some(name) => name.len() > 0 && name[0] == '.',
        None => true,
    }
}

/// An entry is visible when hidden entries are shown, when it is the root,
/// or when its name is not hidden.
pub open spec fn visible(entry: EntryView, show_hidden: bool) -> bool {
    show_hidden || entry.depth == 0 || !hidden_name(entry.name)
}

/// With neither toggle set every kind is accepted; otherwise each toggle
/// admits its own kind.
pub open spec fn kind_accepted(kind: EntryKind, show_dir: bool, show_file: bool) -> bool {
    ||| !show_dir && !show_file
    ||| show_dir && kind == EntryKind::Directory
    ||| show_file && kind == EntryKind::File
}

/// The visibility test.
pub fn is_not_hidden(entry: &Entry, show_hidden: bool) -> (shown: bool)
    ensures
        shown == visible(entry@, show_hidden),
{
    if show_hidden || entry.depth == 0 {
        return true;
    }
    match &entry.name {
        Some(name) => {
            let text = name.as_str();
            text.is_empty() || text.get_char(0) != '.'
        },
        None => false,
    }
}

/// The kind test. An entry without metadata is neither a file nor a
/// directory, so it passes only when no toggle is set.
pub fn is_file(entry: &Entry, show_dir: bool, show_file: bool) -> (accepted: bool)
    ensures
        accepted == kind_accepted(entry@.kind, show_dir, show_file),
{
    if !show_dir && !show_file {
        return true;
    }
    match entry.metadata {
        Some(metadata) => match metadata.kind {
            EntryKind::File => show_file,
            EntryKind::Directory => show_dir,
            EntryKind::Other => false,
        },
        None => false,
    }
}

} // verus!
