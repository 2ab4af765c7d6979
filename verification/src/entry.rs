//! The entries of a listing, as the walker and the renderer read them.

use vstd::prelude::*;

verus! {

/// What sort of node an entry is.
#[derive(Clone, Copy, Debug, PartialEq, Eq, Structural)]
pub enum EntryKind {
    File,
    Directory,
    /// Neither a file nor a directory, or not known.
    Other,
}

impl EntryKind {
    /// The kind that a pair of "is a file" and "is a directory" answers stands for.
    pub open spec fn of_flags(is_file: bool, is_dir: bool) -> EntryKind {
        if is_file {
            EntryKind::File
        } else if is_dir {
            EntryKind::Directory
        } else {
            EntryKind::Other
        }
    }

    /// Turns the two answers of a metadata lookup into a kind.
    pub fn from_flags(is_file: bool, is_dir: bool) -> (kind: EntryKind)
        ensures
            kind == EntryKind::of_flags(is_file, is_dir),
    {
        if is_file {
            EntryKind::File
        } else if is_dir {
            EntryKind::Directory
        } else {
            EntryKind::Other
        }
    }
}

/// What a successful metadata lookup tells about an entry.
#[derive(Clone, Copy, Debug, PartialEq, Eq, Structural)]
pub struct Metadata {
    pub kind: EntryKind,
    /// Length in bytes.
    pub len: u64,
}

/// One node met during a walk.
#[derive(Clone, Debug)]
pub struct Entry {
    /// The path from the root of the walk, as text.
    pub path: String,
    /// The last component of the path; `None` when it is not text.
    pub name: Option<String>,
    /// Distance from the root, which itself has depth 0.
    pub depth: usize,
    /// `None` when the lookup failed.
    pub metadata: Option<Metadata>,
}

/// An entry as the contracts see it: a failed metadata lookup has become
/// kind [`EntryKind::Other`] and size 0.
pub struct EntryView {
    pub path: Seq<char>,
    pub name: Option<Seq<char>>,
    pub depth: nat,
    pub kind: EntryKind,
    pub size: nat,
}

impl View for Entry {
    type V = EntryView;

    open spec fn view(&self) -> EntryView {
        EntryView {
            path: self.path@,
            name: match self.name {
                Some(name) => Some(name@),
                None => None,
            },
            depth: self.depth as nat,
            kind: match self.metadata {
                Some(metadata) => metadata.kind,
                None => EntryKind::Other,
            },
            size: match self.metadata {
                Some(metadata) => metadata.len as nat,
                None => 0,
            },
        }
    }
}

impl DeepView for Entry {
    type V = EntryView;

    open spec fn deep_view(&self) -> EntryView {
        self@
    }
}

impl Entry {
    /// The entry's kind; [`EntryKind::Other`] when the metadata is missing.
    pub fn kind(&self) -> (kind: EntryKind)
        ensures
            kind == self@.kind,
    {
        match self.metadata {
            Some(metadata) => metadata.kind,
            None => EntryKind::Other,
        }
    }

    /// The entry's size in bytes; 0 when the metadata is missing.
    pub fn size(&self) -> (size: u64)
        ensures
            size == self@.size,
    {
        match self.metadata {
            Some(metadata) => metadata.len,
            None => 0,
        }
    }
}

/// What a listing holds at one place: an entry, or the mark of one that
/// could not be read.
#[derive(Clone, Debug)]
pub enum Event {
    Found(Entry),
    Unreadable,
}

impl View for Event {
    type V = Option<EntryView>;

    open spec fn view(&self) -> Option<EntryView> {
        match self {
            Event::Found(entry) => Some(entry@),
            Event::Unreadable => None,
        }
    }
}

impl DeepView for Event {
    type V = Option<EntryView>;

    open spec fn deep_view(&self) -> Option<EntryView> {
        self@
    }
}

} // verus!
