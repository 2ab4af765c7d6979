//! The configuration that a walk runs under.

use vstd::prelude::*;

verus! {

/// What a walk shows and how deep it goes.
///
/// The two kind toggles are independent: with neither set every kind is
/// shown, with both set files and directories are shown.
#[derive(Clone, Copy, Debug, PartialEq, Eq, Structural)]
pub struct Options {
    /// Entries deeper than this are left out; the root has depth 0.
    pub max_depth: usize,
    /// Show entries whose name starts with a dot, and walk below them.
    pub show_hidden: bool,
    /// Show directories.
    pub show_dir_only: bool,
    /// Show files.
    pub show_file_only: bool,
    /// Print each entry's path from the root in place of its name.
    pub show_full_path: bool,
    /// Print the size of each file after its name.
    pub show_size: bool,
}

impl Options {
    /// The options of a walk that was asked for nothing in particular.
    pub open spec fn defaults() -> Options {
        Options {
            max_depth: 3,
            show_hidden: false,
            show_dir_only: false,
            show_file_only: false,
            show_full_path: false,
            show_size: false,
        }
    }

    /// The same options with neither kind toggle set.
    pub open spec fn without_kind_filter(self) -> Options {
        Options { show_dir_only: false, show_file_only: false, ..self }
    }
}

impl Default for Options {
    fn default() -> (options: Options)
        ensures
            options == Options::defaults(),
    {
        Options {
            max_depth: 3,
            show_hidden: false,
            show_dir_only: false,
            show_file_only: false,
            show_full_path: false,
            show_size: false,
        }
    }
}

} // verus!
