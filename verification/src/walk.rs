//! The walker: a state machine that is fed a listing one event at a time.
//!
//! The listing is in pre-order: an entry is followed by everything below it,
//! and those entries are deeper than it. When the walker meets an entry
//! that is not visible it remembers that entry's depth, and passes over what
//! follows until an entry comes that is not deeper. The kind test plays no
//! part in this: it decides what is shown, never where the walk goes.

use vstd::prelude::*;

use crate::entry::{Entry, EntryView, Event};
use crate::filter::{is_file, is_not_hidden, kind_accepted, visible};
use crate::options::Options;
use crate::render::{display_file, line_of};

verus! {

/// The walker as the contracts see it.
pub struct WalkerState {
    pub options: Options,
    /// The depth of the entry that the walk was last cut off at, while the
    /// walk is still below that entry.
    pub pruned_below: Option<nat>,
}

impl WalkerState {
    /// The state in which a walk starts.
    pub open spec fn start(options: Options) -> WalkerState {
        WalkerState { options, pruned_below: None }
    }

    /// The entry lies below the one that the walk was cut off at.
    pub open spec fn passes_over(self, entry: EntryView) -> bool {
        self.pruned_below matches Some(depth) && entry.depth > depth
    }

    /// The walk takes the event in: it is an entry, it does not lie below a
    /// cut, and it is visible.
    pub open spec fn enters(self, event: Option<EntryView>) -> bool {
        event matches Some(entry) && !self.passes_over(entry) && visible(
            entry,
            self.options.show_hidden,
        )
    }

    /// The walk goes on below the entry.
    pub open spec fn descends(self, event: Option<EntryView>) -> bool {
        self.enters(event) && event->0.depth < self.options.max_depth
    }

    /// The entry gets a line.
    pub open spec fn shows(self, event: Option<EntryView>) -> bool {
        &&& self.enters(event)
        &&& 1 <= event->0.depth <= self.options.max_depth
        &&& kind_accepted(
            event->0.kind,
            self.options.show_dir_only,
            self.options.show_file_only,
        )
    }

    /// The state after the event. An unreadable entry and an entry below a
    /// cut leave the state as it is; any other entry ends the cut, and
    /// starts a new one if it is not visible.
    pub open spec fn next(self, event: Option<EntryView>) -> WalkerState {
        match event {
            None => self,
            Some(entry) => if self.passes_over(entry) {
                self
            } else if visible(entry, self.options.show_hidden) {
                WalkerState { pruned_below: None, ..self }
            } else {
                WalkerState { pruned_below: Some(entry.depth), ..self }
            },
        }
    }
}

/// What the walker asks for after an event.
#[derive(Debug)]
pub struct Step {
    /// Whether the walk is to go below the entry.
    pub descend: bool,
    /// The line to print, if the entry is shown.
    pub line: Option<String>,
}

/// A walk in progress.
#[derive(Debug)]
pub struct Walker {
    options: Options,
    pruned_below: Option<usize>,
}

impl View for Walker {
    type V = WalkerState;

    closed spec fn view(&self) -> WalkerState {
        WalkerState {
            options: self.options,
            pruned_below: match self.pruned_below {
                Some(depth) => Some(depth as nat),
                None => None,
            },
        }
    }
}

impl Walker {
    /// A walker at the start of a walk.
    pub fn new(options: Options) -> (walker: Walker)
        ensures
            walker@ == WalkerState::start(options),
    {
        Walker { options, pruned_below: None }
    }

    /// Takes the next event of the listing and says what to do about it.
    ///
    /// A line comes back only for an entry whose depth is at least 1 and at
    /// most the greatest depth of the options.
    pub fn step(&mut self, event: &Event) -> (step: Step)
        ensures
            final(self)@ == old(self)@.next(event@),
            step.descend == old(self)@.descends(event@),
            step.line is Some <==> old(self)@.shows(event@),
            step.line matches Some(line) ==> line@ == line_of(
                event@->0,
                old(self)@.options.show_full_path,
                old(self)@.options.show_size,
            ),
            step.line is Some ==> event@ is Some && 1 <= event@->0.depth
                <= old(self)@.options.max_depth,
    {
        let entry: &Entry = match event {
            Event::Found(entry) => entry,
            Event::Unreadable => {
                return Step { descend: false, line: None };
            },
        };
        match self.pruned_below {
            Some(depth) => {
                if entry.depth > depth {
                    return Step { descend: false, line: None };
                }
            },
            None => {},
        }
        if !is_not_hidden(entry, self.options.show_hidden) {
            self.pruned_below = Some(entry.depth);
            return Step { descend: false, line: None };
        }
        self.pruned_below = None;
        let descend = entry.depth < self.options.max_depth;
        let shown = 1 <= entry.depth && entry.depth <= self.options.max_depth && is_file(
            entry,
            self.options.show_dir_only,
            self.options.show_file_only,
        );
        let line = if shown {
            Some(display_file(entry, self.options.show_full_path, self.options.show_size))
        } else {
            None
        };
        Step { descend, line }
    }
}

} // verus!
