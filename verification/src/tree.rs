//! The tree of a whole listing, said without a walker, and the function
//! that renders it by running one.

use vstd::prelude::*;

use crate::entry::{EntryView, Event};
use crate::filter::{kind_accepted, visible};
use crate::options::Options;
use crate::render::{line_of, root_line};
use crate::walk::{Walker, WalkerState};

verus! {

/// A listing as the contracts see it: `None` marks an entry that could not
/// be read.
pub type Listing = Seq<Option<EntryView>>;

/// An unreadable entry never ends the subtree of another entry; a readable
/// one stays in it while it is deeper than `depth`.
pub open spec fn deeper(event: Option<EntryView>, depth: nat) -> bool {
    event matches Some(entry) ==> entry.depth > depth
}

/// Place `j` of the listing is the entry at place `i` or lies in its
/// subtree: everything after `i` up to `j` is deeper than the entry at `i`.
pub open spec fn within(listing: Listing, i: int, j: int) -> bool {
    &&& 0 <= i <= j < listing.len()
    &&& listing[i] is Some
    &&& forall|k: int| i < k <= j ==> deeper(#[trigger] listing[k], listing[i]->0.depth)
}

/// The walk never comes to place `j`: the entry there, or one that it lies
/// below, is not visible.
pub open spec fn cut_off(listing: Listing, show_hidden: bool, j: int) -> bool {
    exists|i: int| #[trigger] within(listing, i, j) && !visible(listing[i]->0, show_hidden)
}

/// The entry at place `j` gets a line: it can be read, the walk comes to
/// it, its depth is at least 1 and at most the greatest depth, and its kind
/// is accepted.
pub open spec fn shown(listing: Listing, options: Options, j: int) -> bool {
    &&& 0 <= j < listing.len()
    &&& listing[j] is Some
    &&& !cut_off(listing, options.show_hidden, j)
    &&& 1 <= listing[j]->0.depth <= options.max_depth
    &&& kind_accepted(listing[j]->0.kind, options.show_dir_only, options.show_file_only)
}

/// The lines of the entries shown among the first `n` places, in the order
/// of the listing.
pub open spec fn lines_of(listing: Listing, options: Options, n: nat) -> Seq<Seq<char>>
    decreases n,
{
    if n == 0 {
        Seq::empty()
    } else {
        let before = lines_of(listing, options, (n - 1) as nat);
        if shown(listing, options, n - 1) {
            before.push(
                line_of(listing[n - 1]->0, options.show_full_path, options.show_size),
            )
        } else {
            before
        }
    }
}

/// The whole output: a line for the root, then the lines of the listing.
pub open spec fn tree(listing: Listing, options: Options) -> Seq<Seq<char>> {
    seq!["."@] + lines_of(listing, options, listing.len())
}

/// The state of a walker that has taken the first `n` events.
pub open spec fn state_after(listing: Listing, options: Options, n: nat) -> WalkerState
    decreases n,
{
    if n == 0 {
        WalkerState::start(options)
    } else {
        state_after(listing, options, (n - 1) as nat).next(listing[n - 1])
    }
}

/// The entry at place `i` is not visible, and the first `n` places do not
/// reach beyond its subtree.
spec fn cut_open(listing: Listing, show_hidden: bool, i: int, n: nat) -> bool {
    &&& 0 <= i < n <= listing.len()
    &&& listing[i] is Some
    &&& !visible(listing[i]->0, show_hidden)
    &&& forall|k: int| i < k < n ==> deeper(#[trigger] listing[k], listing[i]->0.depth)
}

/// What the walker remembers after `n` events is the depth of the
/// shallowest cut that is still open.
proof fn lemma_state_holds_shallowest_cut(listing: Listing, options: Options, n: nat)
    requires
        n <= listing.len(),
    ensures
        ({
            let state = state_after(listing, options, n);
            &&& state.options == options
            &&& state.pruned_below matches Some(depth) ==> exists|i: int| #[trigger]
                cut_open(listing, options.show_hidden, i, n) && listing[i]->0.depth == depth
            &&& forall|i: int| #[trigger]
                cut_open(listing, options.show_hidden, i, n) ==> state.pruned_below is Some
                    && listing[i]->0.depth >= state.pruned_below->0
        }),
    decreases n,
{
    if n > 0 {
        let m = (n - 1) as nat;
        let hidden = options.show_hidden;
        let before = state_after(listing, options, m);
        let after = state_after(listing, options, n);
        lemma_state_holds_shallowest_cut(listing, options, m);
        assert(after == before.next(listing[m as int]));
        match listing[m as int] {
            None => {
                if before.pruned_below is Some {
                    let i = choose|i: int|
                        #[trigger] cut_open(listing, hidden, i, m) && listing[i]->0.depth
                            == before.pruned_below->0;
                    assert(cut_open(listing, hidden, i, n));
                }
                assert forall|i: int| #[trigger] cut_open(listing, hidden, i, n) implies (
                after.pruned_below is Some && listing[i]->0.depth >= after.pruned_below->0) by {
                    assert(cut_open(listing, hidden, i, m));
                }
            },
            Some(entry) => {
                if before.passes_over(entry) {
                    let i = choose|i: int|
                        #[trigger] cut_open(listing, hidden, i, m) && listing[i]->0.depth
                            == before.pruned_below->0;
                    assert(cut_open(listing, hidden, i, n));
                    assert forall|i: int| #[trigger] cut_open(listing, hidden, i, n) implies (
                    after.pruned_below is Some && listing[i]->0.depth
                        >= after.pruned_below->0) by {
                        if i < m {
                            assert(cut_open(listing, hidden, i, m));
                        }
                    }
                } else {
                    assert forall|i: int| #[trigger] cut_open(listing, hidden, i, n) implies i
                        == m by {
                        if i < m {
                            assert(cut_open(listing, hidden, i, m));
                            assert(deeper(listing[m as int], listing[i]->0.depth));
                        }
                    }
                    if !visible(entry, hidden) {
                        assert(cut_open(listing, hidden, m as int, n));
                    }
                }
            },
        }
    }
}

/// The walker takes in the event at place `n` exactly if the walk comes to
/// that place, and gives it a line exactly if the entry is shown.
pub proof fn lemma_walker_follows_listing(listing: Listing, options: Options, n: nat)
    requires
        n < listing.len(),
    ensures
        ({
            let state = state_after(listing, options, n);
            let event = listing[n as int];
            &&& state.options == options
            &&& state.enters(event) <==> event is Some && !cut_off(
                listing,
                options.show_hidden,
                n as int,
            )
            &&& state.shows(event) <==> shown(listing, options, n as int)
        }),
{
    let hidden = options.show_hidden;
    let state = state_after(listing, options, n);
    lemma_state_holds_shallowest_cut(listing, options, n);
    if listing[n as int] is Some {
        let entry = listing[n as int]->0;
        if state.passes_over(entry) {
            let i = choose|i: int|
                #[trigger] cut_open(listing, hidden, i, n) && listing[i]->0.depth
                    == state.pruned_below->0;
            assert(within(listing, i, n as int));
        } else if !visible(entry, hidden) {
            assert(within(listing, n as int, n as int));
        } else {
            assert forall|i: int| #[trigger] within(listing, i, n as int) implies visible(
                listing[i]->0,
                hidden,
            ) by {
                if i < n && !visible(listing[i]->0, hidden) {
                    assert(cut_open(listing, hidden, i, n));
                    assert(deeper(listing[n as int], listing[i]->0.depth));
                }
            }
        }
    }
}

/// Renders the tree of a listing: the root's line, then one line for each
/// entry that is shown, in the order of the listing.
pub fn render_tree(listing: &Vec<Event>, options: &Options) -> (lines: Vec<String>)
    ensures
        lines.deep_view() == tree(listing.deep_view(), *options),
{
    let ghost model = listing.deep_view();
    let mut walker = Walker::new(*options);
    let mut lines: Vec<String> = Vec::new();
    lines.push(root_line());
    assert(lines.deep_view() =~= seq!["."@]);
    let mut index: usize = 0;
    while index < listing.len()
        invariant
            index <= listing.len(),
            model == listing.deep_view(),
            walker@ == state_after(model, *options, index as nat),
            lines.deep_view() == seq!["."@] + lines_of(model, *options, index as nat),
        decreases listing.len() - index,
    {
        proof {
            lemma_walker_follows_listing(model, *options, index as nat);
        }
        let ghost before = lines.deep_view();
        let step = walker.step(&listing[index]);
        match step.line {
            Some(line) => {
                let ghost text = line@;
                lines.push(line);
                assert(lines.deep_view() =~= before.push(text));
            },
            None => {},
        }
        index = index + 1;
    }
    lines
}

} // verus!
