//! What holds of every tree.

use vstd::prelude::*;

use crate::entry::{EntryKind, EntryView};
use crate::filter::{hidden_name, kind_accepted, visible};
use crate::options::Options;
use crate::render::{indent, line_of};
use crate::tree::{cut_off, deeper, lines_of, shown, tree, within, Listing};
use crate::walk::WalkerState;

verus! {

/// Each of the lines of the first `n` places is the line of an entry that
/// is shown at one of those places.
proof fn lemma_line_has_entry(listing: Listing, options: Options, n: nat, k: int)
    requires
        n <= listing.len(),
        0 <= k < lines_of(listing, options, n).len(),
    ensures
        exists|j: int|
            0 <= j < n && #[trigger] shown(listing, options, j) && lines_of(listing, options, n)[k]
                == line_of(listing[j]->0, options.show_full_path, options.show_size),
    decreases n,
{
    let before = lines_of(listing, options, (n - 1) as nat);
    if k < before.len() {
        lemma_line_has_entry(listing, options, (n - 1) as nat, k);
    } else {
        assert(shown(listing, options, n - 1));
    }
}

/// Every line of a tree but the root's is the line of an entry that is
/// shown, and a shown entry is at least 1 deep and at most as deep as the
/// options allow.
pub proof fn lemma_lines_within_depth(listing: Listing, options: Options, k: int)
    requires
        1 <= k < tree(listing, options).len(),
    ensures
        exists|j: int|
            #[trigger] shown(listing, options, j) && 1 <= listing[j]->0.depth <= options.max_depth
                && tree(listing, options)[k] == line_of(
                listing[j]->0,
                options.show_full_path,
                options.show_size,
            ),
{
    lemma_line_has_entry(listing, options, listing.len(), k - 1);
}

/// What lies in the subtree of an entry lies in the subtree of every entry
/// that this one lies in.
pub proof fn lemma_within_chains(listing: Listing, h: int, i: int, j: int)
    requires
        within(listing, h, i),
        within(listing, i, j),
    ensures
        within(listing, h, j),
{
    if h < i {
        assert(deeper(listing[i], listing[h]->0.depth));
    }
}

/// Where the walk does not come to an entry, it comes to nothing in that
/// entry's subtree.
pub proof fn lemma_cut_reaches_down(listing: Listing, show_hidden: bool, i: int, j: int)
    requires
        cut_off(listing, show_hidden, i),
        within(listing, i, j),
    ensures
        cut_off(listing, show_hidden, j),
{
    let h = choose|h: int| #[trigger] within(listing, h, i) && !visible(listing[h]->0, show_hidden);
    lemma_within_chains(listing, h, i, j);
}

/// While hidden entries are left out, an entry below the root whose name is
/// hidden is not shown, and nothing in its subtree is: no line is added for
/// any of them.
pub proof fn lemma_hidden_subtree_left_out(listing: Listing, options: Options, i: int, j: int)
    requires
        !options.show_hidden,
        within(listing, i, j),
        listing[i]->0.depth >= 1,
        hidden_name(listing[i]->0.name),
    ensures
        !shown(listing, options, j),
        lines_of(listing, options, (j + 1) as nat) == lines_of(listing, options, j as nat),
{
}

/// The kind toggles cut nothing off: an entry is shown exactly if it would
/// be shown with neither toggle set and its own kind is accepted, whatever
/// the kinds of the entries above it.
pub proof fn lemma_kind_filter_cuts_nothing_off(listing: Listing, options: Options, j: int)
    ensures
        shown(listing, options, j) <==> shown(listing, options.without_kind_filter(), j)
            && kind_accepted(listing[j]->0.kind, options.show_dir_only, options.show_file_only),
{
}

/// With files alone asked for, a directory is not shown, and a file in its
/// subtree still is if the walk comes to it and its depth is in range.
pub proof fn lemma_file_shown_below_unshown_directory(
    listing: Listing,
    options: Options,
    i: int,
    j: int,
)
    requires
        options.show_file_only,
        !options.show_dir_only,
        within(listing, i, j),
        listing[i]->0.kind == EntryKind::Directory,
        listing[j] is Some,
        listing[j]->0.kind == EntryKind::File,
        1 <= listing[j]->0.depth <= options.max_depth,
        !cut_off(listing, options.show_hidden, j),
    ensures
        !shown(listing, options, i),
        shown(listing, options, j),
{
}

/// Where the walker goes does not depend on the kind toggles, nor on how
/// lines are written: two walkers that remember the same cut and agree on
/// hidden entries and on the greatest depth go below the same entries and
/// remember the same cut afterwards.
pub proof fn lemma_descent_ignores_kind(
    first: WalkerState,
    second: WalkerState,
    event: Option<EntryView>,
)
    requires
        first.pruned_below == second.pruned_below,
        first.options.show_hidden == second.options.show_hidden,
        first.options.max_depth == second.options.max_depth,
    ensures
        first.enters(event) == second.enters(event),
        first.descends(event) == second.descends(event),
        first.next(event).pruned_below == second.next(event).pruned_below,
{
}

/// A place that a walk can do without: what stands there could not be read,
/// lies deeper than the options allow, or lies below an entry that is not
/// visible.
pub open spec fn skippable(listing: Listing, options: Options, j: int) -> bool {
    &&& 0 <= j < listing.len()
    &&& listing[j] is Some ==> listing[j]->0.depth > options.max_depth || exists|i: int|
        i < j && #[trigger] within(listing, i, j) && !visible(
            listing[i]->0,
            options.show_hidden,
        )
}

/// Taking a place out changes nothing for the places before it.
proof fn lemma_shown_before_gap(listing: Listing, options: Options, j: int, k: int)
    requires
        0 <= k < j < listing.len(),
    ensures
        shown(listing.remove(j), options, k) == shown(listing, options, k),
{
    let rest = listing.remove(j);
    let hidden = options.show_hidden;
    assert(rest[k] == listing[k]);
    if cut_off(listing, hidden, k) {
        let i = choose|i: int| #[trigger] within(listing, i, k) && !visible(listing[i]->0, hidden);
        assert(rest[i] == listing[i]);
        assert forall|m: int| i < m <= k implies deeper(#[trigger] rest[m], rest[i]->0.depth) by {
            assert(rest[m] == listing[m]);
        }
        assert(within(rest, i, k));
    }
    if cut_off(rest, hidden, k) {
        let i = choose|i: int| #[trigger] within(rest, i, k) && !visible(rest[i]->0, hidden);
        assert(rest[i] == listing[i]);
        assert forall|m: int| i < m <= k implies deeper(
            #[trigger] listing[m],
            listing[i]->0.depth,
        ) by {
            assert(rest[m] == listing[m]);
        }
        assert(within(listing, i, k));
    }
}

/// An entry in range that the walk does not come to is still not come to
/// when a skippable place before it is taken out.
proof fn lemma_cut_survives_gap(listing: Listing, options: Options, j: int, k: int)
    requires
        skippable(listing, options, j),
        j <= k < listing.len() - 1,
        cut_off(listing, options.show_hidden, k + 1),
        listing[k + 1] is Some,
        listing[k + 1]->0.depth <= options.max_depth,
    ensures
        cut_off(listing.remove(j), options.show_hidden, k),
{
    let rest = listing.remove(j);
    let hidden = options.show_hidden;
    let found = choose|i: int|
        #[trigger] within(listing, i, k + 1) && !visible(listing[i]->0, hidden);
    let i = if found == j {
        assert(deeper(listing[k + 1], listing[j]->0.depth));
        let above = choose|h: int|
            h < j && #[trigger] within(listing, h, j) && !visible(listing[h]->0, hidden);
        lemma_within_chains(listing, above, j, k + 1);
        above
    } else {
        found
    };
    assert(within(listing, i, k + 1) && !visible(listing[i]->0, hidden) && i != j);
    if i < j {
        assert(rest[i] == listing[i]);
        assert forall|m: int| i < m <= k implies deeper(#[trigger] rest[m], rest[i]->0.depth) by {
            if m < j {
                assert(rest[m] == listing[m]);
            } else {
                assert(rest[m] == listing[m + 1]);
            }
        }
        assert(within(rest, i, k));
    } else {
        assert(rest[i - 1] == listing[i]);
        assert forall|m: int| i - 1 < m <= k implies deeper(
            #[trigger] rest[m],
            rest[i - 1]->0.depth,
        ) by {
            assert(rest[m] == listing[m + 1]);
        }
        assert(within(rest, i - 1, k));
    }
}

/// An entry in range that the walk does not come to once a skippable place
/// before it is taken out is not come to with that place left in either.
proof fn lemma_cut_survives_filling(listing: Listing, options: Options, j: int, k: int)
    requires
        skippable(listing, options, j),
        j <= k < listing.len() - 1,
        cut_off(listing.remove(j), options.show_hidden, k),
        listing[k + 1] is Some,
        listing[k + 1]->0.depth <= options.max_depth,
    ensures
        cut_off(listing, options.show_hidden, k + 1),
{
    let rest = listing.remove(j);
    let hidden = options.show_hidden;
    assert(rest[k] == listing[k + 1]);
    let i = choose|i: int| #[trigger] within(rest, i, k) && !visible(rest[i]->0, hidden);
    if i >= j {
        assert(rest[i] == listing[i + 1]);
        assert forall|m: int| i + 1 < m <= k + 1 implies deeper(
            #[trigger] listing[m],
            listing[i + 1]->0.depth,
        ) by {
            assert(rest[m - 1] == listing[m]);
        }
        assert(within(listing, i + 1, k + 1));
    } else {
        assert(rest[i] == listing[i]);
        let depth = listing[i]->0.depth;
        assert(deeper(rest[k], depth));
        if listing[j] is Some && listing[j]->0.depth <= depth {
            let above = choose|h: int|
                h < j && #[trigger] within(listing, h, j) && !visible(listing[h]->0, hidden);
            if above <= i {
                if above < i {
                    assert(deeper(listing[i], listing[above]->0.depth));
                }
                assert forall|m: int| above < m <= k + 1 implies deeper(
                    #[trigger] listing[m],
                    listing[above]->0.depth,
                ) by {
                    if m > j {
                        assert(rest[m - 1] == listing[m]);
                        assert(deeper(rest[m - 1], depth));
                    }
                }
                assert(within(listing, above, k + 1));
            } else {
                assert(rest[above] == listing[above]);
                assert(deeper(rest[above], depth));
                assert(deeper(listing[j], listing[above]->0.depth));
            }
        } else {
            assert forall|m: int| i < m <= k + 1 implies deeper(#[trigger] listing[m], depth) by {
                if m < j {
                    assert(rest[m] == listing[m]);
                } else if m > j {
                    assert(rest[m - 1] == listing[m]);
                }
            }
            assert(within(listing, i, k + 1));
        }
    }
}

/// The lines of the first `n` places after a skippable place is taken out
/// are the lines of the places that they came from.
proof fn lemma_lines_without(listing: Listing, options: Options, j: int, n: nat)
    requires
        skippable(listing, options, j),
        n < listing.len(),
    ensures
        lines_of(listing.remove(j), options, n) == lines_of(
            listing,
            options,
            if n <= j {
                n
            } else {
                n + 1
            },
        ),
    decreases n,
{
    let rest = listing.remove(j);
    if n > 0 {
        let k = n - 1;
        lemma_lines_without(listing, options, j, k as nat);
        if k < j {
            lemma_shown_before_gap(listing, options, j, k);
            assert(rest[k] == listing[k]);
        } else {
            assert(rest[k] == listing[k + 1]);
            if listing[k + 1] is Some && listing[k + 1]->0.depth <= options.max_depth {
                if cut_off(listing, options.show_hidden, k + 1) {
                    lemma_cut_survives_gap(listing, options, j, k);
                }
                if cut_off(rest, options.show_hidden, k) {
                    lemma_cut_survives_filling(listing, options, j, k);
                }
            }
            assert(shown(rest, options, k) == shown(listing, options, k + 1));
            if k == j {
                assert(!shown(listing, options, j));
                assert(lines_of(listing, options, (j + 1) as nat) == lines_of(
                    listing,
                    options,
                    j as nat,
                ));
            }
        }
    }
}

/// A walk need not be given what it would not come to: the tree of a
/// listing stays the same when a place is taken out that holds an entry
/// that could not be read, one deeper than the options allow, or one below
/// an entry that is not visible.
pub proof fn lemma_tree_without_skippable(listing: Listing, options: Options, j: int)
    requires
        skippable(listing, options, j),
    ensures
        tree(listing.remove(j), options) == tree(listing, options),
{
    let last = (listing.len() - 1) as nat;
    lemma_lines_without(listing, options, j, last);
    if last <= j {
        assert(!shown(listing, options, j));
    }
}

/// The tree is settled by the listing and the options: two listings that
/// hold the same events in the same order have the same tree.
pub proof fn lemma_same_listing_same_tree(first: Listing, second: Listing, options: Options)
    requires
        first.len() == second.len(),
        forall|j: int| 0 <= j < first.len() ==> first[j] == second[j],
    ensures
        tree(first, options) == tree(second, options),
{
    assert(first =~= second);
}

/// With the full path asked for, the line is the branch markers and the
/// path, whether or not sizes are asked for as well.
pub proof fn lemma_full_path_overrides_size(entry: EntryView, show_size: bool)
    ensures
        line_of(entry, true, show_size) == indent(entry.depth) + entry.path,
        line_of(entry, true, true) == line_of(entry, true, false),
{
}

} // verus!
