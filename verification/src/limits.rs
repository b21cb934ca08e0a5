//! What holds of every walk: where the limits stop it, what it counts and
//! what it passes over, and that the tree it gives is valid.

use crate::config::DropConfig;
use crate::error::Error;
use crate::file::found_at;
use crate::path::leaf_name;
use crate::tree::{
    count_of, lemma_inserted, lemma_inserted_size, levels_of, valid_children, Tree,
};
use crate::walk::{walked, walked_all, walked_dir, walked_entry, Entry, ROOT_DEPTH};
use vstd::prelude::*;

verus! {

/// The number of files and directories in a listing, at every level of
/// it. Entries of other kinds are not among them.
pub open spec fn entry_count(entries: Seq<Entry>) -> nat
    decreases entries, 0nat,
{
    if entries.len() == 0 {
        0
    } else {
        entry_count(entries.drop_last()) + count_in(entries.last())
    }
}

/// The number of files and directories that one entry stands for: the entry
/// itself and, for a directory, what is in it.
pub open spec fn count_in(entry: Entry) -> nat
    decreases entry, 0nat,
{
    match entry {
        Entry::Dir { entries, .. } => 1 + entry_count(entries@),
        Entry::File { .. } => 1,
        _ => 0,
    }
}

/// How many levels of subdirectories a listing holds: 0 where it lists no
/// directory, otherwise 1 more than the deepest of its subdirectories.
pub open spec fn nesting(entries: Seq<Entry>) -> nat
    decreases entries, 0nat,
{
    if entries.len() == 0 {
        0
    } else if nesting(entries.drop_last()) >= nesting_in(entries.last()) {
        nesting(entries.drop_last())
    } else {
        nesting_in(entries.last())
    }
}

/// How many levels of directories one entry stands for: none where it is
/// no directory.
pub open spec fn nesting_in(entry: Entry) -> nat
    decreases entry, 0nat,
{
    match entry {
        Entry::Dir { entries, .. } => 1 + nesting(entries@),
        _ => 0,
    }
}

/// Whether nothing in a listing fails by itself.
pub open spec fn readable(entries: Seq<Entry>) -> bool
    decreases entries, 0nat,
{
    entries.len() == 0 || (readable(entries.drop_last()) && readable_in(entries.last()))
}

/// Whether nothing in an entry fails by itself: a directory's path has a
/// name and its listing is readable, a file gives a node, and the entry is
/// not one that could not be read.
pub open spec fn readable_in(entry: Entry) -> bool
    decreases entry, 0nat,
{
    match entry {
        Entry::Dir { path, entries } => leaf_name(path@) is Ok && readable(entries@),
        Entry::File { path, meta, read } => found_at(path@, meta, read@) is Ok,
        Entry::Other => true,
        Entry::Failed { .. } => false,
    }
}

/// Whether `nesting` levels of subdirectories and `count` more entries stay
/// within the limits in a directory at level `depth`, `breadth` entries
/// having been counted before: the deepest subdirectory sits at a level
/// that the limit allows, and the count is not over the limit.
pub open spec fn fits(
    nesting: nat,
    count: nat,
    depth: nat,
    breadth: nat,
    config: DropConfig,
) -> bool {
    &&& nesting == 0 || depth + nesting <= config.dir_depth_limit
    &&& count == 0 || breadth + count <= config.transfer_file_limit
}

/// Whether the listing of a directory at level `depth` stays within the
/// limits, `breadth` entries having been counted before.
pub open spec fn within_limits(
    entries: Seq<Entry>,
    depth: nat,
    breadth: nat,
    config: DropConfig,
) -> bool {
    fits(nesting(entries), entry_count(entries), depth, breadth, config)
}

/// A walk over a listing that succeeds stayed within the limits and counted
/// every file and directory once.
pub proof fn lemma_walked_within(entries: Seq<Entry>, depth: nat, breadth: nat, config: DropConfig)
    requires
        walked_all(entries, depth, breadth, config) is Ok,
    ensures
        within_limits(entries, depth, breadth, config),
        walked_all(entries, depth, breadth, config)->Ok_0.1 == breadth + entry_count(entries),
    decreases entries, 0nat,
{
    if entries.len() > 0 {
        let before = walked_all(entries.drop_last(), depth, breadth, config)->Ok_0;
        lemma_walked_within(entries.drop_last(), depth, breadth, config);
        lemma_entry_within(entries.last(), before.0, depth, before.1, config);
    }
}

/// A walk over an entry that succeeds stayed within the limits and counted
/// every file and directory once.
pub proof fn lemma_entry_within(
    entry: Entry,
    children: Seq<Tree>,
    depth: nat,
    breadth: nat,
    config: DropConfig,
)
    requires
        walked_entry(entry, children, depth, breadth, config) is Ok,
    ensures
        fits(nesting_in(entry), count_in(entry), depth, breadth, config),
        walked_entry(entry, children, depth, breadth, config)->Ok_0.1 == breadth + count_in(entry),
    decreases entry, 0nat,
{
    match entry {
        Entry::Dir { path, entries } => {
            lemma_walked_within(entries@, depth + 1, breadth, config);
        },
        _ => {},
    }
}

/// Over a listing in which nothing fails by itself, a walk succeeds if the
/// listing is within the limits, and fails on the limits if it is not.
pub proof fn lemma_walked_readable(
    entries: Seq<Entry>,
    depth: nat,
    breadth: nat,
    config: DropConfig,
)
    requires
        readable(entries),
    ensures
        match walked_all(entries, depth, breadth, config) {
            Ok(done) => within_limits(entries, depth, breadth, config),
            Err(error) => error == Error::TransferLimitsExceeded && !within_limits(
                entries,
                depth,
                breadth,
                config,
            ),
        },
    decreases entries, 0nat,
{
    if entries.len() > 0 {
        lemma_walked_readable(entries.drop_last(), depth, breadth, config);
        match walked_all(entries.drop_last(), depth, breadth, config) {
            Ok(before) => {
                lemma_walked_within(entries.drop_last(), depth, breadth, config);
                lemma_entry_readable(entries.last(), before.0, depth, before.1, config);
            },
            Err(error) => {},
        }
    }
}

/// Over an entry in which nothing fails by itself, a walk succeeds if the
/// entry is within the limits, and fails on the limits if it is not.
pub proof fn lemma_entry_readable(
    entry: Entry,
    children: Seq<Tree>,
    depth: nat,
    breadth: nat,
    config: DropConfig,
)
    requires
        readable_in(entry),
    ensures
        match walked_entry(entry, children, depth, breadth, config) {
            Ok(done) => fits(nesting_in(entry), count_in(entry), depth, breadth, config),
            Err(error) => error == Error::TransferLimitsExceeded && !fits(
                nesting_in(entry),
                count_in(entry),
                depth,
                breadth,
                config,
            ),
        },
    decreases entry, 0nat,
{
    match entry {
        Entry::Dir { path, entries } => {
            if config.may_descend(depth) {
                lemma_walked_readable(entries@, depth + 1, breadth, config);
                if walked_all(entries@, depth + 1, breadth, config) is Ok {
                    lemma_walked_within(entries@, depth + 1, breadth, config);
                }
            }
        },
        _ => {},
    }
}

/// How a walk and the limits go together. A walk gives a tree only where
/// the listing is within the limits. Where the root has a name and nothing
/// in the listing fails by itself, it gives a tree if the listing is within
/// the limits, and fails on the limits if it is not.
pub proof fn walk_holds_the_limits(path: Seq<char>, entries: Seq<Entry>, config: DropConfig)
    ensures
        walked(path, entries, config) is Ok ==> within_limits(
            entries,
            ROOT_DEPTH as nat,
            0,
            config,
        ),
        leaf_name(path) is Ok && readable(entries) ==> match walked(path, entries, config) {
            Ok(tree) => within_limits(entries, ROOT_DEPTH as nat, 0, config),
            Err(error) => error == Error::TransferLimitsExceeded && !within_limits(
                entries,
                ROOT_DEPTH as nat,
                0,
                config,
            ),
        },
{
    if walked_all(entries, ROOT_DEPTH as nat, 0, config) is Ok {
        lemma_walked_within(entries, ROOT_DEPTH as nat, 0, config);
    }
    if readable(entries) {
        lemma_walked_readable(entries, ROOT_DEPTH as nat, 0, config);
    }
}

/// A walk over a directory that nests deeper than the limit allows fails,
/// wherever in the tree the deepest directory sits; it fails on the limits
/// where nothing in the listing fails by itself. The root sits at level 1
/// and is not held against the limit, so the listing has to hold a
/// subdirectory.
pub proof fn walk_over_depth_fails(path: Seq<char>, entries: Seq<Entry>, config: DropConfig)
    requires
        nesting(entries) >= 1,
        ROOT_DEPTH + nesting(entries) > config.dir_depth_limit,
    ensures
        walked(path, entries, config) is Err,
        leaf_name(path) is Ok && readable(entries) ==> walked(path, entries, config) == Err::<
            Tree,
            Error,
        >(Error::TransferLimitsExceeded),
{
    walk_holds_the_limits(path, entries, config);
}

/// A walk over a directory that holds more files and directories than the
/// limit allows fails; it fails on the limits where nothing in the listing
/// fails by itself.
pub proof fn walk_over_breadth_fails(path: Seq<char>, entries: Seq<Entry>, config: DropConfig)
    requires
        entry_count(entries) > config.transfer_file_limit,
    ensures
        walked(path, entries, config) is Err,
        leaf_name(path) is Ok && readable(entries) ==> walked(path, entries, config) == Err::<
            Tree,
            Error,
        >(Error::TransferLimitsExceeded),
{
    walk_holds_the_limits(path, entries, config);
}

/// The tree of a walk is no larger than the listing: whatever the walk took
/// in, its children hold no more nodes than the listing holds files and
/// directories, and no more levels than the listing nests.
pub proof fn lemma_walked_size(entries: Seq<Entry>, depth: nat, breadth: nat, config: DropConfig)
    requires
        walked_all(entries, depth, breadth, config) is Ok,
    ensures
        count_of(walked_all(entries, depth, breadth, config)->Ok_0.0) <= entry_count(entries),
        levels_of(walked_all(entries, depth, breadth, config)->Ok_0.0) <= nesting(entries),
    decreases entries, 0nat,
{
    if entries.len() > 0 {
        let before = walked_all(entries.drop_last(), depth, breadth, config)->Ok_0;
        lemma_walked_size(entries.drop_last(), depth, breadth, config);
        lemma_entry_size(entries.last(), before.0, depth, before.1, config);
    }
}

/// One more entry adds no more nodes to a directory's children than the
/// entry holds files and directories, and no more levels than it nests.
pub proof fn lemma_entry_size(
    entry: Entry,
    children: Seq<Tree>,
    depth: nat,
    breadth: nat,
    config: DropConfig,
)
    requires
        walked_entry(entry, children, depth, breadth, config) is Ok,
    ensures
        count_of(walked_entry(entry, children, depth, breadth, config)->Ok_0.0) <= count_of(
            children,
        ) + count_in(entry),
        levels_of(walked_entry(entry, children, depth, breadth, config)->Ok_0.0) <= levels_of(
            children,
        ) || levels_of(walked_entry(entry, children, depth, breadth, config)->Ok_0.0)
            <= nesting_in(entry),
    decreases entry, 0nat,
{
    match entry {
        Entry::Dir { path, entries } => {
            lemma_walked_size(entries@, depth + 1, breadth, config);
            lemma_inserted_size(
                children,
                walked_dir(path@, entries@, depth + 1, breadth, config)->Ok_0.0,
            );
        },
        Entry::File { path, meta, read } => {
            lemma_inserted_size(children, found_at(path@, meta, read@)->Ok_0);
        },
        _ => {},
    }
}

/// The tree that a walk gives is itself within the limits: it holds no more
/// nodes below its root than the limit on entries allows, and its deepest
/// directory sits at a level that the limit on depth allows, the root at
/// level 1 not being held against that limit. It is no larger than the
/// listing it was made from.
pub proof fn walked_tree_is_within_limits(path: Seq<char>, entries: Seq<Entry>, config: DropConfig)
    requires
        walked(path, entries, config) is Ok,
    ensures
        walked(path, entries, config)->Ok_0.count() <= entry_count(entries),
        walked(path, entries, config)->Ok_0.levels() <= ROOT_DEPTH + nesting(entries),
        walked(path, entries, config)->Ok_0.count() <= config.transfer_file_limit,
        walked(path, entries, config)->Ok_0.levels() <= ROOT_DEPTH || walked(
            path,
            entries,
            config,
        )->Ok_0.levels() <= config.dir_depth_limit,
{
    walk_holds_the_limits(path, entries, config);
    lemma_walked_size(entries, ROOT_DEPTH as nat, 0, config);
}

/// An entry that is neither file nor directory changes nothing: with such
/// an entry put into a listing at any place, the walk gives the children,
/// the count and the errors that it gives without it.
pub proof fn walk_passes_over_others(
    entries: Seq<Entry>,
    at: int,
    depth: nat,
    breadth: nat,
    config: DropConfig,
)
    requires
        0 <= at <= entries.len(),
    ensures
        walked_all(entries.insert(at, Entry::Other), depth, breadth, config) == walked_all(
            entries,
            depth,
            breadth,
            config,
        ),
        entry_count(entries.insert(at, Entry::Other)) == entry_count(entries),
    decreases entries.len() - at,
{
    let with = entries.insert(at, Entry::Other);
    if at == entries.len() {
        assert(with.drop_last() =~= entries);
        assert(count_in(with.last()) == 0);
        match walked_all(entries, depth, breadth, config) {
            Ok(done) => {
                assert(walked_entry(with.last(), done.0, depth, done.1, config) == Ok::<
                    (Seq<Tree>, nat),
                    Error,
                >(done));
            },
            Err(error) => {},
        }
    } else {
        walk_passes_over_others(entries.drop_last(), at, depth, breadth, config);
        assert(with.drop_last() =~= entries.drop_last().insert(at, Entry::Other));
    }
}

/// The children that a walk over a listing gives have distinct names and
/// are valid trees.
pub proof fn lemma_walked_valid(entries: Seq<Entry>, depth: nat, breadth: nat, config: DropConfig)
    requires
        walked_all(entries, depth, breadth, config) is Ok,
    ensures
        valid_children(walked_all(entries, depth, breadth, config)->Ok_0.0),
    decreases entries, 0nat,
{
    if entries.len() > 0 {
        let before = walked_all(entries.drop_last(), depth, breadth, config)->Ok_0;
        lemma_walked_valid(entries.drop_last(), depth, breadth, config);
        lemma_entry_valid(entries.last(), before.0, depth, before.1, config);
    }
}

/// Valid children stay valid when the walk takes one more entry in.
pub proof fn lemma_entry_valid(
    entry: Entry,
    children: Seq<Tree>,
    depth: nat,
    breadth: nat,
    config: DropConfig,
)
    requires
        valid_children(children),
        walked_entry(entry, children, depth, breadth, config) is Ok,
    ensures
        valid_children(walked_entry(entry, children, depth, breadth, config)->Ok_0.0),
    decreases entry, 0nat,
{
    match entry {
        Entry::Dir { path, entries } => {
            lemma_walked_valid(entries@, depth + 1, breadth, config);
            let node = walked_dir(path@, entries@, depth + 1, breadth, config)->Ok_0.0;
            lemma_inserted(children, node);
        },
        Entry::File { path, meta, read } => {
            lemma_inserted(children, found_at(path@, meta, read@)->Ok_0);
        },
        _ => {},
    }
}

/// The tree that a walk gives is valid: no directory of it holds a name
/// twice, and none of its outgoing files has a directory's metadata.
pub proof fn walked_tree_is_valid(path: Seq<char>, entries: Seq<Entry>, config: DropConfig)
    requires
        walked(path, entries, config) is Ok,
    ensures
        walked(path, entries, config)->Ok_0.wf(),
{
    lemma_walked_valid(entries, ROOT_DEPTH as nat, 0, config);
}

} // verus!
