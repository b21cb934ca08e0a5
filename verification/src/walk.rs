//! Building a file tree from what a look at the filesystem showed, within
//! limits on depth and on the number of entries.

use crate::config::DropConfig;
use crate::error::Error;
use crate::file::{built, found_at, found_by_fd, DirBuilder, File};
use crate::meta::{FileType, Metadata};
use crate::path::{leaf_name, name_of};
use crate::tree::{inserted, OpenDir, Tree, TreeKind};
use vstd::prelude::*;

verus! {

/// What was found in one place of the filesystem.
pub enum Entry {
    /// A directory: its path and its entries in the order of the listing.
    Dir { path: String, entries: Vec<Entry> },
    /// A file that was opened: its path, its metadata and what was read
    /// from its start.
    File { path: String, meta: Metadata, read: Vec<u8> },
    /// Neither a file nor a directory: a symbolic link, a device, a socket
    /// or a pipe.
    Other,
    /// A place that could not be read, with the error that the attempt gave.
    Failed { error: Error },
}

/// The level at which the root of a walk sits.
pub const ROOT_DEPTH: usize = 1;

/// A directory's children and the count of entries after one more node was
/// taken in, or the refusal where the count is then over the limit.
pub open spec fn counted(
    children: Seq<Tree>,
    node: Tree,
    breadth: nat,
    config: DropConfig,
) -> Result<(Seq<Tree>, nat), Error> {
    if config.may_count(breadth) {
        Ok((inserted(children, node), breadth + 1))
    } else {
        Err(Error::TransferLimitsExceeded)
    }
}

/// The walk over the directory at `path` that lists `entries`. The
/// directory sits at level `depth`, and `breadth` entries were counted
/// before it. Gives the directory's node and the count after it, or the
/// first error that the walk meets.
pub open spec fn walked_dir(
    path: Seq<char>,
    entries: Seq<Entry>,
    depth: nat,
    breadth: nat,
    config: DropConfig,
) -> Result<(Tree, nat), Error>
    decreases entries, 1nat,
{
    match leaf_name(path) {
        Err(error) => Err(error),
        Ok(name) => match walked_all(entries, depth, breadth, config) {
            Err(error) => Err(error),
            Ok((children, count)) => Ok((Tree { name, kind: TreeKind::Dir { children } }, count)),
        },
    }
}

/// The walk over the entries of a directory at level `depth`, one after the
/// other, `breadth` entries having been counted before. Gives the
/// directory's children and the count after them, or the first error.
pub open spec fn walked_all(
    entries: Seq<Entry>,
    depth: nat,
    breadth: nat,
    config: DropConfig,
) -> Result<(Seq<Tree>, nat), Error>
    decreases entries, 0nat,
{
    if entries.len() == 0 {
        Ok((Seq::empty(), breadth))
    } else {
        match walked_all(entries.drop_last(), depth, breadth, config) {
            Err(error) => Err(error),
            Ok((children, count)) => walked_entry(entries.last(), children, depth, count, config),
        }
    }
}

/// The walk over one entry of a directory at level `depth` that has the
/// children `children` so far, `breadth` entries having been counted.
///
/// An entry that is neither file nor directory is passed over. A file
/// becomes a node and is counted. A subdirectory is refused where its level
/// is over the limit; otherwise it is walked, and then counted itself.
pub open spec fn walked_entry(
    entry: Entry,
    children: Seq<Tree>,
    depth: nat,
    breadth: nat,
    config: DropConfig,
) -> Result<(Seq<Tree>, nat), Error>
    decreases entry, 0nat,
{
    match entry {
        Entry::Other => Ok((children, breadth)),
        Entry::Failed { error } => Err(error),
        Entry::File { path, meta, read } => match found_at(path@, meta, read@) {
            Err(error) => Err(error),
            Ok(node) => counted(children, node, breadth, config),
        },
        Entry::Dir { path, entries } => if !config.may_descend(depth) {
            Err(Error::TransferLimitsExceeded)
        } else {
            match walked_dir(path@, entries@, depth + 1, breadth, config) {
                Err(error) => Err(error),
                Ok((node, count)) => counted(children, node, count, config),
            }
        },
    }
}

/// The tree for the directory at `path` that lists `entries`, or the error
/// that ends the walk. There is no tree for a part of the directory.
pub open spec fn walked(path: Seq<char>, entries: Seq<Entry>, config: DropConfig) -> Result<
    Tree,
    Error,
> {
    match walked_dir(path, entries, ROOT_DEPTH as nat, 0, config) {
        Ok((tree, count)) => Ok(tree),
        Err(error) => Err(error),
    }
}

/// A walk in progress, as plain values: the limits, the directories that
/// are open, the root first and each inside the one before it, and the
/// number of entries counted.
pub struct WalkerView {
    pub config: DropConfig,
    pub open: Seq<OpenDir>,
    pub breadth: nat,
}

impl WalkerView {
    /// A walk that has just begun: the root is open and empty.
    pub open spec fn start(name: Seq<char>, config: DropConfig) -> WalkerView {
        WalkerView { config, open: seq![OpenDir { name, children: Seq::empty() }], breadth: 0 }
    }

    /// The level of the innermost open directory; the root sits at level 1.
    pub open spec fn depth(self) -> nat {
        self.open.len()
    }

    /// The innermost open directory.
    pub open spec fn top(self) -> OpenDir {
        self.open.last()
    }

    /// The walk with other children in the innermost open directory and
    /// another count.
    pub open spec fn with(self, children: Seq<Tree>, breadth: nat) -> WalkerView {
        WalkerView {
            config: self.config,
            open: self.open.drop_last().push(OpenDir { name: self.top().name, children }),
            breadth,
        }
    }

    /// The walk after it went into the subdirectory at `path`, which is
    /// refused where its level is over the limit or its path has no name.
    pub open spec fn entered(self, path: Seq<char>) -> Result<WalkerView, Error> {
        if !self.config.may_descend(self.depth()) {
            Err(Error::TransferLimitsExceeded)
        } else {
            match leaf_name(path) {
                Err(error) => Err(error),
                Ok(name) => Ok(
                    WalkerView {
                        config: self.config,
                        open: self.open.push(OpenDir { name, children: Seq::empty() }),
                        breadth: self.breadth,
                    },
                ),
            }
        }
    }

    /// The walk after `node` was put into the innermost open directory and
    /// counted, which is refused where the count is then over the limit.
    pub open spec fn added(self, node: Tree) -> Result<WalkerView, Error> {
        match counted(self.top().children, node, self.breadth, self.config) {
            Err(error) => Err(error),
            Ok((children, breadth)) => Ok(self.with(children, breadth)),
        }
    }

    /// The walk after it left the innermost open directory, which thereby
    /// became a node of the directory around it. The root cannot be left:
    /// at the root nothing changes.
    pub open spec fn left(self) -> Result<WalkerView, Error> {
        if self.open.len() <= 1 {
            Ok(self)
        } else {
            WalkerView {
                config: self.config,
                open: self.open.drop_last(),
                breadth: self.breadth,
            }.added(self.top().tree())
        }
    }

    /// The walk after the innermost open directory took in one entry with
    /// all that is below the entry.
    pub open spec fn took(self, entry: Entry) -> Result<WalkerView, Error> {
        match walked_entry(entry, self.top().children, self.depth(), self.breadth, self.config) {
            Ok((children, breadth)) => Ok(self.with(children, breadth)),
            Err(error) => Err(error),
        }
    }

    /// The walk after the innermost open directory, empty so far, took in
    /// what it lists.
    pub open spec fn listed(self, entries: Seq<Entry>) -> Result<WalkerView, Error> {
        match walked_all(entries, self.depth(), self.breadth, self.config) {
            Ok((children, breadth)) => Ok(self.with(children, breadth)),
            Err(error) => Err(error),
        }
    }

    /// The walk after it went through the subdirectory at `path` step by
    /// step: into the directory, through what it lists, and out of it.
    pub open spec fn through(self, path: Seq<char>, entries: Seq<Entry>) -> Result<
        WalkerView,
        Error,
    > {
        match self.entered(path) {
            Err(error) => Err(error),
            Ok(inside) => match inside.listed(entries) {
                Err(error) => Err(error),
                Ok(done) => done.left(),
            },
        }
    }

    /// The tree that the walk gives when it ends now: every directory that
    /// is still open is left, the innermost first.
    pub open spec fn finished(self) -> Result<Tree, Error>
        decreases self.open.len(),
    {
        if self.open.len() <= 1 {
            Ok(self.top().tree())
        } else {
            match self.left() {
                Err(error) => Err(error),
                Ok(outside) => outside.finished(),
            }
        }
    }
}

/// A walk in progress. It is told what is found, in the order in which it
/// is found, and says at each step whether the walk may go on.
pub struct Walker {
    config: DropConfig,
    open: Vec<DirBuilder>,
    breadth: usize,
}

impl View for Walker {
    type V = WalkerView;

    closed spec fn view(&self) -> WalkerView {
        WalkerView {
            config: self.config,
            open: Seq::new(self.open@.len(), |i: int| self.open@[i]@),
            breadth: self.breadth as nat,
        }
    }
}

/// What became of a step of a walk, as plain values.
pub open spec fn stepped(step: Result<Walker, Error>) -> Result<WalkerView, Error> {
    match step {
        Ok(walker) => Ok(walker@),
        Err(error) => Err(error),
    }
}

impl Walker {
    #[verifier::type_invariant]
    spec fn valid(&self) -> bool {
        self.open@.len() >= 1
    }

    /// Begins the walk of the directory at `path`, which is refused where
    /// the path has no name.
    pub fn new(path: &str, config: DropConfig) -> (walker: Result<Walker, Error>)
        ensures
            stepped(walker) == match leaf_name(path@) {
                Ok(name) => Ok::<WalkerView, Error>(WalkerView::start(name, config)),
                Err(error) => Err::<WalkerView, Error>(error),
            },
    {
        let mut open = Vec::new();
        open.push(DirBuilder::new(name_of(path)?));
        let walker = Walker { config, open, breadth: 0 };
        assert(walker@.open =~= WalkerView::start(leaf_name(path@)->Ok_0, config).open);
        Ok(walker)
    }

    /// Goes into the subdirectory at `path`.
    pub fn enter(self, path: &str) -> (walker: Result<Walker, Error>)
        ensures
            stepped(walker) == self@.entered(path@),
            self@.depth() >= 1,
    {
        proof {
            use_type_invariant(&self);
        }
        let Walker { config, mut open, breadth } = self;
        config.descend(open.len())?;
        open.push(DirBuilder::new(name_of(path)?));
        let walker = Walker { config, open, breadth };
        assert(walker@.open =~= self@.entered(path@)->Ok_0.open);
        Ok(walker)
    }

    /// Puts a node into the innermost open directory and counts it.
    pub fn add(self, node: File) -> (walker: Result<Walker, Error>)
        ensures
            stepped(walker) == self@.added(node@),
            self@.depth() >= 1,
    {
        proof {
            use_type_invariant(&self);
        }
        let Walker { config, mut open, breadth } = self;
        let breadth = config.count(breadth)?;
        let top = open.pop().unwrap();
        open.push(top.insert(node));
        let walker = Walker { config, open, breadth };
        assert(walker@.open =~= self@.added(node@)->Ok_0.open);
        Ok(walker)
    }

    /// Leaves the innermost open directory: it becomes a node of the
    /// directory around it and is counted. At the root nothing happens.
    pub fn leave(self) -> (walker: Result<Walker, Error>)
        ensures
            stepped(walker) == self@.left(),
            self@.depth() >= 1,
    {
        proof {
            use_type_invariant(&self);
        }
        if self.open.len() <= 1 {
            return Ok(self);
        }
        let Walker { config, mut open, breadth } = self;
        let node = open.pop().unwrap().build();
        let outside = Walker { config, open, breadth };
        assert(outside@.open =~= self@.open.drop_last());
        outside.add(node)
    }

    /// Ends the walk: every directory that is still open is left, the
    /// innermost first, and the root is the tree.
    pub fn finish(self) -> (tree: Result<File, Error>)
        ensures
            built(tree) == self@.finished(),
    {
        let mut walker = self;
        loop
            invariant
                walker@.finished() == self@.finished(),
            decreases walker@.open.len(),
        {
            proof {
                use_type_invariant(&walker);
            }
            if walker.open.len() <= 1 {
                let mut open = walker.open;
                return Ok(open.pop().unwrap().build());
            }
            walker = walker.leave()?;
        }
    }

    /// Takes in one entry of the innermost open directory, with all that is
    /// below the entry.
    pub fn walk_entry(self, entry: &Entry) -> (walker: Result<Walker, Error>)
        ensures
            self@.depth() >= 1,
            stepped(walker) == self@.took(*entry),
        decreases entry,
    {
        proof {
            use_type_invariant(&self);
        }
        match entry {
            Entry::Other => {
                assert(self@.with(self@.top().children, self@.breadth).open =~= self@.open);
                Ok(self)
            },
            Entry::Failed { error } => Err(*error),
            Entry::File { path, meta, read } => self.add(
                File::new(path.clone(), *meta, read.as_slice())?,
            ),
            Entry::Dir { path, entries } => {
                let inside = self.enter(path.as_str())?;
                let walked = inside.walk_all(entries)?;
                assert(walked@.open.drop_last() =~= self@.open);
                walked.leave()
            },
        }
    }

    /// Takes in the entries of the innermost open directory, which has to
    /// be empty so far, one after the other.
    fn walk_all(self, entries: &Vec<Entry>) -> (walker: Result<Walker, Error>)
        requires
            self@.top().children == Seq::<Tree>::empty(),
        ensures
            stepped(walker) == self@.listed(entries@),
        decreases entries,
    {
        proof {
            use_type_invariant(&self);
            assert(self@.with(Seq::empty(), self@.breadth).open =~= self@.open);
        }
        let mut walker = self;
        let mut i: usize = 0;
        while i < entries.len()
            invariant
                i <= entries.len(),
                self@.depth() >= 1,
                stepped(Ok(walker)) == self@.listed(entries@.take(i as int)),
            decreases entries.len() - i,
        {
            proof {
                assert(entries@.take(i + 1).drop_last() =~= entries@.take(i as int));
            }
            walker = match walker.walk_entry(&entries[i]) {
                Ok(walker) => walker,
                Err(error) => {
                    proof {
                        lemma_error_stays(
                            entries@,
                            i + 1,
                            self@.depth(),
                            self@.breadth,
                            self@.config,
                        );
                    }
                    return Err(error);
                },
            };
            assert(walker@.open =~= self@.listed(entries@.take(i + 1))->Ok_0.open);
            i += 1;
        }
        proof {
            assert(entries@.take(entries@.len() as int) =~= entries@);
        }
        Ok(walker)
    }
}

/// A walker that goes through a directory step by step comes to what the
/// walk over the directory's entry gives: the directory's node is in the
/// directory around it and everything is counted, or the walk has ended
/// with the same error.
pub proof fn walker_steps_are_the_walk(walker: WalkerView, path: String, entries: Vec<Entry>)
    requires
        walker.depth() >= 1,
    ensures
        walker.through(path@, entries@) == walker.took(Entry::Dir { path, entries }),
{
    if walker.entered(path@) is Ok {
        let inside = walker.entered(path@)->Ok_0;
        assert(inside.open.drop_last() =~= walker.open);
        if inside.listed(entries@) is Ok {
            assert(inside.listed(entries@)->Ok_0.open.drop_last() =~= walker.open);
        }
    }
}

/// An error among the first entries is the error of the whole listing.
proof fn lemma_error_stays(
    entries: Seq<Entry>,
    n: int,
    depth: nat,
    breadth: nat,
    config: DropConfig,
)
    requires
        0 <= n <= entries.len(),
        walked_all(entries.take(n), depth, breadth, config) is Err,
    ensures
        walked_all(entries, depth, breadth, config) == walked_all(
            entries.take(n),
            depth,
            breadth,
            config,
        ),
    decreases entries.len() - n,
{
    if n == entries.len() {
        assert(entries.take(n) =~= entries);
    } else {
        assert(entries.take(n + 1).drop_last() =~= entries.take(n));
        lemma_error_stays(entries, n + 1, depth, breadth, config);
    }
}

/// Builds the tree of the directory at `path` from its listing, under the
/// limits of `config`. The root sits at level 1; every file and directory
/// below it counts as one entry. Either the whole tree comes back or the
/// first error that the walk met.
pub fn walk(path: &str, entries: &Vec<Entry>, config: &DropConfig) -> (tree: Result<File, Error>)
    ensures
        built(tree) == walked(path@, entries@, *config),
{
    Walker::new(path, *config)?.walk_all(entries)?.finish()
}

/// The tree for what was found under a path, or by a descriptor.
///
/// With a descriptor: where the platform has none, the request is an
/// invalid argument. Otherwise the node is the file behind the descriptor.
/// A path without a name is a bad path, and a descriptor of a directory is
/// a directory where none was expected.
///
/// Without one: a directory is walked, and anything else that was opened
/// becomes an outgoing file.
///
/// Either way, what could not be read gives its error, and what was not
/// opened is a bad file.
pub open spec fn from_found(
    found: Entry,
    fd: Option<i32>,
    descriptors: bool,
    config: DropConfig,
) -> Result<Tree, Error> {
    match fd {
        Some(fd) => if !descriptors {
            Err(Error::InvalidArgument)
        } else {
            match found {
                Entry::Dir { path, entries } => match leaf_name(path@) {
                    Err(error) => Err(error),
                    Ok(name) => Err(Error::DirectoryNotExpected),
                },
                Entry::File { path, meta, read } => found_by_fd(path@, fd, meta, read@),
                Entry::Other => Err(Error::BadFile),
                Entry::Failed { error } => Err(error),
            }
        },
        None => match found {
            Entry::Dir { path, entries } => walked(path@, entries@, config),
            Entry::File { path, meta, read } => found_at(path@, meta, read@),
            Entry::Other => Err(Error::BadFile),
            Entry::Failed { error } => Err(error),
        },
    }
}

impl File {
    /// Builds the tree for what was found under a path. `fd` is the
    /// descriptor through which the file is to be read, if one was handed
    /// over, and `descriptors` says whether the platform has descriptors.
    pub fn from_path(
        found: &Entry,
        fd: Option<i32>,
        descriptors: bool,
        config: &DropConfig,
    ) -> (tree: Result<File, Error>)
        ensures
            built(tree) == from_found(*found, fd, descriptors, *config),
    {
        match fd {
            Some(fd) => {
                if !descriptors {
                    return Err(Error::InvalidArgument);
                }
                match found {
                    Entry::Dir { path, entries } => {
                        name_of(path.as_str())?;
                        Err(Error::DirectoryNotExpected)
                    },
                    Entry::File { path, meta, read } => File::new_with_fd(
                        path.as_str(),
                        fd,
                        *meta,
                        read.as_slice(),
                    ),
                    Entry::Other => Err(Error::BadFile),
                    Entry::Failed { error } => Err(*error),
                }
            },
            None => match found {
                Entry::Dir { path, entries } => walk(path.as_str(), entries, config),
                Entry::File { path, meta, read } => File::new(path.clone(), *meta, read.as_slice()),
                Entry::Other => Err(Error::BadFile),
                Entry::Failed { error } => Err(*error),
            },
        }
    }
}

/// With a descriptor every cause has its own error: a path without a name
/// is a bad path, and a descriptor whose metadata says directory is a
/// directory where none was expected. Only what was not opened is a bad
/// file, and what could not be read gives the error of the attempt.
pub proof fn descriptor_errors_name_their_cause(
    found: Entry,
    fd: i32,
    config: DropConfig,
)
    ensures
        match found {
            Entry::Dir { path, .. } => from_found(found, Some(fd), true, config) == (
            if leaf_name(path@) is Ok {
                Err::<Tree, Error>(Error::DirectoryNotExpected)
            } else {
                Err::<Tree, Error>(Error::BadPath)
            }),
            Entry::File { path, meta, .. } => {
                &&& leaf_name(path@) is Err ==> from_found(found, Some(fd), true, config) == Err::<
                    Tree,
                    Error,
                >(Error::BadPath)
                &&& leaf_name(path@) is Ok && meta.file_type == FileType::Dir ==> from_found(
                    found,
                    Some(fd),
                    true,
                    config,
                ) == Err::<Tree, Error>(Error::DirectoryNotExpected)
                &&& leaf_name(path@) is Ok && meta.file_type != FileType::Dir ==> from_found(
                    found,
                    Some(fd),
                    true,
                    config,
                ) is Ok
            },
            Entry::Other => from_found(found, Some(fd), true, config) == Err::<Tree, Error>(
                Error::BadFile,
            ),
            Entry::Failed { error } => from_found(found, Some(fd), true, config) == Err::<
                Tree,
                Error,
            >(error),
        },
        from_found(found, Some(fd), false, config) == Err::<Tree, Error>(Error::InvalidArgument),
{
}

} // verus!
