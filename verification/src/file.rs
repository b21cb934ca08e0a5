//! The nodes of a file tree and what can be asked of them.

pub use crate::hash::checksum;

use crate::error::Error;
use crate::hash::{hashable, limited, sha256, Checksum};
use crate::info::{kilobytes, summary_is_filled, FileInfo, Summary};
use crate::meta::{FileType, Metadata};
use crate::path::{extension_of, leaf_name, name_of, path_extension, text_of};
use crate::sniff::{detected_type, header, sniff_header, sniffed, unknown};
use crate::tree::{
    descendants_of, distinct_names, has_name, inserted, lemma_inserted, lemma_place_of, place_of,
    valid_children, OpenDir, SourceView, Tree, TreeKind,
};
use vstd::prelude::*;

verus! {

/// How the bytes of an outgoing file are reached.
pub enum FileSource {
    /// By a path, which is opened anew for every read.
    Path(String),
    /// By a descriptor that was handed over to the node. The node is its
    /// one owner; the descriptor stays open for as long as the node lives.
    Fd(i32),
}

impl View for FileSource {
    type V = SourceView;

    open spec fn view(&self) -> SourceView {
        match self {
            FileSource::Path(path) => SourceView::Path(path@),
            FileSource::Fd(fd) => SourceView::Fd(*fd),
        }
    }
}

/// What a node is, beside its name.
pub enum FileKind {
    /// A directory with its children, no two of the same name.
    Dir { children: Vec<File> },
    /// A local file that can be read and sent.
    FileToSend { meta: Metadata, source: FileSource, mime_type: Option<String> },
    /// A file that is expected to arrive, of which only the size is known.
    FileToRecv { size: u64 },
}

/// A node of a file tree, with everything below it. A node does not change
/// once it is built.
pub struct File {
    name: String,
    kind: FileKind,
}

/// What an attempt to build a node gave, as a tree.
pub open spec fn built(result: Result<File, Error>) -> Result<Tree, Error> {
    match result {
        Ok(file) => Ok(file@),
        Err(error) => Err(error),
    }
}

/// The node for a file found under `path`, with the metadata `meta` and
/// `read` being what was read from its start. A path without a last
/// component is refused first, then a symbolic link, then a directory.
pub open spec fn found_at(path: Seq<char>, meta: Metadata, read: Seq<u8>) -> Result<Tree, Error> {
    match leaf_name(path) {
        Err(error) => Err(error),
        Ok(name) => if meta.file_type == FileType::Symlink {
            Err(Error::BadFile)
        } else {
            outgoing(name, meta, SourceView::Path(path), sniffed(header(read)))
        },
    }
}

/// The node for a file reached by the descriptor `fd` and named after
/// `path`, with the metadata `meta` and `read` being what was read from its
/// start.
pub open spec fn found_by_fd(path: Seq<char>, fd: i32, meta: Metadata, read: Seq<u8>) -> Result<
    Tree,
    Error,
> {
    match leaf_name(path) {
        Err(error) => Err(error),
        Ok(name) => outgoing(name, meta, SourceView::Fd(fd), sniffed(header(read))),
    }
}

/// An outgoing file of the given name, metadata, source and content type.
/// The metadata of a directory is refused.
pub open spec fn outgoing(
    name: Seq<char>,
    meta: Metadata,
    source: SourceView,
    mime_type: Seq<char>,
) -> Result<Tree, Error> {
    if meta.file_type == FileType::Dir {
        Err(Error::DirectoryNotExpected)
    } else {
        Ok(Tree { name, kind: TreeKind::FileToSend { meta, source, mime_type: Some(mime_type) } })
    }
}

/// The trees that a sequence of nodes stands for.
pub open spec fn trees(files: Seq<File>) -> Seq<Tree> {
    Seq::new(files.len(), |i: int| files[i]@)
}

/// The trees that a sequence of borrowed nodes stands for.
pub open spec fn trees_of(files: Seq<&File>) -> Seq<Tree> {
    Seq::new(files.len(), |i: int| files[i]@)
}

/// The trees of the first `n` nodes of a sequence.
spec fn first_trees(files: Seq<File>, n: nat) -> Seq<Tree>
    decreases files, n,
{
    if n == 0 || n > files.len() {
        Seq::empty()
    } else {
        first_trees(files, (n - 1) as nat).push(files[n - 1]@)
    }
}

impl View for FileKind {
    type V = TreeKind;

    closed spec fn view(&self) -> TreeKind
        decreases self,
    {
        match self {
            FileKind::Dir { children } => TreeKind::Dir {
                children: first_trees(children@, children@.len()),
            },
            FileKind::FileToSend { meta, source, mime_type } => TreeKind::FileToSend {
                meta: *meta,
                source: source@,
                mime_type: text_of(*mime_type),
            },
            FileKind::FileToRecv { size } => TreeKind::FileToRecv { size: *size },
        }
    }
}

impl View for File {
    type V = Tree;

    closed spec fn view(&self) -> Tree
        decreases self,
    {
        Tree { name: self.name@, kind: self.kind@ }
    }
}

/// What a node's kind stands for, read off the kind: a directory's
/// children are the trees of its children.
pub open spec fn kind_of(kind: FileKind) -> TreeKind {
    match kind {
        FileKind::Dir { children } => TreeKind::Dir { children: trees(children@) },
        FileKind::FileToSend { meta, source, mime_type } => TreeKind::FileToSend {
            meta,
            source: source@,
            mime_type: text_of(mime_type),
        },
        FileKind::FileToRecv { size } => TreeKind::FileToRecv { size },
    }
}

proof fn lemma_first_trees(files: Seq<File>, n: nat)
    requires
        n <= files.len(),
    ensures
        first_trees(files, n) == trees(files).take(n as int),
    decreases n,
{
    if n > 0 {
        lemma_first_trees(files, (n - 1) as nat);
        assert(first_trees(files, n) == first_trees(files, (n - 1) as nat).push(files[n - 1]@));
    }
}

/// The view of a kind is what can be read off it.
pub proof fn lemma_kind(kind: FileKind)
    ensures
        kind@ == kind_of(kind),
{
    match kind {
        FileKind::Dir { children } => {
            lemma_first_trees(children@, children@.len());
            assert(trees(children@).take(children@.len() as int) =~= trees(children@));
        },
        _ => {},
    }
}

/// The children of a directory's tree are the trees of its children.
proof fn lemma_children(children: Vec<File>)
    ensures
        (FileKind::Dir { children })@ == (TreeKind::Dir { children: trees(children@) }),
{
    lemma_kind(FileKind::Dir { children });
}

impl File {
    #[verifier::type_invariant]
    spec fn valid(&self) -> bool {
        self@.wf()
    }

    /// The node's own name: the last component of the path it was found
    /// under, not the path.
    pub fn name(&self) -> (name: &str)
        ensures
            name@ == self@.name,
    {
        self.name.as_str()
    }

    /// What the node is.
    pub fn kind(&self) -> (kind: &FileKind)
        ensures
            kind@ == self@.kind,
            self@.wf(),
    {
        proof {
            use_type_invariant(self);
        }
        &self.kind
    }

    /// The size of a file in bytes; a directory has none.
    pub fn size(&self) -> (size: Option<u64>)
        ensures
            size == self@.size(),
    {
        match &self.kind {
            FileKind::FileToSend { meta, .. } => Some(meta.len),
            FileKind::FileToRecv { size } => Some(*size),
            FileKind::Dir { .. } => None,
        }
    }

    /// Whether the node is a directory.
    pub fn is_dir(&self) -> (dir: bool)
        ensures
            dir == self@.is_dir(),
    {
        match &self.kind {
            FileKind::Dir { .. } => true,
            _ => false,
        }
    }

    /// The direct child of the given name, where the node is a directory
    /// that has one.
    pub fn child(&self, name: &String) -> (child: Option<&File>)
        ensures
            match child {
                Some(c) => self@.child(name@) == Some(c@),
                None => self@.child(name@) is None,
            },
    {
        proof {
            use_type_invariant(self);
        }
        match &self.kind {
            FileKind::Dir { children } => {
                proof {
                    lemma_children(*children);
                }
                let mut i: usize = 0;
                while i < children.len()
                    invariant
                        i <= children.len(),
                        self@.children() == trees(children@),
                        distinct_names(self@.children()),
                        forall|j: int| 0 <= j < i ==> (#[trigger] children@[j])@.name != name@,
                    decreases children.len() - i,
                {
                    if children[i].name == *name {
                        proof {
                            lemma_place_of(self@.children(), i as int);
                        }
                        return Some(&children[i]);
                    }
                    i += 1;
                }
                assert(!has_name(self@.children(), name@)) by {
                    if has_name(self@.children(), name@) {
                        let j = place_of(self@.children(), name@);
                        assert(children@[j]@.name == name@);
                    }
                }
                None
            },
            _ => None,
        }
    }

    /// The direct children of the node: none where it is no directory.
    pub fn children(&self) -> (children: Vec<&File>)
        ensures
            trees_of(children@) == self@.children(),
    {
        let mut all: Vec<&File> = Vec::new();
        match &self.kind {
            FileKind::Dir { children } => {
                proof {
                    lemma_children(*children);
                }
                let mut i: usize = 0;
                while i < children.len()
                    invariant
                        i <= children.len(),
                        all@.len() == i,
                        forall|j: int| 0 <= j < i ==> *(#[trigger] all@[j]) == children@[j],
                    decreases children.len() - i,
                {
                    all.push(&children[i]);
                    i += 1;
                }
            },
            _ => {},
        }
        all
    }

    /// Every node below this one, each once, in depth-first order with a
    /// directory before its content. The node itself is not among them.
    pub fn iter(&self) -> (all: Vec<&File>)
        ensures
            trees_of(all@) == self@.descendants(),
        decreases self,
    {
        let mut all: Vec<&File> = Vec::new();
        match &self.kind {
            FileKind::Dir { children } => {
                let ghost below = self@.children();
                proof {
                    lemma_children(*children);
                }
                let mut i: usize = 0;
                while i < children.len()
                    invariant
                        i <= children.len(),
                        below == trees(children@),
                        trees_of(all@) == descendants_of(below.take(i as int)),
                        self.kind == (FileKind::Dir { children: *children }),
                    decreases children.len() - i,
                {
                    let child = &children[i];
                    let ghost before = all@;
                    proof {
                        assert(decreases_to!(self.kind->children =>
                            self.kind->children@[i as int]));
                    }
                    let mut under = children[i].iter();
                    let ghost under_seq = under@;
                    all.push(child);
                    all.append(&mut under);
                    proof {
                        let upto = below.take(i as int + 1);
                        assert(upto.drop_last() =~= below.take(i as int));
                        assert(trees_of(all@) =~= trees_of(before) + seq![child@] + trees_of(
                            under_seq,
                        ));
                    }
                    i += 1;
                }
                assert(below.take(i as int) =~= below);
            },
            _ => {},
        }
        all
    }

    /// The summary of an outgoing file: its content type, the extension of
    /// its name and its size in kilobytes. Other nodes have none. Every
    /// field holds a value: a content type or an extension that is missing
    /// or empty reads "unknown", and a name without a dot has no extension.
    pub fn info(&self) -> (info: Option<FileInfo>)
        ensures
            match info {
                Some(i) => {
                    &&& self@.info() == Some(i@)
                    &&& i@.mime_type.len() > 0
                    &&& i@.extension.len() > 0
                    &&& i@.size_kb >= 0
                    &&& !self@.name.contains('.') ==> i@.extension == unknown()
                },
                None => self@.info() is None,
            },
    {
        match &self.kind {
            FileKind::FileToSend { meta, mime_type, .. } => {
                let kind = match mime_type {
                    Some(kind) => Some(kind.clone()),
                    None => None,
                };
                Some(FileInfo::new(kind, path_extension(self.name.as_str()), meta.len))
            },
            _ => None,
        }
    }

    /// What has to be opened to read an outgoing file, with the metadata
    /// that was captured when the file was found. Nodes of the other kinds
    /// have no backing file.
    pub fn source(&self) -> (source: Result<(&FileSource, &Metadata), Error>)
        ensures
            match source {
                Ok((from, captured)) => self@.kind == (TreeKind::FileToSend {
                    meta: *captured,
                    source: from@,
                    mime_type: self@.kind->mime_type,
                }),
                Err(error) => !(self@.kind is FileToSend) && error == Error::BadFile,
            },
    {
        match &self.kind {
            FileKind::FileToSend { meta, source, .. } => Ok((source, meta)),
            _ => Err(Error::BadFile),
        }
    }

    /// The SHA-256 digest of an outgoing file whose bytes are `content`, cut
    /// off after `limit` bytes. Nodes of the other kinds have no backing
    /// file, and content that is too long for SHA-256 cannot be hashed.
    pub fn checksum(&self, content: &[u8], limit: u64) -> (digest: Result<[u8; 32], Error>)
        ensures
            match digest {
                Ok(d) => {
                    &&& self@.kind is FileToSend
                    &&& hashable(limited(content@, limit))
                    &&& d@ == sha256(limited(content@, limit))
                },
                Err(error) => {
                    &&& !(self@.kind is FileToSend && hashable(limited(content@, limit)))
                    &&& error == Error::BadFile
                },
            },
    {
        match &self.kind {
            FileKind::FileToSend { .. } => Ok(Checksum::new(limit).update(content)?.finalize()),
            _ => Err(Error::BadFile),
        }
    }

    /// A placeholder for a file that is expected to arrive.
    pub fn to_recv(name: String, size: u64) -> (file: File)
        ensures
            file@ == (Tree { name: name@, kind: TreeKind::FileToRecv { size } }),
    {
        File { name, kind: FileKind::FileToRecv { size } }
    }

    /// An outgoing file of the given name, metadata, source and content
    /// type. The metadata of a directory is refused.
    pub fn to_send(name: String, meta: Metadata, source: FileSource, mime_type: String) -> (file:
        Result<File, Error>)
        ensures
            built(file) == outgoing(name@, meta, source@, mime_type@),
    {
        meta.expect_file()?;
        Ok(File { name, kind: FileKind::FileToSend { meta, source, mime_type: Some(mime_type) } })
    }

    /// The node for the file found under `path`. `meta` is the file's
    /// metadata and `read` what was read from its start, of which the first
    /// `HEADER_SIZE` bytes are sniffed.
    pub fn new(path: String, meta: Metadata, read: &[u8]) -> (file: Result<File, Error>)
        ensures
            built(file) == found_at(path@, meta, read@),
    {
        let name = match name_of(path.as_str()) {
            Ok(name) => name,
            Err(error) => {
                return Err(error);
            },
        };
        meta.expect_no_link()?;
        File::to_send(name, meta, FileSource::Path(path), sniff_header(read))
    }

    /// The node for the file behind the descriptor `fd`, named after
    /// `path`. `meta` is the file's metadata and `read` what was read from
    /// its start, of which the first `HEADER_SIZE` bytes are sniffed. The
    /// node takes the descriptor over.
    pub fn new_with_fd(path: &str, fd: i32, meta: Metadata, read: &[u8]) -> (file: Result<
        File,
        Error,
    >)
        ensures
            built(file) == found_by_fd(path@, fd, meta, read@),
    {
        let name = match name_of(path) {
            Ok(name) => name,
            Err(error) => {
                return Err(error);
            },
        };
        File::to_send(name, meta, FileSource::Fd(fd), sniff_header(read))
    }
}

/// A directory that is being filled.
pub struct DirBuilder {
    name: String,
    children: Vec<File>,
}

impl View for DirBuilder {
    type V = OpenDir;

    closed spec fn view(&self) -> OpenDir {
        OpenDir { name: self.name@, children: trees(self.children@) }
    }
}

impl DirBuilder {
    #[verifier::type_invariant]
    spec fn valid(&self) -> bool {
        valid_children(trees(self.children@))
    }

    /// An empty directory of the given name.
    pub fn new(name: String) -> (dir: DirBuilder)
        ensures
            dir@ == (OpenDir { name: name@, children: Seq::empty() }),
    {
        let dir = DirBuilder { name, children: Vec::new() };
        assert(dir@.children =~= Seq::<Tree>::empty());
        dir
    }

    /// Puts a child in. It takes the place of a child of the same name.
    pub fn insert(self, child: File) -> (dir: DirBuilder)
        ensures
            dir@ == self@.with(child@),
    {
        proof {
            use_type_invariant(&self);
            use_type_invariant(&child);
            lemma_inserted(self@.children, child@);
        }
        let ghost before = self@.children;
        let ghost node = child@;
        let DirBuilder { name, mut children } = self;
        let mut i: usize = 0;
        while i < children.len()
            invariant
                i <= children.len(),
                before == trees(children@),
                before == self@.children,
                name@ == self@.name,
                valid_children(before),
                distinct_names(inserted(before, node)),
                node == child@,
                node.wf(),
                forall|j: int| 0 <= j < i ==> (#[trigger] children@[j])@.name != node.name,
            decreases children.len() - i,
        {
            if children[i].name == child.name {
                proof {
                    lemma_place_of(before, i as int);
                }
                children.set(i, child);
                assert(trees(children@) =~= inserted(before, node));
                return DirBuilder { name, children };
            }
            i += 1;
        }
        assert(!has_name(before, node.name)) by {
            if has_name(before, node.name) {
                let j = place_of(before, node.name);
                assert(children@[j]@.name == node.name);
            }
        }
        children.push(child);
        assert(trees(children@) =~= inserted(before, node));
        DirBuilder { name, children }
    }

    /// The directory with the children that were put in.
    pub fn build(self) -> (file: File)
        ensures
            file@ == self@.tree(),
    {
        proof {
            use_type_invariant(&self);
        }
        let DirBuilder { name, children } = self;
        proof {
            lemma_children(children);
        }
        File { name, kind: FileKind::Dir { children } }
    }
}

/// A path whose last component is a symbolic link gives no node: the
/// link is never followed.
pub proof fn symlink_is_refused(path: Seq<char>, meta: Metadata, read: Seq<u8>)
    requires
        meta.file_type == FileType::Symlink,
    ensures
        found_at(path, meta, read) is Err,
{
}

/// The size of a node that was just built is the length that the file's
/// metadata gave at that time.
pub proof fn size_is_length_found(path: Seq<char>, fd: i32, meta: Metadata, read: Seq<u8>)
    ensures
        found_at(path, meta, read) is Ok ==> found_at(path, meta, read)->Ok_0.size() == Some(
            meta.len,
        ),
        found_by_fd(path, fd, meta, read) is Ok ==> found_by_fd(path, fd, meta, read)->Ok_0.size()
            == Some(meta.len),
{
}

/// The summary of a file in whose start no signature is found and whose
/// name has no extension reads "unknown" twice, with the size in kilobytes.
pub proof fn unknown_file_info(path: Seq<char>, meta: Metadata, read: Seq<u8>)
    requires
        found_at(path, meta, read) is Ok,
        detected_type(header(read)) is None,
        extension_of(leaf_name(path)->Ok_0) is None,
    ensures
        found_at(path, meta, read)->Ok_0.info() == Some(
            Summary { mime_type: unknown(), extension: unknown(), size_kb: kilobytes(meta.len) },
        ),
{
}

/// No field of a summary is left empty, whatever the node: a content type
/// or an extension that is missing or empty reads "unknown", and the size
/// is not negative.
pub proof fn info_is_filled(tree: Tree)
    requires
        tree.info() is Some,
    ensures
        tree.info()->Some_0.mime_type.len() > 0,
        tree.info()->Some_0.extension.len() > 0,
        tree.info()->Some_0.size_kb >= 0,
        tree.kind->mime_type == Some(Seq::<char>::empty()) ==> tree.info()->Some_0.mime_type
            == unknown(),
        extension_of(tree.name) == Some(Seq::<char>::empty()) ==> tree.info()->Some_0.extension
            == unknown(),
{
    summary_is_filled(tree.kind->mime_type, extension_of(tree.name), tree.kind->meta.len);
}

} // verus!
