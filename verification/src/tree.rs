//! The mathematical model of a file tree.
//!
//! A tree is a node with a name; a directory holds its children in a
//! sequence in which no name occurs twice. The order of the sequence is the
//! order in which the children were put in; it carries no meaning.

use crate::info::{summary, Summary};
use crate::meta::{FileType, Metadata};
use crate::path::extension_of;
use vstd::prelude::*;

verus! {

/// How the bytes of an outgoing file are reached.
pub enum SourceView {
    /// By a path that is opened anew for each read.
    Path(Seq<char>),
    /// By a descriptor that the node owns.
    Fd(i32),
}

/// What a node is, beside its name.
pub enum TreeKind {
    /// A directory with its children.
    Dir { children: Seq<Tree> },
    /// A local file that can be read and sent.
    FileToSend { meta: Metadata, source: SourceView, mime_type: Option<Seq<char>> },
    /// A file that is expected to arrive, of which only the size is known.
    FileToRecv { size: u64 },
}

/// A node of a file tree, with everything below it.
pub struct Tree {
    pub name: Seq<char>,
    pub kind: TreeKind,
}

/// A directory that is being filled: its name and the children put in so
/// far.
pub struct OpenDir {
    pub name: Seq<char>,
    pub children: Seq<Tree>,
}

impl OpenDir {
    /// The directory as a node of a tree.
    pub open spec fn tree(self) -> Tree {
        Tree { name: self.name, kind: TreeKind::Dir { children: self.children } }
    }

    /// The directory with one more child put in.
    pub open spec fn with(self, child: Tree) -> OpenDir {
        OpenDir { name: self.name, children: inserted(self.children, child) }
    }
}

/// Whether no two nodes of a sequence have the same name.
pub open spec fn distinct_names(nodes: Seq<Tree>) -> bool {
    forall|i: int, j: int| 0 <= i < j < nodes.len() ==> nodes[i].name != nodes[j].name
}

/// Whether a sequence of nodes can be the children of a directory: the
/// nodes are valid trees with distinct names.
pub open spec fn valid_children(nodes: Seq<Tree>) -> bool {
    &&& distinct_names(nodes)
    &&& forall|i: int| 0 <= i < nodes.len() ==> (#[trigger] nodes[i]).wf()
}

/// Whether some node of a sequence has the given name.
pub open spec fn has_name(nodes: Seq<Tree>, name: Seq<char>) -> bool {
    exists|i: int| 0 <= i < nodes.len() && #[trigger] nodes[i].name == name
}

/// The place of the node with the given name in a sequence that has one.
pub open spec fn place_of(nodes: Seq<Tree>, name: Seq<char>) -> int {
    choose|i: int| 0 <= i < nodes.len() && #[trigger] nodes[i].name == name
}

/// A directory's children after `child` was put in: it takes the place of
/// the child of the same name where there is one, and comes last otherwise.
pub open spec fn inserted(children: Seq<Tree>, child: Tree) -> Seq<Tree> {
    if has_name(children, child.name) {
        children.update(place_of(children, child.name), child)
    } else {
        children.push(child)
    }
}

/// All nodes below the nodes of a sequence, the nodes themselves included,
/// each node before what is below it and before the node that follows it.
pub open spec fn descendants_of(nodes: Seq<Tree>) -> Seq<Tree>
    decreases nodes,
{
    if nodes.len() == 0 {
        Seq::empty()
    } else {
        descendants_of(nodes.drop_last()) + seq![nodes.last()] + nodes.last().descendants()
    }
}

/// The number of nodes in and below the nodes of a sequence.
pub open spec fn count_of(nodes: Seq<Tree>) -> nat
    decreases nodes,
{
    if nodes.len() == 0 {
        0
    } else {
        count_of(nodes.drop_last()) + 1 + nodes.last().count()
    }
}

/// How many levels of directories there are in and below the nodes of a
/// sequence: 0 where none of them is a directory.
pub open spec fn levels_of(nodes: Seq<Tree>) -> nat
    decreases nodes,
{
    if nodes.len() == 0 {
        0
    } else if levels_of(nodes.drop_last()) >= nodes.last().levels() {
        levels_of(nodes.drop_last())
    } else {
        nodes.last().levels()
    }
}

impl Tree {
    /// How many levels of directories the node holds, itself included: 0
    /// for a file, 1 for a directory without subdirectories. It is the
    /// level of the deepest directory of a tree whose root sits at level 1.
    pub open spec fn levels(self) -> nat
        decreases self,
    {
        match self.kind {
            TreeKind::Dir { children } => 1 + levels_of(children),
            _ => 0,
        }
    }

    /// Whether the node is a directory.
    pub open spec fn is_dir(self) -> bool {
        self.kind is Dir
    }

    /// The node's direct children: none where it is no directory.
    pub open spec fn children(self) -> Seq<Tree> {
        match self.kind {
            TreeKind::Dir { children } => children,
            _ => Seq::empty(),
        }
    }

    /// The size of a file in bytes; a directory has none.
    pub open spec fn size(self) -> Option<u64> {
        match self.kind {
            TreeKind::Dir { .. } => None,
            TreeKind::FileToSend { meta, .. } => Some(meta.len),
            TreeKind::FileToRecv { size } => Some(size),
        }
    }

    /// The summary of an outgoing file: its content type, the extension of
    /// its name and its size in kilobytes. Other nodes have none.
    pub open spec fn info(self) -> Option<Summary> {
        match self.kind {
            TreeKind::FileToSend { meta, mime_type, .. } => Some(
                summary(mime_type, extension_of(self.name), meta.len),
            ),
            _ => None,
        }
    }

    /// The direct child of the given name, where there is one.
    pub open spec fn child(self, name: Seq<char>) -> Option<Tree> {
        if has_name(self.children(), name) {
            Some(self.children()[place_of(self.children(), name)])
        } else {
            None
        }
    }

    /// Whether the tree is valid: in every directory of it no two children
    /// have the same name, and no outgoing file has a directory's metadata.
    pub open spec fn wf(self) -> bool
        decreases self,
    {
        match self.kind {
            TreeKind::Dir { children } => {
                &&& distinct_names(children)
                &&& forall|i: int| 0 <= i < children.len() ==> (#[trigger] children[i]).wf()
            },
            TreeKind::FileToSend { meta, .. } => meta.file_type != FileType::Dir,
            TreeKind::FileToRecv { .. } => true,
        }
    }

    /// All nodes below this one in depth-first order, a directory before its
    /// content. The node itself is not among them.
    pub open spec fn descendants(self) -> Seq<Tree>
        decreases self,
    {
        match self.kind {
            TreeKind::Dir { children } => descendants_of(children),
            _ => Seq::empty(),
        }
    }

    /// The number of nodes below this one.
    pub open spec fn count(self) -> nat
        decreases self,
    {
        match self.kind {
            TreeKind::Dir { children } => count_of(children),
            _ => 0,
        }
    }
}

/// In a sequence of distinct names a name has one place only.
pub proof fn lemma_place_of(nodes: Seq<Tree>, i: int)
    requires
        distinct_names(nodes),
        0 <= i < nodes.len(),
    ensures
        has_name(nodes, nodes[i].name),
        place_of(nodes, nodes[i].name) == i,
{
    let j = place_of(nodes, nodes[i].name);
    assert(nodes[j].name == nodes[i].name);
}

/// Putting a child into distinct names leaves the names distinct, and the
/// child is then found under its name.
pub proof fn lemma_inserted(children: Seq<Tree>, child: Tree)
    requires
        distinct_names(children),
    ensures
        distinct_names(inserted(children, child)),
        has_name(inserted(children, child), child.name),
        inserted(children, child)[place_of(inserted(children, child), child.name)] == child,
        has_name(children, child.name) ==> inserted(children, child).len() == children.len(),
        !has_name(children, child.name) ==> inserted(children, child).len() == children.len() + 1,
{
    let after = inserted(children, child);
    let place = if has_name(children, child.name) {
        place_of(children, child.name)
    } else {
        children.len() as int
    };
    lemma_place_of(after, place);
}

/// A node in the place of another adds no more than itself and what is
/// below it to the number of nodes, and no more than its own levels to the
/// levels.
pub proof fn lemma_updated_size(nodes: Seq<Tree>, place: int, node: Tree)
    requires
        0 <= place < nodes.len(),
    ensures
        count_of(nodes.update(place, node)) <= count_of(nodes) + 1 + node.count(),
        levels_of(nodes.update(place, node)) <= levels_of(nodes) || levels_of(
            nodes.update(place, node),
        ) <= node.levels(),
    decreases nodes.len(),
{
    let after = nodes.update(place, node);
    if place == nodes.len() - 1 {
        assert(after.drop_last() =~= nodes.drop_last());
    } else {
        lemma_updated_size(nodes.drop_last(), place, node);
        assert(after.drop_last() =~= nodes.drop_last().update(place, node));
    }
}

/// A child put into a directory adds no more than itself and what is below
/// it to the number of nodes, and no more than its own levels to the levels.
pub proof fn lemma_inserted_size(children: Seq<Tree>, child: Tree)
    ensures
        count_of(inserted(children, child)) <= count_of(children) + 1 + child.count(),
        levels_of(inserted(children, child)) <= levels_of(children) || levels_of(
            inserted(children, child),
        ) <= child.levels(),
{
    if has_name(children, child.name) {
        lemma_updated_size(children, place_of(children, child.name), child);
    } else {
        assert(children.push(child).drop_last() =~= children);
    }
}

/// The node at a position below a sequence of nodes. A position is the
/// way to a node: the place of the node to start from, then the place of
/// the child to go on to, and so on.
pub open spec fn node_at(nodes: Seq<Tree>, position: Seq<int>) -> Option<Tree>
    decreases position.len(),
{
    if position.len() == 0 {
        None
    } else if 0 <= position.first() < nodes.len() {
        let node = nodes[position.first()];
        if position.len() == 1 {
            Some(node)
        } else {
            node_at(node.children(), position.drop_first())
        }
    } else {
        None
    }
}

/// The positions of all nodes in and below a sequence of nodes, in the
/// order of `descendants_of`.
pub open spec fn positions_of(nodes: Seq<Tree>) -> Seq<Seq<int>>
    decreases nodes,
{
    if nodes.len() == 0 {
        Seq::empty()
    } else {
        let last = nodes.len() - 1;
        positions_of(nodes.drop_last()) + seq![seq![last]] + below(
            last,
            nodes.last().positions(),
        )
    }
}

/// The positions below one node as seen from the node's parent, in which
/// the node has the place `place`.
pub open spec fn below(place: int, positions: Seq<Seq<int>>) -> Seq<Seq<int>> {
    Seq::new(positions.len(), |i: int| seq![place] + positions[i])
}

impl Tree {
    /// The positions of all nodes below this one, in the order of
    /// `descendants`.
    pub open spec fn positions(self) -> Seq<Seq<int>>
        decreases self,
    {
        match self.kind {
            TreeKind::Dir { children } => positions_of(children),
            _ => Seq::empty(),
        }
    }

    /// The node at a position below this one.
    pub open spec fn at(self, position: Seq<int>) -> Option<Tree> {
        node_at(self.children(), position)
    }
}

/// The depth-first order holds every node in and below a sequence of nodes
/// once: it is as long as there are nodes, each of its places holds the
/// node at a position of its own, and no position with a node is left out.
pub proof fn descendants_of_hold_each_node_once(nodes: Seq<Tree>)
    ensures
        descendants_of(nodes).len() == count_of(nodes),
        positions_of(nodes).len() == count_of(nodes),
        forall|i: int|
            0 <= i < count_of(nodes) ==> node_at(nodes, #[trigger] positions_of(nodes)[i]) == Some(
                descendants_of(nodes)[i],
            ),
        forall|i: int, j: int|
            0 <= i < j < count_of(nodes) ==> positions_of(nodes)[i] != positions_of(nodes)[j],
        forall|position: Seq<int>| #[trigger]
            node_at(nodes, position) is Some ==> positions_of(nodes).contains(position),
    decreases nodes,
{
    if nodes.len() > 0 {
        let last = nodes.len() - 1;
        let node = nodes.last();
        let before = nodes.drop_last();
        descendants_of_hold_each_node_once(before);
        node.descendants_hold_each_node_once();
        let first = positions_of(before);
        let all = positions_of(nodes);
        let n = count_of(before) as int;
        assert forall|i: int| 0 <= i < count_of(nodes) implies node_at(nodes, #[trigger] all[i])
            == Some(descendants_of(nodes)[i]) && all[i].len() > 0 && (i < n ==> all[i][0] < last)
            && (i >= n ==> all[i][0] == last) && (i == n <==> all[i].len() == 1 && all[i][0]
            == last) by {
            if i < n {
                lemma_node_at_prefix(nodes, first[i]);
            } else if i > n {
                assert(all[i].drop_first() =~= node.positions()[i - n - 1]);
            }
        }
        assert forall|i: int, j: int| 0 <= i < j < count_of(nodes) implies all[i] != all[j] by {
            if i > n {
                assert(all[i].drop_first() =~= node.positions()[i - n - 1]);
                assert(all[j].drop_first() =~= node.positions()[j - n - 1]);
            }
        }
        assert forall|position: Seq<int>| #[trigger]
            node_at(nodes, position) is Some implies all.contains(position) by {
            if position.first() < last {
                lemma_node_at_prefix(nodes, position);
                let i = first.index_of(position);
                assert(all[i] == position);
            } else if position.len() == 1 {
                assert(all[n] == position);
            } else {
                let rest = position.drop_first();
                assert(node.at(rest) is Some);
                let i = node.positions().index_of(rest);
                assert(all[n + 1 + i] == position);
            }
        }
    }
}

/// A position that starts before the last node of a sequence leads to the
/// same node whether or not the last node is there.
proof fn lemma_node_at_prefix(nodes: Seq<Tree>, position: Seq<int>)
    requires
        nodes.len() > 0,
        position.len() > 0,
        position.first() < nodes.len() - 1,
    ensures
        node_at(nodes, position) == node_at(nodes.drop_last(), position),
{
}

impl Tree {
    /// The depth-first order holds every node below this one once. It is as
    /// long as there are nodes below; each of its places holds the node at
    /// a position of its own; and every position at which there is a node
    /// has a place in it.
    pub proof fn descendants_hold_each_node_once(self)
        ensures
            self.descendants().len() == self.count(),
            self.positions().len() == self.count(),
            forall|i: int|
                0 <= i < self.count() ==> self.at(#[trigger] self.positions()[i]) == Some(
                    self.descendants()[i],
                ),
            forall|i: int, j: int|
                0 <= i < j < self.count() ==> self.positions()[i] != self.positions()[j],
            forall|position: Seq<int>| #[trigger]
                self.at(position) is Some ==> self.positions().contains(position),
        decreases self,
    {
        match self.kind {
            TreeKind::Dir { children } => {
                descendants_of_hold_each_node_once(children);
            },
            _ => {},
        }
    }
}

} // verus!
