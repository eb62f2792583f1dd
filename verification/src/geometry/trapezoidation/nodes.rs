//! The node tree of a trapezoidal map.
//!
//! Nodes live in an arena and are never removed, so a [`NodeId`] stays valid
//! for as long as the tree that minted it.

use vstd::prelude::*;

verus! {

/// Identifies a node
///
/// Since nodes can only be added, never removed, a `NodeId` is valid in every
/// later state of the tree that minted it.
#[derive(Clone, Copy, Debug, PartialEq, Eq, Structural, Hash)]
pub struct NodeId(usize);

/// How a child hangs below its parent
#[derive(Clone, Copy, Debug, PartialEq, Eq, Structural)]
pub enum Relation {
    Above,
    Below,
}

/// The payload and links of a branch node
#[derive(Debug, PartialEq)]
pub struct BranchNode<T> {
    parent: Option<usize>,
    above: usize,
    below: usize,
    branch: T,
}

/// The payload and link of a leaf node
#[derive(Debug, PartialEq)]
pub struct LeafNode<T> {
    parent: Option<usize>,
    leaf: T,
}

/// A node of the tree
#[derive(Debug, PartialEq)]
pub enum Node<Branch, Leaf> {
    Branch(BranchNode<Branch>),
    Leaf(LeafNode<Leaf>),
}

/// What a node holds, as a plain value
pub enum NodeView<Branch, Leaf> {
    Branch { parent: Option<NodeId>, above: NodeId, below: NodeId, branch: Branch },
    Leaf { parent: Option<NodeId>, leaf: Leaf },
}

impl<Branch, Leaf> NodeView<Branch, Leaf> {
    /// The parent link of the node
    pub open spec fn parent(self) -> Option<NodeId> {
        match self {
            NodeView::Branch { parent, .. } => parent,
            NodeView::Leaf { parent, .. } => parent,
        }
    }

    /// The same node, hanging below another parent
    pub open spec fn with_parent(self, parent: Option<NodeId>) -> Self {
        match self {
            NodeView::Branch { above, below, branch, .. } => NodeView::Branch {
                parent,
                above,
                below,
                branch,
            },
            NodeView::Leaf { leaf, .. } => NodeView::Leaf { parent, leaf },
        }
    }
}

/// The id that a parent link stands for
spec fn link(raw: Option<usize>) -> Option<NodeId> {
    match raw {
        Some(i) => Some(NodeId(i)),
        None => None,
    }
}

impl<Branch, Leaf> View for Node<Branch, Leaf> {
    type V = NodeView<Branch, Leaf>;

    closed spec fn view(&self) -> NodeView<Branch, Leaf> {
        match *self {
            Node::Branch(BranchNode { parent, above, below, branch }) => NodeView::Branch {
                parent: link(parent),
                above: NodeId(above),
                below: NodeId(below),
                branch,
            },
            Node::Leaf(LeafNode { parent, leaf }) => NodeView::Leaf { parent: link(parent), leaf },
        }
    }
}

impl<Branch, Leaf> Node<Branch, Leaf> {
    /// The payload of a branch
    pub fn branch(&self) -> (r: Option<&Branch>)
        ensures
            match self@ {
                NodeView::Branch { branch, .. } => r == Some(&branch),
                NodeView::Leaf { .. } => r is None,
            },
    {
        match self {
            Self::Branch(BranchNode { branch, .. }) => Some(branch),
            Self::Leaf(_) => None,
        }
    }

    /// The payload of a branch, to change it
    pub fn branch_mut(&mut self) -> (r: Option<&mut Branch>)
        ensures
            match old(self)@ {
                NodeView::Branch { parent, above, below, branch } => {
                    &&& r is Some
                    &&& *r->0 == branch
                    &&& final(self)@ == (NodeView::Branch::<Branch, Leaf> {
                        parent,
                        above,
                        below,
                        branch: *final(r->0),
                    })
                },
                NodeView::Leaf { .. } => r is None && final(self)@ == old(self)@,
            },
    {
        match self {
            Self::Branch(BranchNode { branch, .. }) => Some(branch),
            Self::Leaf(_) => None,
        }
    }
}

impl<Branch, Leaf> Node<Branch, Leaf> {
    /// The payload of a leaf
    pub fn leaf(&self) -> (r: Option<&Leaf>)
        ensures
            match self@ {
                NodeView::Branch { .. } => r is None,
                NodeView::Leaf { leaf, .. } => r == Some(&leaf),
            },
    {
        match self {
            Self::Branch(_) => None,
            Self::Leaf(LeafNode { leaf, .. }) => Some(leaf),
        }
    }

    /// The payload of a leaf, to change it
    pub fn leaf_mut(&mut self) -> (r: Option<&mut Leaf>)
        ensures
            match old(self)@ {
                NodeView::Branch { .. } => r is None && final(self)@ == old(self)@,
                NodeView::Leaf { parent, leaf } => {
                    &&& r is Some
                    &&& *r->0 == leaf
                    &&& final(self)@ == (NodeView::Leaf::<Branch, Leaf> {
                        parent,
                        leaf: *final(r->0),
                    })
                },
            },
    {
        match self {
            Self::Branch(_) => None,
            Self::Leaf(LeafNode { leaf, .. }) => Some(leaf),
        }
    }

    fn parent(&self) -> (r: Option<usize>)
        ensures
            link(r) == self@.parent(),
    {
        match self {
            Self::Branch(BranchNode { parent, .. }) => *parent,
            Self::Leaf(LeafNode { parent, .. }) => *parent,
        }
    }

    fn parent_mut(&mut self) -> (r: &mut Option<usize>)
        ensures
            link(*r) == old(self)@.parent(),
            final(self)@ == old(self)@.with_parent(link(*final(r))),
    {
        match self {
            Self::Branch(BranchNode { parent, .. }) => parent,
            Self::Leaf(LeafNode { parent, .. }) => parent,
        }
    }
}

/// The nodes of a tree, each under the id it was given when it was inserted
pub struct Nodes<Branch, Leaf> {
    nodes: Vec<Node<Branch, Leaf>>,
}

impl<Branch, Leaf> View for Nodes<Branch, Leaf> {
    type V = Map<NodeId, NodeView<Branch, Leaf>>;

    closed spec fn view(&self) -> Map<NodeId, NodeView<Branch, Leaf>> {
        arena_view(self.nodes@)
    }
}

/// The nodes of an arena, each under the id that its slot stands for
spec fn arena_view<Branch, Leaf>(arena: Seq<Node<Branch, Leaf>>) -> Map<
    NodeId,
    NodeView<Branch, Leaf>,
> {
    Map::new(|id: NodeId| id.0 < arena.len(), |id: NodeId| arena[id.0 as int]@)
}

/// Writing a slot of the arena changes the node under that slot's id and no other
proof fn lemma_arena_update<Branch, Leaf>(arena: Seq<Node<Branch, Leaf>>, i: usize)
    requires
        i < arena.len(),
    ensures
        forall|node: Node<Branch, Leaf>| #[trigger]
            arena_view(arena.update(i as int, node)) == arena_view(arena).insert(NodeId(i), node@),
{
    assert forall|node: Node<Branch, Leaf>| #[trigger]
        arena_view(arena.update(i as int, node)) == arena_view(arena).insert(
            NodeId(i),
            node@,
        ) by {
        assert(arena_view(arena.update(i as int, node)) =~= arena_view(arena).insert(
            NodeId(i),
            node@,
        ));
    }
}

/// Whether `id` hangs below a parent that is a branch of `tree` and names `id`
/// as one of its children
pub open spec fn parent_mirrors<Branch, Leaf>(
    tree: Map<NodeId, NodeView<Branch, Leaf>>,
    id: NodeId,
) -> bool {
    match tree[id].parent() {
        Some(p) => tree.dom().contains(p) && match tree[p] {
            NodeView::Branch { above, below, .. } => above == id || below == id,
            NodeView::Leaf { .. } => false,
        },
        None => true,
    }
}

/// Whether the children of `id`, if it is a branch, are nodes of `tree`
pub open spec fn children_exist<Branch, Leaf>(
    tree: Map<NodeId, NodeView<Branch, Leaf>>,
    id: NodeId,
) -> bool {
    match tree[id] {
        NodeView::Branch { above, below, .. } => tree.dom().contains(above) && tree.dom().contains(
            below,
        ),
        NodeView::Leaf { .. } => true,
    }
}

/// The links of a tree are consistent: every child of a branch is a node, and
/// the parent of a node is a branch that names the node as a child
pub open spec fn well_linked<Branch, Leaf>(tree: Map<NodeId, NodeView<Branch, Leaf>>) -> bool {
    forall|id: NodeId| #[trigger]
        tree.dom().contains(id) ==> parent_mirrors(tree, id) && children_exist(tree, id)
}

/// The parent of `id` and the side on which `id` hangs below it
pub open spec fn parent_relation<Branch, Leaf>(
    tree: Map<NodeId, NodeView<Branch, Leaf>>,
    id: NodeId,
) -> Option<(NodeId, Relation)> {
    match tree[id].parent() {
        Some(p) => match tree[p] {
            NodeView::Branch { above, .. } => if above == id {
                Some((p, Relation::Above))
            } else {
                Some((p, Relation::Below))
            },
            NodeView::Leaf { .. } => None,
        },
        None => None,
    }
}

/// The tree in which `id` is a branch below `parent` with the children `above`
/// and `below`, and both children hang below `id`
pub open spec fn graft<Branch, Leaf>(
    tree: Map<NodeId, NodeView<Branch, Leaf>>,
    id: NodeId,
    parent: Option<NodeId>,
    branch: Branch,
    above: NodeId,
    below: NodeId,
) -> Map<NodeId, NodeView<Branch, Leaf>> {
    let planted = tree.insert(id, NodeView::Branch { parent, above, below, branch });
    let linked = planted.insert(above, planted[above].with_parent(Some(id)));
    linked.insert(below, linked[below].with_parent(Some(id)))
}

/// The branch `node` with `new_child` in the place of `child`: in the place
/// above if `child` hangs there, else in the place below
pub open spec fn redirect<Branch, Leaf>(
    node: NodeView<Branch, Leaf>,
    child: NodeId,
    new_child: NodeId,
) -> NodeView<Branch, Leaf> {
    match node {
        NodeView::Branch { parent, above, below, branch } => if above == child {
            NodeView::Branch { parent, above: new_child, below, branch }
        } else {
            NodeView::Branch { parent, above, below: new_child, branch }
        },
        NodeView::Leaf { .. } => node,
    }
}

/// The tree in which `new_child` has taken the parent of `child`, and the
/// place of `child` below that parent, and `child` has no parent
pub open spec fn rewire<Branch, Leaf>(
    tree: Map<NodeId, NodeView<Branch, Leaf>>,
    child: NodeId,
    new_child: NodeId,
) -> Map<NodeId, NodeView<Branch, Leaf>> {
    let parent = tree[child].parent();
    let orphaned = tree.insert(child, tree[child].with_parent(None));
    let adopted = orphaned.insert(new_child, orphaned[new_child].with_parent(parent));
    match parent {
        Some(p) => adopted.insert(p, redirect(adopted[p], child, new_child)),
        None => adopted,
    }
}

impl<Branch, Leaf> Nodes<Branch, Leaf> {
    /// The links of the tree are consistent
    pub open spec fn wf(&self) -> bool {
        well_linked(self@)
    }

    /// An empty tree
    pub fn new() -> (nodes: Self)
        ensures
            nodes@ == Map::<NodeId, NodeView<Branch, Leaf>>::empty(),
            nodes.wf(),
    {
        let nodes = Nodes { nodes: Vec::new() };
        assert(nodes@ =~= Map::<NodeId, NodeView<Branch, Leaf>>::empty());
        nodes
    }

    /// Adds a leaf without a parent and returns its id, which no node had before
    pub fn insert_leaf(&mut self, leaf: Leaf) -> (id: NodeId)
        ensures
            !old(self)@.dom().contains(id),
            final(self)@ == old(self)@.insert(id, NodeView::Leaf { parent: None, leaf }),
            old(self).wf() ==> final(self).wf(),
    {
        let id = self.nodes.len();
        self.nodes.push(Node::Leaf(LeafNode { parent: None, leaf }));
        assert(self@ =~= old(self)@.insert(
            NodeId(id),
            NodeView::Leaf { parent: None, leaf },
        ));
        NodeId(id)
    }

    /// The node under `id`
    pub fn get(&self, id: &NodeId) -> (node: &Node<Branch, Leaf>)
        requires
            self@.dom().contains(*id),
        ensures
            node@ == self@[*id],
    {
        &self.nodes[id.0]
    }

    /// The node under `id`, to change its payload
    pub fn get_mut(&mut self, id: &NodeId) -> (node: &mut Node<Branch, Leaf>)
        requires
            old(self)@.dom().contains(*id),
        ensures
            node@ == old(self)@[*id],
            final(self)@ == old(self)@.insert(*id, final(node)@),
    {
        proof {
            lemma_arena_update(self.nodes@, id.0);
        }
        &mut self.nodes[id.0]
    }

    /// Adds a branch without a parent over two nodes that had none, and
    /// returns its id, which no node had before
    pub fn insert_branch(&mut self, branch: Branch, above: &NodeId, below: &NodeId) -> (id: NodeId)
        requires
            old(self)@.dom().contains(*above),
            old(self)@.dom().contains(*below),
            old(self)@[*above].parent() is None,
            old(self)@[*below].parent() is None,
        ensures
            !old(self)@.dom().contains(id),
            final(self)@ == graft(old(self)@, id, None, branch, *above, *below),
            old(self).wf() ==> final(self).wf(),
    {
        let id = NodeId(self.nodes.len());
        proof {
            if well_linked(self@) {
                lemma_graft_keeps_links(self@, id, None, branch, *above, *below);
            }
        }
        let _ = self.insert_branch_internal(&id, branch, None, above, below);
        id
    }

    /// Gives the parent of `child`, and the place of `child` below it, to
    /// `new_child`, and leaves `child` without a parent
    pub fn replace_child(&mut self, child: &NodeId, new_child: &NodeId)
        requires
            old(self)@.dom().contains(*child),
            old(self)@.dom().contains(*new_child),
            parent_mirrors(old(self)@, *child),
        ensures
            final(self)@ == rewire(old(self)@, *child, *new_child),
            old(self).wf() ==> final(self).wf(),
    {
        proof {
            if well_linked(self@) {
                lemma_rewire_keeps_links(self@, *child, *new_child);
            }
        }
        let parent = self.nodes[child.0].parent();
        self.set_parent(child, None);
        self.set_parent(new_child, parent);

        if let Some(parent) = parent {
            proof {
                lemma_arena_update(self.nodes@, parent);
            }
            match &mut self.nodes[parent] {
                Node::Branch(branch) => {
                    if child.0 == branch.above {
                        branch.above = new_child.0;
                    } else {
                        branch.below = new_child.0;
                    }
                },
                Node::Leaf(_) => {},
            }
        }
    }

    /// Turns the leaf under `id` into a branch over two nodes that had no
    /// parent, and returns what the leaf held. The node keeps its parent.
    pub fn change_leaf_to_branch(
        &mut self,
        id: &NodeId,
        branch: Branch,
        above: &NodeId,
        below: &NodeId,
    ) -> (leaf: Leaf)
        requires
            old(self)@.dom().contains(*id),
            old(self)@.dom().contains(*above),
            old(self)@.dom().contains(*below),
            old(self)@[*id] is Leaf,
            *above != *id,
            *below != *id,
            old(self)@[*above].parent() is None,
            old(self)@[*below].parent() is None,
        ensures
            leaf == old(self)@[*id]->leaf,
            final(self)@ == graft(
                old(self)@,
                *id,
                old(self)@[*id].parent(),
                branch,
                *above,
                *below,
            ),
            old(self).wf() ==> final(self).wf(),
    {
        let parent = self.nodes[id.0].parent();
        proof {
            if well_linked(self@) {
                lemma_graft_keeps_links(self@, *id, link(parent), branch, *above, *below);
            }
        }
        match self.insert_branch_internal(id, branch, parent, above, below) {
            Some(Node::Leaf(LeafNode { leaf, .. })) => leaf,
            _ => vstd::pervasive::unreached(),
        }
    }

    /// The parent of the node under `id`, and the side on which the node
    /// hangs below it; `None` for a node without a parent
    pub fn parent_of(&self, id: &NodeId) -> (r: Option<(NodeId, Relation)>)
        requires
            self@.dom().contains(*id),
            parent_mirrors(self@, *id),
        ensures
            r == parent_relation(self@, *id),
    {
        match self.nodes[id.0].parent() {
            Some(parent_id) => {
                match &self.nodes[parent_id] {
                    Node::Branch(parent) => {
                        let relation = if id.0 == parent.above {
                            Relation::Above
                        } else {
                            Relation::Below
                        };
                        Some((NodeId(parent_id), relation))
                    },
                    Node::Leaf(_) => vstd::pervasive::unreached(),
                }
            },
            None => None,
        }
    }

    /// The child that hangs above the branch under `id`
    pub fn above_of(&self, id: &NodeId) -> (r: NodeId)
        requires
            self@.dom().contains(*id),
            self@[*id] is Branch,
        ensures
            r == self@[*id]->above,
    {
        match &self.nodes[id.0] {
            Node::Branch(BranchNode { above, .. }) => NodeId(*above),
            Node::Leaf(_) => vstd::pervasive::unreached(),
        }
    }

    /// The child that hangs below the branch under `id`
    pub fn below_of(&self, id: &NodeId) -> (r: NodeId)
        requires
            self@.dom().contains(*id),
            self@[*id] is Branch,
        ensures
            r == self@[*id]->below,
    {
        match &self.nodes[id.0] {
            Node::Branch(BranchNode { below, .. }) => NodeId(*below),
            Node::Leaf(_) => vstd::pervasive::unreached(),
        }
    }

    /// Every node that is a leaf now, once, with what it holds
    pub fn leafs(&self) -> (r: Vec<(NodeId, &Leaf)>)
        ensures
            forall|k: int|
                0 <= k < r@.len() ==> self@.dom().contains(#[trigger] r@[k].0) && self@[r@[k].0]
                    == (NodeView::Leaf::<Branch, Leaf> {
                    parent: self@[r@[k].0].parent(),
                    leaf: *r@[k].1,
                }),
            forall|id: NodeId|
                self@.dom().contains(id) && self@[id] is Leaf ==> exists|k: int|
                    0 <= k < r@.len() && #[trigger] r@[k].0 == id,
            forall|j: int, k: int|
                0 <= j < k < r@.len() ==> (#[trigger] r@[j]).0 != (#[trigger] r@[k]).0,
    {
        let mut found: Vec<(NodeId, &Leaf)> = Vec::new();
        let mut i: usize = 0;
        while i < self.nodes.len()
            invariant
                i <= self.nodes@.len(),
                forall|k: int|
                    0 <= k < found@.len() ==> (#[trigger] found@[k].0).0 < i
                        && self.nodes@[found@[k].0.0 as int]@ == (NodeView::Leaf::<Branch, Leaf> {
                        parent: self.nodes@[found@[k].0.0 as int]@.parent(),
                        leaf: *found@[k].1,
                    }),
                forall|id: NodeId|
                    id.0 < i && self.nodes@[id.0 as int]@ is Leaf ==> exists|k: int|
                        0 <= k < found@.len() && #[trigger] found@[k].0 == id,
                forall|j: int, k: int|
                    0 <= j < k < found@.len() ==> (#[trigger] found@[j]).0 != (
                    #[trigger] found@[k]).0,
            decreases self.nodes@.len() - i,
        {
            match &self.nodes[i] {
                Node::Leaf(LeafNode { leaf, .. }) => {
                    let ghost before = found@;
                    found.push((NodeId(i), leaf));
                    proof {
                        assert(found@[before.len() as int].0 == NodeId(i));
                        assert forall|id: NodeId|
                            id.0 < i + 1 && self.nodes@[id.0 as int]@ is Leaf implies exists|k: int|
                            0 <= k < found@.len() && #[trigger] found@[k].0 == id by {
                            if id.0 < i {
                                let k = choose|k: int|
                                    0 <= k < before.len() && #[trigger] before[k].0 == id;
                                assert(found@[k].0 == id);
                            } else {
                                assert(found@[before.len() as int].0 == id);
                            }
                        }
                    }
                },
                Node::Branch(_) => {},
            }
            i += 1;
        }
        found
    }

    /// Sets the parent link of the node under `id`
    fn set_parent(&mut self, id: &NodeId, parent: Option<usize>)
        requires
            id.0 < old(self).nodes@.len(),
        ensures
            final(self).nodes@.len() == old(self).nodes@.len(),
            final(self)@ == old(self)@.insert(*id, old(self)@[*id].with_parent(link(parent))),
    {
        proof {
            lemma_arena_update(self.nodes@, id.0);
        }
        *self.nodes[id.0].parent_mut() = parent;
    }

    /// Puts a branch under `id`, which is the id of a node or the next free
    /// one, hangs both children below it, and returns the node that it displaced
    fn insert_branch_internal(
        &mut self,
        id: &NodeId,
        branch: Branch,
        parent: Option<usize>,
        above: &NodeId,
        below: &NodeId,
    ) -> (displaced: Option<Node<Branch, Leaf>>)
        requires
            id.0 <= old(self).nodes@.len(),
            old(self)@.dom().contains(*above),
            old(self)@.dom().contains(*below),
            *above != *id,
            *below != *id,
            old(self)@[*above].parent() is None,
            old(self)@[*below].parent() is None,
        ensures
            final(self)@ == graft(old(self)@, *id, link(parent), branch, *above, *below),
            displaced == if id.0 < old(self).nodes@.len() {
                Some(old(self).nodes@[id.0 as int])
            } else {
                None
            },
    {
        let mut node = Node::Branch(
            BranchNode { parent, above: above.0, below: below.0, branch },
        );
        let ghost planted = self@.insert(
            *id,
            NodeView::Branch { parent: link(parent), above: *above, below: *below, branch },
        );
        let displaced = if id.0 < self.nodes.len() {
            proof {
                lemma_arena_update(self.nodes@, id.0);
            }
            core::mem::swap(&mut self.nodes[id.0], &mut node);
            Some(node)
        } else {
            self.nodes.push(node);
            None
        };
        assert(self@ =~= planted);

        // Update parents of the new children
        self.set_parent(above, Some(id.0));
        self.set_parent(below, Some(id.0));
        displaced
    }
}

/// Planting a branch over two nodes without a parent keeps the links of the
/// tree consistent, where the branch is new and has no parent, or takes the
/// place and the parent of a leaf
proof fn lemma_graft_keeps_links<Branch, Leaf>(
    tree: Map<NodeId, NodeView<Branch, Leaf>>,
    id: NodeId,
    parent: Option<NodeId>,
    branch: Branch,
    above: NodeId,
    below: NodeId,
)
    requires
        well_linked(tree),
        tree.dom().contains(above),
        tree.dom().contains(below),
        above != id,
        below != id,
        tree[above].parent() is None,
        tree[below].parent() is None,
        if tree.dom().contains(id) {
            tree[id] is Leaf && tree[id].parent() == parent
        } else {
            parent is None
        },
    ensures
        well_linked(graft(tree, id, parent, branch, above, below)),
{
    let grown = graft(tree, id, parent, branch, above, below);
    assert forall|x: NodeId| #[trigger] grown.dom().contains(x) implies parent_mirrors(grown, x)
        && children_exist(grown, x) by {
        if x != id {
            assert(tree.dom().contains(x));
            assert(parent_mirrors(tree, x) && children_exist(tree, x));
        }
        if tree.dom().contains(id) {
            assert(parent_mirrors(tree, id));
        }
    }
}

/// Handing the parent of one node to another keeps the links of the tree
/// consistent
proof fn lemma_rewire_keeps_links<Branch, Leaf>(
    tree: Map<NodeId, NodeView<Branch, Leaf>>,
    child: NodeId,
    new_child: NodeId,
)
    requires
        well_linked(tree),
        tree.dom().contains(child),
        tree.dom().contains(new_child),
    ensures
        well_linked(rewire(tree, child, new_child)),
{
    let wired = rewire(tree, child, new_child);
    assert(parent_mirrors(tree, child) && children_exist(tree, child));
    assert forall|x: NodeId| #[trigger] wired.dom().contains(x) implies parent_mirrors(wired, x)
        && children_exist(wired, x) by {
        assert(tree.dom().contains(x));
        assert(parent_mirrors(tree, x) && children_exist(tree, x));
        match tree[child].parent() {
            Some(p) => {
                assert(tree.dom().contains(p));
                assert(parent_mirrors(tree, p) && children_exist(tree, p));
            },
            None => {},
        }
    }
}

/// A branch planted over two different nodes names the first as its child
/// above and the second as its child below, and is the parent of both, on
/// those sides.
pub proof fn lemma_branch_is_parent_of_both<Branch, Leaf>(
    tree: Map<NodeId, NodeView<Branch, Leaf>>,
    id: NodeId,
    parent: Option<NodeId>,
    branch: Branch,
    above: NodeId,
    below: NodeId,
)
    requires
        tree.dom().contains(above),
        tree.dom().contains(below),
        above != below,
        above != id,
        below != id,
    ensures
        graft(tree, id, parent, branch, above, below)[id]->above == above,
        graft(tree, id, parent, branch, above, below)[id]->below == below,
        parent_relation(graft(tree, id, parent, branch, above, below), above) == Some(
            (id, Relation::Above),
        ),
        parent_relation(graft(tree, id, parent, branch, above, below), below) == Some(
            (id, Relation::Below),
        ),
{
}

/// A leaf that becomes a branch keeps its parent, and the side on which it
/// hangs below that parent.
pub proof fn lemma_leaf_keeps_parent_as_branch<Branch, Leaf>(
    tree: Map<NodeId, NodeView<Branch, Leaf>>,
    id: NodeId,
    branch: Branch,
    above: NodeId,
    below: NodeId,
)
    requires
        tree.dom().contains(id),
        tree.dom().contains(above),
        tree.dom().contains(below),
        tree[id] is Leaf,
        parent_mirrors(tree, id),
        above != id,
        below != id,
    ensures
        parent_relation(graft(tree, id, tree[id].parent(), branch, above, below), id)
            == parent_relation(tree, id),
{
}

/// A child that another node replaces is left without a parent.
pub proof fn lemma_replaced_child_is_detached<Branch, Leaf>(
    tree: Map<NodeId, NodeView<Branch, Leaf>>,
    child: NodeId,
    new_child: NodeId,
)
    requires
        tree.dom().contains(child),
        tree.dom().contains(new_child),
        parent_mirrors(tree, child),
        child != new_child,
    ensures
        parent_relation(rewire(tree, child, new_child), child) is None,
{
}

/// The node that replaces a child hangs below the parent that the child had,
/// on the side on which the child hung, unless the child hung below and the
/// new node was already the child above of that parent.
pub proof fn lemma_new_child_takes_the_place<Branch, Leaf>(
    tree: Map<NodeId, NodeView<Branch, Leaf>>,
    child: NodeId,
    new_child: NodeId,
)
    requires
        tree.dom().contains(child),
        tree.dom().contains(new_child),
        parent_mirrors(tree, child),
        match parent_relation(tree, child) {
            Some((p, Relation::Below)) => tree[p]->above != new_child,
            _ => true,
        },
    ensures
        parent_relation(rewire(tree, child, new_child), new_child) == parent_relation(tree, child),
{
}

} // verus!
