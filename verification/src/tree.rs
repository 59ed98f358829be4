//! The layout tree: nodes, workspace summaries and the pre-order traversal.

use vstd::prelude::*;

verus! {

/// What a node of the layout tree stands for.
#[derive(Clone, Copy, Debug, PartialEq, Eq, Structural)]
pub enum NodeType {
    Root,
    Output,
    Workspace,
    Con,
    FloatingCon,
    Dockarea,
}

/// How a container arranges its children.
#[derive(Clone, Copy, Debug, PartialEq, Eq, Structural)]
pub enum NodeLayout {
    SplitH,
    SplitV,
    Stacked,
    Tabbed,
    Output,
    Dockarea,
    /// The node has no layout of its own.
    Unset,
}

/// One element of the layout tree. A node owns its children, so the tree is
/// finite and acyclic by construction.
#[derive(Debug, PartialEq, Eq)]
pub struct Node {
    /// Identifier, unique within one snapshot.
    pub id: i64,
    /// Display name; absent for anonymous containers.
    pub name: Option<String>,
    pub node_type: NodeType,
    pub layout: NodeLayout,
    /// Tiling children, in layout order.
    pub nodes: Vec<Node>,
    /// Floating children. They are carried along but never traversed.
    pub floating_nodes: Vec<Node>,
}

/// Summary of one workspace, as the window manager lists it.
#[derive(Clone, Debug, PartialEq, Eq)]
pub struct Workspace {
    pub id: i64,
    pub name: String,
    pub focused: bool,
}

/// The nodes of the subtree rooted at `node` in pre-order: the node itself,
/// then the subtrees of its tiling children in list order. Floating
/// children are left out.
pub open spec fn preorder(node: Node) -> Seq<Node>
    decreases node, 1nat,
{
    seq![node] + preorder_forest(node.nodes@)
}

/// The pre-order of each tree in `nodes`, one tree after the other.
pub open spec fn preorder_forest(nodes: Seq<Node>) -> Seq<Node>
    decreases nodes, 0nat,
{
    if nodes.len() == 0 {
        Seq::empty()
    } else {
        preorder(nodes.first()) + preorder_forest(nodes.drop_first())
    }
}

/// What a walk has yet to visit when the subtrees on `stack` are waiting,
/// the topmost being the last element.
spec fn pending(stack: Seq<&Node>) -> Seq<Node>
    decreases stack.len(),
{
    if stack.len() == 0 {
        Seq::empty()
    } else {
        preorder(*stack.last()) + pending(stack.drop_last())
    }
}

/// A pre-order walk over a subtree. It hands out one node per call of
/// [`Preorder::next`] and looks at a node's children only once the node
/// itself has been handed out.
pub struct Preorder<'a> {
    stack: Vec<&'a Node>,
}

impl<'a> Preorder<'a> {
    /// The nodes that the walk has yet to hand out, in order.
    pub closed spec fn remaining(&self) -> Seq<Node> {
        pending(self.stack@)
    }

    /// Hands out the next node, or `None` once every node has been visited.
    pub fn next(&mut self) -> (node: Option<&'a Node>)
        ensures
            match node {
                Some(node) => old(self).remaining().len() > 0 && *node == old(self).remaining()[0]
                    && final(self).remaining() == old(self).remaining().drop_first(),
                None => old(self).remaining().len() == 0 && final(self).remaining().len() == 0,
            },
    {
        match self.stack.pop() {
            None => None,
            Some(node) => {
                let ghost rest = self.stack@;
                assert(old(self).stack@.drop_last() == rest);
                let mut k = node.nodes.len();
                assert(node.nodes@.skip(k as int) == Seq::<Node>::empty());
                while k > 0
                    invariant
                        k <= node.nodes.len(),
                        pending(self.stack@) == preorder_forest(node.nodes@.skip(k as int))
                            + pending(rest),
                    decreases k,
                {
                    k -= 1;
                    let ghost before = self.stack@;
                    self.stack.push(&node.nodes[k]);
                    proof {
                        assert(self.stack@.drop_last() == before);
                        let tail = node.nodes@.skip(k as int);
                        assert(tail.first() == node.nodes@[k as int]);
                        assert(tail.drop_first() == node.nodes@.skip(k + 1));
                    }
                }
                assert(node.nodes@.skip(0) == node.nodes@);
                assert(old(self).remaining().drop_first() == preorder_forest(node.nodes@)
                    + pending(rest));
                Some(node)
            },
        }
    }
}

impl Node {
    /// Starts a pre-order walk over the subtree rooted at this node.
    pub fn iter(&self) -> (walk: Preorder<'_>)
        ensures
            walk.remaining() == preorder(*self),
    {
        let mut stack: Vec<&Node> = Vec::new();
        stack.push(self);
        assert(pending(stack@) == preorder(*self)) by {
            assert(stack@.drop_last() == Seq::<&Node>::empty());
            assert(pending(stack@.drop_last()) == Seq::<Node>::empty());
            assert(preorder(*self) + Seq::<Node>::empty() == preorder(*self));
        }
        Preorder { stack }
    }
}

} // verus!
