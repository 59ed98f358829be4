//! Finding the focused workspace and the node that stands for it.

use crate::strings::{decimal, push_decimal};
use crate::tree::{preorder, Node, NodeType, Workspace};
use vstd::prelude::*;

verus! {

/// Why no workspace could be rendered.
#[derive(Clone, Copy, Debug, PartialEq, Eq, Structural)]
pub enum Error {
    /// No workspace of the list is focused.
    NoFocusedWorkspace,
    /// The focused workspace has this id, and the tree holds no workspace
    /// node with it.
    WorkspaceNodeNotFound { id: i64 },
}

impl Error {
    /// The message that describes the error to a reader.
    pub open spec fn message_text(self) -> Seq<char> {
        match self {
            Error::NoFocusedWorkspace => "no focused workspace found"@,
            Error::WorkspaceNodeNotFound { id } => "workspace with id "@ + decimal(id as int)
                + " not found"@,
        }
    }

    /// Describes the error to a reader.
    pub fn message(&self) -> (text: String)
        ensures
            text@ == self.message_text(),
    {
        match self {
            Error::NoFocusedWorkspace => String::from_str("no focused workspace found"),
            Error::WorkspaceNodeNotFound { id } => {
                let mut text = String::from_str("workspace with id ");
                push_decimal(&mut text, *id);
                text.append(" not found");
                text
            },
        }
    }
}

/// The first workspace of the list that is focused, if there is one.
pub open spec fn first_focused(workspaces: Seq<Workspace>) -> Option<Workspace>
    decreases workspaces.len(),
{
    if workspaces.len() == 0 {
        None
    } else if workspaces.first().focused {
        Some(workspaces.first())
    } else {
        first_focused(workspaces.drop_first())
    }
}

/// Whether `node` is the node of the workspace with the given id.
pub open spec fn is_workspace_node(node: Node, id: i64) -> bool {
    node.node_type == NodeType::Workspace && node.id == id
}

/// The first of `nodes` that is the node of the workspace with the given
/// id, if there is one.
pub open spec fn first_workspace_node(nodes: Seq<Node>, id: i64) -> Option<Node>
    decreases nodes.len(),
{
    if nodes.len() == 0 {
        None
    } else if is_workspace_node(nodes.first(), id) {
        Some(nodes.first())
    } else {
        first_workspace_node(nodes.drop_first(), id)
    }
}

/// `first_focused` finds a focused workspace with none focused before it,
/// and finds none only where no workspace is focused.
pub proof fn lemma_first_focused(workspaces: Seq<Workspace>)
    ensures
        match first_focused(workspaces) {
            Some(workspace) => exists|i: int|
                0 <= i < workspaces.len() && workspaces[i] == workspace && workspace.focused
                    && forall|k: int| 0 <= k < i ==> !workspaces[k].focused,
            None => forall|i: int| 0 <= i < workspaces.len() ==> !workspaces[i].focused,
        },
    decreases workspaces.len(),
{
    if workspaces.len() == 0 {
    } else if workspaces.first().focused {
        assert(workspaces[0] == workspaces.first());
    } else {
        let rest = workspaces.drop_first();
        lemma_first_focused(rest);
        match first_focused(rest) {
            Some(workspace) => {
                let i = choose|i: int|
                    0 <= i < rest.len() && rest[i] == workspace && workspace.focused && forall|k: int|
                        0 <= k < i ==> !rest[k].focused;
                assert(workspaces[i + 1] == workspace);
                assert forall|k: int| 0 <= k < i + 1 implies !workspaces[k].focused by {
                    if k > 0 {
                        assert(workspaces[k] == rest[k - 1]);
                    }
                }
            },
            None => {
                assert forall|i: int| 0 <= i < workspaces.len() implies !workspaces[i].focused by {
                    if i > 0 {
                        assert(workspaces[i] == rest[i - 1]);
                    }
                }
            },
        }
    }
}

/// `first_workspace_node` finds a node of the workspace with none before
/// it, and finds none only where no node is one.
pub proof fn lemma_first_workspace_node(nodes: Seq<Node>, id: i64)
    ensures
        match first_workspace_node(nodes, id) {
            Some(node) => exists|j: int|
                0 <= j < nodes.len() && nodes[j] == node && is_workspace_node(node, id)
                    && forall|k: int| 0 <= k < j ==> !is_workspace_node(nodes[k], id),
            None => forall|j: int| 0 <= j < nodes.len() ==> !is_workspace_node(nodes[j], id),
        },
    decreases nodes.len(),
{
    if nodes.len() == 0 {
    } else if is_workspace_node(nodes.first(), id) {
        assert(nodes[0] == nodes.first());
    } else {
        let rest = nodes.drop_first();
        lemma_first_workspace_node(rest, id);
        match first_workspace_node(rest, id) {
            Some(node) => {
                let j = choose|j: int|
                    0 <= j < rest.len() && rest[j] == node && is_workspace_node(node, id)
                        && forall|k: int| 0 <= k < j ==> !is_workspace_node(rest[k], id);
                assert(nodes[j + 1] == node);
                assert forall|k: int| 0 <= k < j + 1 implies !is_workspace_node(nodes[k], id) by {
                    if k > 0 {
                        assert(nodes[k] == rest[k - 1]);
                    }
                }
            },
            None => {
                assert forall|j: int| 0 <= j < nodes.len() implies !is_workspace_node(
                    nodes[j],
                    id,
                ) by {
                    if j > 0 {
                        assert(nodes[j] == rest[j - 1]);
                    }
                }
            },
        }
    }
}

/// The node of the focused workspace in the tree at `root`, or the reason
/// why there is none: the first focused workspace of the list decides the
/// id, and the first workspace node with that id in the pre-order of the
/// tree is the one that is found.
pub open spec fn active_workspace(workspaces: Seq<Workspace>, root: Node) -> Result<Node, Error> {
    match first_focused(workspaces) {
        None => Err(Error::NoFocusedWorkspace),
        Some(workspace) => match first_workspace_node(preorder(root), workspace.id) {
            None => Err(Error::WorkspaceNodeNotFound { id: workspace.id }),
            Some(node) => Ok(node),
        },
    }
}

/// Whether no two nodes of the subtree at `root` have the same id, as
/// holds of every snapshot that the window manager hands out.
pub open spec fn has_unique_ids(root: Node) -> bool {
    forall|i: int, j: int|
        0 <= i < j < preorder(root).len() ==> (#[trigger] preorder(root)[i]).id != (
        #[trigger] preorder(root)[j]).id
}

/// In a tree with unique ids the node that is found is the only node of
/// the tree with the id of the focused workspace.
pub proof fn lemma_active_workspace_is_unique(workspaces: Seq<Workspace>, root: Node, j: int)
    requires
        has_unique_ids(root),
        active_workspace(workspaces, root) is Ok,
        0 <= j < preorder(root).len(),
        preorder(root)[j].id == active_workspace(workspaces, root)->Ok_0.id,
    ensures
        preorder(root)[j] == active_workspace(workspaces, root)->Ok_0,
{
    let id = first_focused(workspaces)->0.id;
    lemma_first_workspace_node(preorder(root), id);
    let found = choose|k: int|
        0 <= k < preorder(root).len() && preorder(root)[k] == active_workspace(
            workspaces,
            root,
        )->Ok_0;
    if found < j {
        assert(preorder(root)[found].id != preorder(root)[j].id);
    } else if j < found {
        assert(preorder(root)[j].id != preorder(root)[found].id);
    }
}

/// Finds the node of the focused workspace. The node is borrowed from the
/// tree, not copied.
pub fn find_active_workspace<'a>(workspaces: Vec<Workspace>, root: &'a Node) -> (found: Result<
    &'a Node,
    Error,
>)
    ensures
        match found {
            Ok(node) => active_workspace(workspaces@, *root) == Ok::<Node, Error>(*node),
            Err(error) => active_workspace(workspaces@, *root) == Err::<Node, Error>(error),
        },
        (forall|i: int| 0 <= i < workspaces.len() ==> !workspaces[i].focused) ==> found == Err::<
            &Node,
            Error,
        >(Error::NoFocusedWorkspace),
{
    let mut i: usize = 0;
    assert(workspaces@.skip(0) == workspaces@);
    while i < workspaces.len() && !workspaces[i].focused
        invariant
            i <= workspaces.len(),
            first_focused(workspaces@) == first_focused(workspaces@.skip(i as int)),
        decreases workspaces.len() - i,
    {
        assert(workspaces@.skip(i as int).drop_first() == workspaces@.skip(i + 1));
        i += 1;
    }
    proof {
        lemma_first_focused(workspaces@);
    }
    if i >= workspaces.len() {
        return Err(Error::NoFocusedWorkspace);
    }
    let id = workspaces[i].id;
    assert(first_focused(workspaces@) == Some(workspaces@[i as int]));
    let mut walk = root.iter();
    loop
        invariant
            i < workspaces.len() && workspaces[i as int].focused,
            first_focused(workspaces@) matches Some(workspace) && workspace.id == id,
            first_workspace_node(preorder(*root), id) == first_workspace_node(
                walk.remaining(),
                id,
            ),
        decreases walk.remaining().len(),
    {
        match walk.next() {
            None => {
                return Err(Error::WorkspaceNodeNotFound { id });
            },
            Some(node) => {
                if node.node_type == NodeType::Workspace && node.id == id {
                    return Ok(node);
                }
            },
        }
    }
}

} // verus!
