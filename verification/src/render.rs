//! From a tree and a list of workspaces to the finished document.

use crate::dot::{dot_text, is_labelling, line_views, tree_to_dot};
use crate::label::{format_node, label_text};
use crate::locate::{active_workspace, find_active_workspace, Error};
use crate::text::{grapheme_clusters, limit_text_size, limited_text};
use crate::tree::{preorder, Node, Workspace};
use vstd::prelude::*;

verus! {

/// The number of grapheme clusters that a label is shortened to.
pub const LABEL_WIDTH: usize = 18;

/// The label of a node as the document shows it: escaped first, shortened
/// afterwards. Where the cut falls between a backslash and the quote that
/// it escapes, the two are parted.
pub open spec fn short_label(node: Node) -> Seq<char> {
    limited_text(LABEL_WIDTH as nat, grapheme_clusters(label_text(node)))
}

/// The short label of each of `nodes`.
pub open spec fn short_labels(nodes: Seq<Node>) -> Seq<Seq<char>> {
    Seq::new(nodes.len(), |i: int| short_label(nodes[i]))
}

/// Derives the label of a node and shortens it to [`LABEL_WIDTH`].
pub fn node_label(node: &Node) -> (label: String)
    ensures
        label@ == short_label(*node),
{
    limit_text_size(LABEL_WIDTH, format_node(node))
}

/// Renders the subtree of the focused workspace as a directed graph, each
/// node under its short label. On an error nothing is rendered.
pub fn render_active_workspace(workspaces: Vec<Workspace>, root: &Node) -> (rendered: Result<
    String,
    Error,
>)
    ensures
        match rendered {
            Ok(dot) => active_workspace(workspaces@, *root) matches Ok(node) && dot@ == dot_text(
                node,
                short_labels(preorder(node)),
            ),
            Err(error) => active_workspace(workspaces@, *root) == Err::<Node, Error>(error),
        },
{
    match find_active_workspace(workspaces, root) {
        Err(error) => Err(error),
        Ok(node) => {
            let dot = tree_to_dot(node, node_label);
            proof {
                let labels = choose|labels: Seq<String>|
                    is_labelling(node_label, preorder(*node), labels) && dot@ == dot_text(
                        *node,
                        line_views(labels),
                    );
                assert(line_views(labels) == short_labels(preorder(*node)));
            }
            Ok(dot)
        },
    }
}

} // verus!
