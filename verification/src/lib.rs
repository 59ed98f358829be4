//! Renders a snapshot of a window manager's layout tree as a DOT graph.
//!
//! The crate locates the focused workspace inside a tree of layout nodes,
//! derives an escaped, length-bounded label for every node and serialises
//! the workspace's subtree as a directed graph. Every function carries a
//! contract that Verus proves.

pub mod dot;
pub mod label;
pub mod locate;
pub mod render;
pub mod strings;
pub mod text;
pub mod tree;

pub use dot::tree_to_dot;
pub use label::{escape_special_chars, format_node};
pub use locate::{find_active_workspace, Error};
pub use render::{node_label, render_active_workspace, LABEL_WIDTH};
pub use text::{length_in_clusters, limit_clusters, limit_text_size, try_limit_text_size};
pub use tree::{Node, NodeLayout, NodeType, Preorder, Workspace};
