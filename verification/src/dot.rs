//! Serialising a subtree as a directed graph in the DOT language.

use crate::strings::{decimal, push_decimal};
use crate::tree::{preorder, Node};
use vstd::prelude::*;

verus! {

/// The line that declares a node with its label. The label is inserted as
/// it is: escaping it is up to whoever made it.
pub open spec fn node_line(id: i64, label: Seq<char>) -> Seq<char> {
    "n"@ + decimal(id as int) + " [ label = \""@ + label + "\" ];"@
}

/// The line that draws the edge from a node to one of its children.
pub open spec fn edge_line(parent: i64, child: i64) -> Seq<char> {
    "n"@ + decimal(parent as int) + " -> n"@ + decimal(child as int) + ";"@
}

/// The lines of one node: its declaration, then one edge to each of its
/// tiling children, in list order.
pub open spec fn node_lines(node: Node, label: Seq<char>) -> Seq<Seq<char>> {
    seq![node_line(node.id, label)] + Seq::new(
        node.nodes@.len(),
        |k: int| edge_line(node.id, node.nodes@[k].id),
    )
}

/// The lines of `nodes`, each node with the label at its index.
pub open spec fn tree_lines(nodes: Seq<Node>, labels: Seq<Seq<char>>) -> Seq<Seq<char>>
    decreases nodes.len(),
{
    if nodes.len() == 0 {
        Seq::empty()
    } else {
        tree_lines(nodes.drop_last(), labels.drop_last()) + node_lines(nodes.last(), labels.last())
    }
}

/// All lines of the document for the subtree at `root`: the header, the
/// lines of each node in pre-order, and the footer. `labels` holds the label
/// of each node, in pre-order.
pub open spec fn dot_lines(root: Node, labels: Seq<Seq<char>>) -> Seq<Seq<char>> {
    seq!["digraph g {"@] + tree_lines(preorder(root), labels) + seq!["}"@]
}

/// The text in which every line is followed by a newline.
pub open spec fn joined(lines: Seq<Seq<char>>) -> Seq<char>
    decreases lines.len(),
{
    if lines.len() == 0 {
        Seq::empty()
    } else {
        joined(lines.drop_last()) + lines.last() + seq!['\n']
    }
}

/// The document for the subtree at `root` under the given labels.
pub open spec fn dot_text(root: Node, labels: Seq<Seq<char>>) -> Seq<char> {
    joined(dot_lines(root, labels))
}

/// Joining two runs of lines gives the two joined texts one after the other.
pub proof fn lemma_joined_concat(first: Seq<Seq<char>>, second: Seq<Seq<char>>)
    ensures
        joined(first + second) == joined(first) + joined(second),
    decreases second.len(),
{
    if second.len() == 0 {
        assert(first + second == first);
    } else {
        assert((first + second).drop_last() == first + second.drop_last());
        lemma_joined_concat(first, second.drop_last());
    }
}

/// Whatever the tree and the labels, the document begins with the header
/// line and ends with the footer line.
pub proof fn lemma_dot_text_frame(root: Node, labels: Seq<Seq<char>>)
    ensures
        "digraph g {\n"@.is_prefix_of(dot_text(root, labels)),
        "}\n"@.is_suffix_of(dot_text(root, labels)),
{
    reveal_strlit("digraph g {\n");
    reveal_strlit("digraph g {");
    reveal_strlit("}\n");
    reveal_strlit("}");
    let header = seq!["digraph g {"@];
    let footer = seq!["}"@];
    let body = tree_lines(preorder(root), labels);
    lemma_joined_concat(header + body, footer);
    lemma_joined_concat(header, body);
    assert(joined(header) == "digraph g {\n"@) by {
        assert(header.drop_last() == Seq::<Seq<char>>::empty());
        assert(joined(header.drop_last()) == Seq::<char>::empty());
        assert("digraph g {"@ + seq!['\n'] == "digraph g {\n"@);
    }
    assert(joined(footer) == "}\n"@) by {
        assert(footer.drop_last() == Seq::<Seq<char>>::empty());
        assert(joined(footer.drop_last()) == Seq::<char>::empty());
        assert("}"@ + seq!['\n'] == "}\n"@);
    }
}

/// The characters of each string.
pub open spec fn line_views(lines: Seq<String>) -> Seq<Seq<char>> {
    Seq::new(lines.len(), |i: int| lines[i]@)
}

/// Writes the line that declares a node.
fn format_node_line(id: i64, label: &String) -> (line: String)
    ensures
        line@ == node_line(id, label@),
{
    let mut line = String::from_str("n");
    push_decimal(&mut line, id);
    line.append(" [ label = \"");
    line.append(label.as_str());
    line.append("\" ];");
    line
}

/// Writes the line that draws an edge.
fn format_edge_line(parent: i64, child: i64) -> (line: String)
    ensures
        line@ == edge_line(parent, child),
{
    let mut line = String::from_str("n");
    push_decimal(&mut line, parent);
    line.append(" -> n");
    push_decimal(&mut line, child);
    line.append(";");
    line
}

/// Joins the lines into one text, each line followed by a newline.
fn join_lines(lines: &Vec<String>) -> (text: String)
    ensures
        text@ == joined(line_views(lines@)),
{
    let ghost views = line_views(lines@);
    let mut text = String::new();
    let mut i: usize = 0;
    while i < lines.len()
        invariant
            i <= lines.len(),
            views == line_views(lines@),
            text@ == joined(views.take(i as int)),
        decreases lines.len() - i,
    {
        proof {
            assert(views.take(i + 1).drop_last() == views.take(i as int));
        }
        text.append(lines[i].as_str());
        text.push('\n');
        i += 1;
    }
    assert(views.take(i as int) == views);
    text
}

/// Whether `labels` holds, for each of `nodes`, a label that
/// `node_to_label` can return for it.
pub open spec fn is_labelling<F: Fn(&Node) -> String>(
    node_to_label: F,
    nodes: Seq<Node>,
    labels: Seq<String>,
) -> bool {
    &&& labels.len() == nodes.len()
    &&& forall|i: int|
        0 <= i < nodes.len() ==> call_ensures(node_to_label, (&nodes[i],), #[trigger] labels[i])
}

/// Renders the subtree at `root` as a directed graph.
///
/// The document starts with the header `digraph g {` and ends with the
/// footer `}`. Between them each node of the subtree, in pre-order, has a
/// line that declares it under the label that `node_to_label` returns for
/// it, followed at once by one line for the edge to each of its tiling
/// children, in list order. Every line ends with a newline. Nothing is
/// sorted or left out.
pub fn tree_to_dot<F: Fn(&Node) -> String>(root: &Node, node_to_label: F) -> (dot: String)
    requires
        forall|i: int|
            0 <= i < preorder(*root).len() ==> call_requires(
                node_to_label,
                (&#[trigger] preorder(*root)[i],),
            ),
    ensures
        exists|labels: Seq<String>|
            is_labelling(node_to_label, preorder(*root), labels) && dot@ == dot_text(
                *root,
                line_views(labels),
            ),
        "digraph g {\n"@.is_prefix_of(dot@),
        "}\n"@.is_suffix_of(dot@),
{
    let ghost nodes = preorder(*root);
    let ghost mut labels: Seq<String> = Seq::empty();
    let mut lines: Vec<String> = Vec::new();
    lines.push(String::from_str("digraph g {"));
    let mut walk = root.iter();
    assert(nodes.skip(0) == nodes);
    assert(line_views(lines@) == seq!["digraph g {"@] + tree_lines(
        nodes.take(0),
        line_views(labels),
    ));
    loop
        invariant
            nodes == preorder(*root),
            forall|i: int|
                0 <= i < nodes.len() ==> call_requires(node_to_label, (&#[trigger] nodes[i],)),
            labels.len() <= nodes.len(),
            walk.remaining() == nodes.skip(labels.len() as int),
            is_labelling(node_to_label, nodes.take(labels.len() as int), labels),
            line_views(lines@) == seq!["digraph g {"@] + tree_lines(
                nodes.take(labels.len() as int),
                line_views(labels),
            ),
        ensures
            labels.len() == nodes.len(),
        decreases walk.remaining().len(),
    {
        let ghost done = labels.len() as int;
        let current = match walk.next() {
            Some(current) => current,
            None => {
                break ;
            },
        };
        assert(*current == nodes[done]);
        let label = node_to_label(current);
        let ghost before = line_views(lines@);
        lines.push(format_node_line(current.id, &label));
        let mut k: usize = 0;
        while k < current.nodes.len()
            invariant
                k <= current.nodes.len(),
                line_views(lines@) == before + node_lines(*current, label@).take(k + 1),
            decreases current.nodes.len() - k,
        {
            let ghost so_far = line_views(lines@);
            lines.push(format_edge_line(current.id, current.nodes[k].id));
            assert(line_views(lines@) == so_far.push(edge_line(current.id, current.nodes@[k as int].id)));
            k += 1;
        }
        proof {
            let all = node_lines(*current, label@);
            assert(all.take(all.len() as int) == all);
            let ghost earlier = labels;
            let ghost earlier_lines = tree_lines(nodes.take(done), line_views(earlier));
            labels = labels.push(label);
            assert(nodes.take(done + 1).drop_last() == nodes.take(done));
            assert(nodes.take(done + 1).last() == *current);
            assert(line_views(labels).drop_last() == line_views(earlier));
            assert(line_views(labels).last() == label@);
            assert(tree_lines(nodes.take(done + 1), line_views(labels)) == earlier_lines + all);
            assert(line_views(lines@) == seq!["digraph g {"@] + (earlier_lines + all));
            assert(nodes.skip(done).drop_first() == nodes.skip(done + 1));
        }
    }
    let ghost body = line_views(lines@);
    lines.push(String::from_str("}"));
    proof {
        assert(nodes.take(nodes.len() as int) == nodes);
        assert(line_views(lines@) == body + seq!["}"@]);
        lemma_dot_text_frame(*root, line_views(labels));
    }
    join_lines(&lines)
}

} // verus!
