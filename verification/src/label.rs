//! Labels: the text that stands for a node in the rendered graph.

use vstd::prelude::*;
use vstd::std_specs::iter::IteratorSpec;
use crate::tree::{Node, NodeLayout, NodeType};

verus! {

/// What one character becomes when it is escaped: a double quote gets a
/// backslash in front of it, every other character stays as it is.
pub open spec fn escaped_char(c: char) -> Seq<char> {
    if c == '"' {
        seq!['\\', '"']
    } else {
        seq![c]
    }
}

/// `text` with every double quote replaced by a backslash and a double quote.
pub open spec fn escaped(text: Seq<char>) -> Seq<char>
    decreases text.len(),
{
    if text.len() == 0 {
        Seq::empty()
    } else {
        escaped(text.drop_last()) + escaped_char(text.last())
    }
}

/// The number of double quotes in `text`.
pub open spec fn quote_count(text: Seq<char>) -> nat
    decreases text.len(),
{
    if text.len() == 0 {
        0
    } else {
        quote_count(text.drop_last()) + if text.last() == '"' {
            1nat
        } else {
            0nat
        }
    }
}

/// Where the character at index `i` of `text` stands once the text is
/// escaped: each double quote before it has moved it on by one.
pub open spec fn escaped_index(text: Seq<char>, i: int) -> int {
    i + quote_count(text.take(i))
}

/// Escaping goes piece by piece: a text in two parts is escaped by
/// escaping each part.
pub proof fn lemma_escaped_concat(first: Seq<char>, second: Seq<char>)
    ensures
        escaped(first + second) == escaped(first) + escaped(second),
    decreases second.len(),
{
    if second.len() == 0 {
        assert(first + second == first);
    } else {
        assert((first + second).drop_last() == first + second.drop_last());
        lemma_escaped_concat(first, second.drop_last());
    }
}

/// An escaped text is longer than the text by one character for each
/// double quote in it.
pub proof fn lemma_escaped_len(text: Seq<char>)
    ensures
        escaped(text).len() == text.len() + quote_count(text),
    decreases text.len(),
{
    if text.len() > 0 {
        lemma_escaped_len(text.drop_last());
    }
}

/// The escaped text holds, in place of each character of the text, what
/// that character is escaped to: a backslash and a double quote in place of
/// a double quote, and the character itself in place of any other.
pub proof fn lemma_escaped_at(text: Seq<char>, i: int)
    requires
        0 <= i < text.len(),
    ensures
        0 <= escaped_index(text, i) < escaped(text).len(),
        text[i] != '"' ==> escaped(text)[escaped_index(text, i)] == text[i],
        text[i] == '"' ==> escaped_index(text, i) + 1 < escaped(text).len() && escaped(
            text,
        )[escaped_index(text, i)] == '\\' && escaped(text)[escaped_index(text, i) + 1] == '"',
{
    let before = text.take(i);
    let here = seq![text[i]];
    let after = text.skip(i + 1);
    assert(text == before + here + after);
    lemma_escaped_concat(before + here, after);
    lemma_escaped_concat(before, here);
    lemma_escaped_len(before);
    assert(escaped(here) == escaped_char(text[i])) by {
        assert(here.drop_last() == Seq::<char>::empty());
        assert(escaped(here.drop_last()) == Seq::<char>::empty());
    }
}

/// In an escaped text no double quote stands bare: each has a backslash in
/// front of it.
pub proof fn lemma_escaped_quote_follows_backslash(text: Seq<char>, j: int)
    requires
        0 <= j < escaped(text).len(),
        escaped(text)[j] == '"',
    ensures
        j > 0,
        escaped(text)[j - 1] == '\\',
    decreases text.len(),
{
    let front = escaped(text.drop_last());
    if j < front.len() {
        lemma_escaped_quote_follows_backslash(text.drop_last(), j);
    }
}

/// Escapes every double quote of `text` with a backslash.
pub fn escape_special_chars(text: String) -> (out: String)
    ensures
        out@ == escaped(text@),
{
    let mut out = String::new();
    let chars = text.as_str().chars();
    for c in it: chars
        invariant
            it.seq() == text@,
            out@ == escaped(text@.take(it.index() as int)),
    {
        proof {
            let i = it.index() as int;
            assert(text@.take(i + 1).drop_last() == text@.take(i));
            assert(text@.take(i + 1).last() == c);
        }
        if c == '"' {
            out.push('\\');
            out.push('"');
        } else {
            out.push(c);
        }
    }
    proof {
        assert(text@.take(text@.len() as int) == text@);
    }
    out
}

/// The name a node is shown under: its own, or a placeholder where it has
/// none.
pub open spec fn display_name(name: Option<String>) -> Seq<char> {
    match name {
        Some(name) => name@,
        None => "<None>"@,
    }
}

/// The word a layout is written as.
pub open spec fn layout_text(layout: NodeLayout) -> Seq<char> {
    match layout {
        NodeLayout::SplitH => "SplitH"@,
        NodeLayout::SplitV => "SplitV"@,
        NodeLayout::Stacked => "Stacked"@,
        NodeLayout::Tabbed => "Tabbed"@,
        NodeLayout::Output => "Output"@,
        NodeLayout::Dockarea => "Dockarea"@,
        NodeLayout::Unset => "None"@,
    }
}

/// The label of a node. The first rule that applies decides:
/// the root is `ROOT`, whatever its name; an output and a workspace show
/// their kind before the escaped name; a container without a name shows its
/// layout; every other node shows its escaped name.
pub open spec fn label_text(node: Node) -> Seq<char> {
    let name = escaped(display_name(node.name));
    match node.node_type {
        NodeType::Root => "ROOT"@,
        NodeType::Output => "OUTPUT: "@ + name,
        NodeType::Workspace => "WORKSPACE: "@ + name,
        NodeType::Con => if node.name is None {
            "CONTAINER: "@ + layout_text(node.layout)
        } else {
            name
        },
        _ => name,
    }
}

/// What the label of a node of the given kind has in front of the name.
pub open spec fn label_prefix(node_type: NodeType) -> Seq<char> {
    match node_type {
        NodeType::Output => "OUTPUT: "@,
        NodeType::Workspace => "WORKSPACE: "@,
        _ => Seq::empty(),
    }
}

/// The label of a named node other than the root is the escaped name
/// behind the prefix of the node's kind. So for each double quote in the
/// name the label holds a backslash and a double quote in its place.
pub proof fn lemma_label_escapes_quotes(node: Node, i: int)
    requires
        node.node_type != NodeType::Root,
        node.name matches Some(name) && 0 <= i < name@.len() && name@[i] == '"',
    ensures
        label_text(node) == label_prefix(node.node_type) + escaped(node.name->0@),
        ({
            let at = label_prefix(node.node_type).len() + escaped_index(node.name->0@, i);
            &&& 0 <= at
            &&& at + 1 < label_text(node).len()
            &&& label_text(node)[at] == '\\'
            &&& label_text(node)[at + 1] == '"'
        }),
{
    lemma_escaped_at(node.name->0@, i);
    assert(Seq::<char>::empty() + escaped(node.name->0@) == escaped(node.name->0@));
}

/// Writes a layout as a word.
pub fn layout_name(layout: NodeLayout) -> (out: &'static str)
    ensures
        out@ == layout_text(layout),
{
    match layout {
        NodeLayout::SplitH => "SplitH",
        NodeLayout::SplitV => "SplitV",
        NodeLayout::Stacked => "Stacked",
        NodeLayout::Tabbed => "Tabbed",
        NodeLayout::Output => "Output",
        NodeLayout::Dockarea => "Dockarea",
        NodeLayout::Unset => "None",
    }
}

/// Derives the label of a node. The result does not depend on the node's
/// children, and it is not shortened here.
pub fn format_node(node: &Node) -> (out: String)
    ensures
        out@ == label_text(*node),
        node.node_type == NodeType::Root ==> out@ == "ROOT"@,
{
    let name = match &node.name {
        Some(name) => escape_special_chars(name.clone()),
        None => escape_special_chars(String::from_str("<None>")),
    };
    match node.node_type {
        NodeType::Root => String::from_str("ROOT"),
        NodeType::Output => String::from_str("OUTPUT: ").concat(name.as_str()),
        NodeType::Workspace => String::from_str("WORKSPACE: ").concat(name.as_str()),
        NodeType::Con => {
            if node.name.is_none() {
                String::from_str("CONTAINER: ").concat(layout_name(node.layout))
            } else {
                name
            }
        },
        _ => name,
    }
}

} // verus!
