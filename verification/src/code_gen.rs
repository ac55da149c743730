//! Rendering of the document tree to HTML.

use crate::error::{Diagnostic, DiagnosticView, ErrorKind, Fault, FaultView};
use crate::escape::EscapeScheme;
use crate::parse::{lemma_trees, views, DocTree, Kind, Node};
use crate::text::{append_str, to_chars, to_string};
use vstd::prelude::*;

verus! {

/// The opening tag of the element `name`.
pub open spec fn open_tag(name: Seq<char>) -> Seq<char> {
    seq!['<'] + name + seq!['>']
}

/// The closing tag of the element `name`.
pub open spec fn close_tag(name: Seq<char>) -> Seq<char> {
    seq!['<', '/'] + name + seq!['>']
}

impl Kind {
    /// The element that a node of this kind becomes.
    pub open spec fn element(self) -> Seq<char> {
        match self {
            Kind::Root => "html"@,
            Kind::Contents => "body"@,
            Kind::Chapter => "h1"@,
            Kind::Section => "h2"@,
            Kind::Subsection => "h3"@,
            Kind::Text => "p"@,
            Kind::List => "ul"@,
            Kind::OrderedList => "ol"@,
            Kind::Table => "table"@,
            Kind::Row => "tr"@,
        }
    }

    /// The element that wraps each child of a node of this kind, for the
    /// kinds that wrap their children.
    pub open spec fn item_element(self) -> Option<Seq<char>> {
        match self {
            Kind::List | Kind::OrderedList => Some("li"@),
            Kind::Row => Some("td"@),
            _ => None,
        }
    }
}

/// The HTML of a tree. A leaf is its text inside its element. A branch is
/// its children in order inside its element, each child inside the item
/// element where the kind has one.
pub open spec fn rendered(tree: DocTree) -> Seq<char>
    decreases tree,
{
    match tree {
        DocTree::Leaf(kind, text) => open_tag(kind.element()) + text + close_tag(kind.element()),
        DocTree::Branch(kind, children) => open_tag(kind.element()) + rendered_items(
            children,
            kind.item_element(),
            children.len(),
        ) + close_tag(kind.element()),
    }
}

/// The HTML of the first `n` of `items`, each inside the element `wrap`
/// where there is one.
pub open spec fn rendered_items(items: Seq<DocTree>, wrap: Option<Seq<char>>, n: nat) -> Seq<char>
    decreases items, n,
{
    if n == 0 || n > items.len() {
        Seq::empty()
    } else {
        rendered_items(items, wrap, (n - 1) as nat) + match wrap {
            Some(name) => open_tag(name) + rendered(items[n - 1]) + close_tag(name),
            None => rendered(items[n - 1]),
        }
    }
}

/// Appends the opening tag of the element `name`.
fn push_open(out: &mut Vec<char>, name: &str)
    ensures
        final(out)@ == old(out)@ + open_tag(name@),
{
    out.push('<');
    append_str(out, name);
    out.push('>');
    assert(out@ =~= old(out)@ + open_tag(name@));
}

/// Appends the closing tag of the element `name`.
fn push_close(out: &mut Vec<char>, name: &str)
    ensures
        final(out)@ == old(out)@ + close_tag(name@),
{
    out.push('<');
    out.push('/');
    append_str(out, name);
    out.push('>');
    assert(out@ =~= old(out)@ + close_tag(name@));
}

/// Appends a leaf: `text` inside the element `name`.
fn leaf_to_html(name: &str, text: &String, base: Vec<char>) -> (out: Vec<char>)
    ensures
        out@ == base@ + (open_tag(name@) + text@ + close_tag(name@)),
{
    let mut out = base;
    push_open(&mut out, name);
    append_str(&mut out, text.as_str());
    push_close(&mut out, name);
    assert(out@ =~= base@ + (open_tag(name@) + text@ + close_tag(name@)));
    out
}

/// Appends a branch: the children in order inside the element `name`, each
/// inside the element `wrap` where there is one.
fn branch_to_html(
    name: &str,
    wrap: Option<&'static str>,
    children: &Vec<Box<Node>>,
    base: Vec<char>,
) -> (out: Vec<char>)
    ensures
        out@ == base@ + (open_tag(name@) + rendered_items(
            views(*children),
            match wrap {
                Some(w) => Some(w@),
                None => None,
            },
            views(*children).len(),
        ) + close_tag(name@)),
    decreases children,
{
    let ghost items = views(*children);
    let ghost wrapping: Option<Seq<char>> = match wrap {
        Some(w) => Some(w@),
        None => None,
    };
    proof {
        lemma_trees(*children, children@.len());
    }
    let mut out = base;
    push_open(&mut out, name);
    let mut i: usize = 0;
    while i < children.len()
        invariant
            i <= children.len(),
            items == views(*children),
            items.len() == children.len(),
            forall|k: int| 0 <= k < children.len() ==> items[k] == children@[k].tree(),
            wrapping == (match wrap {
                Some(w) => Some(w@),
                None => None,
            }),
            out@ == base@ + open_tag(name@) + rendered_items(items, wrapping, i as nat),
        decreases children.len() - i,
    {
        match wrap {
            Some(w) => {
                push_open(&mut out, w);
                out = node_to_html(&children[i], out);
                push_close(&mut out, w);
            },
            None => {
                out = node_to_html(&children[i], out);
            },
        }
        assert(out@ =~= base@ + open_tag(name@) + rendered_items(items, wrapping, (i + 1) as nat));
        i += 1;
    }
    push_close(&mut out, name);
    assert(out@ =~= base@ + (open_tag(name@) + rendered_items(items, wrapping, children@.len())
        + close_tag(name@)));
    out
}

/// Appends the HTML of `node` to `base`: a leaf as its text inside its
/// element, the root, contents and tables as their children inside theirs,
/// and lists and rows with each child inside an item element of its own.
pub fn node_to_html(node: &Node, base: Vec<char>) -> (out: Vec<char>)
    ensures
        out@ == base@ + rendered(node@),
    decreases node,
{
    match node {
        Node::Root(children) => branch_to_html("html", None, children, base),
        Node::Contents(children) => branch_to_html("body", None, children, base),
        Node::Chapter(text) => leaf_to_html("h1", text, base),
        Node::Section(text) => leaf_to_html("h2", text, base),
        Node::Subsection(text) => leaf_to_html("h3", text, base),
        Node::Text(text) => leaf_to_html("p", text, base),
        Node::List(children) => branch_to_html("ul", Some("li"), children, base),
        Node::OrderedList(children) => branch_to_html("ol", Some("li"), children, base),
        Node::Table(children) => branch_to_html("table", None, children, base),
        Node::Row(children) => branch_to_html("tr", Some("td"), children, base),
    }
}

/// Turns the protected codes of finished HTML back into the characters they
/// stand for; a code that stands for nothing is removed.
pub fn postprocess(html: &str) -> (out: String)
    ensures
        out@ == EscapeScheme::Bracket.deprotected(html@),
{
    let chars = to_chars(html);
    to_string(&EscapeScheme::Bracket.deprotect(&chars))
}

/// The error for a tree whose top node is not the root.
pub open spec fn non_root() -> DiagnosticView {
    DiagnosticView { kind: ErrorKind::CodeGen, file: None, line: None, fault: FaultView::NonRootNode }
}

/// Renders the document tree of the file `file_path` to HTML and then
/// deprotects the result. Only a tree whose top node is the root is
/// rendered.
pub fn generate_html(file_path: &str, root: &Node) -> (res: Result<String, Diagnostic>)
    ensures
        match res {
            Ok(html) => root is Root && html@ == EscapeScheme::Bracket.deprotected(
                rendered(root@),
            ),
            Err(e) => !(root is Root) && e@ == non_root().in_file(file_path@),
        },
{
    match root {
        Node::Root(_) => {
            let html = node_to_html(root, Vec::new());
            assert(Seq::<char>::empty() + rendered(root@) =~= rendered(root@));
            Ok(to_string(&EscapeScheme::Bracket.deprotect(&html)))
        },
        _ => Err(
            Diagnostic {
                kind: ErrorKind::CodeGen,
                file: None,
                line: None,
                fault: Fault::NonRootNode,
            }.in_file(file_path),
        ),
    }
}

} // verus!
