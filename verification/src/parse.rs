//! The document tree and the recursive-descent parser that builds it from
//! preprocessed markup.

use crate::error::{located, Diagnostic, DiagnosticView, ErrorKind, Fault, FaultView};
use crate::lang_util::{
    block_arg, expect_tok, expected_at, extract_arg, fault_here, lemma_block_arg_bounds,
    lemma_scan_advances, line_number, scan, Lexer, Tag, Token, Vocabulary,
};
use crate::text::{to_chars, to_string};
use vstd::prelude::*;

verus! {

/// A node of the document tree. The four leaf kinds carry their text; the
/// others own their children in order.
#[derive(Debug, PartialEq, Eq)]
pub enum Node {
    Root(Vec<Box<Node>>),
    Contents(Vec<Box<Node>>),
    Chapter(String),
    Section(String),
    Subsection(String),
    Text(String),
    List(Vec<Box<Node>>),
    OrderedList(Vec<Box<Node>>),
    Table(Vec<Box<Node>>),
    Row(Vec<Box<Node>>),
}

/// The ten kinds of node.
#[derive(Clone, Copy, Debug, PartialEq, Eq, Structural)]
pub enum Kind {
    Root,
    Contents,
    Chapter,
    Section,
    Subsection,
    Text,
    List,
    OrderedList,
    Table,
    Row,
}

/// The mathematical value of a [`Node`]: a leaf with its text, or a branch
/// with the values of its children.
pub enum DocTree {
    Leaf(Kind, Seq<char>),
    Branch(Kind, Seq<DocTree>),
}

/// The values of the first `n` of `nodes`.
pub open spec fn trees(nodes: Vec<Box<Node>>, n: nat) -> Seq<DocTree>
    decreases nodes, n,
{
    if n == 0 || n > nodes.len() {
        Seq::empty()
    } else {
        trees(nodes, (n - 1) as nat).push(nodes@[n - 1].tree())
    }
}

/// The values of `nodes`, in order.
pub open spec fn views(nodes: Vec<Box<Node>>) -> Seq<DocTree> {
    trees(nodes, nodes@.len())
}

impl Node {
    /// The mathematical value of the node.
    pub open spec fn tree(&self) -> DocTree
        decreases self,
    {
        match self {
            Node::Root(children) => DocTree::Branch(Kind::Root, trees(*children, children@.len())),
            Node::Contents(children) => DocTree::Branch(
                Kind::Contents,
                trees(*children, children@.len()),
            ),
            Node::Chapter(text) => DocTree::Leaf(Kind::Chapter, text@),
            Node::Section(text) => DocTree::Leaf(Kind::Section, text@),
            Node::Subsection(text) => DocTree::Leaf(Kind::Subsection, text@),
            Node::Text(text) => DocTree::Leaf(Kind::Text, text@),
            Node::List(children) => DocTree::Branch(Kind::List, trees(*children, children@.len())),
            Node::OrderedList(children) => DocTree::Branch(
                Kind::OrderedList,
                trees(*children, children@.len()),
            ),
            Node::Table(children) => DocTree::Branch(
                Kind::Table,
                trees(*children, children@.len()),
            ),
            Node::Row(children) => DocTree::Branch(Kind::Row, trees(*children, children@.len())),
        }
    }
}

impl View for Node {
    type V = DocTree;

    open spec fn view(&self) -> DocTree {
        self.tree()
    }
}

/// The values of a vector of nodes are the values of its nodes, in order.
pub proof fn lemma_trees(nodes: Vec<Box<Node>>, n: nat)
    requires
        n <= nodes.len(),
    ensures
        trees(nodes, n).len() == n,
        forall|i: int| 0 <= i < n ==> #[trigger] trees(nodes, n)[i] == nodes@[i].tree(),
    decreases n,
{
    if n > 0 {
        lemma_trees(nodes, (n - 1) as nat);
    }
}

impl Tag {
    /// The kind of node that the tag introduces.
    pub open spec fn kind(self) -> Kind {
        match self {
            Tag::Contents => Kind::Contents,
            Tag::Chapter => Kind::Chapter,
            Tag::Section => Kind::Section,
            Tag::Subsection => Kind::Subsection,
            Tag::Text => Kind::Text,
            Tag::List => Kind::List,
            Tag::OrderedList => Kind::OrderedList,
            Tag::Table => Kind::Table,
            Tag::Row => Kind::Row,
        }
    }

    /// Whether the tag introduces a leaf: a node that carries raw text.
    pub open spec fn is_leaf(self) -> bool {
        self == Tag::Chapter || self == Tag::Section || self == Tag::Subsection || self
            == Tag::Text
    }

    /// Whether a node of this tag may hold a child of the tag `child`: a
    /// table holds rows, every other branch holds anything but contents and
    /// rows.
    pub open spec fn accepts(self, child: Tag) -> bool {
        match self {
            Tag::Table => child == Tag::Row,
            Tag::Contents | Tag::List | Tag::OrderedList | Tag::Row => child != Tag::Contents
                && child != Tag::Row,
            _ => false,
        }
    }

    /// The tokens that may stand inside a node of this tag, as an error
    /// lists them.
    pub open spec fn expected_inside(self) -> Seq<Token> {
        if self == Tag::Table {
            seq![Token::Tag(Tag::Row), Token::BlockEnd]
        } else {
            seq![
                Token::Tag(Tag::Chapter),
                Token::Tag(Tag::Section),
                Token::Tag(Tag::Subsection),
                Token::Tag(Tag::Text),
                Token::Tag(Tag::List),
                Token::Tag(Tag::OrderedList),
                Token::Tag(Tag::Table),
                Token::BlockEnd,
            ]
        }
    }

    /// Tests whether the tag introduces a leaf.
    pub fn leaf(self) -> (res: bool)
        ensures
            res == self.is_leaf(),
    {
        match self {
            Tag::Chapter | Tag::Section | Tag::Subsection | Tag::Text => true,
            _ => false,
        }
    }

    /// Tests whether a node of this tag may hold a child of the tag `child`.
    pub fn may_hold(self, child: Tag) -> (res: bool)
        ensures
            res == self.accepts(child),
    {
        match self {
            Tag::Table => match child {
                Tag::Row => true,
                _ => false,
            },
            Tag::Contents | Tag::List | Tag::OrderedList | Tag::Row => match child {
                Tag::Contents | Tag::Row => false,
                _ => true,
            },
            _ => false,
        }
    }

    /// The tokens that may stand inside a node of this tag.
    pub fn expected_tokens(self) -> (out: Vec<Token>)
        ensures
            out@ == self.expected_inside(),
    {
        let mut out: Vec<Token> = Vec::new();
        match self {
            Tag::Table => {
                out.push(Token::Tag(Tag::Row));
            },
            _ => {
                out.push(Token::Tag(Tag::Chapter));
                out.push(Token::Tag(Tag::Section));
                out.push(Token::Tag(Tag::Subsection));
                out.push(Token::Tag(Tag::Text));
                out.push(Token::Tag(Tag::List));
                out.push(Token::Tag(Tag::OrderedList));
                out.push(Token::Tag(Tag::Table));
            },
        }
        out.push(Token::BlockEnd);
        assert(out@ =~= self.expected_inside());
        out
    }
}

/// A parsed node and the offset after it.
pub struct Parsed {
    pub tree: DocTree,
    pub end: int,
}

/// The parsed children of a node and the offset after its block.
pub struct ParsedItems {
    pub trees: Seq<DocTree>,
    pub end: int,
}

/// The error for a token that a production does not accept.
pub open spec fn unexpected(s: Seq<char>, at: int, expected: Seq<Token>, found: Token)
    -> DiagnosticView {
    DiagnosticView {
        kind: ErrorKind::Parse,
        file: None,
        line: Some(line_number(s, at)),
        fault: FaultView::UnexpectedToken { expected, found },
    }
}

/// The node of the tag `tag` whose block follows offset `from`. A leaf takes
/// the raw text of its block; a branch takes the nodes that [`parsed_items`]
/// finds in it. (The test that the block starts at or after `from` always
/// holds, see [`lemma_parsed_node_bounds`]; it shows that the definition
/// ends, and what stands behind it is never the result.)
pub open spec fn parsed_node(s: Seq<char>, from: int, tag: Tag) -> Result<Parsed, DiagnosticView>
    decreases s.len() - from, 1int,
{
    if tag.is_leaf() {
        match block_arg(Vocabulary::Document, s, from) {
            Err(e) => Err(e),
            Ok(block) => Ok(Parsed { tree: DocTree::Leaf(tag.kind(), block.text), end: block.end }),
        }
    } else {
        match expected_at(Vocabulary::Document, s, from, Token::BlockStart) {
            Err(e) => Err(e),
            Ok(inside) => if from <= inside <= s.len() {
                match parsed_items(s, inside, tag, Seq::empty()) {
                    Err(e) => Err(e),
                    Ok(items) => Ok(
                        Parsed { tree: DocTree::Branch(tag.kind(), items.trees), end: items.end },
                    ),
                }
            } else {
                Err(arbitrary())
            },
        }
    }
}

/// The children of a node of the tag `parent`, read from offset `from` on
/// after the children `done`: every tag that the parent accepts starts a
/// child, a `}` or the end of the text closes the node, and any other token
/// is an error. (The tests that a token and a child end after the offset they
/// were read from always hold; they show that the definition ends.)
pub open spec fn parsed_items(s: Seq<char>, from: int, parent: Tag, done: Seq<DocTree>) -> Result<
    ParsedItems,
    DiagnosticView,
>
    decreases s.len() - from, 0int,
{
    let sc = scan(Vocabulary::Document, s, from);
    match sc.token {
        None => Ok(ParsedItems { trees: done, end: sc.end }),
        Some(Token::BlockEnd) => Ok(ParsedItems { trees: done, end: sc.end }),
        Some(found) => {
            if found is Tag && parent.accepts(found->Tag_0) {
                if from < sc.end <= s.len() {
                    match parsed_node(s, sc.end, found->Tag_0) {
                        Err(e) => Err(e),
                        Ok(child) => if sc.end < child.end <= s.len() {
                            parsed_items(s, child.end, parent, done.push(child.tree))
                        } else {
                            Err(arbitrary())
                        },
                    }
                } else {
                    Err(arbitrary())
                }
            } else {
                Err(unexpected(s, sc.start, parent.expected_inside(), found))
            }
        },
    }
}

/// The nodes at the top of a document, read from offset `from` on after the
/// nodes `done`: each must be introduced by the contents tag. (The tests that
/// a token and a node end after the offset they were read from always hold;
/// they show that the definition ends.)
pub open spec fn parsed_roots(s: Seq<char>, from: int, done: Seq<DocTree>) -> Result<
    Seq<DocTree>,
    DiagnosticView,
>
    decreases s.len() - from,
{
    let sc = scan(Vocabulary::Document, s, from);
    match sc.token {
        None => Ok(done),
        Some(found) => {
            if found == Token::Tag(Tag::Contents) {
                if from < sc.end <= s.len() {
                    match parsed_node(s, sc.end, Tag::Contents) {
                        Err(e) => Err(e),
                        Ok(child) => if sc.end < child.end <= s.len() {
                            parsed_roots(s, child.end, done.push(child.tree))
                        } else {
                            Err(arbitrary())
                        },
                    }
                } else {
                    Err(arbitrary())
                }
            } else {
                Err(unexpected(s, sc.start, seq![Token::Tag(Tag::Contents)], found))
            }
        },
    }
}

/// The tree of the document in the file `file`: a root over its contents
/// nodes, or the first error, which names the file.
pub open spec fn parsed(file: Seq<char>, s: Seq<char>) -> Result<DocTree, DiagnosticView> {
    located(
        match parsed_roots(s, 0, Seq::empty()) {
            Err(e) => Err(e),
            Ok(children) => Ok(DocTree::Branch(Kind::Root, children)),
        },
        file,
    )
}

/// A parsed node ends after the offset it was read from, inside the text.
pub proof fn lemma_parsed_node_bounds(s: Seq<char>, from: int, tag: Tag)
    requires
        0 <= from <= s.len(),
        parsed_node(s, from, tag) is Ok,
    ensures
        from < parsed_node(s, from, tag)->Ok_0.end <= s.len(),
    decreases s.len() - from, 1int,
{
    lemma_scan_advances(Vocabulary::Document, s, from);
    if tag.is_leaf() {
        lemma_block_arg_bounds(Vocabulary::Document, s, from);
    } else {
        let inside = expected_at(Vocabulary::Document, s, from, Token::BlockStart)->Ok_0;
        lemma_parsed_items_bounds(s, inside, tag, Seq::empty());
    }
}

/// The block of a node ends at or after the offset its children were read
/// from, inside the text.
pub proof fn lemma_parsed_items_bounds(s: Seq<char>, from: int, parent: Tag, done: Seq<DocTree>)
    requires
        0 <= from <= s.len(),
        parsed_items(s, from, parent, done) is Ok,
    ensures
        from <= parsed_items(s, from, parent, done)->Ok_0.end <= s.len(),
    decreases s.len() - from, 0int,
{
    lemma_scan_advances(Vocabulary::Document, s, from);
    let sc = scan(Vocabulary::Document, s, from);
    match sc.token {
        None => {},
        Some(Token::BlockEnd) => {},
        Some(found) => {
            if found is Tag && parent.accepts(found->Tag_0) {
                let child = parsed_node(s, sc.end, found->Tag_0)->Ok_0;
                lemma_parsed_items_bounds(s, child.end, parent, done.push(child.tree));
            }
        },
    }
}

/// Wraps the children of a node of the tag `tag`.
fn branch(tag: Tag, children: Vec<Box<Node>>) -> (node: Node)
    requires
        !tag.is_leaf(),
    ensures
        node@ == DocTree::Branch(tag.kind(), views(children)),
{
    match tag {
        Tag::Contents => Node::Contents(children),
        Tag::List => Node::List(children),
        Tag::OrderedList => Node::OrderedList(children),
        Tag::Table => Node::Table(children),
        _ => Node::Row(children),
    }
}

/// Wraps the text of a leaf of the tag `tag`.
fn leaf_node(tag: Tag, text: String) -> (node: Node)
    requires
        tag.is_leaf(),
    ensures
        node@ == DocTree::Leaf(tag.kind(), text@),
{
    match tag {
        Tag::Chapter => Node::Chapter(text),
        Tag::Section => Node::Section(text),
        Tag::Subsection => Node::Subsection(text),
        _ => Node::Text(text),
    }
}

/// Parses the node of the tag `tag` whose block follows the lexer's
/// position.
fn parse_node(src: &Vec<char>, lex: &mut Lexer, tag: Tag) -> (res: Result<Node, Diagnostic>)
    requires
        old(lex).vocabulary == Vocabulary::Document,
        old(lex).end <= src.len(),
    ensures
        final(lex).vocabulary == Vocabulary::Document,
        match res {
            Ok(node) => {
                &&& parsed_node(src@, old(lex).end as int, tag) is Ok
                &&& parsed_node(src@, old(lex).end as int, tag)->Ok_0.tree == node@
                &&& parsed_node(src@, old(lex).end as int, tag)->Ok_0.end == final(lex).end
                &&& old(lex).end < final(lex).end <= src.len()
            },
            Err(e) => parsed_node(src@, old(lex).end as int, tag) == Err::<Parsed, DiagnosticView>(
                e@,
            ),
        },
    decreases src.len() - old(lex).end, 1int,
{
    let ghost s = src@;
    let ghost from = lex.end as int;
    if tag.leaf() {
        match extract_arg(src, lex) {
            Err(e) => Err(e),
            Ok(text) => {
                proof {
                    lemma_block_arg_bounds(Vocabulary::Document, s, from);
                }
                Ok(leaf_node(tag, to_string(&text)))
            },
        }
    } else {
        proof {
            lemma_scan_advances(Vocabulary::Document, s, from);
        }
        match expect_tok(src, lex, Token::BlockStart) {
            Err(e) => Err(e),
            Ok(_) => {
                let ghost inside = lex.end as int;
                let mut children: Vec<Box<Node>> = Vec::new();
                let mut open = true;
                let mut failure: Option<Diagnostic> = None;
                while open
                    invariant
                        s == src@,
                        lex.vocabulary == Vocabulary::Document,
                        from == old(lex).end,
                        from < inside <= src.len(),
                        expected_at(Vocabulary::Document, s, from, Token::BlockStart) == Ok::<
                            int,
                            DiagnosticView,
                        >(inside),
                        open ==> inside <= lex.end <= src.len(),
                        !tag.is_leaf(),
                        open ==> failure is None,
                        open ==> parsed_items(s, inside, tag, Seq::empty()) == parsed_items(
                            s,
                            lex.end as int,
                            tag,
                            views(children),
                        ),
                        !open ==> match failure {
                            Some(e) => parsed_items(s, inside, tag, Seq::empty()) == Err::<
                                ParsedItems,
                                DiagnosticView,
                            >(e@),
                            None => parsed_items(s, inside, tag, Seq::empty()) == Ok::<
                                ParsedItems,
                                DiagnosticView,
                            >(
                                ParsedItems {
                                    trees: views(children),
                                    end: lex.end as int,
                                },
                            ),
                        },
                    decreases
                            if open {
                                src.len() - lex.end + 1
                            } else {
                                0
                            },
                {
                    let ghost here = lex.end as int;
                    proof {
                        lemma_scan_advances(Vocabulary::Document, s, here);
                    }
                    match lex.next(src) {
                        None => {
                            open = false;
                        },
                        Some(Token::BlockEnd) => {
                            open = false;
                        },
                        Some(found) => {
                            let child_tag = match found {
                                Token::Tag(child) => if tag.may_hold(child) {
                                    Some(child)
                                } else {
                                    None
                                },
                                _ => None,
                            };
                            match child_tag {
                                Some(child) => {
                                    match parse_node(src, lex, child) {
                                        Err(e) => {
                                            failure = Some(e);
                                            open = false;
                                        },
                                        Ok(node) => {
                                            let ghost before = children;
                                            children.push(Box::new(node));
                                            proof {
                                                lemma_trees(before, before.len() as nat);
                                                lemma_trees(children, children.len() as nat);
                                                assert(views(children)
                                                    =~= views(before).push(node@));
                                            }
                                        },
                                    }
                                },
                                None => {
                                    failure = Some(
                                        fault_here(
                                            src,
                                            lex,
                                            Fault::UnexpectedToken {
                                                expected: tag.expected_tokens(),
                                                found,
                                            },
                                        ),
                                    );
                                    open = false;
                                },
                            }
                        },
                    }
                }
                match failure {
                    Some(e) => Err(e),
                    None => {
                        proof {
                            lemma_parsed_items_bounds(s, inside, tag, Seq::empty());
                        }
                        Ok(branch(tag, children))
                    },
                }
            },
        }
    }
}

/// Parses preprocessed markup into the document tree. The tree's top node
/// is the root; its children are the contents nodes of the document, in
/// order. The first token that the grammar does not allow is an error that
/// lists the tokens allowed there, the token found and its line, in the file
/// `file_path`.
pub fn parse(file_path: &str, src: &str) -> (res: Result<Node, Diagnostic>)
    ensures
        match res {
            Ok(node) => node is Root && parsed(file_path@, src@) == Ok::<
                DocTree,
                DiagnosticView,
            >(node@),
            Err(e) => parsed(file_path@, src@) == Err::<DocTree, DiagnosticView>(e@),
        },
{
    let text = to_chars(src);
    let ghost s = text@;
    let mut lex = Lexer::new(Vocabulary::Document);
    let mut children: Vec<Box<Node>> = Vec::new();
    let mut open = true;
    let mut failure: Option<Diagnostic> = None;
    while open
        invariant
            s == text@,
            lex.vocabulary == Vocabulary::Document,
            open ==> lex.end <= text.len(),
            open ==> failure is None,
            open ==> parsed_roots(s, 0, Seq::empty()) == parsed_roots(
                s,
                lex.end as int,
                views(children),
            ),
            !open ==> match failure {
                Some(e) => parsed_roots(s, 0, Seq::empty()) == Err::<Seq<DocTree>, DiagnosticView>(
                    e@,
                ),
                None => parsed_roots(s, 0, Seq::empty()) == Ok::<Seq<DocTree>, DiagnosticView>(
                    views(children),
                ),
            },
        decreases
                if open {
                    text.len() - lex.end + 1
                } else {
                    0
                },
    {
        let ghost here = lex.end as int;
        proof {
            lemma_scan_advances(Vocabulary::Document, s, here);
        }
        match lex.next(&text) {
            None => {
                open = false;
            },
            Some(Token::Tag(Tag::Contents)) => {
                match parse_node(&text, &mut lex, Tag::Contents) {
                    Err(e) => {
                        failure = Some(e);
                        open = false;
                    },
                    Ok(node) => {
                        let ghost before = children;
                        children.push(Box::new(node));
                        proof {
                            lemma_trees(before, before.len() as nat);
                            lemma_trees(children, children.len() as nat);
                            assert(views(children) =~= views(before).push(node@));
                        }
                    },
                }
            },
            Some(found) => {
                let mut expected: Vec<Token> = Vec::new();
                expected.push(Token::Tag(Tag::Contents));
                assert(expected@ =~= seq![Token::Tag(Tag::Contents)]);
                failure = Some(
                    fault_here(&text, &lex, Fault::UnexpectedToken { expected, found }),
                );
                open = false;
            },
        }
    }
    match failure {
        Some(e) => Err(e.in_file(file_path)),
        None => Ok(Node::Root(children)),
    }
}

} // verus!
