//! Parsing C source with tree-sitter's C grammar, and copying the tree that
//! the parser builds into a `SyntaxNode`.

use vstd::prelude::*;
use vstd::utf8::{decode_utf8, encode_utf8, valid_utf8};
use crate::naming::opt_text;
use crate::syntax::SyntaxNode;
use crate::text::chars_of;

verus! {

broadcast use vstd::string::group_string_axioms;

#[verifier::external_type_specification]
#[verifier::external_body]
pub struct ExParser(tree_sitter::Parser);

#[verifier::external_type_specification]
#[verifier::external_body]
pub struct ExTree(tree_sitter::Tree);

#[verifier::external_type_specification]
#[verifier::external_body]
pub struct ExNode<'tree>(tree_sitter::Node<'tree>);

#[verifier::external_type_specification]
#[verifier::external_body]
pub struct ExLanguageError(tree_sitter::LanguageError);

/// `tree_sitter::Parser::new`: a parser with no language yet.
#[verifier::external_body]
fn new_parser() -> (p: tree_sitter::Parser) {
    tree_sitter::Parser::new()
}

/// `tree_sitter::Parser::set_language` with the C grammar
/// (`tree_sitter_c::LANGUAGE`, turned into a `tree_sitter::Language` by its
/// `From` impl). The call fails only for a grammar whose ABI version lies
/// outside the range this tree-sitter reads, or that has no lexer; the C
/// grammar is of a version in that range and has one, so the call succeeds.
#[verifier::external_body]
fn set_c_language(parser: &mut tree_sitter::Parser) -> (r: Result<(), tree_sitter::LanguageError>)
    ensures
        r is Ok,
{
    parser.set_language(&tree_sitter_c::LANGUAGE.into())
}

/// A tree-sitter parser that has taken the C grammar. Its field is private:
/// the only way to get one is `new_c_parser`, which sets the grammar first.
struct CParser {
    parser: tree_sitter::Parser,
}

/// A parser set up with the C grammar.
fn new_c_parser() -> (r: Result<CParser, tree_sitter::LanguageError>)
    ensures
        r is Ok,
{
    let mut parser = new_parser();
    match set_c_language(&mut parser) {
        Ok(()) => Ok(CParser { parser }),
        Err(e) => Err(e),
    }
}

/// A tree that a `CParser` built, with the text it was built from. Its
/// fields are private: the only way to get one is `c_parse_text`.
struct CTree<'s> {
    tree: tree_sitter::Tree,
    source: &'s str,
}

impl<'s> View for CTree<'s> {
    type V = Seq<char>;

    /// The text the tree was parsed from.
    closed spec fn view(&self) -> Seq<char> {
        self.source@
    }
}

/// A node of a `CTree`, with the text the tree was parsed from and the path
/// to the node from the root: the index of the child taken at each step. Its
/// fields are private: the only ways to get one are `tree_root` and
/// `node_child`, which set the text and the path to those of the node.
struct CNode<'t> {
    node: tree_sitter::Node<'t>,
    source: &'t str,
    path: Vec<u32>,
}

impl<'t> View for CNode<'t> {
    type V = (Seq<char>, Seq<u32>);

    /// The source text, and the path to the node.
    closed spec fn view(&self) -> (Seq<char>, Seq<u32>) {
        (self.source@, self.path@)
    }
}

// ---------------------------------------------------------------------------
// Names of what tree-sitter computes
// ---------------------------------------------------------------------------
//
// A node is named by the source text that the C grammar parsed and the path
// to the node from the root. Parsing is a function of the text alone, so
// each of these is a function of its arguments.

/// The kind of a node of the C parse of a text (`tree_sitter::Node::kind`).
pub uninterp spec fn c_node_kind(node: (Seq<char>, Seq<u32>)) -> Seq<char>;

/// The number of children of a node (`tree_sitter::Node::child_count`).
pub uninterp spec fn c_node_child_count(node: (Seq<char>, Seq<u32>)) -> u32;

/// Whether a node has a child at an index (`tree_sitter::Node::child` gives
/// `Some`).
pub uninterp spec fn c_node_child_exists(node: (Seq<char>, Seq<u32>), i: u32) -> bool;

/// The field name of a node's child at an index
/// (`tree_sitter::Node::field_name_for_child`).
pub uninterp spec fn c_node_field_name(node: (Seq<char>, Seq<u32>), i: u32) -> Option<Seq<char>>;

/// The byte where a node starts (`tree_sitter::Node::start_byte`).
pub uninterp spec fn c_node_start_byte(node: (Seq<char>, Seq<u32>)) -> usize;

/// The byte where a node ends (`tree_sitter::Node::end_byte`).
pub uninterp spec fn c_node_end_byte(node: (Seq<char>, Seq<u32>)) -> usize;

/// The number of nodes in a node's subtree, the node itself included
/// (`tree_sitter::Node::descendant_count`).
pub uninterp spec fn c_node_descendant_count(node: (Seq<char>, Seq<u32>)) -> usize;

/// A node's subtree as an S-expression (`tree_sitter::Node::to_sexp`).
pub uninterp spec fn c_node_sexp(node: (Seq<char>, Seq<u32>)) -> Seq<char>;

/// `tree_sitter::Parser::parse` on a whole text, with no earlier tree. The
/// call gives `None` only when the parser has no language; a `CParser` always
/// has the C grammar, so a tree comes back. The tree is kept with the text.
#[verifier::external_body]
fn c_parse_text<'s>(p: &mut CParser, text: &'s str) -> (r: Option<CTree<'s>>)
    ensures
        r is Some,
        r matches Some(t) ==> t@ == text@,
{
    match p.parser.parse(text, None) {
        Some(tree) => Some(CTree { tree, source: text }),
        None => None,
    }
}

/// `tree_sitter::Tree::root_node`: the node at the empty path.
#[verifier::external_body]
fn tree_root<'t>(t: &'t CTree<'_>) -> (r: CNode<'t>)
    ensures
        r@ == (t@, Seq::<u32>::empty()),
{
    CNode { node: t.tree.root_node(), source: t.source, path: Vec::new() }
}

/// `path` with `i` after it.
fn path_to_child(path: &Vec<u32>, i: u32) -> (r: Vec<u32>)
    ensures
        r@ == path@.push(i),
{
    let mut r = path.clone();
    r.push(i);
    r
}

/// `tree_sitter::Node::child`: whether there is a child at `i` is named by
/// `c_node_child_exists`; the child is the node at the path one step on. A
/// child's subtree lies inside its parent's and leaves the parent out, so it
/// has fewer nodes.
#[verifier::external_body]
fn node_child<'t>(n: &CNode<'t>, i: u32) -> (r: Option<CNode<'t>>)
    ensures
        r is Some <==> c_node_child_exists(n@, i),
        r matches Some(c) ==> c@ == (n@.0, n@.1.push(i)),
        r matches Some(c) ==> c_node_descendant_count(c@) < c_node_descendant_count(n@),
{
    match n.node.child(i) {
        Some(c) => Some(CNode { node: c, source: n.source, path: path_to_child(&n.path, i) }),
        None => None,
    }
}

/// `tree_sitter::Node::kind`, as an owned string.
#[verifier::external_body]
fn node_kind(n: &CNode) -> (k: String)
    ensures
        k@ == c_node_kind(n@),
{
    n.node.kind().to_string()
}

/// `tree_sitter::Node::child_count`.
#[verifier::external_body]
fn node_child_count(n: &CNode) -> (c: u32)
    ensures
        c == c_node_child_count(n@),
{
    n.node.child_count()
}

/// The view of an optional string.
pub open spec fn opt_string(o: Option<String>) -> Option<Seq<char>> {
    match o {
        Some(s) => Some(s@),
        None => None,
    }
}

/// `tree_sitter::Node::field_name_for_child`, as an owned string.
#[verifier::external_body]
fn node_field_name_for_child(n: &CNode, i: u32) -> (f: Option<String>)
    ensures
        opt_string(f) == c_node_field_name(n@, i),
{
    n.node.field_name_for_child(i).map(|f| f.to_string())
}

/// `tree_sitter::Node::start_byte`.
#[verifier::external_body]
fn node_start_byte(n: &CNode) -> (b: usize)
    ensures
        b == c_node_start_byte(n@),
{
    n.node.start_byte()
}

/// `tree_sitter::Node::end_byte`.
#[verifier::external_body]
fn node_end_byte(n: &CNode) -> (b: usize)
    ensures
        b == c_node_end_byte(n@),
{
    n.node.end_byte()
}

/// `tree_sitter::Node::descendant_count`.
#[verifier::external_body]
fn node_descendant_count(n: &CNode) -> (c: usize)
    ensures
        c == c_node_descendant_count(n@),
{
    n.node.descendant_count()
}

/// `tree_sitter::Node::to_sexp`: the subtree below the node as an
/// S-expression.
#[verifier::external_body]
fn node_to_sexp(n: &CNode) -> (s: String)
    ensures
        s@ == c_node_sexp(n@),
{
    n.node.to_sexp()
}

/// `std::str::from_utf8` on a byte slice, as an owned string: it succeeds
/// exactly on valid UTF-8, and the string's characters are the bytes decoded.
#[verifier::external_body]
fn utf8_string(bytes: &[u8]) -> (r: Option<String>)
    ensures
        r is Some <==> valid_utf8(bytes@),
        r matches Some(s) ==> s@ == decode_utf8(bytes@),
{
    std::str::from_utf8(bytes).ok().map(|s| s.to_string())
}

/// The text of the bytes of `source` from `start` up to `end`, where that
/// range lies in the source and the bytes are valid UTF-8.
pub open spec fn source_text(source: Seq<u8>, start: int, end: int) -> Option<Seq<char>> {
    if 0 <= start <= end <= source.len() && valid_utf8(source.subrange(start, end)) {
        Some(decode_utf8(source.subrange(start, end)))
    } else {
        None
    }
}

/// The indices below `n` at which the node has a child, in order.
pub open spec fn present_children(node: (Seq<char>, Seq<u32>), n: nat) -> Seq<u32>
    decreases n,
{
    if n == 0 {
        Seq::empty()
    } else {
        let before = present_children(node, (n - 1) as nat);
        if c_node_child_exists(node, (n - 1) as u32) {
            before.push((n - 1) as u32)
        } else {
            before
        }
    }
}

/// `n` is the node of the C parse of `source` at `path`, standing under the
/// field `field`, with the nodes below it: its kind, its byte range, its
/// text (the source text of that range) and its children (one for each index
/// at which the node has a child, each standing under the field that the
/// parse gives it) are those of the parse.
pub open spec fn parsed_node(
    n: SyntaxNode,
    source: Seq<char>,
    path: Seq<u32>,
    field: Option<Seq<char>>,
) -> bool
    decreases n,
{
    let node = (source, path);
    let at = present_children(node, c_node_child_count(node) as nat);
    &&& n.kind@ == c_node_kind(node)
    &&& opt_text(n.field) == field
    &&& n.start_byte == c_node_start_byte(node)
    &&& n.end_byte == c_node_end_byte(node)
    &&& opt_text(n.text) == source_text(
        encode_utf8(source),
        n.start_byte as int,
        n.end_byte as int,
    )
    &&& n.children@.len() == at.len()
    &&& forall|j: int|
        0 <= j < at.len() ==> parsed_node(
            #[trigger] n.children@[j],
            source,
            path.push(at[j]),
            c_node_field_name(node, at[j]),
        )
}

/// `tree` is the syntax tree of the C parse of `source`: the root node, under
/// no field, with every node below it.
pub open spec fn c_syntax_tree(tree: SyntaxNode, source: Seq<char>) -> bool {
    parsed_node(tree, source, Seq::empty(), None)
}

/// The bytes of `source` from `start` up to `end`.
fn copy_bytes(source: &[u8], start: usize, end: usize) -> (r: Vec<u8>)
    requires
        start <= end <= source@.len(),
    ensures
        r@ == source@.subrange(start as int, end as int),
{
    let mut r: Vec<u8> = Vec::new();
    let mut i = start;
    while i < end
        invariant
            start <= i <= end <= source@.len(),
            r@ == source@.subrange(start as int, i as int),
        decreases end - i,
    {
        assert(source@.subrange(start as int, i + 1) == source@.subrange(
            start as int,
            i as int,
        ).push(source@[i as int]));
        r.push(source[i]);
        i = i + 1;
    }
    r
}

/// A copy of the parse's node `node`, standing under the field `field`, and
/// of every node below it. `depth` bounds the number of nodes in the
/// subtree, which bounds the recursion.
fn copy_tree(node: &CNode, bytes: &[u8], field: Option<Vec<char>>, depth: usize) -> (r: SyntaxNode)
    requires
        bytes@ == encode_utf8(node@.0),
        c_node_descendant_count(node@) <= depth,
    ensures
        parsed_node(r, node@.0, node@.1, opt_text(field)),
    decreases depth,
{
    let kind_string = node_kind(node);
    let kind = chars_of(kind_string.as_str());
    let start = node_start_byte(node);
    let end = node_end_byte(node);
    let text = if start <= end && end <= bytes.len() {
        let range = copy_bytes(bytes, start, end);
        match utf8_string(range.as_slice()) {
            Some(s) => Some(chars_of(s.as_str())),
            None => None,
        }
    } else {
        None
    };
    let count = node_child_count(node);
    let mut children: Vec<SyntaxNode> = Vec::new();
    let mut i: u32 = 0;
    while i < count
        invariant
            i <= count,
            count == c_node_child_count(node@),
            bytes@ == encode_utf8(node@.0),
            c_node_descendant_count(node@) <= depth,
            children@.len() == present_children(node@, i as nat).len(),
            forall|j: int|
                0 <= j < children@.len() ==> parsed_node(
                    #[trigger] children@[j],
                    node@.0,
                    node@.1.push(present_children(node@, i as nat)[j]),
                    c_node_field_name(node@, present_children(node@, i as nat)[j]),
                ),
        decreases count - i,
    {
        let ghost before = present_children(node@, i as nat);
        assert(present_children(node@, (i + 1) as nat) == if c_node_child_exists(node@, i) {
            before.push(i)
        } else {
            before
        });
        if let Some(c) = node_child(node, i) {
            let f = match node_field_name_for_child(node, i) {
                Some(s) => Some(chars_of(s.as_str())),
                None => None,
            };
            let copied = copy_tree(&c, bytes, f, depth - 1);
            children.push(copied);
        }
        i = i + 1;
    }
    let r = SyntaxNode { kind, field, text, start_byte: start, end_byte: end, children };
    assert(opt_text(r.text) == source_text(bytes@, start as int, end as int));
    r
}

/// A C source parsed: its syntax tree and the tree as an S-expression.
pub struct ParsedSource {
    pub tree: SyntaxNode,
    pub sexp: String,
}

/// The two ways a tree-sitter parse can fail. `parse_c` never meets either:
/// the C grammar always loads, and a parser with a grammar always builds a
/// tree.
pub enum ParseFailure {
    /// The parser did not take the C grammar.
    GrammarNotLoaded,
    /// The parser built no tree.
    NoTree,
}

/// Parses C source with tree-sitter's C grammar. It succeeds on every
/// source, and gives the syntax tree of the parse, every node copied with
/// its kind, field, byte range, source text and children, and the S-expression
/// of the parse.
pub fn parse_c(source: &str) -> (r: Result<ParsedSource, ParseFailure>)
    ensures
        r is Ok,
        r matches Ok(p) ==> c_syntax_tree(p.tree, source@) && p.sexp@ == c_node_sexp(
            (source@, Seq::<u32>::empty()),
        ),
{
    let mut parser = match new_c_parser() {
        Ok(p) => p,
        Err(_) => {
            return Err(ParseFailure::GrammarNotLoaded);
        },
    };
    let tree = match c_parse_text(&mut parser, source) {
        Some(t) => t,
        None => {
            return Err(ParseFailure::NoTree);
        },
    };
    let root = tree_root(&tree);
    let sexp = node_to_sexp(&root);
    let depth = node_descendant_count(&root);
    let bytes = source.as_bytes();
    let copied = copy_tree(&root, bytes, None, depth);
    Ok(ParsedSource { tree: copied, sexp })
}

} // verus!
