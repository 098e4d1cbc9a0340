//! A syntax tree of C source, and the questions the translation asks of it.
//!
//! A node holds what a parser reports of it: its kind, the field under which
//! it stands in its parent, its source text, its byte range and its children
//! in source order.

use vstd::prelude::*;
use crate::text::{chars_of, repeat, text_is};

verus! {

broadcast use vstd::string::group_string_axioms;

/// A node of a C syntax tree.
pub struct SyntaxNode {
    /// The kind of the node, as the grammar names it (`"identifier"`, `";"`, ...).
    pub kind: Vec<char>,
    /// The name of the field under which the node stands in its parent.
    pub field: Option<Vec<char>>,
    /// The source text of the node, where it is valid UTF-8.
    pub text: Option<Vec<char>>,
    /// The position of the node's first byte in the source.
    pub start_byte: usize,
    /// The position just past the node's last byte in the source.
    pub end_byte: usize,
    /// The children of the node, in source order.
    pub children: Vec<SyntaxNode>,
}

impl SyntaxNode {
    /// A node with the given parts.
    pub fn new(
        kind: &str,
        field: Option<&str>,
        text: Option<&str>,
        start_byte: usize,
        end_byte: usize,
        children: Vec<SyntaxNode>,
    ) -> (n: SyntaxNode)
        ensures
            n.kind@ == kind@,
            n.field matches Some(f) ==> field matches Some(g) && f@ == g@,
            n.field is None <==> field is None,
            n.text matches Some(t) ==> text matches Some(u) && t@ == u@,
            n.text is None <==> text is None,
            n.start_byte == start_byte,
            n.end_byte == end_byte,
            n.children == children,
    {
        SyntaxNode {
            kind: chars_of(kind),
            field: match field {
                Some(f) => Some(chars_of(f)),
                None => None,
            },
            text: match text {
                Some(t) => Some(chars_of(t)),
                None => None,
            },
            start_byte,
            end_byte,
            children,
        }
    }
}

/// The source text of a node, or nothing where it is not valid UTF-8.
pub open spec fn text_of(n: SyntaxNode) -> Seq<char> {
    match n.text {
        Some(t) => t@,
        None => Seq::empty(),
    }
}

/// Whether a node stands under the field `f`.
pub open spec fn has_field(n: SyntaxNode, f: Seq<char>) -> bool {
    n.field matches Some(g) && g@ == f
}

/// The position of the first node of `cs` that stands under the field `f`.
pub open spec fn field_index(cs: Seq<SyntaxNode>, f: Seq<char>) -> Option<int>
    decreases cs.len(),
{
    if cs.len() == 0 {
        None
    } else {
        match field_index(cs.drop_last(), f) {
            Some(i) => Some(i),
            None => if has_field(cs.last(), f) {
                Some(cs.len() - 1)
            } else {
                None
            },
        }
    }
}

/// The first child of `n` under the field `f`.
pub open spec fn field_child(n: SyntaxNode, f: Seq<char>) -> Option<SyntaxNode> {
    match field_index(n.children@, f) {
        Some(i) => Some(n.children@[i]),
        None => None,
    }
}

/// The nodes of `cs` that stand under the field `f`, in order.
pub open spec fn field_nodes(cs: Seq<SyntaxNode>, f: Seq<char>) -> Seq<SyntaxNode>
    decreases cs.len(),
{
    if cs.len() == 0 {
        Seq::empty()
    } else if has_field(cs.last(), f) {
        field_nodes(cs.drop_last(), f).push(cs.last())
    } else {
        field_nodes(cs.drop_last(), f)
    }
}

pub proof fn lemma_field_index(cs: Seq<SyntaxNode>, f: Seq<char>)
    ensures
        field_index(cs, f) matches Some(i) ==> 0 <= i < cs.len() && has_field(cs[i], f),
    decreases cs.len(),
{
    if cs.len() > 0 {
        lemma_field_index(cs.drop_last(), f);
    }
}

/// The identifier that a declarator declares (`int *x[3]` declares `x`).
pub open spec fn declared_identifier(n: SyntaxNode) -> Option<SyntaxNode>
    decreases n,
{
    let k = n.kind@;
    if k == "identifier"@ || k == "field_identifier"@ || k == "type_identifier"@ {
        Some(n)
    } else if k == "init_declarator"@ {
        match field_index(n.children@, "declarator"@) {
            Some(i) => {
                proof {
                    lemma_field_index(n.children@, "declarator"@);
                }
                declared_identifier(n.children@[i])
            },
            None => None,
        }
    } else if k == "pointer_declarator"@ || k == "array_declarator"@ || k
        == "parenthesized_declarator"@ {
        match field_index(n.children@, "declarator"@) {
            Some(i) => {
                proof {
                    lemma_field_index(n.children@, "declarator"@);
                }
                declared_identifier(n.children@[i])
            },
            None => declared_identifier_in(n.children@),
        }
    } else {
        declared_identifier_in(n.children@)
    }
}

/// The identifier declared by the first of `cs` that declares one.
pub open spec fn declared_identifier_in(cs: Seq<SyntaxNode>) -> Option<SyntaxNode>
    decreases cs,
{
    if cs.len() == 0 {
        None
    } else {
        match declared_identifier(cs[0]) {
            Some(id) => Some(id),
            None => declared_identifier_in(cs.subrange(1, cs.len() as int)),
        }
    }
}

/// The first array declarator at or below `n`, in preorder.
pub open spec fn array_declarator(n: SyntaxNode) -> Option<SyntaxNode>
    decreases n,
{
    if n.kind@ == "array_declarator"@ {
        Some(n)
    } else {
        array_declarator_in(n.children@)
    }
}

/// The first array declarator at or below the first of `cs` that has one.
pub open spec fn array_declarator_in(cs: Seq<SyntaxNode>) -> Option<SyntaxNode>
    decreases cs,
{
    if cs.len() == 0 {
        None
    } else {
        match array_declarator(cs[0]) {
            Some(a) => Some(a),
            None => array_declarator_in(cs.subrange(1, cs.len() as int)),
        }
    }
}

/// Whether `n`, or a declarator that it wraps, declares a pointer.
pub open spec fn declares_pointer(n: SyntaxNode) -> bool
    decreases n,
{
    if n.kind@ == "pointer_declarator"@ {
        true
    } else {
        match field_index(n.children@, "declarator"@) {
            Some(i) => {
                proof {
                    lemma_field_index(n.children@, "declarator"@);
                }
                declares_pointer(n.children@[i])
            },
            None => false,
        }
    }
}

/// How many pointer declarators wrap each other from `n` inwards.
pub open spec fn pointer_depth(n: SyntaxNode) -> nat
    decreases n,
{
    if n.kind@ == "pointer_declarator"@ {
        match field_index(n.children@, "declarator"@) {
            Some(i) => {
                proof {
                    lemma_field_index(n.children@, "declarator"@);
                }
                1 + pointer_depth(n.children@[i])
            },
            None => 1,
        }
    } else {
        0
    }
}

/// The name of an identifier node whose text is valid UTF-8.
pub open spec fn raw_identifier_name(n: SyntaxNode) -> Option<Seq<char>> {
    if n.kind@ == "identifier"@ {
        match n.text {
            Some(t) => Some(t@),
            None => None,
        }
    } else {
        None
    }
}

/// Whether a return statement stands at or below `n`.
pub open spec fn contains_return(n: SyntaxNode) -> bool
    decreases n,
{
    n.kind@ == "return_statement"@ || contains_return_in(n.children@)
}

/// Whether a return statement stands at or below one of `cs`.
pub open spec fn contains_return_in(cs: Seq<SyntaxNode>) -> bool
    decreases cs,
{
    cs.len() > 0 && (contains_return(cs[0]) || contains_return_in(cs.subrange(1, cs.len() as int)))
}

/// A reference to a node, as the node.
pub open spec fn deref_node(o: Option<&SyntaxNode>) -> Option<SyntaxNode> {
    match o {
        Some(n) => Some(*n),
        None => None,
    }
}

impl SyntaxNode {
    /// Whether the kind of the node is `k`.
    pub fn is_kind(&self, k: &str) -> (r: bool)
        ensures
            r == (self.kind@ == k@),
    {
        text_is(&self.kind, k)
    }

    /// The position among the children of the first one under the field `f`.
    pub fn field_child_index(&self, f: &str) -> (r: Option<usize>)
        ensures
            match r {
                Some(i) => field_index(self.children@, f@) == Some(i as int) && i
                    < self.children@.len(),
                None => field_index(self.children@, f@) is None,
            },
    {
        let mut found: Option<usize> = None;
        let mut i: usize = 0;
        while i < self.children.len()
            invariant
                i <= self.children.len(),
                match found {
                    Some(j) => field_index(self.children@.take(i as int), f@) == Some(j as int)
                        && j < i,
                    None => field_index(self.children@.take(i as int), f@) is None,
                },
            decreases self.children.len() - i,
        {
            assert(self.children@.take(i + 1).drop_last() == self.children@.take(i as int));
            if found.is_none() {
                let matches = match &self.children[i].field {
                    Some(g) => text_is(g, f),
                    None => false,
                };
                if matches {
                    found = Some(i);
                }
            }
            i = i + 1;
        }
        assert(self.children@.take(self.children@.len() as int) == self.children@);
        found
    }

    /// The first child under the field `f`.
    pub fn field_child(&self, f: &str) -> (r: Option<&SyntaxNode>)
        ensures
            deref_node(r) == field_child(*self, f@),
    {
        match self.field_child_index(f) {
            Some(i) => Some(&self.children[i]),
            None => None,
        }
    }

    /// The source text of the node, or nothing.
    pub fn text_or_empty(&self) -> (r: Vec<char>)
        ensures
            r@ == text_of(*self),
    {
        match &self.text {
            Some(t) => crate::text::concat(t, &Vec::new()),
            None => Vec::new(),
        }
    }
}

/// The identifier that a declarator declares.
pub fn extract_declarator_identifier(node: &SyntaxNode) -> (r: Option<&SyntaxNode>)
    ensures
        deref_node(r) == declared_identifier(*node),
    decreases node,
{
    if node.is_kind("identifier") || node.is_kind("field_identifier") || node.is_kind(
        "type_identifier",
    ) {
        return Some(node);
    }
    if node.is_kind("init_declarator") {
        return match node.field_child_index("declarator") {
            Some(i) => extract_declarator_identifier(&node.children[i]),
            None => None,
        };
    }
    if node.is_kind("pointer_declarator") || node.is_kind("array_declarator") || node.is_kind(
        "parenthesized_declarator",
    ) {
        if let Some(i) = node.field_child_index("declarator") {
            return extract_declarator_identifier(&node.children[i]);
        }
    }
    let mut i: usize = 0;
    assert(node.children@.subrange(0, node.children@.len() as int) == node.children@);
    while i < node.children.len()
        invariant
            i <= node.children.len(),
            declared_identifier(*node) == declared_identifier_in(node.children@),
            declared_identifier_in(node.children@) == declared_identifier_in(
                node.children@.subrange(i as int, node.children@.len() as int),
            ),
        decreases node.children.len() - i,
    {
        let ghost rest = node.children@.subrange(i as int, node.children@.len() as int);
        assert(rest.subrange(1, rest.len() as int) == node.children@.subrange(
            i + 1,
            node.children@.len() as int,
        ));
        assert(rest[0] == node.children@[i as int]);
        if let Some(id) = extract_declarator_identifier(&node.children[i]) {
            return Some(id);
        }
        i = i + 1;
    }
    None
}

/// The first array declarator at or below `node`.
pub fn find_array_declarator(node: &SyntaxNode) -> (r: Option<&SyntaxNode>)
    ensures
        deref_node(r) == array_declarator(*node),
    decreases node,
{
    if node.is_kind("array_declarator") {
        return Some(node);
    }
    let mut i: usize = 0;
    assert(node.children@.subrange(0, node.children@.len() as int) == node.children@);
    while i < node.children.len()
        invariant
            i <= node.children.len(),
            array_declarator(*node) == array_declarator_in(node.children@),
            array_declarator_in(node.children@) == array_declarator_in(
                node.children@.subrange(i as int, node.children@.len() as int),
            ),
        decreases node.children.len() - i,
    {
        let ghost rest = node.children@.subrange(i as int, node.children@.len() as int);
        assert(rest.subrange(1, rest.len() as int) == node.children@.subrange(
            i + 1,
            node.children@.len() as int,
        ));
        assert(rest[0] == node.children@[i as int]);
        if let Some(a) = find_array_declarator(&node.children[i]) {
            return Some(a);
        }
        i = i + 1;
    }
    None
}

/// Whether `node`, or a declarator that it wraps, declares a pointer.
pub fn is_pointer_declarator(node: &SyntaxNode) -> (r: bool)
    ensures
        r == declares_pointer(*node),
    decreases node,
{
    if node.is_kind("pointer_declarator") {
        return true;
    }
    match node.field_child_index("declarator") {
        Some(i) => is_pointer_declarator(&node.children[i]),
        None => false,
    }
}

/// One `*` for each pointer declarator that wraps another from `node`
/// inwards (the stars of a pointer type).
pub fn pointer_stars(node: &SyntaxNode) -> (r: Vec<char>)
    ensures
        r@ == repeat("*"@, pointer_depth(*node)),
    decreases node,
{
    if node.is_kind("pointer_declarator") {
        let mut r = match node.field_child_index("declarator") {
            Some(i) => pointer_stars(&node.children[i]),
            None => Vec::new(),
        };
        r.push('*');
        proof {
            reveal_strlit("*");
            assert(repeat("*"@, pointer_depth(*node)) == repeat(
                "*"@,
                (pointer_depth(*node) - 1) as nat,
            ) + "*"@);
        }
        r
    } else {
        Vec::new()
    }
}

/// The name of an identifier node.
pub fn get_raw_identifier_name(node: &SyntaxNode) -> (r: Option<Vec<char>>)
    ensures
        match r {
            Some(t) => raw_identifier_name(*node) == Some(t@),
            None => raw_identifier_name(*node) is None,
        },
{
    if node.is_kind("identifier") {
        if let Some(t) = &node.text {
            return Some(crate::text::concat(t, &Vec::new()));
        }
    }
    None
}

/// Whether a return statement stands at or below `node`.
pub fn has_return_statement(node: &SyntaxNode) -> (r: bool)
    ensures
        r == contains_return(*node),
    decreases node,
{
    if node.is_kind("return_statement") {
        return true;
    }
    let mut i: usize = 0;
    assert(node.children@.subrange(0, node.children@.len() as int) == node.children@);
    while i < node.children.len()
        invariant
            i <= node.children.len(),
            contains_return_in(node.children@) == contains_return_in(
                node.children@.subrange(i as int, node.children@.len() as int),
            ),
        decreases node.children.len() - i,
    {
        let ghost rest = node.children@.subrange(i as int, node.children@.len() as int);
        assert(rest.subrange(1, rest.len() as int) == node.children@.subrange(
            i + 1,
            node.children@.len() as int,
        ));
        assert(rest[0] == node.children@[i as int]);
        if has_return_statement(&node.children[i]) {
            return true;
        }
        i = i + 1;
    }
    false
}

/// A child found by its field is smaller than its parent.
pub proof fn lemma_field_child_smaller(n: SyntaxNode, f: Seq<char>)
    ensures
        field_child(n, f) matches Some(c) ==> decreases_to!(n => c),
{
    lemma_field_index(n.children@, f);
    if let Some(i) = field_index(n.children@, f) {
        assert(decreases_to!(n => n.children@[i]));
    }
}

/// The array declarator found at or below `n` is `n` or smaller than it.
pub proof fn lemma_array_declarator_within(n: SyntaxNode)
    ensures
        array_declarator(n) matches Some(a) ==> a == n || decreases_to!(n => a),
    decreases n,
{
    if n.kind@ != "array_declarator"@ {
        lemma_array_declarator_in_within(n.children@);
        assert(decreases_to!(n => n.children@));
    }
}

/// The array declarator found below one of `cs` is smaller than `cs`.
pub proof fn lemma_array_declarator_in_within(cs: Seq<SyntaxNode>)
    ensures
        array_declarator_in(cs) matches Some(a) ==> decreases_to!(cs => a),
    decreases cs,
{
    if cs.len() > 0 {
        lemma_array_declarator_within(cs[0]);
        assert(decreases_to!(cs => cs[0]));
        let rest = cs.subrange(1, cs.len() as int);
        lemma_array_declarator_in_within(rest);
        assert(decreases_to!(cs => rest));
    }
}

// ---------------------------------------------------------------------------
// Where the nodes that the queries find stand
// ---------------------------------------------------------------------------

/// `x` is `n` or a node below it.
pub open spec fn in_subtree(x: SyntaxNode, n: SyntaxNode) -> bool
    decreases n, 1int,
{
    x == n || in_subtree_in(x, n.children@)
}

/// `x` is one of `cs` or a node below one of them.
pub open spec fn in_subtree_in(x: SyntaxNode, cs: Seq<SyntaxNode>) -> bool
    decreases cs, 0int,
{
    cs.len() > 0 && (in_subtree(x, cs[0]) || in_subtree_in(x, cs.subrange(1, cs.len() as int)))
}

/// Whether a kind is that of an identifier a declarator can declare.
pub open spec fn is_identifier_kind(k: Seq<char>) -> bool {
    k == "identifier"@ || k == "field_identifier"@ || k == "type_identifier"@
}

proof fn lemma_in_subtree_in_child(x: SyntaxNode, cs: Seq<SyntaxNode>, i: int)
    requires
        0 <= i < cs.len(),
        in_subtree(x, cs[i]),
    ensures
        in_subtree_in(x, cs),
    decreases i,
{
    if i > 0 {
        let rest = cs.subrange(1, cs.len() as int);
        assert(rest[i - 1] == cs[i]);
        lemma_in_subtree_in_child(x, rest, i - 1);
    }
}

/// The identifier that a declarator declares is of one of the identifier
/// kinds and is the declarator or a node below it; a node of one of those
/// kinds declares itself.
pub proof fn declared_identifier_is_below(n: SyntaxNode)
    ensures
        declared_identifier(n) matches Some(id) ==> is_identifier_kind(id.kind@) && in_subtree(
            id,
            n,
        ),
        is_identifier_kind(n.kind@) ==> declared_identifier(n) == Some(n),
    decreases n, 1int,
{
    let k = n.kind@;
    if is_identifier_kind(k) {
    } else if k == "init_declarator"@ || k == "pointer_declarator"@ || k == "array_declarator"@
        || k == "parenthesized_declarator"@ {
        lemma_field_index(n.children@, "declarator"@);
        match field_index(n.children@, "declarator"@) {
            Some(i) => {
                declared_identifier_is_below(n.children@[i]);
                if let Some(id) = declared_identifier(n) {
                    lemma_in_subtree_in_child(id, n.children@, i);
                }
            },
            None => {
                declared_identifier_in_is_below(n.children@);
            },
        }
    } else {
        declared_identifier_in_is_below(n.children@);
    }
}

/// The identifier that the first of `cs` declaring one declares is of one of
/// the identifier kinds and is one of `cs` or a node below one of them.
pub proof fn declared_identifier_in_is_below(cs: Seq<SyntaxNode>)
    ensures
        declared_identifier_in(cs) matches Some(id) ==> is_identifier_kind(id.kind@)
            && in_subtree_in(id, cs),
    decreases cs, 0int,
{
    if cs.len() > 0 {
        declared_identifier_is_below(cs[0]);
        let rest = cs.subrange(1, cs.len() as int);
        assert(decreases_to!(cs => rest));
        declared_identifier_in_is_below(rest);
    }
}

/// The array declarator that `find_array_declarator` looks for is one at or
/// below `n`; there is none exactly when no node at or below `n` is an array
/// declarator.
pub proof fn array_declarator_is_below(n: SyntaxNode)
    ensures
        array_declarator(n) matches Some(a) ==> a.kind@ == "array_declarator"@ && in_subtree(a, n),
        array_declarator(n) is None ==> forall|x: SyntaxNode|
            #[trigger] in_subtree(x, n) ==> x.kind@ != "array_declarator"@,
    decreases n, 1int,
{
    if n.kind@ != "array_declarator"@ {
        array_declarator_in_is_below(n.children@);
        if array_declarator(n) is None {
            assert forall|x: SyntaxNode| #[trigger] in_subtree(x, n) implies x.kind@
                != "array_declarator"@ by {
                if x != n {
                    assert(in_subtree_in(x, n.children@));
                }
            }
        }
    }
}

/// The first array declarator at or below one of `cs` is one of them or a
/// node below one; there is none exactly when no such node is an array
/// declarator.
pub proof fn array_declarator_in_is_below(cs: Seq<SyntaxNode>)
    ensures
        array_declarator_in(cs) matches Some(a) ==> a.kind@ == "array_declarator"@
            && in_subtree_in(a, cs),
        array_declarator_in(cs) is None ==> forall|x: SyntaxNode|
            #[trigger] in_subtree_in(x, cs) ==> x.kind@ != "array_declarator"@,
    decreases cs, 0int,
{
    if cs.len() > 0 {
        array_declarator_is_below(cs[0]);
        let rest = cs.subrange(1, cs.len() as int);
        assert(decreases_to!(cs => rest));
        array_declarator_in_is_below(rest);
        if array_declarator_in(cs) is None {
            assert forall|x: SyntaxNode| #[trigger] in_subtree_in(x, cs) implies x.kind@
                != "array_declarator"@ by {
                if in_subtree(x, cs[0]) {
                } else {
                    assert(in_subtree_in(x, rest));
                }
            }
        }
    }
}

} // verus!
