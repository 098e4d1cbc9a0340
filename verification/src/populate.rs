//! The first pass over a C syntax tree: it records the names that the tree
//! declares, with the C3 name chosen for each.

use vstd::prelude::*;
use crate::naming::{c3_constant_name, c3_type_name, c3_variable_name};
use crate::symbols::{register, Names, SymbolTable};
use crate::syntax::{
    array_declarator, declared_identifier, extract_declarator_identifier, field_child,
    find_array_declarator, has_field, text_of, SyntaxNode,
};
use crate::text::{
    after_char, before_char, has_char, split_char, starts_with, string_from_chars, texts, trim,
    trimmed_nonempty, words, text_before_char, text_has_char, text_is, text_split_char,
    text_split_once, text_starts_with, text_trim, text_trimmed_nonempty, text_words,
};

verus! {

broadcast use vstd::string::group_string_axioms;

/// `ns` with the type `c` recorded.
pub open spec fn with_type(ns: Names, c: Seq<char>) -> Names {
    Names { types: register(ns.types, c, c3_type_name(c)), ..ns }
}

/// `ns` with the function `c` recorded.
pub open spec fn with_function(ns: Names, c: Seq<char>) -> Names {
    Names { functions: register(ns.functions, c, c3_variable_name(c)), ..ns }
}

/// `ns` with the variable `c` recorded.
pub open spec fn with_variable(ns: Names, c: Seq<char>) -> Names {
    Names { variables: register(ns.variables, c, c3_variable_name(c)), ..ns }
}

/// `ns` with the constant `c` recorded.
pub open spec fn with_constant(ns: Names, c: Seq<char>) -> Names {
    Names { constants: register(ns.constants, c, c3_constant_name(c)), ..ns }
}

/// `ns` with the constants `cs` recorded, in order.
pub open spec fn with_constants(ns: Names, cs: Seq<Seq<char>>) -> Names
    decreases cs.len(),
{
    if cs.len() == 0 {
        ns
    } else {
        with_constant(with_constants(ns, cs.drop_last()), cs.last())
    }
}

/// The name that a node under the field `f` of `n` has, where that child
/// exists and its text is valid UTF-8.
pub open spec fn field_name_text(n: SyntaxNode, f: Seq<char>) -> Option<Seq<char>> {
    match field_child(n, f) {
        Some(c) => match c.text {
            Some(t) => Some(t@),
            None => None,
        },
        None => None,
    }
}

/// The name that the declarator under the field `declarator` of `n`
/// declares, where there is one and its text is valid UTF-8.
pub open spec fn declared_name(n: SyntaxNode) -> Option<Seq<char>> {
    match field_child(n, "declarator"@) {
        Some(d) => declarator_name(d),
        None => None,
    }
}

/// The name that the declarator `d` declares, where its text is valid UTF-8.
pub open spec fn declarator_name(d: SyntaxNode) -> Option<Seq<char>> {
    match declared_identifier(d) {
        Some(id) => match id.text {
            Some(t) => Some(t@),
            None => None,
        },
        None => None,
    }
}

/// Whether the text of a declaration has the form `const NAME { A, B }`.
pub open spec fn is_const_enum_text(t: Seq<char>) -> bool {
    starts_with(t, "const"@) && has_char(t, '{') && !has_char(t, '=')
}

/// The names that a `const NAME { A, B = 2 }` declaration declares: the type
/// `NAME` and the constants `A`, `B`.
pub open spec fn const_enum_names(t: Seq<char>, ns: Names) -> Names {
    let parts = words(before_char(t, '{'));
    if parts.len() >= 2 && parts[0] == "const"@ {
        let ns = with_type(ns, parts[1]);
        let braced_part = after_char(t, '{');
        if has_char(braced_part, '}') {
            let items = trimmed_nonempty(split_char(before_char(braced_part, '}'), ','));
            with_constants(ns, items.map_values(|item: Seq<char>| trim(before_char(item, '='))))
        } else {
            ns
        }
    } else {
        ns
    }
}

/// Whether some child of a declaration is the type qualifier `const`.
pub open spec fn is_const_declaration(cs: Seq<SyntaxNode>) -> bool {
    exists|i: int|
        0 <= i < cs.len() && cs[i].kind@ == "type_qualifier"@ && text_of(cs[i]) == "const"@
}

/// `ns` with the names that the declarators of a declaration declare: as
/// constants where the declaration is `const`, as variables (arrays recorded
/// as such) otherwise.
pub open spec fn with_declarators(cs: Seq<SyntaxNode>, ns: Names, is_const: bool) -> Names
    decreases cs.len(),
{
    if cs.len() == 0 {
        ns
    } else {
        let ns = with_declarators(cs.drop_last(), ns, is_const);
        let d = cs.last();
        if has_field(d, "declarator"@) {
            match declarator_name(d) {
                Some(c) => if is_const {
                    with_constant(ns, c)
                } else {
                    let ns = with_variable(ns, c);
                    if array_declarator(d) is Some {
                        Names { arrays: ns.arrays.insert(c), ..ns }
                    } else {
                        ns
                    }
                },
                None => ns,
            }
        } else {
            ns
        }
    }
}

/// `ns` with the names that the node `n` itself declares.
pub open spec fn own_names(n: SyntaxNode, ns: Names) -> Names {
    let k = n.kind@;
    if k == "struct_specifier"@ || k == "enum_specifier"@ || k == "union_specifier"@ {
        match field_name_text(n, "name"@) {
            Some(c) => with_type(ns, c),
            None => ns,
        }
    } else if k == "enumerator"@ {
        match field_name_text(n, "name"@) {
            Some(c) => with_constant(ns, c),
            None => ns,
        }
    } else if k == "type_definition"@ {
        match declared_name(n) {
            Some(c) => with_type(ns, c),
            None => ns,
        }
    } else if k == "function_definition"@ {
        match declared_name(n) {
            Some(c) => with_function(ns, c),
            None => ns,
        }
    } else if k == "parameter_declaration"@ {
        match declared_name(n) {
            Some(c) => with_variable(ns, c),
            None => ns,
        }
    } else if k == "declaration"@ {
        with_declarators(n.children@, ns, is_const_declaration(n.children@))
    } else if k == "preproc_def"@ {
        match field_name_text(n, "name"@) {
            Some(c) => with_constant(ns, c),
            None => ns,
        }
    } else {
        ns
    }
}

/// `ns` with the names that `n` and the nodes below it declare, recorded in
/// preorder. Below a declaration of the form `const NAME { A, B }` nothing
/// more is recorded.
pub open spec fn populated(n: SyntaxNode, ns: Names) -> Names
    decreases n, 1int,
{
    if n.kind@ == "declaration"@ && is_const_enum_text(text_of(n)) {
        const_enum_names(text_of(n), ns)
    } else {
        populated_in(n.children@, own_names(n, ns))
    }
}

/// `ns` with the names that the nodes `cs` and those below them declare.
pub open spec fn populated_in(cs: Seq<SyntaxNode>, ns: Names) -> Names
    decreases cs, 0int,
{
    if cs.len() == 0 {
        ns
    } else {
        populated(cs[cs.len() - 1], populated_in(cs.subrange(0, cs.len() - 1), ns))
    }
}

/// The text as a string slice's owner.
fn as_string(t: &Vec<char>) -> (s: String)
    ensures
        s@ == t@,
{
    string_from_chars(t)
}

/// Records the names that a `const NAME { A, B }` declaration declares.
fn register_const_enum(t: &Vec<char>, symbols: &mut SymbolTable)
    requires
        has_char(t@, '{'),
    ensures
        final(symbols).names() == const_enum_names(t@, old(symbols).names()),
{
    let before = text_before_char(t, '{');
    let parts = text_words(&before);
    if !(parts.len() >= 2 && text_is(&parts[0], "const")) {
        return;
    }
    assert(texts(parts@)[0] == parts@[0]@);
    assert(texts(parts@)[1] == parts@[1]@);
    symbols.register_type(as_string(&parts[1]).as_str());
    let braced_part = match text_split_once(t, '{') {
        Some((_, after)) => after,
        None => {
            return;
        },
    };
    if !text_has_char(&braced_part, '}') {
        return;
    }
    let body = text_before_char(&braced_part, '}');
    let pieces = text_split_char(&body, ',');
    let items = text_trimmed_nonempty(&pieces);
    let ghost base = symbols.names();
    let ghost names_seq = texts(items@).map_values(|item: Seq<char>| trim(before_char(item, '=')));
    let mut i: usize = 0;
    while i < items.len()
        invariant
            i <= items.len(),
            names_seq == texts(items@).map_values(|item: Seq<char>| trim(before_char(item, '='))),
            symbols.names() == with_constants(base, names_seq.take(i as int)),
        decreases items.len() - i,
    {
        let name = text_trim(&text_before_char(&items[i], '='));
        assert(names_seq.take(i + 1).drop_last() == names_seq.take(i as int));
        assert(names_seq[i as int] == name@);
        symbols.register_constant(as_string(&name).as_str());
        i = i + 1;
    }
    assert(names_seq.take(items@.len() as int) == names_seq);
}

/// Whether some child of `node` is the type qualifier `const`.
fn has_const_qualifier(node: &SyntaxNode) -> (r: bool)
    ensures
        r == is_const_declaration(node.children@),
{
    let mut i: usize = 0;
    while i < node.children.len()
        invariant
            i <= node.children.len(),
            forall|j: int|
                0 <= j < i ==> !(node.children@[j].kind@ == "type_qualifier"@ && text_of(
                    node.children@[j],
                ) == "const"@),
        decreases node.children.len() - i,
    {
        let c = &node.children[i];
        if c.is_kind("type_qualifier") && text_is(&c.text_or_empty(), "const") {
            return true;
        }
        i = i + 1;
    }
    false
}

/// The name that a declarator declares, where its text is valid UTF-8.
fn declarator_name_text(d: &SyntaxNode) -> (r: Option<String>)
    ensures
        match r {
            Some(s) => declarator_name(*d) == Some(s@),
            None => declarator_name(*d) is None,
        },
{
    match extract_declarator_identifier(d) {
        Some(id) => match &id.text {
            Some(t) => Some(as_string(t)),
            None => None,
        },
        None => None,
    }
}

/// The name of the child under the field `f`, where its text is valid UTF-8.
fn field_name_string(node: &SyntaxNode, f: &str) -> (r: Option<String>)
    ensures
        match r {
            Some(s) => field_name_text(*node, f@) == Some(s@),
            None => field_name_text(*node, f@) is None,
        },
{
    match node.field_child(f) {
        Some(c) => match &c.text {
            Some(t) => Some(as_string(t)),
            None => None,
        },
        None => None,
    }
}

/// The name that the declarator under the field `declarator` declares.
fn declared_name_string(node: &SyntaxNode) -> (r: Option<String>)
    ensures
        match r {
            Some(s) => declared_name(*node) == Some(s@),
            None => declared_name(*node) is None,
        },
{
    match node.field_child("declarator") {
        Some(d) => declarator_name_text(d),
        None => None,
    }
}

/// Records the names that the declarators of a declaration declare.
fn register_declarators(node: &SyntaxNode, symbols: &mut SymbolTable)
    ensures
        final(symbols).names() == with_declarators(
            node.children@,
            old(symbols).names(),
            is_const_declaration(node.children@),
        ),
{
    let is_const = has_const_qualifier(node);
    let ghost base = symbols.names();
    let mut i: usize = 0;
    while i < node.children.len()
        invariant
            i <= node.children.len(),
            is_const == is_const_declaration(node.children@),
            symbols.names() == with_declarators(node.children@.take(i as int), base, is_const),
        decreases node.children.len() - i,
    {
        let ghost cs = node.children@.take(i + 1);
        assert(cs.drop_last() == node.children@.take(i as int));
        assert(cs.last() == node.children@[i as int]);
        let d = &node.children[i];
        let is_declarator = match &d.field {
            Some(f) => text_is(f, "declarator"),
            None => false,
        };
        if is_declarator {
            if let Some(c_name) = declarator_name_text(d) {
                if is_const {
                    symbols.register_constant(c_name.as_str());
                } else {
                    symbols.register_variable(c_name.as_str());
                    if find_array_declarator(d).is_some() {
                        let key = crate::text::chars_of(c_name.as_str());
                        symbols.arrays.insert(key);
                    }
                }
            }
        }
        i = i + 1;
    }
    assert(node.children@.take(node.children@.len() as int) == node.children@);
}

/// Records, in preorder, the names that `node` and the nodes below it declare.
pub fn populate_symbols(node: &SyntaxNode, symbols: &mut SymbolTable)
    ensures
        final(symbols).names() == populated(*node, old(symbols).names()),
    decreases node, 1int,
{
    if node.is_kind("declaration") {
        let t = node.text_or_empty();
        if text_starts_with(&t, "const") && text_has_char(&t, '{') && !text_has_char(&t, '=') {
            register_const_enum(&t, symbols);
            return;
        }
    }
    if node.is_kind("struct_specifier") || node.is_kind("enum_specifier") || node.is_kind(
        "union_specifier",
    ) {
        if let Some(c_name) = field_name_string(node, "name") {
            symbols.register_type(c_name.as_str());
        }
    } else if node.is_kind("enumerator") {
        if let Some(c_name) = field_name_string(node, "name") {
            symbols.register_constant(c_name.as_str());
        }
    } else if node.is_kind("type_definition") {
        if let Some(c_name) = declared_name_string(node) {
            symbols.register_type(c_name.as_str());
        }
    } else if node.is_kind("function_definition") {
        if let Some(c_name) = declared_name_string(node) {
            symbols.register_function(c_name.as_str());
        }
    } else if node.is_kind("parameter_declaration") {
        if let Some(c_name) = declared_name_string(node) {
            symbols.register_variable(c_name.as_str());
        }
    } else if node.is_kind("declaration") {
        register_declarators(node, symbols);
    } else if node.is_kind("preproc_def") {
        if let Some(c_name) = field_name_string(node, "name") {
            symbols.register_constant(c_name.as_str());
        }
    }
    assert(symbols.names() =~= own_names(*node, old(symbols).names()));
    assert(!(node.kind@ == "declaration"@ && is_const_enum_text(text_of(*node))));
    let ghost base = symbols.names();
    let mut i: usize = 0;
    while i < node.children.len()
        invariant
            i <= node.children.len(),
            symbols.names() == populated_in(node.children@.take(i as int), base),
        decreases node.children.len() - i,
    {
        let ghost cs = node.children@.take(i + 1);
        assert(cs.subrange(0, cs.len() - 1) == node.children@.take(i as int));
        assert(cs[cs.len() - 1] == node.children@[i as int]);
        populate_symbols(&node.children[i], symbols);
        i = i + 1;
    }
    assert(node.children@.take(node.children@.len() as int) == node.children@);
}

// ---------------------------------------------------------------------------
// What the first pass keeps
// ---------------------------------------------------------------------------

/// Every key of `a` is a key of `b`, with the same value.
pub open spec fn keeps_map(a: Map<Seq<char>, Seq<char>>, b: Map<Seq<char>, Seq<char>>) -> bool {
    forall|k: Seq<char>| #[trigger] a.contains_key(k) ==> b.contains_key(k) && b[k] == a[k]
}

/// Every name that `a` records, `b` records with the same C3 name, and every
/// array of `a` is one of `b`.
pub open spec fn keeps_names(a: Names, b: Names) -> bool {
    &&& keeps_map(a.types, b.types)
    &&& keeps_map(a.functions, b.functions)
    &&& keeps_map(a.variables, b.variables)
    &&& keeps_map(a.constants, b.constants)
    &&& a.arrays.subset_of(b.arrays)
}

proof fn lemma_keeps_refl(a: Names)
    ensures
        keeps_names(a, a),
{
}

proof fn lemma_keeps_trans(a: Names, b: Names, c: Names)
    requires
        keeps_names(a, b),
        keeps_names(b, c),
    ensures
        keeps_names(a, c),
{
    assert forall|k: Seq<char>| #[trigger] a.types.contains_key(k) implies c.types.contains_key(k)
        && c.types[k] == a.types[k] by {
        assert(b.types.contains_key(k));
    }
    assert forall|k: Seq<char>| #[trigger] a.functions.contains_key(k) implies c.functions.contains_key(
        k,
    ) && c.functions[k] == a.functions[k] by {
        assert(b.functions.contains_key(k));
    }
    assert forall|k: Seq<char>| #[trigger] a.variables.contains_key(k) implies c.variables.contains_key(
        k,
    ) && c.variables[k] == a.variables[k] by {
        assert(b.variables.contains_key(k));
    }
    assert forall|k: Seq<char>| #[trigger] a.constants.contains_key(k) implies c.constants.contains_key(
        k,
    ) && c.constants[k] == a.constants[k] by {
        assert(b.constants.contains_key(k));
    }
}

proof fn lemma_with_constants_keeps(ns: Names, cs: Seq<Seq<char>>)
    ensures
        keeps_names(ns, with_constants(ns, cs)),
    decreases cs.len(),
{
    if cs.len() > 0 {
        lemma_with_constants_keeps(ns, cs.drop_last());
        let mid = with_constants(ns, cs.drop_last());
        lemma_keeps_trans(ns, mid, with_constant(mid, cs.last()));
    }
}

proof fn lemma_with_declarators_keeps(cs: Seq<SyntaxNode>, ns: Names, is_const: bool)
    ensures
        keeps_names(ns, with_declarators(cs, ns, is_const)),
    decreases cs.len(),
{
    if cs.len() > 0 {
        lemma_with_declarators_keeps(cs.drop_last(), ns, is_const);
        let mid = with_declarators(cs.drop_last(), ns, is_const);
        let d = cs.last();
        if has_field(d, "declarator"@) {
            if let Some(c) = declarator_name(d) {
                if is_const {
                    lemma_keeps_trans(ns, mid, with_constant(mid, c));
                } else {
                    let v = with_variable(mid, c);
                    lemma_keeps_trans(ns, mid, v);
                    lemma_keeps_trans(ns, v, Names { arrays: v.arrays.insert(c), ..v });
                }
            }
        }
    }
}

proof fn lemma_own_names_keeps(n: SyntaxNode, ns: Names)
    ensures
        keeps_names(ns, own_names(n, ns)),
{
    lemma_with_declarators_keeps(n.children@, ns, is_const_declaration(n.children@));
}

proof fn lemma_const_enum_names_keeps(t: Seq<char>, ns: Names)
    ensures
        keeps_names(ns, const_enum_names(t, ns)),
{
    let parts = words(before_char(t, '{'));
    if parts.len() >= 2 && parts[0] == "const"@ {
        let ns1 = with_type(ns, parts[1]);
        let braced_part = after_char(t, '{');
        if has_char(braced_part, '}') {
            let items = trimmed_nonempty(split_char(before_char(braced_part, '}'), ','));
            let names_seq = items.map_values(|item: Seq<char>| trim(before_char(item, '=')));
            lemma_with_constants_keeps(ns1, names_seq);
            lemma_keeps_trans(ns, ns1, with_constants(ns1, names_seq));
        }
    }
}

/// The first pass never forgets a name or changes the C3 name recorded for
/// it: every name recorded before is recorded after, with the same C3 name.
pub proof fn populate_keeps_names(n: SyntaxNode, ns: Names)
    ensures
        keeps_names(ns, populated(n, ns)),
    decreases n, 1int,
{
    if n.kind@ == "declaration"@ && is_const_enum_text(text_of(n)) {
        lemma_const_enum_names_keeps(text_of(n), ns);
    } else {
        lemma_own_names_keeps(n, ns);
        populate_in_keeps_names(n.children@, own_names(n, ns));
        lemma_keeps_trans(ns, own_names(n, ns), populated(n, ns));
    }
}

/// The first pass over a sequence of nodes never forgets a name or changes
/// the C3 name recorded for it.
pub proof fn populate_in_keeps_names(cs: Seq<SyntaxNode>, ns: Names)
    ensures
        keeps_names(ns, populated_in(cs, ns)),
    decreases cs, 0int,
{
    if cs.len() == 0 {
        lemma_keeps_refl(ns);
    } else {
        let init = cs.subrange(0, cs.len() - 1);
        populate_in_keeps_names(init, ns);
        let mid = populated_in(init, ns);
        populate_keeps_names(cs[cs.len() - 1], mid);
        lemma_keeps_trans(ns, mid, populated_in(cs, ns));
    }
}

/// What the pass over one node of a sequence recorded is kept by the pass
/// over the whole sequence.
proof fn lemma_populate_in_keeps_each(cs: Seq<SyntaxNode>, ns: Names, i: int)
    requires
        0 <= i < cs.len(),
    ensures
        keeps_names(populated(cs[i], populated_in(cs.subrange(0, i), ns)), populated_in(cs, ns)),
    decreases cs.len(),
{
    let init = cs.subrange(0, cs.len() - 1);
    if i == cs.len() - 1 {
        assert(init == cs.subrange(0, i));
        lemma_keeps_refl(populated_in(cs, ns));
    } else {
        lemma_populate_in_keeps_each(init, ns, i);
        assert(init.subrange(0, i) == cs.subrange(0, i));
        assert(init[i] == cs[i]);
        let mid = populated_in(init, ns);
        populate_keeps_names(cs[cs.len() - 1], mid);
        lemma_keeps_trans(
            populated(cs[i], populated_in(cs.subrange(0, i), ns)),
            mid,
            populated_in(cs, ns),
        );
    }
}

/// The kinds that the first pass tells apart are different words.
proof fn proof_kinds_differ()
    ensures
        "declaration"@ != "struct_specifier"@,
        "declaration"@ != "union_specifier"@,
        "declaration"@ != "enum_specifier"@,
        "declaration"@ != "function_definition"@,
        "function_definition"@ != "struct_specifier"@,
        "function_definition"@ != "union_specifier"@,
        "function_definition"@ != "enum_specifier"@,
        "function_definition"@ != "enumerator"@,
        "function_definition"@ != "type_definition"@,
{
    reveal_strlit("declaration");
    reveal_strlit("struct_specifier");
    reveal_strlit("union_specifier");
    reveal_strlit("enum_specifier");
    reveal_strlit("enumerator");
    reveal_strlit("type_definition");
    reveal_strlit("function_definition");
    assert("declaration"@.len() == 11);
    assert("struct_specifier"@.len() == 16);
    assert("union_specifier"@.len() == 15);
    assert("enum_specifier"@.len() == 14);
    assert("enumerator"@.len() == 10);
    assert("type_definition"@.len() == 15);
    assert("function_definition"@.len() == 19);
}

/// After the first pass over a tree, every function that the root's children
/// define is recorded, under a C3 name.
pub proof fn populate_records_defined_functions(root: SyntaxNode, ns: Names, i: int, name: Seq<char>)
    requires
        !(root.kind@ == "declaration"@ && is_const_enum_text(text_of(root))),
        0 <= i < root.children@.len(),
        root.children@[i].kind@ == "function_definition"@,
        declared_name(root.children@[i]) == Some(name),
    ensures
        populated(root, ns).functions.contains_key(name),
{
    proof_kinds_differ();
    let cs = root.children@;
    let before = populated_in(cs.subrange(0, i), own_names(root, ns));
    let f = cs[i];
    let own = own_names(f, before);
    assert(own.functions.contains_key(name));
    populate_in_keeps_names(f.children@, own);
    lemma_populate_in_keeps_each(cs, own_names(root, ns), i);
    assert(populated(f, before) == populated_in(f.children@, own));
    assert(populated(f, before).functions.contains_key(name));
}

/// After the first pass over a `struct`, `union` or `enum` specifier that has
/// a tag, the tag is recorded; where it was not recorded before, its C3 name
/// is the C3 type name of the tag.
pub proof fn populate_records_tag(n: SyntaxNode, ns: Names, tag: Seq<char>)
    requires
        n.kind@ == "struct_specifier"@ || n.kind@ == "union_specifier"@ || n.kind@
            == "enum_specifier"@,
        field_name_text(n, "name"@) == Some(tag),
    ensures
        populated(n, ns).types.contains_key(tag),
        !ns.types.contains_key(tag) ==> populated(n, ns).types[tag] == c3_type_name(tag),
{
    proof_kinds_differ();
    let own = own_names(n, ns);
    assert(own.types.contains_key(tag));
    populate_in_keeps_names(n.children@, own);
}

// ---------------------------------------------------------------------------
// What every entry of the table holds
// ---------------------------------------------------------------------------

/// Every entry maps its C name to the C3 name of its kind: a type to its C3
/// type name, a function or variable to its C3 variable name, a constant to
/// its C3 constant name; and every array is a recorded variable.
pub open spec fn named_by_kind(ns: Names) -> bool {
    &&& forall|k: Seq<char>| #[trigger] ns.types.contains_key(k) ==> ns.types[k] == c3_type_name(k)
    &&& forall|k: Seq<char>| #[trigger] ns.functions.contains_key(k) ==> ns.functions[k]
        == c3_variable_name(k)
    &&& forall|k: Seq<char>| #[trigger] ns.variables.contains_key(k) ==> ns.variables[k]
        == c3_variable_name(k)
    &&& forall|k: Seq<char>| #[trigger] ns.constants.contains_key(k) ==> ns.constants[k]
        == c3_constant_name(k)
    &&& ns.arrays.subset_of(ns.variables.dom())
}

proof fn lemma_with_constants_by_kind(ns: Names, cs: Seq<Seq<char>>)
    requires
        named_by_kind(ns),
    ensures
        named_by_kind(with_constants(ns, cs)),
    decreases cs.len(),
{
    if cs.len() > 0 {
        lemma_with_constants_by_kind(ns, cs.drop_last());
    }
}

proof fn lemma_with_declarators_by_kind(cs: Seq<SyntaxNode>, ns: Names, is_const: bool)
    requires
        named_by_kind(ns),
    ensures
        named_by_kind(with_declarators(cs, ns, is_const)),
    decreases cs.len(),
{
    if cs.len() > 0 {
        lemma_with_declarators_by_kind(cs.drop_last(), ns, is_const);
        let mid = with_declarators(cs.drop_last(), ns, is_const);
        let d = cs.last();
        if has_field(d, "declarator"@) {
            if let Some(c) = declarator_name(d) {
                if !is_const {
                    let v = with_variable(mid, c);
                    assert(v.variables.contains_key(c));
                    assert(named_by_kind(v));
                    assert(named_by_kind(Names { arrays: v.arrays.insert(c), ..v }));
                }
            }
        }
    }
}

proof fn lemma_own_names_by_kind(n: SyntaxNode, ns: Names)
    requires
        named_by_kind(ns),
    ensures
        named_by_kind(own_names(n, ns)),
{
    lemma_with_declarators_by_kind(n.children@, ns, is_const_declaration(n.children@));
}

proof fn lemma_const_enum_names_by_kind(t: Seq<char>, ns: Names)
    requires
        named_by_kind(ns),
    ensures
        named_by_kind(const_enum_names(t, ns)),
{
    let parts = words(before_char(t, '{'));
    if parts.len() >= 2 && parts[0] == "const"@ {
        let ns1 = with_type(ns, parts[1]);
        let braced_part = after_char(t, '{');
        if has_char(braced_part, '}') {
            let items = trimmed_nonempty(split_char(before_char(braced_part, '}'), ','));
            let names_seq = items.map_values(|item: Seq<char>| trim(before_char(item, '=')));
            lemma_with_constants_by_kind(ns1, names_seq);
        }
    }
}

/// The first pass keeps the table named by kind: if every entry maps its C
/// name to the C3 name of its kind and every array is a variable before the
/// pass, the same holds after it.
pub proof fn populate_names_by_kind(n: SyntaxNode, ns: Names)
    requires
        named_by_kind(ns),
    ensures
        named_by_kind(populated(n, ns)),
    decreases n, 1int,
{
    if n.kind@ == "declaration"@ && is_const_enum_text(text_of(n)) {
        lemma_const_enum_names_by_kind(text_of(n), ns);
    } else {
        lemma_own_names_by_kind(n, ns);
        populate_in_names_by_kind(n.children@, own_names(n, ns));
    }
}

/// The first pass over a sequence of nodes keeps the table named by kind.
pub proof fn populate_in_names_by_kind(cs: Seq<SyntaxNode>, ns: Names)
    requires
        named_by_kind(ns),
    ensures
        named_by_kind(populated_in(cs, ns)),
    decreases cs, 0int,
{
    if cs.len() > 0 {
        populate_in_names_by_kind(cs.subrange(0, cs.len() - 1), ns);
        populate_names_by_kind(cs[cs.len() - 1], populated_in(cs.subrange(0, cs.len() - 1), ns));
    }
}

} // verus!
