//! The translation of a C syntax tree into C3 text.
//!
//! Each function here computes, for one kind of node, the text that
//! `translation` (in `crate::translation`) says it becomes.

use vstd::prelude::*;
use crate::naming::{c3_integer_type_text, opt_text};
use crate::naming::c3_type_name;
use crate::populate::{field_name_text, populate_records_tag, populate_symbols, populated};
use crate::symbols::{NameMap, Names, SymbolTable};
use crate::syntax::{
    array_declarator, deref_node, extract_declarator_identifier, field_child, find_array_declarator,
    get_raw_identifier_name, has_return_statement, is_pointer_declarator,
    lemma_array_declarator_within, lemma_field_child_smaller, lemma_field_index, pointer_stars,
    text_of, SyntaxNode,
};
use crate::text::{
    chars_of, copy_range, push_str, push_text, text_before_char, text_ends_with,
    text_ends_with_char, text_has_char, text_is, text_is_blank, text_join, text_replace,
    text_split_char, text_split_once, text_starts_with, text_trim, text_trim_char,
    text_trim_end, text_trim_end_char, text_trimmed_nonempty, text_words, texts, starts_with,
};
use crate::translation::{
    array_dimensions, as_block, dimensions_end, binary_translation, block_lines, braced, case_translation,
    child_placement, colon_index, comma_translation, const_enum_translation, declaration_translation,
    declarator_lines, declarator_type, default_translation, dimension_text, dimensions_text,
    enum_translation, enumerator_items, enumerator_translation, expression_statement_translation,
    falls_through, for_translation, function_translation, if_translation, include_translation,
    init_declarator_translation, is_comparison, item_block, item_lines, label_body, label_lines,
    last_inner, last_real_index, lemma_colon_index, list_items, lookup_or, main_body,
    optional_translation, pair_translation, parameter_translation, Placement,
    pointer_expression_translation, lemma_kinds_differ, root_placement, skipped_break, some_item_has_eq, spaced, spaced_nonblank,
    struct_translation, switch_translation, translation, type_definition_translation,
    union_translation, unit_lines, while_translation, wrapped_translation, STDIO_DECLARATIONS,
};

verus! {

broadcast use vstd::string::group_string_axioms;

/// The placement of the children of `n`, where `n` is placed as `p`.
pub fn placement_of_children(n: &SyntaxNode, p: Placement) -> (r: Placement)
    ensures
        r == child_placement(*n, p),
{
    Placement {
        parent_parenthesized: n.is_kind("parenthesized_expression"),
        in_statement: n.is_kind("expression_statement") || (n.is_kind("comma_expression")
            && p.in_statement),
    }
}

/// The name that `k` maps to in `m`, or `k` itself.
fn lookup_or_text(m: &NameMap, k: &Vec<char>) -> (r: Vec<char>)
    ensures
        r@ == lookup_or(m@, k@),
{
    match m.get(k) {
        Some(v) => copy_range(v, 0, v.len()),
        None => copy_range(k, 0, k.len()),
    }
}

/// `s` put in a block, indented one level.
fn braced_text(s: &Vec<char>) -> (r: Vec<char>)
    ensures
        r@ == braced(s@),
{
    proof {
        reveal_strlit("\n");
    }
    let mut out = chars_of("{\n    ");
    let inner = text_replace(s, "\n", "\n    ");
    push_text(&mut out, &inner);
    push_str(&mut out, "\n}");
    out
}

/// The text of statement `n`, put in a block unless it is one already.
fn as_block_text(n: &SyntaxNode, s: Vec<char>) -> (r: Vec<char>)
    ensures
        r@ == as_block(*n, s@),
{
    if n.is_kind("compound_statement") {
        s
    } else {
        braced_text(&s)
    }
}

/// An enumeration body: its items one per line, in braces.
fn item_block_text(items: &Vec<Vec<char>>) -> (r: Vec<char>)
    ensures
        r@ == item_block(texts(items@)),
{
    let ghost t = texts(items@);
    let mut out = chars_of("{\n");
    let mut i: usize = 0;
    while i < items.len()
        invariant
            i <= items.len(),
            t == texts(items@),
            out@ == "{\n"@ + item_lines(t, i as int),
        decreases items.len() - i,
    {
        push_str(&mut out, "    ");
        push_text(&mut out, &items[i]);
        if i + 1 < items.len() {
            push_str(&mut out, ",\n");
        } else {
            push_str(&mut out, "\n");
        }
        assert(t[i as int] == items@[i as int]@);
        i = i + 1;
    }
    push_str(&mut out, "}");
    out
}

/// Whether some item holds `=`.
fn some_item_has_eq_text(items: &Vec<Vec<char>>) -> (r: bool)
    ensures
        r == some_item_has_eq(texts(items@)),
{
    let mut i: usize = 0;
    while i < items.len()
        invariant
            i <= items.len(),
            forall|j: int| 0 <= j < i ==> !crate::text::has_char(#[trigger] texts(items@)[j], '='),
        decreases items.len() - i,
    {
        if text_has_char(&items[i], '=') {
            assert(texts(items@)[i as int] == items@[i as int]@);
            return true;
        }
        assert(texts(items@)[i as int] == items@[i as int]@);
        i = i + 1;
    }
    false
}

/// A declaration of the form `const NAME { A, B }` as a C3 enum.
pub fn transpile_const_enum(node: &SyntaxNode, symbols: &SymbolTable) -> (r: Option<Vec<char>>)
    ensures
        opt_text(r) == const_enum_translation(text_of(*node), symbols.names()),
{
    let t = node.text_or_empty();
    if !(text_starts_with(&t, "const") && text_has_char(&t, '{') && !text_has_char(&t, '=')) {
        return None;
    }
    let before = text_before_char(&t, '{');
    let parts = text_words(&before);
    if !(parts.len() >= 2 && text_is(&parts[0], "const")) {
        return None;
    }
    assert(texts(parts@)[0] == parts@[0]@);
    assert(texts(parts@)[1] == parts@[1]@);
    let c3_name = lookup_or_text(&symbols.types, &parts[1]);
    let braced_part = match text_split_once(&t, '{') {
        Some((_, after)) => after,
        None => {
            return None;
        },
    };
    if !text_has_char(&braced_part, '}') {
        return None;
    }
    let body = text_before_char(&braced_part, '}');
    let pieces = text_split_char(&body, ',');
    let items = text_trimmed_nonempty(&pieces);
    let block = item_block_text(&items);
    let mut out = if some_item_has_eq_text(&items) {
        chars_of("constdef ")
    } else {
        chars_of("enum ")
    };
    push_text(&mut out, &c3_name);
    push_str(&mut out, " ");
    push_text(&mut out, &block);
    Some(out)
}

/// What an `#include` becomes, from the text of its path.
fn include_text(path: &Vec<char>) -> (r: Vec<char>)
    ensures
        r@ == include_translation(path@),
{
    if path.len() > 0 && path[0] == '<' {
        if text_is(path, "<stdio.h>") {
            chars_of(STDIO_DECLARATIONS)
        } else if text_is(path, "<stdlib.h>") || text_is(path, "<string.h>") {
            chars_of("import libc;")
        } else {
            let mut out = chars_of("// TODO: Find C3 equivalent for ");
            push_text(&mut out, path);
            out
        }
    } else if path.len() > 0 && path[0] == '"' {
        let file_name = text_trim_char(path, '"');
        let module_name = if text_ends_with(&file_name, ".h") {
            proof {
                reveal_strlit(".h");
            }
            copy_range(&file_name, 0, file_name.len() - 2)
        } else {
            file_name
        };
        let mut out = chars_of("import ");
        push_text(&mut out, &module_name);
        push_str(&mut out, ";");
        out
    } else {
        Vec::new()
    }
}

/// Whether a binary operator is a comparison.
fn is_comparison_text(op: &Vec<char>) -> (r: bool)
    ensures
        r == is_comparison(op@),
{
    text_is(op, "==") || text_is(op, "!=") || text_is(op, "<") || text_is(op, ">") || text_is(
        op,
        "<=",
    ) || text_is(op, ">=")
}

/// The body of `main`, made to return 0.
fn main_body_text(body: Vec<char>) -> (r: Vec<char>)
    ensures
        r@ == main_body(body@),
{
    if text_ends_with_char(&body, '}') {
        let mut b = body;
        b.pop();
        if !text_ends_with_char(&b, '\n') {
            b.push('\n');
        }
        push_str(&mut b, "    return 0;\n}");
        b
    } else {
        body
    }
}

/// The dimensions written as C3 writes them.
fn dimensions_text_of(dims: &Vec<Vec<char>>) -> (r: Vec<char>)
    ensures
        r@ == dimensions_text(texts(dims@)),
{
    let mut shown: Vec<Vec<char>> = Vec::new();
    let mut i: usize = 0;
    while i < dims.len()
        invariant
            i <= dims.len(),
            texts(shown@) == texts(dims@).take(i as int).map_values(
                |d: Seq<char>| dimension_text(d),
            ),
        decreases dims.len() - i,
    {
        let ghost before = texts(shown@);
        let d = if dims[i].len() == 0 {
            chars_of("*")
        } else {
            copy_range(&dims[i], 0, dims[i].len())
        };
        assert(dims@[i as int]@.subrange(0, dims@[i as int]@.len() as int) == dims@[i as int]@);
        let ghost dv = d@;
        shown.push(d);
        assert(texts(shown@) =~= before.push(dv));
        assert(texts(dims@).take(i + 1).map_values(|d: Seq<char>| dimension_text(d))
            =~= texts(dims@).take(i as int).map_values(|d: Seq<char>| dimension_text(d)).push(
            dimension_text(dims@[i as int]@),
        ));
        i = i + 1;
    }
    assert(texts(dims@).take(dims@.len() as int) == texts(dims@));
    let mut out = chars_of("[");
    let joined = text_join(&shown, "][");
    push_text(&mut out, &joined);
    push_str(&mut out, "]");
    out
}

/// The position of the first child that is a `:`.
fn find_colon(cs: &Vec<SyntaxNode>) -> (r: Option<usize>)
    ensures
        match r {
            Some(j) => colon_index(cs@) == Some(j as int) && j < cs@.len(),
            None => colon_index(cs@) is None,
        },
{
    let mut found: Option<usize> = None;
    let mut i: usize = 0;
    while i < cs.len()
        invariant
            i <= cs.len(),
            match found {
                Some(j) => colon_index(cs@.take(i as int)) == Some(j as int) && j < i,
                None => colon_index(cs@.take(i as int)) is None,
            },
        decreases cs.len() - i,
    {
        assert(cs@.take(i + 1).drop_last() == cs@.take(i as int));
        if found.is_none() && cs[i].is_kind(":") {
            found = Some(i);
        }
        i = i + 1;
    }
    assert(cs@.take(cs@.len() as int) == cs@);
    found
}

/// The position of the last statement from `start` on that is not a comment,
/// counted from `start`.
fn find_last_real(cs: &Vec<SyntaxNode>, start: usize) -> (r: Option<usize>)
    requires
        start <= cs.len(),
    ensures
        match r {
            Some(j) => last_real_index(cs@.subrange(start as int, cs@.len() as int)) == Some(
                j as int,
            ) && start + j < cs@.len(),
            None => last_real_index(cs@.subrange(start as int, cs@.len() as int)) is None,
        },
{
    let ghost ss = cs@.subrange(start as int, cs@.len() as int);
    let mut found: Option<usize> = None;
    let mut i: usize = start;
    while i < cs.len()
        invariant
            start <= i <= cs.len(),
            ss == cs@.subrange(start as int, cs@.len() as int),
            match found {
                Some(j) => last_real_index(ss.take(i - start)) == Some(j as int) && start + j < i,
                None => last_real_index(ss.take(i - start)) is None,
            },
        decreases cs.len() - i,
    {
        assert(ss.take(i - start + 1).drop_last() == ss.take(i - start));
        assert(ss.take(i - start + 1).last() == cs@[i as int]);
        if !cs[i].is_kind("comment") {
            found = Some(i - start);
        }
        i = i + 1;
    }
    assert(ss.take(cs@.len() - start) == ss);
    found
}

// ---------------------------------------------------------------------------
// Translation of nodes
// ---------------------------------------------------------------------------

/// The C3 text of a node.
pub fn transpile_node(node: &SyntaxNode, placement: Placement, symbols: &SymbolTable) -> (r: Vec<
    char,
>)
    ensures
        r@ == translation(*node, placement, symbols.names()),
    decreases node, 2int,
{
    proof {
        reveal_strlit("");
    }
    let cp = placement_of_children(node, placement);
    if node.is_kind("translation_unit") {
        unit_text(node, cp, symbols)
    } else if node.is_kind("struct_specifier") {
        struct_text(node, placement, symbols)
    } else if node.is_kind("enum_specifier") {
        enum_text(node, placement, symbols)
    } else if node.is_kind("union_specifier") {
        union_text(node, placement, symbols)
    } else if node.is_kind("enumerator") {
        enumerator_text(node, placement, symbols)
    } else if node.is_kind("field_declaration_list") || node.is_kind("compound_statement") {
        block_text(node, cp, symbols)
    } else if node.is_kind("function_definition") {
        function_text(node, placement, symbols)
    } else if node.is_kind("function_declarator") {
        pair_text(node, placement, symbols, "declarator", "parameters", " ")
    } else if node.is_kind("parameter_declaration") {
        parameter_text(node, placement, symbols)
    } else if node.is_kind("expression_statement") {
        expression_statement_text(node, placement, symbols)
    } else if node.is_kind("comma_expression") {
        comma_text(node, placement, symbols)
    } else if node.is_kind("while_statement") {
        while_text(node, placement, symbols)
    } else if node.is_kind("if_statement") {
        if_text(node, placement, symbols)
    } else if node.is_kind("for_statement") {
        for_text(node, placement, symbols)
    } else if node.is_kind("binary_expression") {
        binary_text(node, placement, symbols)
    } else if node.is_kind("switch_statement") {
        switch_text(node, placement, symbols)
    } else if node.is_kind("case_statement") {
        case_text(node, placement, symbols)
    } else if node.is_kind("default_statement") {
        default_text(node, placement, symbols)
    } else if node.is_kind("call_expression") {
        pair_text(node, placement, symbols, "function", "arguments", "")
    } else if node.is_kind("argument_list") || node.is_kind("parameter_list") {
        let items = list_items_text(node, cp, symbols, "(", ")");
        let mut out = chars_of("(");
        let joined = text_join(&items, ", ");
        push_text(&mut out, &joined);
        push_str(&mut out, ")");
        out
    } else if node.is_kind("initializer_list") {
        let items = list_items_text(node, cp, symbols, "{", "}");
        if items.len() == 0 {
            chars_of("{}")
        } else {
            let mut out = chars_of("{ ");
            let joined = text_join(&items, ", ");
            push_text(&mut out, &joined);
            push_str(&mut out, " }");
            out
        }
    } else if node.is_kind("parenthesized_expression") {
        let inner = last_inner_text(node, cp, symbols);
        let mut out = chars_of("(");
        push_text(&mut out, &inner);
        push_str(&mut out, ")");
        out
    } else if node.is_kind("field_expression") {
        pair_text(node, placement, symbols, "argument", "field", ".")
    } else if node.is_kind("array_declarator") {
        wrapped_text(node, placement, symbols, "")
    } else if node.is_kind("pointer_declarator") {
        wrapped_text(node, placement, symbols, "*")
    } else if node.is_kind("pointer_expression") {
        pointer_expression_text(node, placement, symbols)
    } else if node.is_kind("type_qualifier") {
        Vec::new()
    } else if node.is_kind("primitive_type") || node.is_kind("type_identifier") {
        let t = text_trim(&node.text_or_empty());
        match c3_integer_type_text(&t) {
            Some(c) => c,
            None => lookup_or_text(&symbols.types, &t),
        }
    } else if node.is_kind("preproc_include") {
        match node.field_child("path") {
            Some(path) => include_text(&path.text_or_empty()),
            None => node.text_or_empty(),
        }
    } else if node.is_kind("preproc_def") {
        match (node.field_child("name"), node.field_child("value")) {
            (Some(name), Some(value)) => {
                let name_text = text_trim(&name.text_or_empty());
                let value_text = text_trim(&value.text_or_empty());
                let mut out = chars_of("alias ");
                let c3_name = lookup_or_text(&symbols.constants, &name_text);
                push_text(&mut out, &c3_name);
                push_str(&mut out, " = ");
                push_text(&mut out, &value_text);
                push_str(&mut out, ";");
                out
            },
            _ => node.text_or_empty(),
        }
    } else if node.is_kind("init_declarator") {
        init_declarator_text(node, placement, symbols)
    } else if node.is_kind("declaration") || node.is_kind("field_declaration") {
        match transpile_const_enum(node, symbols) {
            Some(e) => e,
            None => declaration_text(node, placement, symbols),
        }
    } else if node.is_kind("type_definition") {
        type_definition_text(node, placement, symbols)
    } else if node.is_kind("comment") || node.is_kind("string_literal") || node.is_kind(
        "char_literal",
    ) || node.is_kind("system_lib_string") || node.is_kind("number_literal") {
        node.text_or_empty()
    } else if node.children.len() == 0 {
        let t = node.text_or_empty();
        if node.is_kind("identifier") || node.is_kind("field_identifier") {
            if let Some(v) = symbols.functions.get(&t) {
                return copy_range(v, 0, v.len());
            }
            if let Some(v) = symbols.variables.get(&t) {
                return copy_range(v, 0, v.len());
            }
            if let Some(v) = symbols.constants.get(&t) {
                return copy_range(v, 0, v.len());
            }
        }
        t
    } else {
        let s = spaced_text(node, cp, symbols, false, None);
        proof {
            reveal_strlit(" ;");
            reveal_strlit(" ,");
            reveal_strlit("( ");
            reveal_strlit(" )");
        }
        let s = text_replace(&s, " ;", ";");
        let s = text_replace(&s, " ,", ",");
        let s = text_replace(&s, "( ", "(");
        let s = text_replace(&s, " )", ")");
        text_trim(&s)
    }
}

/// The lines of a translation unit.
fn unit_text(node: &SyntaxNode, cp: Placement, symbols: &SymbolTable) -> (r: Vec<char>)
    ensures
        r@ == unit_lines(node.children@, cp, symbols.names()),
    decreases node, 1int,
{
    let mut out: Vec<char> = Vec::new();
    let mut i: usize = 0;
    while i < node.children.len()
        invariant
            i <= node.children.len(),
            out@ == unit_lines(node.children@.take(i as int), cp, symbols.names()),
        decreases node.children.len() - i,
    {
        let ghost cs = node.children@.take(i + 1);
        assert(cs.subrange(0, cs.len() - 1) == node.children@.take(i as int));
        assert(cs[cs.len() - 1] == node.children@[i as int]);
        let c = &node.children[i];
        if !c.is_kind(";") {
            let t = transpile_node(c, cp, symbols);
            if !text_is_blank(&t) {
                push_text(&mut out, &t);
                push_str(&mut out, "\n");
            }
        }
        i = i + 1;
    }
    assert(node.children@.take(node.children@.len() as int) == node.children@);
    out
}

/// A block: its children that are not braces, indented, one per line.
fn block_text(node: &SyntaxNode, cp: Placement, symbols: &SymbolTable) -> (r: Vec<char>)
    ensures
        r@ == "{\n"@ + block_lines(node.children@, cp, symbols.names()) + "}"@,
    decreases node, 1int,
{
    let mut lines: Vec<char> = Vec::new();
    let mut i: usize = 0;
    while i < node.children.len()
        invariant
            i <= node.children.len(),
            lines@ == block_lines(node.children@.take(i as int), cp, symbols.names()),
        decreases node.children.len() - i,
    {
        let ghost cs = node.children@.take(i + 1);
        assert(cs.subrange(0, cs.len() - 1) == node.children@.take(i as int));
        assert(cs[cs.len() - 1] == node.children@[i as int]);
        let c = &node.children[i];
        if !c.is_kind("{") && !c.is_kind("}") {
            let t = transpile_node(c, cp, symbols);
            push_str(&mut lines, "    ");
            push_text(&mut lines, &t);
            push_str(&mut lines, "\n");
        }
        i = i + 1;
    }
    assert(node.children@.take(node.children@.len() as int) == node.children@);
    let mut out = chars_of("{\n");
    push_text(&mut out, &lines);
    push_str(&mut out, "}");
    out
}

/// The translations of the children that are not `open`, `close` or `,`.
fn list_items_text(
    node: &SyntaxNode,
    cp: Placement,
    symbols: &SymbolTable,
    open: &str,
    close: &str,
) -> (r: Vec<Vec<char>>)
    ensures
        texts(r@) == list_items(node.children@, cp, symbols.names(), open@, close@),
    decreases node, 1int,
{
    let mut items: Vec<Vec<char>> = Vec::new();
    let mut i: usize = 0;
    while i < node.children.len()
        invariant
            i <= node.children.len(),
            texts(items@) == list_items(
                node.children@.take(i as int),
                cp,
                symbols.names(),
                open@,
                close@,
            ),
        decreases node.children.len() - i,
    {
        let ghost cs = node.children@.take(i + 1);
        assert(cs.subrange(0, cs.len() - 1) == node.children@.take(i as int));
        assert(cs[cs.len() - 1] == node.children@[i as int]);
        let c = &node.children[i];
        if !c.is_kind(open) && !c.is_kind(close) && !c.is_kind(",") {
            let ghost before = texts(items@);
            let t = transpile_node(c, cp, symbols);
            let ghost tv = t@;
            items.push(t);
            assert(texts(items@) =~= before.push(tv));
        }
        i = i + 1;
    }
    assert(node.children@.take(node.children@.len() as int) == node.children@);
    items
}

/// The translation of the last child that is not a parenthesis.
fn last_inner_text(node: &SyntaxNode, cp: Placement, symbols: &SymbolTable) -> (r: Vec<char>)
    ensures
        r@ == last_inner(node.children@, cp, symbols.names()),
    decreases node, 1int,
{
    let mut inner: Vec<char> = Vec::new();
    let mut i: usize = 0;
    while i < node.children.len()
        invariant
            i <= node.children.len(),
            inner@ == last_inner(node.children@.take(i as int), cp, symbols.names()),
        decreases node.children.len() - i,
    {
        let ghost cs = node.children@.take(i + 1);
        assert(cs.subrange(0, cs.len() - 1) == node.children@.take(i as int));
        assert(cs[cs.len() - 1] == node.children@[i as int]);
        let c = &node.children[i];
        if !c.is_kind("(") && !c.is_kind(")") {
            inner = transpile_node(c, cp, symbols);
        }
        i = i + 1;
    }
    assert(node.children@.take(node.children@.len() as int) == node.children@);
    inner
}

/// The translations of the children, each followed by a space, with `;`
/// left out where `skip_semicolons` holds and children from `before` on left
/// out where it is given.
fn spaced_text(
    node: &SyntaxNode,
    cp: Placement,
    symbols: &SymbolTable,
    skip_semicolons: bool,
    before: Option<usize>,
) -> (r: Vec<char>)
    ensures
        r@ == spaced(node.children@, cp, symbols.names(), skip_semicolons, before),
    decreases node, 0int,
{
    let mut out: Vec<char> = Vec::new();
    let mut i: usize = 0;
    while i < node.children.len()
        invariant
            i <= node.children.len(),
            out@ == spaced(
                node.children@.take(i as int),
                cp,
                symbols.names(),
                skip_semicolons,
                before,
            ),
        decreases node.children.len() - i,
    {
        let ghost cs = node.children@.take(i + 1);
        assert(cs.subrange(0, cs.len() - 1) == node.children@.take(i as int));
        assert(cs[cs.len() - 1] == node.children@[i as int]);
        let c = &node.children[i];
        let kept = !(skip_semicolons && c.is_kind(";")) && match before {
            Some(b) => c.start_byte < b,
            None => true,
        };
        if kept {
            let t = transpile_node(c, cp, symbols);
            push_text(&mut out, &t);
            push_str(&mut out, " ");
        }
        i = i + 1;
    }
    assert(node.children@.take(node.children@.len() as int) == node.children@);
    out
}

/// A `struct` specifier.
fn struct_text(node: &SyntaxNode, placement: Placement, symbols: &SymbolTable) -> (r: Vec<char>)
    ensures
        r@ == struct_translation(*node, placement, symbols.names()),
    decreases node, 1int,
{
    proof {
        lemma_field_child_smaller(*node, "body"@);
    }
    let cp = placement_of_children(node, placement);
    match node.field_child("name") {
        Some(name) => {
            let c_name = name.text_or_empty();
            let c3_name = lookup_or_text(&symbols.types, &c_name);
            match node.field_child("body") {
                Some(body) => {
                    let b = transpile_node(body, cp, symbols);
                    let mut out = chars_of("struct ");
                    push_text(&mut out, &c3_name);
                    push_str(&mut out, " @cname(\"");
                    push_text(&mut out, &c_name);
                    push_str(&mut out, "\") ");
                    push_text(&mut out, &b);
                    out
                },
                None => c3_name,
            }
        },
        None => match node.field_child("body") {
            Some(body) => {
                let b = transpile_node(body, cp, symbols);
                let mut out = chars_of("struct ");
                push_text(&mut out, &b);
                out
            },
            None => chars_of("struct"),
        },
    }
}

/// A `union` specifier.
fn union_text(node: &SyntaxNode, placement: Placement, symbols: &SymbolTable) -> (r: Vec<char>)
    ensures
        r@ == union_translation(*node, placement, symbols.names()),
    decreases node, 1int,
{
    proof {
        lemma_field_child_smaller(*node, "body"@);
    }
    let cp = placement_of_children(node, placement);
    match node.field_child("name") {
        Some(name) => {
            let c3_name = lookup_or_text(&symbols.types, &name.text_or_empty());
            match node.field_child("body") {
                Some(body) => {
                    let b = transpile_node(body, cp, symbols);
                    let mut out = chars_of("union ");
                    push_text(&mut out, &c3_name);
                    push_str(&mut out, " ");
                    push_text(&mut out, &b);
                    out
                },
                None => c3_name,
            }
        },
        None => match node.field_child("body") {
            Some(body) => {
                let b = transpile_node(body, cp, symbols);
                let mut out = chars_of("union ");
                push_text(&mut out, &b);
                out
            },
            None => chars_of("union"),
        },
    }
}

/// An `enum` specifier.
fn enum_text(node: &SyntaxNode, placement: Placement, symbols: &SymbolTable) -> (r: Vec<char>)
    ensures
        r@ == enum_translation(*node, placement, symbols.names()),
    decreases node, 1int,
{
    proof {
        lemma_field_child_smaller(*node, "body"@);
    }
    let cp = placement_of_children(node, placement);
    match node.field_child("name") {
        Some(name) => {
            let c3_name = lookup_or_text(&symbols.types, &name.text_or_empty());
            match node.field_child("body") {
                Some(body) => {
                    let has_gap = text_has_char(&body.text_or_empty(), '=');
                    let bp = placement_of_children(body, cp);
                    let mut items: Vec<Vec<char>> = Vec::new();
                    let mut i: usize = 0;
                    while i < body.children.len()
                        invariant
                            i <= body.children.len(),
                            decreases_to!(*node => *body),
                            texts(items@) == enumerator_items(
                                body.children@.take(i as int),
                                bp,
                                symbols.names(),
                            ),
                        decreases body.children.len() - i,
                    {
                        let ghost cs = body.children@.take(i + 1);
                        assert(cs.subrange(0, cs.len() - 1) == body.children@.take(i as int));
                        assert(cs[cs.len() - 1] == body.children@[i as int]);
                        let c = &body.children[i];
                        assert(decreases_to!(*body => *c));
                        if c.is_kind("enumerator") {
                            let ghost before = texts(items@);
                            let t = transpile_node(c, bp, symbols);
                            let ghost tv = t@;
                            items.push(t);
                            assert(texts(items@) =~= before.push(tv));
                        }
                        i = i + 1;
                    }
                    assert(body.children@.take(body.children@.len() as int) == body.children@);
                    let block = item_block_text(&items);
                    let mut out = if has_gap {
                        chars_of("constdef ")
                    } else {
                        chars_of("enum ")
                    };
                    push_text(&mut out, &c3_name);
                    push_str(&mut out, " ");
                    push_text(&mut out, &block);
                    out
                },
                None => c3_name,
            }
        },
        None => chars_of("enum"),
    }
}

/// An enumerator.
fn enumerator_text(node: &SyntaxNode, placement: Placement, symbols: &SymbolTable) -> (r: Vec<
    char,
>)
    ensures
        r@ == enumerator_translation(*node, placement, symbols.names()),
    decreases node, 1int,
{
    proof {
        lemma_field_child_smaller(*node, "name"@);
        lemma_field_child_smaller(*node, "value"@);
    }
    let cp = placement_of_children(node, placement);
    match node.field_child("name") {
        Some(name) => {
            let name_text = transpile_node(name, cp, symbols);
            match node.field_child("value") {
                Some(value) => {
                    let v = transpile_node(value, cp, symbols);
                    let mut out = name_text;
                    push_str(&mut out, " = ");
                    push_text(&mut out, &v);
                    out
                },
                None => name_text,
            }
        },
        None => node.text_or_empty(),
    }
}

/// A function definition.
fn function_text(node: &SyntaxNode, placement: Placement, symbols: &SymbolTable) -> (r: Vec<char>)
    ensures
        r@ == function_translation(*node, placement, symbols.names()),
    decreases node, 1int,
{
    proof {
        lemma_field_child_smaller(*node, "type"@);
        lemma_field_child_smaller(*node, "declarator"@);
        lemma_field_child_smaller(*node, "body"@);
    }
    let cp = placement_of_children(node, placement);
    match (node.field_child("type"), node.field_child("declarator"), node.field_child("body")) {
        (Some(t), Some(d), Some(b)) => {
            let ret_type = transpile_node(t, cp, symbols);
            let decl = transpile_node(d, cp, symbols);
            let body = transpile_node(b, cp, symbols);
            let is_main = match extract_declarator_identifier(d) {
                Some(id) => text_is(&id.text_or_empty(), "main"),
                None => false,
            };
            let body = if is_main && text_is(&ret_type, "int") && !has_return_statement(b) {
                main_body_text(body)
            } else {
                body
            };
            let mut out = chars_of("fn ");
            push_text(&mut out, &ret_type);
            push_str(&mut out, " ");
            push_text(&mut out, &decl);
            push_str(&mut out, " ");
            push_text(&mut out, &body);
            out
        },
        _ => node.text_or_empty(),
    }
}

/// Two children, under the fields `first` and `second`, joined by `sep`.
fn pair_text(
    node: &SyntaxNode,
    placement: Placement,
    symbols: &SymbolTable,
    first: &str,
    second: &str,
    sep: &str,
) -> (r: Vec<char>)
    ensures
        r@ == pair_translation(*node, placement, symbols.names(), first@, second@, sep@),
    decreases node, 1int,
{
    proof {
        lemma_field_child_smaller(*node, first@);
        lemma_field_child_smaller(*node, second@);
    }
    let cp = placement_of_children(node, placement);
    match (node.field_child(first), node.field_child(second)) {
        (Some(a), Some(b)) => {
            let mut out = transpile_node(a, cp, symbols);
            push_str(&mut out, sep);
            let bt = transpile_node(b, cp, symbols);
            push_text(&mut out, &bt);
            out
        },
        _ => node.text_or_empty(),
    }
}

/// A parameter declaration.
fn parameter_text(node: &SyntaxNode, placement: Placement, symbols: &SymbolTable) -> (r: Vec<
    char,
>)
    ensures
        r@ == parameter_translation(*node, placement, symbols.names()),
    decreases node, 1int,
{
    proof {
        lemma_field_child_smaller(*node, "type"@);
        lemma_field_child_smaller(*node, "declarator"@);
    }
    let cp = placement_of_children(node, placement);
    match node.field_child("type") {
        Some(t) => {
            let type_text = transpile_node(t, cp, symbols);
            match node.field_child("declarator") {
                Some(d) => {
                    let mut out = type_text;
                    push_str(&mut out, " ");
                    let dt = transpile_node(d, cp, symbols);
                    push_text(&mut out, &dt);
                    out
                },
                None => type_text,
            }
        },
        None => node.text_or_empty(),
    }
}

/// An expression statement.
fn expression_statement_text(node: &SyntaxNode, placement: Placement, symbols: &SymbolTable) -> (r:
    Vec<char>)
    ensures
        r@ == expression_statement_translation(*node, placement, symbols.names()),
    decreases node, 1int,
{
    if node.children.len() > 0 {
        let cp = placement_of_children(node, placement);
        let e = transpile_node(&node.children[0], cp, symbols);
        if text_ends_with_char(&e, ';') {
            e
        } else {
            let mut out = e;
            push_str(&mut out, ";");
            out
        }
    } else {
        chars_of(";")
    }
}

/// A comma expression.
fn comma_text(node: &SyntaxNode, placement: Placement, symbols: &SymbolTable) -> (r: Vec<char>)
    ensures
        r@ == comma_translation(*node, placement, symbols.names()),
    decreases node, 1int,
{
    proof {
        lemma_field_child_smaller(*node, "left"@);
        lemma_field_child_smaller(*node, "right"@);
    }
    let cp = placement_of_children(node, placement);
    match (node.field_child("left"), node.field_child("right")) {
        (Some(l), Some(r)) => {
            let left = transpile_node(l, cp, symbols);
            let right = transpile_node(r, cp, symbols);
            if placement.in_statement {
                let mut out = text_trim_end_char(&left, ';');
                push_str(&mut out, ";\n");
                push_text(&mut out, &right);
                out
            } else {
                let mut out = chars_of("/* TODO: Comma in expression context */ (");
                push_text(&mut out, &left);
                push_str(&mut out, ", ");
                push_text(&mut out, &right);
                push_str(&mut out, ")");
                out
            }
        },
        _ => node.text_or_empty(),
    }
}

/// A `while` loop.
fn while_text(node: &SyntaxNode, placement: Placement, symbols: &SymbolTable) -> (r: Vec<char>)
    ensures
        r@ == while_translation(*node, placement, symbols.names()),
    decreases node, 1int,
{
    proof {
        lemma_field_child_smaller(*node, "condition"@);
        lemma_field_child_smaller(*node, "body"@);
    }
    let cp = placement_of_children(node, placement);
    match (node.field_child("condition"), node.field_child("body")) {
        (Some(c), Some(b)) => {
            let cond = transpile_node(c, cp, symbols);
            let body = as_block_text(b, transpile_node(b, cp, symbols));
            let mut out = chars_of("while ");
            push_text(&mut out, &cond);
            push_str(&mut out, " ");
            push_text(&mut out, &body);
            out
        },
        _ => node.text_or_empty(),
    }
}

/// An `if` statement.
fn if_text(node: &SyntaxNode, placement: Placement, symbols: &SymbolTable) -> (r: Vec<char>)
    ensures
        r@ == if_translation(*node, placement, symbols.names()),
    decreases node, 1int,
{
    proof {
        lemma_field_child_smaller(*node, "condition"@);
        lemma_field_child_smaller(*node, "consequence"@);
        lemma_field_child_smaller(*node, "alternative"@);
    }
    let cp = placement_of_children(node, placement);
    match (node.field_child("condition"), node.field_child("consequence")) {
        (Some(c), Some(q)) => {
            let cond = transpile_node(c, cp, symbols);
            let cons = as_block_text(q, transpile_node(q, cp, symbols));
            let mut out = chars_of("if ");
            push_text(&mut out, &cond);
            push_str(&mut out, " ");
            push_text(&mut out, &cons);
            match node.field_child("alternative") {
                Some(a) => {
                    let alt = transpile_node(a, cp, symbols);
                    let alt = if !a.is_kind("compound_statement") && !a.is_kind("if_statement") {
                        braced_text(&alt)
                    } else {
                        alt
                    };
                    push_str(&mut out, " else ");
                    push_text(&mut out, &alt);
                    out
                },
                None => out,
            }
        },
        _ => node.text_or_empty(),
    }
}

/// The translation of an optional child, or nothing.
fn optional_text(node: &SyntaxNode, placement: Placement, symbols: &SymbolTable, f: &str) -> (r:
    Vec<char>)
    ensures
        r@ == optional_translation(*node, placement, symbols.names(), f@),
    decreases node, 0int,
{
    proof {
        lemma_field_child_smaller(*node, f@);
    }
    match node.field_child(f) {
        Some(c) => transpile_node(c, placement_of_children(node, placement), symbols),
        None => Vec::new(),
    }
}

/// A `for` loop.
fn for_text(node: &SyntaxNode, placement: Placement, symbols: &SymbolTable) -> (r: Vec<char>)
    ensures
        r@ == for_translation(*node, placement, symbols.names()),
    decreases node, 1int,
{
    proof {
        lemma_field_child_smaller(*node, "body"@);
    }
    let cp = placement_of_children(node, placement);
    match node.field_child("body") {
        Some(b) => {
            let init = optional_text(node, placement, symbols, "initializer");
            let cond = optional_text(node, placement, symbols, "condition");
            let update = optional_text(node, placement, symbols, "update");
            let body = as_block_text(b, transpile_node(b, cp, symbols));
            let mut out = chars_of("for (");
            push_text(&mut out, &init);
            push_str(&mut out, "; ");
            push_text(&mut out, &cond);
            push_str(&mut out, "; ");
            push_text(&mut out, &update);
            push_str(&mut out, ") ");
            push_text(&mut out, &body);
            out
        },
        None => node.text_or_empty(),
    }
}

/// A binary expression.
fn binary_text(node: &SyntaxNode, placement: Placement, symbols: &SymbolTable) -> (r: Vec<char>)
    ensures
        r@ == binary_translation(*node, placement, symbols.names()),
    decreases node, 1int,
{
    proof {
        lemma_field_child_smaller(*node, "left"@);
        lemma_field_child_smaller(*node, "right"@);
    }
    let cp = placement_of_children(node, placement);
    match (node.field_child("left"), node.field_child("right")) {
        (Some(l), Some(r)) => {
            let op = match node.field_child("operator") {
                Some(o) => o.text_or_empty(),
                None => Vec::new(),
            };
            let left = transpile_node(l, cp, symbols);
            let right = transpile_node(r, cp, symbols);
            let is_plus = text_is(&op, "+");
            let left_cast = is_plus && l.is_kind("string_literal");
            let right_cast = is_plus && !left_cast && r.is_kind("string_literal");
            let left = if left_cast {
                let mut c = chars_of("(char*)");
                push_text(&mut c, &left);
                c
            } else {
                left
            };
            let right = if right_cast {
                let mut c = chars_of("(char*)");
                push_text(&mut c, &right);
                c
            } else {
                right
            };
            let parenthesize = if placement.parent_parenthesized {
                false
            } else if is_comparison_text(&op) {
                l.is_kind("binary_expression") || r.is_kind("binary_expression")
            } else {
                true
            };
            let mut out = if parenthesize {
                chars_of("(")
            } else {
                Vec::new()
            };
            push_text(&mut out, &left);
            push_str(&mut out, " ");
            push_text(&mut out, &op);
            push_str(&mut out, " ");
            push_text(&mut out, &right);
            if parenthesize {
                push_str(&mut out, ")");
            }
            out
        },
        _ => node.text_or_empty(),
    }
}

/// A `switch` statement.
fn switch_text(node: &SyntaxNode, placement: Placement, symbols: &SymbolTable) -> (r: Vec<char>)
    ensures
        r@ == switch_translation(*node, placement, symbols.names()),
    decreases node, 1int,
{
    proof {
        lemma_field_child_smaller(*node, "condition"@);
        lemma_field_child_smaller(*node, "body"@);
    }
    let cp = placement_of_children(node, placement);
    match (node.field_child("condition"), node.field_child("body")) {
        (Some(c), Some(b)) => {
            let cond = transpile_node(c, cp, symbols);
            let body = transpile_node(b, cp, symbols);
            let mut out = chars_of("switch ");
            push_text(&mut out, &cond);
            push_str(&mut out, " ");
            push_text(&mut out, &body);
            out
        },
        _ => node.text_or_empty(),
    }
}

/// The body of a `case` or `default` label whose statements are the children
/// of `cs` from `start` on, and whether it falls through to the next label.
pub fn transpile_switch_case_statements(
    cs: &Vec<SyntaxNode>,
    start: usize,
    cp: Placement,
    symbols: &SymbolTable,
) -> (r: (Vec<char>, bool))
    requires
        0 < start <= cs.len(),
    ensures
        (r.0@, r.1) == label_body(cs@.subrange(start as int, cs@.len() as int), cp, symbols.names()),
    decreases cs@.subrange(start as int, cs@.len() as int), 1int,
{
    let ghost ss = cs@.subrange(start as int, cs@.len() as int);
    let last_real = find_last_real(cs, start);
    let skip: Option<usize> = match last_real {
        Some(j) => if cs[start + j].is_kind("break_statement") {
            Some(j)
        } else {
            None
        },
        None => None,
    };
    let need_nextcase = match last_real {
        Some(j) => {
            let last = &cs[start + j];
            !last.is_kind("break_statement") && !last.is_kind("return_statement")
                && !last.is_kind("continue_statement") && !last.is_kind("goto_statement")
        },
        None => false,
    };
    proof {
        if let Some(j) = last_real {
            assert(ss[j as int] == cs@[start + j]);
        }
        assert(match skip {
            Some(j) => skipped_break(ss) == Some(j as int),
            None => skipped_break(ss) is None,
        });
        assert(need_nextcase == falls_through(ss));
    }
    proof {
        reveal_strlit("\n");
    }
    let mut out: Vec<char> = Vec::new();
    let mut i: usize = start;
    while i < cs.len()
        invariant
            0 < start <= i <= cs.len(),
            ss == cs@.subrange(start as int, cs@.len() as int),
            match skip {
                Some(j) => skipped_break(ss) == Some(j as int),
                None => skipped_break(ss) is None,
            },
            out@ == label_lines(ss.take(i - start), cp, symbols.names(), skipped_break(ss)),
        decreases cs.len() - i,
    {
        let ghost part = ss.take(i - start + 1);
        assert(part.subrange(0, part.len() - 1) == ss.take(i - start));
        assert(part[part.len() - 1] == cs@[i as int]);
        assert(decreases_to!(ss => cs@[i as int])) by {
            assert(ss[i - start] == cs@[i as int]);
        }
        let skipped = match skip {
            Some(j) => i - start == j,
            None => false,
        };
        if !skipped {
            let t = transpile_node(&cs[i], cp, symbols);
            if !text_is_blank(&t) {
                proof {
                    reveal_strlit("\n");
                }
                push_str(&mut out, "    ");
                let indented = text_replace(&t, "\n", "\n    ");
                push_text(&mut out, &indented);
                push_str(&mut out, "\n");
            }
        }
        i = i + 1;
    }
    assert(ss.take(cs@.len() - start) == ss);
    if need_nextcase {
        push_str(&mut out, "    nextcase;\n");
    }
    (text_trim_end(&out), need_nextcase)
}

/// A `case` label with its statements.
fn case_text(node: &SyntaxNode, placement: Placement, symbols: &SymbolTable) -> (r: Vec<char>)
    ensures
        r@ == case_translation(*node, placement, symbols.names()),
    decreases node, 1int,
{
    proof {
        lemma_field_child_smaller(*node, "value"@);
        lemma_colon_index(node.children@);
    }
    let cp = placement_of_children(node, placement);
    match node.field_child("value") {
        Some(v) => {
            let value = transpile_node(v, cp, symbols);
            match find_colon(&node.children) {
                Some(j) => {
                    assert(j < node.children.len());
                    let start = j + 1;
                    let ghost ss = node.children@.subrange(start as int, node.children@.len() as int);
                    proof {
                        assert(decreases_to!(*node => node.children@));
                        assert(decreases_to!(node.children@ => ss));
                    }
                    let mut has_real = false;
                    let mut k: usize = start;
                    while k < node.children.len()
                        invariant
                            start <= k <= node.children.len(),
                            ss == node.children@.subrange(start as int, node.children@.len() as int),
                            has_real <==> exists|m: int|
                                0 <= m < k - start && ss[m].kind@ != "comment"@,
                        decreases node.children.len() - k,
                    {
                        if !node.children[k].is_kind("comment") {
                            assert(ss[k - start] == node.children@[k as int]);
                            has_real = true;
                        }
                        k = k + 1;
                    }
                    let mut out = chars_of("case ");
                    push_text(&mut out, &value);
                    if !has_real {
                        push_str(&mut out, ":");
                        let mut m: usize = start;
                        let mut tail: Vec<char> = Vec::new();
                        while m < node.children.len()
                            invariant
                                start <= m <= node.children.len(),
                                ss == node.children@.subrange(
                                    start as int,
                                    node.children@.len() as int,
                                ),
                                decreases_to!(*node => ss),
                                tail@ == spaced_nonblank(ss.take(m - start), cp, symbols.names()),
                            decreases node.children.len() - m,
                        {
                            let ghost part = ss.take(m - start + 1);
                            assert(part.subrange(0, part.len() - 1) == ss.take(m - start));
                            assert(part[part.len() - 1] == node.children@[m as int]);
                            assert(ss[m - start] == node.children@[m as int]);
                            let t = transpile_node(&node.children[m], cp, symbols);
                            if !text_is_blank(&t) {
                                push_str(&mut tail, " ");
                                push_text(&mut tail, &t);
                            }
                            m = m + 1;
                        }
                        assert(ss.take(node.children@.len() - start) == ss);
                        push_text(&mut out, &tail);
                        out
                    } else {
                        push_str(&mut out, ":\n");
                        let (body, _) = transpile_switch_case_statements(
                            &node.children,
                            start,
                            cp,
                            symbols,
                        );
                        push_text(&mut out, &body);
                        out
                    }
                },
                None => {
                    let mut out = chars_of("case ");
                    push_text(&mut out, &value);
                    push_str(&mut out, ":");
                    out
                },
            }
        },
        None => node.text_or_empty(),
    }
}

/// A `default` label with its statements.
fn default_text(node: &SyntaxNode, placement: Placement, symbols: &SymbolTable) -> (r: Vec<char>)
    ensures
        r@ == default_translation(*node, placement, symbols.names()),
    decreases node, 1int,
{
    proof {
        lemma_colon_index(node.children@);
    }
    match find_colon(&node.children) {
        Some(j) => {
            assert(j < node.children.len());
            let start = j + 1;
            proof {
                assert(decreases_to!(*node => node.children@));
            }
            let cp = placement_of_children(node, placement);
            let (body, _) = transpile_switch_case_statements(&node.children, start, cp, symbols);
            if body.len() == 0 {
                chars_of("default:")
            } else {
                let mut out = chars_of("default:\n");
                push_text(&mut out, &body);
                out
            }
        },
        None => chars_of("default:"),
    }
}

/// A declarator that wraps another, with `prefix` before the inner one's text.
fn wrapped_text(node: &SyntaxNode, placement: Placement, symbols: &SymbolTable, prefix: &str) -> (r:
    Vec<char>)
    ensures
        r@ == wrapped_translation(*node, placement, symbols.names(), prefix@),
    decreases node, 1int,
{
    proof {
        lemma_field_child_smaller(*node, "declarator"@);
    }
    match node.field_child("declarator") {
        Some(d) => {
            let mut out = chars_of(prefix);
            let inner = transpile_node(d, placement_of_children(node, placement), symbols);
            push_text(&mut out, &inner);
            out
        },
        None => node.text_or_empty(),
    }
}

/// A pointer expression.
fn pointer_expression_text(node: &SyntaxNode, placement: Placement, symbols: &SymbolTable) -> (r:
    Vec<char>)
    ensures
        r@ == pointer_expression_translation(*node, placement, symbols.names()),
    decreases node, 1int,
{
    if node.children.len() == 2 {
        let cp = placement_of_children(node, placement);
        let mut out = transpile_node(&node.children[0], cp, symbols);
        let operand = transpile_node(&node.children[1], cp, symbols);
        push_text(&mut out, &operand);
        out
    } else {
        node.text_or_empty()
    }
}

/// An initializing declarator.
fn init_declarator_text(node: &SyntaxNode, placement: Placement, symbols: &SymbolTable) -> (r: Vec<
    char,
>)
    ensures
        r@ == init_declarator_translation(*node, placement, symbols.names()),
    decreases node, 1int,
{
    proof {
        lemma_field_child_smaller(*node, "declarator"@);
        lemma_field_child_smaller(*node, "value"@);
    }
    let cp = placement_of_children(node, placement);
    match (node.field_child("declarator"), node.field_child("value")) {
        (Some(d), Some(v)) => {
            let decl = transpile_node(d, cp, symbols);
            let value = transpile_node(v, cp, symbols);
            let from_array = is_pointer_declarator(d) && match get_raw_identifier_name(v) {
                Some(a) => symbols.arrays.contains(&a),
                None => false,
            };
            let value = if from_array {
                let mut a = chars_of("&");
                push_text(&mut a, &value);
                a
            } else {
                value
            };
            let mut out = decl;
            push_str(&mut out, " = ");
            push_text(&mut out, &value);
            out
        },
        _ => node.text_or_empty(),
    }
}

/// The dimensions of an array declarator and those it wraps, innermost
/// first, and the node where they end.
pub fn get_array_dimensions<'a>(node: &'a SyntaxNode, symbols: &SymbolTable) -> (r: (
    Vec<Vec<char>>,
    Option<&'a SyntaxNode>,
))
    ensures
        texts(r.0@) == array_dimensions(*node, symbols.names()),
        deref_node(r.1) == Some(dimensions_end(*node)),
    decreases node, 1int,
{
    let mut dims: Vec<Vec<char>> = Vec::new();
    let mut cur: &SyntaxNode = node;
    loop
        invariant_except_break
            *cur == *node || decreases_to!(*node => *cur),
            array_dimensions(*node, symbols.names()) == array_dimensions(*cur, symbols.names())
                + texts(dims@).reverse(),
            dimensions_end(*node) == dimensions_end(*cur),
        ensures
            array_dimensions(*node, symbols.names()) == texts(dims@).reverse(),
            dimensions_end(*node) == *cur,
        decreases *cur,
    {
        if !cur.is_kind("array_declarator") {
            assert(array_dimensions(*cur, symbols.names()) == Seq::<Seq<char>>::empty());
            assert(Seq::<Seq<char>>::empty() + texts(dims@).reverse() == texts(dims@).reverse());
            break ;
        }
        proof {
            lemma_field_child_smaller(*cur, "size"@);
            lemma_field_child_smaller(*cur, "declarator"@);
        }
        let here = match cur.field_child("size") {
            Some(s) => transpile_node(
                s,
                placement_of_children(cur, Placement { parent_parenthesized: false, in_statement: false }),
                symbols,
            ),
            None => Vec::new(),
        };
        let ghost before = texts(dims@);
        let ghost hv = here@;
        dims.push(here);
        assert(texts(dims@) =~= before.push(hv));
        assert(texts(dims@).reverse() =~= seq![hv] + before.reverse());
        match cur.field_child("declarator") {
            Some(inner) => {
                assert(array_dimensions(*cur, symbols.names()) == array_dimensions(
                    *inner,
                    symbols.names(),
                ).push(hv));
                assert(array_dimensions(*inner, symbols.names()).push(hv) + before.reverse()
                    =~= array_dimensions(*inner, symbols.names()) + (seq![hv]
                    + before.reverse()));
                cur = inner;
            },
            None => {
                assert(array_dimensions(*cur, symbols.names()) == seq![hv]);
                break ;
            },
        }
    }
    let mut reversed: Vec<Vec<char>> = Vec::new();
    let mut k: usize = dims.len();
    while k > 0
        invariant
            k <= dims.len(),
            texts(reversed@) == texts(dims@).subrange(k as int, dims@.len() as int).reverse(),
        decreases k,
    {
        let ghost before = texts(reversed@);
        let d = copy_range(&dims[k - 1], 0, dims[k - 1].len());
        assert(dims@[k - 1]@.subrange(0, dims@[k - 1]@.len() as int) == dims@[k - 1]@);
        let ghost dv = d@;
        reversed.push(d);
        assert(texts(reversed@) =~= before.push(dv));
        assert(texts(dims@).subrange(k - 1, dims@.len() as int).reverse() =~= texts(
            dims@,
        ).subrange(k as int, dims@.len() as int).reverse().push(texts(dims@)[k - 1]));
        k = k - 1;
    }
    assert(texts(dims@).subrange(0, dims@.len() as int) == texts(dims@));
    (reversed, Some(cur))
}

/// The type of one declarator of a declaration.
fn declarator_type_text(d: &SyntaxNode, type_part: &Vec<char>, symbols: &SymbolTable) -> (r: Vec<
    char,
>)
    ensures
        r@ == declarator_type(*d, type_part@, symbols.names()),
    decreases d, 2int,
{
    proof {
        lemma_array_declarator_within(*d);
    }
    match find_array_declarator(d) {
        Some(a) => {
            let (dims, _) = get_array_dimensions(a, symbols);
            if dims.len() == 0 {
                copy_range(type_part, 0, type_part.len())
            } else {
                let mut out = copy_range(type_part, 0, type_part.len());
                let shown = dimensions_text_of(&dims);
                push_text(&mut out, &shown);
                out
            }
        },
        None => copy_range(type_part, 0, type_part.len()),
    }
}

/// A declaration.
fn declaration_text(node: &SyntaxNode, placement: Placement, symbols: &SymbolTable) -> (r: Vec<
    char,
>)
    ensures
        r@ == declaration_translation(*node, placement, symbols.names()),
    decreases node, 1int,
{
    proof {
        lemma_field_index(node.children@, "declarator"@);
        reveal_strlit(" ,");
    }
    let cp = placement_of_children(node, placement);
    match node.field_child_index("declarator") {
        None => {
            let s = spaced_text(node, cp, symbols, true, None);
            let s = text_replace(&s, " ,", ",");
            text_trim(&s)
        },
        Some(first) => {
            let bound = node.children[first].start_byte;
            let s = spaced_text(node, cp, symbols, false, Some(bound));
            let s = text_replace(&s, " ,", ",");
            let type_part = text_trim(&s);
            let mut lines: Vec<Vec<char>> = Vec::new();
            let mut i: usize = 0;
            while i < node.children.len()
                invariant
                    i <= node.children.len(),
                    texts(lines@) == declarator_lines(
                        node.children@.take(i as int),
                        cp,
                        symbols.names(),
                        type_part@,
                    ),
                decreases node.children.len() - i,
            {
                let ghost cs = node.children@.take(i + 1);
                assert(cs.subrange(0, cs.len() - 1) == node.children@.take(i as int));
                assert(cs[cs.len() - 1] == node.children@[i as int]);
                let d = &node.children[i];
                let is_declarator = match &d.field {
                    Some(f) => text_is(f, "declarator"),
                    None => false,
                };
                if is_declarator {
                    let ghost before = texts(lines@);
                    let mut line = declarator_type_text(d, &type_part, symbols);
                    push_str(&mut line, " ");
                    let dt = transpile_node(d, cp, symbols);
                    push_text(&mut line, &dt);
                    if d.is_kind("init_declarator") {
                        push_str(&mut line, ";");
                    } else {
                        push_str(&mut line, " @noinit;");
                    }
                    let ghost lv = line@;
                    lines.push(line);
                    assert(texts(lines@) =~= before.push(lv));
                }
                i = i + 1;
            }
            assert(node.children@.take(node.children@.len() as int) == node.children@);
            text_join(&lines, "\n    ")
        },
    }
}

/// A `typedef`.
fn type_definition_text(node: &SyntaxNode, placement: Placement, symbols: &SymbolTable) -> (r: Vec<
    char,
>)
    ensures
        r@ == type_definition_translation(*node, placement, symbols.names()),
    decreases node, 1int,
{
    proof {
        lemma_field_child_smaller(*node, "type"@);
        lemma_field_child_smaller(*node, "declarator"@);
    }
    let cp = placement_of_children(node, placement);
    match (node.field_child("type"), node.field_child("declarator")) {
        (Some(t), Some(d)) => {
            let alias_name = match extract_declarator_identifier(d) {
                Some(id) => lookup_or_text(&symbols.types, &id.text_or_empty()),
                None => transpile_node(d, cp, symbols),
            };
            let stars = pointer_stars(d);
            let base = transpile_node(t, cp, symbols);
            let mut out = chars_of("alias ");
            push_text(&mut out, &alias_name);
            push_str(&mut out, " = ");
            push_text(&mut out, &base);
            push_text(&mut out, &stars);
            push_str(&mut out, ";");
            out
        },
        _ => node.text_or_empty(),
    }
}

/// The names of an empty symbol table.
pub open spec fn no_names() -> Names {
    Names {
        types: Map::empty(),
        functions: Map::empty(),
        variables: Map::empty(),
        constants: Map::empty(),
        arrays: Set::empty(),
    }
}

/// The C3 text of a C syntax tree: the names that the tree declares are
/// recorded first, in preorder, then the tree is translated under them.
pub fn translate_tree(root: &SyntaxNode) -> (r: String)
    ensures
        r@ == translation(*root, root_placement(), populated(*root, no_names())),
{
    let mut symbols = SymbolTable::new();
    assert(symbols.names() =~= no_names());
    populate_symbols(root, &mut symbols);
    let placement = Placement { parent_parenthesized: false, in_statement: false };
    let out = transpile_node(root, placement, &symbols);
    crate::text::string_from_chars(&out)
}

/// Once the first pass has run over a `struct` that has a tag and a body,
/// the `struct` is declared in C3 under the C3 type name of its tag, with
/// the tag itself kept as its C name.
pub proof fn struct_declared_under_its_tag(n: SyntaxNode, p: Placement, tag: Seq<char>)
    requires
        n.kind@ == "struct_specifier"@,
        field_name_text(n, "name"@) == Some(tag),
        field_child(n, "body"@) is Some,
    ensures
        starts_with(
            translation(n, p, populated(n, no_names())),
            "struct "@ + c3_type_name(tag) + " @cname(\""@ + tag + "\") "@,
        ),
{
    lemma_kinds_differ();
    populate_records_tag(n, no_names(), tag);
    let names = populated(n, no_names());
    let head = "struct "@ + c3_type_name(tag) + " @cname(\""@ + tag + "\") "@;
    let b = field_child(n, "body"@)->0;
    let rest = translation(b, child_placement(n, p), names);
    assert(translation(n, p, names) == head + rest);
    assert((head + rest).take(head.len() as int) =~= head);
}

} // verus!
