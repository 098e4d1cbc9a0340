//! What the translation makes of particular kinds of node, stated over the
//! parts of the node: a `union`, a `for` loop, a `default` label, and the
//! array dimensions a declaration moves onto its type.

use vstd::prelude::*;
use crate::naming::c3_integer_type;
use crate::symbols::Names;
use crate::syntax::{
    array_declarator, contains_return, declared_identifier, declares_pointer, field_child, has_field, pointer_depth,
    raw_identifier_name, text_of, SyntaxNode,
};
use crate::text::{has_char, join, repeat, starts_with, trim, trim_end_char};
use crate::translation::{
    array_depth, array_dimensions, array_dimensions_by_position, block_lines, braced,
    child_placement, colon_index, declarator_lines, declarator_type, dimensions_text,
    for_translation, has_real_statement, include_translation, inward, label_body, list_items, lookup_or, main_body,
    optional_translation, size_text, translation, unit_lines, Placement, STDIO_DECLARATIONS,
};

verus! {

/// The lengths of the node kinds that the translation tells apart first,
/// and, for each two of the same length, a place where they differ.
proof fn node_kinds_differ()
    ensures
        "translation_unit"@.len() == 16,
        "struct_specifier"@.len() == 16,
        "enum_specifier"@.len() == 14,
        "union_specifier"@.len() == 15,
        "enumerator"@.len() == 10,
        "field_declaration_list"@.len() == 22,
        "compound_statement"@.len() == 18,
        "function_definition"@.len() == 19,
        "function_declarator"@.len() == 19,
        "parameter_declaration"@.len() == 21,
        "expression_statement"@.len() == 20,
        "comma_expression"@.len() == 16,
        "while_statement"@.len() == 15,
        "if_statement"@.len() == 12,
        "for_statement"@.len() == 13,
        "binary_expression"@.len() == 17,
        "switch_statement"@.len() == 16,
        "case_statement"@.len() == 14,
        "default_statement"@.len() == 17,
        "call_expression"@.len() == 15,
        "argument_list"@.len() == 13,
        "parameter_list"@.len() == 14,
        "initializer_list"@.len() == 16,
        "parenthesized_expression"@.len() == 24,
        "field_expression"@.len() == 16,
        "array_declarator"@.len() == 16,
        "pointer_declarator"@.len() == 18,
        "pointer_expression"@.len() == 18,
        "type_qualifier"@.len() == 14,
        "primitive_type"@.len() == 14,
        "type_identifier"@.len() == 15,
        "preproc_include"@.len() == 15,
        "preproc_def"@.len() == 11,
        "init_declarator"@.len() == 15,
        "declaration"@.len() == 11,
        "field_declaration"@.len() == 17,
        "type_definition"@.len() == 15,
        "comment"@.len() == 7,
        "string_literal"@.len() == 14,
        "char_literal"@.len() == 12,
        "system_lib_string"@.len() == 17,
        "number_literal"@.len() == 14,
        "identifier"@.len() == 10,
        "field_identifier"@.len() == 16,
        "translation_unit"@[0] != "struct_specifier"@[0],
        "translation_unit"@[0] != "comma_expression"@[0],
        "translation_unit"@[0] != "switch_statement"@[0],
        "translation_unit"@[0] != "initializer_list"@[0],
        "translation_unit"@[0] != "field_expression"@[0],
        "translation_unit"@[0] != "array_declarator"@[0],
        "translation_unit"@[0] != "field_identifier"@[0],
        "struct_specifier"@[0] != "comma_expression"@[0],
        "struct_specifier"@[1] != "switch_statement"@[1],
        "struct_specifier"@[0] != "initializer_list"@[0],
        "struct_specifier"@[0] != "field_expression"@[0],
        "struct_specifier"@[0] != "array_declarator"@[0],
        "struct_specifier"@[0] != "field_identifier"@[0],
        "enum_specifier"@[0] != "case_statement"@[0],
        "enum_specifier"@[0] != "parameter_list"@[0],
        "enum_specifier"@[0] != "type_qualifier"@[0],
        "enum_specifier"@[0] != "primitive_type"@[0],
        "enum_specifier"@[0] != "string_literal"@[0],
        "enum_specifier"@[0] != "number_literal"@[0],
        "union_specifier"@[0] != "while_statement"@[0],
        "union_specifier"@[0] != "call_expression"@[0],
        "union_specifier"@[0] != "type_identifier"@[0],
        "union_specifier"@[0] != "preproc_include"@[0],
        "union_specifier"@[0] != "init_declarator"@[0],
        "union_specifier"@[0] != "type_definition"@[0],
        "enumerator"@[0] != "identifier"@[0],
        "compound_statement"@[0] != "pointer_declarator"@[0],
        "compound_statement"@[0] != "pointer_expression"@[0],
        "function_definition"@[11] != "function_declarator"@[11],
        "comma_expression"@[0] != "switch_statement"@[0],
        "comma_expression"@[0] != "initializer_list"@[0],
        "comma_expression"@[0] != "field_expression"@[0],
        "comma_expression"@[0] != "array_declarator"@[0],
        "comma_expression"@[0] != "field_identifier"@[0],
        "while_statement"@[0] != "call_expression"@[0],
        "while_statement"@[0] != "type_identifier"@[0],
        "while_statement"@[0] != "preproc_include"@[0],
        "while_statement"@[0] != "init_declarator"@[0],
        "while_statement"@[0] != "type_definition"@[0],
        "if_statement"@[0] != "char_literal"@[0],
        "for_statement"@[0] != "argument_list"@[0],
        "binary_expression"@[0] != "default_statement"@[0],
        "binary_expression"@[0] != "field_declaration"@[0],
        "binary_expression"@[0] != "system_lib_string"@[0],
        "switch_statement"@[0] != "initializer_list"@[0],
        "switch_statement"@[0] != "field_expression"@[0],
        "switch_statement"@[0] != "array_declarator"@[0],
        "switch_statement"@[0] != "field_identifier"@[0],
        "case_statement"@[0] != "parameter_list"@[0],
        "case_statement"@[0] != "type_qualifier"@[0],
        "case_statement"@[0] != "primitive_type"@[0],
        "case_statement"@[0] != "string_literal"@[0],
        "case_statement"@[0] != "number_literal"@[0],
        "default_statement"@[0] != "field_declaration"@[0],
        "default_statement"@[0] != "system_lib_string"@[0],
        "call_expression"@[0] != "type_identifier"@[0],
        "call_expression"@[0] != "preproc_include"@[0],
        "call_expression"@[0] != "init_declarator"@[0],
        "call_expression"@[0] != "type_definition"@[0],
        "parameter_list"@[0] != "type_qualifier"@[0],
        "parameter_list"@[1] != "primitive_type"@[1],
        "parameter_list"@[0] != "string_literal"@[0],
        "parameter_list"@[0] != "number_literal"@[0],
        "initializer_list"@[0] != "field_expression"@[0],
        "initializer_list"@[0] != "array_declarator"@[0],
        "initializer_list"@[0] != "field_identifier"@[0],
        "field_expression"@[0] != "array_declarator"@[0],
        "field_expression"@[6] != "field_identifier"@[6],
        "array_declarator"@[0] != "field_identifier"@[0],
        "pointer_declarator"@[8] != "pointer_expression"@[8],
        "type_qualifier"@[0] != "primitive_type"@[0],
        "type_qualifier"@[0] != "string_literal"@[0],
        "type_qualifier"@[0] != "number_literal"@[0],
        "primitive_type"@[0] != "string_literal"@[0],
        "primitive_type"@[0] != "number_literal"@[0],
        "type_identifier"@[0] != "preproc_include"@[0],
        "type_identifier"@[0] != "init_declarator"@[0],
        "type_identifier"@[5] != "type_definition"@[5],
        "preproc_include"@[0] != "init_declarator"@[0],
        "preproc_include"@[0] != "type_definition"@[0],
        "preproc_def"@[0] != "declaration"@[0],
        "init_declarator"@[0] != "type_definition"@[0],
        "field_declaration"@[0] != "system_lib_string"@[0],
        "string_literal"@[0] != "number_literal"@[0],
{
    reveal_strlit("translation_unit");
    reveal_strlit("struct_specifier");
    reveal_strlit("enum_specifier");
    reveal_strlit("union_specifier");
    reveal_strlit("enumerator");
    reveal_strlit("field_declaration_list");
    reveal_strlit("compound_statement");
    reveal_strlit("function_definition");
    reveal_strlit("function_declarator");
    reveal_strlit("parameter_declaration");
    reveal_strlit("expression_statement");
    reveal_strlit("comma_expression");
    reveal_strlit("while_statement");
    reveal_strlit("if_statement");
    reveal_strlit("for_statement");
    reveal_strlit("binary_expression");
    reveal_strlit("switch_statement");
    reveal_strlit("case_statement");
    reveal_strlit("default_statement");
    reveal_strlit("call_expression");
    reveal_strlit("argument_list");
    reveal_strlit("parameter_list");
    reveal_strlit("initializer_list");
    reveal_strlit("parenthesized_expression");
    reveal_strlit("field_expression");
    reveal_strlit("array_declarator");
    reveal_strlit("pointer_declarator");
    reveal_strlit("pointer_expression");
    reveal_strlit("type_qualifier");
    reveal_strlit("primitive_type");
    reveal_strlit("type_identifier");
    reveal_strlit("preproc_include");
    reveal_strlit("preproc_def");
    reveal_strlit("init_declarator");
    reveal_strlit("declaration");
    reveal_strlit("field_declaration");
    reveal_strlit("type_definition");
    reveal_strlit("comment");
    reveal_strlit("string_literal");
    reveal_strlit("char_literal");
    reveal_strlit("system_lib_string");
    reveal_strlit("number_literal");
    reveal_strlit("identifier");
    reveal_strlit("field_identifier");
}

/// A `union` with a name and a body is written `union`, the C3 name of the
/// type, and the translation of its body: it stays a union, never a struct.
/// One with a body and no name is `union` and the body.
pub proof fn union_keeps_its_keyword(n: SyntaxNode, p: Placement, names: Names)
    requires
        n.kind@ == "union_specifier"@,
        field_child(n, "body"@) is Some,
    ensures
        starts_with(translation(n, p, names), "union "@),
        field_child(n, "name"@) matches Some(name) ==> translation(n, p, names) == "union "@
            + lookup_or(names.types, text_of(name)) + " "@ + translation(
            field_child(n, "body"@)->0,
            child_placement(n, p),
            names,
        ),
        field_child(n, "name"@) is None ==> translation(n, p, names) == "union "@ + translation(
            field_child(n, "body"@)->0,
            child_placement(n, p),
            names,
        ),
{
    node_kinds_differ();
    let t = translation(n, p, names);
    let body = translation(field_child(n, "body"@)->0, child_placement(n, p), names);
    let rest = match field_child(n, "name"@) {
        Some(name) => lookup_or(names.types, text_of(name)) + " "@ + body,
        None => body,
    };
    assert(t == "union "@ + rest) by {
        if let Some(name) = field_child(n, "name"@) {
            assert("union "@ + lookup_or(names.types, text_of(name)) + " "@ + body =~= "union "@
                + rest);
        }
    }
    assert(("union "@ + rest).take("union "@.len() as int) =~= "union "@);
}

/// The translation of the child of `n` under the field `f`, or nothing where
/// there is none.
pub open spec fn field_translation(n: SyntaxNode, p: Placement, names: Names, f: Seq<char>) -> Seq<
    char,
> {
    match field_child(n, f) {
        Some(c) => translation(c, child_placement(n, p), names),
        None => Seq::empty(),
    }
}

/// A `for` loop with a body is written with its initializer, its condition
/// and its update in that order, then its body as a block (put in braces
/// unless it is a block already).
pub proof fn for_loop_keeps_its_order(n: SyntaxNode, p: Placement, names: Names)
    requires
        n.kind@ == "for_statement"@,
        field_child(n, "body"@) is Some,
    ensures
        ({
            let b = field_child(n, "body"@)->0;
            let body = translation(b, child_placement(n, p), names);
            translation(n, p, names) == "for ("@ + field_translation(n, p, names, "initializer"@)
                + "; "@ + field_translation(n, p, names, "condition"@) + "; "@ + field_translation(
                n,
                p,
                names,
                "update"@,
            ) + ") "@ + if b.kind@ == "compound_statement"@ {
                body
            } else {
                braced(body)
            }
        }),
{
    node_kinds_differ();
    assert(translation(n, p, names) == for_translation(n, p, names));
    assert(optional_translation(n, p, names, "initializer"@) == field_translation(
        n,
        p,
        names,
        "initializer"@,
    ));
    assert(optional_translation(n, p, names, "condition"@) == field_translation(
        n,
        p,
        names,
        "condition"@,
    ));
    assert(optional_translation(n, p, names, "update"@) == field_translation(
        n,
        p,
        names,
        "update"@,
    ));
}

/// A `default` label is `default:` alone exactly when the body of its
/// statements is empty; otherwise it is `default:`, a line break and that
/// body (the statements kept, a final `break` dropped, `nextcase;` where it
/// falls through). A label whose statements leave a body keeps them.
pub proof fn default_label_keeps_its_statements(n: SyntaxNode, p: Placement, names: Names)
    requires
        n.kind@ == "default_statement"@,
    ensures
        colon_index(n.children@) matches Some(j) ==> {
            let ss = n.children@.subrange(j + 1, n.children@.len() as int);
            let body = label_body(ss, child_placement(n, p), names).0;
            &&& (translation(n, p, names) == "default:"@ <==> body.len() == 0)
            &&& body.len() > 0 ==> translation(n, p, names) == "default:\n"@ + body
        },
        colon_index(n.children@) is None ==> translation(n, p, names) == "default:"@,
{
    node_kinds_differ();
    reveal_strlit("default:");
    reveal_strlit("default:\n");
    if let Some(j) = colon_index(n.children@) {
        let ss = n.children@.subrange(j + 1, n.children@.len() as int);
        let body = label_body(ss, child_placement(n, p), names).0;
        if body.len() > 0 {
            assert(("default:\n"@ + body).len() > "default:"@.len());
        }
    }
}

/// Array dimensions are written one after another in brackets, innermost
/// first, a dimension without a size as `*`: no pair of brackets is ever
/// left empty.
pub proof fn dimensions_are_bracketed(dims: Seq<Seq<char>>, d: Seq<char>)
    ensures
        dimensions_text(seq![d]) == "["@ + (if d.len() == 0 {
            "*"@
        } else {
            d
        }) + "]"@,
        dims.len() > 0 ==> dimensions_text(dims.push(d)) == dimensions_text(dims) + "["@ + (if d.len()
            == 0 {
            "*"@
        } else {
            d
        }) + "]"@,
{
    reveal_strlit("[");
    reveal_strlit("]");
    reveal_strlit("][");
    assert(seq![d].map_values(|x: Seq<char>| crate::translation::dimension_text(x)) =~= seq![
        crate::translation::dimension_text(d),
    ]);
    if dims.len() > 0 {
        let m = dims.map_values(|x: Seq<char>| crate::translation::dimension_text(x));
        let mp = dims.push(d).map_values(|x: Seq<char>| crate::translation::dimension_text(x));
        assert(mp =~= m.push(crate::translation::dimension_text(d)));
        assert(mp.drop_last() =~= m);
        let j = join(m, "]["@);
        assert("["@ + (j + "]["@ + crate::translation::dimension_text(d)) + "]"@ =~= "["@ + j + "]"@
            + "["@ + crate::translation::dimension_text(d) + "]"@);
    }
}

/// A declarator whose array declarator has one dimension and no size, as in
/// `int a[] = {1, 2, 3};`, gets the type with `[*]` after it: an array
/// whose length is inferred, never an empty pair of brackets.
pub proof fn unsized_array_type(d: SyntaxNode, type_part: Seq<char>, names: Names)
    requires
        array_declarator(d) matches Some(a) && array_depth(a) == 1 && field_child(a, "size"@) is None,
    ensures
        declarator_type(d, type_part, names) == type_part + "[*]"@,
{
    let a = array_declarator(d)->0;
    array_dimensions_by_position(a, names);
    let dims = array_dimensions(a, names);
    assert(inward(a, 0) == a);
    assert(dims[0] == size_text(a, names));
    assert(dims == seq![Seq::<char>::empty()]);
    dimensions_are_bracketed(Seq::empty(), Seq::empty());
    reveal_strlit("[");
    reveal_strlit("]");
    reveal_strlit("*");
    reveal_strlit("[*]");
    assert("["@ + "*"@ + "]"@ =~= "[*]"@);
}

/// A statement as a block: itself where it is one, in braces otherwise.
pub open spec fn block_of(b: SyntaxNode, text: Seq<char>) -> Seq<char> {
    if b.kind@ == "compound_statement"@ {
        text
    } else {
        braced(text)
    }
}

/// A `struct` with a name and a body is written `struct`, the C3 name of the
/// type, `@cname` with the C name in quotes, and the translation of its body.
pub proof fn struct_keeps_its_c_name(n: SyntaxNode, p: Placement, names: Names)
    requires
        n.kind@ == "struct_specifier"@,
        field_child(n, "name"@) is Some,
        field_child(n, "body"@) is Some,
    ensures
        ({
            let c_name = text_of(field_child(n, "name"@)->0);
            translation(n, p, names) == "struct "@ + lookup_or(names.types, c_name) + " @cname(\""@
                + c_name + "\") "@ + translation(
                field_child(n, "body"@)->0,
                child_placement(n, p),
                names,
            )
        }),
{
    node_kinds_differ();
}

/// A `while` loop with a condition and a body is written `while`, the
/// condition, and the body as a block.
pub proof fn while_loop_form(n: SyntaxNode, p: Placement, names: Names)
    requires
        n.kind@ == "while_statement"@,
        field_child(n, "condition"@) is Some,
        field_child(n, "body"@) is Some,
    ensures
        ({
            let cp = child_placement(n, p);
            let b = field_child(n, "body"@)->0;
            translation(n, p, names) == "while "@ + translation(
                field_child(n, "condition"@)->0,
                cp,
                names,
            ) + " "@ + block_of(b, translation(b, cp, names))
        }),
{
    node_kinds_differ();
}

/// An `if` statement with a condition and a consequence is written `if`, the
/// condition and the consequence as a block; where it has an alternative,
/// `else` and the alternative follow, put in braces unless it is a block or
/// another `if`.
pub proof fn if_statement_form(n: SyntaxNode, p: Placement, names: Names)
    requires
        n.kind@ == "if_statement"@,
        field_child(n, "condition"@) is Some,
        field_child(n, "consequence"@) is Some,
    ensures
        ({
            let cp = child_placement(n, p);
            let q = field_child(n, "consequence"@)->0;
            let head = "if "@ + translation(field_child(n, "condition"@)->0, cp, names) + " "@
                + block_of(q, translation(q, cp, names));
            translation(n, p, names) == match field_child(n, "alternative"@) {
                Some(a) => head + " else "@ + if a.kind@ == "if_statement"@ {
                    translation(a, cp, names)
                } else {
                    block_of(a, translation(a, cp, names))
                },
                None => head,
            }
        }),
{
    node_kinds_differ();
}

/// A `switch` with a condition and a body is written `switch`, the
/// condition, and the body.
pub proof fn switch_form(n: SyntaxNode, p: Placement, names: Names)
    requires
        n.kind@ == "switch_statement"@,
        field_child(n, "condition"@) is Some,
        field_child(n, "body"@) is Some,
    ensures
        ({
            let cp = child_placement(n, p);
            translation(n, p, names) == "switch "@ + translation(
                field_child(n, "condition"@)->0,
                cp,
                names,
            ) + " "@ + translation(field_child(n, "body"@)->0, cp, names)
        }),
{
    node_kinds_differ();
}

/// A `case` label with a value and some statement that is not a comment is
/// written `case`, the value, a colon, a line break and the body of its
/// statements.
pub proof fn case_label_form(n: SyntaxNode, p: Placement, names: Names)
    requires
        n.kind@ == "case_statement"@,
        field_child(n, "value"@) is Some,
        colon_index(n.children@) is Some,
        has_real_statement(
            n.children@.subrange(colon_index(n.children@)->0 + 1, n.children@.len() as int),
        ),
    ensures
        ({
            let cp = child_placement(n, p);
            let ss = n.children@.subrange(colon_index(n.children@)->0 + 1, n.children@.len() as int);
            translation(n, p, names) == "case "@ + translation(field_child(n, "value"@)->0, cp, names)
                + ":\n"@ + label_body(ss, cp, names).0
        }),
{
    node_kinds_differ();
}

/// Each declarator of a declaration becomes a line of its own: the type with
/// the declarator's array dimensions, the declarator, and `;` where it has an
/// initializer or ` @noinit;` where it has none. Children that are not
/// declarators add no line.
pub proof fn declarator_line_form(
    cs: Seq<SyntaxNode>,
    d: SyntaxNode,
    p: Placement,
    names: Names,
    type_part: Seq<char>,
)
    ensures
        declarator_lines(cs.push(d), p, names, type_part) == if has_field(d, "declarator"@) {
            declarator_lines(cs, p, names, type_part).push(
                declarator_type(d, type_part, names) + " "@ + translation(d, p, names) + if d.kind@
                    == "init_declarator"@ {
                    ";"@
                } else {
                    " @noinit;"@
                },
            )
        } else {
            declarator_lines(cs, p, names, type_part)
        },
{
    assert(cs.push(d).subrange(0, cs.len() as int) =~= cs);
    assert(cs.push(d)[cs.len() as int] == d);
}

/// An initializing declarator is the declarator, ` = ` and the value; where
/// the declarator declares a pointer and the value is the name of a recorded
/// array, the value's address is taken with `&`.
pub proof fn init_declarator_form(n: SyntaxNode, p: Placement, names: Names)
    requires
        n.kind@ == "init_declarator"@,
        field_child(n, "declarator"@) is Some,
        field_child(n, "value"@) is Some,
    ensures
        ({
            let cp = child_placement(n, p);
            let d = field_child(n, "declarator"@)->0;
            let v = field_child(n, "value"@)->0;
            let from_array = declares_pointer(d) && raw_identifier_name(v) is Some
                && names.arrays.contains(raw_identifier_name(v)->0);
            translation(n, p, names) == translation(d, cp, names) + " = "@ + if from_array {
                "&"@ + translation(v, cp, names)
            } else {
                translation(v, cp, names)
            }
        }),
{
    node_kinds_differ();
}

/// A `typedef` with a type and a declarator is written `alias`, the C3 name
/// of the declared identifier, ` = `, the type, a star for each pointer level
/// of the declarator, and `;`.
pub proof fn type_definition_form(n: SyntaxNode, p: Placement, names: Names)
    requires
        n.kind@ == "type_definition"@,
        field_child(n, "type"@) is Some,
        field_child(n, "declarator"@) matches Some(d) && declared_identifier(d) is Some,
    ensures
        ({
            let cp = child_placement(n, p);
            let d = field_child(n, "declarator"@)->0;
            translation(n, p, names) == "alias "@ + lookup_or(
                names.types,
                text_of(declared_identifier(d)->0),
            ) + " = "@ + translation(field_child(n, "type"@)->0, cp, names) + repeat(
                "*"@,
                pointer_depth(d),
            ) + ";"@
        }),
{
    node_kinds_differ();
}

/// A `#define` with a name and a value is written `alias`, the C3 name of
/// the constant, ` = `, the value and `;`.
pub proof fn define_form(n: SyntaxNode, p: Placement, names: Names)
    requires
        n.kind@ == "preproc_def"@,
        field_child(n, "name"@) is Some,
        field_child(n, "value"@) is Some,
    ensures
        translation(n, p, names) == "alias "@ + lookup_or(
            names.constants,
            trim(text_of(field_child(n, "name"@)->0)),
        ) + " = "@ + trim(text_of(field_child(n, "value"@)->0)) + ";"@,
{
    node_kinds_differ();
}

/// A binary expression with two operands: a string literal added to
/// something is cast to `char*` (the left one where both are); the operands
/// and the operator are written with spaces between; and the whole is
/// parenthesized unless its parent is a parenthesized expression, or it is a
/// comparison of two operands neither of which is a binary expression.
pub proof fn binary_expression_form(n: SyntaxNode, p: Placement, names: Names)
    requires
        n.kind@ == "binary_expression"@,
        field_child(n, "left"@) is Some,
        field_child(n, "right"@) is Some,
    ensures
        ({
            let cp = child_placement(n, p);
            let l = field_child(n, "left"@)->0;
            let r = field_child(n, "right"@)->0;
            let op = match field_child(n, "operator"@) {
                Some(o) => text_of(o),
                None => Seq::empty(),
            };
            let left_cast = op == "+"@ && l.kind@ == "string_literal"@;
            let right_cast = op == "+"@ && !left_cast && r.kind@ == "string_literal"@;
            let left = if left_cast {
                "(char*)"@ + translation(l, cp, names)
            } else {
                translation(l, cp, names)
            };
            let right = if right_cast {
                "(char*)"@ + translation(r, cp, names)
            } else {
                translation(r, cp, names)
            };
            let comparison = op == "=="@ || op == "!="@ || op == "<"@ || op == ">"@ || op == "<="@
                || op == ">="@;
            let bare = p.parent_parenthesized || (comparison && l.kind@ != "binary_expression"@
                && r.kind@ != "binary_expression"@);
            translation(n, p, names) == if bare {
                left + " "@ + op + " "@ + right
            } else {
                "("@ + left + " "@ + op + " "@ + right + ")"@
            }
        }),
{
    node_kinds_differ();
}

/// A function definition with a type, a declarator and a body is written
/// `fn`, the return type, the declarator and the body; the body of an `int
/// main` without a `return` gets `return 0;` at its end.
pub proof fn function_definition_form(n: SyntaxNode, p: Placement, names: Names)
    requires
        n.kind@ == "function_definition"@,
        field_child(n, "type"@) is Some,
        field_child(n, "declarator"@) is Some,
        field_child(n, "body"@) is Some,
    ensures
        ({
            let cp = child_placement(n, p);
            let t = translation(field_child(n, "type"@)->0, cp, names);
            let d = field_child(n, "declarator"@)->0;
            let b = field_child(n, "body"@)->0;
            let is_main = declared_identifier(d) is Some && text_of(declared_identifier(d)->0)
                == "main"@;
            translation(n, p, names) == "fn "@ + t + " "@ + translation(d, cp, names) + " "@ + if is_main
                && t == "int"@ && !contains_return(b) {
                main_body(translation(b, cp, names))
            } else {
                translation(b, cp, names)
            }
        }),
{
    node_kinds_differ();
}

/// An identifier (or field identifier) with no children is written by the
/// C3 name of the function it names, else of the variable, else of the
/// constant, else as it is.
pub proof fn identifier_form(n: SyntaxNode, p: Placement, names: Names)
    requires
        n.kind@ == "identifier"@ || n.kind@ == "field_identifier"@,
        n.children@.len() == 0,
    ensures
        ({
            let t = text_of(n);
            translation(n, p, names) == if names.functions.contains_key(t) {
                names.functions[t]
            } else if names.variables.contains_key(t) {
                names.variables[t]
            } else if names.constants.contains_key(t) {
                names.constants[t]
            } else {
                t
            }
        }),
{
    node_kinds_differ();
}

/// A primitive type or type name is written by its C3 integer type where it
/// has one, else by the C3 name recorded for it, else as it is (its text
/// trimmed).
pub proof fn type_name_form(n: SyntaxNode, p: Placement, names: Names)
    requires
        n.kind@ == "primitive_type"@ || n.kind@ == "type_identifier"@,
    ensures
        ({
            let t = trim(text_of(n));
            translation(n, p, names) == match c3_integer_type(t) {
                Some(c) => c,
                None => lookup_or(names.types, t),
            }
        }),
{
    node_kinds_differ();
}

/// An expression statement is its expression followed by `;`, unless the
/// expression already ends with one; an empty one is `;`.
pub proof fn expression_statement_form(n: SyntaxNode, p: Placement, names: Names)
    requires
        n.kind@ == "expression_statement"@,
    ensures
        n.children@.len() == 0 ==> translation(n, p, names) == ";"@,
        n.children@.len() > 0 ==> {
            let e = translation(n.children@[0], child_placement(n, p), names);
            translation(n, p, names) == if e.len() > 0 && e.last() == ';' {
                e
            } else {
                e + ";"@
            }
        },
{
    node_kinds_differ();
}

/// A comma expression with two operands: as a statement, the left one (its
/// trailing `;` taken off), `;`, a line break and the right one; elsewhere
/// both in parentheses, marked as needing attention.
pub proof fn comma_expression_form(n: SyntaxNode, p: Placement, names: Names)
    requires
        n.kind@ == "comma_expression"@,
        field_child(n, "left"@) is Some,
        field_child(n, "right"@) is Some,
    ensures
        ({
            let cp = child_placement(n, p);
            let left = translation(field_child(n, "left"@)->0, cp, names);
            let right = translation(field_child(n, "right"@)->0, cp, names);
            translation(n, p, names) == if p.in_statement {
                trim_end_char(left, ';') + ";\n"@ + right
            } else {
                "/* TODO: Comma in expression context */ ("@ + left + ", "@ + right + ")"@
            }
        }),
{
    node_kinds_differ();
}

/// A call is the function followed directly by its arguments; a field
/// access is the object, `.` and the field; a function declarator is the
/// declarator, a space and the parameters.
pub proof fn pair_forms(n: SyntaxNode, p: Placement, names: Names)
    ensures
        ({
            let cp = child_placement(n, p);
            &&& n.kind@ == "call_expression"@ && field_child(n, "function"@) is Some && field_child(
                n,
                "arguments"@,
            ) is Some ==> translation(n, p, names) == translation(
                field_child(n, "function"@)->0,
                cp,
                names,
            ) + translation(field_child(n, "arguments"@)->0, cp, names)
            &&& n.kind@ == "field_expression"@ && field_child(n, "argument"@) is Some
                && field_child(n, "field"@) is Some ==> translation(n, p, names) == translation(
                field_child(n, "argument"@)->0,
                cp,
                names,
            ) + "."@ + translation(field_child(n, "field"@)->0, cp, names)
            &&& n.kind@ == "function_declarator"@ && field_child(n, "declarator"@) is Some
                && field_child(n, "parameters"@) is Some ==> translation(n, p, names)
                == translation(field_child(n, "declarator"@)->0, cp, names) + " "@ + translation(
                field_child(n, "parameters"@)->0,
                cp,
                names,
            )
        }),
{
    node_kinds_differ();
}

/// A parameter is its type, then, where it has one, a space and its
/// declarator.
pub proof fn parameter_form(n: SyntaxNode, p: Placement, names: Names)
    requires
        n.kind@ == "parameter_declaration"@,
        field_child(n, "type"@) is Some,
    ensures
        ({
            let cp = child_placement(n, p);
            let t = translation(field_child(n, "type"@)->0, cp, names);
            translation(n, p, names) == match field_child(n, "declarator"@) {
                Some(d) => t + " "@ + translation(d, cp, names),
                None => t,
            }
        }),
{
    node_kinds_differ();
}

/// An enumerator is its name, then, where it has one, ` = ` and its value.
pub proof fn enumerator_form(n: SyntaxNode, p: Placement, names: Names)
    requires
        n.kind@ == "enumerator"@,
        field_child(n, "name"@) is Some,
    ensures
        ({
            let cp = child_placement(n, p);
            let name = translation(field_child(n, "name"@)->0, cp, names);
            translation(n, p, names) == match field_child(n, "value"@) {
                Some(v) => name + " = "@ + translation(v, cp, names),
                None => name,
            }
        }),
{
    node_kinds_differ();
}

/// The items of a list: the translation of each child that is neither a
/// bracket of the list nor a comma, in order.
pub proof fn list_items_form(
    cs: Seq<SyntaxNode>,
    c: SyntaxNode,
    p: Placement,
    names: Names,
    open: Seq<char>,
    close: Seq<char>,
)
    ensures
        list_items(Seq::empty(), p, names, open, close) == Seq::<Seq<char>>::empty(),
        list_items(cs.push(c), p, names, open, close) == if c.kind@ != open && c.kind@ != close
            && c.kind@ != ","@ {
            list_items(cs, p, names, open, close).push(translation(c, p, names))
        } else {
            list_items(cs, p, names, open, close)
        },
{
    assert(cs.push(c).subrange(0, cs.len() as int) =~= cs);
    assert(cs.push(c)[cs.len() as int] == c);
}

/// An argument or parameter list is its items joined by `, ` in
/// parentheses; an initializer list is `{}` when empty and otherwise its items
/// joined by `, ` between `{ ` and ` }`.
pub proof fn list_forms(n: SyntaxNode, p: Placement, names: Names)
    ensures
        ({
            let cp = child_placement(n, p);
            &&& (n.kind@ == "argument_list"@ || n.kind@ == "parameter_list"@) ==> translation(
                n,
                p,
                names,
            ) == "("@ + join(list_items(n.children@, cp, names, "("@, ")"@), ", "@) + ")"@
            &&& n.kind@ == "initializer_list"@ ==> {
                let items = list_items(n.children@, cp, names, "{"@, "}"@);
                translation(n, p, names) == if items.len() == 0 {
                    "{}"@
                } else {
                    "{ "@ + join(items, ", "@) + " }"@
                }
            }
        }),
{
    node_kinds_differ();
}

/// An array declarator with an inner declarator is that declarator (its
/// dimensions go onto the type); a pointer declarator is `*` and the inner
/// declarator; a pointer expression with two children is the two, with
/// nothing between; a type qualifier is left out.
pub proof fn declarator_forms(n: SyntaxNode, p: Placement, names: Names)
    ensures
        ({
            let cp = child_placement(n, p);
            &&& n.kind@ == "array_declarator"@ && field_child(n, "declarator"@) is Some
                ==> translation(n, p, names) == translation(field_child(n, "declarator"@)->0, cp, names)
            &&& n.kind@ == "pointer_declarator"@ && field_child(n, "declarator"@) is Some
                ==> translation(n, p, names) == "*"@ + translation(
                field_child(n, "declarator"@)->0,
                cp,
                names,
            )
            &&& n.kind@ == "pointer_expression"@ && n.children@.len() == 2 ==> translation(n, p, names)
                == translation(n.children@[0], cp, names) + translation(n.children@[1], cp, names)
            &&& n.kind@ == "type_qualifier"@ ==> translation(n, p, names) == Seq::<char>::empty()
        }),
{
    node_kinds_differ();
    if n.kind@ == "array_declarator"@ && field_child(n, "declarator"@) is Some {
        let d = field_child(n, "declarator"@)->0;
        let t = translation(d, child_placement(n, p), names);
        assert(Seq::<char>::empty() + t =~= t);
    }
}

/// The lines of a block: one for each child that is not a brace, indented by
/// four spaces and ended by a line break; a block is those lines in braces.
/// The lines of a translation unit: one for each child that is not `;` and
/// whose translation is not blank, ended by a line break.
pub proof fn block_and_unit_lines(cs: Seq<SyntaxNode>, c: SyntaxNode, p: Placement, names: Names)
    ensures
        block_lines(cs.push(c), p, names) == if c.kind@ == "{"@ || c.kind@ == "}"@ {
            block_lines(cs, p, names)
        } else {
            block_lines(cs, p, names) + "    "@ + translation(c, p, names) + "\n"@
        },
        unit_lines(cs.push(c), p, names) == if c.kind@ == ";"@ || trim(translation(c, p, names)).len()
            == 0 {
            unit_lines(cs, p, names)
        } else {
            unit_lines(cs, p, names) + translation(c, p, names) + "\n"@
        },
        block_lines(Seq::empty(), p, names) == Seq::<char>::empty(),
        unit_lines(Seq::empty(), p, names) == Seq::<char>::empty(),
{
    assert(cs.push(c).subrange(0, cs.len() as int) =~= cs);
    assert(cs.push(c)[cs.len() as int] == c);
}

/// A block or field list is its lines in braces; a translation unit is its
/// lines.
pub proof fn block_and_unit_forms(n: SyntaxNode, p: Placement, names: Names)
    ensures
        (n.kind@ == "compound_statement"@ || n.kind@ == "field_declaration_list"@) ==> translation(
            n,
            p,
            names,
        ) == "{\n"@ + block_lines(n.children@, child_placement(n, p), names) + "}"@,
        n.kind@ == "translation_unit"@ ==> translation(n, p, names) == unit_lines(
            n.children@,
            child_placement(n, p),
            names,
        ),
{
    node_kinds_differ();
}

/// An `#include` with a path is written as its path says; a path in quotes,
/// `"m.h"` with no quote inside, becomes `import m;`; `<stdlib.h>` and
/// `<string.h>` become `import libc;`; `<stdio.h>` becomes the C3
/// declarations of the C standard input and output functions; any other path
/// in angle brackets becomes a note that no C3 equivalent was found.
pub proof fn include_form(n: SyntaxNode, p: Placement, names: Names, m: Seq<char>)
    requires
        n.kind@ == "preproc_include"@,
        field_child(n, "path"@) is Some,
    ensures
        ({
            let path = text_of(field_child(n, "path"@)->0);
            &&& translation(n, p, names) == include_translation(path)
            &&& path == "<stdlib.h>"@ || path == "<string.h>"@ ==> translation(n, p, names)
                == "import libc;"@
            &&& path == "<stdio.h>"@ ==> translation(n, p, names) == STDIO_DECLARATIONS@
            &&& path.len() > 0 && path[0] == '<' && path != "<stdlib.h>"@ && path != "<string.h>"@
                && path != "<stdio.h>"@ ==> translation(n, p, names)
                == "// TODO: Find C3 equivalent for "@ + path
            &&& path == seq!['"'] + m + ".h"@ + seq!['"'] && !has_char(m, '"') ==> translation(
                n,
                p,
                names,
            ) == "import "@ + m + ";"@
        }),
{
    node_kinds_differ();
    let path = text_of(field_child(n, "path"@)->0);
    reveal_strlit("<stdlib.h>");
    reveal_strlit("<string.h>");
    reveal_strlit("<stdio.h>");
    reveal_strlit(".h");
    if path == seq!['"'] + m + ".h"@ + seq!['"'] && !has_char(m, '"') {
        let after = m + ".h"@ + seq!['"'];
        assert(path.drop_first() =~= after);
        assert(after.len() > 0 && after[0] != '"') by {
            if m.len() > 0 {
                assert(after[0] == m[0]);
                if m[0] == '"' {
                    assert(has_char(m, '"'));
                }
            } else {
                assert(after[0] == '.');
            }
        }
        assert(crate::text::trim_start_char(after, '"') == after);
        assert(crate::text::trim_start_char(path, '"') == after);
        let kept = m + ".h"@;
        assert(after.drop_last() =~= kept);
        assert(kept.last() == 'h');
        assert(trim_end_char(kept, '"') == kept);
        assert(trim_end_char(after, '"') == kept);
        assert(kept.skip(kept.len() - 2) =~= ".h"@);
        assert(kept.take(kept.len() - 2) =~= m);
    }
}

} // verus!
