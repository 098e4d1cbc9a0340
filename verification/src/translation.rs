//! What C3 text each node of a C syntax tree becomes.
//!
//! `translation(n, p, names)` is the C3 text of the node `n`, placed in its
//! tree as `p` says, under the names of the symbol table `names`.

use vstd::prelude::*;
use crate::naming::c3_integer_type;
use crate::symbols::Names;
use crate::syntax::{
    array_declarator, contains_return, declared_identifier, declares_pointer, field_child,
    field_index, has_field, lemma_array_declarator_within, lemma_field_child_smaller,
    lemma_field_index, pointer_depth, raw_identifier_name, text_of, SyntaxNode,
};
use crate::text::{
    after_char, before_char, ends_with, ends_with_char, has_char, join, repeat, replace_all,
    split_char, starts_with, strip_suffix, trim, trim_char, trim_end, trim_end_char,
    trimmed_nonempty, white_space, words,
};

verus! {

/// Where a node stands, as far as its translation depends on it.
#[derive(Clone, Copy)]
pub struct Placement {
    /// The node's parent is a parenthesized expression.
    pub parent_parenthesized: bool,
    /// The node is an expression statement's expression, or a comma expression
    /// that is (through further comma expressions) one.
    pub in_statement: bool,
}

/// The placement of a tree's root.
pub open spec fn root_placement() -> Placement {
    Placement { parent_parenthesized: false, in_statement: false }
}

/// The placement of the children of `n`, where `n` is placed as `p`.
pub open spec fn child_placement(n: SyntaxNode, p: Placement) -> Placement {
    Placement {
        parent_parenthesized: n.kind@ == "parenthesized_expression"@,
        in_statement: n.kind@ == "expression_statement"@ || (n.kind@ == "comma_expression"@
            && p.in_statement),
    }
}

/// The name that `k` maps to in `m`, or `k` itself.
pub open spec fn lookup_or(m: Map<Seq<char>, Seq<char>>, k: Seq<char>) -> Seq<char> {
    if m.contains_key(k) {
        m[k]
    } else {
        k
    }
}

/// Whether `s` begins with `c`.
pub open spec fn starts_with_char(s: Seq<char>, c: char) -> bool {
    s.len() > 0 && s[0] == c
}

/// A statement that is not a block, put in a block: indented one level.
pub open spec fn braced(s: Seq<char>) -> Seq<char> {
    "{\n    "@ + replace_all(s, "\n"@, "\n    "@) + "\n}"@
}

/// The text of a statement, put in a block unless it is one already.
pub open spec fn as_block(n: SyntaxNode, s: Seq<char>) -> Seq<char> {
    if n.kind@ == "compound_statement"@ {
        s
    } else {
        braced(s)
    }
}

/// The lines of an enumeration body up to item `i`: each item indented, all
/// but the last followed by a comma.
pub open spec fn item_lines(items: Seq<Seq<char>>, i: int) -> Seq<char>
    decreases i,
{
    if i <= 0 {
        Seq::empty()
    } else {
        item_lines(items, i - 1) + "    "@ + items[i - 1] + if i < items.len() {
            ",\n"@
        } else {
            "\n"@
        }
    }
}

/// An enumeration body: its items one per line, in braces.
pub open spec fn item_block(items: Seq<Seq<char>>) -> Seq<char> {
    "{\n"@ + item_lines(items, items.len() as int) + "}"@
}

/// Whether some item holds `=`.
pub open spec fn some_item_has_eq(items: Seq<Seq<char>>) -> bool {
    exists|i: int| 0 <= i < items.len() && has_char(items[i], '=')
}

/// The declaration text `const NAME { A, B }` as a C3 enum, where it has
/// that form (`const` first, a brace, no `=`).
pub open spec fn const_enum_translation(t: Seq<char>, names: Names) -> Option<Seq<char>> {
    if starts_with(t, "const"@) && has_char(t, '{') && !has_char(t, '=') {
        let parts = words(before_char(t, '{'));
        if parts.len() >= 2 && parts[0] == "const"@ {
            let c3 = lookup_or(names.types, parts[1]);
            let braced_part = after_char(t, '{');
            if has_char(braced_part, '}') {
                let items = trimmed_nonempty(split_char(before_char(braced_part, '}'), ','));
                let block = item_block(items);
                if some_item_has_eq(items) {
                    Some("constdef "@ + c3 + " "@ + block)
                } else {
                    Some("enum "@ + c3 + " "@ + block)
                }
            } else {
                None
            }
        } else {
            None
        }
    } else {
        None
    }
}

/// The declarations of `<stdio.h>` in C3.
pub const STDIO_DECLARATIONS: &'static str = "extern fn int scanf(char* format, ...);\nextern fn int printf(char* format, ...);\nextern fn int snprintf(char* s, usz n, char* format, ...);\nextern fn int sprintf(char* s, char* format, ...);\nextern fn int sscanf(char* s, char* format, ...);\nextern fn int fprintf(void* stream, char* format, ...);\nextern fn int fscanf(void* stream, char* format, ...);\nextern fn void* fopen(char* filename, char* mode);\nextern fn int fclose(void* stream);\nextern fn int feof(void* stream);\nextern fn int ferror(void* stream);\nextern fn int fgetc(void* stream);\nextern fn char* fgets(char* s, int n, void* stream);\nextern fn int fputc(int c, void* stream);\nextern fn int fputs(char* s, void* stream);\nextern fn usz fread(void* ptr, usz size, usz count, void* stream);\nextern fn usz fwrite(void* ptr, usz size, usz count, void* stream);\nextern fn int fseek(void* stream, long offset, int whence);\nextern fn long ftell(void* stream);\nextern fn void rewind(void* stream);\nextern fn int getc(void* stream);\nextern fn int getchar();\nextern fn int putc(int c, void* stream);\nextern fn int putchar(int c);\nextern fn int puts(char* s);\nextern fn int remove(char* filename);\nextern fn int rename(char* old_name, char* new_name);";

/// What an `#include` becomes, from the text of its path.
pub open spec fn include_translation(path: Seq<char>) -> Seq<char> {
    if starts_with_char(path, '<') {
        if path == "<stdio.h>"@ {
            STDIO_DECLARATIONS@
        } else if path == "<stdlib.h>"@ || path == "<string.h>"@ {
            "import libc;"@
        } else {
            "// TODO: Find C3 equivalent for "@ + path
        }
    } else if starts_with_char(path, '"') {
        let file_name = trim_char(path, '"');
        let module_name = match strip_suffix(file_name, ".h"@) {
            Some(m) => m,
            None => file_name,
        };
        "import "@ + module_name + ";"@
    } else {
        Seq::empty()
    }
}

/// A C type written in C3: a C integer type by its C3 name, a declared type
/// by its C3 name, any other as it is.
pub open spec fn type_translation(t: Seq<char>, names: Names) -> Seq<char> {
    match c3_integer_type(t) {
        Some(c) => c,
        None => lookup_or(names.types, t),
    }
}

/// An identifier written in C3: by the C3 name of the function, variable or
/// constant it names, in that order of preference, or as it is.
pub open spec fn identifier_translation(t: Seq<char>, names: Names) -> Seq<char> {
    if names.functions.contains_key(t) {
        names.functions[t]
    } else if names.variables.contains_key(t) {
        names.variables[t]
    } else if names.constants.contains_key(t) {
        names.constants[t]
    } else {
        t
    }
}

/// The tokens of a node that has no rule of its own, joined by spaces, with
/// the spaces before `;`, `,`, `)` and after `(` taken out.
pub open spec fn tidy_tokens(s: Seq<char>) -> Seq<char> {
    trim(
        replace_all(
            replace_all(replace_all(replace_all(s, " ;"@, ";"@), " ,"@, ","@), "( "@, "("@),
            " )"@,
            ")"@,
        ),
    )
}

/// The operator of a binary expression is a comparison.
pub open spec fn is_comparison(op: Seq<char>) -> bool {
    op == "=="@ || op == "!="@ || op == "<"@ || op == ">"@ || op == "<="@ || op == ">="@
}

/// An empty dimension is written `*`.
pub open spec fn dimension_text(d: Seq<char>) -> Seq<char> {
    if d.len() == 0 {
        "*"@
    } else {
        d
    }
}

/// The dimensions written as C3 writes them, innermost first.
pub open spec fn dimensions_text(dims: Seq<Seq<char>>) -> Seq<char> {
    "["@ + join(dims.map_values(|d: Seq<char>| dimension_text(d)), "]["@) + "]"@
}

/// The position of the first child that is a `:`.
pub open spec fn colon_index(cs: Seq<SyntaxNode>) -> Option<int>
    decreases cs.len(),
{
    if cs.len() == 0 {
        None
    } else {
        match colon_index(cs.drop_last()) {
            Some(i) => Some(i),
            None => if cs.last().kind@ == ":"@ {
                Some(cs.len() - 1)
            } else {
                None
            },
        }
    }
}

pub proof fn lemma_colon_index(cs: Seq<SyntaxNode>)
    ensures
        colon_index(cs) matches Some(i) ==> 0 <= i < cs.len() && cs[i].kind@ == ":"@,
        colon_index(cs) is None ==> forall|j: int| 0 <= j < cs.len() ==> cs[j].kind@ != ":"@,
    decreases cs.len(),
{
    if cs.len() > 0 {
        lemma_colon_index(cs.drop_last());
        if colon_index(cs.drop_last()) is None {
            assert forall|j: int| 0 <= j < cs.len() - 1 implies cs[j].kind@ != ":"@ by {
                assert(cs.drop_last()[j] == cs[j]);
            }
        }
    }
}

/// The position of the last statement that is not a comment.
pub open spec fn last_real_index(ss: Seq<SyntaxNode>) -> Option<int>
    decreases ss.len(),
{
    if ss.len() == 0 {
        None
    } else if ss.last().kind@ != "comment"@ {
        Some(ss.len() - 1)
    } else {
        last_real_index(ss.drop_last())
    }
}

/// Whether some statement is not a comment.
pub open spec fn has_real_statement(ss: Seq<SyntaxNode>) -> bool {
    exists|i: int| 0 <= i < ss.len() && ss[i].kind@ != "comment"@
}

/// The statement of a label that is left out: its last real statement, where
/// that is a `break`.
pub open spec fn skipped_break(ss: Seq<SyntaxNode>) -> Option<int> {
    match last_real_index(ss) {
        Some(j) => if ss[j].kind@ == "break_statement"@ {
            Some(j)
        } else {
            None
        },
        None => None,
    }
}

/// Whether a label falls through to the next: its last real statement is not
/// a `break`, `return`, `continue` or `goto`.
pub open spec fn falls_through(ss: Seq<SyntaxNode>) -> bool {
    match last_real_index(ss) {
        Some(j) => {
            let k = ss[j].kind@;
            k != "break_statement"@ && k != "return_statement"@ && k != "continue_statement"@ && k
                != "goto_statement"@
        },
        None => false,
    }
}

// ---------------------------------------------------------------------------
// The translation of a node
// ---------------------------------------------------------------------------

/// The C3 text of the node `n`, placed as `p`, under `names`.
pub open spec fn translation(n: SyntaxNode, p: Placement, names: Names) -> Seq<char>
    decreases n, 2int,
{
    let k = n.kind@;
    let cp = child_placement(n, p);
    if k == "translation_unit"@ {
        unit_lines(n.children@, cp, names)
    } else if k == "struct_specifier"@ {
        struct_translation(n, p, names)
    } else if k == "enum_specifier"@ {
        enum_translation(n, p, names)
    } else if k == "union_specifier"@ {
        union_translation(n, p, names)
    } else if k == "enumerator"@ {
        enumerator_translation(n, p, names)
    } else if k == "field_declaration_list"@ || k == "compound_statement"@ {
        "{\n"@ + block_lines(n.children@, cp, names) + "}"@
    } else if k == "function_definition"@ {
        function_translation(n, p, names)
    } else if k == "function_declarator"@ {
        pair_translation(n, p, names, "declarator"@, "parameters"@, " "@)
    } else if k == "parameter_declaration"@ {
        parameter_translation(n, p, names)
    } else if k == "expression_statement"@ {
        expression_statement_translation(n, p, names)
    } else if k == "comma_expression"@ {
        comma_translation(n, p, names)
    } else if k == "while_statement"@ {
        while_translation(n, p, names)
    } else if k == "if_statement"@ {
        if_translation(n, p, names)
    } else if k == "for_statement"@ {
        for_translation(n, p, names)
    } else if k == "binary_expression"@ {
        binary_translation(n, p, names)
    } else if k == "switch_statement"@ {
        switch_translation(n, p, names)
    } else if k == "case_statement"@ {
        case_translation(n, p, names)
    } else if k == "default_statement"@ {
        default_translation(n, p, names)
    } else if k == "call_expression"@ {
        pair_translation(n, p, names, "function"@, "arguments"@, Seq::empty())
    } else if k == "argument_list"@ || k == "parameter_list"@ {
        "("@ + join(list_items(n.children@, cp, names, "("@, ")"@), ", "@) + ")"@
    } else if k == "initializer_list"@ {
        let items = list_items(n.children@, cp, names, "{"@, "}"@);
        if items.len() == 0 {
            "{}"@
        } else {
            "{ "@ + join(items, ", "@) + " }"@
        }
    } else if k == "parenthesized_expression"@ {
        "("@ + last_inner(n.children@, cp, names) + ")"@
    } else if k == "field_expression"@ {
        pair_translation(n, p, names, "argument"@, "field"@, "."@)
    } else if k == "array_declarator"@ {
        wrapped_translation(n, p, names, Seq::empty())
    } else if k == "pointer_declarator"@ {
        wrapped_translation(n, p, names, "*"@)
    } else if k == "pointer_expression"@ {
        pointer_expression_translation(n, p, names)
    } else if k == "type_qualifier"@ {
        Seq::empty()
    } else if k == "primitive_type"@ || k == "type_identifier"@ {
        type_translation(trim(text_of(n)), names)
    } else if k == "preproc_include"@ {
        match field_child(n, "path"@) {
            Some(path) => include_translation(text_of(path)),
            None => text_of(n),
        }
    } else if k == "preproc_def"@ {
        match (field_child(n, "name"@), field_child(n, "value"@)) {
            (Some(name), Some(value)) => "alias "@ + lookup_or(
                names.constants,
                trim(text_of(name)),
            ) + " = "@ + trim(text_of(value)) + ";"@,
            _ => text_of(n),
        }
    } else if k == "init_declarator"@ {
        init_declarator_translation(n, p, names)
    } else if k == "declaration"@ || k == "field_declaration"@ {
        match const_enum_translation(text_of(n), names) {
            Some(e) => e,
            None => declaration_translation(n, p, names),
        }
    } else if k == "type_definition"@ {
        type_definition_translation(n, p, names)
    } else if k == "comment"@ || k == "string_literal"@ || k == "char_literal"@ || k
        == "system_lib_string"@ || k == "number_literal"@ {
        text_of(n)
    } else if n.children@.len() == 0 {
        if k == "identifier"@ || k == "field_identifier"@ {
            identifier_translation(text_of(n), names)
        } else {
            text_of(n)
        }
    } else {
        tidy_tokens(spaced(n.children@, cp, names, false, None))
    }
}

/// The lines of a translation unit: each child that is not `;` and whose
/// text is not blank, followed by a line break.
pub open spec fn unit_lines(cs: Seq<SyntaxNode>, p: Placement, names: Names) -> Seq<char>
    decreases cs, 0int,
{
    if cs.len() == 0 {
        Seq::empty()
    } else {
        let init = unit_lines(cs.subrange(0, cs.len() - 1), p, names);
        let c = cs[cs.len() - 1];
        if c.kind@ == ";"@ {
            init
        } else {
            let t = translation(c, p, names);
            if trim(t).len() == 0 {
                init
            } else {
                init + t + "\n"@
            }
        }
    }
}

/// The lines of a block: each child that is not a brace, indented, one per line.
pub open spec fn block_lines(cs: Seq<SyntaxNode>, p: Placement, names: Names) -> Seq<char>
    decreases cs, 0int,
{
    if cs.len() == 0 {
        Seq::empty()
    } else {
        let init = block_lines(cs.subrange(0, cs.len() - 1), p, names);
        let c = cs[cs.len() - 1];
        if c.kind@ == "{"@ || c.kind@ == "}"@ {
            init
        } else {
            init + "    "@ + translation(c, p, names) + "\n"@
        }
    }
}

/// The translations of the children that are enumerators.
pub open spec fn enumerator_items(cs: Seq<SyntaxNode>, p: Placement, names: Names) -> Seq<
    Seq<char>,
>
    decreases cs, 0int,
{
    if cs.len() == 0 {
        Seq::empty()
    } else {
        let init = enumerator_items(cs.subrange(0, cs.len() - 1), p, names);
        let c = cs[cs.len() - 1];
        if c.kind@ == "enumerator"@ {
            init.push(translation(c, p, names))
        } else {
            init
        }
    }
}

/// The translations of the children that are not `open`, `close` or `,`.
pub open spec fn list_items(
    cs: Seq<SyntaxNode>,
    p: Placement,
    names: Names,
    open: Seq<char>,
    close: Seq<char>,
) -> Seq<Seq<char>>
    decreases cs, 0int,
{
    if cs.len() == 0 {
        Seq::empty()
    } else {
        let init = list_items(cs.subrange(0, cs.len() - 1), p, names, open, close);
        let c = cs[cs.len() - 1];
        if c.kind@ != open && c.kind@ != close && c.kind@ != ","@ {
            init.push(translation(c, p, names))
        } else {
            init
        }
    }
}

/// The translation of the last child that is not a parenthesis.
pub open spec fn last_inner(cs: Seq<SyntaxNode>, p: Placement, names: Names) -> Seq<char>
    decreases cs, 0int,
{
    if cs.len() == 0 {
        Seq::empty()
    } else {
        let c = cs[cs.len() - 1];
        if c.kind@ != "("@ && c.kind@ != ")"@ {
            translation(c, p, names)
        } else {
            last_inner(cs.subrange(0, cs.len() - 1), p, names)
        }
    }
}

/// The translations of the children, each followed by a space; children that
/// are `;` are left out where `skip_semicolons` holds, and children that
/// start at or after `before` are left out where it is given.
pub open spec fn spaced(
    cs: Seq<SyntaxNode>,
    p: Placement,
    names: Names,
    skip_semicolons: bool,
    before: Option<usize>,
) -> Seq<char>
    decreases cs, 0int,
{
    if cs.len() == 0 {
        Seq::empty()
    } else {
        let init = spaced(cs.subrange(0, cs.len() - 1), p, names, skip_semicolons, before);
        let c = cs[cs.len() - 1];
        let kept = !(skip_semicolons && c.kind@ == ";"@) && match before {
            Some(b) => c.start_byte < b,
            None => true,
        };
        if kept {
            init + translation(c, p, names) + " "@
        } else {
            init
        }
    }
}

/// The statements of a label whose text is not blank, each after a space.
pub open spec fn spaced_nonblank(ss: Seq<SyntaxNode>, p: Placement, names: Names) -> Seq<char>
    decreases ss, 0int,
{
    if ss.len() == 0 {
        Seq::empty()
    } else {
        let init = spaced_nonblank(ss.subrange(0, ss.len() - 1), p, names);
        let t = translation(ss[ss.len() - 1], p, names);
        if trim(t).len() == 0 {
            init
        } else {
            init + " "@ + t
        }
    }
}

/// The lines of a label's statements: each statement whose text is not blank,
/// indented, one per line; the statement at `skip` is left out.
pub open spec fn label_lines(ss: Seq<SyntaxNode>, p: Placement, names: Names, skip: Option<int>) -> Seq<
    char,
>
    decreases ss, 0int,
{
    if ss.len() == 0 {
        Seq::empty()
    } else {
        let init = label_lines(ss.subrange(0, ss.len() - 1), p, names, skip);
        if skip == Some(ss.len() - 1) {
            init
        } else {
            let t = translation(ss[ss.len() - 1], p, names);
            if trim(t).len() == 0 {
                init
            } else {
                init + "    "@ + replace_all(t, "\n"@, "\n    "@) + "\n"@
            }
        }
    }
}

/// The body of a `case` or `default` label, and whether it falls through:
/// its statements without a final `break`, with `nextcase;` after them where
/// they fall through.
pub open spec fn label_body(ss: Seq<SyntaxNode>, p: Placement, names: Names) -> (Seq<char>, bool)
    decreases ss, 1int,
{
    let lines = label_lines(ss, p, names, skipped_break(ss));
    let all = if falls_through(ss) {
        lines + "    nextcase;\n"@
    } else {
        lines
    };
    (trim_end(all), falls_through(ss))
}

/// The dimensions of an array declarator and those it wraps, innermost first;
/// a dimension without a size is empty.
pub open spec fn array_dimensions(a: SyntaxNode, names: Names) -> Seq<Seq<char>>
    decreases a, 1int,
{
    proof {
        lemma_field_child_smaller(a, "size"@);
        lemma_field_child_smaller(a, "declarator"@);
    }
    if a.kind@ == "array_declarator"@ {
        let cp = child_placement(a, root_placement());
        let here = match field_child(a, "size"@) {
            Some(s) => translation(s, cp, names),
            None => Seq::empty(),
        };
        let inner = match field_child(a, "declarator"@) {
            Some(d) => array_dimensions(d, names),
            None => Seq::empty(),
        };
        inner.push(here)
    } else {
        Seq::empty()
    }
}

/// The node where the array declarators that `a` starts end: the first node
/// inward from `a` that is not an array declarator, or the last array
/// declarator where that has no inner declarator.
pub open spec fn dimensions_end(a: SyntaxNode) -> SyntaxNode
    decreases a,
{
    proof {
        lemma_field_child_smaller(a, "declarator"@);
    }
    if a.kind@ == "array_declarator"@ {
        match field_child(a, "declarator"@) {
            Some(d) => dimensions_end(d),
            None => a,
        }
    } else {
        a
    }
}

/// The type of one declarator of a declaration: the declaration's type, with
/// the declarator's array dimensions.
pub open spec fn declarator_type(d: SyntaxNode, type_part: Seq<char>, names: Names) -> Seq<char>
    decreases d, 2int,
{
    proof {
        lemma_array_declarator_within(d);
    }
    match array_declarator(d) {
        Some(a) => {
            let dims = array_dimensions(a, names);
            if dims.len() == 0 {
                type_part
            } else {
                type_part + dimensions_text(dims)
            }
        },
        None => type_part,
    }
}

/// The declarations, one for each child under the field `declarator`.
pub open spec fn declarator_lines(
    cs: Seq<SyntaxNode>,
    p: Placement,
    names: Names,
    type_part: Seq<char>,
) -> Seq<Seq<char>>
    decreases cs, 0int,
{
    if cs.len() == 0 {
        Seq::empty()
    } else {
        let init = declarator_lines(cs.subrange(0, cs.len() - 1), p, names, type_part);
        let d = cs[cs.len() - 1];
        if has_field(d, "declarator"@) {
            let line = declarator_type(d, type_part, names) + " "@ + translation(d, p, names)
                + if d.kind@ == "init_declarator"@ {
                ";"@
            } else {
                " @noinit;"@
            };
            init.push(line)
        } else {
            init
        }
    }
}

// ---------------------------------------------------------------------------
// Rules for single kinds of node
// ---------------------------------------------------------------------------

/// A `struct` specifier.
pub open spec fn struct_translation(n: SyntaxNode, p: Placement, names: Names) -> Seq<char>
    decreases n, 1int,
{
    proof {
        lemma_field_child_smaller(n, "body"@);
    }
    let cp = child_placement(n, p);
    match field_child(n, "name"@) {
        Some(name) => {
            let c_name = text_of(name);
            let c3_name = lookup_or(names.types, c_name);
            match field_child(n, "body"@) {
                Some(body) => "struct "@ + c3_name + " @cname(\""@ + c_name + "\") "@
                    + translation(body, cp, names),
                None => c3_name,
            }
        },
        None => match field_child(n, "body"@) {
            Some(body) => "struct "@ + translation(body, cp, names),
            None => "struct"@,
        },
    }
}

/// A `union` specifier.
pub open spec fn union_translation(n: SyntaxNode, p: Placement, names: Names) -> Seq<char>
    decreases n, 1int,
{
    proof {
        lemma_field_child_smaller(n, "body"@);
    }
    let cp = child_placement(n, p);
    match field_child(n, "name"@) {
        Some(name) => {
            let c3_name = lookup_or(names.types, text_of(name));
            match field_child(n, "body"@) {
                Some(body) => "union "@ + c3_name + " "@ + translation(body, cp, names),
                None => c3_name,
            }
        },
        None => match field_child(n, "body"@) {
            Some(body) => "union "@ + translation(body, cp, names),
            None => "union"@,
        },
    }
}

/// An `enum` specifier.
pub open spec fn enum_translation(n: SyntaxNode, p: Placement, names: Names) -> Seq<char>
    decreases n, 1int,
{
    proof {
        lemma_field_child_smaller(n, "body"@);
    }
    let cp = child_placement(n, p);
    match field_child(n, "name"@) {
        Some(name) => {
            let c3_name = lookup_or(names.types, text_of(name));
            match field_child(n, "body"@) {
                Some(body) => {
                    proof {
                        assert(decreases_to!(body => body.children@));
                    }
                    let items = enumerator_items(
                        body.children@,
                        child_placement(body, cp),
                        names,
                    );
                    let block = item_block(items);
                    if has_char(text_of(body), '=') {
                        "constdef "@ + c3_name + " "@ + block
                    } else {
                        "enum "@ + c3_name + " "@ + block
                    }
                },
                None => c3_name,
            }
        },
        None => "enum"@,
    }
}

/// An enumerator, with its value where it has one.
pub open spec fn enumerator_translation(n: SyntaxNode, p: Placement, names: Names) -> Seq<char>
    decreases n, 1int,
{
    proof {
        lemma_field_child_smaller(n, "name"@);
        lemma_field_child_smaller(n, "value"@);
    }
    let cp = child_placement(n, p);
    match field_child(n, "name"@) {
        Some(name) => {
            let name_text = translation(name, cp, names);
            match field_child(n, "value"@) {
                Some(value) => name_text + " = "@ + translation(value, cp, names),
                None => name_text,
            }
        },
        None => text_of(n),
    }
}

/// The body of `main`, made to return 0 where it returns nothing.
pub open spec fn main_body(body: Seq<char>) -> Seq<char> {
    if ends_with_char(body, '}') {
        let opened = body.drop_last();
        let line_ended = if ends_with_char(opened, '\n') {
            opened
        } else {
            opened.push('\n')
        };
        line_ended + "    return 0;\n}"@
    } else {
        body
    }
}

/// A function definition.
pub open spec fn function_translation(n: SyntaxNode, p: Placement, names: Names) -> Seq<char>
    decreases n, 1int,
{
    proof {
        lemma_field_child_smaller(n, "type"@);
        lemma_field_child_smaller(n, "declarator"@);
        lemma_field_child_smaller(n, "body"@);
    }
    let cp = child_placement(n, p);
    match (field_child(n, "type"@), field_child(n, "declarator"@), field_child(n, "body"@)) {
        (Some(t), Some(d), Some(b)) => {
            let ret_type = translation(t, cp, names);
            let decl = translation(d, cp, names);
            let body = translation(b, cp, names);
            let is_main = match declared_identifier(d) {
                Some(id) => text_of(id) == "main"@,
                None => false,
            };
            let body = if is_main && ret_type == "int"@ && !contains_return(b) {
                main_body(body)
            } else {
                body
            };
            "fn "@ + ret_type + " "@ + decl + " "@ + body
        },
        _ => text_of(n),
    }
}

/// Two children, under the fields `first` and `second`, joined by `sep`.
pub open spec fn pair_translation(
    n: SyntaxNode,
    p: Placement,
    names: Names,
    first: Seq<char>,
    second: Seq<char>,
    sep: Seq<char>,
) -> Seq<char>
    decreases n, 1int,
{
    proof {
        lemma_field_child_smaller(n, first);
        lemma_field_child_smaller(n, second);
    }
    let cp = child_placement(n, p);
    match (field_child(n, first), field_child(n, second)) {
        (Some(a), Some(b)) => translation(a, cp, names) + sep + translation(b, cp, names),
        _ => text_of(n),
    }
}

/// A parameter declaration.
pub open spec fn parameter_translation(n: SyntaxNode, p: Placement, names: Names) -> Seq<char>
    decreases n, 1int,
{
    proof {
        lemma_field_child_smaller(n, "type"@);
        lemma_field_child_smaller(n, "declarator"@);
    }
    let cp = child_placement(n, p);
    match field_child(n, "type"@) {
        Some(t) => {
            let type_text = translation(t, cp, names);
            match field_child(n, "declarator"@) {
                Some(d) => type_text + " "@ + translation(d, cp, names),
                None => type_text,
            }
        },
        None => text_of(n),
    }
}

/// An expression statement, ended with `;`.
pub open spec fn expression_statement_translation(
    n: SyntaxNode,
    p: Placement,
    names: Names,
) -> Seq<char>
    decreases n, 1int,
{
    if n.children@.len() > 0 {
        let e = translation(n.children@[0], child_placement(n, p), names);
        if ends_with_char(e, ';') {
            e
        } else {
            e + ";"@
        }
    } else {
        ";"@
    }
}

/// A comma expression: two statements where it stands as a statement.
pub open spec fn comma_translation(n: SyntaxNode, p: Placement, names: Names) -> Seq<char>
    decreases n, 1int,
{
    proof {
        lemma_field_child_smaller(n, "left"@);
        lemma_field_child_smaller(n, "right"@);
    }
    let cp = child_placement(n, p);
    match (field_child(n, "left"@), field_child(n, "right"@)) {
        (Some(l), Some(r)) => {
            let left = translation(l, cp, names);
            let right = translation(r, cp, names);
            if p.in_statement {
                trim_end_char(left, ';') + ";\n"@ + right
            } else {
                "/* TODO: Comma in expression context */ ("@ + left + ", "@ + right + ")"@
            }
        },
        _ => text_of(n),
    }
}

/// A `while` loop.
pub open spec fn while_translation(n: SyntaxNode, p: Placement, names: Names) -> Seq<char>
    decreases n, 1int,
{
    proof {
        lemma_field_child_smaller(n, "condition"@);
        lemma_field_child_smaller(n, "body"@);
    }
    let cp = child_placement(n, p);
    match (field_child(n, "condition"@), field_child(n, "body"@)) {
        (Some(c), Some(b)) => "while "@ + translation(c, cp, names) + " "@ + as_block(
            b,
            translation(b, cp, names),
        ),
        _ => text_of(n),
    }
}

/// An `if` statement, with its `else` part where it has one.
pub open spec fn if_translation(n: SyntaxNode, p: Placement, names: Names) -> Seq<char>
    decreases n, 1int,
{
    proof {
        lemma_field_child_smaller(n, "condition"@);
        lemma_field_child_smaller(n, "consequence"@);
        lemma_field_child_smaller(n, "alternative"@);
    }
    let cp = child_placement(n, p);
    match (field_child(n, "condition"@), field_child(n, "consequence"@)) {
        (Some(c), Some(q)) => {
            let head = "if "@ + translation(c, cp, names) + " "@ + as_block(
                q,
                translation(q, cp, names),
            );
            match field_child(n, "alternative"@) {
                Some(a) => {
                    let alt = translation(a, cp, names);
                    let alt = if a.kind@ != "compound_statement"@ && a.kind@ != "if_statement"@ {
                        braced(alt)
                    } else {
                        alt
                    };
                    head + " else "@ + alt
                },
                None => head,
            }
        },
        _ => text_of(n),
    }
}

/// The translation of an optional child, or nothing.
pub open spec fn optional_translation(
    n: SyntaxNode,
    p: Placement,
    names: Names,
    f: Seq<char>,
) -> Seq<char>
    decreases n, 0int,
{
    proof {
        lemma_field_child_smaller(n, f);
    }
    match field_child(n, f) {
        Some(c) => translation(c, child_placement(n, p), names),
        None => Seq::empty(),
    }
}

/// A `for` loop.
pub open spec fn for_translation(n: SyntaxNode, p: Placement, names: Names) -> Seq<char>
    decreases n, 1int,
{
    proof {
        lemma_field_child_smaller(n, "body"@);
    }
    let cp = child_placement(n, p);
    match field_child(n, "body"@) {
        Some(b) => "for ("@ + optional_translation(n, p, names, "initializer"@) + "; "@
            + optional_translation(n, p, names, "condition"@) + "; "@ + optional_translation(
            n,
            p,
            names,
            "update"@,
        ) + ") "@ + as_block(b, translation(b, cp, names)),
        None => text_of(n),
    }
}

/// A binary expression, parenthesized unless its parent is a parenthesized
/// expression or it is a comparison of two operands that are not binary
/// expressions; a string literal added to something is cast to `char*`.
pub open spec fn binary_translation(n: SyntaxNode, p: Placement, names: Names) -> Seq<char>
    decreases n, 1int,
{
    proof {
        lemma_field_child_smaller(n, "left"@);
        lemma_field_child_smaller(n, "right"@);
    }
    let cp = child_placement(n, p);
    match (field_child(n, "left"@), field_child(n, "right"@)) {
        (Some(l), Some(r)) => {
            let op = match field_child(n, "operator"@) {
                Some(o) => text_of(o),
                None => Seq::empty(),
            };
            let left = translation(l, cp, names);
            let right = translation(r, cp, names);
            let left_cast = op == "+"@ && l.kind@ == "string_literal"@;
            let right_cast = op == "+"@ && !left_cast && r.kind@ == "string_literal"@;
            let left = if left_cast {
                "(char*)"@ + left
            } else {
                left
            };
            let right = if right_cast {
                "(char*)"@ + right
            } else {
                right
            };
            let parenthesize = if p.parent_parenthesized {
                false
            } else if is_comparison(op) {
                l.kind@ == "binary_expression"@ || r.kind@ == "binary_expression"@
            } else {
                true
            };
            if parenthesize {
                "("@ + left + " "@ + op + " "@ + right + ")"@
            } else {
                left + " "@ + op + " "@ + right
            }
        },
        _ => text_of(n),
    }
}

/// A `switch` statement.
pub open spec fn switch_translation(n: SyntaxNode, p: Placement, names: Names) -> Seq<char>
    decreases n, 1int,
{
    proof {
        lemma_field_child_smaller(n, "condition"@);
        lemma_field_child_smaller(n, "body"@);
    }
    let cp = child_placement(n, p);
    match (field_child(n, "condition"@), field_child(n, "body"@)) {
        (Some(c), Some(b)) => "switch "@ + translation(c, cp, names) + " "@ + translation(
            b,
            cp,
            names,
        ),
        _ => text_of(n),
    }
}

/// A `case` label with its statements.
pub open spec fn case_translation(n: SyntaxNode, p: Placement, names: Names) -> Seq<char>
    decreases n, 1int,
{
    proof {
        lemma_field_child_smaller(n, "value"@);
        lemma_colon_index(n.children@);
        assert(decreases_to!(n => n.children@));
    }
    let cp = child_placement(n, p);
    match field_child(n, "value"@) {
        Some(v) => {
            let value = translation(v, cp, names);
            match colon_index(n.children@) {
                Some(j) => {
                    let ss = n.children@.subrange(j + 1, n.children@.len() as int);
                    if !has_real_statement(ss) {
                        "case "@ + value + ":"@ + spaced_nonblank(ss, cp, names)
                    } else {
                        "case "@ + value + ":\n"@ + label_body(ss, cp, names).0
                    }
                },
                None => "case "@ + value + ":"@,
            }
        },
        None => text_of(n),
    }
}

/// A `default` label with its statements.
pub open spec fn default_translation(n: SyntaxNode, p: Placement, names: Names) -> Seq<char>
    decreases n, 1int,
{
    proof {
        lemma_colon_index(n.children@);
        assert(decreases_to!(n => n.children@));
    }
    match colon_index(n.children@) {
        Some(j) => {
            let ss = n.children@.subrange(j + 1, n.children@.len() as int);
            let body = label_body(ss, child_placement(n, p), names).0;
            if body.len() == 0 {
                "default:"@
            } else {
                "default:\n"@ + body
            }
        },
        None => "default:"@,
    }
}

/// A declarator that wraps another, with `prefix` before the inner one's text.
pub open spec fn wrapped_translation(
    n: SyntaxNode,
    p: Placement,
    names: Names,
    prefix: Seq<char>,
) -> Seq<char>
    decreases n, 1int,
{
    proof {
        lemma_field_child_smaller(n, "declarator"@);
    }
    match field_child(n, "declarator"@) {
        Some(d) => prefix + translation(d, child_placement(n, p), names),
        None => text_of(n),
    }
}

/// A pointer expression (`*p`, `&x`): its operator and operand.
pub open spec fn pointer_expression_translation(
    n: SyntaxNode,
    p: Placement,
    names: Names,
) -> Seq<char>
    decreases n, 1int,
{
    if n.children@.len() == 2 {
        let cp = child_placement(n, p);
        translation(n.children@[0], cp, names) + translation(n.children@[1], cp, names)
    } else {
        text_of(n)
    }
}

/// An initializing declarator: a pointer initialized from an array is
/// initialized from the array's address.
pub open spec fn init_declarator_translation(
    n: SyntaxNode,
    p: Placement,
    names: Names,
) -> Seq<char>
    decreases n, 1int,
{
    proof {
        lemma_field_child_smaller(n, "declarator"@);
        lemma_field_child_smaller(n, "value"@);
    }
    let cp = child_placement(n, p);
    match (field_child(n, "declarator"@), field_child(n, "value"@)) {
        (Some(d), Some(v)) => {
            let value = translation(v, cp, names);
            let from_array = declares_pointer(d) && match raw_identifier_name(v) {
                Some(a) => names.arrays.contains(a),
                None => false,
            };
            let value = if from_array {
                "&"@ + value
            } else {
                value
            };
            translation(d, cp, names) + " = "@ + value
        },
        _ => text_of(n),
    }
}

/// A declaration (or a field declaration): one C3 declaration per declarator,
/// each with the type written before the declarators.
pub open spec fn declaration_translation(n: SyntaxNode, p: Placement, names: Names) -> Seq<char>
    decreases n, 1int,
{
    proof {
        lemma_field_index(n.children@, "declarator"@);
        assert(decreases_to!(n => n.children@));
    }
    let cp = child_placement(n, p);
    match field_index(n.children@, "declarator"@) {
        None => trim(replace_all(spaced(n.children@, cp, names, true, None), " ,"@, ","@)),
        Some(i) => {
            let bound = n.children@[i].start_byte;
            let type_part = trim(
                replace_all(spaced(n.children@, cp, names, false, Some(bound)), " ,"@, ","@),
            );
            join(declarator_lines(n.children@, cp, names, type_part), "\n    "@)
        },
    }
}

/// A `typedef`: an alias of the type, with a star for each pointer level.
pub open spec fn type_definition_translation(
    n: SyntaxNode,
    p: Placement,
    names: Names,
) -> Seq<char>
    decreases n, 1int,
{
    proof {
        lemma_field_child_smaller(n, "type"@);
        lemma_field_child_smaller(n, "declarator"@);
    }
    let cp = child_placement(n, p);
    match (field_child(n, "type"@), field_child(n, "declarator"@)) {
        (Some(t), Some(d)) => {
            let alias_name = match declared_identifier(d) {
                Some(id) => lookup_or(names.types, text_of(id)),
                None => translation(d, cp, names),
            };
            "alias "@ + alias_name + " = "@ + translation(t, cp, names) + repeat(
                "*"@,
                pointer_depth(d),
            ) + ";"@
        },
        _ => text_of(n),
    }
}

// ---------------------------------------------------------------------------
// Properties of the translation
// ---------------------------------------------------------------------------

/// The kinds that the properties below tell apart are different words.
pub(crate) proof fn lemma_kinds_differ()
    ensures
        "function_definition"@ != "translation_unit"@,
        "function_definition"@ != "struct_specifier"@,
        "function_definition"@ != "enum_specifier"@,
        "function_definition"@ != "union_specifier"@,
        "function_definition"@ != "enumerator"@,
        "function_definition"@ != "field_declaration_list"@,
        "function_definition"@ != "compound_statement"@,
        "compound_statement"@ != "translation_unit"@,
        "compound_statement"@ != "struct_specifier"@,
        "compound_statement"@ != "enum_specifier"@,
        "compound_statement"@ != "union_specifier"@,
        "compound_statement"@ != "enumerator"@,
        "compound_statement"@ != "field_declaration_list"@,
        "struct_specifier"@ != "translation_unit"@,
{
    reveal_strlit("function_definition");
    reveal_strlit("translation_unit");
    reveal_strlit("struct_specifier");
    reveal_strlit("enum_specifier");
    reveal_strlit("union_specifier");
    reveal_strlit("enumerator");
    reveal_strlit("field_declaration_list");
    reveal_strlit("compound_statement");
    assert("function_definition"@.len() == 19);
    assert("translation_unit"@.len() == 16);
    assert("struct_specifier"@.len() == 16);
    assert("enum_specifier"@.len() == 14);
    assert("union_specifier"@.len() == 15);
    assert("enumerator"@.len() == 10);
    assert("field_declaration_list"@.len() == 22);
    assert("compound_statement"@.len() == 18);
    assert("struct_specifier"@[0] != "translation_unit"@[0]);
}

proof fn lemma_ends_with_suffix(a: Seq<char>, b: Seq<char>)
    ensures
        ends_with(a + b, b),
{
    assert((a + b).skip((a + b).len() - b.len()) =~= b);
}

proof fn lemma_unit_lines_end(cs: Seq<SyntaxNode>, p: Placement, names: Names)
    ensures
        unit_lines(cs, p, names).len() == 0 || unit_lines(cs, p, names).last() == '\n',
    decreases cs.len(),
{
    reveal_strlit("\n");
    if cs.len() > 0 {
        lemma_unit_lines_end(cs.subrange(0, cs.len() - 1), p, names);
    }
}

/// The C3 text of a translation unit is a sequence of whole lines: where it
/// is not empty, it ends with a line break.
pub proof fn translation_unit_ends_with_line_break(n: SyntaxNode, p: Placement, names: Names)
    requires
        n.kind@ == "translation_unit"@,
    ensures
        translation(n, p, names).len() == 0 || translation(n, p, names).last() == '\n',
{
    lemma_unit_lines_end(n.children@, child_placement(n, p), names);
}

/// A `main` function that returns `int` and has no `return` statement
/// returns 0 in C3: its text ends with `return 0;` and the closing brace.
pub proof fn main_returns_zero(n: SyntaxNode, p: Placement, names: Names)
    requires
        n.kind@ == "function_definition"@,
        field_child(n, "type"@) matches Some(t) && translation(t, child_placement(n, p), names)
            == "int"@,
        field_child(n, "declarator"@) matches Some(d) && (declared_identifier(d) matches Some(
            id,
        ) && text_of(id) == "main"@),
        field_child(n, "body"@) matches Some(b) && b.kind@ == "compound_statement"@
            && !contains_return(b),
    ensures
        ends_with(translation(n, p, names), "    return 0;\n}"@),
{
    lemma_kinds_differ();
    reveal_strlit("}");
    let cp = child_placement(n, p);
    let b = field_child(n, "body"@)->0;
    let body = translation(b, cp, names);
    assert(body == "{\n"@ + block_lines(b.children@, child_placement(b, cp), names) + "}"@);
    assert(ends_with_char(body, '}'));
    let opened = body.drop_last();
    let line_ended = if ends_with_char(opened, '\n') {
        opened
    } else {
        opened.push('\n')
    };
    let t = field_child(n, "type"@)->0;
    let d = field_child(n, "declarator"@)->0;
    let head = "fn "@ + translation(t, cp, names) + " "@ + translation(d, cp, names) + " "@;
    assert(translation(n, p, names) == head + (line_ended + "    return 0;\n}"@));
    assert(head + (line_ended + "    return 0;\n}"@) =~= (head + line_ended)
        + "    return 0;\n}"@);
    lemma_ends_with_suffix(head + line_ended, "    return 0;\n}"@);
}

proof fn lemma_trim_end_no_trailing_white(s: Seq<char>)
    ensures
        trim_end(s).len() == 0 || !white_space(trim_end(s).last()),
    decreases s.len(),
{
    if s.len() > 0 && white_space(s.last()) {
        lemma_trim_end_no_trailing_white(s.drop_last());
    }
}

/// The body of a `case` or `default` label never ends with whitespace.
pub proof fn label_body_has_no_trailing_whitespace(ss: Seq<SyntaxNode>, p: Placement, names: Names)
    ensures
        label_body(ss, p, names).0.len() == 0 || !white_space(label_body(ss, p, names).0.last()),
{
    let lines = label_lines(ss, p, names, skipped_break(ss));
    let all = if falls_through(ss) {
        lines + "    nextcase;\n"@
    } else {
        lines
    };
    lemma_trim_end_no_trailing_white(all);
}

// ---------------------------------------------------------------------------
// The dimensions of an array declarator, position by position
// ---------------------------------------------------------------------------

/// How many array declarators there are on the way inward from `a`, each
/// the `declarator` of the one before.
pub open spec fn array_depth(a: SyntaxNode) -> nat
    decreases a,
{
    proof {
        lemma_field_child_smaller(a, "declarator"@);
    }
    if a.kind@ == "array_declarator"@ {
        match field_child(a, "declarator"@) {
            Some(d) => 1 + array_depth(d),
            None => 1,
        }
    } else {
        0
    }
}

/// One step inward: the node under the field `declarator`, where there is
/// one; otherwise the node itself.
pub open spec fn step_inward(x: SyntaxNode) -> SyntaxNode {
    match field_child(x, "declarator"@) {
        Some(d) => d,
        None => x,
    }
}

/// The node `i` steps inward from `a`.
pub open spec fn inward(a: SyntaxNode, i: nat) -> SyntaxNode
    decreases i,
{
    if i == 0 {
        a
    } else {
        step_inward(inward(a, (i - 1) as nat))
    }
}

/// The C3 text of the size of an array declarator, empty where it has none.
pub open spec fn size_text(x: SyntaxNode, names: Names) -> Seq<char> {
    match field_child(x, "size"@) {
        Some(s) => translation(s, child_placement(x, root_placement()), names),
        None => Seq::empty(),
    }
}

proof fn lemma_inward_step(a: SyntaxNode, i: nat)
    ensures
        inward(a, i + 1) == inward(step_inward(a), i),
    decreases i,
{
    assert(inward(a, i + 1) == step_inward(inward(a, i)));
    if i > 0 {
        lemma_inward_step(a, (i - 1) as nat);
        assert(inward(step_inward(a), i) == step_inward(inward(step_inward(a), (i - 1) as nat)));
    } else {
        assert(inward(a, 0) == a);
        assert(inward(step_inward(a), 0) == step_inward(a));
    }
}

/// The dimensions of an array declarator, position by position: there is
/// one for each array declarator on the way inward; the one `i` steps inward
/// stands `i` places from the end, and is the C3 text of its size (empty
/// where it has none); and the node where they end is the node that many
/// steps inward. For `int m[2][3];` the dimensions are `2` and `3`, and they
/// end at the identifier `m`.
pub proof fn array_dimensions_by_position(a: SyntaxNode, names: Names)
    ensures
        array_dimensions(a, names).len() == array_depth(a),
        forall|i: nat|
            i < array_depth(a) ==> (#[trigger] inward(a, i)).kind@ == "array_declarator"@
                && array_dimensions(a, names)[array_depth(a) - 1 - i] == size_text(
                inward(a, i),
                names,
            ),
        dimensions_end(a) == inward(a, array_depth(a)),
    decreases a,
{
    lemma_field_child_smaller(a, "declarator"@);
    if a.kind@ == "array_declarator"@ {
        let dims = array_dimensions(a, names);
        match field_child(a, "declarator"@) {
            Some(d) => {
                array_dimensions_by_position(d, names);
                assert forall|i: nat| i < array_depth(a) implies (#[trigger] inward(a, i)).kind@
                    == "array_declarator"@ && dims[array_depth(a) - 1 - i] == size_text(
                    inward(a, i),
                    names,
                ) by {
                    if i > 0 {
                        lemma_inward_step(a, (i - 1) as nat);
                        assert(inward(d, (i - 1) as nat).kind@ == "array_declarator"@);
                    }
                }
                lemma_inward_step(a, array_depth(d));
            },
            None => {
                assert(inward(a, 0) == a);
                assert(inward(a, 1) == step_inward(inward(a, 0)));
                assert forall|i: nat| i < array_depth(a) implies (#[trigger] inward(a, i)).kind@
                    == "array_declarator"@ && dims[array_depth(a) - 1 - i] == size_text(
                    inward(a, i),
                    names,
                ) by {
                    assert(i == 0);
                }
            },
        }
    }
}

} // verus!
