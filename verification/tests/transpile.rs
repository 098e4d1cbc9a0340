use c3_transpiler::parse::parse_c;
use c3_transpiler::populate::populate_symbols;
use c3_transpiler::symbols::SymbolTable;
use c3_transpiler::syntax::SyntaxNode;
use c3_transpiler::syntax::{extract_declarator_identifier, find_array_declarator};
use c3_transpiler::transpile::{
    get_array_dimensions, transpile_const_enum, transpile_node, transpile_switch_case_statements,
    translate_tree,
};
use c3_transpiler::translation::Placement;

fn leaf(kind: &str, field: Option<&str>, text: &str) -> SyntaxNode {
    SyntaxNode::new(kind, field, Some(text), 0, text.len(), Vec::new())
}

fn node(kind: &str, field: Option<&str>, text: &str, children: Vec<SyntaxNode>) -> SyntaxNode {
    SyntaxNode::new(kind, field, Some(text), 0, text.len(), children)
}

fn at(kind: &str, field: Option<&str>, text: &str, start: usize) -> SyntaxNode {
    SyntaxNode::new(kind, field, Some(text), start, start + text.len(), Vec::new())
}

fn top() -> Placement {
    Placement { parent_parenthesized: false, in_statement: false }
}

fn show(n: &SyntaxNode, p: Placement, symbols: &SymbolTable) -> String {
    transpile_node(n, p, symbols).iter().collect()
}

fn sum(op: &str, left: SyntaxNode, right: SyntaxNode) -> SyntaxNode {
    node(
        "binary_expression",
        None,
        "",
        vec![left, leaf(op, Some("operator"), op), right],
    )
}

#[test]
fn binary_expression_is_parenthesized() {
    let t = SymbolTable::new();
    let e = sum("+", leaf("identifier", Some("left"), "a"), leaf("identifier", Some("right"), "b"));
    assert_eq!(show(&e, top(), &t), "(a + b)");
    let inside = Placement { parent_parenthesized: true, in_statement: false };
    assert_eq!(show(&e, inside, &t), "a + b");
}

#[test]
fn simple_comparison_is_not_parenthesized() {
    let t = SymbolTable::new();
    let e = sum("<", leaf("identifier", Some("left"), "a"), leaf("number_literal", Some("right"), "3"));
    assert_eq!(show(&e, top(), &t), "a < 3");
}

#[test]
fn string_literal_added_is_cast() {
    let t = SymbolTable::new();
    let e = sum(
        "+",
        leaf("string_literal", Some("left"), "\"abc\""),
        leaf("identifier", Some("right"), "n"),
    );
    assert_eq!(show(&e, top(), &t), "((char*)\"abc\" + n)");
    let e = sum(
        "+",
        leaf("identifier", Some("left"), "n"),
        leaf("string_literal", Some("right"), "\"abc\""),
    );
    assert_eq!(show(&e, top(), &t), "(n + (char*)\"abc\")");
}

#[test]
fn comma_in_statement_becomes_two_statements() {
    let t = SymbolTable::new();
    let comma = node(
        "comma_expression",
        None,
        "a, b",
        vec![
            leaf("identifier", Some("left"), "a"),
            leaf(",", None, ","),
            leaf("identifier", Some("right"), "b"),
        ],
    );
    let stmt = node("expression_statement", None, "a, b;", vec![comma, leaf(";", None, ";")]);
    assert_eq!(show(&stmt, top(), &t), "a;\nb;");
}

#[test]
fn comma_in_expression_is_marked() {
    let t = SymbolTable::new();
    let comma = node(
        "comma_expression",
        None,
        "a, b",
        vec![
            leaf("identifier", Some("left"), "a"),
            leaf(",", None, ","),
            leaf("identifier", Some("right"), "b"),
        ],
    );
    assert_eq!(show(&comma, top(), &t), "/* TODO: Comma in expression context */ (a, b)");
}

#[test]
fn includes() {
    let t = SymbolTable::new();
    let inc = |path: &str| {
        node(
            "preproc_include",
            None,
            "",
            vec![leaf("#include", None, "#include"), leaf("system_lib_string", Some("path"), path)],
        )
    };
    assert_eq!(show(&inc("<stdlib.h>"), top(), &t), "import libc;");
    assert_eq!(show(&inc("<string.h>"), top(), &t), "import libc;");
    assert_eq!(show(&inc("<math.h>"), top(), &t), "// TODO: Find C3 equivalent for <math.h>");
    assert_eq!(show(&inc("\"util.h\""), top(), &t), "import util;");
    assert_eq!(show(&inc("\"util\""), top(), &t), "import util;");
    assert!(show(&inc("<stdio.h>"), top(), &t).starts_with("extern fn int scanf(char* format, ...);\n"));
    assert!(show(&inc("<stdio.h>"), top(), &t).ends_with("extern fn int rename(char* old_name, char* new_name);"));
}

#[test]
fn types_are_renamed() {
    let mut t = SymbolTable::new();
    t.register_type("my_point");
    assert_eq!(show(&leaf("primitive_type", None, "unsigned int"), top(), &t), "uint");
    assert_eq!(show(&leaf("type_identifier", None, " size_t "), top(), &t), "usz");
    assert_eq!(show(&leaf("type_identifier", None, "my_point"), top(), &t), "MyPoint");
    assert_eq!(show(&leaf("type_identifier", None, "other"), top(), &t), "other");
    assert_eq!(show(&leaf("type_qualifier", None, "const"), top(), &t), "");
}

#[test]
fn identifiers_are_renamed_functions_first() {
    let mut t = SymbolTable::new();
    t.register_variable("Thing");
    t.register_function("Thing");
    t.register_constant("limit");
    assert_eq!(show(&leaf("identifier", None, "Thing"), top(), &t), "thing");
    assert_eq!(show(&leaf("field_identifier", None, "limit"), top(), &t), "LIMIT");
    assert_eq!(show(&leaf("identifier", None, "other"), top(), &t), "other");
    assert_eq!(show(&leaf("number_literal", None, "limit"), top(), &t), "limit");
}

#[test]
fn const_enum_declaration() {
    let t = SymbolTable::new();
    let d = node("declaration", None, "const Color { RED, GREEN , }", Vec::new());
    assert_eq!(show(&d, top(), &t), "enum Color {\n    RED,\n    GREEN\n}");
}

#[test]
fn main_without_return_returns_zero() {
    let t = SymbolTable::new();
    let params = node("parameter_list", Some("parameters"), "()", vec![leaf("(", None, "("), leaf(")", None, ")")]);
    let decl = node(
        "function_declarator",
        Some("declarator"),
        "main()",
        vec![leaf("identifier", Some("declarator"), "main"), params],
    );
    let body = node("compound_statement", Some("body"), "{}", vec![leaf("{", None, "{"), leaf("}", None, "}")]);
    let f = node(
        "function_definition",
        None,
        "int main() {}",
        vec![leaf("primitive_type", Some("type"), "int"), decl, body],
    );
    assert_eq!(show(&f, top(), &t), "fn int main () {\n    return 0;\n}");
}

#[test]
fn pointer_typedef() {
    let t = SymbolTable::new();
    let d = node(
        "pointer_declarator",
        Some("declarator"),
        "**name",
        vec![
            leaf("*", None, "*"),
            node(
                "pointer_declarator",
                Some("declarator"),
                "*name",
                vec![leaf("*", None, "*"), leaf("type_identifier", Some("declarator"), "name")],
            ),
        ],
    );
    let td = node(
        "type_definition",
        None,
        "typedef int **name;",
        vec![leaf("typedef", None, "typedef"), leaf("primitive_type", Some("type"), "int"), d, leaf(";", None, ";")],
    );
    assert_eq!(show(&td, top(), &t), "alias name = int**;");
}

#[test]
fn array_declaration() {
    let t = SymbolTable::new();
    let arr = SyntaxNode::new(
        "array_declarator",
        Some("declarator"),
        Some("xs[4]"),
        4,
        9,
        vec![
            at("identifier", Some("declarator"), "xs", 4),
            at("[", None, "[", 6),
            at("number_literal", Some("size"), "4", 7),
            at("]", None, "]", 8),
        ],
    );
    let d = SyntaxNode::new(
        "declaration",
        None,
        Some("int xs[4];"),
        0,
        10,
        vec![at("primitive_type", Some("type"), "int", 0), arr, at(";", None, ";", 9)],
    );
    assert_eq!(show(&d, top(), &t), "int[4] xs @noinit;");
}

#[test]
fn case_falls_through_or_breaks() {
    let t = SymbolTable::new();
    let stmt = || {
        node("expression_statement", None, "x;", vec![leaf("identifier", None, "x"), leaf(";", None, ";")])
    };
    let falls = node(
        "case_statement",
        None,
        "case 1: x;",
        vec![leaf("case", None, "case"), leaf("number_literal", Some("value"), "1"), leaf(":", None, ":"), stmt()],
    );
    assert_eq!(show(&falls, top(), &t), "case 1:\n    x;\n    nextcase;");
    let breaks = node(
        "case_statement",
        None,
        "case 1: x; break;",
        vec![
            leaf("case", None, "case"),
            leaf("number_literal", Some("value"), "1"),
            leaf(":", None, ":"),
            stmt(),
            node("break_statement", None, "break;", vec![leaf("break", None, "break"), leaf(";", None, ";")]),
        ],
    );
    assert_eq!(show(&breaks, top(), &t), "case 1:\n    x;");
    let empty = node(
        "case_statement",
        None,
        "case 2:",
        vec![leaf("case", None, "case"), leaf("number_literal", Some("value"), "2"), leaf(":", None, ":")],
    );
    assert_eq!(show(&empty, top(), &t), "case 2:");
    let default = node("default_statement", None, "default:", vec![leaf("default", None, "default"), leaf(":", None, ":")]);
    assert_eq!(show(&default, top(), &t), "default:");
}

#[test]
fn populate_then_translate_struct() {
    let body = node(
        "field_declaration_list",
        Some("body"),
        "{}",
        vec![leaf("{", None, "{"), leaf("}", None, "}")],
    );
    let s = node(
        "struct_specifier",
        None,
        "struct my_point {}",
        vec![leaf("struct", None, "struct"), leaf("type_identifier", Some("name"), "my_point"), body],
    );
    let unit = node("translation_unit", None, "struct my_point {};", vec![s, leaf(";", None, ";")]);
    let mut t = SymbolTable::new();
    populate_symbols(&unit, &mut t);
    assert!(t.types.contains_key(&"my_point".chars().collect()));
    assert_eq!(translate_tree(&unit), "struct MyPoint @cname(\"my_point\") {\n}\n");
}

#[test]
fn parsed_declaration() {
    let parsed = parse_c("int x;").ok().expect("parses");
    assert_eq!(parsed.sexp, "(translation_unit (declaration type: (primitive_type) declarator: (identifier)))");
    assert_eq!(translate_tree(&parsed.tree), "int x @noinit;\n");
}

#[test]
fn parsed_include_and_define() {
    let parsed = parse_c("#include <stdlib.h>\n#define max_len 10\n").ok().expect("parses");
    assert_eq!(translate_tree(&parsed.tree), "import libc;\nalias MAX_LEN = 10;\n");
}

#[test]
fn parsed_struct() {
    let parsed = parse_c("struct point { int x; };").ok().expect("parses");
    assert_eq!(
        translate_tree(&parsed.tree),
        "struct Point @cname(\"point\") {\n    int x @noinit;\n}\n"
    );
}

#[test]
fn parsed_main() {
    let parsed = parse_c("int main() { int count = 0; }").ok().expect("parses");
    assert_eq!(
        translate_tree(&parsed.tree),
        "fn int main () {\n    int count = 0;\n    return 0;\n}\n"
    );
}

#[test]
fn parsed_pointer_from_array_takes_address() {
    let parsed = parse_c("int xs[3];\nint *p = xs;\n").ok().expect("parses");
    assert_eq!(translate_tree(&parsed.tree), "int[3] xs @noinit;\nint *p = &xs;\n");
}

#[test]
fn parsed_if_else() {
    let parsed = parse_c("int f(int a) { if (a > 0) return a; else return 0; }").ok().expect("parses");
    assert_eq!(
        translate_tree(&parsed.tree),
        "fn int f (int a) {\n    if (a > 0) {\n    return a;\n} else {\n    else return 0;\n}\n}\n"
    );
}

#[test]
fn parsed_while_and_names() {
    let parsed = parse_c("void Run(int Count) { while (Count) Count--; }").ok().expect("parses");
    assert_eq!(
        translate_tree(&parsed.tree),
        "fn void run (int count) {\n    while (count) {\n    count --;\n}\n}\n"
    );
}

#[test]
fn parsed_typedef_and_enum() {
    let parsed = parse_c("typedef unsigned long my_size;\nenum color { RED, GREEN = 2 };\n")
        .ok()
        .expect("parses");
    assert_eq!(
        translate_tree(&parsed.tree),
        "alias MySize = unsigned long;\nconstdef Color {\n    RED,\n    GREEN = 2\n}\n"
    );
}

#[test]
fn case_ending_in_return_does_not_fall_through() {
    let t = SymbolTable::new();
    let ret = node(
        "return_statement",
        None,
        "return 1;",
        vec![leaf("return", None, "return"), leaf("number_literal", None, "1"), leaf(";", None, ";")],
    );
    let c = node(
        "case_statement",
        None,
        "case 3: return 1;",
        vec![leaf("case", None, "case"), leaf("number_literal", Some("value"), "3"), leaf(":", None, ":"), ret],
    );
    let out = show(&c, top(), &t);
    assert!(!out.contains("nextcase"));
    assert!(out.starts_with("case 3:\n    return"));
}

#[test]
fn break_before_a_comment_is_left_out() {
    let t = SymbolTable::new();
    let c = node(
        "case_statement",
        None,
        "case 1: x; break; // done",
        vec![
            leaf("case", None, "case"),
            leaf("number_literal", Some("value"), "1"),
            leaf(":", None, ":"),
            node("expression_statement", None, "x;", vec![leaf("identifier", None, "x"), leaf(";", None, ";")]),
            node("break_statement", None, "break;", vec![leaf("break", None, "break"), leaf(";", None, ";")]),
            leaf("comment", None, "// done"),
        ],
    );
    assert_eq!(show(&c, top(), &t), "case 1:\n    x;\n    // done");
}

#[test]
fn parsed_switch_case_bodies() {
    let parsed = parse_c("void f(int k) { switch (k) { case 1: k++; case 2: k--; break; default: k = 0; } }")
        .ok()
        .expect("parses");
    let out = translate_tree(&parsed.tree);
    assert!(out.contains("case 1:\n    k ++;\n    nextcase;"));
    assert!(out.contains("case 2:\n    k --;\n"));
    assert!(!out.contains("break"));
}

#[test]
fn parsed_two_dimensional_array() {
    let parsed = parse_c("int m[2][3];").ok().expect("parses");
    assert_eq!(translate_tree(&parsed.tree), "int[2][3] m @noinit;\n");
}

fn string(v: &[char]) -> String {
    v.iter().collect()
}

#[test]
fn switch_case_statements_directly() {
    let t = SymbolTable::new();
    let x = || node("expression_statement", None, "x;", vec![leaf("identifier", None, "x"), leaf(";", None, ";")]);
    let brk = || node("break_statement", None, "break;", vec![leaf("break", None, "break"), leaf(";", None, ";")]);
    let head = || vec![leaf("case", None, "case"), leaf("number_literal", Some("value"), "1"), leaf(":", None, ":")];
    let mut falls = head();
    falls.push(x());
    let (body, through) = transpile_switch_case_statements(&falls, 3, top(), &t);
    assert_eq!((string(&body), through), ("    x;\n    nextcase;".to_string(), true));
    let mut breaks = head();
    breaks.push(x());
    breaks.push(brk());
    breaks.push(leaf("comment", None, "// end"));
    let (body, through) = transpile_switch_case_statements(&breaks, 3, top(), &t);
    assert_eq!((string(&body), through), ("    x;\n    // end".to_string(), false));
    let (body, through) = transpile_switch_case_statements(&head(), 3, top(), &t);
    assert_eq!((string(&body), through), (String::new(), false));
}

#[test]
fn array_dimensions_directly() {
    let t = SymbolTable::new();
    let parsed = parse_c("int m[2][3];").ok().expect("parses");
    let decl = &parsed.tree.children[0];
    let outer = decl.children.iter().find(|c| c.kind.iter().collect::<String>() == "array_declarator").expect("array");
    let (dims, end) = get_array_dimensions(outer, &t);
    let dims: Vec<String> = dims.iter().map(|d| string(d)).collect();
    assert_eq!(dims, vec!["2", "3"]);
    let end = end.expect("ends at a node");
    assert_eq!(string(&end.kind), "identifier");
    assert_eq!(string(end.text.as_ref().expect("text")), "m");
}

#[test]
fn declarator_queries_find_nodes_below() {
    let parsed = parse_c("int *p[4];").ok().expect("parses");
    let decl = &parsed.tree.children[0];
    let id = extract_declarator_identifier(decl).expect("declares an identifier");
    assert_eq!(string(&id.kind), "identifier");
    assert_eq!(string(id.text.as_ref().expect("text")), "p");
    let arr = find_array_declarator(decl).expect("has an array declarator");
    assert_eq!(string(&arr.kind), "array_declarator");
    let plain = parse_c("int *q;").ok().expect("parses");
    assert!(find_array_declarator(&plain.tree).is_none());
    let ident = leaf("type_identifier", None, "T");
    assert!(std::ptr::eq(extract_declarator_identifier(&ident).expect("itself"), &ident));
}

#[test]
fn const_enum_is_always_an_enum() {
    let t = SymbolTable::new();
    let d = node("declaration", None, "const Color { RED, GREEN };", Vec::new());
    assert_eq!(
        transpile_const_enum(&d, &t).map(|v| string(&v)),
        Some("enum Color {\n    RED,\n    GREEN\n}".to_string())
    );
    let with_value = node("declaration", None, "const Color { RED = 1 };", Vec::new());
    assert_eq!(transpile_const_enum(&with_value, &t), None);
    let empty = node("declaration", None, "const Empty { };", Vec::new());
    assert_eq!(transpile_const_enum(&empty, &t).map(|v| string(&v)), Some("enum Empty {\n}".to_string()));
}

#[test]
fn parsed_tree_is_the_parse() {
    let parsed = parse_c("int x;").ok().expect("parses");
    let root = &parsed.tree;
    assert_eq!(string(&root.kind), "translation_unit");
    assert_eq!(root.children.len(), 1);
    let decl = &root.children[0];
    assert_eq!(string(&decl.kind), "declaration");
    let kinds: Vec<String> = decl.children.iter().map(|c| string(&c.kind)).collect();
    assert_eq!(kinds, vec!["primitive_type", "identifier", ";"]);
    let fields: Vec<Option<String>> = decl.children.iter().map(|c| c.field.as_ref().map(|f| string(f))).collect();
    assert_eq!(fields, vec![Some("type".to_string()), Some("declarator".to_string()), None]);
    assert_eq!((decl.start_byte, decl.end_byte), (0, 6));
}
