use c3_transpiler::naming::{to_c3_type_name, to_c3_variable_name};
use c3_transpiler::parse::parse_c;
use c3_transpiler::populate::populate_symbols;
use c3_transpiler::symbols::SymbolTable;
use c3_transpiler::transpile::translate_tree;

fn chars(s: &str) -> Vec<char> {
    s.chars().collect()
}

fn looked_up(found: Option<&Vec<char>>) -> Option<String> {
    found.map(|v| v.iter().collect())
}

#[test]
fn populate_records_declared_names() {
    let parsed = parse_c(
        "#define BufSize 8\nstruct my_node { int v; };\ntypedef int my_int;\nint Helper(int Value) { int Local = 0; return Local; }\nconst int limit = 3;\nint table[4];\n",
    )
    .ok()
    .expect("parses");
    let mut t = SymbolTable::new();
    populate_symbols(&parsed.tree, &mut t);
    assert_eq!(looked_up(t.constants.get(&chars("BufSize"))), Some("BUF_SIZE".to_string()));
    assert_eq!(looked_up(t.types.get(&chars("my_node"))), Some("MyNode".to_string()));
    assert_eq!(looked_up(t.types.get(&chars("my_int"))), Some("MyInt".to_string()));
    assert_eq!(looked_up(t.functions.get(&chars("Helper"))), Some("helper".to_string()));
    assert_eq!(looked_up(t.variables.get(&chars("Value"))), Some("value".to_string()));
    assert_eq!(looked_up(t.variables.get(&chars("Local"))), Some("local".to_string()));
    assert_eq!(looked_up(t.constants.get(&chars("limit"))), Some("LIMIT".to_string()));
    assert_eq!(looked_up(t.variables.get(&chars("limit"))), None);
    assert!(t.arrays.contains(&chars("table")));
    assert!(!t.arrays.contains(&chars("Local")));
}

#[test]
fn populate_keeps_recorded_names() {
    let parsed = parse_c("struct point { int x; };").ok().expect("parses");
    let mut t = SymbolTable::new();
    t.types.insert_new(chars("point"), chars("Custom"));
    populate_symbols(&parsed.tree, &mut t);
    assert_eq!(looked_up(t.types.get(&chars("point"))), Some("Custom".to_string()));
}

#[test]
fn translation_unit_is_whole_lines() {
    let parsed = parse_c("int a;\nint b;").ok().expect("parses");
    let out = translate_tree(&parsed.tree);
    assert!(out.ends_with('\n'));
    assert_eq!(out, "int a @noinit;\nint b @noinit;\n");
}

#[test]
fn parse_keeps_source_texts() {
    let parsed = parse_c("int é;").ok().expect("parses");
    let root_text: String = parsed.tree.text.as_ref().expect("valid UTF-8").iter().collect();
    assert_eq!(root_text, "int é;");
    assert!(parsed.tree.field.is_none());
    assert_eq!(parsed.tree.start_byte, 0);
}

#[test]
fn every_entry_is_named_by_its_kind() {
    let parsed = parse_c(
        "typedef struct ListNode { int Len; } ListNode;\nenum mode { ModeA };\nint Grid[2][3];\nvoid Walk(int Step) { int Rows[4]; }\n",
    )
    .ok()
    .expect("parses");
    let mut t = SymbolTable::new();
    populate_symbols(&parsed.tree, &mut t);
    for ty in ["ListNode", "mode"] {
        assert_eq!(looked_up(t.types.get(&chars(ty))), Some(to_c3_type_name(ty)));
    }
    assert_eq!(looked_up(t.functions.get(&chars("Walk"))), Some(to_c3_variable_name("Walk")));
    for v in ["Grid", "Step", "Rows"] {
        assert_eq!(looked_up(t.variables.get(&chars(v))), Some(to_c3_variable_name(v)));
    }
    assert_eq!(looked_up(t.constants.get(&chars("ModeA"))), Some("MODE_A".to_string()));
    for a in ["Grid", "Rows"] {
        assert!(t.arrays.contains(&chars(a)));
        assert!(t.variables.contains_key(&chars(a)));
    }
}

#[test]
fn parse_succeeds_on_any_source() {
    for source in ["", "@@ ??? }{", "int", "\u{0}\n#"] {
        let parsed = parse_c(source);
        assert!(parsed.is_ok());
    }
}
