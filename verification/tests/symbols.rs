use c3_transpiler::symbols::SymbolTable;

fn chars(s: &str) -> Vec<char> {
    s.chars().collect()
}

fn looked_up(found: Option<&Vec<char>>) -> Option<String> {
    found.map(|v| v.iter().collect())
}

#[test]
fn register_type_records_c3_name() {
    let mut t = SymbolTable::new();
    t.register_type("my_point");
    assert_eq!(looked_up(t.types.get(&chars("my_point"))), Some("MyPoint".to_string()));
    assert!(!t.functions.contains_key(&chars("my_point")));
}

#[test]
fn register_keeps_first_name() {
    let mut t = SymbolTable::new();
    t.register_variable("Total");
    t.register_variable("Total");
    assert_eq!(looked_up(t.variables.get(&chars("Total"))), Some("total".to_string()));
}

#[test]
fn register_function_and_constant() {
    let mut t = SymbolTable::new();
    t.register_function("DoWork");
    t.register_constant("max_size");
    assert_eq!(looked_up(t.functions.get(&chars("DoWork"))), Some("doWork".to_string()));
    assert_eq!(looked_up(t.constants.get(&chars("max_size"))), Some("MAX_SIZE".to_string()));
    assert_eq!(looked_up(t.constants.get(&chars("DoWork"))), None);
}

#[test]
fn names_are_kept_apart() {
    let mut t = SymbolTable::new();
    t.register_type("Value");
    t.register_variable("Value");
    assert_eq!(looked_up(t.types.get(&chars("Value"))), Some("Value".to_string()));
    assert_eq!(looked_up(t.variables.get(&chars("Value"))), Some("value".to_string()));
}

#[test]
fn arrays_are_a_set() {
    let mut t = SymbolTable::new();
    t.arrays.insert(chars("xs"));
    t.arrays.insert(chars("xs"));
    assert!(t.arrays.contains(&chars("xs")));
    assert!(!t.arrays.contains(&chars("ys")));
}
