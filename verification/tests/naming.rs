use c3_transpiler::naming::{convert_c_type, to_c3_type_name, to_c3_variable_name};

#[test]
fn type_name_is_upper_camel_case() {
    assert_eq!(to_c3_type_name("my_struct"), "MyStruct");
    assert_eq!(to_c3_type_name("node"), "Node");
}

#[test]
fn type_name_keeps_leading_underscores() {
    assert_eq!(to_c3_type_name("__foo_bar"), "__FooBar");
    assert_eq!(to_c3_type_name("_x"), "_X");
}

#[test]
fn type_name_of_underscores_only_is_t() {
    assert_eq!(to_c3_type_name("___"), "T");
    assert_eq!(to_c3_type_name("_"), "T");
}

#[test]
fn type_name_of_empty_is_empty() {
    assert_eq!(to_c3_type_name(""), "");
}

#[test]
fn type_name_softens_capitals() {
    // heck turns "RGB" into "Rgb"; a name that heck leaves without lowercase
    // letters keeps its first character and lowercases the rest.
    assert_eq!(to_c3_type_name("RGB"), "Rgb");
    assert_eq!(to_c3_type_name("A1"), "A1");
}

#[test]
fn variable_name_lowercases_first_capital() {
    assert_eq!(to_c3_variable_name("MyVar"), "myVar");
    assert_eq!(to_c3_variable_name("_Foo"), "_foo");
    assert_eq!(to_c3_variable_name("__Count_Down"), "__count_Down");
}

#[test]
fn variable_name_keeps_other_names() {
    assert_eq!(to_c3_variable_name("count"), "count");
    assert_eq!(to_c3_variable_name("_x1"), "_x1");
    assert_eq!(to_c3_variable_name("__"), "__");
    assert_eq!(to_c3_variable_name(""), "");
    assert_eq!(to_c3_variable_name("9lives"), "9lives");
}

#[test]
fn integer_types_have_c3_names() {
    assert_eq!(convert_c_type("int8_t"), Some("ichar".to_string()));
    assert_eq!(convert_c_type("signed char"), Some("ichar".to_string()));
    assert_eq!(convert_c_type("unsigned char"), Some("char".to_string()));
    assert_eq!(convert_c_type("short int"), Some("short".to_string()));
    assert_eq!(convert_c_type("unsigned short"), Some("ushort".to_string()));
    assert_eq!(convert_c_type("int"), Some("int".to_string()));
    assert_eq!(convert_c_type("unsigned"), Some("uint".to_string()));
    assert_eq!(convert_c_type("long long int"), Some("long".to_string()));
    assert_eq!(convert_c_type("unsigned long long"), Some("ulong".to_string()));
    assert_eq!(convert_c_type("__int128"), Some("int128".to_string()));
    assert_eq!(convert_c_type("unsigned __int128"), Some("uint128".to_string()));
    assert_eq!(convert_c_type("size_t"), Some("usz".to_string()));
    assert_eq!(convert_c_type("ssize_t"), Some("sz".to_string()));
    assert_eq!(convert_c_type("ptrdiff_t"), Some("sz".to_string()));
    assert_eq!(convert_c_type("intptr_t"), Some("iptr".to_string()));
    assert_eq!(convert_c_type("uintptr_t"), Some("uptr".to_string()));
}

#[test]
fn other_types_have_no_c3_integer_name() {
    assert_eq!(convert_c_type("float"), None);
    assert_eq!(convert_c_type("char"), None);
    assert_eq!(convert_c_type("unsigned  int"), None);
    assert_eq!(convert_c_type(""), None);
}

#[test]
fn variable_name_converted_twice_is_unchanged() {
    for name in ["__MyVar", "Value", "value", "___", "", "_X", "ÉTAT"] {
        let once = to_c3_variable_name(name);
        assert_eq!(to_c3_variable_name(&once), once);
    }
    assert_eq!(to_c3_variable_name(&to_c3_variable_name("__MyVar")), "__myVar");
}

#[test]
fn unsigned_types_are_u_and_the_signed_type() {
    for b in ["short", "short int", "int", "long", "long int", "long long", "long long int", "__int128"] {
        let signed = convert_c_type(b).expect("signed type has a C3 name");
        let unsigned = convert_c_type(&format!("unsigned {}", b));
        assert_eq!(unsigned, Some(format!("u{}", signed)));
    }
    for w in ["16", "32", "64", "128"] {
        let signed = convert_c_type(&format!("int{}_t", w)).expect("intN_t has a C3 name");
        assert_eq!(convert_c_type(&format!("uint{}_t", w)), Some(format!("u{}", signed)));
    }
    assert_eq!(convert_c_type("unsigned long long"), Some("ulong".to_string()));
}

#[test]
fn variable_name_of_a_non_empty_name_is_not_empty() {
    for name in ["A", "_", "É", "x", "_Z"] {
        assert!(!to_c3_variable_name(name).is_empty());
    }
    assert_eq!(to_c3_variable_name("A"), "a");
    assert_eq!(to_c3_variable_name(""), "");
}
