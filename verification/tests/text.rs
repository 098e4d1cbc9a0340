use c3_transpiler::text::{text_replace, text_trim, text_words};

fn chars(s: &str) -> Vec<char> {
    s.chars().collect()
}

fn string(v: &[char]) -> String {
    v.iter().collect()
}

#[test]
fn replace_takes_matches_from_the_left() {
    assert_eq!(string(&text_replace(&chars("a ,b ,,c"), " ,", ",")), "a,b,,c");
    assert_eq!(string(&text_replace(&chars("aaa"), "aa", "b")), "ba");
    assert_eq!(string(&text_replace(&chars("x\ny"), "\n", "\n    ")), "x\n    y");
}

#[test]
fn replace_with_empty_pattern_goes_around_every_character() {
    assert_eq!(string(&text_replace(&chars("ab"), "", "X")), "XaXbX");
    assert_eq!(string(&text_replace(&chars(""), "", "X")), "X");
    assert_eq!(string(&text_replace(&chars("ab"), "", "X")), "ab".replace("", "X"));
}

#[test]
fn trim_removes_unicode_whitespace() {
    assert_eq!(string(&text_trim(&chars("\u{3000}\t a b\u{85}\u{2029} "))), "a b");
    assert_eq!(string(&text_trim(&chars("\u{200b}a"))), "\u{200b}a");
    let words: Vec<String> = text_words(&chars("x\u{a0}y\u{2003}z")).iter().map(|w| string(w)).collect();
    assert_eq!(words, vec!["x", "y", "z"]);
}
