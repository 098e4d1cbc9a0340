//! How C names become C3 names, and which C integer types have a C3 name.

use vstd::prelude::*;
use heck::{ToShoutySnakeCase, ToUpperCamelCase};
use crate::text::{chars_of, copy_range, push_text, string_from_chars, text_is};

verus! {

broadcast use vstd::string::group_string_axioms;

// ---------------------------------------------------------------------------
// Names of what outside code computes
// ---------------------------------------------------------------------------

/// What `heck::ToUpperCamelCase::to_upper_camel_case` makes of a string.
pub uninterp spec fn upper_camel_case(s: Seq<char>) -> Seq<char>;

/// What `heck::ToShoutySnakeCase::to_shouty_snake_case` makes of a string.
pub uninterp spec fn shouty_snake_case(s: Seq<char>) -> Seq<char>;

/// Whether a character has the Unicode `Lowercase` property (`char::is_lowercase`).
pub uninterp spec fn lowercase_char(c: char) -> bool;

/// Whether a character has the Unicode `Uppercase` property (`char::is_uppercase`).
pub uninterp spec fn uppercase_char(c: char) -> bool;

/// The characters that `char::to_lowercase` yields for a character.
pub uninterp spec fn char_to_lowercase(c: char) -> Seq<char>;

/// What `str::to_lowercase` makes of a string.
pub uninterp spec fn str_to_lowercase(s: Seq<char>) -> Seq<char>;

/// `heck::ToUpperCamelCase::to_upper_camel_case` on a string slice. The
/// result is named by `upper_camel_case`; nothing more is claimed of it.
#[verifier::external_body]
fn heck_upper_camel_case(s: &str) -> (r: String)
    ensures
        r@ == upper_camel_case(s@),
{
    s.to_upper_camel_case()
}

/// `heck::ToShoutySnakeCase::to_shouty_snake_case` on a string slice. The
/// result is named by `shouty_snake_case`; nothing more is claimed of it.
#[verifier::external_body]
fn heck_shouty_snake_case(s: &str) -> (r: String)
    ensures
        r@ == shouty_snake_case(s@),
{
    s.to_shouty_snake_case()
}

/// `char::is_lowercase` from std; the result is named by `lowercase_char`.
#[verifier::external_body]
fn is_lowercase(c: char) -> (r: bool)
    ensures
        r == lowercase_char(c),
{
    c.is_lowercase()
}

/// `char::is_uppercase` from std; the result is named by `uppercase_char`.
#[verifier::external_body]
fn is_uppercase(c: char) -> (r: bool)
    ensures
        r == uppercase_char(c),
{
    c.is_uppercase()
}

/// `char::to_lowercase` from std, its characters collected into a string;
/// they are named by `char_to_lowercase`. std documents that the iterator
/// yields one or more characters.
#[verifier::external_body]
fn lowercase_of_char(c: char) -> (r: String)
    ensures
        r@ == char_to_lowercase(c),
        r@.len() >= 1,
{
    c.to_lowercase().to_string()
}

/// `str::to_lowercase` from std; the result is named by `str_to_lowercase`.
#[verifier::external_body]
fn lowercase_of_str(s: &str) -> (r: String)
    ensures
        r@ == str_to_lowercase(s@),
{
    s.to_lowercase()
}

// ---------------------------------------------------------------------------
// Specifications
// ---------------------------------------------------------------------------

/// How many underscores `s` begins with.
pub open spec fn leading_underscores(s: Seq<char>) -> nat
    decreases s.len(),
{
    if s.len() > 0 && s[0] == '_' {
        1 + leading_underscores(s.drop_first())
    } else {
        0
    }
}

/// Whether no character of `s` is lowercase.
pub open spec fn has_no_lowercase(s: Seq<char>) -> bool {
    forall|i: int| 0 <= i < s.len() ==> !lowercase_char(#[trigger] s[i])
}

/// A camel-cased name that holds no lowercase letter keeps its first
/// character and has the rest lowercased; any other is kept as it is.
pub open spec fn soften_capitals(camel: Seq<char>) -> Seq<char> {
    if camel.len() > 0 && has_no_lowercase(camel) {
        seq![camel[0]] + str_to_lowercase(camel.skip(1))
    } else {
        camel
    }
}

/// The C3 name of a C type name: the leading underscores are kept and the
/// rest is put in upper camel case (with capitals softened where it would be
/// all capitals). A name made of underscores alone becomes `T`.
pub open spec fn c3_type_name(s: Seq<char>) -> Seq<char> {
    if s.len() == 0 {
        Seq::empty()
    } else {
        let k = leading_underscores(s);
        let rest = s.skip(k as int);
        if rest.len() == 0 {
            seq!['T']
        } else {
            s.take(k as int) + soften_capitals(upper_camel_case(rest))
        }
    }
}

/// The C3 name of a C function or variable name: where the first character
/// after the leading underscores is uppercase, it is lowercased; otherwise
/// the name is kept.
pub open spec fn c3_variable_name(s: Seq<char>) -> Seq<char> {
    if s.len() == 0 {
        Seq::empty()
    } else {
        let k = leading_underscores(s);
        let rest = s.skip(k as int);
        if rest.len() == 0 {
            s
        } else if uppercase_char(rest[0]) {
            s.take(k as int) + char_to_lowercase(rest[0]) + rest.skip(1)
        } else {
            s
        }
    }
}

/// The C3 name of a C constant: the name in shouty snake case.
pub open spec fn c3_constant_name(s: Seq<char>) -> Seq<char> {
    shouty_snake_case(s)
}

/// The C3 integer type that a C integer type is written as, where it has one.
pub open spec fn c3_integer_type(t: Seq<char>) -> Option<Seq<char>> {
    if t == "int8_t"@ || t == "signed char"@ {
        Some("ichar"@)
    } else if t == "uint8_t"@ || t == "unsigned char"@ {
        Some("char"@)
    } else if t == "int16_t"@ || t == "short"@ || t == "short int"@ {
        Some("short"@)
    } else if t == "uint16_t"@ || t == "unsigned short"@ || t == "unsigned short int"@ {
        Some("ushort"@)
    } else if t == "int32_t"@ || t == "int"@ {
        Some("int"@)
    } else if t == "uint32_t"@ || t == "unsigned"@ || t == "unsigned int"@ {
        Some("uint"@)
    } else if t == "int64_t"@ || t == "long"@ || t == "long int"@ || t == "long long"@ || t
        == "long long int"@ {
        Some("long"@)
    } else if t == "uint64_t"@ || t == "unsigned long"@ || t == "unsigned long int"@ || t
        == "unsigned long long"@ || t == "unsigned long long int"@ {
        Some("ulong"@)
    } else if t == "int128_t"@ || t == "__int128"@ {
        Some("int128"@)
    } else if t == "uint128_t"@ || t == "__uint128_t"@ || t == "unsigned __int128"@ {
        Some("uint128"@)
    } else if t == "size_t"@ {
        Some("usz"@)
    } else if t == "ssize_t"@ {
        Some("sz"@)
    } else if t == "ptrdiff_t"@ {
        Some("sz"@)
    } else if t == "intptr_t"@ {
        Some("iptr"@)
    } else if t == "uintptr_t"@ {
        Some("uptr"@)
    } else {
        None
    }
}

/// The view of an optional text.
pub open spec fn opt_text(o: Option<Vec<char>>) -> Option<Seq<char>> {
    match o {
        Some(v) => Some(v@),
        None => None,
    }
}

// ---------------------------------------------------------------------------
// Laws
// ---------------------------------------------------------------------------

/// Whether the first character after the leading underscores of `s`, where
/// it is uppercase, lowercases either to itself alone or to characters whose
/// first is neither an underscore nor uppercase.
pub open spec fn lowercase_settles(s: Seq<char>) -> bool {
    let k = leading_underscores(s) as int;
    k < s.len() && uppercase_char(s[k]) ==> {
        let l = char_to_lowercase(s[k]);
        l == seq![s[k]] || (l.len() > 0 && l[0] != '_' && !uppercase_char(l[0]))
    }
}

proof fn lemma_leading_underscores_take(s: Seq<char>, t: Seq<char>)
    requires
        t.len() > 0,
        t[0] != '_',
        forall|i: int| 0 <= i < s.len() ==> s[i] == '_',
    ensures
        leading_underscores(s + t) == s.len(),
        (s + t).skip(s.len() as int) == t,
    decreases s.len(),
{
    assert((s + t).skip(s.len() as int) =~= t);
    if s.len() > 0 {
        assert((s + t).drop_first() =~= s.drop_first() + t);
        lemma_leading_underscores_take(s.drop_first(), t);
    }
}

proof fn lemma_leading_underscores_prefix(s: Seq<char>)
    ensures
        leading_underscores(s) <= s.len(),
        forall|i: int| 0 <= i < leading_underscores(s) ==> s[i] == '_',
        leading_underscores(s) < s.len() ==> s[leading_underscores(s) as int] != '_',
    decreases s.len(),
{
    if s.len() > 0 && s[0] == '_' {
        lemma_leading_underscores_prefix(s.drop_first());
        assert forall|i: int| 0 <= i < leading_underscores(s) implies s[i] == '_' by {
            if i > 0 {
                assert(s[i] == s.drop_first()[i - 1]);
            }
        }
    }
}

/// Converting a function or variable name a second time changes nothing:
/// the C3 name of a C3 name is that name. This holds wherever the character
/// that the first conversion lowercases settles in one step, which
/// `lowercase_settles` states.
pub proof fn variable_name_is_idempotent(s: Seq<char>)
    requires
        lowercase_settles(s),
    ensures
        c3_variable_name(c3_variable_name(s)) == c3_variable_name(s),
{
    if s.len() > 0 {
        let k = leading_underscores(s) as int;
        lemma_leading_underscores_prefix(s);
        let rest = s.skip(k);
        if rest.len() > 0 && uppercase_char(rest[0]) {
            let l = char_to_lowercase(rest[0]);
            let t = s.take(k) + l + rest.skip(1);
            if l == seq![rest[0]] {
                assert(t =~= s);
            } else {
                let u = l + rest.skip(1);
                assert(t =~= s.take(k) + u);
                assert(u[0] == l[0]);
                lemma_leading_underscores_take(s.take(k), u);
                assert(t.take(k) =~= s.take(k));
            }
        }
    }
}

/// The C3 name of a function or variable name keeps its leading
/// underscores and everything after the first character that follows them;
/// that character is replaced by its lowercase form where it is uppercase
/// and kept otherwise. A name of underscores alone, or the empty name, is
/// kept.
pub proof fn variable_name_form(s: Seq<char>)
    ensures
        ({
            let k = leading_underscores(s) as int;
            &&& k < s.len() ==> c3_variable_name(s) == s.take(k) + (if uppercase_char(s[k]) {
                char_to_lowercase(s[k])
            } else {
                seq![s[k]]
            }) + s.skip(k + 1)
            &&& k >= s.len() ==> c3_variable_name(s) == s
        }),
{
    lemma_leading_underscores_prefix(s);
    let k = leading_underscores(s) as int;
    if k < s.len() {
        let rest = s.skip(k);
        assert(rest[0] == s[k]);
        assert(rest.skip(1) =~= s.skip(k + 1));
        if !uppercase_char(s[k]) {
            assert(s =~= s.take(k) + seq![s[k]] + s.skip(k + 1));
        }
    }
}

/// The C3 name of a type name keeps its leading underscores and puts the
/// rest in upper camel case, softened where it would be all capitals; a
/// name of underscores alone becomes `T`.
pub proof fn type_name_form(s: Seq<char>)
    requires
        s.len() > 0,
    ensures
        ({
            let k = leading_underscores(s) as int;
            &&& k < s.len() ==> c3_type_name(s) == s.take(k) + soften_capitals(
                upper_camel_case(s.skip(k)),
            )
            &&& k >= s.len() ==> c3_type_name(s) == seq!['T']
        }),
{
    lemma_leading_underscores_prefix(s);
}

/// The lengths of the words that the integer type table is written in, and,
/// for each two spellings of the same length, a place where they differ.
proof fn type_words_differ()
    ensures
        "int8_t"@.len() == 6,
        "signed char"@.len() == 11,
        "uint8_t"@.len() == 7,
        "unsigned char"@.len() == 13,
        "int16_t"@.len() == 7,
        "short"@.len() == 5,
        "short int"@.len() == 9,
        "uint16_t"@.len() == 8,
        "unsigned short"@.len() == 14,
        "unsigned short int"@.len() == 18,
        "int32_t"@.len() == 7,
        "int"@.len() == 3,
        "uint32_t"@.len() == 8,
        "unsigned"@.len() == 8,
        "unsigned int"@.len() == 12,
        "int64_t"@.len() == 7,
        "long"@.len() == 4,
        "long int"@.len() == 8,
        "long long"@.len() == 9,
        "long long int"@.len() == 13,
        "uint64_t"@.len() == 8,
        "unsigned long"@.len() == 13,
        "unsigned long int"@.len() == 17,
        "unsigned long long"@.len() == 18,
        "unsigned long long int"@.len() == 22,
        "int128_t"@.len() == 8,
        "__int128"@.len() == 8,
        "uint128_t"@.len() == 9,
        "__uint128_t"@.len() == 11,
        "unsigned __int128"@.len() == 17,
        "size_t"@.len() == 6,
        "ssize_t"@.len() == 7,
        "ptrdiff_t"@.len() == 9,
        "intptr_t"@.len() == 8,
        "uintptr_t"@.len() == 9,
        "ichar"@.len() == 5,
        "char"@.len() == 4,
        "ushort"@.len() == 6,
        "uint"@.len() == 4,
        "ulong"@.len() == 5,
        "int128"@.len() == 6,
        "uint128"@.len() == 7,
        "usz"@.len() == 3,
        "sz"@.len() == 2,
        "iptr"@.len() == 4,
        "uptr"@.len() == 4,
        "int8_t"@[0] != "size_t"@[0],
        "signed char"@[0] != "__uint128_t"@[0],
        "uint8_t"@[0] != "int16_t"@[0],
        "uint8_t"@[0] != "int32_t"@[0],
        "uint8_t"@[0] != "int64_t"@[0],
        "uint8_t"@[0] != "ssize_t"@[0],
        "unsigned char"@[0] != "long long int"@[0],
        "unsigned char"@[9] != "unsigned long"@[9],
        "int16_t"@[3] != "int32_t"@[3],
        "int16_t"@[3] != "int64_t"@[3],
        "int16_t"@[0] != "ssize_t"@[0],
        "short int"@[0] != "long long"@[0],
        "short int"@[0] != "uint128_t"@[0],
        "short int"@[0] != "ptrdiff_t"@[0],
        "short int"@[0] != "uintptr_t"@[0],
        "uint16_t"@[4] != "uint32_t"@[4],
        "uint16_t"@[1] != "unsigned"@[1],
        "uint16_t"@[0] != "long int"@[0],
        "uint16_t"@[4] != "uint64_t"@[4],
        "uint16_t"@[0] != "int128_t"@[0],
        "uint16_t"@[0] != "__int128"@[0],
        "uint16_t"@[0] != "intptr_t"@[0],
        "unsigned short int"@[9] != "unsigned long long"@[9],
        "int32_t"@[3] != "int64_t"@[3],
        "int32_t"@[0] != "ssize_t"@[0],
        "uint32_t"@[1] != "unsigned"@[1],
        "uint32_t"@[0] != "long int"@[0],
        "uint32_t"@[4] != "uint64_t"@[4],
        "uint32_t"@[0] != "int128_t"@[0],
        "uint32_t"@[0] != "__int128"@[0],
        "uint32_t"@[0] != "intptr_t"@[0],
        "unsigned"@[0] != "long int"@[0],
        "unsigned"@[1] != "uint64_t"@[1],
        "unsigned"@[0] != "int128_t"@[0],
        "unsigned"@[0] != "__int128"@[0],
        "unsigned"@[0] != "intptr_t"@[0],
        "int64_t"@[0] != "ssize_t"@[0],
        "long int"@[0] != "uint64_t"@[0],
        "long int"@[0] != "int128_t"@[0],
        "long int"@[0] != "__int128"@[0],
        "long int"@[0] != "intptr_t"@[0],
        "long long"@[0] != "uint128_t"@[0],
        "long long"@[0] != "ptrdiff_t"@[0],
        "long long"@[0] != "uintptr_t"@[0],
        "long long int"@[0] != "unsigned long"@[0],
        "uint64_t"@[0] != "int128_t"@[0],
        "uint64_t"@[0] != "__int128"@[0],
        "uint64_t"@[0] != "intptr_t"@[0],
        "unsigned long int"@[9] != "unsigned __int128"@[9],
        "int128_t"@[0] != "__int128"@[0],
        "int128_t"@[3] != "intptr_t"@[3],
        "__int128"@[0] != "intptr_t"@[0],
        "uint128_t"@[0] != "ptrdiff_t"@[0],
        "uint128_t"@[4] != "uintptr_t"@[4],
        "ptrdiff_t"@[0] != "uintptr_t"@[0],
        "iptr"@[0] != "uptr"@[0],
{
    reveal_strlit("int8_t");
    reveal_strlit("signed char");
    reveal_strlit("uint8_t");
    reveal_strlit("unsigned char");
    reveal_strlit("int16_t");
    reveal_strlit("short");
    reveal_strlit("short int");
    reveal_strlit("uint16_t");
    reveal_strlit("unsigned short");
    reveal_strlit("unsigned short int");
    reveal_strlit("int32_t");
    reveal_strlit("int");
    reveal_strlit("uint32_t");
    reveal_strlit("unsigned");
    reveal_strlit("unsigned int");
    reveal_strlit("int64_t");
    reveal_strlit("long");
    reveal_strlit("long int");
    reveal_strlit("long long");
    reveal_strlit("long long int");
    reveal_strlit("uint64_t");
    reveal_strlit("unsigned long");
    reveal_strlit("unsigned long int");
    reveal_strlit("unsigned long long");
    reveal_strlit("unsigned long long int");
    reveal_strlit("int128_t");
    reveal_strlit("__int128");
    reveal_strlit("uint128_t");
    reveal_strlit("__uint128_t");
    reveal_strlit("unsigned __int128");
    reveal_strlit("size_t");
    reveal_strlit("ssize_t");
    reveal_strlit("ptrdiff_t");
    reveal_strlit("intptr_t");
    reveal_strlit("uintptr_t");
    reveal_strlit("ichar");
    reveal_strlit("char");
    reveal_strlit("ushort");
    reveal_strlit("uint");
    reveal_strlit("ulong");
    reveal_strlit("int128");
    reveal_strlit("uint128");
    reveal_strlit("usz");
    reveal_strlit("sz");
    reveal_strlit("iptr");
    reveal_strlit("uptr");
}

/// The C integer types that have a C3 name, row by row: every spelling of a
/// C type maps to the one C3 type of its size and signedness. The unsigned
/// 8-bit types map to C3's unsigned `char`, the signed ones to `ichar`.
pub proof fn integer_type_table()
    ensures
        c3_integer_type("int8_t"@) == Some("ichar"@),
        c3_integer_type("signed char"@) == Some("ichar"@),
        c3_integer_type("uint8_t"@) == Some("char"@),
        c3_integer_type("unsigned char"@) == Some("char"@),
        c3_integer_type("int16_t"@) == Some("short"@),
        c3_integer_type("short"@) == Some("short"@),
        c3_integer_type("short int"@) == Some("short"@),
        c3_integer_type("uint16_t"@) == Some("ushort"@),
        c3_integer_type("unsigned short"@) == Some("ushort"@),
        c3_integer_type("unsigned short int"@) == Some("ushort"@),
        c3_integer_type("int32_t"@) == Some("int"@),
        c3_integer_type("int"@) == Some("int"@),
        c3_integer_type("uint32_t"@) == Some("uint"@),
        c3_integer_type("unsigned"@) == Some("uint"@),
        c3_integer_type("unsigned int"@) == Some("uint"@),
        c3_integer_type("int64_t"@) == Some("long"@),
        c3_integer_type("long"@) == Some("long"@),
        c3_integer_type("long int"@) == Some("long"@),
        c3_integer_type("long long"@) == Some("long"@),
        c3_integer_type("long long int"@) == Some("long"@),
        c3_integer_type("uint64_t"@) == Some("ulong"@),
        c3_integer_type("unsigned long"@) == Some("ulong"@),
        c3_integer_type("unsigned long int"@) == Some("ulong"@),
        c3_integer_type("unsigned long long"@) == Some("ulong"@),
        c3_integer_type("unsigned long long int"@) == Some("ulong"@),
        c3_integer_type("int128_t"@) == Some("int128"@),
        c3_integer_type("__int128"@) == Some("int128"@),
        c3_integer_type("uint128_t"@) == Some("uint128"@),
        c3_integer_type("__uint128_t"@) == Some("uint128"@),
        c3_integer_type("unsigned __int128"@) == Some("uint128"@),
        c3_integer_type("size_t"@) == Some("usz"@),
        c3_integer_type("ssize_t"@) == Some("sz"@),
        c3_integer_type("ptrdiff_t"@) == Some("sz"@),
        c3_integer_type("intptr_t"@) == Some("iptr"@),
        c3_integer_type("uintptr_t"@) == Some("uptr"@),
{
    assert(c3_integer_type("int8_t"@) == Some("ichar"@)) by {
        type_words_differ();
    }
    assert(c3_integer_type("signed char"@) == Some("ichar"@)) by {
        type_words_differ();
    }
    assert(c3_integer_type("uint8_t"@) == Some("char"@)) by {
        type_words_differ();
    }
    assert(c3_integer_type("unsigned char"@) == Some("char"@)) by {
        type_words_differ();
    }
    assert(c3_integer_type("int16_t"@) == Some("short"@)) by {
        type_words_differ();
    }
    assert(c3_integer_type("short"@) == Some("short"@)) by {
        type_words_differ();
    }
    assert(c3_integer_type("short int"@) == Some("short"@)) by {
        type_words_differ();
    }
    assert(c3_integer_type("uint16_t"@) == Some("ushort"@)) by {
        type_words_differ();
    }
    assert(c3_integer_type("unsigned short"@) == Some("ushort"@)) by {
        type_words_differ();
    }
    assert(c3_integer_type("unsigned short int"@) == Some("ushort"@)) by {
        type_words_differ();
    }
    assert(c3_integer_type("int32_t"@) == Some("int"@)) by {
        type_words_differ();
    }
    assert(c3_integer_type("int"@) == Some("int"@)) by {
        type_words_differ();
    }
    assert(c3_integer_type("uint32_t"@) == Some("uint"@)) by {
        type_words_differ();
    }
    assert(c3_integer_type("unsigned"@) == Some("uint"@)) by {
        type_words_differ();
    }
    assert(c3_integer_type("unsigned int"@) == Some("uint"@)) by {
        type_words_differ();
    }
    assert(c3_integer_type("int64_t"@) == Some("long"@)) by {
        type_words_differ();
    }
    assert(c3_integer_type("long"@) == Some("long"@)) by {
        type_words_differ();
    }
    assert(c3_integer_type("long int"@) == Some("long"@)) by {
        type_words_differ();
    }
    assert(c3_integer_type("long long"@) == Some("long"@)) by {
        type_words_differ();
    }
    assert(c3_integer_type("long long int"@) == Some("long"@)) by {
        type_words_differ();
    }
    assert(c3_integer_type("uint64_t"@) == Some("ulong"@)) by {
        type_words_differ();
    }
    assert(c3_integer_type("unsigned long"@) == Some("ulong"@)) by {
        type_words_differ();
    }
    assert(c3_integer_type("unsigned long int"@) == Some("ulong"@)) by {
        type_words_differ();
    }
    assert(c3_integer_type("unsigned long long"@) == Some("ulong"@)) by {
        type_words_differ();
    }
    assert(c3_integer_type("unsigned long long int"@) == Some("ulong"@)) by {
        type_words_differ();
    }
    assert(c3_integer_type("int128_t"@) == Some("int128"@)) by {
        type_words_differ();
    }
    assert(c3_integer_type("__int128"@) == Some("int128"@)) by {
        type_words_differ();
    }
    assert(c3_integer_type("uint128_t"@) == Some("uint128"@)) by {
        type_words_differ();
    }
    assert(c3_integer_type("__uint128_t"@) == Some("uint128"@)) by {
        type_words_differ();
    }
    assert(c3_integer_type("unsigned __int128"@) == Some("uint128"@)) by {
        type_words_differ();
    }
    assert(c3_integer_type("size_t"@) == Some("usz"@)) by {
        type_words_differ();
    }
    assert(c3_integer_type("ssize_t"@) == Some("sz"@)) by {
        type_words_differ();
    }
    assert(c3_integer_type("ptrdiff_t"@) == Some("sz"@)) by {
        type_words_differ();
    }
    assert(c3_integer_type("intptr_t"@) == Some("iptr"@)) by {
        type_words_differ();
    }
    assert(c3_integer_type("uintptr_t"@) == Some("uptr"@)) by {
        type_words_differ();
    }
}

/// A signed C integer type and the unsigned type of the same size never map
/// to the same C3 type.
pub proof fn signed_and_unsigned_differ()
    ensures
        c3_integer_type("int8_t"@) != c3_integer_type("uint8_t"@),
        c3_integer_type("int16_t"@) != c3_integer_type("uint16_t"@),
        c3_integer_type("int32_t"@) != c3_integer_type("uint32_t"@),
        c3_integer_type("int64_t"@) != c3_integer_type("uint64_t"@),
        c3_integer_type("int128_t"@) != c3_integer_type("uint128_t"@),
        c3_integer_type("signed char"@) != c3_integer_type("unsigned char"@),
        c3_integer_type("short"@) != c3_integer_type("unsigned short"@),
        c3_integer_type("int"@) != c3_integer_type("unsigned int"@),
        c3_integer_type("long"@) != c3_integer_type("unsigned long"@),
        c3_integer_type("long long"@) != c3_integer_type("unsigned long long"@),
        c3_integer_type("__int128"@) != c3_integer_type("unsigned __int128"@),
        c3_integer_type("ssize_t"@) != c3_integer_type("size_t"@),
        c3_integer_type("intptr_t"@) != c3_integer_type("uintptr_t"@),
{
    integer_type_table();
    type_words_differ();
}

/// Whether `b` is a signed C integer type that `unsigned` can stand before.
pub open spec fn takes_unsigned(b: Seq<char>) -> bool {
    ||| b == "short"@
    ||| b == "short int"@
    ||| b == "int"@
    ||| b == "long"@
    ||| b == "long int"@
    ||| b == "long long"@
    ||| b == "long long int"@
    ||| b == "__int128"@
}

/// `unsigned` before a signed C integer type gives the C3 type of that
/// signed type with `u` before it.
pub proof fn unsigned_type_is_u_of_signed(b: Seq<char>)
    requires
        takes_unsigned(b),
    ensures
        c3_integer_type(b) is Some,
        c3_integer_type("unsigned "@ + b) == Some("u"@ + c3_integer_type(b)->0),
{
    if b == "short"@ {
        assert("unsigned "@ + b =~= "unsigned short"@) by {
            reveal_strlit("unsigned ");
            reveal_strlit("short");
            reveal_strlit("unsigned short");
        }
        assert("u"@ + "short"@ =~= "ushort"@) by {
            reveal_strlit("u");
            reveal_strlit("short");
            reveal_strlit("ushort");
        }
        assert(c3_integer_type("short"@) == Some("short"@)) by {
            type_words_differ();
        }
        assert(c3_integer_type("unsigned short"@) == Some("ushort"@)) by {
            type_words_differ();
        }
    } else if b == "short int"@ {
        assert("unsigned "@ + b =~= "unsigned short int"@) by {
            reveal_strlit("unsigned ");
            reveal_strlit("short int");
            reveal_strlit("unsigned short int");
        }
        assert("u"@ + "short"@ =~= "ushort"@) by {
            reveal_strlit("u");
            reveal_strlit("short");
            reveal_strlit("ushort");
        }
        assert(c3_integer_type("short int"@) == Some("short"@)) by {
            type_words_differ();
        }
        assert(c3_integer_type("unsigned short int"@) == Some("ushort"@)) by {
            type_words_differ();
        }
    } else if b == "int"@ {
        assert("unsigned "@ + b =~= "unsigned int"@) by {
            reveal_strlit("unsigned ");
            reveal_strlit("int");
            reveal_strlit("unsigned int");
        }
        assert("u"@ + "int"@ =~= "uint"@) by {
            reveal_strlit("u");
            reveal_strlit("int");
            reveal_strlit("uint");
        }
        assert(c3_integer_type("int"@) == Some("int"@)) by {
            type_words_differ();
        }
        assert(c3_integer_type("unsigned int"@) == Some("uint"@)) by {
            type_words_differ();
        }
    } else if b == "long"@ {
        assert("unsigned "@ + b =~= "unsigned long"@) by {
            reveal_strlit("unsigned ");
            reveal_strlit("long");
            reveal_strlit("unsigned long");
        }
        assert("u"@ + "long"@ =~= "ulong"@) by {
            reveal_strlit("u");
            reveal_strlit("long");
            reveal_strlit("ulong");
        }
        assert(c3_integer_type("long"@) == Some("long"@)) by {
            type_words_differ();
        }
        assert(c3_integer_type("unsigned long"@) == Some("ulong"@)) by {
            type_words_differ();
        }
    } else if b == "long int"@ {
        assert("unsigned "@ + b =~= "unsigned long int"@) by {
            reveal_strlit("unsigned ");
            reveal_strlit("long int");
            reveal_strlit("unsigned long int");
        }
        assert("u"@ + "long"@ =~= "ulong"@) by {
            reveal_strlit("u");
            reveal_strlit("long");
            reveal_strlit("ulong");
        }
        assert(c3_integer_type("long int"@) == Some("long"@)) by {
            type_words_differ();
        }
        assert(c3_integer_type("unsigned long int"@) == Some("ulong"@)) by {
            type_words_differ();
        }
    } else if b == "long long"@ {
        assert("unsigned "@ + b =~= "unsigned long long"@) by {
            reveal_strlit("unsigned ");
            reveal_strlit("long long");
            reveal_strlit("unsigned long long");
        }
        assert("u"@ + "long"@ =~= "ulong"@) by {
            reveal_strlit("u");
            reveal_strlit("long");
            reveal_strlit("ulong");
        }
        assert(c3_integer_type("long long"@) == Some("long"@)) by {
            type_words_differ();
        }
        assert(c3_integer_type("unsigned long long"@) == Some("ulong"@)) by {
            type_words_differ();
        }
    } else if b == "long long int"@ {
        assert("unsigned "@ + b =~= "unsigned long long int"@) by {
            reveal_strlit("unsigned ");
            reveal_strlit("long long int");
            reveal_strlit("unsigned long long int");
        }
        assert("u"@ + "long"@ =~= "ulong"@) by {
            reveal_strlit("u");
            reveal_strlit("long");
            reveal_strlit("ulong");
        }
        assert(c3_integer_type("long long int"@) == Some("long"@)) by {
            type_words_differ();
        }
        assert(c3_integer_type("unsigned long long int"@) == Some("ulong"@)) by {
            type_words_differ();
        }
    } else if b == "__int128"@ {
        assert("unsigned "@ + b =~= "unsigned __int128"@) by {
            reveal_strlit("unsigned ");
            reveal_strlit("__int128");
            reveal_strlit("unsigned __int128");
        }
        assert("u"@ + "int128"@ =~= "uint128"@) by {
            reveal_strlit("u");
            reveal_strlit("int128");
            reveal_strlit("uint128");
        }
        assert(c3_integer_type("__int128"@) == Some("int128"@)) by {
            type_words_differ();
        }
        assert(c3_integer_type("unsigned __int128"@) == Some("uint128"@)) by {
            type_words_differ();
        }
    }
}

/// Whether `w` is a width that the fixed-width C integer types come in, and
/// whose signed and unsigned C3 types differ by a leading `u`.
pub open spec fn fixed_width(w: Seq<char>) -> bool {
    w == "16"@ || w == "32"@ || w == "64"@ || w == "128"@
}

/// `uintN_t` has the C3 type of `intN_t` with `u` before it.
pub proof fn uint_type_is_u_of_int(w: Seq<char>)
    requires
        fixed_width(w),
    ensures
        c3_integer_type("int"@ + w + "_t"@) is Some,
        c3_integer_type("uint"@ + w + "_t"@) == Some("u"@ + c3_integer_type("int"@ + w + "_t"@)->0),
{
    if w == "16"@ {
        assert("int"@ + w + "_t"@ =~= "int16_t"@) by {
            reveal_strlit("int");
            reveal_strlit("16");
            reveal_strlit("_t");
            reveal_strlit("int16_t");
        }
        assert("uint"@ + w + "_t"@ =~= "uint16_t"@) by {
            reveal_strlit("uint");
            reveal_strlit("16");
            reveal_strlit("_t");
            reveal_strlit("uint16_t");
        }
        assert("u"@ + "short"@ =~= "ushort"@) by {
            reveal_strlit("u");
            reveal_strlit("short");
            reveal_strlit("ushort");
        }
        assert(c3_integer_type("int16_t"@) == Some("short"@)) by {
            type_words_differ();
        }
        assert(c3_integer_type("uint16_t"@) == Some("ushort"@)) by {
            type_words_differ();
        }
    } else if w == "32"@ {
        assert("int"@ + w + "_t"@ =~= "int32_t"@) by {
            reveal_strlit("int");
            reveal_strlit("32");
            reveal_strlit("_t");
            reveal_strlit("int32_t");
        }
        assert("uint"@ + w + "_t"@ =~= "uint32_t"@) by {
            reveal_strlit("uint");
            reveal_strlit("32");
            reveal_strlit("_t");
            reveal_strlit("uint32_t");
        }
        assert("u"@ + "int"@ =~= "uint"@) by {
            reveal_strlit("u");
            reveal_strlit("int");
            reveal_strlit("uint");
        }
        assert(c3_integer_type("int32_t"@) == Some("int"@)) by {
            type_words_differ();
        }
        assert(c3_integer_type("uint32_t"@) == Some("uint"@)) by {
            type_words_differ();
        }
    } else if w == "64"@ {
        assert("int"@ + w + "_t"@ =~= "int64_t"@) by {
            reveal_strlit("int");
            reveal_strlit("64");
            reveal_strlit("_t");
            reveal_strlit("int64_t");
        }
        assert("uint"@ + w + "_t"@ =~= "uint64_t"@) by {
            reveal_strlit("uint");
            reveal_strlit("64");
            reveal_strlit("_t");
            reveal_strlit("uint64_t");
        }
        assert("u"@ + "long"@ =~= "ulong"@) by {
            reveal_strlit("u");
            reveal_strlit("long");
            reveal_strlit("ulong");
        }
        assert(c3_integer_type("int64_t"@) == Some("long"@)) by {
            type_words_differ();
        }
        assert(c3_integer_type("uint64_t"@) == Some("ulong"@)) by {
            type_words_differ();
        }
    } else if w == "128"@ {
        assert("int"@ + w + "_t"@ =~= "int128_t"@) by {
            reveal_strlit("int");
            reveal_strlit("128");
            reveal_strlit("_t");
            reveal_strlit("int128_t");
        }
        assert("uint"@ + w + "_t"@ =~= "uint128_t"@) by {
            reveal_strlit("uint");
            reveal_strlit("128");
            reveal_strlit("_t");
            reveal_strlit("uint128_t");
        }
        assert("u"@ + "int128"@ =~= "uint128"@) by {
            reveal_strlit("u");
            reveal_strlit("int128");
            reveal_strlit("uint128");
        }
        assert(c3_integer_type("int128_t"@) == Some("int128"@)) by {
            type_words_differ();
        }
        assert(c3_integer_type("uint128_t"@) == Some("uint128"@)) by {
            type_words_differ();
        }
    }
}

// ---------------------------------------------------------------------------
// Executable functions
// ---------------------------------------------------------------------------

/// How many underscores `s` begins with.
fn count_leading_underscores(s: &Vec<char>) -> (k: usize)
    ensures
        k == leading_underscores(s@),
        k <= s.len(),
{
    let mut i: usize = 0;
    assert(s@.skip(0) == s@);
    while i < s.len() && s[i] == '_'
        invariant
            i <= s.len(),
            leading_underscores(s@) == i + leading_underscores(s@.skip(i as int)),
        decreases s.len() - i,
    {
        assert(s@.skip(i as int).drop_first() == s@.skip(i + 1));
        i = i + 1;
    }
    i
}

/// Whether no character of `s` is lowercase.
fn no_lowercase(s: &Vec<char>) -> (r: bool)
    ensures
        r == has_no_lowercase(s@),
{
    let mut i: usize = 0;
    while i < s.len()
        invariant
            i <= s.len(),
            forall|j: int| 0 <= j < i ==> !lowercase_char(#[trigger] s@[j]),
        decreases s.len() - i,
    {
        if is_lowercase(s[i]) {
            return false;
        }
        i = i + 1;
    }
    true
}

/// `heck`'s upper camel case of a text.
fn upper_camel_text(s: &Vec<char>) -> (r: Vec<char>)
    ensures
        r@ == upper_camel_case(s@),
{
    let st = string_from_chars(s);
    let out = heck_upper_camel_case(st.as_str());
    chars_of(out.as_str())
}

/// The C3 name of a C type name, on text.
pub fn c3_type_name_text(s: &Vec<char>) -> (r: Vec<char>)
    ensures
        r@ == c3_type_name(s@),
{
    if s.len() == 0 {
        return Vec::new();
    }
    let k = count_leading_underscores(s);
    if k == s.len() {
        let mut t: Vec<char> = Vec::new();
        t.push('T');
        assert(t@ == seq!['T']);
        return t;
    }
    let rest = copy_range(s, k, s.len());
    assert(rest@ == s@.skip(k as int));
    let camel = upper_camel_text(&rest);
    let softened = if camel.len() > 0 && no_lowercase(&camel) {
        let mut first: Vec<char> = Vec::new();
        first.push(camel[0]);
        let tail = copy_range(&camel, 1, camel.len());
        assert(tail@ == camel@.skip(1));
        let tail_str = string_from_chars(&tail);
        let lowered = lowercase_of_str(tail_str.as_str());
        let lowered_chars = chars_of(lowered.as_str());
        push_text(&mut first, &lowered_chars);
        assert(first@ == seq![camel@[0]] + str_to_lowercase(camel@.skip(1)));
        first
    } else {
        camel
    };
    let mut out = copy_range(s, 0, k);
    push_text(&mut out, &softened);
    out
}

/// The C3 name of a C function or variable name, on text.
pub fn c3_variable_name_text(s: &Vec<char>) -> (r: Vec<char>)
    ensures
        r@ == c3_variable_name(s@),
        s@.len() > 0 ==> r@.len() > 0,
{
    if s.len() == 0 {
        return Vec::new();
    }
    let k = count_leading_underscores(s);
    if k == s.len() {
        return copy_range(s, 0, s.len());
    }
    let first = s[k];
    if is_uppercase(first) {
        let mut out = copy_range(s, 0, k);
        let lowered = lowercase_of_char(first);
        let lowered_chars = chars_of(lowered.as_str());
        push_text(&mut out, &lowered_chars);
        let tail = copy_range(s, k + 1, s.len());
        push_text(&mut out, &tail);
        assert(s@.skip(k as int).skip(1) == s@.subrange(k + 1, s@.len() as int));
        out
    } else {
        copy_range(s, 0, s.len())
    }
}

/// The C3 name of a C constant, on text.
pub fn c3_constant_name_text(s: &Vec<char>) -> (r: Vec<char>)
    ensures
        r@ == c3_constant_name(s@),
{
    let st = string_from_chars(s);
    let out = heck_shouty_snake_case(st.as_str());
    chars_of(out.as_str())
}

/// The C3 integer type of a C integer type, on text.
pub fn c3_integer_type_text(t: &Vec<char>) -> (r: Option<Vec<char>>)
    ensures
        opt_text(r) == c3_integer_type(t@),
{
    if text_is(t, "int8_t") || text_is(t, "signed char") {
        Some(chars_of("ichar"))
    } else if text_is(t, "uint8_t") || text_is(t, "unsigned char") {
        Some(chars_of("char"))
    } else if text_is(t, "int16_t") || text_is(t, "short") || text_is(t, "short int") {
        Some(chars_of("short"))
    } else if text_is(t, "uint16_t") || text_is(t, "unsigned short") || text_is(
        t,
        "unsigned short int",
    ) {
        Some(chars_of("ushort"))
    } else if text_is(t, "int32_t") || text_is(t, "int") {
        Some(chars_of("int"))
    } else if text_is(t, "uint32_t") || text_is(t, "unsigned") || text_is(t, "unsigned int") {
        Some(chars_of("uint"))
    } else if text_is(t, "int64_t") || text_is(t, "long") || text_is(t, "long int") || text_is(
        t,
        "long long",
    ) || text_is(t, "long long int") {
        Some(chars_of("long"))
    } else if text_is(t, "uint64_t") || text_is(t, "unsigned long") || text_is(
        t,
        "unsigned long int",
    ) || text_is(t, "unsigned long long") || text_is(t, "unsigned long long int") {
        Some(chars_of("ulong"))
    } else if text_is(t, "int128_t") || text_is(t, "__int128") {
        Some(chars_of("int128"))
    } else if text_is(t, "uint128_t") || text_is(t, "__uint128_t") || text_is(
        t,
        "unsigned __int128",
    ) {
        Some(chars_of("uint128"))
    } else if text_is(t, "size_t") {
        Some(chars_of("usz"))
    } else if text_is(t, "ssize_t") {
        Some(chars_of("sz"))
    } else if text_is(t, "ptrdiff_t") {
        Some(chars_of("sz"))
    } else if text_is(t, "intptr_t") {
        Some(chars_of("iptr"))
    } else if text_is(t, "uintptr_t") {
        Some(chars_of("uptr"))
    } else {
        None
    }
}

/// The C3 name of a C type name (a `struct`, `enum` or `union` tag, or a
/// `typedef` name).
pub fn to_c3_type_name(c_name: &str) -> (r: String)
    ensures
        r@ == c3_type_name(c_name@),
{
    let s = chars_of(c_name);
    let t = c3_type_name_text(&s);
    string_from_chars(&t)
}

/// The C3 name of a C function, parameter or variable name.
pub fn to_c3_variable_name(c_name: &str) -> (r: String)
    ensures
        r@ == c3_variable_name(c_name@),
        c_name@.len() > 0 ==> r@.len() > 0,
{
    let s = chars_of(c_name);
    let t = c3_variable_name_text(&s);
    string_from_chars(&t)
}

/// The C3 integer type that a C integer type is written as, where it has one.
pub fn convert_c_type(c_type: &str) -> (r: Option<String>)
    ensures
        match r {
            Some(s) => c3_integer_type(c_type@) == Some(s@),
            None => c3_integer_type(c_type@) is None,
        },
{
    let t = chars_of(c_type);
    match c3_integer_type_text(&t) {
        Some(v) => Some(string_from_chars(&v)),
        None => None,
    }
}

} // verus!
