//! What holds of the enumerations that the translation writes: their body is
//! the items joined one per line, and a `const NAME { A, B }` declaration
//! always becomes an `enum`.

use vstd::prelude::*;
use crate::symbols::Names;
use crate::syntax::{field_child, text_of, SyntaxNode};
use crate::text::{
    after_char, before_char, first_index, has_char, is_first_index, join, lemma_first_index_exists,
    split_char, starts_with, trim_end, trim_start, trimmed_nonempty, words,
};
use crate::translation::{
    child_placement, const_enum_translation, enum_translation, enumerator_items, item_block,
    item_lines, lookup_or, some_item_has_eq, Placement,
};

verus! {

/// Each item with four spaces before it.
pub open spec fn indented_items(items: Seq<Seq<char>>) -> Seq<Seq<char>> {
    items.map_values(|e: Seq<char>| "    "@ + e)
}

/// An enumeration body written as the items, indented, joined by a comma and
/// a line break, with a line break after the last, all in braces.
pub open spec fn joined_block(items: Seq<Seq<char>>) -> Seq<char> {
    "{\n"@ + join(indented_items(items), ",\n"@) + (if items.len() == 0 {
        Seq::empty()
    } else {
        "\n"@
    }) + "}"@
}

proof fn lemma_item_lines_joined(items: Seq<Seq<char>>, i: int)
    requires
        0 < i <= items.len(),
    ensures
        item_lines(items, i) == join(indented_items(items).take(i), ",\n"@) + if i < items.len() {
            ",\n"@
        } else {
            "\n"@
        },
    decreases i,
{
    let ind = indented_items(items);
    if i == 1 {
        assert(item_lines(items, 0) == Seq::<char>::empty());
        assert(ind.take(1).len() == 1);
        assert(ind.take(1)[0] == "    "@ + items[0]);
        assert(Seq::<char>::empty() + "    "@ + items[0] =~= "    "@ + items[0]);
    } else {
        lemma_item_lines_joined(items, i - 1);
        assert(ind.take(i).drop_last() =~= ind.take(i - 1));
        assert(ind.take(i).last() == "    "@ + items[i - 1]);
        let j = join(ind.take(i - 1), ",\n"@);
        let end = if i < items.len() {
            ",\n"@
        } else {
            "\n"@
        };
        assert(j + ",\n"@ + "    "@ + items[i - 1] + end =~= j + ",\n"@ + ("    "@ + items[i - 1])
            + end);
    }
}

/// An enumeration body is its items, indented, joined by a comma and a line
/// break, with a line break after the last one, in braces; with no items it
/// is `{\n}`.
pub proof fn item_block_is_joined(items: Seq<Seq<char>>)
    ensures
        item_block(items) == joined_block(items),
{
    if items.len() > 0 {
        lemma_item_lines_joined(items, items.len() as int);
        assert(indented_items(items).take(items.len() as int) =~= indented_items(items));
    } else {
        assert(indented_items(items).len() == 0);
        assert(item_lines(items, 0) == Seq::<char>::empty());
    }
}

/// An `enum` specifier with a name and a body becomes `constdef` where the
/// body's text holds `=` and `enum` otherwise, then the C3 name of the type,
/// then its enumerators, each indented on a line of its own, joined by
/// commas.
pub proof fn enum_with_body_is_joined(n: SyntaxNode, p: Placement, names: Names)
    requires
        field_child(n, "name"@) is Some,
        field_child(n, "body"@) is Some,
    ensures
        ({
            let name = field_child(n, "name"@)->0;
            let body = field_child(n, "body"@)->0;
            let items = enumerator_items(
                body.children@,
                child_placement(body, child_placement(n, p)),
                names,
            );
            let head = if has_char(text_of(body), '=') {
                "constdef "@
            } else {
                "enum "@
            };
            enum_translation(n, p, names) == head + lookup_or(names.types, text_of(name)) + " "@
                + joined_block(items)
        }),
{
    let body = field_child(n, "body"@)->0;
    let items = enumerator_items(
        body.children@,
        child_placement(body, child_placement(n, p)),
        names,
    );
    item_block_is_joined(items);
}

// ---------------------------------------------------------------------------
// A character absent from a text is absent from the parts cut from it
// ---------------------------------------------------------------------------

proof fn lemma_absent_take_skip(s: Seq<char>, d: char, n: int)
    requires
        !has_char(s, d),
        0 <= n <= s.len(),
    ensures
        !has_char(s.take(n), d),
        !has_char(s.skip(n), d),
{
    if has_char(s.take(n), d) {
        let k = choose|k: int| 0 <= k < s.take(n).len() && s.take(n)[k] == d;
        assert(s[k] == d);
    }
    if has_char(s.skip(n), d) {
        let k = choose|k: int| 0 <= k < s.skip(n).len() && s.skip(n)[k] == d;
        assert(s[n + k] == d);
    }
}

proof fn lemma_absent_before_after(s: Seq<char>, c: char, d: char)
    requires
        !has_char(s, d),
    ensures
        !has_char(before_char(s, c), d),
        has_char(s, c) ==> !has_char(after_char(s, c), d),
{
    if has_char(s, c) {
        lemma_first_index_exists(s, c);
        let f = first_index(s, c);
        assert(is_first_index(s, c, f));
        lemma_absent_take_skip(s, d, f);
        lemma_absent_take_skip(s, d, f + 1);
    }
}

proof fn lemma_absent_split(s: Seq<char>, c: char, d: char)
    requires
        !has_char(s, d),
    ensures
        split_char(s, c).len() > 0,
        forall|i: int| 0 <= i < split_char(s, c).len() ==> !has_char(#[trigger] split_char(s, c)[i], d),
    decreases s.len(),
{
    if s.len() > 0 {
        let init = split_char(s.drop_last(), c);
        lemma_absent_take_skip(s, d, s.len() - 1);
        assert(s.drop_last() == s.take(s.len() - 1));
        lemma_absent_split(s.drop_last(), c, d);
        assert(s.last() != d) by {
            assert(s[s.len() - 1] == s.last());
        }
        if s.last() != c {
            let grown = init.last().push(s.last());
            assert(!has_char(init.last(), d)) by {
                assert(init[init.len() - 1] == init.last());
            }
            if has_char(grown, d) {
                let k = choose|k: int| 0 <= k < grown.len() && grown[k] == d;
                if k < init.last().len() {
                    assert(init.last()[k] == d);
                }
            }
            let r = init.update(init.len() - 1, grown);
            assert forall|i: int| 0 <= i < r.len() implies !has_char(#[trigger] r[i], d) by {
                if i < init.len() - 1 {
                    assert(r[i] == init[i]);
                }
            }
        } else {
            let r = init.push(Seq::empty());
            assert forall|i: int| 0 <= i < r.len() implies !has_char(#[trigger] r[i], d) by {
                if i < init.len() {
                    assert(r[i] == init[i]);
                }
            }
        }
    }
}

proof fn lemma_absent_trim_start(s: Seq<char>, d: char)
    requires
        !has_char(s, d),
    ensures
        !has_char(trim_start(s), d),
    decreases s.len(),
{
    if s.len() > 0 {
        lemma_absent_take_skip(s, d, 1);
        assert(s.skip(1) == s.drop_first());
        lemma_absent_trim_start(s.drop_first(), d);
    }
}

proof fn lemma_absent_trim_end(s: Seq<char>, d: char)
    requires
        !has_char(s, d),
    ensures
        !has_char(trim_end(s), d),
    decreases s.len(),
{
    if s.len() > 0 {
        lemma_absent_take_skip(s, d, s.len() - 1);
        assert(s.take(s.len() - 1) == s.drop_last());
        lemma_absent_trim_end(s.drop_last(), d);
    }
}

proof fn lemma_absent_trimmed_nonempty(pieces: Seq<Seq<char>>, d: char)
    requires
        forall|i: int| 0 <= i < pieces.len() ==> !has_char(#[trigger] pieces[i], d),
    ensures
        forall|i: int|
            0 <= i < trimmed_nonempty(pieces).len() ==> !has_char(
                #[trigger] trimmed_nonempty(pieces)[i],
                d,
            ),
    decreases pieces.len(),
{
    if pieces.len() > 0 {
        let init = trimmed_nonempty(pieces.drop_last());
        assert forall|i: int| 0 <= i < pieces.drop_last().len() implies !has_char(
            #[trigger] pieces.drop_last()[i],
            d,
        ) by {
            assert(pieces.drop_last()[i] == pieces[i]);
        }
        lemma_absent_trimmed_nonempty(pieces.drop_last(), d);
        assert(!has_char(pieces.last(), d)) by {
            assert(pieces[pieces.len() - 1] == pieces.last());
        }
        lemma_absent_trim_start(pieces.last(), d);
        lemma_absent_trim_end(trim_start(pieces.last()), d);
        let r = trimmed_nonempty(pieces);
        assert forall|i: int| 0 <= i < r.len() implies !has_char(#[trigger] r[i], d) by {
            if i < init.len() {
                assert(r[i] == init[i]);
            }
        }
    }
}

/// The name that a `const NAME { A, B }` declaration gives its type.
pub open spec fn const_enum_name(t: Seq<char>) -> Seq<char> {
    words(before_char(t, '{'))[1]
}

/// The items of a `const NAME { A, B }` declaration: the pieces between the
/// braces, split at commas and trimmed, the empty ones left out.
pub open spec fn const_enum_items(t: Seq<char>) -> Seq<Seq<char>> {
    trimmed_nonempty(split_char(before_char(after_char(t, '{'), '}'), ','))
}

/// A `const NAME { A, B }` declaration always becomes an `enum`, never a
/// `constdef`: its text holds no `=`, so none of its items does. What it
/// becomes is `enum`, the C3 name of `NAME`, and the items, each indented on
/// a line of its own, joined by commas.
pub proof fn const_enum_is_enum(t: Seq<char>, names: Names)
    ensures
        const_enum_translation(t, names) matches Some(r) ==> starts_with(r, "enum "@) && r
            == "enum "@ + lookup_or(names.types, const_enum_name(t)) + " "@ + joined_block(
            const_enum_items(t),
        ),
{
    if let Some(r) = const_enum_translation(t, names) {
        let braced_part = after_char(t, '{');
        lemma_absent_before_after(t, '{', '=');
        lemma_absent_before_after(braced_part, '}', '=');
        let inner = before_char(braced_part, '}');
        lemma_absent_split(inner, ',', '=');
        lemma_absent_trimmed_nonempty(split_char(inner, ','), '=');
        let items = const_enum_items(t);
        assert(!some_item_has_eq(items));
        item_block_is_joined(items);
        let rest = lookup_or(names.types, const_enum_name(t)) + " "@ + joined_block(items);
        assert(r =~= "enum "@ + rest);
        assert(("enum "@ + rest).take("enum "@.len() as int) =~= "enum "@);
    }
}

} // verus!
