//! What holds of the body that a `case` or `default` label is given: when it
//! falls through, how its lines are laid out, and what it is when the label
//! ends in a `break`.

use vstd::prelude::*;
use crate::symbols::Names;
use crate::syntax::SyntaxNode;
use crate::text::{ends_with, replace_all, starts_with, trim, trim_end, white_space};
use crate::translation::{
    falls_through, has_real_statement, label_body, label_lines, last_real_index, skipped_break,
    translation, Placement,
};

verus! {

/// `j` is the position of the last statement that is not a comment: that
/// statement is not a comment, and every statement after it is one.
pub open spec fn is_last_real(ss: Seq<SyntaxNode>, j: int) -> bool {
    &&& 0 <= j < ss.len()
    &&& ss[j].kind@ != "comment"@
    &&& forall|i: int| j < i < ss.len() ==> #[trigger] ss[i].kind@ == "comment"@
}

/// Whether a statement of this kind leaves the `switch` or jumps away, so
/// that a label ending in it does not fall through.
pub open spec fn ends_a_case(kind: Seq<char>) -> bool {
    ||| kind == "break_statement"@
    ||| kind == "return_statement"@
    ||| kind == "continue_statement"@
    ||| kind == "goto_statement"@
}

/// Four spaces stand in `s` from position `i` on.
pub open spec fn four_spaces_at(s: Seq<char>, i: int) -> bool {
    &&& 0 <= i
    &&& i + 4 <= s.len()
    &&& s[i] == ' '
    &&& s[i + 1] == ' '
    &&& s[i + 2] == ' '
    &&& s[i + 3] == ' '
}

/// Every line of `s` begins with four spaces: `s`, where it is not empty,
/// and every line break in it is followed by four spaces.
pub open spec fn lines_indented(s: Seq<char>) -> bool {
    &&& s.len() > 0 ==> four_spaces_at(s, 0)
    &&& forall|i: int| 0 <= i < s.len() && #[trigger] s[i] == '\n' ==> four_spaces_at(s, i + 1)
}

/// Whole indented lines: `s`, where it is not empty, begins with four spaces
/// and ends with a line break, and every other line break in it is followed
/// by four spaces.
spec fn whole_lines(s: Seq<char>) -> bool {
    &&& s.len() > 0 ==> four_spaces_at(s, 0) && s.last() == '\n'
    &&& forall|i: int|
        0 <= i < s.len() - 1 && #[trigger] s[i] == '\n' ==> four_spaces_at(s, i + 1)
}

/// The last statement that is not a comment is found by `last_real_index`:
/// there is one exactly when some statement is not a comment, and it is the
/// one position that `is_last_real` describes.
pub proof fn last_real_index_finds_it(ss: Seq<SyntaxNode>)
    ensures
        last_real_index(ss) is Some <==> has_real_statement(ss),
        last_real_index(ss) matches Some(j) ==> is_last_real(ss, j),
        forall|j: int| is_last_real(ss, j) ==> last_real_index(ss) == Some(j),
    decreases ss.len(),
{
    if ss.len() > 0 {
        let init = ss.drop_last();
        last_real_index_finds_it(init);
        if ss.last().kind@ != "comment"@ {
            assert(has_real_statement(ss)) by {
                assert(ss[ss.len() - 1].kind@ != "comment"@);
            }
            assert forall|j: int| is_last_real(ss, j) implies last_real_index(ss) == Some(j) by {
                if j < ss.len() - 1 {
                    assert(ss[ss.len() - 1].kind@ == "comment"@);
                }
            }
        } else {
            assert(has_real_statement(ss) <==> has_real_statement(init)) by {
                if has_real_statement(ss) {
                    let i = choose|i: int| 0 <= i < ss.len() && ss[i].kind@ != "comment"@;
                    assert(init[i] == ss[i]);
                }
                if has_real_statement(init) {
                    let i = choose|i: int| 0 <= i < init.len() && init[i].kind@ != "comment"@;
                    assert(init[i] == ss[i]);
                }
            }
            if let Some(j) = last_real_index(init) {
                assert forall|i: int| j < i < ss.len() implies #[trigger] ss[i].kind@
                    == "comment"@ by {
                    if i < ss.len() - 1 {
                        assert(init[i] == ss[i]);
                    }
                }
            }
            assert forall|j: int| is_last_real(ss, j) implies last_real_index(ss) == Some(j) by {
                assert(j < ss.len() - 1);
                assert forall|i: int| j < i < init.len() implies #[trigger] init[i].kind@
                    == "comment"@ by {
                    assert(init[i] == ss[i]);
                }
                assert(is_last_real(init, j));
            }
        }
    } else {
        assert(!has_real_statement(ss));
    }
}

/// A label falls through to the next exactly when some statement of it is
/// not a comment and the last such statement is not a `break`, `return`,
/// `continue` or `goto`.
pub proof fn case_falls_through_exactly(ss: Seq<SyntaxNode>, p: Placement, names: Names)
    ensures
        label_body(ss, p, names).1 <==> (exists|j: int|
            is_last_real(ss, j) && !ends_a_case(#[trigger] ss[j].kind@)),
{
    last_real_index_finds_it(ss);
    if let Some(j) = last_real_index(ss) {
        assert(ss[j].kind@ == ss[j].kind@);
    }
}

/// Where the last statement that is not a comment is a `break`, the label
/// does not fall through, and its body is the lines of its statements with
/// that `break` left out, without trailing whitespace.
pub proof fn case_ending_in_break(ss: Seq<SyntaxNode>, p: Placement, names: Names, j: int)
    requires
        is_last_real(ss, j),
        ss[j].kind@ == "break_statement"@,
    ensures
        label_body(ss, p, names) == (trim_end(label_lines(ss, p, names, Some(j))), false),
{
    last_real_index_finds_it(ss);
    assert(skipped_break(ss) == Some(j));
    assert(!falls_through(ss));
}

proof fn lemma_trim_end_twice(s: Seq<char>)
    ensures
        trim_end(trim_end(s)) == trim_end(s),
    decreases s.len(),
{
    if s.len() > 0 && white_space(s.last()) {
        lemma_trim_end_twice(s.drop_last());
    }
}

/// `trim_end(s)` is a prefix of `s` that is empty or ends with a character
/// that is not whitespace; the length of that prefix is returned.
proof fn lemma_trim_end_prefix(s: Seq<char>) -> (m: int)
    ensures
        0 <= m <= s.len(),
        trim_end(s) == s.take(m),
        m > 0 ==> !white_space(s[m - 1]),
    decreases s.len(),
{
    if s.len() > 0 && white_space(s.last()) {
        let m = lemma_trim_end_prefix(s.drop_last());
        assert(s.drop_last().take(m) == s.take(m));
        m
    } else {
        assert(s.take(s.len() as int) == s);
        s.len() as int
    }
}

/// Where `s` is whole indented lines, trimming its trailing whitespace leaves
/// text whose every line begins with four spaces.
proof fn lemma_trimmed_lines_indented(s: Seq<char>)
    requires
        whole_lines(s),
    ensures
        lines_indented(trim_end(s)),
{
    let m = lemma_trim_end_prefix(s);
    let t = s.take(m);
    if m > 0 {
        // The last character kept is not whitespace, and the first four are
        // spaces, so all four are kept.
        assert(four_spaces_at(s, 0));
        assert(m > 4);
        assert(four_spaces_at(t, 0));
    }
    assert forall|i: int| 0 <= i < t.len() && #[trigger] t[i] == '\n' implies four_spaces_at(
        t,
        i + 1,
    ) by {
        assert(s[i] == '\n');
        assert(white_space(s[i]));
        assert(i < m - 1);
        assert(four_spaces_at(s, i + 1));
        assert(white_space(s[i + 1]) && white_space(s[i + 2]) && white_space(s[i + 3])
            && white_space(s[i + 4]));
        assert(i + 4 < m - 1 || i + 4 == m - 1);
        assert(i + 4 != m - 1);
    }
}

proof fn lemma_whole_lines_concat(a: Seq<char>, b: Seq<char>)
    requires
        whole_lines(a),
        whole_lines(b),
    ensures
        whole_lines(a + b),
{
    let s = a + b;
    if s.len() > 0 {
        if a.len() > 0 {
            assert(four_spaces_at(a, 0));
        } else {
            assert(s == b);
        }
        if b.len() > 0 {
            assert(s.last() == b.last());
        } else {
            assert(s == a);
        }
    }
    assert forall|i: int| 0 <= i < s.len() - 1 && #[trigger] s[i] == '\n' implies four_spaces_at(
        s,
        i + 1,
    ) by {
        if i < a.len() - 1 {
            assert(a[i] == '\n');
            assert(four_spaces_at(a, i + 1));
        } else if i == a.len() - 1 {
            assert(b.len() > 0);
            assert(four_spaces_at(b, 0));
        } else {
            assert(b[i - a.len()] == '\n');
            assert(four_spaces_at(b, i - a.len() + 1));
        }
    }
}

/// In `t` with every line break followed by four spaces, that is true of
/// every line break.
proof fn lemma_replaced_breaks_indented(t: Seq<char>)
    ensures
        forall|i: int|
            0 <= i < replace_all(t, "\n"@, "\n    "@).len() && #[trigger] replace_all(
                t,
                "\n"@,
                "\n    "@,
            )[i] == '\n' ==> four_spaces_at(replace_all(t, "\n"@, "\n    "@), i + 1),
    decreases t.len(),
{
    reveal_strlit("\n");
    reveal_strlit("\n    ");
    let r = replace_all(t, "\n"@, "\n    "@);
    if t.len() > 0 {
        lemma_replaced_breaks_indented(t.drop_first());
        let rest = replace_all(t.drop_first(), "\n"@, "\n    "@);
        if starts_with(t, "\n"@) {
            assert(t.skip(1) == t.drop_first());
            assert(r == "\n    "@ + rest);
            assert forall|i: int| 0 <= i < r.len() && #[trigger] r[i] == '\n' implies four_spaces_at(
                r,
                i + 1,
            ) by {
                if i >= 5 {
                    assert(r[i] == rest[i - 5]);
                    assert(four_spaces_at(rest, i - 4));
                }
            }
        } else {
            assert("\n"@.len() == 1 && "\n"@[0] == '\n');
            if t[0] == '\n' {
                assert(t.take(1) =~= "\n"@);
            }
            assert(r == seq![t[0]] + rest);
            assert forall|i: int| 0 <= i < r.len() && #[trigger] r[i] == '\n' implies four_spaces_at(
                r,
                i + 1,
            ) by {
                assert(i >= 1);
                assert(r[i] == rest[i - 1]);
                assert(four_spaces_at(rest, i));
            }
        }
    }
}

/// One statement's lines in a label body are whole indented lines.
proof fn lemma_statement_lines(t: Seq<char>)
    ensures
        whole_lines("    "@ + replace_all(t, "\n"@, "\n    "@) + "\n"@),
{
    reveal_strlit("    ");
    reveal_strlit("\n");
    let r = replace_all(t, "\n"@, "\n    "@);
    let s = "    "@ + r + "\n"@;
    lemma_replaced_breaks_indented(t);
    assert forall|i: int| 0 <= i < s.len() - 1 && #[trigger] s[i] == '\n' implies four_spaces_at(
        s,
        i + 1,
    ) by {
        assert(4 <= i);
        assert(s[i] == r[i - 4]);
        assert(four_spaces_at(r, i - 3));
    }
}

proof fn lemma_label_lines_whole(ss: Seq<SyntaxNode>, p: Placement, names: Names, skip: Option<int>)
    ensures
        whole_lines(label_lines(ss, p, names, skip)),
    decreases ss.len(),
{
    if ss.len() > 0 {
        let init = ss.subrange(0, ss.len() - 1);
        lemma_label_lines_whole(init, p, names, skip);
        if skip != Some(ss.len() - 1) {
            let t = translation(ss[ss.len() - 1], p, names);
            if trim(t).len() != 0 {
                lemma_statement_lines(t);
                let a = label_lines(init, p, names, skip);
                lemma_whole_lines_concat(a, "    "@ + replace_all(t, "\n"@, "\n    "@) + "\n"@);
                assert(a + "    "@ + replace_all(t, "\n"@, "\n    "@) + "\n"@ == a + ("    "@
                    + replace_all(t, "\n"@, "\n    "@) + "\n"@));
            }
        }
    }
}

/// The shape of a label body: it has no trailing whitespace; where the label
/// falls through it ends with `nextcase;` on a line of its own; every line of
/// it begins with four spaces; and a label without statements has an empty
/// body and does not fall through.
pub proof fn case_body_shape(ss: Seq<SyntaxNode>, p: Placement, names: Names)
    ensures
        label_body(ss, p, names).0 == trim_end(label_body(ss, p, names).0),
        label_body(ss, p, names).1 ==> ends_with(label_body(ss, p, names).0, "    nextcase;"@),
        label_body(ss, p, names).1 ==> ends_with(label_body(ss, p, names).0, "\n    nextcase;"@)
            || label_body(ss, p, names).0 == "    nextcase;"@,
        lines_indented(label_body(ss, p, names).0),
        ss.len() == 0 ==> label_body(ss, p, names) == (Seq::<char>::empty(), false),
{
    reveal_strlit("    nextcase;\n");
    reveal_strlit("    nextcase;");
    reveal_strlit("\n    nextcase;");
    let lines = label_lines(ss, p, names, skipped_break(ss));
    lemma_label_lines_whole(ss, p, names, skipped_break(ss));
    let tail = "    nextcase;\n"@;
    let all = if falls_through(ss) {
        lines + tail
    } else {
        lines
    };
    lemma_trim_end_twice(all);
    assert(whole_lines(tail)) by {
        assert forall|i: int| 0 <= i < tail.len() - 1 && #[trigger] tail[i] == '\n' implies four_spaces_at(
            tail,
            i + 1,
        ) by {}
    }
    if falls_through(ss) {
        lemma_whole_lines_concat(lines, tail);
        let kept = lines + "    nextcase;"@;
        assert(all.drop_last() == kept);
        assert(white_space(all.last()));
        assert(!white_space(kept.last()));
        assert(trim_end(kept) == kept);
        assert(trim_end(all) == kept);
        assert(kept.skip(kept.len() - 13) == "    nextcase;"@);
        if lines.len() > 0 {
            assert(lines.last() == '\n');
            assert(kept.skip(kept.len() - 14) == "\n    nextcase;"@);
        } else {
            assert(kept == "    nextcase;"@);
        }
    }
    lemma_trimmed_lines_indented(all);
    if ss.len() == 0 {
        assert(last_real_index(ss) is None);
    }
}

} // verus!
