//! How stripping behaves when text is put together: what stands in front
//! of a sequence does not change where it ends, and spaces at either end of
//! a line come through unchanged.

use vstd::prelude::*;
use crate::escapes::{
    ESC, Run, in_run, run_end, csi_end, command_end, escape_end, without_escapes_from,
    without_escapes, markup_close, markup_end, without_markup_from, without_markup, stripped,
    is_final, is_parameter, has_no_escape, has_no_markup, settled,
};
use crate::text::spaces;

verus! {

/// A run ends inside the text, holds only characters of its kind, and
/// stops at the first character that is not of its kind.
pub proof fn lemma_run_end_bounds(kind: Run, s: Seq<char>, i: int)
    requires
        0 <= i <= s.len(),
    ensures
        i <= run_end(kind, s, i) <= s.len(),
        forall|k: int| i <= k < run_end(kind, s, i) ==> in_run(kind, #[trigger] s[k]),
        run_end(kind, s, i) < s.len() ==> !in_run(kind, s[run_end(kind, s, i)]),
    decreases s.len() - i,
{
    if i < s.len() && in_run(kind, s[i]) {
        lemma_run_end_bounds(kind, s, i + 1);
    }
}

/// A position with the three properties of a run's end is the run's end.
pub proof fn lemma_run_end_is(kind: Run, s: Seq<char>, i: int, e: int)
    requires
        0 <= i <= e <= s.len(),
        forall|k: int| i <= k < e ==> in_run(kind, #[trigger] s[k]),
        e < s.len() ==> !in_run(kind, s[e]),
    ensures
        run_end(kind, s, i) == e,
    decreases e - i,
{
    if i < e {
        lemma_run_end_is(kind, s, i + 1, e);
    }
}

/// Text in front of a run moves its end by the length of that text.
pub proof fn lemma_run_end_shift(kind: Run, p: Seq<char>, s: Seq<char>, i: int)
    requires
        0 <= i <= s.len(),
    ensures
        run_end(kind, p + s, p.len() + i) == p.len() + run_end(kind, s, i),
{
    lemma_run_end_bounds(kind, s, i);
    let e = run_end(kind, s, i);
    let t = p + s;
    assert forall|k: int| p.len() + i <= k < p.len() + e implies in_run(kind, #[trigger] t[k]) by {
        assert(t[k] == s[k - p.len()]);
    }
    if e < s.len() {
        assert(t[p.len() + e] == s[e]);
    }
    lemma_run_end_is(kind, t, p.len() + i, p.len() + e);
}

/// A run that ends inside `s` ends there whatever follows `s`.
pub proof fn lemma_run_end_inside(kind: Run, s: Seq<char>, b: Seq<char>, i: int)
    requires
        0 <= i <= s.len(),
        run_end(kind, s, i) < s.len(),
    ensures
        run_end(kind, s + b, i) == run_end(kind, s, i),
{
    lemma_run_end_bounds(kind, s, i);
    let e = run_end(kind, s, i);
    let t = s + b;
    assert forall|k: int| i <= k < e implies in_run(kind, #[trigger] t[k]) by {
        assert(t[k] == s[k]);
    }
    assert(t[e] == s[e]);
    lemma_run_end_is(kind, t, i, e);
}

/// A run that reaches the end of `s` goes on through spaces behind `s` if
/// a space is of its kind, and stops at the end of `s` if not.
pub proof fn lemma_run_end_spaces(kind: Run, s: Seq<char>, k: nat, i: int)
    requires
        0 <= i <= s.len(),
        run_end(kind, s, i) == s.len(),
    ensures
        in_run(kind, ' ') ==> run_end(kind, s + spaces(k), i) == s.len() + k,
        !in_run(kind, ' ') ==> run_end(kind, s + spaces(k), i) == s.len(),
{
    lemma_run_end_bounds(kind, s, i);
    let t = s + spaces(k);
    assert forall|j: int| i <= j < s.len() implies in_run(kind, #[trigger] t[j]) by {
        assert(t[j] == s[j]);
    }
    if in_run(kind, ' ') {
        assert forall|j: int| i <= j < t.len() implies in_run(kind, #[trigger] t[j]) by {
            if j >= s.len() {
                assert(t[j] == ' ');
            }
        }
        lemma_run_end_is(kind, t, i, t.len() as int);
    } else {
        if k > 0 {
            assert(t[s.len() as int] == ' ');
        }
        lemma_run_end_is(kind, t, i, s.len() as int);
    }
}

/// An escape sequence ends inside the text.
pub proof fn lemma_escape_end_bounds(s: Seq<char>, i: int)
    requires
        0 <= i <= s.len(),
    ensures
        i <= escape_end(s, i) <= s.len(),
{
    if i + 1 < s.len() {
        lemma_run_end_bounds(Run::Parameters, s, i + 2);
        lemma_run_end_bounds(Run::Intermediates, s, run_end(Run::Parameters, s, i + 2));
        lemma_run_end_bounds(Run::ToSeparator, s, i + 2);
        let c = run_end(Run::ToSeparator, s, i + 2);
        if c < s.len() {
            lemma_run_end_bounds(Run::ToBackslash, s, c + 1);
        }
    }
}

/// Text in front of an escape sequence moves its end by the length of that
/// text, and makes none where there was none.
pub proof fn lemma_escape_end_shift(p: Seq<char>, s: Seq<char>, i: int)
    requires
        0 <= i <= s.len(),
    ensures
        escape_end(p + s, p.len() + i) == p.len() + escape_end(s, i),
{
    let t = p + s;
    let n = p.len() as int;
    if i + 1 < s.len() {
        assert(t[n + i] == s[i]);
        assert(t[n + i + 1] == s[i + 1]);
        lemma_run_end_bounds(Run::Parameters, s, i + 2);
        lemma_run_end_shift(Run::Parameters, p, s, i + 2);
        let ps = run_end(Run::Parameters, s, i + 2);
        lemma_run_end_bounds(Run::Intermediates, s, ps);
        lemma_run_end_shift(Run::Intermediates, p, s, ps);
        let q = run_end(Run::Intermediates, s, ps);
        if q < s.len() {
            assert(t[n + q] == s[q]);
        }
        assert(csi_end(t, n + i) == n + csi_end(s, i));
        lemma_run_end_bounds(Run::ToSeparator, s, i + 2);
        lemma_run_end_shift(Run::ToSeparator, p, s, i + 2);
        let c = run_end(Run::ToSeparator, s, i + 2);
        if c < s.len() {
            assert(t[n + c] == s[c]);
            lemma_run_end_bounds(Run::ToBackslash, s, c + 1);
            lemma_run_end_shift(Run::ToBackslash, p, s, c + 1);
        }
        assert(command_end(t, n + i) == n + command_end(s, i));
    } else if i < s.len() {
        assert(t[n + i] == s[i]);
    }
}

/// Text in front does not change what stripping the escape sequences
/// leaves of the rest.
pub proof fn lemma_without_escapes_shift(p: Seq<char>, s: Seq<char>, i: int)
    requires
        0 <= i <= s.len(),
    ensures
        without_escapes_from(p + s, p.len() + i) == without_escapes_from(s, i),
    decreases s.len() - i,
{
    if i < s.len() {
        lemma_escape_end_shift(p, s, i);
        lemma_escape_end_bounds(s, i);
        let e = escape_end(s, i);
        if e > i {
            lemma_without_escapes_shift(p, s, e);
        } else {
            lemma_without_escapes_shift(p, s, i + 1);
            assert((p + s)[p.len() + i] == s[i]);
        }
    }
}

/// Where no escape character stands from `i` on, nothing is stripped.
pub proof fn lemma_without_escapes_plain(t: Seq<char>, i: int)
    requires
        0 <= i <= t.len(),
        forall|j: int| i <= j < t.len() ==> t[j] != ESC,
    ensures
        without_escapes_from(t, i) == t.subrange(i, t.len() as int),
    decreases t.len() - i,
{
    if i < t.len() {
        lemma_without_escapes_plain(t, i + 1);
        assert(t.subrange(i, t.len() as int) == seq![t[i]] + t.subrange(i + 1, t.len() as int));
    }
}

/// Spaces behind `s` do not change where an escape sequence of `s` ends.
pub proof fn lemma_escape_end_spaces(s: Seq<char>, k: nat, i: int)
    requires
        0 <= i < s.len(),
    ensures
        escape_end(s + spaces(k), i) == escape_end(s, i),
{
    let t = s + spaces(k);
    assert(t[i] == s[i]);
    if i + 1 < s.len() {
        assert(t[i + 1] == s[i + 1]);
        lemma_run_end_bounds(Run::Parameters, s, i + 2);
        let ps = run_end(Run::Parameters, s, i + 2);
        if ps < s.len() {
            lemma_run_end_inside(Run::Parameters, s, spaces(k), i + 2);
        } else {
            lemma_run_end_spaces(Run::Parameters, s, k, i + 2);
        }
        assert(run_end(Run::Parameters, t, i + 2) == ps);
        lemma_run_end_bounds(Run::Intermediates, s, ps);
        let q = run_end(Run::Intermediates, s, ps);
        if q < s.len() {
            lemma_run_end_inside(Run::Intermediates, s, spaces(k), ps);
            assert(t[q] == s[q]);
        } else {
            lemma_run_end_spaces(Run::Intermediates, s, k, ps);
        }
        assert(csi_end(t, i) == csi_end(s, i));
        lemma_run_end_bounds(Run::ToSeparator, s, i + 2);
        let c = run_end(Run::ToSeparator, s, i + 2);
        if c < s.len() {
            lemma_run_end_inside(Run::ToSeparator, s, spaces(k), i + 2);
            assert(t[c] == s[c]);
            lemma_run_end_bounds(Run::ToBackslash, s, c + 1);
            let b = run_end(Run::ToBackslash, s, c + 1);
            if b < s.len() {
                lemma_run_end_inside(Run::ToBackslash, s, spaces(k), c + 1);
            } else {
                lemma_run_end_spaces(Run::ToBackslash, s, k, c + 1);
            }
        } else {
            lemma_run_end_spaces(Run::ToSeparator, s, k, i + 2);
        }
        assert(command_end(t, i) == command_end(s, i));
    } else if k > 0 {
        assert(t[i + 1] == ' ');
    }
}

/// Spaces behind `s` come through the stripping of escape sequences
/// unchanged, and change nothing in front of them.
pub proof fn lemma_without_escapes_spaces_from(s: Seq<char>, k: nat, i: int)
    requires
        0 <= i <= s.len(),
    ensures
        without_escapes_from(s + spaces(k), i) == without_escapes_from(s, i) + spaces(k),
    decreases s.len() - i,
{
    let t = s + spaces(k);
    if i < s.len() {
        lemma_escape_end_spaces(s, k, i);
        lemma_escape_end_bounds(s, i);
        let e = escape_end(s, i);
        if e > i {
            lemma_without_escapes_spaces_from(s, k, e);
        } else {
            lemma_without_escapes_spaces_from(s, k, i + 1);
            assert(t[i] == s[i]);
            assert(seq![s[i]] + (without_escapes_from(s, i + 1) + spaces(k)) == (seq![s[i]]
                + without_escapes_from(s, i + 1)) + spaces(k));
        }
    } else {
        assert forall|j: int| i <= j < t.len() implies t[j] != ESC by {
            assert(t[j] == ' ');
        }
        lemma_without_escapes_plain(t, i);
        assert(t.subrange(i, t.len() as int) == spaces(k));
        assert(without_escapes_from(s, i) + spaces(k) == spaces(k));
    }
}

/// Text without an escape character in front of `s` comes through the
/// stripping of escape sequences unchanged, and changes nothing behind it.
pub proof fn lemma_without_escapes_plain_prefix(p: Seq<char>, s: Seq<char>, i: int)
    requires
        0 <= i <= p.len(),
        forall|j: int| 0 <= j < p.len() ==> p[j] != ESC,
    ensures
        without_escapes_from(p + s, i) == p.subrange(i, p.len() as int) + without_escapes(s),
    decreases p.len() - i,
{
    let t = p + s;
    if i < p.len() {
        assert(t[i] == p[i]);
        lemma_without_escapes_plain_prefix(p, s, i + 1);
        assert(p.subrange(i, p.len() as int) + without_escapes(s) == seq![p[i]] + (p.subrange(
            i + 1,
            p.len() as int,
        ) + without_escapes(s)));
    } else {
        lemma_without_escapes_shift(p, s, 0);
        assert(p.subrange(i, p.len() as int) + without_escapes(s) == without_escapes(s));
    }
}

/// A closing `}}` that is found stands inside the text, behind no line feed.
pub proof fn lemma_markup_close_bounds(s: Seq<char>, j: int)
    requires
        0 <= j <= s.len(),
    ensures
        j <= markup_close(s, j) <= s.len(),
        markup_close(s, j) < s.len() ==> markup_close(s, j) + 2 <= s.len() && s[markup_close(
            s,
            j,
        )] == '}' && s[markup_close(s, j) + 1] == '}',
        forall|k: int|
            j <= k < markup_close(s, j) && markup_close(s, j) < s.len() ==> #[trigger] s[k]
                != '\n',
    decreases s.len() - j,
{
    if j + 1 < s.len() && s[j] != '\n' && !(s[j] == '}' && s[j + 1] == '}') {
        lemma_markup_close_bounds(s, j + 1);
    }
}

/// Text in front of a closing `}}` moves it by the length of that text.
pub proof fn lemma_markup_close_shift(p: Seq<char>, s: Seq<char>, j: int)
    requires
        0 <= j <= s.len(),
    ensures
        markup_close(p + s, p.len() + j) == p.len() + markup_close(s, j),
    decreases s.len() - j,
{
    let t = p + s;
    let n = p.len() as int;
    if j + 1 < s.len() {
        assert(t[n + j] == s[j]);
        assert(t[n + j + 1] == s[j + 1]);
        if s[j] != '\n' && !(s[j] == '}' && s[j + 1] == '}') {
            lemma_markup_close_shift(p, s, j + 1);
        }
    }
}

/// Markup ends inside the text.
pub proof fn lemma_markup_end_bounds(s: Seq<char>, i: int)
    requires
        0 <= i <= s.len(),
    ensures
        i <= markup_end(s, i) <= s.len(),
{
    if i + 1 < s.len() {
        lemma_markup_close_bounds(s, i + 2);
    }
}

/// Text in front of markup moves its end by the length of that text, and
/// makes none where there was none.
pub proof fn lemma_markup_end_shift(p: Seq<char>, s: Seq<char>, i: int)
    requires
        0 <= i <= s.len(),
    ensures
        markup_end(p + s, p.len() + i) == p.len() + markup_end(s, i),
{
    let t = p + s;
    let n = p.len() as int;
    if i + 1 < s.len() {
        assert(t[n + i] == s[i]);
        assert(t[n + i + 1] == s[i + 1]);
        lemma_markup_close_shift(p, s, i + 2);
    } else if i < s.len() {
        assert(t[n + i] == s[i]);
    }
}

/// Text in front does not change what stripping the markup leaves of the
/// rest.
pub proof fn lemma_without_markup_shift(p: Seq<char>, s: Seq<char>, i: int)
    requires
        0 <= i <= s.len(),
    ensures
        without_markup_from(p + s, p.len() + i) == without_markup_from(s, i),
    decreases s.len() - i,
{
    if i < s.len() {
        lemma_markup_end_shift(p, s, i);
        lemma_markup_end_bounds(s, i);
        let e = markup_end(s, i);
        if e > i {
            lemma_without_markup_shift(p, s, e);
        } else {
            lemma_without_markup_shift(p, s, i + 1);
            assert((p + s)[p.len() + i] == s[i]);
        }
    }
}

/// Where no `}` stands from `j` on, no closing `}}` is found.
pub proof fn lemma_markup_close_none(t: Seq<char>, j: int)
    requires
        0 <= j <= t.len(),
        forall|k: int| j <= k < t.len() ==> t[k] != '}',
    ensures
        markup_close(t, j) == t.len(),
    decreases t.len() - j,
{
    if j + 1 < t.len() && t[j] != '\n' {
        lemma_markup_close_none(t, j + 1);
    }
}

/// Spaces behind `s` change no closing `}}` of `s` and add none.
pub proof fn lemma_markup_close_spaces(s: Seq<char>, k: nat, j: int)
    requires
        0 <= j <= s.len(),
    ensures
        markup_close(s, j) < s.len() ==> markup_close(s + spaces(k), j) == markup_close(s, j),
        markup_close(s, j) >= s.len() ==> markup_close(s + spaces(k), j) == s.len() + k,
    decreases s.len() - j,
{
    let t = s + spaces(k);
    lemma_markup_close_bounds(s, j);
    if j + 1 < s.len() {
        assert(t[j] == s[j]);
        assert(t[j + 1] == s[j + 1]);
        if s[j] != '\n' && !(s[j] == '}' && s[j + 1] == '}') {
            lemma_markup_close_spaces(s, k, j + 1);
        }
    } else if j < s.len() {
        assert(t[j] == s[j]);
        if k > 0 {
            assert(t[j + 1] == ' ');
            assert forall|m: int| j + 1 <= m < t.len() implies t[m] != '}' by {
                assert(t[m] == ' ');
            }
            lemma_markup_close_none(t, j + 1);
        } else {
            assert(t == s);
        }
    } else {
        assert forall|m: int| j <= m < t.len() implies t[m] != '}' by {
            assert(t[m] == ' ');
        }
        lemma_markup_close_none(t, j);
    }
}

/// Spaces behind `s` do not change where markup of `s` ends.
pub proof fn lemma_markup_end_spaces(s: Seq<char>, k: nat, i: int)
    requires
        0 <= i < s.len(),
    ensures
        markup_end(s + spaces(k), i) == markup_end(s, i),
{
    let t = s + spaces(k);
    assert(t[i] == s[i]);
    if i + 1 < s.len() {
        assert(t[i + 1] == s[i + 1]);
        lemma_markup_close_spaces(s, k, i + 2);
        lemma_markup_close_bounds(s, i + 2);
    } else if k > 0 {
        assert(t[i + 1] == ' ');
    }
}

/// Where no `{` stands from `i` on, no markup is stripped.
pub proof fn lemma_without_markup_plain(t: Seq<char>, i: int)
    requires
        0 <= i <= t.len(),
        forall|j: int| i <= j < t.len() ==> t[j] != '{',
    ensures
        without_markup_from(t, i) == t.subrange(i, t.len() as int),
    decreases t.len() - i,
{
    if i < t.len() {
        lemma_without_markup_plain(t, i + 1);
        assert(t.subrange(i, t.len() as int) == seq![t[i]] + t.subrange(i + 1, t.len() as int));
    }
}

/// Spaces behind `s` come through the stripping of markup unchanged, and
/// change nothing in front of them.
pub proof fn lemma_without_markup_spaces_from(s: Seq<char>, k: nat, i: int)
    requires
        0 <= i <= s.len(),
    ensures
        without_markup_from(s + spaces(k), i) == without_markup_from(s, i) + spaces(k),
    decreases s.len() - i,
{
    let t = s + spaces(k);
    if i < s.len() {
        lemma_markup_end_spaces(s, k, i);
        lemma_markup_end_bounds(s, i);
        let e = markup_end(s, i);
        if e > i {
            lemma_without_markup_spaces_from(s, k, e);
        } else {
            lemma_without_markup_spaces_from(s, k, i + 1);
            assert(t[i] == s[i]);
            assert(seq![s[i]] + (without_markup_from(s, i + 1) + spaces(k)) == (seq![s[i]]
                + without_markup_from(s, i + 1)) + spaces(k));
        }
    } else {
        assert forall|j: int| i <= j < t.len() implies t[j] != '{' by {
            assert(t[j] == ' ');
        }
        lemma_without_markup_plain(t, i);
        assert(t.subrange(i, t.len() as int) == spaces(k));
        assert(without_markup_from(s, i) + spaces(k) == spaces(k));
    }
}

/// Text without a `{` in front of `s` comes through the stripping of
/// markup unchanged, and changes nothing behind it.
pub proof fn lemma_without_markup_plain_prefix(p: Seq<char>, s: Seq<char>, i: int)
    requires
        0 <= i <= p.len(),
        forall|j: int| 0 <= j < p.len() ==> p[j] != '{',
    ensures
        without_markup_from(p + s, i) == p.subrange(i, p.len() as int) + without_markup(s),
    decreases p.len() - i,
{
    let t = p + s;
    if i < p.len() {
        assert(t[i] == p[i]);
        lemma_without_markup_plain_prefix(p, s, i + 1);
        assert(p.subrange(i, p.len() as int) + without_markup(s) == seq![p[i]] + (p.subrange(
            i + 1,
            p.len() as int,
        ) + without_markup(s)));
    } else {
        lemma_without_markup_shift(p, s, 0);
        assert(p.subrange(i, p.len() as int) + without_markup(s) == without_markup(s));
    }
}

/// Spaces behind a line are left of it as they are, behind what is left of
/// the line.
pub proof fn lemma_stripped_spaces_behind(s: Seq<char>, k: nat)
    ensures
        stripped(s + spaces(k)) == stripped(s) + spaces(k),
{
    lemma_without_escapes_spaces_from(s, k, 0);
    lemma_without_markup_spaces_from(without_escapes(s), k, 0);
}

/// Spaces in front of a line are left of it as they are, in front of what
/// is left of the line.
pub proof fn lemma_stripped_spaces_in_front(s: Seq<char>, k: nat)
    ensures
        stripped(spaces(k) + s) == spaces(k) + stripped(s),
{
    let p = spaces(k);
    lemma_without_escapes_plain_prefix(p, s, 0);
    assert(p.subrange(0, p.len() as int) == p);
    lemma_without_markup_plain_prefix(p, without_escapes(s), 0);
}

/// What follows settled text is stripped on its own, and settled text
/// followed by settled text is settled.
pub proof fn lemma_settled_concat(a: Seq<char>, b: Seq<char>)
    requires
        settled(a),
        settled(b),
    ensures
        settled(a + b),
        stripped(a + b) == stripped(a) + stripped(b),
{
    assert(stripped(a + b) == stripped(a) + stripped(b));
    assert forall|c: Seq<char>| #[trigger] stripped((a + b) + c) == stripped(a + b) + stripped(c) by {
        assert((a + b) + c == a + (b + c));
        assert(stripped(a + (b + c)) == stripped(a) + stripped(b + c));
        assert(stripped(b + c) == stripped(b) + stripped(c));
        assert(stripped(a) + (stripped(b) + stripped(c)) == (stripped(a) + stripped(b))
            + stripped(c));
    }
}

/// Text that holds neither the escape character nor `{` is settled, and
/// all of it is shown.
pub proof fn lemma_plain_text_settled(x: Seq<char>)
    requires
        forall|j: int| 0 <= j < x.len() ==> x[j] != ESC && x[j] != '{',
    ensures
        settled(x),
        stripped(x) == x,
{
    assert(x.subrange(0, x.len() as int) == x);
    assert forall|b: Seq<char>| stripped(x + b) == x + stripped(b) by {
        lemma_without_escapes_plain_prefix(x, b, 0);
        lemma_without_markup_plain_prefix(x, without_escapes(b), 0);
    }
    assert(stripped(x) == x) by {
        let e = Seq::<char>::empty();
        assert(x + e == x);
        assert(stripped(x + e) == x + stripped(e));
        assert(stripped(e) == e);
    }
    assert forall|b: Seq<char>| #[trigger] stripped(x + b) == stripped(x) + stripped(b) by {
        assert(stripped(x + b) == x + stripped(b));
    }
}

/// Spaces are settled, and all of them are shown.
pub proof fn lemma_spaces_settled(k: nat)
    ensures
        settled(spaces(k)),
        stripped(spaces(k)) == spaces(k),
{
    lemma_plain_text_settled(spaces(k));
}

/// A control sequence without intermediate characters is settled, and
/// nothing of it is shown.
pub proof fn lemma_control_sequence_settled(x: Seq<char>)
    requires
        x.len() >= 3,
        x[0] == ESC,
        x[1] == '[',
        forall|j: int| 2 <= j < x.len() - 1 ==> is_parameter(#[trigger] x[j]),
        is_final(x.last()),
    ensures
        settled(x),
        stripped(x) == Seq::<char>::empty(),
{
    let n = x.len() as int;
    assert forall|b: Seq<char>| stripped(x + b) == stripped(b) by {
        let t = x + b;
        assert(t[0] == x[0] && t[1] == x[1]);
        assert(t[n - 1] == x[n - 1]);
        assert forall|j: int| 2 <= j < n - 1 implies in_run(Run::Parameters, #[trigger] t[j]) by {
            assert(t[j] == x[j]);
        }
        lemma_run_end_is(Run::Parameters, t, 2, n - 1);
        lemma_run_end_is(Run::Intermediates, t, n - 1, n - 1);
        assert(csi_end(t, 0) == n);
        assert(escape_end(t, 0) == n);
        lemma_without_escapes_shift(x, b, 0);
        assert(without_escapes(t) == without_escapes(b));
    }
    assert(stripped(x) == Seq::<char>::empty()) by {
        let e = Seq::<char>::empty();
        assert(x + e == x);
        assert(stripped(x + e) == stripped(e));
        assert(stripped(e) == e);
    }
    assert forall|b: Seq<char>| #[trigger] stripped(x + b) == stripped(x) + stripped(b) by {
        assert(stripped(x + b) == stripped(b));
        assert(stripped(x) + stripped(b) == stripped(b));
    }
}

/// Text in which no escape sequence begins is left as it is.
pub proof fn lemma_without_escapes_identity(s: Seq<char>, i: int)
    requires
        has_no_escape(s),
        0 <= i <= s.len(),
    ensures
        without_escapes_from(s, i) == s.subrange(i, s.len() as int),
    decreases s.len() - i,
{
    if i < s.len() {
        assert(escape_end(s, i) == i);
        lemma_without_escapes_identity(s, i + 1);
        assert(s.subrange(i, s.len() as int) == seq![s[i]] + s.subrange(i + 1, s.len() as int));
    }
}

/// Text in which no markup begins is left as it is.
pub proof fn lemma_without_markup_identity(s: Seq<char>, i: int)
    requires
        has_no_markup(s),
        0 <= i <= s.len(),
    ensures
        without_markup_from(s, i) == s.subrange(i, s.len() as int),
    decreases s.len() - i,
{
    if i < s.len() {
        assert(markup_end(s, i) == i);
        lemma_without_markup_identity(s, i + 1);
        assert(s.subrange(i, s.len() as int) == seq![s[i]] + s.subrange(i + 1, s.len() as int));
    }
}

/// Where no closing `}}` can be found from `j`, no markup begins at `j`.
pub proof fn lemma_no_close_no_markup(s: Seq<char>, j: int)
    requires
        0 <= j < s.len(),
        markup_close(s, j) == s.len(),
    ensures
        markup_end(s, j) == j,
{
    if j + 1 < s.len() && s[j] == '{' && s[j + 1] == '{' {
        assert(markup_close(s, j) == markup_close(s, j + 1));
        if j + 2 < s.len() {
            assert(markup_close(s, j + 1) == markup_close(s, j + 2));
        } else {
            assert(markup_close(s, j + 2) == s.len());
        }
    }
}

/// Where no closing `}}` can be found from `j`, none can be found in what
/// is left of the text from `j` on.
pub proof fn lemma_no_close_survives(s: Seq<char>, j: int)
    requires
        0 <= j <= s.len(),
        markup_close(s, j) == s.len(),
    ensures
        markup_close(without_markup_from(s, j), 0) == without_markup_from(s, j).len(),
    decreases s.len() - j,
{
    let r = without_markup_from(s, j);
    if j < s.len() {
        lemma_no_close_no_markup(s, j);
        let r1 = without_markup_from(s, j + 1);
        assert(r == seq![s[j]] + r1);
        if j + 1 < s.len() && s[j] != '\n' {
            assert(markup_close(s, j + 1) == s.len());
            lemma_no_close_survives(s, j + 1);
            lemma_no_close_no_markup(s, j + 1);
            assert(r1 == seq![s[j + 1]] + without_markup_from(s, j + 2));
            assert(r[0] == s[j]);
            assert(r[1] == s[j + 1]);
            lemma_markup_close_shift(seq![s[j]], r1, 0);
            assert(markup_close(r, 0) == markup_close(r, 1));
        } else if j + 1 < s.len() {
            assert(r[0] == '\n');
        } else {
            assert(r1 == Seq::<char>::empty());
            assert(r.len() == 1);
        }
    }
}

/// What stripping the markup leaves of a text holds no markup.
pub proof fn lemma_without_markup_clean(s: Seq<char>, i: int)
    requires
        0 <= i <= s.len(),
    ensures
        has_no_markup(without_markup_from(s, i)),
    decreases s.len() - i,
{
    let r = without_markup_from(s, i);
    if i < s.len() {
        lemma_markup_end_bounds(s, i);
        let e = markup_end(s, i);
        if e > i {
            lemma_without_markup_clean(s, e);
        } else {
            let c = s[i];
            let r1 = without_markup_from(s, i + 1);
            lemma_without_markup_clean(s, i + 1);
            assert(r == seq![c] + r1);
            assert forall|p: int| 0 <= p < r.len() implies #[trigger] markup_end(r, p) == p by {
                if p >= 1 {
                    lemma_markup_end_shift(seq![c], r1, p - 1);
                    if p - 1 < r1.len() {
                        assert(markup_end(r1, p - 1) == p - 1);
                    }
                } else if c == '{' && r.len() >= 2 && r[1] == '{' {
                    assert(r1[0] == r[1]);
                    lemma_markup_end_bounds(s, i + 1);
                    if markup_end(s, i + 1) > i + 1 {
                        lemma_markup_close_bounds(s, i + 3);
                        assert(markup_close(s, i + 2) == markup_close(s, i + 3));
                        assert(false);
                    }
                    let r2 = without_markup_from(s, i + 2);
                    assert(r1 == seq![s[i + 1]] + r2);
                    assert(s[i + 1] == '{');
                    lemma_markup_close_bounds(s, i + 2);
                    assert(markup_close(s, i + 2) == s.len());
                    lemma_no_close_survives(s, i + 2);
                    let two = seq![c, s[i + 1]];
                    assert(r == two + r2);
                    lemma_markup_close_shift(two, r2, 0);
                }
            }
        }
    }
}

/// What is left of a text holds no markup.
pub proof fn lemma_stripped_has_no_markup(t: Seq<char>)
    ensures
        has_no_markup(stripped(t)),
{
    lemma_without_markup_clean(without_escapes(t), 0);
}

/// Stripping a second time changes nothing, provided no escape sequence
/// begins in what the first time left.
///
/// Stripping can leave a sequence behind: of two escape characters in a
/// row the first is no sequence and stays, so what follows the second may
/// close up behind it into a new one.
pub proof fn stripping_twice_changes_nothing(t: Seq<char>)
    requires
        has_no_escape(stripped(t)),
    ensures
        stripped(stripped(t)) == stripped(t),
{
    let once = stripped(t);
    lemma_without_escapes_identity(once, 0);
    assert(once.subrange(0, once.len() as int) == once);
    lemma_stripped_has_no_markup(t);
    lemma_without_markup_identity(once, 0);
}

} // verus!
