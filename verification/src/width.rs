//! Display width: the number of terminal columns that a line takes up once
//! the escape sequences and the markup in it are gone, summed character by
//! character.

use vstd::prelude::*;
use unicode_width::UnicodeWidthChar;
use crate::escapes::{has_no_markup, strip_line, stripped, ESC};
use crate::strip_lemmas::{lemma_without_escapes_plain, lemma_without_markup_identity};
use crate::text::{repeated, spaces, to_chars};

verus! {

/// What `unicode_width::UnicodeWidthChar::width` returns for `c`: the
/// columns of the character, or nothing for a control character.
pub uninterp spec fn unicode_width(c: char) -> Option<usize>;

/// A printable ASCII character: space to `~`.
pub open spec fn is_printable_ascii(c: char) -> bool {
    ' ' <= c && c <= '~'
}

/// The columns of one character, none for a control character. A
/// printable ASCII character takes one column; the Unicode tables decide
/// the rest.
pub open spec fn char_width(c: char) -> Option<usize> {
    if is_printable_ascii(c) {
        Some(1usize)
    } else {
        unicode_width(c)
    }
}

/// The columns that one character adds to a line: a control character
/// adds none.
pub open spec fn char_columns(c: char) -> nat {
    match char_width(c) {
        Some(w) => w as nat,
        None => 0,
    }
}

/// The columns of a text in which nothing is hidden: the sum over its
/// characters.
pub open spec fn columns(s: Seq<char>) -> nat
    decreases s.len(),
{
    if s.len() == 0 {
        0
    } else {
        columns(s.drop_last()) + char_columns(s.last())
    }
}

/// The display width of a line: the columns of what is left of it once the
/// escape sequences and the markup are stripped.
pub open spec fn display_width(line: Seq<char>) -> nat {
    columns(stripped(line))
}

/// Calls `unicode_width::UnicodeWidthChar::width` on `c`. The result is a
/// function of the character alone, and the crate gives every character
/// from space to `~` one column.
#[verifier::external_body]
fn width_of_char(c: char) -> (w: Option<usize>)
    ensures
        w == unicode_width(c),
        is_printable_ascii(c) ==> w == Some(1usize),
{
    UnicodeWidthChar::width(c)
}

/// One more character adds its columns.
pub proof fn lemma_columns_push(s: Seq<char>, c: char)
    ensures
        columns(s.push(c)) == columns(s) + char_columns(c),
{
    assert(s.push(c).drop_last() == s);
}

/// The columns of two texts put together are the columns of both.
pub proof fn lemma_columns_concat(a: Seq<char>, b: Seq<char>)
    ensures
        columns(a + b) == columns(a) + columns(b),
    decreases b.len(),
{
    if b.len() == 0 {
        assert(a + b == a);
    } else {
        lemma_columns_concat(a, b.drop_last());
        assert((a + b).drop_last() == a + b.drop_last());
    }
}

/// A character repeated takes its columns that many times.
pub proof fn lemma_columns_repeated(c: char, n: nat)
    ensures
        columns(repeated(c, n)) == n * char_columns(c),
    decreases n,
{
    if n > 0 {
        lemma_columns_repeated(c, (n - 1) as nat);
        assert(repeated(c, n).drop_last() == repeated(c, (n - 1) as nat));
        assert(repeated(c, n).last() == c);
        assert(n * char_columns(c) == (n - 1) * char_columns(c) + char_columns(c))
            by (nonlinear_arith);
    } else {
        assert(repeated(c, n).len() == 0);
        assert(n * char_columns(c) == 0) by (nonlinear_arith)
            requires
                n == 0,
        ;
    }
}

/// Every space takes one column.
pub proof fn lemma_columns_spaces(n: nat)
    ensures
        columns(spaces(n)) == n,
{
    lemma_columns_repeated(' ', n);
}

/// A text of printable ASCII characters takes one column for each.
pub proof fn lemma_columns_printable(s: Seq<char>)
    requires
        forall|i: int| 0 <= i < s.len() ==> is_printable_ascii(#[trigger] s[i]),
    ensures
        columns(s) == s.len(),
    decreases s.len(),
{
    if s.len() > 0 {
        lemma_columns_printable(s.drop_last());
    }
}

/// A text of printable ASCII characters that holds no markup is as wide
/// as it is long.
///
/// Markup is itself printable ASCII, and is hidden: `{{x}}` is five
/// characters long and takes no column.
pub proof fn plain_text_is_as_wide_as_long(t: Seq<char>)
    requires
        forall|i: int| 0 <= i < t.len() ==> is_printable_ascii(#[trigger] t[i]),
        has_no_markup(t),
    ensures
        display_width(t) == t.len(),
{
    assert forall|j: int| 0 <= j < t.len() implies t[j] != ESC by {
        assert(is_printable_ascii(t[j]));
    }
    lemma_without_escapes_plain(t, 0);
    lemma_without_markup_identity(t, 0);
    assert(t.subrange(0, t.len() as int) == t);
    lemma_columns_printable(t);
}

/// The columns of a text in which nothing is hidden.
pub fn count_columns(s: &Vec<char>) -> (w: u128)
    ensures
        w == columns(s@),
{
    let mut w: u128 = 0;
    let mut i: usize = 0;
    while i < s.len()
        invariant
            i <= s.len(),
            w == columns(s@.take(i as int)),
            w <= i * usize::MAX,
        decreases s.len() - i,
    {
        let c = s[i];
        let add: u128 = match width_of_char(c) {
            Some(n) => n as u128,
            None => 0,
        };
        proof {
            assert(s@.take(i + 1) == s@.take(i as int).push(c));
            lemma_columns_push(s@.take(i as int), c);
            assert((i + 1) * usize::MAX == i * usize::MAX + usize::MAX) by (nonlinear_arith);
            assert(i * usize::MAX <= usize::MAX * usize::MAX) by (nonlinear_arith)
                requires
                    i <= usize::MAX,
            ;
        }
        w = w + add;
        i = i + 1;
    }
    proof {
        assert(s@.take(s.len() as int) == s@);
    }
    w
}

/// The display width of a line held as characters.
pub fn line_width(line: &Vec<char>) -> (w: u128)
    ensures
        w == display_width(line@),
{
    let shown = strip_line(line);
    count_columns(&shown)
}

/// The display width of a line: the terminal columns that it takes up.
/// Escape sequences and markup in it count for nothing, a control
/// character for nothing, a wide character for two.
pub fn width(line: &str) -> (w: u128)
    ensures
        w == display_width(line@),
{
    let chars = to_chars(line);
    line_width(&chars)
}

} // verus!
