//! What a terminal does not show: control sequences that begin with the
//! escape character, and `{{...}}` markup that was never resolved. Stripping
//! both leaves the text that takes up columns.

use vstd::prelude::*;
use crate::text::{to_chars, to_text};

verus! {

/// The escape character, which begins every control sequence.
pub const ESC: char = '\u{1b}';

/// A parameter character of a control sequence: `0` to `?`.
pub open spec fn is_parameter(c: char) -> bool {
    '0' <= c && c <= '?'
}

/// An intermediate character of a control sequence: `-`, space or `/`.
pub open spec fn is_intermediate(c: char) -> bool {
    c == '-' || c == ' ' || c == '/'
}

/// A final character of a control sequence: `@` to `~`.
pub open spec fn is_final(c: char) -> bool {
    '@' <= c && c <= '~'
}

/// The kinds of character runs inside an escape sequence.
#[derive(Clone, Copy, PartialEq, Eq, Structural)]
pub enum Run {
    /// Parameter characters.
    Parameters,
    /// Intermediate characters.
    Intermediates,
    /// Anything but a semicolon or a backslash.
    ToSeparator,
    /// Anything but a backslash.
    ToBackslash,
}

/// `c` belongs to a run of the kind `kind`.
pub open spec fn in_run(kind: Run, c: char) -> bool {
    match kind {
        Run::Parameters => is_parameter(c),
        Run::Intermediates => is_intermediate(c),
        Run::ToSeparator => c != ';' && c != '\\',
        Run::ToBackslash => c != '\\',
    }
}

/// The end of the run of the kind `kind` that begins at `i`: the first
/// position at or after `i` whose character is not of the run, or the
/// length of `s`.
pub open spec fn run_end(kind: Run, s: Seq<char>, i: int) -> int
    decreases s.len() - i,
{
    if 0 <= i && i < s.len() && in_run(kind, s[i]) {
        run_end(kind, s, i + 1)
    } else {
        i
    }
}

/// One past the control sequence that begins at `i`, or `i` where none
/// does. Such a sequence is the escape character, `[`, any number of
/// parameter characters, any number of intermediate characters, and one
/// final character.
pub open spec fn csi_end(s: Seq<char>, i: int) -> int {
    if 0 <= i && i + 1 < s.len() && s[i] == ESC && s[i + 1] == '[' {
        let q = run_end(Run::Intermediates, s, run_end(Run::Parameters, s, i + 2));
        if q < s.len() && is_final(s[q]) {
            q + 1
        } else {
            i
        }
    } else {
        i
    }
}

/// One past the application command that begins at `i`, or `i` where none
/// does. Such a command is the escape character, `_`, and everything up to
/// and including the next backslash, provided a semicolon stands in
/// between.
pub open spec fn command_end(s: Seq<char>, i: int) -> int {
    if 0 <= i && i + 1 < s.len() && s[i] == ESC && s[i + 1] == '_' {
        let c = run_end(Run::ToSeparator, s, i + 2);
        if c < s.len() && s[c] == ';' {
            let b = run_end(Run::ToBackslash, s, c + 1);
            if b < s.len() {
                b + 1
            } else {
                i
            }
        } else {
            i
        }
    } else {
        i
    }
}

/// One past the escape sequence, of either kind, that begins at `i`, or `i`
/// where none does.
pub open spec fn escape_end(s: Seq<char>, i: int) -> int {
    if csi_end(s, i) > i {
        csi_end(s, i)
    } else {
        command_end(s, i)
    }
}

/// `s` from `i` on without its escape sequences, found from left to right.
pub open spec fn without_escapes_from(s: Seq<char>, i: int) -> Seq<char>
    decreases s.len() - i,
{
    let e = escape_end(s, i);
    if i < 0 || i >= s.len() {
        Seq::empty()
    } else if i < e && e <= s.len() {
        without_escapes_from(s, e)
    } else {
        seq![s[i]] + without_escapes_from(s, i + 1)
    }
}

/// `s` without its escape sequences.
pub open spec fn without_escapes(s: Seq<char>) -> Seq<char> {
    without_escapes_from(s, 0)
}

/// The position of the first `}}` at or after `j` that no line feed comes
/// before, or the length of `s` where there is none.
pub open spec fn markup_close(s: Seq<char>, j: int) -> int
    decreases s.len() - j,
{
    if j < 0 || j + 1 >= s.len() || s[j] == '\n' {
        s.len() as int
    } else if s[j] == '}' && s[j + 1] == '}' {
        j
    } else {
        markup_close(s, j + 1)
    }
}

/// One past the markup that begins at `i`, or `i` where none does. Markup
/// is `{{`, then as little as possible without a line feed, then `}}`.
pub open spec fn markup_end(s: Seq<char>, i: int) -> int {
    if 0 <= i && i + 1 < s.len() && s[i] == '{' && s[i + 1] == '{' && markup_close(s, i + 2)
        < s.len() {
        markup_close(s, i + 2) + 2
    } else {
        i
    }
}

/// `s` from `i` on without its markup, found from left to right.
pub open spec fn without_markup_from(s: Seq<char>, i: int) -> Seq<char>
    decreases s.len() - i,
{
    let e = markup_end(s, i);
    if i < 0 || i >= s.len() {
        Seq::empty()
    } else if i < e && e <= s.len() {
        without_markup_from(s, e)
    } else {
        seq![s[i]] + without_markup_from(s, i + 1)
    }
}

/// `s` without its markup.
pub open spec fn without_markup(s: Seq<char>) -> Seq<char> {
    without_markup_from(s, 0)
}

/// What is left of `s` for the terminal to show: first the escape sequences
/// go, then the markup.
pub open spec fn stripped(s: Seq<char>) -> Seq<char> {
    without_markup(without_escapes(s))
}

/// No escape sequence begins anywhere in `s`.
pub open spec fn has_no_escape(s: Seq<char>) -> bool {
    forall|i: int| 0 <= i < s.len() ==> #[trigger] escape_end(s, i) == i
}

/// No markup begins anywhere in `s`.
pub open spec fn has_no_markup(s: Seq<char>) -> bool {
    forall|i: int| 0 <= i < s.len() ==> #[trigger] markup_end(s, i) == i
}

/// Whatever follows `a` on a line, what is left of the line is what is
/// left of `a`, followed by what is left of the rest: no sequence that
/// begins in `a` reaches beyond it, and none is waiting to be closed.
pub open spec fn settled(a: Seq<char>) -> bool {
    forall|b: Seq<char>| #[trigger] stripped(a + b) == stripped(a) + stripped(b)
}

fn belongs(kind: Run, c: char) -> (b: bool)
    ensures
        b == in_run(kind, c),
{
    match kind {
        Run::Parameters => '0' <= c && c <= '?',
        Run::Intermediates => c == '-' || c == ' ' || c == '/',
        Run::ToSeparator => c != ';' && c != '\\',
        Run::ToBackslash => c != '\\',
    }
}

fn scan_run(kind: Run, s: &Vec<char>, i: usize) -> (e: usize)
    requires
        i <= s.len(),
    ensures
        e == run_end(kind, s@, i as int),
        i <= e <= s.len(),
{
    let mut e: usize = i;
    while e < s.len() && belongs(kind, s[e])
        invariant
            i <= e <= s.len(),
            run_end(kind, s@, e as int) == run_end(kind, s@, i as int),
        decreases s.len() - e,
    {
        e = e + 1;
    }
    e
}

/// One past the escape sequence that begins at `i`, or `i` where none does.
pub(crate) fn find_escape_end(s: &Vec<char>, i: usize) -> (e: usize)
    requires
        i < s.len(),
    ensures
        e == escape_end(s@, i as int),
        i <= e <= s.len(),
{
    if s[i] != ESC || s.len() - i < 2 {
        return i;
    }
    if s[i + 1] == '[' {
        let p = scan_run(Run::Parameters, s, i + 2);
        let q = scan_run(Run::Intermediates, s, p);
        if q < s.len() && '@' <= s[q] && s[q] <= '~' {
            q + 1
        } else {
            i
        }
    } else if s[i + 1] == '_' {
        let c = scan_run(Run::ToSeparator, s, i + 2);
        if c < s.len() && s[c] == ';' {
            let b = scan_run(Run::ToBackslash, s, c + 1);
            if b < s.len() {
                b + 1
            } else {
                i
            }
        } else {
            i
        }
    } else {
        i
    }
}

/// `s` without its escape sequences.
pub fn strip_escapes(s: &Vec<char>) -> (out: Vec<char>)
    ensures
        out@ == without_escapes(s@),
{
    let mut out: Vec<char> = Vec::new();
    let mut i: usize = 0;
    while i < s.len()
        invariant
            i <= s.len(),
            out@ + without_escapes_from(s@, i as int) == without_escapes(s@),
        decreases s.len() - i,
    {
        let e = find_escape_end(s, i);
        if e > i {
            i = e;
        } else {
            out.push(s[i]);
            i = i + 1;
        }
    }
    out
}

fn scan_markup_close(s: &Vec<char>, j: usize) -> (e: usize)
    requires
        j <= s.len(),
    ensures
        e == markup_close(s@, j as int),
        j <= e <= s.len(),
        e < s.len() ==> e + 2 <= s.len(),
{
    let mut e: usize = j;
    while s.len() - e >= 2 && s[e] != '\n' && !(s[e] == '}' && s[e + 1] == '}')
        invariant
            j <= e <= s.len(),
            markup_close(s@, e as int) == markup_close(s@, j as int),
        decreases s.len() - e,
    {
        e = e + 1;
    }
    if s.len() - e >= 2 && s[e] != '\n' {
        e
    } else {
        s.len()
    }
}

/// One past the markup that begins at `i`, or `i` where none does.
pub(crate) fn find_markup_end(s: &Vec<char>, i: usize) -> (e: usize)
    requires
        i < s.len(),
    ensures
        e == markup_end(s@, i as int),
        i <= e <= s.len(),
{
    if s.len() - i < 2 || s[i] != '{' || s[i + 1] != '{' {
        return i;
    }
    let c = scan_markup_close(s, i + 2);
    if c < s.len() {
        c + 2
    } else {
        i
    }
}

/// `s` without its markup.
pub fn strip_markup(s: &Vec<char>) -> (out: Vec<char>)
    ensures
        out@ == without_markup(s@),
{
    let mut out: Vec<char> = Vec::new();
    let mut i: usize = 0;
    while i < s.len()
        invariant
            i <= s.len(),
            out@ + without_markup_from(s@, i as int) == without_markup(s@),
        decreases s.len() - i,
    {
        let e = find_markup_end(s, i);
        if e > i {
            i = e;
        } else {
            out.push(s[i]);
            i = i + 1;
        }
    }
    out
}

/// What is left of a line for the terminal to show.
pub fn strip_line(s: &Vec<char>) -> (out: Vec<char>)
    ensures
        out@ == stripped(s@),
{
    let bare = strip_escapes(s);
    strip_markup(&bare)
}

/// The text without the escape sequences and the unresolved markup in it:
/// what the terminal shows of it.
pub fn remove_ansi_escape_codes(s: &str) -> (out: String)
    ensures
        out@ == stripped(s@),
{
    let chars = to_chars(s);
    let bare = strip_line(&chars);
    to_text(&bare)
}

} // verus!
