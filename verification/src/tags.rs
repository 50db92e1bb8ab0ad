//! The colour tags: `{{colorN}}` stands for the foreground colour `N` of
//! the 256-colour palette and `{{reset}}` for the end of all styling.
//! Resolving a text replaces each well-formed tag by the escape sequence
//! that it stands for and leaves everything else as it is.

use vstd::prelude::*;
use crate::escapes::ESC;
use crate::text::{to_chars, to_text};

verus! {

/// The characters of `{{reset}}`.
pub open spec fn reset_tag() -> Seq<char> {
    seq!['{', '{', 'r', 'e', 's', 'e', 't', '}', '}']
}

/// The characters of `{{color`, which open a colour tag.
pub open spec fn color_opener() -> Seq<char> {
    seq!['{', '{', 'c', 'o', 'l', 'o', 'r']
}

/// The characters of `}}`, which close a tag.
pub open spec fn tag_closer() -> Seq<char> {
    seq!['}', '}']
}

/// The escape sequence that ends all styling: `ESC [ 0 m`.
pub open spec fn reset_code() -> Seq<char> {
    seq![ESC, '[', '0', 'm']
}

/// The decimal digit `d` as a character.
pub open spec fn digit_char(d: nat) -> char {
    ('0' as nat + d) as char
}

/// The decimal numeral of `v`, without leading zeros.
pub open spec fn decimal(v: nat) -> Seq<char>
    decreases v,
{
    if v < 10 {
        seq![digit_char(v)]
    } else {
        decimal(v / 10).push(digit_char(v % 10))
    }
}

/// The escape sequence that selects the foreground colour `v`:
/// `ESC [ 38 ; 5 ; v m`.
pub open spec fn color_code(v: nat) -> Seq<char> {
    seq![ESC, '[', '3', '8', ';', '5', ';'] + decimal(v) + seq!['m']
}

/// The tag of the colour `v`, with its number in plain decimal.
pub open spec fn color_tag(v: nat) -> Seq<char> {
    color_opener() + decimal(v) + tag_closer()
}

/// `pat` stands in `s` at position `i`.
pub open spec fn has_at(s: Seq<char>, i: int, pat: Seq<char>) -> bool {
    0 <= i && i + pat.len() <= s.len() && s.subrange(i, i + pat.len()) == pat
}

/// A decimal digit.
pub open spec fn is_digit(c: char) -> bool {
    '0' <= c && c <= '9'
}

/// The end of the run of decimal digits that begins at `i`.
pub open spec fn digits_end(s: Seq<char>, i: int) -> int
    decreases s.len() - i,
{
    if 0 <= i && i < s.len() && is_digit(s[i]) {
        digits_end(s, i + 1)
    } else {
        i
    }
}

/// The number that the digits `s[i..e]` spell.
pub open spec fn digits_value(s: Seq<char>, i: int, e: int) -> nat
    decreases e - i,
{
    if e <= i {
        0
    } else {
        digits_value(s, i, e - 1) * 10 + (s[e - 1] as nat - '0' as nat) as nat
    }
}

/// Where the number of the colour tag opened at `i` begins: behind the
/// opener and one plus sign, if there is one.
pub open spec fn number_start(s: Seq<char>, i: int) -> int {
    if i + 7 < s.len() && s[i + 7] == '+' {
        i + 8
    } else {
        i + 7
    }
}

/// The colour that the tag opened at `i` names.
pub open spec fn color_tag_value(s: Seq<char>, i: int) -> nat {
    digits_value(s, number_start(s, i), digits_end(s, number_start(s, i)))
}

/// One past the well-formed colour tag that begins at `i`, or `i` where
/// none does. Such a tag is `{{color`, a number and `}}`; the number is one
/// or more decimal digits, with or without a plus sign in front, and fits
/// in a byte.
pub open spec fn color_tag_end(s: Seq<char>, i: int) -> int {
    let k = number_start(s, i);
    let d = digits_end(s, k);
    if has_at(s, i, color_opener()) && k < d && color_tag_value(s, i) <= 255 && has_at(
        s,
        d,
        tag_closer(),
    ) {
        d + 2
    } else {
        i
    }
}

/// One past the well-formed tag that begins at `i`, or `i` where none does.
pub open spec fn tag_end(s: Seq<char>, i: int) -> int {
    if has_at(s, i, reset_tag()) {
        i + 9
    } else {
        color_tag_end(s, i)
    }
}

/// The escape sequence that the tag at `i` stands for.
pub open spec fn tag_code(s: Seq<char>, i: int) -> Seq<char> {
    if has_at(s, i, reset_tag()) {
        reset_code()
    } else {
        color_code(color_tag_value(s, i))
    }
}

/// `s` from `i` on with its tags resolved, from left to right.
pub open spec fn resolved_from(s: Seq<char>, i: int) -> Seq<char>
    decreases s.len() - i,
{
    let e = tag_end(s, i);
    if i < 0 || i >= s.len() {
        Seq::empty()
    } else if i < e && e <= s.len() {
        tag_code(s, i) + resolved_from(s, e)
    } else {
        seq![s[i]] + resolved_from(s, i + 1)
    }
}

/// `s` with every well-formed tag replaced by the escape sequence that it
/// stands for. What is no well-formed tag stays as it is.
pub open spec fn resolved(s: Seq<char>) -> Seq<char> {
    resolved_from(s, 0)
}

fn reset_at(s: &Vec<char>, i: usize) -> (b: bool)
    requires
        i < s.len(),
    ensures
        b == has_at(s@, i as int, reset_tag()),
{
    if s.len() - i < 9 {
        return false;
    }
    let b = s[i] == '{' && s[i + 1] == '{' && s[i + 2] == 'r' && s[i + 3] == 'e' && s[i + 4]
        == 's' && s[i + 5] == 'e' && s[i + 6] == 't' && s[i + 7] == '}' && s[i + 8] == '}';
    proof {
        let sub = s@.subrange(i as int, i + 9);
        if b {
            assert(sub =~= reset_tag());
        } else {
            assert(sub[0] == s@[i as int] && sub[1] == s@[i + 1] && sub[2] == s@[i + 2] && sub[3]
                == s@[i + 3] && sub[4] == s@[i + 4] && sub[5] == s@[i + 5] && sub[6] == s@[i + 6]
                && sub[7] == s@[i + 7] && sub[8] == s@[i + 8]);
        }
    }
    b
}

fn opener_at(s: &Vec<char>, i: usize) -> (b: bool)
    requires
        i < s.len(),
    ensures
        b == has_at(s@, i as int, color_opener()),
{
    if s.len() - i < 7 {
        return false;
    }
    let b = s[i] == '{' && s[i + 1] == '{' && s[i + 2] == 'c' && s[i + 3] == 'o' && s[i + 4]
        == 'l' && s[i + 5] == 'o' && s[i + 6] == 'r';
    proof {
        let sub = s@.subrange(i as int, i + 7);
        if b {
            assert(sub =~= color_opener());
        } else {
            assert(sub[0] == s@[i as int] && sub[1] == s@[i + 1] && sub[2] == s@[i + 2] && sub[3]
                == s@[i + 3] && sub[4] == s@[i + 4] && sub[5] == s@[i + 5] && sub[6] == s@[i
                + 6]);
        }
    }
    b
}

fn closer_at(s: &Vec<char>, i: usize) -> (b: bool)
    requires
        i <= s.len(),
    ensures
        b == has_at(s@, i as int, tag_closer()),
{
    if s.len() - i < 2 {
        return false;
    }
    let b = s[i] == '}' && s[i + 1] == '}';
    proof {
        let sub = s@.subrange(i as int, i + 2);
        if b {
            assert(sub =~= tag_closer());
        } else {
            assert(sub[0] == s@[i as int] && sub[1] == s@[i + 1]);
        }
    }
    b
}

/// Reads the digits that begin at `k`: where they end, and the number that
/// they spell, or 256 for every number above 255.
fn read_number(s: &Vec<char>, k: usize) -> (r: (usize, u32))
    requires
        k <= s.len(),
    ensures
        r.0 == digits_end(s@, k as int),
        k <= r.0 <= s.len(),
        r.1 <= 256,
        r.1 < 256 ==> r.1 == digits_value(s@, k as int, r.0 as int),
        r.1 == 256 ==> digits_value(s@, k as int, r.0 as int) > 255,
{
    let mut e: usize = k;
    let mut v: u32 = 0;
    while e < s.len() && '0' <= s[e] && s[e] <= '9'
        invariant
            k <= e <= s.len(),
            digits_end(s@, e as int) == digits_end(s@, k as int),
            v <= 256,
            v < 256 ==> v == digits_value(s@, k as int, e as int),
            v == 256 ==> digits_value(s@, k as int, e as int) > 255,
        decreases s.len() - e,
    {
        let d: u32 = s[e] as u32 - '0' as u32;
        let next: u32 = v * 10 + d;
        v = if next > 255 {
            256
        } else {
            next
        };
        e = e + 1;
    }
    (e, v)
}

/// The well-formed tag that begins at `i`, if any: one past it, whether it
/// is a colour tag, and the colour.
fn read_tag(s: &Vec<char>, i: usize) -> (r: (usize, bool, u8))
    requires
        i < s.len(),
    ensures
        r.0 == tag_end(s@, i as int),
        i <= r.0 <= s.len(),
        r.0 > i ==> r.1 == !has_at(s@, i as int, reset_tag()),
        r.0 > i && r.1 ==> r.2 == color_tag_value(s@, i as int),
{
    if reset_at(s, i) {
        return (i + 9, false, 0);
    }
    if !opener_at(s, i) {
        return (i, false, 0);
    }
    let k: usize = if s.len() - i > 7 && s[i + 7] == '+' {
        i + 8
    } else {
        i + 7
    };
    let (d, v) = read_number(s, k);
    if k < d && v <= 255 && closer_at(s, d) {
        (d + 2, true, v as u8)
    } else {
        (i, false, 0)
    }
}

fn digit_of(d: u8) -> (c: char)
    requires
        d < 10,
    ensures
        c == digit_char(d as nat),
{
    (48u8 + d) as char
}

/// Appends the decimal numeral of `v` to `out`.
pub fn push_number(out: &mut Vec<char>, v: u128)
    ensures
        final(out)@ == old(out)@ + decimal(v as nat),
    decreases v,
{
    if v >= 10 {
        push_number(out, v / 10);
        out.push(digit_of((v % 10) as u8));
        assert(old(out)@ + decimal((v / 10) as nat).push(digit_char((v % 10) as nat)) == (old(
            out,
        )@ + decimal((v / 10) as nat)).push(digit_char((v % 10) as nat)));
    } else {
        out.push(digit_of(v as u8));
    }
}

pub(crate) fn push_color_code(out: &mut Vec<char>, v: u8)
    ensures
        final(out)@ == old(out)@ + color_code(v as nat),
{
    out.push(ESC);
    out.push('[');
    out.push('3');
    out.push('8');
    out.push(';');
    out.push('5');
    out.push(';');
    push_number(out, v as u128);
    out.push('m');
}

pub(crate) fn push_reset_code(out: &mut Vec<char>)
    ensures
        final(out)@ == old(out)@ + reset_code(),
{
    out.push(ESC);
    out.push('[');
    out.push('0');
    out.push('m');
}

/// `s` with its tags resolved.
pub fn resolve_chars(s: &Vec<char>) -> (out: Vec<char>)
    ensures
        out@ == resolved(s@),
{
    let mut out: Vec<char> = Vec::new();
    let mut i: usize = 0;
    while i < s.len()
        invariant
            i <= s.len(),
            out@ + resolved_from(s@, i as int) == resolved(s@),
        decreases s.len() - i,
    {
        let (e, is_color, v) = read_tag(s, i);
        let ghost before = out@;
        if e > i {
            if is_color {
                push_color_code(&mut out, v);
            } else {
                push_reset_code(&mut out);
            }
            proof {
                assert(out@ == before + tag_code(s@, i as int));
                assert(before + (tag_code(s@, i as int) + resolved_from(s@, e as int)) == out@
                    + resolved_from(s@, e as int));
            }
            i = e;
        } else {
            out.push(s[i]);
            proof {
                assert(before + (seq![s@[i as int]] + resolved_from(s@, i + 1)) == out@
                    + resolved_from(s@, i + 1));
            }
            i = i + 1;
        }
    }
    out
}

/// Replaces every well-formed colour tag in the text by the escape
/// sequence that it stands for: `{{colorN}}` by `ESC [ 38 ; 5 ; N m` for a
/// number `N` that fits in a byte, `{{reset}}` by `ESC [ 0 m`. A tag that is
/// not closed, or whose number is none, stays in the text as it is.
pub fn parse_internal_ansi_codes(ascii_art: &mut String)
    ensures
        final(ascii_art)@ == resolved(old(ascii_art)@),
{
    let chars = to_chars(ascii_art.as_str());
    let done = resolve_chars(&chars);
    *ascii_art = to_text(&done);
}

} // verus!
