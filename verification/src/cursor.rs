//! The plain way to put the text beside the art: the art is printed as it
//! is, and the cursor goes back up to its first line and to the right of
//! it for every line of the text. Here only the sixteen basic colours have
//! tags.

use vstd::prelude::*;
use vstd::string::*;
use crate::block::read_block;
use crate::escapes::{strip_markup, without_markup, ESC};
use crate::tags::{
    color_code, color_opener, color_tag, decimal, has_at, push_color_code, push_number,
    push_reset_code, reset_code, reset_tag, tag_closer,
};
use crate::text::{block_view, push_all, text_lines, to_chars, to_text};
use crate::width::{columns, count_columns};

verus! {

/// `s` from `i` on with every `pat` replaced by `rep`, from left to right.
pub open spec fn replaced_from(s: Seq<char>, i: int, pat: Seq<char>, rep: Seq<char>) -> Seq<char>
    decreases s.len() - i,
{
    if i < 0 || i >= s.len() {
        Seq::empty()
    } else if pat.len() > 0 && has_at(s, i, pat) {
        rep + replaced_from(s, i + pat.len(), pat, rep)
    } else {
        seq![s[i]] + replaced_from(s, i + 1, pat, rep)
    }
}

/// `s` with every `pat` replaced by `rep`.
pub open spec fn replaced(s: Seq<char>, pat: Seq<char>, rep: Seq<char>) -> Seq<char> {
    replaced_from(s, 0, pat, rep)
}

/// `s` with the tags of the colours below `n` replaced by their
/// sequences, one colour after the other.
pub open spec fn colors_replaced(s: Seq<char>, n: nat) -> Seq<char>
    decreases n,
{
    if n == 0 {
        s
    } else {
        replaced(colors_replaced(s, (n - 1) as nat), color_tag((n - 1) as nat), color_code(
            (n - 1) as nat,
        ))
    }
}

/// `s` with the tags of the sixteen basic colours and the reset tag
/// replaced by their sequences.
pub open spec fn basic_resolved(s: Seq<char>) -> Seq<char> {
    replaced(colors_replaced(s, 16), reset_tag(), reset_code())
}

/// The most columns that a line of the block has, with nothing hidden.
pub open spec fn widest_columns(b: Seq<Seq<char>>) -> nat
    decreases b.len(),
{
    if b.len() == 0 {
        0
    } else if widest_columns(b.drop_last()) >= columns(b.last()) {
        widest_columns(b.drop_last())
    } else {
        columns(b.last())
    }
}

/// The sequence that moves the cursor `n` places: `A` up, `B` down, `C`
/// forward, `D` back.
pub open spec fn cursor_move(n: nat, direction: char) -> Seq<char> {
    seq![ESC, '['] + decimal(n) + seq![direction]
}

/// The larger of two numbers.
pub open spec fn larger(a: nat, b: nat) -> nat {
    if a >= b {
        a
    } else {
        b
    }
}

/// The art, then the text beside it: the cursor goes up to the first line
/// of the art, every line feed of the text is followed by a move to the
/// right of the art, and at the end the cursor goes down below both.
pub open spec fn beside_art(art: Seq<char>, fetch: Seq<char>) -> Seq<char> {
    let shown = text_lines(without_markup(art));
    basic_resolved(art) + cursor_move((shown.len() - 1) as nat, 'A') + replaced(
        fetch,
        seq!['\n'],
        seq!['\n'] + cursor_move(widest_columns(shown), 'C'),
    ) + cursor_move(larger(shown.len(), text_lines(fetch).len()), 'B') + cursor_move(0, 'D')
}

fn found_at(s: &Vec<char>, i: usize, pat: &Vec<char>) -> (b: bool)
    requires
        i <= s.len(),
    ensures
        b == has_at(s@, i as int, pat@),
{
    if s.len() - i < pat.len() {
        return false;
    }
    let mut k: usize = 0;
    while k < pat.len()
        invariant
            k <= pat.len(),
            i + pat.len() <= s.len(),
            s@.subrange(i as int, i + k) == pat@.take(k as int),
        decreases pat.len() - k,
    {
        if s[i + k] != pat[k] {
            assert(s@.subrange(i as int, i + pat.len())[k as int] != pat@[k as int]);
            return false;
        }
        assert(s@.subrange(i as int, i + k + 1) == s@.subrange(i as int, i + k).push(
            s@[i + k],
        ));
        assert(pat@.take(k + 1) == pat@.take(k as int).push(pat@[k as int]));
        k = k + 1;
    }
    assert(pat@.take(pat.len() as int) == pat@);
    true
}

/// `s` with every `pat` replaced by `rep`, from left to right. An empty
/// `pat` is found nowhere.
pub fn replace_all(s: &Vec<char>, pat: &Vec<char>, rep: &Vec<char>) -> (out: Vec<char>)
    ensures
        out@ == replaced(s@, pat@, rep@),
{
    let mut out: Vec<char> = Vec::new();
    let mut i: usize = 0;
    while i < s.len()
        invariant
            i <= s.len(),
            out@ + replaced_from(s@, i as int, pat@, rep@) == replaced(s@, pat@, rep@),
        decreases s.len() - i,
    {
        let ghost before = out@;
        if pat.len() > 0 && found_at(s, i, pat) {
            push_all(&mut out, rep);
            proof {
                assert(before + (rep@ + replaced_from(s@, i + pat.len(), pat@, rep@)) == out@
                    + replaced_from(s@, i + pat.len(), pat@, rep@));
            }
            i = i + pat.len();
        } else {
            out.push(s[i]);
            proof {
                assert(before + (seq![s@[i as int]] + replaced_from(s@, i + 1, pat@, rep@))
                    == out@ + replaced_from(s@, i + 1, pat@, rep@));
            }
            i = i + 1;
        }
    }
    out
}

fn make_color_tag(v: u8) -> (tag: Vec<char>)
    ensures
        tag@ == color_tag(v as nat),
{
    let mut tag: Vec<char> = Vec::new();
    tag.push('{');
    tag.push('{');
    tag.push('c');
    tag.push('o');
    tag.push('l');
    tag.push('o');
    tag.push('r');
    assert(tag@ == color_opener());
    push_number(&mut tag, v as u128);
    tag.push('}');
    tag.push('}');
    assert(tag@ == color_opener() + decimal(v as nat) + tag_closer());
    tag
}

fn resolve_basic(s: &Vec<char>) -> (out: Vec<char>)
    ensures
        out@ == basic_resolved(s@),
{
    let mut text: Vec<char> = Vec::new();
    push_all(&mut text, s);
    assert(text@ == s@);
    let mut v: u8 = 0;
    while v < 16
        invariant
            v <= 16,
            text@ == colors_replaced(s@, v as nat),
        decreases 16 - v,
    {
        let tag = make_color_tag(v);
        let mut code: Vec<char> = Vec::new();
        push_color_code(&mut code, v);
        assert(code@ == color_code(v as nat));
        text = replace_all(&text, &tag, &code);
        v = v + 1;
    }
    let mut tag: Vec<char> = Vec::new();
    tag.push('{');
    tag.push('{');
    tag.push('r');
    tag.push('e');
    tag.push('s');
    tag.push('e');
    tag.push('t');
    tag.push('}');
    tag.push('}');
    assert(tag@ == reset_tag());
    let mut code: Vec<char> = Vec::new();
    push_reset_code(&mut code);
    assert(code@ == reset_code());
    replace_all(&text, &tag, &code)
}

fn push_cursor_move(out: &mut Vec<char>, n: u128, direction: char)
    ensures
        final(out)@ == old(out)@ + cursor_move(n as nat, direction),
{
    out.push(ESC);
    out.push('[');
    push_number(out, n);
    out.push(direction);
    assert(old(out)@.push(ESC).push('[') + decimal(n as nat) == old(out)@ + (seq![ESC, '[']
        + decimal(n as nat)));
}

fn widest(block: &Vec<Vec<char>>) -> (w: u128)
    ensures
        w == widest_columns(block_view(*block)),
{
    let mut w: u128 = 0;
    let mut i: usize = 0;
    while i < block.len()
        invariant
            i <= block.len(),
            w == widest_columns(block_view(*block).take(i as int)),
        decreases block.len() - i,
    {
        let ghost lines = block_view(*block);
        proof {
            assert(lines.take(i + 1).drop_last() == lines.take(i as int));
        }
        let here = count_columns(&block[i]);
        if here > w {
            w = here;
        }
        i = i + 1;
    }
    proof {
        assert(block_view(*block).take(block.len() as int) == block_view(*block));
    }
    w
}

/// Replaces the tags of the sixteen basic colours, `{{color0}}` to
/// `{{color15}}`, and the reset tag by their escape sequences. Every other
/// tag stays as it is.
pub fn parse_ascii_art(ascii_art: String) -> (out: String)
    ensures
        out@ == basic_resolved(ascii_art@),
{
    let chars = to_chars(ascii_art.as_str());
    let done = resolve_basic(&chars);
    to_text(&done)
}

/// The art without its tags, for measuring it: everything from `{{` to
/// the next `}}` on the line goes.
pub fn remove_ansi(ascii_art: String) -> (out: String)
    ensures
        out@ == without_markup(ascii_art@),
{
    let chars = to_chars(ascii_art.as_str());
    let bare = strip_markup(&chars);
    to_text(&bare)
}

/// Puts the text beside the art by moving the cursor. The result is the
/// art with its tags resolved; a move up to the first line of the art; the
/// text, with a move to the right of the art behind every line feed; a move
/// down below the higher of the two; and a move back of nothing. The art is
/// measured without its tags, and must have a line.
pub fn put_ascii_left(ascii_art: String, fetch: String) -> (out: String)
    requires
        text_lines(without_markup(ascii_art@)).len() > 0,
    ensures
        out@ == beside_art(ascii_art@, fetch@),
{
    let art = to_chars(ascii_art.as_str());
    let text = to_chars(fetch.as_str());
    let bare = strip_markup(&art);
    let shown = crate::text::split_lines(&bare);
    let width = widest(&shown);
    let height = shown.len();
    let rows = read_block(fetch.as_str()).len();
    let full = if height >= rows {
        height
    } else {
        rows
    };
    let mut out = resolve_basic(&art);
    push_cursor_move(&mut out, (height - 1) as u128, 'A');
    let mut feed: Vec<char> = Vec::new();
    feed.push('\n');
    let mut turn: Vec<char> = Vec::new();
    turn.push('\n');
    push_cursor_move(&mut turn, width, 'C');
    let moved = replace_all(&text, &feed, &turn);
    push_all(&mut out, &moved);
    push_cursor_move(&mut out, full as u128, 'B');
    push_cursor_move(&mut out, 0, 'D');
    to_text(&out)
}

} // verus!
