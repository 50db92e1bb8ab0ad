//! Padding and border around a finished block, and the reset behind every
//! carriage return of the finished text.

use vstd::prelude::*;
use crate::block::{blank_lines, block_width, gap, lines_width, read_block, write_block};
use crate::config::{Border, BorderChars, Padding};
use crate::tags::{reset_code, resolve_chars, resolved};
use crate::text::{
    block_view, joined, push_all, push_repeated, repeated, spaces, text_lines, to_chars, to_text,
};
use crate::escapes::ESC;
use crate::width::{display_width, line_width};

verus! {

/// The block with `n` blank lines above it, as wide as the block.
pub open spec fn padded_above(b: Seq<Seq<char>>, n: nat) -> Seq<Seq<char>> {
    blank_lines(n, block_width(b)) + b
}

/// The block with `n` blank lines below it, as wide as the block.
pub open spec fn padded_below(b: Seq<Seq<char>>, n: nat) -> Seq<Seq<char>> {
    b + blank_lines(n, block_width(b))
}

/// The block with `n` spaces in front of every line.
pub open spec fn padded_left(b: Seq<Seq<char>>, n: nat) -> Seq<Seq<char>> {
    Seq::new(b.len(), |i: int| spaces(n) + b[i])
}

/// The block with `n` spaces behind every line.
pub open spec fn padded_right(b: Seq<Seq<char>>, n: nat) -> Seq<Seq<char>> {
    Seq::new(b.len(), |i: int| b[i] + spaces(n))
}

/// The block with padding on all four sides: first above, then below, then
/// on the left, then on the right, so that the blank lines are as wide as
/// the block was before it got wider.
pub open spec fn padded(b: Seq<Seq<char>>, padding: Padding) -> Seq<Seq<char>> {
    padded_right(
        padded_left(
            padded_below(padded_above(b, padding.top as nat), padding.bottom as nat),
            padding.left as nat,
        ),
        padding.right as nat,
    )
}

/// The text with `n` blank lines above its lines; the text as it is for
/// no padding.
pub open spec fn padded_above_text(t: Seq<char>, n: nat) -> Seq<char> {
    if n == 0 {
        t
    } else {
        joined(padded_above(text_lines(t), n))
    }
}

/// The text with `n` blank lines below its lines; the text as it is for
/// no padding.
pub open spec fn padded_below_text(t: Seq<char>, n: nat) -> Seq<char> {
    if n == 0 {
        t
    } else {
        joined(padded_below(text_lines(t), n))
    }
}

/// The text with `n` spaces in front of each of its lines; the text as it
/// is for no padding.
pub open spec fn padded_left_text(t: Seq<char>, n: nat) -> Seq<char> {
    if n == 0 {
        t
    } else {
        joined(padded_left(text_lines(t), n))
    }
}

/// The text with `n` spaces behind each of its lines; the text as it is
/// for no padding.
pub open spec fn padded_right_text(t: Seq<char>, n: nat) -> Seq<char> {
    if n == 0 {
        t
    } else {
        joined(padded_right(text_lines(t), n))
    }
}

/// The text with padding on all four sides of its lines.
pub open spec fn padded_text(t: Seq<char>, padding: Padding) -> Seq<char> {
    padded_right_text(
        padded_left_text(
            padded_below_text(padded_above_text(t, padding.top as nat), padding.bottom as nat),
            padding.left as nat,
        ),
        padding.right as nat,
    )
}

/// The upper or lower edge of a border: in the border's colour, a corner,
/// `w` horizontal glyphs, a corner, and a reset.
pub open spec fn border_edge(color: Seq<char>, left: char, fill: char, right: char, w: nat) -> Seq<
    char,
> {
    color + seq![left] + repeated(fill, w) + seq![right] + reset_code()
}

/// One side of a border: in the border's colour, the vertical glyph, and
/// a reset.
pub open spec fn border_side(color: Seq<char>, glyph: char) -> Seq<char> {
    color + seq![glyph] + reset_code()
}

/// A line between the two sides of a border, with spaces behind it up to
/// the width `w`.
pub open spec fn framed_line(line: Seq<char>, color: Seq<char>, glyph: char, w: nat) -> Seq<
    char,
> {
    border_side(color, glyph) + line + spaces(gap(w, display_width(line))) + border_side(
        color,
        glyph,
    )
}

/// The lines of a block between the two sides of a border.
pub open spec fn framed_lines(b: Seq<Seq<char>>, color: Seq<char>, glyph: char) -> Seq<Seq<char>> {
    Seq::new(b.len(), |i: int| framed_line(b[i], color, glyph, block_width(b)))
}

/// The block inside a border whose colour is already resolved: the upper
/// edge, the framed lines, the lower edge.
pub open spec fn bordered(b: Seq<Seq<char>>, color: Seq<char>, glyphs: BorderChars) -> Seq<
    Seq<char>,
> {
    seq![
        border_edge(color, glyphs.top_left, glyphs.horizontal, glyphs.top_right, block_width(b)),
    ] + framed_lines(b, color, glyphs.vertical) + seq![
        border_edge(
            color,
            glyphs.bottom_left,
            glyphs.horizontal,
            glyphs.bottom_right,
            block_width(b),
        ),
    ]
}

/// The text inside the border, or the text as it is where the border is
/// switched off.
pub open spec fn bordered_text(t: Seq<char>, border: Border) -> Seq<char> {
    if border.enabled {
        joined(bordered(text_lines(t), resolved(border.ansi_color@), border.border_chars))
    } else {
        t
    }
}

/// The text with a reset behind every carriage return.
pub open spec fn reset_after_returns(s: Seq<char>) -> Seq<char>
    decreases s.len(),
{
    if s.len() == 0 {
        Seq::empty()
    } else if s.last() == '\r' {
        reset_after_returns(s.drop_last()) + seq!['\r'] + reset_code()
    } else {
        reset_after_returns(s.drop_last()) + seq![s.last()]
    }
}

fn pad_above(block: &Vec<Vec<char>>, n: u8) -> (out: Vec<Vec<char>>)
    ensures
        block_view(out) == padded_above(block_view(*block), n as nat),
{
    let w = lines_width(block);
    let mut out: Vec<Vec<char>> = Vec::new();
    let mut k: u8 = 0;
    while k < n
        invariant
            k <= n,
            block_view(out) == blank_lines(k as nat, w as nat),
        decreases n - k,
    {
        let mut line: Vec<char> = Vec::new();
        push_repeated(&mut line, ' ', w);
        let ghost before = block_view(out);
        out.push(line);
        assert(block_view(out) == before.push(line@));
        k = k + 1;
    }
    let mut i: usize = 0;
    while i < block.len()
        invariant
            i <= block.len(),
            block_view(out) == blank_lines(n as nat, w as nat) + block_view(*block).take(
                i as int,
            ),
        decreases block.len() - i,
    {
        let mut line: Vec<char> = Vec::new();
        push_all(&mut line, &block[i]);
        let ghost before = block_view(out);
        out.push(line);
        assert(block_view(out) == before.push(line@));
        i = i + 1;
    }
    assert(block_view(*block).take(block.len() as int) == block_view(*block));
    out
}

fn pad_below(block: &Vec<Vec<char>>, n: u8) -> (out: Vec<Vec<char>>)
    ensures
        block_view(out) == padded_below(block_view(*block), n as nat),
{
    let w = lines_width(block);
    let mut out: Vec<Vec<char>> = Vec::new();
    let mut i: usize = 0;
    while i < block.len()
        invariant
            i <= block.len(),
            block_view(out) == block_view(*block).take(i as int),
        decreases block.len() - i,
    {
        let mut line: Vec<char> = Vec::new();
        push_all(&mut line, &block[i]);
        let ghost before = block_view(out);
        out.push(line);
        assert(block_view(out) == before.push(line@));
        i = i + 1;
    }
    assert(block_view(*block).take(block.len() as int) == block_view(*block));
    let mut k: u8 = 0;
    while k < n
        invariant
            k <= n,
            block_view(out) == block_view(*block) + blank_lines(k as nat, w as nat),
        decreases n - k,
    {
        let mut line: Vec<char> = Vec::new();
        push_repeated(&mut line, ' ', w);
        let ghost before = block_view(out);
        out.push(line);
        assert(block_view(out) == before.push(line@));
        k = k + 1;
    }
    out
}

fn pad_left(block: &Vec<Vec<char>>, n: u8) -> (out: Vec<Vec<char>>)
    ensures
        block_view(out) == padded_left(block_view(*block), n as nat),
{
    let mut out: Vec<Vec<char>> = Vec::new();
    let mut i: usize = 0;
    while i < block.len()
        invariant
            i <= block.len(),
            block_view(out) == padded_left(block_view(*block), n as nat).take(i as int),
        decreases block.len() - i,
    {
        let mut line: Vec<char> = Vec::new();
        push_repeated(&mut line, ' ', n as u128);
        push_all(&mut line, &block[i]);
        assert(line@ == spaces(n as nat) + block_view(*block)[i as int]) by {
            assert(Seq::<char>::empty() + spaces(n as nat) == spaces(n as nat));
        }
        let ghost before = block_view(out);
        out.push(line);
        assert(block_view(out) == before.push(line@));
        i = i + 1;
    }
    out
}

fn pad_right(block: &Vec<Vec<char>>, n: u8) -> (out: Vec<Vec<char>>)
    ensures
        block_view(out) == padded_right(block_view(*block), n as nat),
{
    let mut out: Vec<Vec<char>> = Vec::new();
    let mut i: usize = 0;
    while i < block.len()
        invariant
            i <= block.len(),
            block_view(out) == padded_right(block_view(*block), n as nat).take(i as int),
        decreases block.len() - i,
    {
        let mut line: Vec<char> = Vec::new();
        push_all(&mut line, &block[i]);
        push_repeated(&mut line, ' ', n as u128);
        let ghost before = block_view(out);
        out.push(line);
        assert(block_view(out) == before.push(line@));
        i = i + 1;
    }
    out
}

/// Puts `padding` blank lines above the lines of the text, each as wide as
/// the widest of them. No padding leaves the text as it is.
pub fn add_upper_padding(string: &mut String, padding: u8)
    ensures
        final(string)@ == padded_above_text(old(string)@, padding as nat),
{
    if padding > 0 {
        let lines = read_block(string.as_str());
        let done = pad_above(&lines, padding);
        *string = write_block(&done);
    }
}

/// Puts `padding` blank lines below the lines of the text, each as wide as
/// the widest of them. No padding leaves the text as it is.
pub fn add_lower_padding(string: &mut String, padding: u8)
    ensures
        final(string)@ == padded_below_text(old(string)@, padding as nat),
{
    if padding > 0 {
        let lines = read_block(string.as_str());
        let done = pad_below(&lines, padding);
        *string = write_block(&done);
    }
}

/// Puts `padding` spaces in front of every line of the text. No padding
/// leaves the text as it is.
pub fn add_left_padding(string: &mut String, padding: u8)
    ensures
        final(string)@ == padded_left_text(old(string)@, padding as nat),
{
    if padding > 0 {
        let lines = read_block(string.as_str());
        let done = pad_left(&lines, padding);
        *string = write_block(&done);
    }
}

/// Puts `padding` spaces behind every line of the text. No padding leaves
/// the text as it is.
pub fn add_right_padding(string: &mut String, padding: u8)
    ensures
        final(string)@ == padded_right_text(old(string)@, padding as nat),
{
    if padding > 0 {
        let lines = read_block(string.as_str());
        let done = pad_right(&lines, padding);
        *string = write_block(&done);
    }
}

/// Pads the text on all four sides: above, below, left, right, in that
/// order, so that the blank lines above and below are as wide as the text
/// was before it got wider.
pub fn add_padding(string: &mut String, padding: &Padding)
    ensures
        final(string)@ == padded_text(old(string)@, *padding),
{
    add_upper_padding(string, padding.top);
    add_lower_padding(string, padding.bottom);
    add_left_padding(string, padding.left);
    add_right_padding(string, padding.right);
}

fn push_reset(out: &mut Vec<char>)
    ensures
        final(out)@ == old(out)@ + reset_code(),
{
    out.push(ESC);
    out.push('[');
    out.push('0');
    out.push('m');
}

fn make_edge(color: &Vec<char>, left: char, fill: char, right: char, w: u128) -> (line: Vec<char>)
    ensures
        line@ == border_edge(color@, left, fill, right, w as nat),
{
    let mut line: Vec<char> = Vec::new();
    push_all(&mut line, color);
    line.push(left);
    push_repeated(&mut line, fill, w);
    line.push(right);
    push_reset(&mut line);
    assert(Seq::<char>::empty() + color@ == color@);
    line
}

fn push_side(out: &mut Vec<char>, color: &Vec<char>, glyph: char)
    ensures
        final(out)@ == old(out)@ + border_side(color@, glyph),
{
    push_all(out, color);
    out.push(glyph);
    push_reset(out);
    assert(old(out)@ + color@ + seq![glyph] + reset_code() == old(out)@ + (color@ + seq![glyph]
        + reset_code()));
}

/// The block inside a border whose colour is already resolved.
pub fn border_lines(block: &Vec<Vec<char>>, color: &Vec<char>, glyphs: &BorderChars) -> (out: Vec<
    Vec<char>,
>)
    ensures
        block_view(out) == bordered(block_view(*block), color@, *glyphs),
{
    let w = lines_width(block);
    let mut out: Vec<Vec<char>> = Vec::new();
    let top = make_edge(color, glyphs.top_left, glyphs.horizontal, glyphs.top_right, w);
    out.push(top);
    assert(block_view(out) == seq![top@]);
    let mut i: usize = 0;
    while i < block.len()
        invariant
            i <= block.len(),
            w == block_width(block_view(*block)),
            block_view(out) == seq![top@] + framed_lines(
                block_view(*block),
                color@,
                glyphs.vertical,
            ).take(i as int),
        decreases block.len() - i,
    {
        let mut line: Vec<char> = Vec::new();
        push_side(&mut line, color, glyphs.vertical);
        push_all(&mut line, &block[i]);
        let here = line_width(&block[i]);
        if here < w {
            push_repeated(&mut line, ' ', w - here);
        } else {
            assert(line@ + spaces(0) == line@);
        }
        push_side(&mut line, color, glyphs.vertical);
        assert(line@ == framed_line(
            block_view(*block)[i as int],
            color@,
            glyphs.vertical,
            w as nat,
        )) by {
            assert(Seq::<char>::empty() + border_side(color@, glyphs.vertical) == border_side(
                color@,
                glyphs.vertical,
            ));
        }
        let ghost before = block_view(out);
        out.push(line);
        assert(block_view(out) == before.push(line@));
        i = i + 1;
    }
    let bottom = make_edge(color, glyphs.bottom_left, glyphs.horizontal, glyphs.bottom_right, w);
    let ghost before = block_view(out);
    out.push(bottom);
    assert(block_view(out) == before.push(bottom@));
    assert(framed_lines(block_view(*block), color@, glyphs.vertical).take(block.len() as int)
        == framed_lines(block_view(*block), color@, glyphs.vertical));
    out
}

/// Draws the border around the lines of the text. The upper and the lower
/// edge are a corner, as many horizontal glyphs as the widest line has
/// columns, and a corner. Every line gets a vertical glyph in front of it
/// and, behind the spaces that bring it to the width of the widest, another
/// behind it. Each piece of border is in the border's colour, resolved, and
/// ends in a reset, so that the colour does not reach the text. Where the
/// border is switched off the text stays as it is.
pub fn add_border(string: &str, border: &Border) -> (out: String)
    ensures
        out@ == bordered_text(string@, *border),
{
    if !border.enabled {
        return string.to_owned();
    }
    let lines = read_block(string);
    let tag = to_chars(border.ansi_color.as_str());
    let color = resolve_chars(&tag);
    let done = border_lines(&lines, &color, &border.border_chars);
    write_block(&done)
}

/// Puts a reset behind every carriage return of the finished text, so that
/// no styling is carried over a bare return into what is printed over the
/// line.
pub fn reset_formatting_on_cr(string: &str) -> (out: String)
    ensures
        out@ == reset_after_returns(string@),
{
    let chars = to_chars(string);
    let mut done: Vec<char> = Vec::new();
    let mut i: usize = 0;
    while i < chars.len()
        invariant
            i <= chars.len(),
            chars@ == string@,
            done@ == reset_after_returns(string@.take(i as int)),
        decreases chars.len() - i,
    {
        assert(string@.take(i + 1).drop_last() == string@.take(i as int));
        done.push(chars[i]);
        if chars[i] == '\r' {
            push_reset(&mut done);
        }
        i = i + 1;
    }
    assert(string@.take(chars.len() as int) == string@);
    to_text(&done)
}

} // verus!
