//! What padding and border do to the shape of a block.

use vstd::prelude::*;
use crate::block::{blank_lines, block_width, gap, lemma_block_width};
use crate::config::{BorderChars, Padding};
use crate::escapes::{ESC, settled, stripped};
use crate::frame::{
    border_edge, border_side, bordered, framed_line, framed_lines, padded, padded_above,
    padded_below, padded_left, padded_right,
};
use crate::strip_lemmas::{
    lemma_plain_text_settled, lemma_settled_concat, lemma_spaces_settled,
    lemma_stripped_spaces_behind, lemma_stripped_spaces_in_front,
};
use crate::tag_lemmas::lemma_reset_code_settled;
use crate::tags::reset_code;
use crate::text::{repeated, spaces};
use crate::width::{
    char_columns, columns, display_width, lemma_columns_concat, lemma_columns_repeated,
    lemma_columns_spaces,
};

verus! {

/// A glyph that a border can be drawn with: it takes one column, and it
/// is neither the escape character nor `{`, which could run on into the
/// text of a line.
pub open spec fn is_border_glyph(c: char) -> bool {
    c != ESC && c != '{' && char_columns(c) == 1
}

/// The width of two blocks put together is the larger of their widths.
pub proof fn lemma_block_width_concat(x: Seq<Seq<char>>, y: Seq<Seq<char>>)
    ensures
        block_width(x + y) == if block_width(x) >= block_width(y) {
            block_width(x)
        } else {
            block_width(y)
        },
    decreases y.len(),
{
    if y.len() == 0 {
        assert(x + y == x);
    } else {
        lemma_block_width_concat(x, y.drop_last());
        assert((x + y).drop_last() == x + y.drop_last());
        assert((x + y).last() == y.last());
    }
}

/// Blank lines are as wide as they were made, and no lines have no width.
pub proof fn lemma_blank_lines_width(n: nat, w: nat)
    ensures
        block_width(blank_lines(n, w)) == if n > 0 {
            w
        } else {
            0
        },
        forall|i: int| 0 <= i < n ==> display_width(#[trigger] blank_lines(n, w)[i]) == w,
    decreases n,
{
    let b = blank_lines(n, w);
    assert forall|i: int| 0 <= i < n implies display_width(#[trigger] b[i]) == w by {
        lemma_spaces_settled(w);
        lemma_columns_spaces(w);
    }
    lemma_block_width(b);
}

/// Spaces in front of a line and behind it add their number to its display
/// width.
pub proof fn lemma_spaces_around_width(line: Seq<char>, l: nat, r: nat)
    ensures
        display_width(spaces(l) + line + spaces(r)) == l + display_width(line) + r,
{
    lemma_stripped_spaces_behind(spaces(l) + line, r);
    lemma_stripped_spaces_in_front(line, l);
    lemma_columns_concat(spaces(l) + stripped(line), spaces(r));
    lemma_columns_concat(spaces(l), stripped(line));
    lemma_columns_spaces(l);
    lemma_columns_spaces(r);
}

/// Padding puts a rim of blanks around a block. The block gets as many
/// lines more as the padding has above and below. Every line of the block
/// gets the spaces of the left padding in front of it and those of the
/// right padding behind it, and is wider on the terminal by exactly those.
/// The lines above and below are blank: as many spaces as the block was
/// wide, between the same spaces on the left and on the right.
pub proof fn padding_adds_blank_rim(b: Seq<Seq<char>>, padding: Padding)
    ensures
        padded(b, padding).len() == b.len() + padding.top + padding.bottom,
        forall|i: int|
            0 <= i < b.len() ==> #[trigger] padded(b, padding)[padding.top + i] == spaces(
                padding.left as nat,
            ) + b[i] + spaces(padding.right as nat),
        forall|i: int|
            0 <= i < b.len() ==> display_width(#[trigger] padded(b, padding)[padding.top + i])
                == display_width(b[i]) + padding.left + padding.right,
        forall|i: int|
            0 <= i < padding.top ==> #[trigger] padded(b, padding)[i] == spaces(
                padding.left as nat,
            ) + spaces(block_width(b)) + spaces(padding.right as nat),
        forall|i: int|
            0 <= i < padding.bottom ==> #[trigger] padded(b, padding)[padding.top + b.len() + i]
                == spaces(padding.left as nat) + spaces(block_width(b)) + spaces(
                padding.right as nat,
            ),
{
    let t = padding.top as nat;
    let bo = padding.bottom as nat;
    let l = padding.left as nat;
    let r = padding.right as nat;
    let w = block_width(b);
    let above = padded_above(b, t);
    lemma_block_width_concat(blank_lines(t, w), b);
    lemma_blank_lines_width(t, w);
    assert(block_width(above) == w);
    let below = padded_below(above, bo);
    let left = padded_left(below, l);
    let out = padded_right(left, r);
    assert(out == padded(b, padding));
    assert forall|i: int| 0 <= i < b.len() implies #[trigger] out[t + i] == spaces(l) + b[i]
        + spaces(r) by {
        assert(below[t + i] == b[i]);
        assert(left[t + i] == spaces(l) + below[t + i]);
    }
    assert forall|i: int| 0 <= i < b.len() implies display_width(#[trigger] out[t + i])
        == display_width(b[i]) + l + r by {
        assert(out[t + i] == spaces(l) + b[i] + spaces(r));
        lemma_spaces_around_width(b[i], l, r);
    }
    assert forall|i: int| 0 <= i < t implies #[trigger] out[i] == spaces(l) + spaces(w) + spaces(
        r,
    ) by {
        assert(below[i] == spaces(w));
        assert(left[i] == spaces(l) + below[i]);
    }
    assert forall|i: int| 0 <= i < bo implies #[trigger] out[t + b.len() + i] == spaces(l)
        + spaces(w) + spaces(r) by {
        assert(below[t + b.len() + i] == spaces(w));
        assert(left[t + b.len() + i] == spaces(l) + below[t + b.len() + i]);
    }
}

/// One side of a border shows as its glyph alone and is settled.
pub proof fn lemma_border_side(color: Seq<char>, glyph: char)
    requires
        settled(color),
        stripped(color) == Seq::<char>::empty(),
        glyph != ESC,
        glyph != '{',
    ensures
        settled(border_side(color, glyph)),
        stripped(border_side(color, glyph)) == seq![glyph],
{
    lemma_plain_text_settled(seq![glyph]);
    lemma_reset_code_settled();
    lemma_settled_concat(color, seq![glyph]);
    lemma_settled_concat(color + seq![glyph], reset_code());
    assert(Seq::<char>::empty() + seq![glyph] + Seq::<char>::empty() == seq![glyph]);
}

/// An edge of a border shows as its glyphs alone.
pub proof fn lemma_border_edge(color: Seq<char>, left: char, fill: char, right: char, w: nat)
    requires
        settled(color),
        stripped(color) == Seq::<char>::empty(),
        is_border_glyph(left),
        is_border_glyph(fill),
        is_border_glyph(right),
    ensures
        stripped(border_edge(color, left, fill, right, w)) == seq![left] + repeated(fill, w)
            + seq![right],
        display_width(border_edge(color, left, fill, right, w)) == w + 2,
{
    let glyphs = seq![left] + repeated(fill, w) + seq![right];
    lemma_plain_text_settled(glyphs);
    lemma_reset_code_settled();
    lemma_settled_concat(color, glyphs);
    lemma_settled_concat(color + glyphs, reset_code());
    assert(border_edge(color, left, fill, right, w) == color + glyphs + reset_code());
    assert(Seq::<char>::empty() + glyphs + Seq::<char>::empty() == glyphs);
    lemma_columns_concat(seq![left] + repeated(fill, w), seq![right]);
    lemma_columns_concat(seq![left], repeated(fill, w));
    lemma_columns_repeated(fill, w);
    lemma_columns_repeated(left, 1);
    lemma_columns_repeated(right, 1);
    assert(repeated(left, 1) == seq![left]);
    assert(repeated(right, 1) == seq![right]);
    assert(w * 1 == w) by (nonlinear_arith);
    assert(1 * char_columns(left) == 1 && 1 * char_columns(right) == 1) by (nonlinear_arith)
        requires
            char_columns(left) == 1,
            char_columns(right) == 1,
    ;
}

/// A framed line shows as the line between two vertical glyphs, with the
/// spaces that bring it to the width `w`, and is two columns wider than
/// `w`.
pub proof fn lemma_framed_line(line: Seq<char>, color: Seq<char>, glyph: char, w: nat)
    requires
        settled(color),
        stripped(color) == Seq::<char>::empty(),
        settled(line),
        is_border_glyph(glyph),
        display_width(line) <= w,
    ensures
        stripped(framed_line(line, color, glyph, w)) == seq![glyph] + stripped(line) + spaces(
            gap(w, display_width(line)),
        ) + seq![glyph],
        display_width(framed_line(line, color, glyph, w)) == w + 2,
{
    let side = border_side(color, glyph);
    let fill = spaces(gap(w, display_width(line)));
    lemma_border_side(color, glyph);
    lemma_spaces_settled(gap(w, display_width(line)));
    lemma_settled_concat(side, line);
    lemma_settled_concat(side + line, fill);
    lemma_settled_concat(side + line + fill, side);
    let shown = seq![glyph] + stripped(line) + fill + seq![glyph];
    assert(stripped(framed_line(line, color, glyph, w)) == shown);
    lemma_columns_concat(seq![glyph] + stripped(line) + fill, seq![glyph]);
    lemma_columns_concat(seq![glyph] + stripped(line), fill);
    lemma_columns_concat(seq![glyph], stripped(line));
    lemma_columns_spaces(gap(w, display_width(line)));
    lemma_columns_repeated(glyph, 1);
    assert(repeated(glyph, 1) == seq![glyph]);
    assert(1 * char_columns(glyph) == 1) by (nonlinear_arith)
        requires
            char_columns(glyph) == 1,
    ;
}

/// A border makes a rectangle. Around a block of `H` settled lines and
/// of width `W`, a border of one-column glyphs in a hidden, settled colour
/// gives `H + 2` lines that are each `W + 2` columns wide. The first and
/// the last show nothing but a corner, `W` horizontal glyphs and a corner;
/// each of the others shows a line of the block between two vertical
/// glyphs.
///
/// A line that is not settled can take the border behind it for the end
/// of a sequence that it left open, and a glyph that is `{` or the escape
/// character can open one that the line closes.
pub proof fn border_makes_rectangle(b: Seq<Seq<char>>, color: Seq<char>, glyphs: BorderChars)
    requires
        settled(color),
        stripped(color) == Seq::<char>::empty(),
        forall|i: int| 0 <= i < b.len() ==> settled(#[trigger] b[i]),
        is_border_glyph(glyphs.top_left),
        is_border_glyph(glyphs.top_right),
        is_border_glyph(glyphs.bottom_left),
        is_border_glyph(glyphs.bottom_right),
        is_border_glyph(glyphs.horizontal),
        is_border_glyph(glyphs.vertical),
    ensures
        bordered(b, color, glyphs).len() == b.len() + 2,
        forall|i: int|
            0 <= i < b.len() + 2 ==> display_width(#[trigger] bordered(b, color, glyphs)[i])
                == block_width(b) + 2,
        stripped(bordered(b, color, glyphs)[0]) == seq![glyphs.top_left] + repeated(
            glyphs.horizontal,
            block_width(b),
        ) + seq![glyphs.top_right],
        stripped(bordered(b, color, glyphs)[b.len() as int + 1]) == seq![glyphs.bottom_left] + repeated(
            glyphs.horizontal,
            block_width(b),
        ) + seq![glyphs.bottom_right],
        forall|i: int|
            0 <= i < b.len() ==> stripped(#[trigger] bordered(b, color, glyphs)[i + 1]) == seq![
                glyphs.vertical,
            ] + stripped(b[i]) + spaces(gap(block_width(b), display_width(b[i]))) + seq![
                glyphs.vertical,
            ],
{
    let out = bordered(b, color, glyphs);
    let w = block_width(b);
    let inner = framed_lines(b, color, glyphs.vertical);
    lemma_block_width(b);
    lemma_border_edge(color, glyphs.top_left, glyphs.horizontal, glyphs.top_right, w);
    lemma_border_edge(color, glyphs.bottom_left, glyphs.horizontal, glyphs.bottom_right, w);
    assert forall|i: int| 0 <= i < b.len() implies stripped(#[trigger] out[i + 1]) == seq![
        glyphs.vertical,
    ] + stripped(b[i]) + spaces(gap(w, display_width(b[i]))) + seq![glyphs.vertical]
        && display_width(out[i + 1]) == w + 2 by {
        assert(out[i + 1] == inner[i]);
        lemma_framed_line(b[i], color, glyphs.vertical, w);
    }
    assert forall|i: int| 0 <= i < b.len() + 2 implies display_width(#[trigger] out[i]) == w
        + 2 by {
        if 1 <= i <= b.len() {
            assert(display_width(out[(i - 1) + 1]) == w + 2);
        }
    }
}

} // verus!
