//! Blocks: a block is a sequence of lines, meant to fill a rectangle. A
//! block is normalized when all its lines have the same display width.

use vstd::prelude::*;
use crate::strip_lemmas::lemma_stripped_spaces_behind;
use crate::tags::reset_tag;
use crate::text::{
    block_view, join_lines, joined, push_all, push_repeated, spaces, split_lines, text_lines,
    to_chars, to_text,
};
use crate::width::{display_width, lemma_columns_concat, lemma_columns_spaces, line_width};

verus! {

/// What `have` lacks to reach `want`, and nothing where it lacks nothing.
pub open spec fn gap(want: nat, have: nat) -> nat {
    if want > have {
        (want - have) as nat
    } else {
        0
    }
}

/// The width of a block: the largest display width among its lines, and 0
/// for a block without lines.
pub open spec fn block_width(b: Seq<Seq<char>>) -> nat
    decreases b.len(),
{
    if b.len() == 0 {
        0
    } else if block_width(b.drop_last()) >= display_width(b.last()) {
        block_width(b.drop_last())
    } else {
        display_width(b.last())
    }
}

/// All lines of the block have the same display width.
pub open spec fn is_normalized(b: Seq<Seq<char>>) -> bool {
    forall|i: int| 0 <= i < b.len() ==> display_width(#[trigger] b[i]) == block_width(b)
}

/// The line with as many spaces behind it as its display width lacks to
/// reach `w`.
pub open spec fn padded_line(line: Seq<char>, w: nat) -> Seq<char> {
    line + spaces(gap(w, display_width(line)))
}

/// The block with every line padded to the width of the block.
pub open spec fn normalized(b: Seq<Seq<char>>) -> Seq<Seq<char>> {
    Seq::new(b.len(), |i: int| padded_line(b[i], block_width(b)))
}

/// The block with `{{reset}}` behind every line.
pub open spec fn terminated(b: Seq<Seq<char>>) -> Seq<Seq<char>> {
    Seq::new(b.len(), |i: int| b[i] + reset_tag())
}

/// `n` lines of `w` spaces each.
pub open spec fn blank_lines(n: nat, w: nat) -> Seq<Seq<char>> {
    Seq::new(n, |i: int| spaces(w))
}

/// The block with as many blank lines below it as its height lacks to
/// reach `h`. The blank lines are as wide as the block.
pub open spec fn raised(b: Seq<Seq<char>>, h: nat) -> Seq<Seq<char>> {
    b + blank_lines(gap(h, b.len()), block_width(b))
}

/// One line for each character of `s`.
pub open spec fn transposed(s: Seq<char>) -> Seq<Seq<char>> {
    Seq::new(s.len(), |i: int| seq![s[i]])
}

/// The text whose lines are the normalized lines of `t`.
pub open spec fn normalized_text(t: Seq<char>) -> Seq<char> {
    joined(normalized(text_lines(t)))
}

/// The text whose lines are the lines of `t`, each with `{{reset}}` behind
/// it.
pub open spec fn terminated_text(t: Seq<char>) -> Seq<char> {
    joined(terminated(text_lines(t)))
}

/// No line of a block is wider than the block, and the block is as wide
/// as one of its lines.
pub proof fn lemma_block_width(b: Seq<Seq<char>>)
    ensures
        forall|i: int| 0 <= i < b.len() ==> display_width(#[trigger] b[i]) <= block_width(b),
        b.len() > 0 ==> exists|i: int| 0 <= i < b.len() && display_width(b[i]) == block_width(b),
    decreases b.len(),
{
    if b.len() > 0 {
        let front = b.drop_last();
        lemma_block_width(front);
        assert forall|i: int| 0 <= i < b.len() implies display_width(#[trigger] b[i])
            <= block_width(b) by {
            if i < front.len() {
                assert(front[i] == b[i]);
            }
        }
        if block_width(front) >= display_width(b.last()) && front.len() > 0 {
            let i = choose|i: int| 0 <= i < front.len() && display_width(front[i]) == block_width(
                front,
            );
            assert(front[i] == b[i]);
        } else {
            assert(display_width(b[b.len() - 1]) == block_width(b));
        }
    }
}

/// A block whose lines are all `w` wide is `w` wide, if it has a line.
pub proof fn lemma_block_width_uniform(b: Seq<Seq<char>>, w: nat)
    requires
        forall|i: int| 0 <= i < b.len() ==> display_width(#[trigger] b[i]) == w,
    ensures
        b.len() > 0 ==> block_width(b) == w,
        is_normalized(b),
{
    lemma_block_width(b);
}

/// A line padded to a width that it does not exceed has that width.
pub proof fn lemma_padded_line_width(line: Seq<char>, w: nat)
    ensures
        display_width(padded_line(line, w)) == display_width(line) + gap(w, display_width(line)),
{
    let k = gap(w, display_width(line));
    lemma_stripped_spaces_behind(line, k);
    lemma_columns_concat(crate::escapes::stripped(line), spaces(k));
    lemma_columns_spaces(k);
}

/// Normalizing gives every line the width of the block and leaves that
/// width as it was.
pub proof fn lemma_normalized_is_normalized(b: Seq<Seq<char>>)
    ensures
        normalized(b).len() == b.len(),
        forall|i: int|
            0 <= i < b.len() ==> display_width(#[trigger] normalized(b)[i]) == block_width(b),
        block_width(normalized(b)) == block_width(b),
        is_normalized(normalized(b)),
{
    let n = normalized(b);
    lemma_block_width(b);
    assert forall|i: int| 0 <= i < b.len() implies display_width(#[trigger] n[i]) == block_width(
        b,
    ) by {
        lemma_padded_line_width(b[i], block_width(b));
    }
    lemma_block_width_uniform(n, block_width(b));
}

/// Normalizing a normalized block changes nothing.
pub proof fn lemma_normalized_fixed(b: Seq<Seq<char>>)
    requires
        is_normalized(b),
    ensures
        normalized(b) == b,
{
    assert forall|i: int| 0 <= i < b.len() implies #[trigger] normalized(b)[i] == b[i] by {
        assert(spaces(0) == Seq::<char>::empty());
        assert(b[i] + Seq::<char>::empty() == b[i]);
    }
    assert(normalized(b) =~= b);
}

/// Normalizing is idempotent, and every line of a normalized block has the
/// same display width: that of the widest line of the block it was made
/// from.
pub proof fn normalizing_twice_changes_nothing(b: Seq<Seq<char>>)
    ensures
        normalized(normalized(b)) == normalized(b),
        forall|i: int|
            0 <= i < b.len() ==> display_width(#[trigger] normalized(b)[i]) == block_width(b),
{
    lemma_normalized_is_normalized(b);
    lemma_normalized_fixed(normalized(b));
}

/// The width of a block held as vectors.
pub fn lines_width(block: &Vec<Vec<char>>) -> (w: u128)
    ensures
        w == block_width(block_view(*block)),
{
    let mut w: u128 = 0;
    let mut i: usize = 0;
    while i < block.len()
        invariant
            i <= block.len(),
            w == block_width(block_view(*block).take(i as int)),
        decreases block.len() - i,
    {
        let ghost lines = block_view(*block);
        proof {
            assert(lines.take(i + 1).drop_last() == lines.take(i as int));
        }
        let here = line_width(&block[i]);
        if here > w {
            w = here;
        }
        i = i + 1;
    }
    proof {
        assert(block_view(*block).take(block.len() as int) == block_view(*block));
    }
    w
}

/// The block with every line padded to the width of the block.
pub fn normalize_lines(block: &Vec<Vec<char>>) -> (out: Vec<Vec<char>>)
    ensures
        block_view(out) == normalized(block_view(*block)),
{
    let w = lines_width(block);
    let mut out: Vec<Vec<char>> = Vec::new();
    let mut i: usize = 0;
    while i < block.len()
        invariant
            i <= block.len(),
            w == block_width(block_view(*block)),
            block_view(out) == normalized(block_view(*block)).take(i as int),
        decreases block.len() - i,
    {
        let mut line: Vec<char> = Vec::new();
        push_all(&mut line, &block[i]);
        let here = line_width(&block[i]);
        if here < w {
            push_repeated(&mut line, ' ', w - here);
        } else {
            assert(spaces(0) == Seq::<char>::empty());
        }
        assert(line@ == padded_line(block_view(*block)[i as int], w as nat));
        let ghost before = block_view(out);
        out.push(line);
        assert(block_view(out) == before.push(line@));
        i = i + 1;
    }
    out
}

/// The block with `{{reset}}` behind every line.
pub fn terminate_lines(block: &Vec<Vec<char>>) -> (out: Vec<Vec<char>>)
    ensures
        block_view(out) == terminated(block_view(*block)),
{
    let mut out: Vec<Vec<char>> = Vec::new();
    let mut i: usize = 0;
    while i < block.len()
        invariant
            i <= block.len(),
            block_view(out) == terminated(block_view(*block)).take(i as int),
        decreases block.len() - i,
    {
        let mut line: Vec<char> = Vec::new();
        push_all(&mut line, &block[i]);
        let ghost copied = line@;
        line.push('{');
        line.push('{');
        line.push('r');
        line.push('e');
        line.push('s');
        line.push('e');
        line.push('t');
        line.push('}');
        line.push('}');
        assert(line@ == copied + reset_tag());
        let ghost before = block_view(out);
        out.push(line);
        assert(block_view(out) == before.push(line@));
        i = i + 1;
    }
    out
}

/// The block with blank lines below it until it is `h` lines high. The
/// blank lines are as wide as the block.
pub fn raise_lines(block: &Vec<Vec<char>>, h: usize) -> (out: Vec<Vec<char>>)
    ensures
        block_view(out) == raised(block_view(*block), h as nat),
{
    let w = lines_width(block);
    let mut out: Vec<Vec<char>> = Vec::new();
    let mut i: usize = 0;
    while i < block.len()
        invariant
            i <= block.len(),
            block_view(out) == block_view(*block).take(i as int),
        decreases block.len() - i,
    {
        let mut line: Vec<char> = Vec::new();
        push_all(&mut line, &block[i]);
        let ghost before = block_view(out);
        out.push(line);
        assert(block_view(out) == before.push(line@));
        i = i + 1;
    }
    assert(block_view(*block).take(block.len() as int) == block_view(*block));
    let top: usize = if h > block.len() {
        h
    } else {
        block.len()
    };
    let mut k: usize = block.len();
    while k < top
        invariant
            block.len() <= k <= top,
            w == block_width(block_view(*block)),
            block_view(out) == block_view(*block) + blank_lines(
                (k - block.len()) as nat,
                w as nat,
            ),
        decreases top - k,
    {
        let mut line: Vec<char> = Vec::new();
        push_repeated(&mut line, ' ', w);
        let ghost before = block_view(out);
        out.push(line);
        assert(block_view(out) == before.push(line@));
        k = k + 1;
    }
    assert((k - block.len()) as nat == gap(h as nat, block_view(*block).len()));
    out
}

/// The lines of a text, each as a vector of its characters.
pub fn read_block(text: &str) -> (block: Vec<Vec<char>>)
    ensures
        block_view(block) == text_lines(text@),
{
    let chars = to_chars(text);
    split_lines(&chars)
}

/// The text whose lines are the lines of the block.
pub fn write_block(block: &Vec<Vec<char>>) -> (text: String)
    ensures
        text@ == joined(block_view(*block)),
{
    let chars = join_lines(block);
    to_text(&chars)
}

/// Pads every line of the block with spaces until all are as wide on the
/// terminal as the widest. The spaces go behind the line as it is, so the
/// colour codes in it stay where they are.
pub fn normalize(block: &mut String)
    ensures
        final(block)@ == normalized_text(old(block)@),
{
    let lines = read_block(block.as_str());
    let even = normalize_lines(&lines);
    *block = write_block(&even);
}

/// Puts `{{reset}}` behind every line, so that a colour set on one line
/// does not run on into the next.
pub fn terminate_styling(string: &mut String)
    ensures
        final(string)@ == terminated_text(old(string)@),
{
    let lines = read_block(string.as_str());
    let closed = terminate_lines(&lines);
    *string = write_block(&closed);
}

/// The characters of the text, one on each line.
pub fn transpose_string(string: String) -> (out: String)
    ensures
        out@ == joined(transposed(string@)),
{
    let chars = to_chars(string.as_str());
    let mut lines: Vec<Vec<char>> = Vec::new();
    let mut i: usize = 0;
    while i < chars.len()
        invariant
            i <= chars.len(),
            chars@ == string@,
            block_view(lines) == transposed(string@).take(i as int),
        decreases chars.len() - i,
    {
        let mut line: Vec<char> = Vec::new();
        line.push(chars[i]);
        let ghost before = block_view(lines);
        lines.push(line);
        assert(block_view(lines) == before.push(line@));
        i = i + 1;
    }
    assert(transposed(string@).take(chars.len() as int) == transposed(string@));
    write_block(&lines)
}

} // verus!
