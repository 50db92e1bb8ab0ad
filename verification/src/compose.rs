//! Putting blocks side by side or one above the other: the blocks are first
//! brought to one height or one width, each aligned in the room that this
//! leaves, and then joined line by line or stacked.

use vstd::prelude::*;
use crate::block::{
    blank_lines, block_width, gap, lines_width, normalize_lines, normalized, raise_lines, raised,
    read_block, transposed, write_block,
};
use crate::config::{Alignment, ArtPlacement};
use crate::text::{
    block_view, feed_lines, joined, line_fed, push_all, push_repeated, spaces, text_lines,
    to_text,
};

verus! {

/// Where a block goes in the room that is left, whichever way that room
/// runs: at its start, in its middle, or at its end.
#[derive(Clone, Copy, Debug, PartialEq, Eq, Structural)]
pub enum AxisAlignment {
    Start,
    Center,
    End,
}

/// Left and top mean the start, right and bottom the end.
pub open spec fn axis_alignment(alignment: Alignment) -> AxisAlignment {
    match alignment {
        Alignment::Left | Alignment::Top => AxisAlignment::Start,
        Alignment::Center => AxisAlignment::Center,
        Alignment::Right | Alignment::Bottom => AxisAlignment::End,
    }
}

/// The art stands beside the text, not above or below it.
pub open spec fn is_beside(placement: ArtPlacement) -> bool {
    placement == ArtPlacement::Left || placement == ArtPlacement::Right
}

/// The lines of each text.
pub open spec fn texts_lines(texts: Seq<Seq<char>>) -> Seq<Seq<Seq<char>>> {
    Seq::new(texts.len(), |k: int| text_lines(texts[k]))
}

/// The view of owned texts: each as its characters.
pub open spec fn strings_view(texts: Vec<String>) -> Seq<Seq<char>> {
    Seq::new(texts@.len(), |k: int| texts@[k]@)
}

/// The view of borrowed texts: each as its characters.
pub open spec fn strs_view(texts: Vec<&str>) -> Seq<Seq<char>> {
    Seq::new(texts@.len(), |k: int| texts@[k]@)
}

/// The view of blocks held as vectors.
pub open spec fn blocks_view(blocks: Vec<Vec<Vec<char>>>) -> Seq<Seq<Seq<char>>> {
    Seq::new(blocks@.len(), |k: int| block_view(blocks@[k]))
}

/// The height of the highest block, and 0 for no blocks.
pub open spec fn max_height(blocks: Seq<Seq<Seq<char>>>) -> nat
    decreases blocks.len(),
{
    if blocks.len() == 0 {
        0
    } else if max_height(blocks.drop_last()) >= blocks.last().len() {
        max_height(blocks.drop_last())
    } else {
        blocks.last().len()
    }
}

/// The width of the widest block, and 0 for no blocks.
pub open spec fn max_width(blocks: Seq<Seq<Seq<char>>>) -> nat
    decreases blocks.len(),
{
    if blocks.len() == 0 {
        0
    } else if max_width(blocks.drop_last()) >= block_width(blocks.last()) {
        max_width(blocks.drop_last())
    } else {
        block_width(blocks.last())
    }
}

/// The blank lines that go above a block that lacks `d` lines.
pub open spec fn share_before(d: nat, a: AxisAlignment) -> nat {
    match a {
        AxisAlignment::Start => 0,
        AxisAlignment::Center => d / 2,
        AxisAlignment::End => d,
    }
}

/// The block brought to the height `h`: blank lines as wide as the block
/// fill what it lacks, below it for the start, above it for the end, and on
/// both sides for the middle, where the line that cannot be shared goes
/// below.
pub open spec fn lifted(b: Seq<Seq<char>>, h: nat, a: AxisAlignment) -> Seq<Seq<char>> {
    let d = gap(h, b.len());
    let above = share_before(d, a);
    blank_lines(above, block_width(b)) + b + blank_lines((d - above) as nat, block_width(b))
}

/// The line with `d` more columns: spaces behind it for the start, in
/// front of it for the end, and on both sides for the middle, where the
/// column that cannot be shared goes behind.
pub open spec fn widened_line(line: Seq<char>, d: nat, a: AxisAlignment) -> Seq<char> {
    let front = share_before(d, a);
    spaces(front) + line + spaces((d - front) as nat)
}

/// The block brought to the width `w`.
pub open spec fn widened(b: Seq<Seq<char>>, w: nat, a: AxisAlignment) -> Seq<Seq<char>> {
    Seq::new(b.len(), |i: int| widened_line(b[i], gap(w, block_width(b)), a))
}

/// Each block normalized.
pub open spec fn all_normalized(blocks: Seq<Seq<Seq<char>>>) -> Seq<Seq<Seq<char>>> {
    Seq::new(blocks.len(), |k: int| normalized(blocks[k]))
}

/// The blocks aligned with each other. Each is normalized first. Blocks
/// that stand beside each other are then brought to the height of the
/// highest; blocks that stand above each other to the width of the widest.
pub open spec fn aligned(
    blocks: Seq<Seq<Seq<char>>>,
    placement: ArtPlacement,
    alignment: Alignment,
) -> Seq<Seq<Seq<char>>> {
    let even = all_normalized(blocks);
    let a = axis_alignment(alignment);
    Seq::new(
        blocks.len(),
        |k: int|
            if is_beside(placement) {
                lifted(even[k], max_height(even), a)
            } else {
                widened(even[k], max_width(even), a)
            },
    )
}

/// Each block with blank lines below it up to the height of the highest.
pub open spec fn all_raised(blocks: Seq<Seq<Seq<char>>>) -> Seq<Seq<Seq<char>>> {
    Seq::new(blocks.len(), |k: int| raised(blocks[k], max_height(blocks)))
}

/// The line `i` of every block, one behind the other.
pub open spec fn row(blocks: Seq<Seq<Seq<char>>>, i: int) -> Seq<char>
    decreases blocks.len(),
{
    if blocks.len() == 0 {
        Seq::empty()
    } else {
        row(blocks.drop_last(), i) + blocks.last()[i]
    }
}

/// The blocks side by side: as many lines as the highest block has, each
/// the lines of all blocks at that height, one behind the other. A block
/// that is not as high gets blank lines of its own width below it.
pub open spec fn adjacent(blocks: Seq<Seq<Seq<char>>>) -> Seq<Seq<char>> {
    Seq::new(max_height(blocks), |i: int| row(all_raised(blocks), i))
}

/// The lines of the art and of the text put together, with `gutter`
/// columns or lines between them. Beside each other they are joined line
/// by line around a block of `gutter` spaces; above each other they are
/// stacked around `gutter` lines of one space.
pub open spec fn art_added(
    art: Seq<Seq<char>>,
    fetch: Seq<Seq<char>>,
    placement: ArtPlacement,
    gutter: nat,
) -> Seq<Seq<char>> {
    match placement {
        ArtPlacement::Left => adjacent(seq![art, text_lines(spaces(gutter)), fetch]),
        ArtPlacement::Right => adjacent(seq![fetch, text_lines(spaces(gutter)), art]),
        ArtPlacement::Top => art + transposed(spaces(gutter)) + fetch,
        ArtPlacement::Bottom => fetch + transposed(spaces(gutter)) + art,
    }
}

/// The text of the art and the text put together: beside each other every
/// line ends in a line feed, above each other the lines are joined.
pub open spec fn art_added_text(
    art: Seq<char>,
    fetch: Seq<char>,
    placement: ArtPlacement,
    gutter: nat,
) -> Seq<char> {
    let lines = art_added(text_lines(art), text_lines(fetch), placement, gutter);
    if is_beside(placement) {
        line_fed(lines)
    } else {
        joined(lines)
    }
}

/// No block is higher than the highest.
pub proof fn lemma_max_height(blocks: Seq<Seq<Seq<char>>>)
    ensures
        forall|k: int| 0 <= k < blocks.len() ==> (#[trigger] blocks[k]).len() <= max_height(blocks),
    decreases blocks.len(),
{
    if blocks.len() > 0 {
        let front = blocks.drop_last();
        lemma_max_height(front);
        assert forall|k: int| 0 <= k < blocks.len() implies (#[trigger] blocks[k]).len()
            <= max_height(blocks) by {
            if k < front.len() {
                assert(front[k] == blocks[k]);
            }
        }
    }
}

/// No block is wider than the widest.
pub proof fn lemma_max_width(blocks: Seq<Seq<Seq<char>>>)
    ensures
        forall|k: int|
            0 <= k < blocks.len() ==> block_width(#[trigger] blocks[k]) <= max_width(blocks),
    decreases blocks.len(),
{
    if blocks.len() > 0 {
        let front = blocks.drop_last();
        lemma_max_width(front);
        assert forall|k: int| 0 <= k < blocks.len() implies block_width(#[trigger] blocks[k])
            <= max_width(blocks) by {
            if k < front.len() {
                assert(front[k] == blocks[k]);
            }
        }
    }
}

/// The start, middle or end that an alignment means.
pub fn to_axis(alignment: Alignment) -> (a: AxisAlignment)
    ensures
        a == axis_alignment(alignment),
{
    match alignment {
        Alignment::Left | Alignment::Top => AxisAlignment::Start,
        Alignment::Center => AxisAlignment::Center,
        Alignment::Right | Alignment::Bottom => AxisAlignment::End,
    }
}

fn beside(placement: ArtPlacement) -> (b: bool)
    ensures
        b == is_beside(placement),
{
    match placement {
        ArtPlacement::Left | ArtPlacement::Right => true,
        ArtPlacement::Top | ArtPlacement::Bottom => false,
    }
}

fn highest(blocks: &Vec<Vec<Vec<char>>>) -> (h: usize)
    ensures
        h == max_height(blocks_view(*blocks)),
{
    let mut h: usize = 0;
    let mut k: usize = 0;
    while k < blocks.len()
        invariant
            k <= blocks.len(),
            h == max_height(blocks_view(*blocks).take(k as int)),
        decreases blocks.len() - k,
    {
        let ghost all = blocks_view(*blocks);
        proof {
            assert(all.take(k + 1).drop_last() == all.take(k as int));
        }
        if blocks[k].len() > h {
            h = blocks[k].len();
        }
        k = k + 1;
    }
    proof {
        assert(blocks_view(*blocks).take(blocks.len() as int) == blocks_view(*blocks));
    }
    h
}

fn widest(blocks: &Vec<Vec<Vec<char>>>) -> (w: u128)
    ensures
        w == max_width(blocks_view(*blocks)),
{
    let mut w: u128 = 0;
    let mut k: usize = 0;
    while k < blocks.len()
        invariant
            k <= blocks.len(),
            w == max_width(blocks_view(*blocks).take(k as int)),
        decreases blocks.len() - k,
    {
        let ghost all = blocks_view(*blocks);
        proof {
            assert(all.take(k + 1).drop_last() == all.take(k as int));
        }
        let here = lines_width(&blocks[k]);
        if here > w {
            w = here;
        }
        k = k + 1;
    }
    proof {
        assert(blocks_view(*blocks).take(blocks.len() as int) == blocks_view(*blocks));
    }
    w
}

fn push_blank_lines(out: &mut Vec<Vec<char>>, n: usize, w: u128)
    ensures
        block_view(*final(out)) == block_view(*old(out)) + blank_lines(n as nat, w as nat),
{
    let mut k: usize = 0;
    while k < n
        invariant
            k <= n,
            block_view(*out) == block_view(*old(out)) + blank_lines(k as nat, w as nat),
        decreases n - k,
    {
        let mut line: Vec<char> = Vec::new();
        push_repeated(&mut line, ' ', w);
        let ghost before = block_view(*out);
        out.push(line);
        assert(block_view(*out) == before.push(line@));
        k = k + 1;
    }
}

fn push_lines(out: &mut Vec<Vec<char>>, block: &Vec<Vec<char>>)
    ensures
        block_view(*final(out)) == block_view(*old(out)) + block_view(*block),
{
    let mut i: usize = 0;
    while i < block.len()
        invariant
            i <= block.len(),
            block_view(*out) == block_view(*old(out)) + block_view(*block).take(i as int),
        decreases block.len() - i,
    {
        let mut line: Vec<char> = Vec::new();
        push_all(&mut line, &block[i]);
        let ghost before = block_view(*out);
        out.push(line);
        assert(block_view(*out) == before.push(line@));
        i = i + 1;
    }
    assert(block_view(*block).take(block.len() as int) == block_view(*block));
}

fn before_share(d: u128, a: AxisAlignment) -> (n: u128)
    ensures
        n == share_before(d as nat, a),
        n <= d,
{
    match a {
        AxisAlignment::Start => 0,
        AxisAlignment::Center => d / 2,
        AxisAlignment::End => d,
    }
}

/// The block brought to the height `h`.
pub fn lift_lines(block: &Vec<Vec<char>>, h: usize, a: AxisAlignment) -> (out: Vec<Vec<char>>)
    ensures
        block_view(out) == lifted(block_view(*block), h as nat, a),
{
    let w = lines_width(block);
    let d: usize = if h > block.len() {
        h - block.len()
    } else {
        0
    };
    let above = before_share(d as u128, a) as usize;
    let mut out: Vec<Vec<char>> = Vec::new();
    let ghost nothing = block_view(out);
    push_blank_lines(&mut out, above, w);
    push_lines(&mut out, block);
    push_blank_lines(&mut out, d - above, w);
    proof {
        assert(nothing + blank_lines(above as nat, w as nat) == blank_lines(
            above as nat,
            w as nat,
        ));
    }
    out
}

/// The block brought to the width `w`.
pub fn widen_lines(block: &Vec<Vec<char>>, w: u128, a: AxisAlignment) -> (out: Vec<Vec<char>>)
    ensures
        block_view(out) == widened(block_view(*block), w as nat, a),
{
    let have = lines_width(block);
    let d: u128 = if w > have {
        w - have
    } else {
        0
    };
    let front = before_share(d, a);
    let mut out: Vec<Vec<char>> = Vec::new();
    let mut i: usize = 0;
    while i < block.len()
        invariant
            i <= block.len(),
            d == gap(w as nat, block_width(block_view(*block))),
            front == share_before(d as nat, a),
            front <= d,
            block_view(out) == widened(block_view(*block), w as nat, a).take(i as int),
        decreases block.len() - i,
    {
        let mut line: Vec<char> = Vec::new();
        push_repeated(&mut line, ' ', front);
        push_all(&mut line, &block[i]);
        push_repeated(&mut line, ' ', d - front);
        proof {
            assert(Seq::<char>::empty() + spaces(front as nat) == spaces(front as nat));
            assert(line@ == widened_line(block_view(*block)[i as int], d as nat, a));
        }
        let ghost before = block_view(out);
        out.push(line);
        assert(block_view(out) == before.push(line@));
        i = i + 1;
    }
    out
}

/// The lines of each text.
pub fn read_blocks(texts: &Vec<String>) -> (blocks: Vec<Vec<Vec<char>>>)
    ensures
        blocks_view(blocks) == texts_lines(strings_view(*texts)),
{
    let mut blocks: Vec<Vec<Vec<char>>> = Vec::new();
    let mut k: usize = 0;
    while k < texts.len()
        invariant
            k <= texts.len(),
            blocks_view(blocks) == texts_lines(strings_view(*texts)).take(k as int),
        decreases texts.len() - k,
    {
        let block = read_block(texts[k].as_str());
        let ghost before = blocks_view(blocks);
        blocks.push(block);
        assert(blocks_view(blocks) == before.push(block_view(block)));
        k = k + 1;
    }
    blocks
}

fn read_strs(texts: &Vec<&str>) -> (blocks: Vec<Vec<Vec<char>>>)
    ensures
        blocks_view(blocks) == texts_lines(strs_view(*texts)),
{
    let mut blocks: Vec<Vec<Vec<char>>> = Vec::new();
    let mut k: usize = 0;
    while k < texts.len()
        invariant
            k <= texts.len(),
            blocks_view(blocks) == texts_lines(strs_view(*texts)).take(k as int),
        decreases texts.len() - k,
    {
        let block = read_block(texts[k]);
        let ghost before = blocks_view(blocks);
        blocks.push(block);
        assert(blocks_view(blocks) == before.push(block_view(block)));
        k = k + 1;
    }
    blocks
}

fn normalize_all(blocks: &Vec<Vec<Vec<char>>>) -> (out: Vec<Vec<Vec<char>>>)
    ensures
        blocks_view(out) == all_normalized(blocks_view(*blocks)),
{
    let mut out: Vec<Vec<Vec<char>>> = Vec::new();
    let mut k: usize = 0;
    while k < blocks.len()
        invariant
            k <= blocks.len(),
            blocks_view(out) == all_normalized(blocks_view(*blocks)).take(k as int),
        decreases blocks.len() - k,
    {
        let block = normalize_lines(&blocks[k]);
        let ghost before = blocks_view(out);
        out.push(block);
        assert(blocks_view(out) == before.push(block_view(block)));
        k = k + 1;
    }
    out
}

fn raise_all(blocks: &Vec<Vec<Vec<char>>>) -> (out: Vec<Vec<Vec<char>>>)
    ensures
        blocks_view(out) == all_raised(blocks_view(*blocks)),
{
    let h = highest(blocks);
    let mut out: Vec<Vec<Vec<char>>> = Vec::new();
    let mut k: usize = 0;
    while k < blocks.len()
        invariant
            k <= blocks.len(),
            h == max_height(blocks_view(*blocks)),
            blocks_view(out) == all_raised(blocks_view(*blocks)).take(k as int),
        decreases blocks.len() - k,
    {
        let block = raise_lines(&blocks[k], h);
        let ghost before = blocks_view(out);
        out.push(block);
        assert(blocks_view(out) == before.push(block_view(block)));
        k = k + 1;
    }
    out
}

/// The blocks aligned with each other.
pub fn align_blocks(
    blocks: &Vec<Vec<Vec<char>>>,
    placement: ArtPlacement,
    alignment: Alignment,
) -> (out: Vec<Vec<Vec<char>>>)
    ensures
        blocks_view(out) == aligned(blocks_view(*blocks), placement, alignment),
{
    let even = normalize_all(blocks);
    let a = to_axis(alignment);
    let sideways = beside(placement);
    let h = highest(&even);
    let w = widest(&even);
    let mut out: Vec<Vec<Vec<char>>> = Vec::new();
    let mut k: usize = 0;
    while k < even.len()
        invariant
            k <= even.len(),
            even.len() == blocks.len(),
            blocks_view(even) == all_normalized(blocks_view(*blocks)),
            a == axis_alignment(alignment),
            sideways == is_beside(placement),
            h == max_height(blocks_view(even)),
            w == max_width(blocks_view(even)),
            blocks_view(out) == aligned(blocks_view(*blocks), placement, alignment).take(
                k as int,
            ),
        decreases even.len() - k,
    {
        let block = if sideways {
            lift_lines(&even[k], h, a)
        } else {
            widen_lines(&even[k], w, a)
        };
        let ghost before = blocks_view(out);
        out.push(block);
        assert(blocks_view(out) == before.push(block_view(block)));
        k = k + 1;
    }
    assert(blocks_view(even).len() == blocks.len());
    out
}

/// The blocks side by side.
pub fn place_lines_adjacent(blocks: &Vec<Vec<Vec<char>>>) -> (out: Vec<Vec<char>>)
    ensures
        block_view(out) == adjacent(blocks_view(*blocks)),
{
    let h = highest(blocks);
    let even = raise_all(blocks);
    proof {
        lemma_max_height(blocks_view(*blocks));
        assert(blocks_view(even).len() == blocks_view(*blocks).len());
    }
    let mut out: Vec<Vec<char>> = Vec::new();
    let mut i: usize = 0;
    while i < h
        invariant
            i <= h,
            even.len() == blocks.len(),
            h == max_height(blocks_view(*blocks)),
            blocks_view(even) == all_raised(blocks_view(*blocks)),
            forall|k: int|
                0 <= k < blocks.len() ==> (#[trigger] blocks_view(*blocks)[k]).len() <= h,
            block_view(out) == adjacent(blocks_view(*blocks)).take(i as int),
        decreases h - i,
    {
        let mut line: Vec<char> = Vec::new();
        let mut k: usize = 0;
        while k < even.len()
            invariant
                k <= even.len(),
                even.len() == blocks.len(),
                i < h,
                h == max_height(blocks_view(*blocks)),
                blocks_view(even) == all_raised(blocks_view(*blocks)),
                forall|k: int|
                    0 <= k < blocks.len() ==> (#[trigger] blocks_view(*blocks)[k]).len() <= h,
                line@ == row(blocks_view(even).take(k as int), i as int),
            decreases even.len() - k,
        {
            let ghost all = blocks_view(even);
            proof {
                assert(all.take(k + 1).drop_last() == all.take(k as int));
                assert(all[k as int] == raised(blocks_view(*blocks)[k as int], h as nat));
                assert(all[k as int].len() == h);
            }
            push_all(&mut line, &even[k][i]);
            k = k + 1;
        }
        proof {
            assert(blocks_view(even).take(even.len() as int) == blocks_view(even));
        }
        let ghost before = block_view(out);
        out.push(line);
        assert(block_view(out) == before.push(line@));
        i = i + 1;
    }
    out
}

/// Aligns the blocks with each other, each given and returned as a
/// text. Every block is normalized first. Blocks that are to stand beside
/// each other are brought to the height of the highest, blocks that are to
/// stand above each other to the width of the widest. The alignment says
/// where a block goes in what it lacks: left and top mean the start, right
/// and bottom the end; in the middle, the line or column that cannot be
/// shared goes behind the block.
pub fn align(blocks: &Vec<String>, placement: ArtPlacement, alignment: Alignment) -> (out: Vec<
    String,
>)
    ensures
        out.len() == blocks.len(),
        forall|k: int|
            0 <= k < blocks.len() ==> (#[trigger] out[k])@ == joined(
                aligned(texts_lines(strings_view(*blocks)), placement, alignment)[k],
            ),
{
    let parts = read_blocks(blocks);
    let done = align_blocks(&parts, placement, alignment);
    assert(blocks_view(done).len() == strings_view(*blocks).len());
    let mut out: Vec<String> = Vec::new();
    let mut k: usize = 0;
    while k < done.len()
        invariant
            k <= done.len(),
            done.len() == blocks.len(),
            out.len() == k,
            blocks_view(done) == aligned(texts_lines(strings_view(*blocks)), placement, alignment),
            forall|j: int|
                0 <= j < k ==> (#[trigger] out[j])@ == joined(
                    aligned(texts_lines(strings_view(*blocks)), placement, alignment)[j],
                ),
        decreases done.len() - k,
    {
        let text = write_block(&done[k]);
        assert(block_view(done[k as int]) == blocks_view(done)[k as int]);
        out.push(text);
        k = k + 1;
    }
    out
}

/// Brings the blocks to the height of the highest, each given and returned
/// as a text: a block that is not as high gets blank lines of its own
/// width below it.
pub fn vertically_normalize(blocks: Vec<&str>) -> (out: Vec<String>)
    ensures
        out.len() == blocks.len(),
        forall|k: int|
            0 <= k < blocks.len() ==> (#[trigger] out[k])@ == joined(
                all_raised(texts_lines(strs_view(blocks)))[k],
            ),
{
    let parts = read_strs(&blocks);
    let done = raise_all(&parts);
    assert(blocks_view(done).len() == strs_view(blocks).len());
    let mut out: Vec<String> = Vec::new();
    let mut k: usize = 0;
    while k < done.len()
        invariant
            k <= done.len(),
            done.len() == blocks.len(),
            out.len() == k,
            blocks_view(done) == all_raised(texts_lines(strs_view(blocks))),
            forall|j: int|
                0 <= j < k ==> (#[trigger] out[j])@ == joined(
                    all_raised(texts_lines(strs_view(blocks)))[j],
                ),
        decreases done.len() - k,
    {
        let text = write_block(&done[k]);
        assert(block_view(done[k as int]) == blocks_view(done)[k as int]);
        out.push(text);
        k = k + 1;
    }
    out
}

/// Puts the blocks side by side, each given as a text: line `i` of the
/// result is line `i` of every block, one behind the other, and ends in a
/// line feed. A block that is not as high as the highest gets blank lines
/// of its own width below it first. No blocks give the empty text.
pub fn place_blocks_adjacent(blocks: Vec<&str>) -> (out: String)
    ensures
        out@ == line_fed(adjacent(texts_lines(strs_view(blocks)))),
{
    let parts = read_strs(&blocks);
    let lines = place_lines_adjacent(&parts);
    let chars = feed_lines(&lines);
    to_text(&chars)
}

/// Puts the art and the text together, each given as a text, with
/// `middle_padding` columns or lines between them: the art on the left or
/// right of the text, joined line by line, or above or below it, stacked.
pub fn add_ascii_art(
    ascii_art: &str,
    fetch: String,
    placement: ArtPlacement,
    middle_padding: u8,
) -> (out: String)
    ensures
        out@ == art_added_text(ascii_art@, fetch@, placement, middle_padding as nat),
{
    let art = read_block(ascii_art);
    let text = read_block(fetch.as_str());
    let mut gutter: Vec<char> = Vec::new();
    push_repeated(&mut gutter, ' ', middle_padding as u128);
    assert(gutter@ == spaces(middle_padding as nat));
    let mut parts: Vec<Vec<Vec<char>>> = Vec::new();
    match placement {
        ArtPlacement::Left | ArtPlacement::Right => {
            let between = crate::text::split_lines(&gutter);
            if placement == ArtPlacement::Left {
                parts.push(art);
                parts.push(between);
                parts.push(text);
            } else {
                parts.push(text);
                parts.push(between);
                parts.push(art);
            }
            assert(blocks_view(parts) == if placement == ArtPlacement::Left {
                seq![block_view(art), text_lines(gutter@), block_view(text)]
            } else {
                seq![block_view(text), text_lines(gutter@), block_view(art)]
            });
            let lines = place_lines_adjacent(&parts);
            let chars = feed_lines(&lines);
            to_text(&chars)
        },
        ArtPlacement::Top | ArtPlacement::Bottom => {
            let mut between: Vec<Vec<char>> = Vec::new();
            let mut i: usize = 0;
            while i < gutter.len()
                invariant
                    i <= gutter.len(),
                    block_view(between) == transposed(gutter@).take(i as int),
                decreases gutter.len() - i,
            {
                let mut line: Vec<char> = Vec::new();
                line.push(gutter[i]);
                let ghost before = block_view(between);
                between.push(line);
                assert(block_view(between) == before.push(line@));
                i = i + 1;
            }
            assert(transposed(gutter@).take(gutter.len() as int) == transposed(gutter@));
            let mut lines: Vec<Vec<char>> = Vec::new();
            let ghost nothing = block_view(lines);
            if placement == ArtPlacement::Top {
                push_lines(&mut lines, &art);
                push_lines(&mut lines, &between);
                push_lines(&mut lines, &text);
            } else {
                push_lines(&mut lines, &text);
                push_lines(&mut lines, &between);
                push_lines(&mut lines, &art);
            }
            assert(nothing + block_view(art) == block_view(art));
            assert(nothing + block_view(text) == block_view(text));
            write_block(&lines)
        },
    }
}

} // verus!
