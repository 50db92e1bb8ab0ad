//! What aligning does to the shape of blocks.

use vstd::prelude::*;
use crate::block::{
    blank_lines, block_width, gap, is_normalized, lemma_block_width_uniform,
    lemma_normalized_is_normalized, normalized,
};
use crate::compose::{
    aligned, all_normalized, axis_alignment, is_beside, lemma_max_height, lemma_max_width,
    lifted, max_height, max_width, share_before, widened,
};
use crate::config::{Alignment, ArtPlacement};
use crate::frame_lemmas::{lemma_blank_lines_width, lemma_spaces_around_width};
use crate::width::display_width;

verus! {

/// Blocks that are aligned to stand beside each other all get the height
/// of the highest of them, and each is normalized.
pub proof fn aligned_beside_share_a_height(
    blocks: Seq<Seq<Seq<char>>>,
    placement: ArtPlacement,
    alignment: Alignment,
)
    requires
        is_beside(placement),
    ensures
        aligned(blocks, placement, alignment).len() == blocks.len(),
        forall|k: int|
            0 <= k < blocks.len() ==> (#[trigger] aligned(blocks, placement, alignment)[k]).len()
                == max_height(all_normalized(blocks)),
        forall|k: int|
            0 <= k < blocks.len() ==> is_normalized(
                #[trigger] aligned(blocks, placement, alignment)[k],
            ),
{
    let even = all_normalized(blocks);
    let h = max_height(even);
    let a = axis_alignment(alignment);
    lemma_max_height(even);
    assert forall|k: int| 0 <= k < blocks.len() implies (#[trigger] aligned(
        blocks,
        placement,
        alignment,
    )[k]).len() == h && is_normalized(aligned(blocks, placement, alignment)[k]) by {
        let b = even[k];
        let out = lifted(b, h, a);
        let w = block_width(b);
        let d = gap(h, b.len());
        let above = share_before(d, a);
        assert(b.len() <= h);
        assert(above <= d) by (nonlinear_arith)
            requires
                above == 0 || above == d / 2 || above == d,
        ;
        lemma_normalized_is_normalized(blocks[k]);
        lemma_blank_lines_width(above, w);
        lemma_blank_lines_width((d - above) as nat, w);
        assert forall|i: int| 0 <= i < out.len() implies display_width(#[trigger] out[i])
            == w by {
            if i < above {
                assert(out[i] == blank_lines(above, w)[i]);
            } else if i < above + b.len() {
                assert(out[i] == b[i - above]);
            } else {
                assert(out[i] == blank_lines((d - above) as nat, w)[i - above - b.len()]);
            }
        }
        lemma_block_width_uniform(out, w);
    }
}

/// Blocks that are aligned to stand above each other all get the width of
/// the widest of them: every line of every block is that wide.
pub proof fn aligned_stacked_share_a_width(
    blocks: Seq<Seq<Seq<char>>>,
    placement: ArtPlacement,
    alignment: Alignment,
)
    requires
        !is_beside(placement),
    ensures
        aligned(blocks, placement, alignment).len() == blocks.len(),
        forall|k: int|
            0 <= k < blocks.len() ==> (#[trigger] aligned(blocks, placement, alignment)[k]).len()
                == blocks[k].len(),
        forall|k: int, i: int|
            0 <= k < blocks.len() && 0 <= i < blocks[k].len() ==> display_width(
                #[trigger] aligned(blocks, placement, alignment)[k][i],
            ) == max_width(all_normalized(blocks)),
{
    let even = all_normalized(blocks);
    let w = max_width(even);
    let a = axis_alignment(alignment);
    lemma_max_width(even);
    assert forall|k: int, i: int| 0 <= k < blocks.len() && 0 <= i < blocks[k].len() implies display_width(
    #[trigger] aligned(blocks, placement, alignment)[k][i]) == w by {
        let b = even[k];
        let d = gap(w, block_width(b));
        let front = share_before(d, a);
        lemma_normalized_is_normalized(blocks[k]);
        assert(block_width(b) <= w);
        assert(front <= d) by (nonlinear_arith)
            requires
                front == 0 || front == d / 2 || front == d,
        ;
        assert(aligned(blocks, placement, alignment)[k] == widened(b, w, a));
        lemma_spaces_around_width(b[i], front, (d - front) as nat);
    }
}

} // verus!
