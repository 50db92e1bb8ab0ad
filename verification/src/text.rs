//! Text as sequences of characters: conversions between strings and
//! character vectors, runs of one character, and the split of a text into
//! lines and back.

use vstd::prelude::*;
use vstd::string::*;

verus! {

/// `String::push` appends one character to the end of the string.
pub assume_specification[ String::push ](s: &mut String, ch: char)
    ensures
        final(s)@ == old(s)@.push(ch),
;

/// `n` copies of `c`.
pub open spec fn repeated(c: char, n: nat) -> Seq<char> {
    Seq::new(n, |i: int| c)
}

/// `n` plain spaces.
pub open spec fn spaces(n: nat) -> Seq<char> {
    repeated(' ', n)
}

/// The index of the first line feed of `t` at or after `i`, or the length
/// of `t` where there is none.
pub open spec fn line_end(t: Seq<char>, i: int) -> int
    decreases t.len() - i,
{
    if i < 0 || i >= t.len() || t[i] == '\n' {
        i
    } else {
        line_end(t, i + 1)
    }
}

/// Where the content of the line `t[i..e]` stops: a line that a line feed
/// ends loses one carriage return in front of that line feed.
pub open spec fn content_end(t: Seq<char>, i: int, e: int) -> int {
    if e < t.len() && i < e && t[e - 1] == '\r' {
        e - 1
    } else {
        e
    }
}

/// The lines of `t` from position `i` on.
pub open spec fn lines_from(t: Seq<char>, i: int) -> Seq<Seq<char>>
    decreases t.len() - i,
{
    let e = line_end(t, i);
    if 0 <= i && i < t.len() && i <= e && e < t.len() {
        seq![t.subrange(i, content_end(t, i, e))] + lines_from(t, e + 1)
    } else if 0 <= i && i < t.len() {
        seq![t.subrange(i, t.len() as int)]
    } else {
        Seq::empty()
    }
}

/// The lines of a text. A line ends at a line feed or at a carriage return
/// followed by a line feed; neither belongs to the line. The last line needs
/// no line ending, so a text that ends in one has the same lines as the
/// text without it, and the empty text has no lines.
pub open spec fn text_lines(t: Seq<char>) -> Seq<Seq<char>> {
    lines_from(t, 0)
}

/// The lines with one line feed between each two neighbours.
pub open spec fn joined(lines: Seq<Seq<char>>) -> Seq<char>
    decreases lines.len(),
{
    if lines.len() == 0 {
        Seq::empty()
    } else if lines.len() == 1 {
        lines[0]
    } else {
        joined(lines.drop_last()) + seq!['\n'] + lines.last()
    }
}

/// The lines, each followed by a line feed.
pub open spec fn line_fed(lines: Seq<Seq<char>>) -> Seq<char>
    decreases lines.len(),
{
    if lines.len() == 0 {
        Seq::empty()
    } else {
        line_fed(lines.drop_last()) + lines.last() + seq!['\n']
    }
}

/// The view of a block held as vectors: the lines as sequences.
pub open spec fn block_view(block: Vec<Vec<char>>) -> Seq<Seq<char>> {
    Seq::new(block@.len(), |i: int| block@[i]@)
}

/// A line ends inside the text, at a line feed or at the end, and holds no
/// line feed.
pub proof fn lemma_line_end_bounds(t: Seq<char>, i: int)
    requires
        0 <= i <= t.len(),
    ensures
        i <= line_end(t, i) <= t.len(),
        line_end(t, i) < t.len() ==> t[line_end(t, i)] == '\n',
        forall|k: int| i <= k < line_end(t, i) ==> t[k] != '\n',
    decreases t.len() - i,
{
    if i < t.len() && t[i] != '\n' {
        lemma_line_end_bounds(t, i + 1);
    }
}

/// The characters of `s`, in order.
pub fn to_chars(s: &str) -> (out: Vec<char>)
    ensures
        out@ == s@,
{
    let mut out: Vec<char> = Vec::new();
    for c in it: s.chars()
        invariant
            it.seq() == s@,
            out@ == s@.take(it.index()),
    {
        out.push(c);
    }
    out
}

/// The string made of the characters of `chars`, in order.
pub fn to_text(chars: &Vec<char>) -> (out: String)
    ensures
        out@ == chars@,
{
    let mut out = String::new();
    let mut i: usize = 0;
    while i < chars.len()
        invariant
            i <= chars.len(),
            out@ == chars@.take(i as int),
        decreases chars.len() - i,
    {
        out.push(chars[i]);
        i = i + 1;
    }
    out
}

/// Appends `n` copies of `c` to `out`.
pub fn push_repeated(out: &mut Vec<char>, c: char, n: u128)
    ensures
        final(out)@ == old(out)@ + repeated(c, n as nat),
{
    let mut k: u128 = 0;
    while k < n
        invariant
            k <= n,
            out@ == old(out)@ + repeated(c, k as nat),
        decreases n - k,
    {
        out.push(c);
        k = k + 1;
    }
}

/// Appends the characters of `piece` to `out`.
pub fn push_all(out: &mut Vec<char>, piece: &Vec<char>)
    ensures
        final(out)@ == old(out)@ + piece@,
{
    let mut k: usize = 0;
    while k < piece.len()
        invariant
            k <= piece.len(),
            out@ == old(out)@ + piece@.take(k as int),
        decreases piece.len() - k,
    {
        out.push(piece[k]);
        k = k + 1;
    }
}

/// A copy of `chars[from..to]`.
pub(crate) fn copy_range(chars: &Vec<char>, from: usize, to: usize) -> (out: Vec<char>)
    requires
        from <= to <= chars.len(),
    ensures
        out@ == chars@.subrange(from as int, to as int),
{
    let mut out: Vec<char> = Vec::new();
    let mut k: usize = from;
    while k < to
        invariant
            from <= k <= to <= chars.len(),
            out@ == chars@.subrange(from as int, k as int),
        decreases to - k,
    {
        out.push(chars[k]);
        k = k + 1;
    }
    out
}

/// The lines of `text`, each as a vector of its characters.
pub fn split_lines(text: &Vec<char>) -> (block: Vec<Vec<char>>)
    ensures
        block_view(block) == text_lines(text@),
{
    let mut block: Vec<Vec<char>> = Vec::new();
    let mut i: usize = 0;
    while i < text.len()
        invariant
            i <= text.len(),
            block_view(block) + lines_from(text@, i as int) == text_lines(text@),
        decreases text.len() - i,
    {
        let mut e: usize = i;
        while e < text.len() && text[e] != '\n'
            invariant
                i <= e <= text.len(),
                line_end(text@, e as int) == line_end(text@, i as int),
            decreases text.len() - e,
        {
            e = e + 1;
        }
        let stop: usize = if e < text.len() && i < e && text[e - 1] == '\r' {
            e - 1
        } else {
            e
        };
        let line = copy_range(text, i, stop);
        let ghost before = block_view(block);
        block.push(line);
        proof {
            assert(block_view(block) == before + seq![line@]);
            lemma_line_end_bounds(text@, i as int);
            lemma_line_end_bounds(text@, e as int);
            if e < text.len() {
                assert(lines_from(text@, i as int) == seq![line@] + lines_from(
                    text@,
                    e as int + 1,
                ));
            } else {
                assert(lines_from(text@, i as int) == seq![line@]);
            }
        }
        if e < text.len() {
            i = e + 1;
        } else {
            i = e;
            proof {
                assert(lines_from(text@, e as int) == Seq::<Seq<char>>::empty());
            }
        }
    }
    block
}

/// The lines of `block` with one line feed between each two neighbours.
pub fn join_lines(block: &Vec<Vec<char>>) -> (text: Vec<char>)
    ensures
        text@ == joined(block_view(*block)),
{
    let mut text: Vec<char> = Vec::new();
    let mut i: usize = 0;
    while i < block.len()
        invariant
            i <= block.len(),
            text@ == joined(block_view(*block).take(i as int)),
        decreases block.len() - i,
    {
        let ghost lines = block_view(*block);
        proof {
            assert(lines.take(i + 1).drop_last() == lines.take(i as int));
        }
        if i > 0 {
            text.push('\n');
        }
        push_all(&mut text, &block[i]);
        i = i + 1;
    }
    proof {
        assert(block_view(*block).take(block.len() as int) == block_view(*block));
    }
    text
}

/// The lines of `block`, each followed by a line feed.
pub fn feed_lines(block: &Vec<Vec<char>>) -> (text: Vec<char>)
    ensures
        text@ == line_fed(block_view(*block)),
{
    let mut text: Vec<char> = Vec::new();
    let mut i: usize = 0;
    while i < block.len()
        invariant
            i <= block.len(),
            text@ == line_fed(block_view(*block).take(i as int)),
        decreases block.len() - i,
    {
        let ghost lines = block_view(*block);
        proof {
            assert(lines.take(i + 1).drop_last() == lines.take(i as int));
        }
        push_all(&mut text, &block[i]);
        text.push('\n');
        i = i + 1;
    }
    proof {
        assert(block_view(*block).take(block.len() as int) == block_view(*block));
    }
    text
}

} // verus!
