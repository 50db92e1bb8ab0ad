//! The terminal-graphics protocol: the staged image goes to the terminal
//! as base64 text in chunks, each framed as an escape sequence with its
//! control keys, followed by blank lines for the image to be painted over.

use vstd::prelude::*;
use vstd::string::*;
use vstd::utf8::*;
use base64::engine::general_purpose;
use base64::Engine;
use crate::block::blank_lines;
use crate::compose::strings_view;
use crate::escapes::ESC;
use crate::geometry::{
    cell_size, get_cell_size, get_target_rows, plan_stage, target_rows, Probe, ProbeError,
    StageError,
};
use crate::stage::{decode, decoded_image, lemma_plan_fits, stage_bitmap, staged_image};
use crate::tags::{decimal, push_number};
use crate::text::{joined, push_all, push_repeated, to_chars, to_text};

verus! {

/// The bytes of one chunk of the payload.
pub const CHUNK_SIZE: usize = 4096;

/// Why there is no image for the terminal.
#[derive(Clone, Copy, Debug, PartialEq, Eq, Structural)]
pub enum KittyError {
    /// The size of a cell is not known.
    Probe(ProbeError),
    /// The image cannot be staged.
    Stage(StageError),
    /// The staged image is too long to be encoded as text.
    PayloadTooLong,
}

/// What `base64::Engine::encode` of the standard engine returns for
/// `bytes`: the base64 text with the standard alphabet and padding.
pub uninterp spec fn base64_standard(bytes: Seq<u8>) -> Seq<char>;

/// The number of chunks of `size` that `len` makes: the last may be
/// shorter, and nothing makes no chunk.
pub open spec fn chunk_count(len: nat, size: nat) -> nat {
    if size == 0 {
        0
    } else {
        ((len + size - 1) / size as int) as nat
    }
}

/// Where chunk `j` begins.
pub open spec fn chunk_start(j: int, size: nat) -> int {
    j * size
}

/// Where chunk `j` ends: a full chunk further, or at the end of the data.
pub open spec fn chunk_stop(j: int, size: nat, len: nat) -> int {
    if (j + 1) * size < len {
        (j + 1) * size
    } else {
        len as int
    }
}

/// Every place where the bytes are cut into chunks lies between two
/// characters.
pub open spec fn cuts_between_chars(bytes: Seq<u8>, size: nat) -> bool {
    forall|j: int|
        0 < j && #[trigger] chunk_start(j, size) < bytes.len() ==> is_char_boundary(
            bytes,
            chunk_start(j, size),
        )
}

/// The chunks of a text of one-byte characters.
pub open spec fn chunks_of(data: Seq<char>, size: nat) -> Seq<Seq<char>> {
    Seq::new(
        chunk_count(data.len(), size),
        |j: int| data.subrange(chunk_start(j, size), chunk_stop(j, size, data.len())),
    )
}

/// The control keys of the first chunk: the payload is a PNG file, to be
/// sent and shown at once, above the text, over `columns` columns and
/// `rows` rows, without moving the cursor.
pub open spec fn placement_keys(columns: nat, rows: nat) -> Seq<char> {
    "f=100,a=T,z=1,c="@ + decimal(columns) + ",r="@ + decimal(rows) + ",C=1,"@
}

/// One chunk framed for the terminal: `ESC _ G`, the control keys, the key
/// `m` that says whether more chunks follow, a semicolon, the chunk, and
/// `ESC \`.
pub open spec fn frame(keys: Seq<char>, more: bool, chunk: Seq<char>) -> Seq<char> {
    seq![ESC, '_', 'G'] + keys + "m="@ + seq![
        if more {
            '1'
        } else {
            '0'
        },
        ';',
    ] + chunk + seq![ESC, '\\']
}

/// The frames of the chunks: only the first carries the placement keys,
/// and every frame but the last says that more follow.
pub open spec fn frames(chunks: Seq<Seq<char>>, columns: nat, rows: nat) -> Seq<Seq<char>> {
    Seq::new(
        chunks.len(),
        |i: int|
            frame(
                if i == 0 {
                    placement_keys(columns, rows)
                } else {
                    Seq::empty()
                },
                i + 1 < chunks.len(),
                chunks[i],
            ),
    )
}

/// The texts one behind the other.
pub open spec fn concat(texts: Seq<Seq<char>>) -> Seq<char>
    decreases texts.len(),
{
    if texts.len() == 0 {
        Seq::empty()
    } else {
        concat(texts.drop_last()) + texts.last()
    }
}

/// `height` lines of `width` spaces, with a line feed between each two.
pub open spec fn space_matrix(width: nat, height: nat) -> Seq<char> {
    joined(blank_lines(height, width))
}

/// What goes to the terminal for a payload: the frames of its chunks, and
/// the blank lines that the image is painted over.
pub open spec fn kitty_text(payload: Seq<char>, columns: nat, rows: nat) -> Seq<char> {
    concat(frames(chunks_of(payload, CHUNK_SIZE as nat), columns, rows)) + space_matrix(
        columns,
        rows,
    )
}

/// A file of `len` bytes has a base64 text that fits in memory.
pub open spec fn is_encodable(len: nat) -> bool {
    4 * ((len + 2) / 3) <= isize::MAX
}

/// What goes to the terminal for an image file shown over `columns`
/// columns, given the outcome of asking the terminal for its window size;
/// or the reason why there is nothing.
pub open spec fn kitty_image(file: Seq<u8>, columns: u16, probe: Probe) -> Result<
    Seq<char>,
    KittyError,
> {
    match cell_size(probe) {
        Err(e) => Err(KittyError::Probe(e)),
        Ok(size) => match (decoded_image(file), staged_image(file, columns, size)) {
            (_, Err(e)) => Err(KittyError::Stage(e)),
            (None, _) => Err(KittyError::Stage(StageError::Undecodable)),
            (Some((width, height, _)), Ok(png)) => if is_encodable(png.len()) {
                Ok(
                    kitty_text(
                        base64_standard(png),
                        columns as nat,
                        target_rows(width, height, columns, size),
                    ),
                )
            } else {
                Err(KittyError::PayloadTooLong)
            },
        },
    }
}

/// A payload of `L` characters goes out in as many frames as chunks of
/// 4096 fit into `L`, rounded up. Every frame but the last says that more
/// follow, the last says that none does, and only the first carries the
/// placement keys.
pub proof fn every_frame_but_the_last_says_more(payload: Seq<char>, columns: nat, rows: nat)
    ensures
        frames(chunks_of(payload, CHUNK_SIZE as nat), columns, rows).len() == (payload.len()
            + 4095) / 4096,
        forall|i: int|
            0 <= i < (payload.len() + 4095) / 4096 ==> #[trigger] frames(
                chunks_of(payload, CHUNK_SIZE as nat),
                columns,
                rows,
            )[i] == frame(
                if i == 0 {
                    placement_keys(columns, rows)
                } else {
                    Seq::empty()
                },
                i + 1 < (payload.len() + 4095) / 4096,
                chunks_of(payload, CHUNK_SIZE as nat)[i],
            ),
{
    assert(chunk_count(payload.len(), CHUNK_SIZE as nat) == (payload.len() + 4095) / 4096);
}

/// Calls `base64::Engine::encode` of the standard engine. The text
/// depends on the bytes alone and holds only characters of the base64
/// alphabet and the padding character, which are ASCII. The length of the
/// text, four characters for every three bytes begun, must fit in memory.
#[verifier::external_body]
fn encode_base64(bytes: &Vec<u8>) -> (text: String)
    requires
        is_encodable(bytes@.len()),
    ensures
        text@ == base64_standard(bytes@),
        is_ascii_chars(text@),
{
    general_purpose::STANDARD.encode(bytes)
}

/// In a text of one-byte characters every place lies between two
/// characters.
pub proof fn lemma_ascii_cuts(data: Seq<char>, size: nat)
    requires
        is_ascii_chars(data),
    ensures
        cuts_between_chars(encode_utf8(data), size),
{
    let bytes = encode_utf8(data);
    encode_utf8_valid_utf8(data);
    is_ascii_chars_encode_utf8(data);
    assert forall|j: int| 0 < j && #[trigger] chunk_start(j, size) < bytes.len() implies is_char_boundary(
        bytes,
        chunk_start(j, size),
    ) by {
        let at = chunk_start(j, size);
        assert(at >= 0) by (nonlinear_arith)
            requires
                at == j * size,
                j > 0,
        ;
        assert(data[at] as u8 == bytes[at]);
        is_char_boundary_iff_not_is_continuation_byte(bytes, at);
    }
}

/// A text whose bytes are a part of the bytes of a text of one-byte
/// characters is that part of the text.
pub proof fn lemma_ascii_part(data: Seq<char>, piece: Seq<char>, from: int, to: int)
    requires
        is_ascii_chars(data),
        0 <= from <= to <= data.len(),
        encode_utf8(piece) == encode_utf8(data).subrange(from, to),
    ensures
        piece == data.subrange(from, to),
{
    let part = data.subrange(from, to);
    is_ascii_chars_encode_utf8(data);
    assert(is_ascii_chars(part));
    is_ascii_chars_encode_utf8(part);
    assert(encode_utf8(part) =~= encode_utf8(data).subrange(from, to));
    encode_utf8_decode_utf8(part);
    encode_utf8_decode_utf8(piece);
}

proof fn lemma_chunk_count(len: nat, size: nat, k: nat)
    requires
        size > 0,
        k * size <= len,
    ensures
        len - k * size == 0 ==> chunk_count(len, size) == k,
        0 < len - k * size <= size ==> chunk_count(len, size) == k + 1,
        len - k * size > size ==> chunk_count(len, size) > k + 1,
{
    let q = (len + size - 1) / size as int;
    assert(q * size <= len + size - 1 && len + size - 1 < q * size + size) by (nonlinear_arith)
        requires
            q == (len + size - 1) / size as int,
            size > 0,
    ;
    if len - k * size == 0 {
        assert(q == k) by (nonlinear_arith)
            requires
                q * size <= len + size - 1,
                len + size - 1 < q * size + size,
                len == k * size,
                size > 0,
        ;
    } else if len - k * size <= size {
        assert(q == k + 1) by (nonlinear_arith)
            requires
                q * size <= len + size - 1,
                len + size - 1 < q * size + size,
                0 < len - k * size,
                len - k * size <= size,
                size > 0,
        ;
    } else {
        assert(q > k + 1) by (nonlinear_arith)
            requires
                q * size <= len + size - 1,
                len + size - 1 < q * size + size,
                len - k * size > size,
                size > 0,
        ;
    }
}

/// Cuts the text into chunks of `chunk_size` bytes; the last chunk may be
/// shorter, and the empty text has no chunk. A chunk has something to cut,
/// and every cut lies between two characters, as it does wherever the
/// text is base64 or other one-byte characters. Of such a text the chunks
/// are the parts of `chunk_size` characters.
pub fn chunk_data(data: String, chunk_size: usize) -> (chunks: Vec<String>)
    requires
        chunk_size > 0,
        cuts_between_chars(encode_utf8(data@), chunk_size as nat),
    ensures
        chunks.len() == chunk_count(encode_utf8(data@).len(), chunk_size as nat),
        forall|j: int|
            0 <= j < chunks.len() ==> encode_utf8(#[trigger] chunks[j]@) == encode_utf8(
                data@,
            ).subrange(
                chunk_start(j, chunk_size as nat),
                chunk_stop(j, chunk_size as nat, encode_utf8(data@).len()),
            ),
        is_ascii_chars(data@) ==> strings_view(chunks) == chunks_of(data@, chunk_size as nat),
{
    let ghost bytes = encode_utf8(data@);
    let ghost size = chunk_size as nat;
    let mut chunks: Vec<String> = Vec::new();
    let mut rest: &str = data.as_str();
    let ghost mut done: int = 0;
    proof {
        assert(bytes.subrange(0, bytes.len() as int) == bytes);
        assert(chunks.len() * size == 0) by (nonlinear_arith)
            requires
                chunks.len() == 0,
        ;
    }
    while rest.as_bytes().len() > chunk_size
        invariant
            chunk_size > 0,
            size == chunk_size as nat,
            bytes == encode_utf8(data@),
            cuts_between_chars(bytes, size),
            0 <= done,
            done + rest.spec_bytes().len() == bytes.len(),
            done == chunks.len() * size,
            rest.spec_bytes() == bytes.subrange(done, bytes.len() as int),
            forall|j: int|
                0 <= j < chunks.len() ==> encode_utf8(#[trigger] chunks[j]@) == bytes.subrange(
                    chunk_start(j, size),
                    chunk_stop(j, size, bytes.len()),
                ),
        decreases rest.spec_bytes().len(),
    {
        let ghost k = chunks.len() as int;
        proof {
            let here = rest.spec_bytes();
            encode_utf8_valid_utf8(rest@);
            encode_utf8_valid_utf8(data@);
            assert((k + 1) * size == k * size + size) by (nonlinear_arith);
            assert(chunk_start(k + 1, size) == done + chunk_size);
            assert(is_char_boundary(bytes, done + chunk_size));
            is_char_boundary_iff_not_is_continuation_byte(bytes, done + chunk_size);
            assert(here[chunk_size as int] == bytes[done + chunk_size]);
            is_char_boundary_iff_not_is_continuation_byte(here, chunk_size as int);
        }
        let (head, tail) = rest.split_at(chunk_size);
        let piece = head.to_owned();
        proof {
            assert(encode_utf8(piece@) == bytes.subrange(done, done + chunk_size));
            assert(tail.spec_bytes() == bytes.subrange(done + chunk_size, bytes.len() as int));
            assert(chunk_start(k, size) == done);
            assert(chunk_stop(k, size, bytes.len()) == done + chunk_size);
        }
        chunks.push(piece);
        rest = tail;
        proof {
            done = done + chunk_size;
        }
    }
    let ghost k = chunks.len() as int;
    proof {
        lemma_chunk_count(bytes.len(), size, k as nat);
        assert((k + 1) * size == k * size + size) by (nonlinear_arith);
        assert(chunk_start(k, size) == done);
    }
    if rest.as_bytes().len() > 0 {
        let piece = rest.to_owned();
        proof {
            assert(chunk_stop(k, size, bytes.len()) == bytes.len());
        }
        chunks.push(piece);
    }
    proof {
        if is_ascii_chars(data@) {
            is_ascii_chars_encode_utf8(data@);
            let n = data@.len();
            assert forall|j: int| 0 <= j < chunks.len() implies #[trigger] strings_view(chunks)[j]
                == chunks_of(data@, size)[j] by {
                let from = chunk_start(j, size);
                let to = chunk_stop(j, size, n);
                assert(0 <= from <= to <= n) by (nonlinear_arith)
                    requires
                        from == j * size,
                        to == if (j + 1) * size < n {
                            (j + 1) * size
                        } else {
                            n as int
                        },
                        0 <= j,
                        j < chunk_count(n, size),
                        chunk_count(n, size) == (n + size - 1) / size as int,
                        size > 0,
                ;
                lemma_ascii_part(data@, chunks[j]@, from, to);
            }
            assert(strings_view(chunks) =~= chunks_of(data@, size));
        }
    }
    chunks
}

fn push_str(out: &mut Vec<char>, s: &str)
    ensures
        final(out)@ == old(out)@ + s@,
{
    let chars = to_chars(s);
    push_all(out, &chars);
}

/// `height` lines of `width` spaces, with a line feed between each two:
/// the room that the image is painted over.
pub fn build_space_matrix(width: u16, height: u64) -> (out: String)
    ensures
        out@ == space_matrix(width as nat, height as nat),
{
    let mut text: Vec<char> = Vec::new();
    let mut i: u64 = 0;
    while i < height
        invariant
            i <= height,
            text@ == joined(blank_lines(i as nat, width as nat)),
        decreases height - i,
    {
        proof {
            assert(blank_lines((i + 1) as nat, width as nat).drop_last() == blank_lines(
                i as nat,
                width as nat,
            ));
        }
        if i > 0 {
            text.push('\n');
        }
        push_repeated(&mut text, ' ', width as u128);
        i = i + 1;
    }
    to_text(&text)
}

fn make_frame(first: bool, more: bool, chunk: &str, columns: u16, rows: u64) -> (out: Vec<char>)
    ensures
        out@ == frame(
            if first {
                placement_keys(columns as nat, rows as nat)
            } else {
                Seq::empty()
            },
            more,
            chunk@,
        ),
{
    let mut out: Vec<char> = Vec::new();
    out.push(ESC);
    out.push('_');
    out.push('G');
    let ghost opened = out@;
    if first {
        push_str(&mut out, "f=100,a=T,z=1,c=");
        push_number(&mut out, columns as u128);
        push_str(&mut out, ",r=");
        push_number(&mut out, rows as u128);
        push_str(&mut out, ",C=1,");
        assert(out@ == opened + placement_keys(columns as nat, rows as nat));
    } else {
        assert(out@ == opened + Seq::<char>::empty());
    }
    push_str(&mut out, "m=");
    out.push(if more {
        '1'
    } else {
        '0'
    });
    out.push(';');
    push_str(&mut out, chunk);
    out.push(ESC);
    out.push('\\');
    out
}

/// Frames the chunks for the terminal. Only the first frame carries the
/// placement keys, and the key `m` is 1 in every frame but the last, where
/// it is 0.
pub fn frame_chunks(chunks: &Vec<String>, columns: u16, rows: u64) -> (out: Vec<String>)
    ensures
        strings_view(out) == frames(strings_view(*chunks), columns as nat, rows as nat),
{
    let mut out: Vec<String> = Vec::new();
    let mut i: usize = 0;
    while i < chunks.len()
        invariant
            i <= chunks.len(),
            strings_view(out) == frames(strings_view(*chunks), columns as nat, rows as nat).take(
                i as int,
            ),
        decreases chunks.len() - i,
    {
        let line = make_frame(i == 0, chunks.len() - i > 1, chunks[i].as_str(), columns, rows);
        let text = to_text(&line);
        let ghost before = strings_view(out);
        out.push(text);
        assert(strings_view(out) == before.push(text@));
        i = i + 1;
    }
    out
}

fn join_all(texts: &Vec<String>) -> (out: Vec<char>)
    ensures
        out@ == concat(strings_view(*texts)),
{
    let mut out: Vec<char> = Vec::new();
    let mut i: usize = 0;
    while i < texts.len()
        invariant
            i <= texts.len(),
            out@ == concat(strings_view(*texts).take(i as int)),
        decreases texts.len() - i,
    {
        proof {
            let all = strings_view(*texts);
            assert(all.take(i + 1).drop_last() == all.take(i as int));
        }
        push_str(&mut out, texts[i].as_str());
        i = i + 1;
    }
    proof {
        assert(strings_view(*texts).take(texts.len() as int) == strings_view(*texts));
    }
    out
}

/// What goes to the terminal for a payload of one-byte characters: the
/// frames of its chunks of 4096 bytes, and `rows` blank lines of `columns`
/// spaces.
pub(crate) fn frame_payload(payload: String, columns: u16, rows: u64) -> (out: String)
    requires
        is_ascii_chars(payload@),
    ensures
        out@ == kitty_text(payload@, columns as nat, rows as nat),
{
    proof {
        lemma_ascii_cuts(payload@, CHUNK_SIZE as nat);
    }
    let ghost data = payload@;
    let chunks = chunk_data(payload, CHUNK_SIZE);
    let framed = frame_chunks(&chunks, columns, rows);
    let mut text = join_all(&framed);
    let matrix = build_space_matrix(columns, rows);
    push_str(&mut text, matrix.as_str());
    to_text(&text)
}

/// What goes to the terminal for a staged image: its base64 text in
/// frames, and the blank lines that it is painted over. A file too long
/// for its base64 text to fit in memory gives nothing.
pub fn encode_image(png: &Vec<u8>, columns: u16, rows: u64) -> (r: Option<String>)
    ensures
        r is Some <==> is_encodable(png@.len()),
        r matches Some(text) ==> text@ == kitty_text(
            base64_standard(png@),
            columns as nat,
            rows as nat,
        ),
{
    if png.len() > (isize::MAX as usize - 2) / 4 * 3 {
        return None;
    }
    let payload = encode_base64(png);
    Some(frame_payload(payload, columns, rows))
}

/// The image of the file as text for the terminal, shown over `columns`
/// columns: the image is staged for the size of a cell that the terminal
/// reported, its rows are counted, and the staged image is encoded in
/// frames. There is no such text where the size of a cell is not known,
/// where the image cannot be staged, and where the staged image is too long
/// to encode; the caller then shows text art in its place.
pub fn get_kitty_image(image: &Vec<u8>, columns: u16, probe: Probe) -> (r: Result<
    String,
    KittyError,
>)
    ensures
        match r {
            Ok(text) => kitty_image(image@, columns, probe) == Ok::<Seq<char>, KittyError>(text@),
            Err(e) => kitty_image(image@, columns, probe) == Err::<Seq<char>, KittyError>(e),
        },
{
    let size = match get_cell_size(probe) {
        Ok(size) => size,
        Err(e) => {
            return Err(KittyError::Probe(e));
        },
    };
    let picture = match decode(image) {
        Some(picture) => picture,
        None => {
            return Err(KittyError::Stage(StageError::Undecodable));
        },
    };
    let plan = match plan_stage(picture.width, picture.height, columns, &size) {
        Ok(plan) => plan,
        Err(e) => {
            return Err(KittyError::Stage(e));
        },
    };
    proof {
        lemma_plan_fits(picture.width, picture.height, columns, size);
    }
    let png = match stage_bitmap(&picture, &plan) {
        Some(png) => png,
        None => {
            return Err(KittyError::Stage(StageError::Unencodable));
        },
    };
    let rows = match get_target_rows(picture.width, picture.height, columns, &size) {
        Ok(rows) => rows,
        Err(e) => {
            return Err(KittyError::Stage(e));
        },
    };
    match encode_image(&png, columns, rows) {
        Some(text) => Ok(text),
        None => Err(KittyError::PayloadTooLong),
    }
}

} // verus!
