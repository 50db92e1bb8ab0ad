//! The geometry of the terminal and of the image on it: the size of a
//! character cell in pixels, the size to which the image is scaled, the
//! canvas of whole cells on which it is centred, and the rows that it
//! spans.

use vstd::prelude::*;

verus! {

/// What a terminal reports of its window: the size in characters and in
/// pixels.
#[derive(Clone, Copy, Debug, PartialEq, Eq, Structural)]
pub struct WindowSize {
    pub rows: u16,
    pub columns: u16,
    pub pixel_width: u16,
    pub pixel_height: u16,
}

/// The outcome of asking the terminal for its window size.
#[derive(Clone, Copy, Debug, PartialEq, Eq, Structural)]
pub enum Probe {
    /// This platform has no way to ask.
    Unsupported,
    /// The query failed.
    Failed,
    /// The terminal answered.
    Reported(WindowSize),
}

/// Why the size of a cell is not known.
#[derive(Clone, Copy, Debug, PartialEq, Eq, Structural)]
pub enum ProbeError {
    /// This platform has no way to ask.
    Unsupported,
    /// The query failed.
    QueryFailed,
    /// The terminal reported a window without characters or without
    /// pixels.
    NonCompliant,
}

/// The size of the terminal in characters, and of one cell in pixels.
#[derive(Clone, Copy, Debug, PartialEq, Eq, Structural)]
pub struct TerminalSize {
    pub width: u16,
    pub height: u16,
    pub cell_width: u16,
    pub cell_height: u16,
}

/// Why an image cannot be staged.
#[derive(Clone, Copy, Debug, PartialEq, Eq, Structural)]
pub enum StageError {
    /// The image has no pixels.
    EmptyImage,
    /// A cell has no pixels.
    EmptyCell,
    /// The scaled image would have no pixels.
    EmptyTarget,
    /// The scaled image or its canvas would not fit in memory.
    TooLarge,
    /// The image file could not be decoded.
    Undecodable,
    /// The canvas could not be encoded.
    Unencodable,
}

/// The sizes that staging works with, in pixels: the image is scaled to
/// `target_width` by `target_height` and put `offset_y` pixels below the
/// upper edge of a transparent canvas of `target_width` by `canvas_height`.
#[derive(Clone, Copy, Debug, PartialEq, Eq, Structural)]
pub struct StagePlan {
    pub target_width: u32,
    pub target_height: u32,
    pub canvas_height: u32,
    pub offset_y: u32,
}

/// The window that a terminal reports makes cells of at least one pixel
/// each way.
pub open spec fn is_compliant(w: WindowSize) -> bool {
    w.columns > 0 && w.rows > 0 && w.pixel_width / w.columns > 0 && w.pixel_height / w.rows > 0
}

/// The size of a cell, from the outcome of the query: the pixels of the
/// window divided by its characters, each way.
pub open spec fn cell_size(probe: Probe) -> Result<TerminalSize, ProbeError> {
    match probe {
        Probe::Unsupported => Err(ProbeError::Unsupported),
        Probe::Failed => Err(ProbeError::QueryFailed),
        Probe::Reported(w) => if is_compliant(w) {
            Ok(
                TerminalSize {
                    width: w.columns,
                    height: w.rows,
                    cell_width: w.pixel_width / w.columns,
                    cell_height: w.pixel_height / w.rows,
                },
            )
        } else {
            Err(ProbeError::NonCompliant)
        },
    }
}

/// The width in pixels of `columns` cells.
pub open spec fn target_width(columns: u16, size: TerminalSize) -> nat {
    (columns * size.cell_width) as nat
}

/// The height in pixels of an image of `width` by `height` pixels that is
/// scaled to the width of `columns` cells: the aspect is kept against the
/// width, and a fraction of a pixel is dropped.
pub open spec fn target_height(width: u32, height: u32, columns: u16, size: TerminalSize) -> nat {
    (target_width(columns, size) * height / width as int) as nat
}

/// The number of cells that `pixels` pixels reach into, at `cell` pixels to
/// the cell.
pub open spec fn cells_for(pixels: nat, cell: nat) -> nat {
    ((pixels + cell - 1) / cell as int) as nat
}

/// The rows that the image spans: the cells that its scaled height reaches
/// into, and one more to be safe.
pub open spec fn target_rows(width: u32, height: u32, columns: u16, size: TerminalSize) -> nat {
    cells_for(target_height(width, height, columns, size), size.cell_height as nat) + 1
}

/// The height of the canvas: the scaled height, rounded up to whole cells.
pub open spec fn canvas_height(width: u32, height: u32, columns: u16, size: TerminalSize) -> nat {
    cells_for(target_height(width, height, columns, size), size.cell_height as nat)
        * (size.cell_height as nat)
}

/// The most pixels that a picture may have here: a buffer of sixteen bytes
/// to the pixel must fit in memory.
pub open spec fn pixel_limit() -> nat {
    (isize::MAX / 16) as nat
}

/// The plan for staging an image of `width` by `height` pixels over
/// `columns` cells, or the reason why there is none.
pub open spec fn stage_plan(width: u32, height: u32, columns: u16, size: TerminalSize) -> Result<
    StagePlan,
    StageError,
> {
    let tw = target_width(columns, size);
    let th = target_height(width, height, columns, size);
    let ch = canvas_height(width, height, columns, size);
    if width == 0 || height == 0 {
        Err(StageError::EmptyImage)
    } else if size.cell_width == 0 || size.cell_height == 0 {
        Err(StageError::EmptyCell)
    } else if tw == 0 || th == 0 {
        Err(StageError::EmptyTarget)
    } else if ch > u32::MAX || width * th > pixel_limit() || tw * ch > pixel_limit() {
        Err(StageError::TooLarge)
    } else {
        Ok(
            StagePlan {
                target_width: tw as u32,
                target_height: th as u32,
                canvas_height: ch as u32,
                offset_y: ((ch - th) / 2) as u32,
            },
        )
    }
}

/// The rows that the image spans, or the reason why they cannot be told.
pub open spec fn rows_of(width: u32, height: u32, columns: u16, size: TerminalSize) -> Result<
    u64,
    StageError,
> {
    if width == 0 {
        Err(StageError::EmptyImage)
    } else if size.cell_height == 0 {
        Err(StageError::EmptyCell)
    } else {
        Ok(target_rows(width, height, columns, size) as u64)
    }
}

impl ProbeError {
    /// The reason in words.
    pub fn message(&self) -> (text: String)
        ensures
            text@ == match *self {
                ProbeError::Unsupported => "Windows does not support the proper protocols"@,
                ProbeError::QueryFailed => "Failed to get terminal size"@,
                ProbeError::NonCompliant => "Failed to retrieve terminal info, ensure you're using a compliant terminal."@,
            },
    {
        match self {
            ProbeError::Unsupported => "Windows does not support the proper protocols".to_owned(),
            ProbeError::QueryFailed => "Failed to get terminal size".to_owned(),
            ProbeError::NonCompliant => "Failed to retrieve terminal info, ensure you're using a compliant terminal.".to_owned(),
        }
    }
}

impl StageError {
    /// The reason in words.
    pub fn message(&self) -> (text: String)
        ensures
            text@ == match *self {
                StageError::EmptyImage => "The image has no pixels"@,
                StageError::EmptyCell => "A terminal cell has no pixels"@,
                StageError::EmptyTarget => "The scaled image would have no pixels"@,
                StageError::TooLarge => "The scaled image is too large"@,
                StageError::Undecodable => "Failed to load image"@,
                StageError::Unencodable => "Failed to write canvas"@,
            },
    {
        match self {
            StageError::EmptyImage => "The image has no pixels".to_owned(),
            StageError::EmptyCell => "A terminal cell has no pixels".to_owned(),
            StageError::EmptyTarget => "The scaled image would have no pixels".to_owned(),
            StageError::TooLarge => "The scaled image is too large".to_owned(),
            StageError::Undecodable => "Failed to load image".to_owned(),
            StageError::Unencodable => "Failed to write canvas".to_owned(),
        }
    }
}

/// The size of a character cell in pixels, from the outcome of asking the
/// terminal for its window size. There is none where the platform cannot
/// ask, where the query failed, and where the terminal reported a window
/// without characters or with less than one pixel to the cell.
pub fn get_cell_size(probe: Probe) -> (r: Result<TerminalSize, ProbeError>)
    ensures
        r == cell_size(probe),
{
    match probe {
        Probe::Unsupported => Err(ProbeError::Unsupported),
        Probe::Failed => Err(ProbeError::QueryFailed),
        Probe::Reported(w) => {
            if w.columns == 0 || w.rows == 0 {
                return Err(ProbeError::NonCompliant);
            }
            let cell_width = w.pixel_width / w.columns;
            let cell_height = w.pixel_height / w.rows;
            if cell_width == 0 || cell_height == 0 {
                return Err(ProbeError::NonCompliant);
            }
            Ok(TerminalSize { width: w.columns, height: w.rows, cell_width, cell_height })
        },
    }
}

proof fn lemma_target_bounds(width: u32, height: u32, columns: u16, size: TerminalSize)
    requires
        width > 0,
    ensures
        target_width(columns, size) <= 0xffff * 0xffff,
        target_width(columns, size) * height <= 0xffff * 0xffff * 0xffff_ffff,
        target_height(width, height, columns, size) <= target_width(columns, size) * height,
{
    let tw = target_width(columns, size);
    assert(columns * size.cell_width <= 0xffff * 0xffff) by (nonlinear_arith)
        requires
            columns <= 0xffff,
            size.cell_width <= 0xffff,
    ;
    assert(tw * height <= 0xffff * 0xffff * 0xffff_ffff) by (nonlinear_arith)
        requires
            tw <= 0xffff * 0xffff,
            height <= 0xffff_ffff,
    ;
    assert((tw * height) / (width as int) <= tw * height) by (nonlinear_arith)
        requires
            width > 0,
            tw * height >= 0,
    ;
}

/// The scaled height in pixels.
fn scaled_height(width: u32, height: u32, columns: u16, size: &TerminalSize) -> (th: u64)
    requires
        width > 0,
    ensures
        th == target_height(width, height, columns, *size),
        th <= 0xffff * 0xffff * 0xffff_ffff,
{
    proof {
        lemma_target_bounds(width, height, columns, *size);
    }
    let tw: u64 = columns as u64 * size.cell_width as u64;
    tw * height as u64 / width as u64
}

/// The cells that `pixels` pixels reach into.
fn count_cells(pixels: u64, cell: u16) -> (n: u64)
    requires
        cell > 0,
        pixels <= 0xffff * 0xffff * 0xffff_ffff,
    ensures
        n == cells_for(pixels as nat, cell as nat),
        n <= pixels,
        n * cell >= pixels,
        n * cell < pixels + cell,
{
    let n = (pixels + (cell as u64 - 1)) / cell as u64;
    proof {
        let p = pixels as int;
        let c = cell as int;
        let q = (p + c - 1) / c;
        assert(q * c <= p + c - 1 && p + c - 1 < q * c + c && q <= p && q >= 0)
            by (nonlinear_arith)
            requires
                q == (p + c - 1) / c,
                c > 0,
                p >= 0,
        ;
    }
    n
}

/// The rows that an image of `width` by `height` pixels spans when it is
/// scaled to the width of `columns` cells: the cells that its scaled
/// height reaches into, and one more. An image without width and a cell
/// without height have no such rows.
pub fn get_target_rows(width: u32, height: u32, columns: u16, size: &TerminalSize) -> (r: Result<
    u64,
    StageError,
>)
    ensures
        r == rows_of(width, height, columns, *size),
        r matches Ok(rows) ==> rows == target_rows(width, height, columns, *size),
{
    if width == 0 {
        return Err(StageError::EmptyImage);
    }
    if size.cell_height == 0 {
        return Err(StageError::EmptyCell);
    }
    let th = scaled_height(width, height, columns, size);
    let cells = count_cells(th, size.cell_height);
    Ok(cells + 1)
}

/// The sizes for staging an image of `width` by `height` pixels over
/// `columns` cells: the width of those cells; the height that keeps the
/// aspect of the image against that width; the canvas, as wide as the
/// scaled image and as high as the whole cells that it reaches into; and
/// half of what the canvas is higher than the image, rounded down, as the
/// place of the image on it.
pub fn plan_stage(width: u32, height: u32, columns: u16, size: &TerminalSize) -> (r: Result<
    StagePlan,
    StageError,
>)
    ensures
        r == stage_plan(width, height, columns, *size),
{
    if width == 0 || height == 0 {
        return Err(StageError::EmptyImage);
    }
    if size.cell_width == 0 || size.cell_height == 0 {
        return Err(StageError::EmptyCell);
    }
    proof {
        lemma_target_bounds(width, height, columns, *size);
    }
    let tw: u64 = columns as u64 * size.cell_width as u64;
    let th = scaled_height(width, height, columns, size);
    if tw == 0 || th == 0 {
        return Err(StageError::EmptyTarget);
    }
    let cells = count_cells(th, size.cell_height);
    let ch: u128 = cells as u128 * size.cell_height as u128;
    let limit: u128 = (isize::MAX / 16) as u128;
    proof {
        assert(width * th <= 0xffff_ffff * 0xffff_ffff_ffff_ffff) by (nonlinear_arith)
            requires
                width <= 0xffff_ffff,
                th <= 0xffff_ffff_ffff_ffff,
        ;
        assert(ch <= 0xffff_ffff_ffff_ffff * 0xffff) by (nonlinear_arith)
            requires
                ch == cells * size.cell_height,
                cells <= 0xffff_ffff_ffff_ffff,
                size.cell_height <= 0xffff,
        ;
        assert(tw * ch <= 0xffff_ffff * (0xffff_ffff_ffff_ffff * 0xffff)) by (nonlinear_arith)
            requires
                tw <= 0xffff_ffff,
                ch <= 0xffff_ffff_ffff_ffff * 0xffff,
        ;
    }
    if ch > u32::MAX as u128 || width as u128 * th as u128 > limit || tw as u128 * ch > limit {
        return Err(StageError::TooLarge);
    }
    assert(th <= ch);
    Ok(
        StagePlan {
            target_width: tw as u32,
            target_height: th as u32,
            canvas_height: ch as u32,
            offset_y: ((ch - th as u128) / 2) as u32,
        },
    )
}

} // verus!
