//! Staging an image for the terminal: the image is decoded, scaled to the
//! width of its columns, centred on a transparent canvas of whole cells,
//! and encoded again. The pixels are worked on by the `image` crate; the
//! sizes are planned here.

use vstd::prelude::*;
use image::imageops::FilterType;
use image::{DynamicImage, ImageOutputFormat, RgbaImage};
use std::io::Cursor;
use crate::geometry::{
    pixel_limit, plan_stage, stage_plan, StageError, StagePlan, TerminalSize,
};

verus! {

/// A picture as plain values: its size in pixels, and its pixels row by
/// row, each as four bytes for red, green, blue and opacity.
#[derive(Debug)]
pub struct Bitmap {
    pub width: u32,
    pub height: u32,
    pub pixels: Vec<u8>,
}

impl Bitmap {
    /// The picture holds four bytes for each of its pixels.
    pub open spec fn wf(&self) -> bool {
        self.pixels@.len() == 4 * self.width * self.height
    }
}

/// What `image::load_from_memory` makes of an image file, brought to four
/// bytes to the pixel: the width, the height and the pixels, or nothing
/// where the file cannot be decoded.
pub uninterp spec fn decoded_image(file: Seq<u8>) -> Option<(u32, u32, Seq<u8>)>;

/// The pixels that `image::DynamicImage::resize_exact` gives, with the
/// nearest-neighbour filter, for a picture of the first size and pixels
/// scaled to the second size.
pub uninterp spec fn resized_pixels(
    width: u32,
    height: u32,
    pixels: Seq<u8>,
    new_width: u32,
    new_height: u32,
) -> Seq<u8>;

/// The pixels of the lower picture after `image::imageops::overlay` has
/// laid the upper picture over it at `x`, `y`.
pub uninterp spec fn overlaid_pixels(
    width: u32,
    height: u32,
    pixels: Seq<u8>,
    top_width: u32,
    top_height: u32,
    top_pixels: Seq<u8>,
    x: i64,
    y: i64,
) -> Seq<u8>;

/// The PNG file that `image::DynamicImage::write_to` writes for a
/// picture, or nothing where it fails.
pub uninterp spec fn png_file(width: u32, height: u32, pixels: Seq<u8>) -> Option<Seq<u8>>;

/// The pixels of a canvas on which nothing is drawn: all bytes zero, which
/// is transparent black.
pub open spec fn blank_pixels(width: u32, height: u32) -> Seq<u8> {
    Seq::new((4 * width * height) as nat, |i: int| 0u8)
}

/// The staged image, as a PNG file, for an image file, the columns that it
/// is to span and the size of a cell; or the reason why there is none.
/// The image is scaled to the planned size, laid over a blank canvas of
/// the planned size at the planned place, and encoded.
pub open spec fn staged_image(file: Seq<u8>, columns: u16, size: TerminalSize) -> Result<
    Seq<u8>,
    StageError,
> {
    match decoded_image(file) {
        None => Err(StageError::Undecodable),
        Some((width, height, pixels)) => match stage_plan(width, height, columns, size) {
            Err(e) => Err(e),
            Ok(plan) => match png_file(
                plan.target_width,
                plan.canvas_height,
                overlaid_pixels(
                    plan.target_width,
                    plan.canvas_height,
                    blank_pixels(plan.target_width, plan.canvas_height),
                    plan.target_width,
                    plan.target_height,
                    resized_pixels(width, height, pixels, plan.target_width, plan.target_height),
                    0,
                    plan.offset_y as i64,
                ),
            ) {
                None => Err(StageError::Unencodable),
                Some(png) => Ok(png),
            },
        },
    }
}

/// Calls `image::load_from_memory` on the file and brings the result to
/// four bytes to the pixel. Whether the file can be decoded, and to what,
/// depends on the file alone.
#[verifier::external_body]
pub(crate) fn decode(file: &Vec<u8>) -> (r: Option<Bitmap>)
    ensures
        r is None <==> decoded_image(file@) is None,
        r matches Some(b) ==> b.wf() && decoded_image(file@) == Some(
            (b.width, b.height, b.pixels@),
        ),
{
    let rgba = image::load_from_memory(file).ok()?.to_rgba8();
    Some(Bitmap { width: rgba.width(), height: rgba.height(), pixels: rgba.into_raw() })
}

/// Calls `image::DynamicImage::resize_exact` with the nearest-neighbour
/// filter. The result has the size asked for, and its pixels depend on the
/// source and that size alone. The source must have pixels, and the
/// buffers of the scaling must fit in memory.
#[verifier::external_body]
pub(crate) fn resize(src: &Bitmap, width: u32, height: u32) -> (out: Bitmap)
    requires
        src.wf(),
        src.width > 0,
        src.height > 0,
        src.width * height <= pixel_limit(),
        width * height <= pixel_limit(),
    ensures
        out.wf(),
        out.width == width,
        out.height == height,
        out.pixels@ == resized_pixels(src.width, src.height, src.pixels@, width, height),
{
    let pixels = src.pixels.clone();
    let img = DynamicImage::ImageRgba8(RgbaImage::from_raw(src.width, src.height, pixels).unwrap());
    let out = img.resize_exact(width, height, FilterType::Nearest).to_rgba8();
    Bitmap { width: out.width(), height: out.height(), pixels: out.into_raw() }
}

/// Calls `image::DynamicImage::new_rgba8`: a picture of the size asked
/// for with all bytes zero. The picture must fit in memory.
#[verifier::external_body]
pub(crate) fn blank_canvas(width: u32, height: u32) -> (out: Bitmap)
    requires
        width * height <= pixel_limit(),
    ensures
        out.wf(),
        out.width == width,
        out.height == height,
        out.pixels@ == blank_pixels(width, height),
{
    let out = DynamicImage::new_rgba8(width, height).to_rgba8();
    Bitmap { width: out.width(), height: out.height(), pixels: out.into_raw() }
}

/// Calls `image::imageops::overlay`: the upper picture is laid over the
/// lower one at `x`, `y`. The lower picture keeps its size, and its new
/// pixels depend on the two pictures and the place alone.
#[verifier::external_body]
pub(crate) fn overlay(bottom: &mut Bitmap, top: &Bitmap, x: i64, y: i64)
    requires
        old(bottom).wf(),
        top.wf(),
    ensures
        final(bottom).wf(),
        final(bottom).width == old(bottom).width,
        final(bottom).height == old(bottom).height,
        final(bottom).pixels@ == overlaid_pixels(
            old(bottom).width,
            old(bottom).height,
            old(bottom).pixels@,
            top.width,
            top.height,
            top.pixels@,
            x,
            y,
        ),
{
    let (w, h) = (bottom.width, bottom.height);
    let mut lower = RgbaImage::from_raw(w, h, std::mem::take(&mut bottom.pixels)).unwrap();
    let upper = RgbaImage::from_raw(top.width, top.height, top.pixels.clone()).unwrap();
    image::imageops::overlay(&mut lower, &upper, x, y);
    bottom.pixels = lower.into_raw();
}

/// Calls `image::DynamicImage::write_to` for the PNG format. Whether the
/// picture can be encoded, and to what, depends on the picture alone.
#[verifier::external_body]
pub(crate) fn encode_png(picture: &Bitmap) -> (r: Option<Vec<u8>>)
    requires
        picture.wf(),
    ensures
        r is None <==> png_file(picture.width, picture.height, picture.pixels@) is None,
        r matches Some(png) ==> png_file(picture.width, picture.height, picture.pixels@) == Some(
            png@,
        ),
{
    let pixels = picture.pixels.clone();
    let buffer = RgbaImage::from_raw(picture.width, picture.height, pixels).unwrap();
    let mut file = Cursor::new(Vec::new());
    DynamicImage::ImageRgba8(buffer).write_to(&mut file, ImageOutputFormat::Png).ok()?;
    Some(file.into_inner())
}

/// The picture staged by the plan, as a PNG file: scaled to the target
/// size and laid over a blank canvas at the planned place.
pub(crate) fn stage_bitmap(picture: &Bitmap, plan: &StagePlan) -> (r: Option<Vec<u8>>)
    requires
        picture.wf(),
        picture.width > 0,
        picture.height > 0,
        picture.width * plan.target_height <= pixel_limit(),
        plan.target_width * plan.canvas_height <= pixel_limit(),
        plan.target_height <= plan.canvas_height,
    ensures
        ({
            let png = png_file(
                plan.target_width,
                plan.canvas_height,
                overlaid_pixels(
                    plan.target_width,
                    plan.canvas_height,
                    blank_pixels(plan.target_width, plan.canvas_height),
                    plan.target_width,
                    plan.target_height,
                    resized_pixels(
                        picture.width,
                        picture.height,
                        picture.pixels@,
                        plan.target_width,
                        plan.target_height,
                    ),
                    0,
                    plan.offset_y as i64,
                ),
            );
            &&& r is None <==> png is None
            &&& r matches Some(file) ==> png == Some(file@)
        }),
{
    proof {
        assert(plan.target_width * plan.target_height <= plan.target_width * plan.canvas_height)
            by (nonlinear_arith)
            requires
                plan.target_height <= plan.canvas_height,
        ;
    }
    let scaled = resize(picture, plan.target_width, plan.target_height);
    let mut canvas = blank_canvas(plan.target_width, plan.canvas_height);
    overlay(&mut canvas, &scaled, 0, plan.offset_y as i64);
    encode_png(&canvas)
}

/// Scales the image in the file to the width of `columns` cells, keeping
/// its aspect, centres it on a transparent canvas that is as wide and as
/// many whole cells high as it needs, and returns the canvas as a PNG
/// file. Fails where the file cannot be decoded, where the image, a cell
/// or the scaled image has no pixels, where the canvas would not fit in
/// memory, and where the canvas cannot be encoded.
pub fn scale_and_center_image(image: &Vec<u8>, columns: u16, size: &TerminalSize) -> (r: Result<
    Vec<u8>,
    StageError,
>)
    ensures
        match r {
            Ok(png) => staged_image(image@, columns, *size) == Ok::<Seq<u8>, StageError>(png@),
            Err(e) => staged_image(image@, columns, *size) == Err::<Seq<u8>, StageError>(e),
        },
{
    let picture = match decode(image) {
        Some(picture) => picture,
        None => {
            return Err(StageError::Undecodable);
        },
    };
    let plan = match plan_stage(picture.width, picture.height, columns, size) {
        Ok(plan) => plan,
        Err(e) => {
            return Err(e);
        },
    };
    proof {
        lemma_plan_fits(picture.width, picture.height, columns, *size);
    }
    match stage_bitmap(&picture, &plan) {
        Some(png) => Ok(png),
        None => Err(StageError::Unencodable),
    }
}

/// A plan that exists keeps the scaled image within the canvas and the
/// buffers within memory.
pub proof fn lemma_plan_fits(width: u32, height: u32, columns: u16, size: TerminalSize)
    requires
        stage_plan(width, height, columns, size) is Ok,
    ensures
        ({
            let plan = stage_plan(width, height, columns, size)->Ok_0;
            &&& width > 0
            &&& height > 0
            &&& plan.target_width > 0
            &&& plan.target_height > 0
            &&& plan.target_height <= plan.canvas_height
            &&& plan.canvas_height % (size.cell_height as u32) == 0
            &&& plan.canvas_height - plan.target_height < size.cell_height
            &&& width * plan.target_height <= pixel_limit()
            &&& plan.target_width * plan.canvas_height <= pixel_limit()
        }),
{
    let tw = crate::geometry::target_width(columns, size);
    let th = crate::geometry::target_height(width, height, columns, size);
    let ch = crate::geometry::canvas_height(width, height, columns, size);
    let c = size.cell_height as int;
    let q = (th + c - 1) / c;
    assert(q * c <= th + c - 1 && th + c - 1 < q * c + c && (q * c) % c == 0 && q >= 0)
        by (nonlinear_arith)
        requires
            q == (th + c - 1) / c,
            c > 0,
            th >= 0,
    ;
    assert(tw <= 0xffff * 0xffff) by (nonlinear_arith)
        requires
            tw == columns * size.cell_width,
            columns <= 0xffff,
            size.cell_width <= 0xffff,
    ;
    assert(ch == q * c);
    assert(th <= ch);
}

} // verus!
