use crate::color::{rgba_tuple, ComparableColor};
use crate::raster::{Mask, Pixmap};
use resvg::tiny_skia;
use vstd::prelude::*;

verus! {

// ---------------------------------------------------------------------------------------------
// Drawing with tiny-skia
// ---------------------------------------------------------------------------------------------

/// The sizes tiny-skia accepts for an image it draws on: both sides nonzero, a row of four-byte
/// pixels and the height within `i32`.
pub open spec fn drawable(width: u32, height: u32) -> bool {
    &&& width > 0
    &&& height > 0
    &&& 4 * width <= i32::MAX
    &&& height <= i32::MAX
}

/// Whether tiny-skia can draw on an image of this size (see [`drawable`]).
pub fn is_drawable(width: u32, height: u32) -> (r: bool)
    ensures
        r == drawable(width, height),
{
    width > 0 && height > 0 && (width as u64) * 4 <= 0x7fff_ffff && (height as u64) <= 0x7fff_ffff
}

/// The premultiplied pixels that tiny-skia produces when it fills an image of the given size
/// with one color, through a mask that gives each pixel's coverage.
pub uninterp spec fn painted(mask: Seq<u8>, width: u32, height: u32, color: (u8, u8, u8, u8)) -> Seq<u8>;

/// The premultiplied pixels of an image after tiny-skia draws a second image over it at the
/// origin, with the default paint (source-over, full opacity, no transform).
pub uninterp spec fn drawn_over(
    background: Seq<u8>,
    width: u32,
    height: u32,
    foreground: Seq<u8>,
    fg_width: u32,
    fg_height: u32,
) -> Seq<u8>;

/// The premultiplied pixels of an image after tiny-skia fills its whole area with one color
/// in the destination-over blend mode, that is, behind what is already there.
pub uninterp spec fn filled_under(pixels: Seq<u8>, width: u32, height: u32, color: (u8, u8, u8, u8)) -> Seq<u8>;

/// Calls tiny-skia's `Pixmap::fill_rect` on a new, transparent image covering the whole area,
/// with a solid paint of `color` and `mask` as the coverage. The contract names the resulting
/// pixels (`painted`) as a function of the mask, the size and the color, and states their
/// number, which tiny-skia's `Pixmap` fixes at four bytes per pixel.
#[verifier::external_body]
fn fill_through_mask(mask: &[u8], width: u32, height: u32, color: ComparableColor) -> (out: Vec<u8>)
    requires
        drawable(width, height),
        mask@.len() == width * height,
    ensures
        out@ == painted(mask@, width, height, rgba_tuple(color)),
        out@.len() == 4 * (width * height),
{
    let size = tiny_skia::IntSize::from_wh(width, height).unwrap();
    let coverage = tiny_skia::Mask::from_vec(mask.to_vec(), size).unwrap();
    let mut output = tiny_skia::Pixmap::new(width, height).unwrap();
    let mut paint = tiny_skia::Paint::default();
    paint.set_color_rgba8(color.red, color.green, color.blue, color.alpha);
    let area = tiny_skia::IntRect::from_xywh(0, 0, width, height).unwrap().to_rect();
    output.fill_rect(area, &paint, tiny_skia::Transform::default(), Some(&coverage));
    output.take()
}

/// Calls tiny-skia's `Pixmap::draw_pixmap` to draw `foreground` over `background` at the
/// origin with the default `PixmapPaint`. The contract names the new pixels (`drawn_over`) as
/// a function of both images and their sizes; their number does not change.
#[verifier::external_body]
fn draw_pixels_over(background: &mut Vec<u8>, width: u32, height: u32, foreground: &[u8], fg_width: u32, fg_height: u32)
    requires
        drawable(width, height),
        drawable(fg_width, fg_height),
        old(background)@.len() == 4 * (width * height),
        foreground@.len() == 4 * (fg_width * fg_height),
    ensures
        final(background)@ == drawn_over(old(background)@, width, height, foreground@, fg_width, fg_height),
        final(background)@.len() == 4 * (width * height),
{
    let bg_size = tiny_skia::IntSize::from_wh(width, height).unwrap();
    let fg_size = tiny_skia::IntSize::from_wh(fg_width, fg_height).unwrap();
    let mut canvas = tiny_skia::Pixmap::from_vec(core::mem::take(background), bg_size).unwrap();
    let layer = tiny_skia::Pixmap::from_vec(foreground.to_vec(), fg_size).unwrap();
    let paint = tiny_skia::PixmapPaint::default();
    canvas.draw_pixmap(0, 0, layer.as_ref(), &paint, tiny_skia::Transform::default(), None);
    *background = canvas.take();
}

/// Calls tiny-skia's `Pixmap::fill_rect` over the whole image with a solid paint of `color`
/// in `BlendMode::DestinationOver`. The contract names the new pixels (`filled_under`) as a
/// function of the old ones, the size and the color; their number does not change.
#[verifier::external_body]
fn fill_behind(pixels: &mut Vec<u8>, width: u32, height: u32, color: ComparableColor)
    requires
        drawable(width, height),
        old(pixels)@.len() == 4 * (width * height),
    ensures
        final(pixels)@ == filled_under(old(pixels)@, width, height, rgba_tuple(color)),
        final(pixels)@.len() == 4 * (width * height),
{
    let size = tiny_skia::IntSize::from_wh(width, height).unwrap();
    let mut canvas = tiny_skia::Pixmap::from_vec(core::mem::take(pixels), size).unwrap();
    let mut paint = tiny_skia::Paint::default();
    paint.set_color_rgba8(color.red, color.green, color.blue, color.alpha);
    paint.blend_mode = tiny_skia::BlendMode::DestinationOver;
    let area = tiny_skia::IntRect::from_xywh(0, 0, width, height).unwrap().to_rect();
    canvas.fill_rect(area, &paint, tiny_skia::Transform::default(), None);
    *pixels = canvas.take();
}

/// Applies `color` to the alpha channel `input`: each pixel gets the color, with the mask
/// giving its coverage.
pub fn paint(input: &Mask, color: ComparableColor) -> (out: Pixmap)
    requires
        input.wf(),
        drawable(input.width, input.height),
    ensures
        out.wf(),
        out.width == input.width,
        out.height == input.height,
        out.data@ == painted(input.data@, input.width, input.height, rgba_tuple(color)),
{
    let data = fill_through_mask(input.data.as_slice(), input.width, input.height, color);
    Pixmap { width: input.width, height: input.height, data }
}

/// Draws `foreground` over `background` at the origin.
pub fn stack_layer_on_layer(background: &mut Pixmap, foreground: &Pixmap)
    requires
        old(background).wf(),
        foreground.wf(),
        drawable(old(background).width, old(background).height),
        drawable(foreground.width, foreground.height),
    ensures
        final(background).width == old(background).width,
        final(background).height == old(background).height,
        final(background).wf(),
        final(background).data@ == drawn_over(
            old(background).data@,
            old(background).width,
            old(background).height,
            foreground.data@,
            foreground.width,
            foreground.height,
        ),
{
    draw_pixels_over(
        &mut background.data,
        background.width,
        background.height,
        foreground.data.as_slice(),
        foreground.width,
        foreground.height,
    );
}

/// Fills the whole image with `background` behind what it already shows.
pub fn stack_layer_on_background(background: ComparableColor, foreground: &mut Pixmap)
    requires
        old(foreground).wf(),
        drawable(old(foreground).width, old(foreground).height),
    ensures
        final(foreground).width == old(foreground).width,
        final(foreground).height == old(foreground).height,
        final(foreground).wf(),
        final(foreground).data@ == filled_under(
            old(foreground).data@,
            old(foreground).width,
            old(foreground).height,
            rgba_tuple(background),
        ),
{
    fill_behind(&mut foreground.data, foreground.width, foreground.height, background);
}

// ---------------------------------------------------------------------------------------------
// Stacking alpha channels pixel by pixel
// ---------------------------------------------------------------------------------------------

/// The opacity of a pixel of opacity `foreground` laid over one of opacity `background`: the
/// background plus the part of the foreground that covers what the background leaves,
/// rounded half up.
pub open spec fn alpha_over(background: u8, foreground: u8) -> u8 {
    (background + (2 * ((255 - background) * foreground) + 255) / 510) as u8
}

/// Laying a pixel over another: a transparent pixel changes nothing, an opaque one or an opaque
/// background gives an opaque pixel, and the result does not depend on which pixel is on top.
pub proof fn lemma_alpha_over_laws(background: u8, foreground: u8)
    ensures
        alpha_over(background, 0) == background,
        alpha_over(0, foreground) == foreground,
        alpha_over(background, 255) == 255,
        alpha_over(255, foreground) == 255,
        alpha_over(background, foreground) == alpha_over(foreground, background),
        alpha_over(background, foreground) >= background,
{
    let b = background as int;
    let f = foreground as int;
    let p = b * f;
    assert(2 * ((255 - b) * f) + 255 == 510 * f + (255 - 2 * p)) by (nonlinear_arith)
        requires
            p == b * f,
    ;
    assert(2 * ((255 - f) * b) + 255 == 510 * b + (255 - 2 * p)) by (nonlinear_arith)
        requires
            p == b * f,
    ;
    vstd::arithmetic::div_mod::lemma_fundamental_div_mod(255 - 2 * p, 510);
    let q = (255 - 2 * p) / 510;
    let r = (255 - 2 * p) % 510;
    vstd::arithmetic::div_mod::lemma_fundamental_div_mod_converse(510 * f + (255 - 2 * p), 510, f + q, r);
    vstd::arithmetic::div_mod::lemma_fundamental_div_mod_converse(510 * b + (255 - 2 * p), 510, b + q, r);
    assert(0 <= p <= 255 * 255) by (nonlinear_arith)
        requires
            p == b * f,
            0 <= b <= 255,
            0 <= f <= 255,
    ;
    assert((255 - b) * f <= 255 * 255 && 0 <= (255 - b) * f) by (nonlinear_arith)
        requires
            0 <= b <= 255,
            0 <= f <= 255,
    ;
    assert((2 * ((255 - b) * f) + 255) / 510 <= 255 - b) by (nonlinear_arith)
        requires
            0 <= b <= 255,
            0 <= f <= 255,
    ;
    assert((2 * ((255 - f) * b) + 255) / 510 <= 255 - f) by (nonlinear_arith)
        requires
            0 <= b <= 255,
            0 <= f <= 255,
    ;
    assert(0 <= (2 * ((255 - b) * f) + 255) / 510) by (nonlinear_arith)
        requires
            0 <= b <= 255,
            0 <= f <= 255,
    ;
    assert(0 <= (2 * ((255 - f) * b) + 255) / 510) by (nonlinear_arith)
        requires
            0 <= b <= 255,
            0 <= f <= 255,
    ;
    if f == 255 {
        assert((2 * ((255 - b) * 255) + 255) / 510 == 255 - b) by (nonlinear_arith)
            requires
                0 <= b <= 255,
        ;
    }
    if b == 255 {
        assert((2 * ((255 - f) * 255) + 255) / 510 == 255 - f) by (nonlinear_arith)
            requires
                0 <= f <= 255,
        ;
    }
    if f == 0 {
        assert((2 * ((255 - b) * 0) + 255) / 510 == 0);
    }
    if b == 0 {
        assert((2 * ((255 - 0) * f) + 255) / 510 == f) by (nonlinear_arith)
            requires
                0 <= f <= 255,
        ;
    }
}

fn alpha_over_exec(background: u8, foreground: u8) -> (r: u8)
    ensures
        r == alpha_over(background, foreground),
{
    let uncovered: u32 = 255 - background as u32;
    assert(uncovered * foreground <= 255 * 255) by (nonlinear_arith)
        requires
            uncovered <= 255,
            foreground <= 255,
    ;
    let covered: u32 = uncovered * (foreground as u32);
    let added: u32 = (2 * covered + 255) / 510;
    assert(added <= uncovered) by (nonlinear_arith)
        requires
            added == (2 * covered + 255) / 510,
            covered == uncovered * foreground,
            uncovered <= 255,
            foreground <= 255,
    ;
    (background as u32 + added) as u8
}

/// Lays each pixel of `foreground` over the pixel at the same place in `background`; pixels
/// of `background` beyond the length of `foreground` keep their opacity.
pub fn stack_alpha_on_alpha(background: &mut Mask, foreground: &Mask)
    requires
        foreground.data@.len() <= old(background).data@.len(),
    ensures
        final(background).width == old(background).width,
        final(background).height == old(background).height,
        final(background).data@.len() == old(background).data@.len(),
        forall|i: int|
            0 <= i < foreground.data@.len() ==> #[trigger] final(background).data@[i] == alpha_over(
                old(background).data@[i],
                foreground.data@[i],
            ),
        forall|i: int|
            foreground.data@.len() <= i < old(background).data@.len() ==> #[trigger] final(background).data@[i]
                == old(background).data@[i],
{
    let n = foreground.data.len();
    let mut i: usize = 0;
    while i < n
        invariant
            n == foreground.data@.len(),
            n <= background.data@.len(),
            background.data@.len() == old(background).data@.len(),
            background.width == old(background).width,
            background.height == old(background).height,
            i <= n,
            forall|j: int|
                0 <= j < i ==> #[trigger] background.data@[j] == alpha_over(
                    old(background).data@[j],
                    foreground.data@[j],
                ),
            forall|j: int| i <= j < background.data@.len() ==> #[trigger] background.data@[j] == old(background).data@[j],
        decreases n - i,
    {
        let stacked = alpha_over_exec(background.data[i], foreground.data[i]);
        background.data.set(i, stacked);
        i = i + 1;
    }
}

// ---------------------------------------------------------------------------------------------
// Animation strips
// ---------------------------------------------------------------------------------------------

/// What each frame of an animation is drawn on: the background drawn over a transparent
/// frame when the output is cleared first, or the background itself, which is what drawing
/// an opaque background over anything gives.
pub open spec fn frame_base(background: Pixmap, clear_output: bool) -> Seq<u8> {
    if clear_output {
        drawn_over(
            Seq::new(4 * (background.width * background.height) as nat, |i: int| 0u8),
            background.width,
            background.height,
            background.data@,
            background.width,
            background.height,
        )
    } else {
        background.data@
    }
}

/// The pixels of an animation strip: each frame drawn over the frame base, the frames one
/// under the other in order.
pub open spec fn animation_pixels(background: Pixmap, frames: Seq<Pixmap>, clear_output: bool) -> Seq<u8>
    decreases frames.len(),
{
    if frames.len() == 0 {
        seq![]
    } else {
        animation_pixels(background, frames.drop_last(), clear_output) + drawn_over(
            frame_base(background, clear_output),
            background.width,
            background.height,
            frames.last().data@,
            frames.last().width,
            frames.last().height,
        )
    }
}

/// Draws each frame over the background and puts the results one under the other, the first
/// frame at the top.
pub fn animate(background: &Pixmap, frames: &[Pixmap], clear_output: bool) -> (out: Pixmap)
    requires
        background.wf(),
        frames@.len() > 0,
        drawable(background.width, background.height),
        drawable(background.width, (background.height * frames@.len()) as u32),
        background.height * frames@.len() <= u32::MAX,
        4 * (background.width * (background.height * frames@.len())) <= usize::MAX,
        forall|i: int| 0 <= i < frames@.len() ==> (#[trigger] frames@[i]).wf() && drawable(frames@[i].width, frames@[i].height),
    ensures
        out.wf(),
        out.width == background.width,
        out.height == background.height * frames@.len(),
        out.data@ == animation_pixels(*background, frames@, clear_output),
{
    let width = background.width;
    let height = background.height;
    let n = frames.len();
    proof {
        assert(4 * (width * height) <= 4 * (width * (height * n))) by (nonlinear_arith)
            requires
                n >= 1,
                width >= 0,
                height >= 0,
        ;
    }
    let frame_len: usize = 4 * ((width as usize) * (height as usize));
    let mut out: Vec<u8> = Vec::new();
    let mut i: usize = 0;
    while i < n
        invariant
            n == frames@.len(),
            n > 0,
            i <= n,
            width == background.width,
            height == background.height,
            frame_len == 4 * (width * height),
            background.wf(),
            drawable(width, height),
            4 * (width * (height * n)) <= usize::MAX,
            forall|k: int| 0 <= k < frames@.len() ==> (#[trigger] frames@[k]).wf() && drawable(frames@[k].width, frames@[k].height),
            out@.len() == frame_len * i,
            out@ == animation_pixels(*background, frames@.take(i as int), clear_output),
        decreases n - i,
    {
        let mut region: Vec<u8>;
        if clear_output {
            region = vec![0u8; frame_len];
            assert(region@ =~= Seq::new(4 * (width * height) as nat, |k: int| 0u8));
            draw_pixels_over(&mut region, width, height, background.data.as_slice(), width, height);
        } else {
            region = background.data.clone();
        }
        assert(region@ == frame_base(*background, clear_output));
        let frame = &frames[i];
        draw_pixels_over(&mut region, width, height, frame.data.as_slice(), frame.width, frame.height);
        proof {
            let taken = frames@.take(i as int + 1);
            assert(taken.drop_last() =~= frames@.take(i as int));
            assert(taken.last() == frames@[i as int]);
            assert(frame_len * i + frame_len == frame_len * (i + 1)) by (nonlinear_arith);
            assert(frame_len * (i + 1) <= frame_len * n) by (nonlinear_arith)
                requires
                    i + 1 <= n,
                    frame_len >= 0,
            ;
            assert(frame_len * n == 4 * (width * (height * n))) by (nonlinear_arith)
                requires
                    frame_len == 4 * (width * height),
            ;
        }
        out.append(&mut region);
        i = i + 1;
    }
    assert(frames@.take(n as int) =~= frames@);
    proof {
        assert(frame_len * n == 4 * (width * (height * n))) by (nonlinear_arith)
            requires
                frame_len == 4 * (width * height),
        ;
        assert(n <= height * n) by (nonlinear_arith)
            requires
                height >= 1,
                n >= 0,
        ;
    }
    let frame_count = n as u32;
    assert(frame_count == n);
    Pixmap { width, height: height * frame_count, data: out }
}

} // verus!
