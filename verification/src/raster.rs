use crate::make_semitransparent::{alpha_multiply, alpha_product, alpha_stack, alpha_stacked};
use vstd::arithmetic::div_mod::{lemma_fundamental_div_mod_converse, lemma_div_is_ordered, lemma_div_multiples_vanish_fancy};
use vstd::arithmetic::mul::{lemma_mul_inequality, lemma_mul_is_distributive_add, lemma_mul_is_commutative};
use vstd::prelude::*;

verus! {

/// A single-channel image: one opacity byte per pixel, row by row.
pub struct Mask {
    pub width: u32,
    pub height: u32,
    pub data: Vec<u8>,
}

/// A premultiplied RGBA image: four bytes (red, green, blue, alpha) per pixel, row by row.
pub struct Pixmap {
    pub width: u32,
    pub height: u32,
    pub data: Vec<u8>,
}

impl Mask {
    /// The mask holds exactly one byte per pixel.
    pub open spec fn wf(&self) -> bool {
        self.data@.len() == self.width * self.height
    }
}

impl Pixmap {
    /// The image holds exactly four bytes per pixel.
    pub open spec fn wf(&self) -> bool {
        self.data@.len() == 4 * (self.width * self.height)
    }
}

/// Multiplies the opacity of every pixel of `input` by `alpha` (each read as a fraction of 255).
pub fn make_semitransparent(input: &mut Mask, alpha: u8)
    ensures
        final(input).width == old(input).width,
        final(input).height == old(input).height,
        final(input).data@ == old(input).data@.map_values(|p: u8| alpha_product(alpha, p)),
{
    let n = input.data.len();
    let mut i: usize = 0;
    while i < n
        invariant
            n == input.data@.len(),
            n == old(input).data@.len(),
            i <= n,
            input.width == old(input).width,
            input.height == old(input).height,
            forall|j: int| 0 <= j < i ==> #[trigger] input.data@[j] == alpha_product(alpha, old(input).data@[j]),
            forall|j: int| i <= j < n ==> #[trigger] input.data@[j] == old(input).data@[j],
        decreases n - i,
    {
        let pixel = input.data[i];
        input.data.set(i, alpha_multiply(alpha, pixel));
        i = i + 1;
    }
    assert(input.data@ =~= old(input).data@.map_values(|p: u8| alpha_product(alpha, p)));
}

/// Lays every pixel of `foreground` over a uniform background of opacity `background_alpha`.
pub fn stack_alpha_on_background(background_alpha: u8, foreground: &mut Mask)
    ensures
        final(foreground).width == old(foreground).width,
        final(foreground).height == old(foreground).height,
        final(foreground).data@ == old(foreground).data@.map_values(
            |p: u8| alpha_stacked(background_alpha, p),
        ),
{
    let n = foreground.data.len();
    let mut i: usize = 0;
    while i < n
        invariant
            n == foreground.data@.len(),
            n == old(foreground).data@.len(),
            i <= n,
            foreground.width == old(foreground).width,
            foreground.height == old(foreground).height,
            forall|j: int|
                0 <= j < i ==> #[trigger] foreground.data@[j] == alpha_stacked(
                    background_alpha,
                    old(foreground).data@[j],
                ),
            forall|j: int| i <= j < n ==> #[trigger] foreground.data@[j] == old(foreground).data@[j],
        decreases n - i,
    {
        let pixel = foreground.data[i];
        foreground.data.set(i, alpha_stack(background_alpha, pixel));
        i = i + 1;
    }
    assert(foreground.data@ =~= old(foreground).data@.map_values(
        |p: u8| alpha_stacked(background_alpha, p),
    ));
}

/// The alpha channel of an image.
pub fn pixmap_to_mask(value: &Pixmap) -> (mask: Mask)
    requires
        value.wf(),
    ensures
        mask.wf(),
        mask.width == value.width,
        mask.height == value.height,
        forall|i: int| 0 <= i < mask.data@.len() ==> #[trigger] mask.data@[i] == value.data@[4 * i + 3],
{
    let n = value.data.len() / 4;
    assert(n * 4 == value.data@.len());
    let mut data: Vec<u8> = Vec::new();
    let mut i: usize = 0;
    while i < n
        invariant
            n * 4 == value.data@.len(),
            n * 4 <= usize::MAX,
            i <= n,
            data@.len() == i,
            forall|j: int| 0 <= j < i ==> #[trigger] data@[j] == value.data@[4 * j + 3],
        decreases n - i,
    {
        data.push(value.data[4 * i + 3]);
        i = i + 1;
    }
    Mask { width: value.width, height: value.height, data }
}

/// Which source pixel the pixel at flat index `k` of an upscaled image copies: the image is
/// `new_width` wide and each source pixel becomes a `scale` by `scale` square.
pub open spec fn upscale_source_index(width: int, new_width: int, scale: int, k: int) -> int {
    ((k / new_width) / scale) * width + (k % new_width) / scale
}

/// The factor by which an image `width` pixels wide is scaled to become `new_width` wide.
pub open spec fn upscale_factor(width: u32, new_width: u32) -> int {
    (new_width / width) as int
}

/// The conditions under which an image of the given size can be upscaled to `new_width`:
/// the new width is a nonzero multiple of the old, and the new image's size fits.
pub open spec fn upscale_allowed(width: u32, height: u32, new_width: u32) -> bool {
    &&& width > 0
    &&& height > 0
    &&& new_width >= width
    &&& new_width % width == 0
    &&& (new_width / width) * height <= u32::MAX
    &&& 4 * (new_width * ((new_width / width) * height)) <= usize::MAX
}

/// Whether an image of this size can be upscaled to `new_width` (see [`upscale_allowed`]).
pub fn can_upscale(width: u32, height: u32, new_width: u32) -> (r: bool)
    ensures
        r == upscale_allowed(width, height, new_width),
{
    if width == 0 || height == 0 || new_width < width || new_width % width != 0 {
        return false;
    }
    let scale: u64 = (new_width / width) as u64;
    assert(scale * height <= 0xffff_ffffu64 * 0xffff_ffffu64) by (nonlinear_arith)
        requires
            scale <= 0xffff_ffff,
            height <= 0xffff_ffff,
    ;
    let rows: u64 = scale * (height as u64);
    if rows > 0xffff_ffff {
        return false;
    }
    assert(new_width * rows <= 0xffff_ffffu128 * 0xffff_ffffu128) by (nonlinear_arith)
        requires
            new_width <= 0xffff_ffff,
            rows <= 0xffff_ffff,
    ;
    let pixels: u128 = (new_width as u128) * (rows as u128);
    4 * pixels <= usize::MAX as u128
}

proof fn lemma_upscale_index_in_bounds(width: int, height: int, new_width: int, scale: int, k: int)
    requires
        width > 0,
        height > 0,
        scale > 0,
        new_width == scale * width,
        0 <= k < new_width * (scale * height),
    ensures
        0 <= upscale_source_index(width, new_width, scale, k) < width * height,
        0 <= (k / new_width) / scale < height,
        0 <= (k % new_width) / scale < width,
        0 <= ((k / new_width) / scale) * width <= width * height,
{
    let row = k / new_width;
    let col = k % new_width;
    assert(0 <= row < scale * height && 0 <= col < new_width) by (nonlinear_arith)
        requires
            new_width > 0,
            0 <= k < new_width * (scale * height),
            row == k / new_width,
            col == k % new_width,
    ;
    assert(0 <= row / scale < height && 0 <= col / scale < width) by (nonlinear_arith)
        requires
            scale > 0,
            0 <= row < scale * height,
            0 <= col < scale * width,
    ;
    assert((row / scale) * width + col / scale < width * height) by (nonlinear_arith)
        requires
            0 <= row / scale < height,
            0 <= col / scale < width,
    ;
    assert(0 <= (row / scale) * width <= width * height) by (nonlinear_arith)
        requires
            0 <= row / scale < height,
            width > 0,
    ;
}

proof fn lemma_flat_index(new_width: int, y: int, x: int)
    requires
        new_width > 0,
        0 <= x < new_width,
        0 <= y,
    ensures
        (y * new_width + x) / new_width == y,
        (y * new_width + x) % new_width == x,
{
    lemma_fundamental_div_mod_converse(y * new_width + x, new_width, y, x);
}

/// Upscales a mask by an integer factor, repeating each pixel as a square.
pub fn upscale_mask(source: &Mask, new_width: u32) -> (out: Mask)
    requires
        source.wf(),
        upscale_allowed(source.width, source.height, new_width),
    ensures
        out.wf(),
        out.width == new_width,
        out.height == (new_width / source.width) * source.height,
        forall|y: int, x: int|
            0 <= y < out.height && 0 <= x < out.width ==> #[trigger] out.data@[y * out.width + x]
                == source.data@[(y / upscale_factor(source.width, new_width)) * source.width + x / upscale_factor(source.width, new_width)],
{
    let scale = new_width / source.width;
    let new_height = scale * source.height;
    proof {
        assert(scale > 0) by (nonlinear_arith)
            requires
                new_width >= source.width,
                source.width > 0,
                scale == new_width / source.width,
        ;
        vstd::arithmetic::div_mod::lemma_fundamental_div_mod(new_width as int, source.width as int);
        assert(new_width == scale * source.width) by (nonlinear_arith)
            requires
                new_width == source.width * (new_width / source.width) + new_width % source.width,
                new_width % source.width == 0,
                scale == new_width / source.width,
        ;
        assert(new_width * new_height <= usize::MAX) by (nonlinear_arith)
            requires
                4 * (new_width * new_height) <= usize::MAX,
        ;
    }
    let total: usize = (new_width as usize) * (new_height as usize);
    let mut data: Vec<u8> = Vec::new();
    let mut k: usize = 0;
    let src_len = source.data.len();
    while k < total
        invariant
            source.wf(),
            src_len == source.data@.len(),
            scale > 0,
            source.width > 0,
            source.height > 0,
            new_width == scale * source.width,
            new_height == scale * source.height,
            total == new_width * new_height,
            k <= total,
            data@.len() == k,
            forall|j: int|
                0 <= j < k ==> #[trigger] data@[j] == source.data@[upscale_source_index(
                    source.width as int,
                    new_width as int,
                    scale as int,
                    j,
                )],
        decreases total - k,
    {
        let row = k / (new_width as usize);
        let col = k % (new_width as usize);
        proof {
            lemma_upscale_index_in_bounds(
                source.width as int,
                source.height as int,
                new_width as int,
                scale as int,
                k as int,
            );
            assert(row as int == k as int / new_width as int);
            assert(col as int == k as int % new_width as int);
            assert(source.width * source.height <= src_len);
        }
        let index = (row / (scale as usize)) * (source.width as usize) + col / (scale as usize);
        data.push(source.data[index]);
        k = k + 1;
    }
    let out = Mask { width: new_width, height: new_height, data };
    assert forall|y: int, x: int|
        0 <= y < out.height && 0 <= x < out.width implies #[trigger] out.data@[y * out.width + x]
            == source.data@[(y / scale as int) * source.width + x / scale as int] by {
        lemma_flat_index(new_width as int, y, x);
        assert(0 <= y * new_width + x < total) by (nonlinear_arith)
            requires
                0 <= y < new_height,
                0 <= x < new_width,
                total == new_width * new_height,
        ;
    }
    out
}

/// Upscales an image by an integer factor, repeating each pixel as a square.
pub fn upscale_image(source: &Pixmap, new_width: u32) -> (out: Pixmap)
    requires
        source.wf(),
        upscale_allowed(source.width, source.height, new_width),
    ensures
        out.wf(),
        out.width == new_width,
        out.height == (new_width / source.width) * source.height,
        forall|y: int, x: int, c: int|
            0 <= y < out.height && 0 <= x < out.width && 0 <= c < 4 ==> #[trigger] out.data@[4
                * (y * out.width + x) + c] == source.data@[4 * ((y / upscale_factor(source.width, new_width))
                * source.width + x / upscale_factor(source.width, new_width)) + c],
{
    let scale = new_width / source.width;
    let new_height = scale * source.height;
    proof {
        assert(scale > 0) by (nonlinear_arith)
            requires
                new_width >= source.width,
                source.width > 0,
                scale == new_width / source.width,
        ;
        vstd::arithmetic::div_mod::lemma_fundamental_div_mod(new_width as int, source.width as int);
        assert(new_width == scale * source.width) by (nonlinear_arith)
            requires
                new_width == source.width * (new_width / source.width) + new_width % source.width,
                new_width % source.width == 0,
                scale == new_width / source.width,
        ;
    }
    let total: usize = (new_width as usize) * (new_height as usize);
    let mut data: Vec<u8> = Vec::new();
    let mut k: usize = 0;
    let src_len = source.data.len();
    while k < total
        invariant
            source.wf(),
            src_len == source.data@.len(),
            scale > 0,
            source.width > 0,
            source.height > 0,
            new_width == scale * source.width,
            new_height == scale * source.height,
            total == new_width * new_height,
            4 * total <= usize::MAX,
            k <= total,
            data@.len() == 4 * k,
            forall|j: int, c: int|
                0 <= j < k && 0 <= c < 4 ==> #[trigger] data@[4 * j + c] == source.data@[4
                    * upscale_source_index(source.width as int, new_width as int, scale as int, j)
                    + c],
        decreases total - k,
    {
        let row = k / (new_width as usize);
        let col = k % (new_width as usize);
        proof {
            lemma_upscale_index_in_bounds(
                source.width as int,
                source.height as int,
                new_width as int,
                scale as int,
                k as int,
            );
            assert(row as int == k as int / new_width as int);
            assert(col as int == k as int % new_width as int);
            assert(source.width * source.height <= src_len);
        }
        let index = (row / (scale as usize)) * (source.width as usize) + col / (scale as usize);
        let ghost before = data@;
        data.push(source.data[4 * index]);
        data.push(source.data[4 * index + 1]);
        data.push(source.data[4 * index + 2]);
        data.push(source.data[4 * index + 3]);
        proof {
            assert forall|j: int, c: int|
                0 <= j < k + 1 && 0 <= c < 4 implies #[trigger] data@[4 * j + c] == source.data@[4
                    * upscale_source_index(source.width as int, new_width as int, scale as int, j)
                    + c] by {
                if j < k {
                    assert(data@[4 * j + c] == before[4 * j + c]);
                } else {
                    assert(j == k);
                }
            }
        }
        k = k + 1;
    }
    let out = Pixmap { width: new_width, height: new_height, data };
    assert forall|y: int, x: int, c: int|
        0 <= y < out.height && 0 <= x < out.width && 0 <= c < 4 implies #[trigger] out.data@[4 * (y
            * out.width + x) + c] == source.data@[4 * ((y / scale as int) * source.width + x
            / scale as int) + c] by {
        lemma_flat_index(new_width as int, y, x);
        assert(0 <= y * new_width + x < total) by (nonlinear_arith)
            requires
                0 <= y < new_height,
                0 <= x < new_width,
                total == new_width * new_height,
        ;
    }
    out
}

} // verus!
