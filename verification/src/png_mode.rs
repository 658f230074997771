use crate::color::{bit_depth_for_channel, channel_depth, gray, gray_spec, BitDepth, ComparableColor};
use crate::color_description::{colors_transparency, lemma_listed_alphas, ColorDescription, DescriptionModel, Transparency};
use crate::color_set::{contains_semitransparency, has_semitransparency, strictly_sorted};
use vstd::prelude::*;

verus! {

/// How the pixels of a PNG file are stored.
pub enum ColorMode {
    /// Red, green and blue; pixels of the optional color are transparent.
    Rgb { transparent_color: Option<(u16, u16, u16)> },
    /// Red, green, blue and alpha.
    Rgba,
    /// One gray level; pixels of the optional shade are transparent.
    Grayscale { transparent_shade: Option<u16> },
    /// One gray level and alpha.
    GrayscaleAlpha,
    /// An index into the palette.
    Indexed { palette: Vec<ComparableColor> },
}

/// The mathematical form of a [`ColorMode`].
pub enum ColorModeModel {
    Rgb(Option<(u16, u16, u16)>),
    Rgba,
    Grayscale(Option<u16>),
    GrayscaleAlpha,
    Indexed(Seq<ComparableColor>),
}

impl View for ColorMode {
    type V = ColorModeModel;

    open spec fn view(&self) -> ColorModeModel {
        match self {
            ColorMode::Rgb { transparent_color } => ColorModeModel::Rgb(*transparent_color),
            ColorMode::Rgba => ColorModeModel::Rgba,
            ColorMode::Grayscale { transparent_shade } => ColorModeModel::Grayscale(*transparent_shade),
            ColorMode::GrayscaleAlpha => ColorModeModel::GrayscaleAlpha,
            ColorMode::Indexed { palette } => ColorModeModel::Indexed(palette@),
        }
    }
}

/// The bit depth of a palette of `len` colors: enough bits to index every color.
pub open spec fn palette_depth(len: nat) -> BitDepth {
    if len <= 2 {
        BitDepth::One
    } else if len <= 4 {
        BitDepth::Two
    } else if len <= 16 {
        BitDepth::Four
    } else {
        BitDepth::Eight
    }
}

/// The bit depth needed to index a palette of `len` colors (at most 256).
pub fn palette_bit_depth(len: usize) -> (r: BitDepth)
    requires
        len <= 256,
    ensures
        r == palette_depth(len as nat),
{
    if len <= 2 {
        BitDepth::One
    } else if len <= 4 {
        BitDepth::Two
    } else if len <= 16 {
        BitDepth::Four
    } else {
        BitDepth::Eight
    }
}

/// A channel value scaled down to a sample of the given depth, rounding to the nearest level.
pub open spec fn scaled_channel(input: u8, depth: BitDepth) -> int {
    match depth {
        BitDepth::One => if input < 0x80 {
            0
        } else {
            1
        },
        BitDepth::Two => (input + 42int) / 0x55,
        BitDepth::Four => (input + 8int) / 0x11,
        _ => input as int,
    }
}

/// A channel value as a sample of the given depth (not sixteen bits).
pub fn channel_to_bit_depth(input: u8, depth: BitDepth) -> (r: u16)
    requires
        depth != BitDepth::Sixteen,
    ensures
        r == scaled_channel(input, depth),
{
    match depth {
        BitDepth::One => if input < 0x80 {
            0
        } else {
            1
        },
        BitDepth::Two => ((input as u16) + (0x55 / 2)) / 0x55,
        BitDepth::Four => ((input as u16) + (0x11 / 2)) / 0x11,
        _ => input as u16,
    }
}

/// A value stored at a depth no smaller than the one it needs comes back unchanged when the
/// sample is scaled back up to eight bits.
pub proof fn lemma_channel_round_trip(input: u8, depth: BitDepth)
    requires
        depth != BitDepth::Sixteen,
        channel_depth(input).bits() <= depth.bits(),
    ensures
        scaled_channel(input, depth) * (255int / pow2_minus_one(depth)) == input as int,
{
    match depth {
        BitDepth::One => {
            assert(input == 0 || input == 255);
            assert(255int / pow2_minus_one(depth) == 255);
            if input == 0 {
                assert(scaled_channel(input, depth) == 0);
                assert(scaled_channel(input, depth) * (255int / pow2_minus_one(depth)) == 0);
            } else {
                assert(scaled_channel(input, depth) == 1);
                assert(scaled_channel(input, depth) * (255int / pow2_minus_one(depth)) == 255);
                assert(input as int == 255);
            }
            assert(scaled_channel(input, depth) * (255int / pow2_minus_one(depth)) == input as int);
        },
        BitDepth::Two => {
            assert(255int / pow2_minus_one(depth) == 0x55);
            assert(input == 0 || input == 0x55 || input == 0xaa || input == 255);
            if input == 0 {
                assert(scaled_channel(input, depth) == 0);
            } else if input == 0x55 {
                assert(scaled_channel(input, depth) == 1);
            } else if input == 0xaa {
                assert(scaled_channel(input, depth) == 2);
            } else {
                assert(scaled_channel(input, depth) == 3);
            }
            assert(scaled_channel(input, depth) * (255int / pow2_minus_one(depth)) == input as int);
        },
        BitDepth::Four => {
            assert(255int / pow2_minus_one(depth) == 0x11);
            assert(input % 0x11 == 0);
            let q = input / 0x11;
            assert(input == q * 0x11);
            assert((input + 8) / 0x11 == q);
            assert(scaled_channel(input, depth) == q);
            assert(q * 0x11 == input as int);
            assert(scaled_channel(input, depth) * (255int / pow2_minus_one(depth)) == input as int);
        },
        _ => {
            assert(255int / pow2_minus_one(depth) == 1);
            assert(scaled_channel(input, depth) * (255int / pow2_minus_one(depth)) == input as int);
        },
    }
}

/// The largest sample of a depth: two to the number of bits, less one.
pub open spec fn pow2_minus_one(depth: BitDepth) -> int {
    match depth {
        BitDepth::One => 1,
        BitDepth::Two => 3,
        BitDepth::Four => 15,
        BitDepth::Eight => 255,
        BitDepth::Sixteen => 65535,
    }
}

/// The deepest bit depth that the red channel of any of the colors needs (one bit when there
/// are no colors).
pub open spec fn gray_depth(colors: Seq<ComparableColor>) -> BitDepth
    decreases colors.len(),
{
    if colors.len() == 0 {
        BitDepth::One
    } else {
        gray_depth(colors.drop_last()).spec_deeper(channel_depth(colors.last().red))
    }
}

proof fn lemma_gray_depth_not_sixteen(colors: Seq<ComparableColor>)
    ensures
        gray_depth(colors) != BitDepth::Sixteen,
    decreases colors.len(),
{
    if colors.len() > 0 {
        lemma_gray_depth_not_sixteen(colors.drop_last());
    }
}

proof fn lemma_gray_depth_eight(colors: Seq<ComparableColor>, n: int)
    requires
        0 <= n <= colors.len(),
        gray_depth(colors.take(n)) == BitDepth::Eight,
    ensures
        gray_depth(colors) == BitDepth::Eight,
    decreases colors.len() - n,
{
    if n < colors.len() {
        assert(colors.take(n + 1).drop_last() =~= colors.take(n));
        lemma_gray_depth_eight(colors, n + 1);
    } else {
        assert(colors.take(n) =~= colors);
    }
}

/// The bit depth that grayscale storage of the colors needs: the deepest that any red channel
/// needs.
pub fn get_grayscale_bit_depth(colors: &[ComparableColor]) -> (r: BitDepth)
    ensures
        r == gray_depth(colors@),
        r != BitDepth::Sixteen,
{
    let mut depth = BitDepth::One;
    let mut i: usize = 0;
    while i < colors.len()
        invariant
            i <= colors.len(),
            depth == gray_depth(colors@.take(i as int)),
            depth != BitDepth::Sixteen,
        decreases colors.len() - i,
    {
        assert(colors@.take(i + 1).drop_last() =~= colors@.take(i as int));
        depth = depth.deeper(bit_depth_for_channel(colors[i].red));
        i = i + 1;
        if depth == BitDepth::Eight {
            proof {
                lemma_gray_depth_eight(colors@, i as int);
            }
            return depth;
        }
    }
    assert(colors@.take(colors.len() as int) =~= colors@);
    depth
}

/// Whether a color that is the same as `c` is listed.
pub open spec fn lists_color(colors: Seq<ComparableColor>, c: ComparableColor) -> bool {
    exists|i: int| 0 <= i < colors.len() && #[trigger] colors[i].same_as(c)
}

/// The gray levels that a grayscale sample of the given depth can show, as steps between
/// black and white: the step between levels and the number of levels.
pub open spec fn shade_step(depth: BitDepth) -> int {
    match depth {
        BitDepth::One => 255,
        BitDepth::Two => 0x55,
        BitDepth::Four => 0x11,
        _ => 1,
    }
}

pub open spec fn shade_levels(depth: BitDepth) -> int {
    match depth {
        BitDepth::One => 2,
        BitDepth::Two => 4,
        BitDepth::Four => 16,
        _ => 256,
    }
}

/// The darkest gray level, from level `n` up, of the given depth whose gray is not listed.
pub open spec fn first_unused_shade_from(depth: BitDepth, colors: Seq<ComparableColor>, n: int) -> Option<u8>
    decreases shade_levels(depth) - n,
{
    if n < 0 || n >= shade_levels(depth) {
        None
    } else if !lists_color(colors, gray_spec((n * shade_step(depth)) as u8)) {
        Some((n * shade_step(depth)) as u8)
    } else {
        first_unused_shade_from(depth, colors, n + 1)
    }
}

/// The darkest gray of the given depth's levels that no listed color is.
pub open spec fn first_unused_shade(depth: BitDepth, colors: Seq<ComparableColor>) -> Option<u8> {
    first_unused_shade_from(depth, colors, 0)
}

fn lists_gray(colors: &[ComparableColor], shade: ComparableColor) -> (r: bool)
    ensures
        r == lists_color(colors@, shade),
{
    let mut i: usize = 0;
    while i < colors.len()
        invariant
            i <= colors.len(),
            forall|j: int| 0 <= j < i ==> !#[trigger] colors@[j].same_as(shade),
        decreases colors.len() - i,
    {
        if colors[i].is_same(&shade) {
            return true;
        }
        i = i + 1;
    }
    false
}

fn find_unused_shade(depth: BitDepth, colors: &[ComparableColor]) -> (r: Option<u8>)
    requires
        depth != BitDepth::Sixteen,
    ensures
        r == first_unused_shade(depth, colors@),
{
    let (step, levels): (u16, u16) = match depth {
        BitDepth::One => (255, 2),
        BitDepth::Two => (0x55, 4),
        BitDepth::Four => (0x11, 16),
        _ => (1, 256),
    };
    let mut n: u16 = 0;
    while n < levels
        invariant
            step == shade_step(depth),
            levels == shade_levels(depth),
            step * (levels - 1) == 255,
            n <= levels,
            first_unused_shade(depth, colors@) == first_unused_shade_from(depth, colors@, n as int),
        decreases levels - n,
    {
        assert(n * step <= 255) by (nonlinear_arith)
            requires
                n < levels,
                step * (levels - 1) == 255,
                step > 0,
        ;
        let shade = gray((n * step) as u8);
        if !lists_gray(colors, shade) {
            return Some((n * step) as u8);
        }
        n = n + 1;
    }
    None
}

/// The grayscale storage chosen for colors that are all gray, by their transparency: partly
/// transparent colors need gray and alpha; with binary transparency, the darkest unused gray
/// level of the colors' depth marks transparent pixels (a deeper depth is taken when every
/// level is used); opaque colors need no transparency.
pub open spec fn grayscale_choice(colors: Seq<ComparableColor>, transparency: Transparency) -> (ColorModeModel, BitDepth) {
    match transparency {
        Transparency::AlphaChannel => (ColorModeModel::GrayscaleAlpha, BitDepth::Eight),
        Transparency::Binary => {
            let depth = gray_depth(colors);
            match first_unused_shade(depth, colors) {
                Some(unused) => (ColorModeModel::Grayscale(Some((unused as u16 * 0x101) as u16)), depth),
                None => match depth {
                    BitDepth::One => (ColorModeModel::Grayscale(Some(0x5555u16)), BitDepth::Two),
                    BitDepth::Two => (ColorModeModel::Grayscale(Some(0x2222u16)), BitDepth::Four),
                    BitDepth::Four => (ColorModeModel::Grayscale(Some(0x0808u16)), BitDepth::Eight),
                    _ => (ColorModeModel::GrayscaleAlpha, BitDepth::Eight),
                },
            }
        },
        Transparency::Opaque => (ColorModeModel::Grayscale(None), gray_depth(colors)),
    }
}

/// Bits per pixel of a grayscale storage choice.
pub open spec fn grayscale_bits(choice: (ColorModeModel, BitDepth)) -> int {
    (if choice.0 is GrayscaleAlpha {
        2int
    } else {
        1int
    }) * choice.1.bits()
}

/// Whether any of the colors is not gray.
pub open spec fn has_non_gray(colors: Seq<ComparableColor>) -> bool {
    exists|i: int|
        0 <= i < colors.len() && !(#[trigger] colors[i].alpha == 0 || (colors[i].green == colors[i].red
            && colors[i].blue == colors[i].red))
}

/// The marker color for transparent pixels in RGB mode, at sixteen bits per channel.
pub open spec fn reserved_rgb16() -> (u16, u16, u16) {
    (0xc0c0u16, 0xffffu16, 0x3e3eu16)
}

/// The storage that needs the fewest bits for an image with the described colors: RGB(A)
/// for arbitrary colors or more than 256 colors with some not gray, gray and alpha for more
/// than 256 grays, eight-bit grayscale for more than 16 opaque grays, otherwise a palette,
/// unless all colors are gray and grayscale needs no more bits per pixel than the palette.
pub open spec fn mode_for(description: DescriptionModel) -> (ColorModeModel, BitDepth) {
    match description {
        DescriptionModel::SpecifiedColors(colors) => {
            let transparency = colors_transparency(colors);
            let non_gray = has_non_gray(colors);
            if colors.len() > 256 {
                if non_gray {
                    match transparency {
                        Transparency::Opaque => (ColorModeModel::Rgb(None), BitDepth::Eight),
                        Transparency::Binary => (ColorModeModel::Rgb(Some(reserved_rgb16())), BitDepth::Eight),
                        Transparency::AlphaChannel => (ColorModeModel::Rgba, BitDepth::Eight),
                    }
                } else {
                    (ColorModeModel::GrayscaleAlpha, BitDepth::Eight)
                }
            } else if colors.len() > 16 && !non_gray && transparency == Transparency::Opaque {
                (ColorModeModel::Grayscale(None), BitDepth::Eight)
            } else {
                let indexed = (ColorModeModel::Indexed(colors), palette_depth(colors.len()));
                if non_gray {
                    indexed
                } else {
                    let grayscale = grayscale_choice(colors, transparency);
                    if grayscale_bits(grayscale) <= palette_depth(colors.len()).bits() {
                        grayscale
                    } else {
                        indexed
                    }
                }
            }
        },
        DescriptionModel::Rgb(Transparency::Opaque) => (ColorModeModel::Rgb(None), BitDepth::Eight),
        DescriptionModel::Rgb(Transparency::Binary) => (ColorModeModel::Rgb(Some(reserved_rgb16())), BitDepth::Eight),
        DescriptionModel::Rgb(Transparency::AlphaChannel) => (ColorModeModel::Rgba, BitDepth::Eight),
    }
}

fn any_non_gray(colors: &[ComparableColor]) -> (r: bool)
    ensures
        r == has_non_gray(colors@),
{
    let mut i: usize = 0;
    while i < colors.len()
        invariant
            i <= colors.len(),
            forall|j: int| 0 <= j < i ==> (#[trigger] colors@[j].alpha == 0 || (colors@[j].green == colors@[j].red
                && colors@[j].blue == colors@[j].red)),
        decreases colors.len() - i,
    {
        if !colors[i].is_gray() {
            return true;
        }
        i = i + 1;
    }
    false
}

fn copy_palette(colors: &[ComparableColor]) -> (out: Vec<ComparableColor>)
    ensures
        out@ == colors@,
{
    crate::color_description::copy_colors(colors)
}

/// The storage and bit depth that a PNG file of an image with the described colors uses.
pub fn color_description_to_mode(color_description: &ColorDescription) -> (r: (ColorMode, BitDepth))
    requires
        color_description@.wf(),
    ensures
        (r.0@, r.1) == mode_for(color_description@),
{
    match color_description {
        ColorDescription::SpecifiedColors(colors) => {
            let transparency = color_description.transparency();
            let non_gray = any_non_gray(colors.as_slice());
            if colors.len() > 256 {
                if non_gray {
                    match transparency {
                        Transparency::Opaque => (ColorMode::Rgb { transparent_color: None }, BitDepth::Eight),
                        Transparency::Binary => (
                            ColorMode::Rgb { transparent_color: Some((0xc0c0, 0xffff, 0x3e3e)) },
                            BitDepth::Eight,
                        ),
                        Transparency::AlphaChannel => (ColorMode::Rgba, BitDepth::Eight),
                    }
                } else {
                    (ColorMode::GrayscaleAlpha, BitDepth::Eight)
                }
            } else if colors.len() > 16 && !non_gray && transparency == Transparency::Opaque {
                (ColorMode::Grayscale { transparent_shade: None }, BitDepth::Eight)
            } else {
                let indexed_bit_depth = palette_bit_depth(colors.len());
                if non_gray {
                    return (ColorMode::Indexed { palette: copy_palette(colors.as_slice()) }, indexed_bit_depth);
                }
                let (grayscale_mode, grayscale_bit_depth) = match transparency {
                    Transparency::AlphaChannel => (ColorMode::GrayscaleAlpha, BitDepth::Eight),
                    Transparency::Binary => {
                        let depth = get_grayscale_bit_depth(colors.as_slice());
                        match find_unused_shade(depth, colors.as_slice()) {
                            Some(unused) => (
                                ColorMode::Grayscale { transparent_shade: Some((unused as u16) * 0x101) },
                                depth,
                            ),
                            None => match depth {
                                BitDepth::One => (ColorMode::Grayscale { transparent_shade: Some(0x5555) }, BitDepth::Two),
                                BitDepth::Two => (ColorMode::Grayscale { transparent_shade: Some(0x2222) }, BitDepth::Four),
                                BitDepth::Four => (ColorMode::Grayscale { transparent_shade: Some(0x0808) }, BitDepth::Eight),
                                _ => (ColorMode::GrayscaleAlpha, BitDepth::Eight),
                            },
                        }
                    },
                    Transparency::Opaque => (
                        ColorMode::Grayscale { transparent_shade: None },
                        get_grayscale_bit_depth(colors.as_slice()),
                    ),
                };
                let per_sample: u8 = match grayscale_mode {
                    ColorMode::GrayscaleAlpha => 2,
                    _ => 1,
                };
                let grayscale_bits_per_pixel = per_sample * grayscale_bit_depth.bit_count();
                let indexed_bits_per_pixel = indexed_bit_depth.bit_count();
                if grayscale_bits_per_pixel <= indexed_bits_per_pixel {
                    (grayscale_mode, grayscale_bit_depth)
                } else {
                    (ColorMode::Indexed { palette: copy_palette(colors.as_slice()) }, indexed_bit_depth)
                }
            }
        },
        ColorDescription::Rgb(Transparency::Opaque) => (ColorMode::Rgb { transparent_color: None }, BitDepth::Eight),
        ColorDescription::Rgb(Transparency::Binary) => (
            ColorMode::Rgb { transparent_color: Some((0xc0c0, 0xffff, 0x3e3e)) },
            BitDepth::Eight,
        ),
        ColorDescription::Rgb(Transparency::AlphaChannel) => (ColorMode::Rgba, BitDepth::Eight),
    }
}

// ---------------------------------------------------------------------------------------------
// The chosen storage keeps the listed colors
// ---------------------------------------------------------------------------------------------

/// Whether images stored this way keep the color apart exactly: any color in RGBA; in RGB a
/// fully opaque color, and with a marker also a fully transparent one, the opaque colors then
/// other than the marker; with gray and alpha any gray; in grayscale a fully opaque gray whose
/// level the depth holds, and with a marker also a fully transparent color, the opaque grays
/// then other than the marker level; in a palette a listed color.
pub open spec fn stores_color(mode: ColorModeModel, depth: BitDepth, c: ComparableColor) -> bool {
    let is_gray = c.green == c.red && c.blue == c.red;
    match mode {
        ColorModeModel::Rgba => true,
        ColorModeModel::Rgb(marker) => match marker {
            None => c.alpha == 255,
            Some(m) => c.alpha == 0 || (c.alpha == 255 && !(c.red * 0x101 == m.0 && c.green * 0x101 == m.1 && c.blue
                * 0x101 == m.2)),
        },
        ColorModeModel::GrayscaleAlpha => c.alpha == 0 || is_gray,
        ColorModeModel::Grayscale(shade) => match shade {
            None => c.alpha == 255 && is_gray && channel_depth(c.red).bits() <= depth.bits(),
            Some(s) => c.alpha == 0 || (c.alpha == 255 && is_gray && channel_depth(c.red).bits() <= depth.bits()
                && c.red != s / 256),
        },
        ColorModeModel::Indexed(palette) => lists_color(palette, c),
    }
}

proof fn lemma_gray_depth_covers(colors: Seq<ComparableColor>, i: int)
    requires
        0 <= i < colors.len(),
    ensures
        channel_depth(colors[i].red).bits() <= gray_depth(colors).bits(),
    decreases colors.len(),
{
    if i < colors.len() - 1 {
        lemma_gray_depth_covers(colors.drop_last(), i);
        assert(colors.drop_last()[i] == colors[i]);
    }
}

proof fn lemma_unused_shade_unlisted(depth: BitDepth, colors: Seq<ComparableColor>, n: int)
    ensures
        first_unused_shade_from(depth, colors, n) matches Some(u) ==> !lists_color(colors, gray_spec(u)),
    decreases shade_levels(depth) - n,
{
    if 0 <= n < shade_levels(depth) && lists_color(colors, gray_spec((n * shade_step(depth)) as u8)) {
        lemma_unused_shade_unlisted(depth, colors, n + 1);
    }
}

proof fn lemma_opaque_gray_listed(colors: Seq<ComparableColor>, i: int, level: u8)
    requires
        0 <= i < colors.len(),
        colors[i].alpha == 255,
        colors[i].green == colors[i].red,
        colors[i].blue == colors[i].red,
        colors[i].red == level,
    ensures
        lists_color(colors, gray_spec(level)),
{
    assert(colors[i].same_as(gray_spec(level)));
}

/// The storage chosen for an image whose colors are listed keeps each listed color apart
/// exactly (see [`stores_color`]). The one exception: with RGB storage that marks transparent
/// pixels, an opaque color that is the marker color itself.
pub proof fn lemma_mode_stores_listed_colors(colors: Seq<ComparableColor>, i: int)
    requires
        DescriptionModel::SpecifiedColors(colors).wf(),
        0 <= i < colors.len(),
        !(mode_for(DescriptionModel::SpecifiedColors(colors)).0 == ColorModeModel::Rgb(Some(reserved_rgb16()))
            && colors[i].alpha == 255 && colors[i].red == 0xc0 && colors[i].green == 0xff && colors[i].blue == 0x3e),
    ensures
        stores_color(
            mode_for(DescriptionModel::SpecifiedColors(colors)).0,
            mode_for(DescriptionModel::SpecifiedColors(colors)).1,
            colors[i],
        ),
{
    let c = colors[i];
    let transparency = colors_transparency(colors);
    lemma_listed_alphas(colors, i);
    lemma_gray_depth_covers(colors, i);
    if transparency == Transparency::AlphaChannel {
        assert(has_semitransparency(colors));
    }
    if !has_non_gray(colors) {
        assert(c.alpha == 0 || (c.green == c.red && c.blue == c.red));
    }
    assert(c.same_as(c));
    assert(lists_color(colors, c));
    if colors.len() <= 256 && !(colors.len() > 16 && !has_non_gray(colors) && transparency == Transparency::Opaque)
        && !has_non_gray(colors) && transparency == Transparency::Binary {
        let depth = gray_depth(colors);
        lemma_gray_depth_not_sixteen(colors);
        lemma_unused_shade_unlisted(depth, colors, 0);
        match first_unused_shade(depth, colors) {
            Some(unused) => {
                let marker = (unused as u16 * 0x101) as u16;
                assert(marker / 256 == unused) by (nonlinear_arith)
                    requires
                        marker == (unused as u16 * 0x101) as u16,
                        unused <= 255,
                ;
                assert(grayscale_choice(colors, transparency) == (
                    ColorModeModel::Grayscale(Some(marker)),
                    depth,
                ));
                if c.alpha == 255 && c.red == unused {
                    lemma_opaque_gray_listed(colors, i, unused);
                }
            },
            None => {
                assert(0x5555u16 / 256 == 0x55);
                assert(0x2222u16 / 256 == 0x22);
                assert(0x0808u16 / 256 == 0x08);
            },
        }
    }
}

/// For an image that may hold any colors, the chosen storage keeps every color whose opacity
/// the image's transparency allows, partly transparent colors included where it allows them;
/// with binary transparency the one exception is the opaque color used as the marker of
/// transparent pixels.
pub proof fn lemma_mode_stores_allowed_colors(t: Transparency, c: ComparableColor)
    requires
        t.allows_alpha(c.alpha),
        !(t == Transparency::Binary && c.alpha == 255 && c.red == 0xc0 && c.green == 0xff && c.blue == 0x3e),
    ensures
        stores_color(mode_for(DescriptionModel::Rgb(t)).0, mode_for(DescriptionModel::Rgb(t)).1, c),
{
}

/// The storage has an alpha channel for every pixel only where some pixel may be partly
/// transparent, and is plain RGB without a marker only where every pixel is opaque.
pub proof fn lemma_mode_alpha_only_when_needed(description: DescriptionModel)
    ensures
        mode_for(description).0 == ColorModeModel::Rgba ==> description.transparency() == Transparency::AlphaChannel,
        mode_for(description).0 == ColorModeModel::Rgb(None) ==> description.transparency() == Transparency::Opaque,
{
}

} // verus!
