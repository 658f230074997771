use palette::blend::Compose;
use palette::Srgba;
use resvg::tiny_skia::PremultipliedColorU8;
use vstd::prelude::*;

verus! {

/// A 24-bit sRGB color with an 8-bit alpha value (not premultiplied).
///
/// All fully transparent colors compare equal, whatever their color channels hold.
#[derive(Copy, Clone, Debug)]
pub struct ComparableColor {
    pub alpha: u8,
    pub red: u8,
    pub green: u8,
    pub blue: u8,
}

/// Number of bits per channel that a PNG image may use.
#[derive(Copy, Clone, Debug, PartialEq, Eq, Structural, Hash)]
pub enum BitDepth {
    One,
    Two,
    Four,
    Eight,
    Sixteen,
}

impl BitDepth {
    /// The number of bits per sample that this depth stands for.
    pub open spec fn bits(self) -> int {
        match self {
            BitDepth::One => 1,
            BitDepth::Two => 2,
            BitDepth::Four => 4,
            BitDepth::Eight => 8,
            BitDepth::Sixteen => 16,
        }
    }

    pub fn bit_count(&self) -> (r: u8)
        ensures
            r == self.bits(),
    {
        match self {
            BitDepth::One => 1,
            BitDepth::Two => 2,
            BitDepth::Four => 4,
            BitDepth::Eight => 8,
            BitDepth::Sixteen => 16,
        }
    }

    /// The deeper of two bit depths.
    pub open spec fn spec_deeper(self, other: BitDepth) -> BitDepth {
        if self.bits() >= other.bits() {
            self
        } else {
            other
        }
    }

    pub fn deeper(self, other: BitDepth) -> (r: BitDepth)
        ensures
            r == self.spec_deeper(other),
    {
        if self.bit_count() >= other.bit_count() {
            self
        } else {
            other
        }
    }
}

/// The smallest PNG bit depth at which a channel value is stored without loss:
/// 0 and 255 need one bit, 0x55 and 0xAA need two, multiples of 0x11 need four.
pub open spec fn channel_depth(value: u8) -> BitDepth {
    if value == 0 || value == 255 {
        BitDepth::One
    } else if value == 0x55 || value == 0xaa {
        BitDepth::Two
    } else if value % 0x11 == 0 {
        BitDepth::Four
    } else {
        BitDepth::Eight
    }
}

/// The smallest bit depth at which `value` can be stored exactly.
pub fn bit_depth_for_channel(value: u8) -> (r: BitDepth)
    ensures
        r == channel_depth(value),
{
    if value == 0 || value == 255 {
        BitDepth::One
    } else if value == 0x55 || value == 0xaa {
        BitDepth::Two
    } else if value % 0x11 == 0 {
        BitDepth::Four
    } else {
        BitDepth::Eight
    }
}

/// The table of [`bit_depth_for_channel`] for every channel value, indexed by the value.
pub fn bit_depth_for_channel_value() -> (table: Vec<BitDepth>)
    ensures
        table.len() == 256,
        forall|v: int| 0 <= v < 256 ==> #[trigger] table@[v] == channel_depth(v as u8),
{
    let mut table: Vec<BitDepth> = Vec::new();
    let mut v: u16 = 0;
    while v < 256
        invariant
            v <= 256,
            table.len() == v,
            forall|i: int| 0 <= i < v ==> #[trigger] table@[i] == channel_depth(i as u8),
        decreases 256 - v,
    {
        table.push(bit_depth_for_channel(v as u8));
        v = v + 1;
    }
    table
}

/// A color as a (red, green, blue, alpha) tuple.
pub open spec fn rgba_tuple(color: ComparableColor) -> (u8, u8, u8, u8) {
    (color.red, color.green, color.blue, color.alpha)
}

/// What palette computes when it composes one sRGBA color over another: both are converted to
/// floating-point components, premultiplied, joined with the Porter-Duff `over` operator,
/// unpremultiplied and converted back to 8-bit components.
pub uninterp spec fn srgba8_over(foreground: (u8, u8, u8, u8), background: (u8, u8, u8, u8)) -> (
    u8,
    u8,
    u8,
    u8,
);

/// Calls palette's `Compose::over` on the premultiplied float forms of `foreground` and
/// `background`. The contract only names the result (`srgba8_over`) as a function of the two
/// colors' channels; nothing about palette's arithmetic is stated.
#[verifier::external_body]
fn blend_over(foreground: ComparableColor, background: ComparableColor) -> (out: ComparableColor)
    ensures
        rgba_tuple(out) == srgba8_over(rgba_tuple(foreground), rgba_tuple(background)),
{
    let fg: Srgba = Srgba::<u8>::new(foreground.red, foreground.green, foreground.blue, foreground.alpha).into_format();
    let bg: Srgba = Srgba::<u8>::new(background.red, background.green, background.blue, background.alpha).into_format();
    let blended: Srgba<u8> = fg.premultiply().over(bg.premultiply()).unpremultiply().into_format();
    ComparableColor { red: blended.red, green: blended.green, blue: blended.blue, alpha: blended.alpha }
}

/// One foreground color seen over the background color `background`.
pub open spec fn spec_under_one(background: ComparableColor, foreground: ComparableColor) -> ComparableColor {
    if foreground.alpha == 0 {
        background
    } else if foreground.alpha == 255 {
        foreground
    } else {
        let t = srgba8_over(rgba_tuple(foreground), rgba_tuple(background));
        ComparableColor { red: t.0, green: t.1, blue: t.2, alpha: t.3 }
    }
}

/// Every foreground color seen over `background`, in order.
pub open spec fn spec_under(background: ComparableColor, foregrounds: Seq<ComparableColor>) -> Seq<ComparableColor> {
    if background.alpha == 0 {
        foregrounds
    } else {
        foregrounds.map_values(|fg: ComparableColor| spec_under_one(background, fg))
    }
}

/// The absolute difference of two channel values.
pub open spec fn channel_diff(a: u8, b: u8) -> int {
    if a >= b {
        a - b
    } else {
        b - a
    }
}

fn channel_abs_diff(a: u8, b: u8) -> (r: u16)
    ensures
        r == channel_diff(a, b),
{
    if a >= b {
        (a - b) as u16
    } else {
        (b - a) as u16
    }
}

/// The lowercase hexadecimal digit for a value below 16.
pub open spec fn hex_digit(n: u8) -> char {
    if n < 10 {
        (48 + n) as char
    } else {
        (87 + n) as char
    }
}

/// `#` followed by red, green, blue and alpha as two lowercase hexadecimal digits each.
pub open spec fn hex_form(color: ComparableColor) -> Seq<char> {
    seq![
        '#',
        hex_digit(color.red / 16),
        hex_digit(color.red % 16),
        hex_digit(color.green / 16),
        hex_digit(color.green % 16),
        hex_digit(color.blue / 16),
        hex_digit(color.blue % 16),
        hex_digit(color.alpha / 16),
        hex_digit(color.alpha % 16),
    ]
}

/// How a color is written out: `transparent` when alpha is 0, else its hexadecimal form.
pub open spec fn display_form(color: ComparableColor) -> Seq<char> {
    if color.alpha == 0 {
        seq!['t', 'r', 'a', 'n', 's', 'p', 'a', 'r', 'e', 'n', 't']
    } else {
        hex_form(color)
    }
}

fn hex_digit_str(n: u8) -> (s: &'static str)
    requires
        n < 16,
    ensures
        s@ == seq![hex_digit(n)],
{
    proof {
        reveal_strlit("0");
        reveal_strlit("1");
        reveal_strlit("2");
        reveal_strlit("3");
        reveal_strlit("4");
        reveal_strlit("5");
        reveal_strlit("6");
        reveal_strlit("7");
        reveal_strlit("8");
        reveal_strlit("9");
        reveal_strlit("a");
        reveal_strlit("b");
        reveal_strlit("c");
        reveal_strlit("d");
        reveal_strlit("e");
        reveal_strlit("f");
    }
    match n {
        0 => "0",
        1 => "1",
        2 => "2",
        3 => "3",
        4 => "4",
        5 => "5",
        6 => "6",
        7 => "7",
        8 => "8",
        9 => "9",
        10 => "a",
        11 => "b",
        12 => "c",
        13 => "d",
        14 => "e",
        _ => "f",
    }
}

fn push_hex_byte(out: &mut String, byte: u8)
    ensures
        final(out)@ == old(out)@ + seq![hex_digit(byte / 16), hex_digit(byte % 16)],
{
    out.append(hex_digit_str(byte / 16));
    out.append(hex_digit_str(byte % 16));
}

impl ComparableColor {
    /// The position of the color in the library's order: 0 for every fully transparent color,
    /// else the big-endian number made of alpha, red, green and blue.
    pub open spec fn sort_key(self) -> int {
        if self.alpha == 0 {
            0
        } else {
            self.alpha * 0x1000000 + self.red * 0x10000 + self.green * 0x100 + self.blue
        }
    }

    /// Two colors are the same when both are fully transparent or all their channels agree.
    pub open spec fn same_as(self, other: ComparableColor) -> bool {
        (self.alpha == 0 && other.alpha == 0) || (self.red == other.red && self.green
            == other.green && self.blue == other.blue && self.alpha == other.alpha)
    }

    pub fn red(&self) -> (r: u8)
        ensures
            r == self.red,
    {
        self.red
    }

    pub fn green(&self) -> (r: u8)
        ensures
            r == self.green,
    {
        self.green
    }

    pub fn blue(&self) -> (r: u8)
        ensures
            r == self.blue,
    {
        self.blue
    }

    pub fn alpha(&self) -> (r: u8)
        ensures
            r == self.alpha,
    {
        self.alpha
    }

    /// The color's [`sort_key`](ComparableColor::sort_key) as a machine integer.
    pub fn key(&self) -> (k: u32)
        ensures
            k == self.sort_key(),
    {
        if self.alpha == 0 {
            0
        } else {
            (self.alpha as u32) * 0x1000000 + (self.red as u32) * 0x10000 + (self.green as u32)
                * 0x100 + (self.blue as u32)
        }
    }

    /// Whether the two colors are the same (see [`same_as`](ComparableColor::same_as)).
    pub fn is_same(&self, other: &ComparableColor) -> (r: bool)
        ensures
            r == self.same_as(*other),
    {
        (self.alpha == 0 && other.alpha == 0) || (self.red == other.red && self.green
            == other.green && self.blue == other.blue && self.alpha == other.alpha)
    }

    pub fn transparent() -> (r: ComparableColor)
        ensures
            r == rgba_spec(0, 0, 0, 0),
    {
        rgba(0, 0, 0, 0)
    }

    pub fn black() -> (r: ComparableColor)
        ensures
            r == gray_spec(0),
    {
        gray(0)
    }

    pub fn red_color() -> (r: ComparableColor)
        ensures
            r == rgb_spec(255, 0, 0),
    {
        rgb(255, 0, 0)
    }

    pub fn green_color() -> (r: ComparableColor)
        ensures
            r == rgb_spec(0, 255, 0),
    {
        rgb(0, 255, 0)
    }

    pub fn blue_color() -> (r: ComparableColor)
        ensures
            r == rgb_spec(0, 0, 255),
    {
        rgb(0, 0, 255)
    }

    pub fn yellow() -> (r: ComparableColor)
        ensures
            r == rgb_spec(255, 255, 0),
    {
        rgb(255, 255, 0)
    }

    pub fn magenta() -> (r: ComparableColor)
        ensures
            r == rgb_spec(255, 0, 255),
    {
        rgb(255, 0, 255)
    }

    pub fn cyan() -> (r: ComparableColor)
        ensures
            r == rgb_spec(0, 255, 255),
    {
        rgb(0, 255, 255)
    }

    pub fn white() -> (r: ComparableColor)
        ensures
            r == gray_spec(255),
    {
        gray(255)
    }

    pub fn stone_extreme_shadow() -> (r: ComparableColor)
        ensures
            r == gray_spec(0x55),
    {
        gray(0x55)
    }

    pub fn stone_shadow() -> (r: ComparableColor)
        ensures
            r == gray_spec(0x77),
    {
        gray(0x77)
    }

    pub fn stone() -> (r: ComparableColor)
        ensures
            r == gray_spec(0x88),
    {
        gray(0x88)
    }

    pub fn stone_highlight() -> (r: ComparableColor)
        ensures
            r == gray_spec(0xaa),
    {
        gray(0xaa)
    }

    pub fn stone_extreme_highlight() -> (r: ComparableColor)
        ensures
            r == gray_spec(0xbb),
    {
        gray(0xbb)
    }

    pub fn deepslate_shadow() -> (r: ComparableColor)
        ensures
            r == c_spec(0x2f2f3f),
    {
        c(0x2f2f3f)
    }

    pub fn deepslate() -> (r: ComparableColor)
        ensures
            r == gray_spec(0x55),
    {
        gray(0x55)
    }

    pub fn deepslate_highlight() -> (r: ComparableColor)
        ensures
            r == gray_spec(0x77),
    {
        gray(0x77)
    }

    /// No gray darker than this one is used; black is used instead.
    pub fn darkest_gray() -> (r: ComparableColor)
        ensures
            r == gray_spec(0x22),
    {
        gray(0x22)
    }

    /// No gray lighter than this one is used; white is used instead.
    pub fn lightest_gray() -> (r: ComparableColor)
        ensures
            r == gray_spec(0xdd),
    {
        gray(0xdd)
    }

    /// The color that RGB-mode images use to mark transparent pixels.
    pub fn reserved_for_transparency() -> (r: ComparableColor)
        ensures
            r == c_spec(0xc0ff3e),
    {
        c(0xc0ff3e)
    }

    /// The darkest of the grays that the game tints by biome.
    pub fn extra_dark_biome_colorable() -> (r: ComparableColor)
        ensures
            r == gray_spec(0x77),
    {
        gray(0x77)
    }

    /// A dark gray that the game tints by biome.
    pub fn dark_biome_colorable() -> (r: ComparableColor)
        ensures
            r == gray_spec(0x88),
    {
        gray(0x88)
    }

    /// The middle gray that the game tints by biome.
    pub fn medium_biome_colorable() -> (r: ComparableColor)
        ensures
            r == gray_spec(0x99),
    {
        gray(0x99)
    }

    /// A light gray that the game tints by biome.
    pub fn light_biome_colorable() -> (r: ComparableColor)
        ensures
            r == gray_spec(0xbb),
    {
        gray(0xbb)
    }

    /// The lightest of the grays that the game tints by biome.
    pub fn extra_light_biome_colorable() -> (r: ComparableColor)
        ensures
            r == gray_spec(0xcc),
    {
        gray(0xcc)
    }

    /// This color with its opacity scaled by `quarters` fourths, rounded to the nearest
    /// step with halves rounded up.
    pub open spec fn spec_times_quarters(self, quarters: u8) -> ComparableColor {
        ComparableColor {
            red: self.red,
            green: self.green,
            blue: self.blue,
            alpha: ((self.alpha * quarters + 2) / 4) as u8,
        }
    }

    /// This color with its opacity scaled by `quarters` fourths (see [`Self::spec_times_quarters`]).
    pub fn times_quarters(&self, quarters: u8) -> (r: ComparableColor)
        requires
            quarters <= 4,
        ensures
            r == self.spec_times_quarters(quarters),
            r.alpha <= self.alpha,
    {
        let alpha: u16 = self.alpha as u16;
        let q: u16 = quarters as u16;
        assert(alpha * q <= 1020) by (nonlinear_arith)
            requires
                alpha <= 255,
                q <= 4,
        ;
        let scaled: u16 = (alpha * q + 2) / 4;
        assert(scaled <= 255) by (nonlinear_arith)
            requires
                scaled == (alpha * q + 2) / 4,
                q <= 4,
                alpha <= 255,
        ;
        assert(scaled <= self.alpha) by (nonlinear_arith)
            requires
                scaled == (alpha * q + 2) / 4,
                q <= 4,
                alpha == self.alpha,
        ;
        ComparableColor { red: self.red, green: self.green, blue: self.blue, alpha: scaled as u8 }
    }

    /// Whether the color is a shade of gray (fully transparent colors count as gray).
    pub fn is_gray(&self) -> (r: bool)
        ensures
            r == (self.alpha == 0 || (self.green == self.red && self.blue == self.red)),
    {
        self.alpha == 0 || (self.green == self.red && self.blue == self.red)
    }

    /// Whether the color is either fully transparent or fully opaque.
    pub fn is_binary_alpha(&self) -> (r: bool)
        ensures
            r == (self.alpha == 0 || self.alpha == 255),
    {
        self.alpha == 0 || self.alpha == 255
    }

    /// The sum of the absolute differences of the four channels; 0 when both colors are
    /// fully transparent.
    pub fn abs_diff(&self, other: &ComparableColor) -> (r: u16)
        ensures
            r == (if self.alpha == 0 && other.alpha == 0 {
                0
            } else {
                channel_diff(self.red, other.red) + channel_diff(self.green, other.green)
                    + channel_diff(self.blue, other.blue) + channel_diff(self.alpha, other.alpha)
            }),
    {
        if self.alpha == 0 && other.alpha == 0 {
            0
        } else {
            channel_abs_diff(self.red, other.red) + channel_abs_diff(self.green, other.green)
                + channel_abs_diff(self.blue, other.blue) + channel_abs_diff(
                self.alpha,
                other.alpha,
            )
        }
    }

    /// The bit depth needed to store the color exactly: one bit when it is fully transparent,
    /// else the deepest that any of its four channels needs.
    pub open spec fn spec_bit_depth(self) -> BitDepth {
        if self.alpha == 0 {
            BitDepth::One
        } else {
            channel_depth(self.red).spec_deeper(channel_depth(self.green)).spec_deeper(
                channel_depth(self.blue),
            ).spec_deeper(channel_depth(self.alpha))
        }
    }

    pub fn bit_depth(&self) -> (r: BitDepth)
        ensures
            r == self.spec_bit_depth(),
    {
        if self.alpha == 0 {
            BitDepth::One
        } else {
            bit_depth_for_channel(self.red).deeper(bit_depth_for_channel(self.green)).deeper(
                bit_depth_for_channel(self.blue),
            ).deeper(bit_depth_for_channel(self.alpha))
        }
    }

    /// Each foreground color as it looks over this color. When this color is fully
    /// transparent the foregrounds are returned as they are; a fully transparent foreground
    /// gives this color, an opaque one gives itself, and any other is composed over this color
    /// by palette.
    pub fn under(self, foregrounds: &[ComparableColor]) -> (out: Vec<ComparableColor>)
        ensures
            out@ == spec_under(self, foregrounds@),
    {
        let mut out: Vec<ComparableColor> = Vec::new();
        let mut i: usize = 0;
        while i < foregrounds.len()
            invariant
                i <= foregrounds.len(),
                out@.len() == i,
                forall|j: int|
                    0 <= j < i ==> #[trigger] out@[j] == (if self.alpha == 0 {
                        foregrounds@[j]
                    } else {
                        spec_under_one(self, foregrounds@[j])
                    }),
            decreases foregrounds.len() - i,
        {
            let fg = foregrounds[i];
            let shown = if self.alpha == 0 {
                fg
            } else if fg.alpha == 0 {
                self
            } else if fg.alpha == 255 {
                fg
            } else {
                blend_over(fg, self)
            };
            out.push(shown);
            i = i + 1;
        }
        assert(out@ =~= spec_under(self, foregrounds@));
        out
    }

    /// The text form of the color: `transparent`, or `#` and eight lowercase hexadecimal
    /// digits for red, green, blue and alpha.
    pub fn to_display_string(&self) -> (s: String)
        ensures
            s@ == display_form(*self),
    {
        if self.alpha == 0 {
            proof {
                reveal_strlit("transparent");
            }
            String::from_str("transparent")
        } else {
            proof {
                reveal_strlit("#");
            }
            let mut out = String::from_str("#");
            push_hex_byte(&mut out, self.red);
            push_hex_byte(&mut out, self.green);
            push_hex_byte(&mut out, self.blue);
            push_hex_byte(&mut out, self.alpha);
            assert(out@ =~= hex_form(*self));
            out
        }
    }
}

pub open spec fn rgba_spec(r: u8, g: u8, b: u8, a: u8) -> ComparableColor {
    ComparableColor { red: r, green: g, blue: b, alpha: a }
}

pub open spec fn rgb_spec(r: u8, g: u8, b: u8) -> ComparableColor {
    rgba_spec(r, g, b, 255)
}

pub open spec fn gray_spec(lightness: u8) -> ComparableColor {
    rgb_spec(lightness, lightness, lightness)
}

/// The opaque color whose red, green and blue are the three low bytes of `rgb`, high first.
pub open spec fn c_spec(rgb: u32) -> ComparableColor {
    rgb_spec(((rgb / 0x10000) % 0x100) as u8, ((rgb / 0x100) % 0x100) as u8, (rgb % 0x100) as u8)
}

/// An opaque color.
pub fn rgb(r: u8, g: u8, b: u8) -> (color: ComparableColor)
    ensures
        color == rgb_spec(r, g, b),
{
    ComparableColor { red: r, green: g, blue: b, alpha: 255 }
}

/// A color with the given alpha.
pub fn rgba(r: u8, g: u8, b: u8, a: u8) -> (color: ComparableColor)
    ensures
        color == rgba_spec(r, g, b, a),
{
    ComparableColor { red: r, green: g, blue: b, alpha: a }
}

/// An opaque gray whose three color channels all equal `lightness`.
pub fn gray(lightness: u8) -> (color: ComparableColor)
    ensures
        color == gray_spec(lightness),
{
    rgb(lightness, lightness, lightness)
}

/// An opaque color written as `0xRRGGBB`; the highest byte of `rgb` is ignored.
pub fn c(rgb: u32) -> (color: ComparableColor)
    ensures
        color == c_spec(rgb),
{
    let red = ((rgb >> 16) & 0xff) as u8;
    let green = ((rgb >> 8) & 0xff) as u8;
    let blue = (rgb & 0xff) as u8;
    assert(((rgb >> 16) & 0xff) == (rgb / 0x10000) % 0x100) by (bit_vector);
    assert(((rgb >> 8) & 0xff) == (rgb / 0x100) % 0x100) by (bit_vector);
    assert((rgb & 0xff) == rgb % 0x100) by (bit_vector);
    ComparableColor { red, green, blue, alpha: 255 }
}

/// tiny-skia's product of a color channel and an alpha value, each read as a fraction of 255,
/// rounded to the nearest step.
pub open spec fn premultiply_channel(channel: u8, alpha: u8) -> u8 {
    (((channel * alpha + 128) + (channel * alpha + 128) / 256) / 256) as u8
}

/// The premultiplied (red, green, blue, alpha) form of a color, as tiny-skia's
/// `ColorU8::premultiply` computes it: an opaque color keeps its channels.
pub open spec fn premultiplied_form(color: ComparableColor) -> (u8, u8, u8, u8) {
    if color.alpha == 255 {
        rgba_tuple(color)
    } else {
        (
            premultiply_channel(color.red, color.alpha),
            premultiply_channel(color.green, color.alpha),
            premultiply_channel(color.blue, color.alpha),
            color.alpha,
        )
    }
}

fn premultiply_channel_exec(channel: u8, alpha: u8) -> (r: u8)
    ensures
        r == premultiply_channel(channel, alpha),
{
    assert(channel * alpha <= 255 * 255) by (nonlinear_arith)
        requires
            channel <= 255,
            alpha <= 255,
    ;
    let prod: u32 = (channel as u32) * (alpha as u32) + 128;
    ((prod + prod / 256) / 256) as u8
}

/// The unpremultiplied channels that tiny-skia's `PremultipliedColorU8::demultiply` gives
/// for premultiplied (red, green, blue, alpha) bytes.
pub uninterp spec fn demultiplied(pixel: (u8, u8, u8, u8)) -> (u8, u8, u8, u8);

/// Calls tiny-skia's `PremultipliedColorU8::demultiply` on the four bytes of a premultiplied
/// pixel. The contract names the result (`demultiplied`) and states two facts that the source
/// shows: the alpha value is kept, and an opaque pixel keeps all its channels. The division
/// by alpha that tiny-skia performs in `f64` otherwise is not stated.
#[verifier::external_body]
fn demultiply_bytes(red: u8, green: u8, blue: u8, alpha: u8) -> (out: ComparableColor)
    ensures
        rgba_tuple(out) == demultiplied((red, green, blue, alpha)),
        out.alpha == alpha,
        alpha == 255 ==> rgba_tuple(out) == (red, green, blue, alpha),
{
    let pixel: PremultipliedColorU8 = bytemuck::cast([red, green, blue, alpha]);
    let color = pixel.demultiply();
    ComparableColor { red: color.red(), green: color.green(), blue: color.blue(), alpha: color.alpha() }
}

impl ComparableColor {
    /// The color's premultiplied (red, green, blue, alpha) bytes, as a tiny-skia image stores
    /// them.
    pub fn premultiplied(&self) -> (r: (u8, u8, u8, u8))
        ensures
            r == premultiplied_form(*self),
    {
        if self.alpha == 255 {
            (self.red, self.green, self.blue, self.alpha)
        } else {
            (
                premultiply_channel_exec(self.red, self.alpha),
                premultiply_channel_exec(self.green, self.alpha),
                premultiply_channel_exec(self.blue, self.alpha),
                self.alpha,
            )
        }
    }

    /// The color that the premultiplied pixel (`red`, `green`, `blue`, `alpha`) shows.
    pub fn from_premultiplied(red: u8, green: u8, blue: u8, alpha: u8) -> (r: ComparableColor)
        ensures
            rgba_tuple(r) == demultiplied((red, green, blue, alpha)),
            r.alpha == alpha,
            alpha == 255 ==> r == rgba_spec(red, green, blue, alpha),
    {
        demultiply_bytes(red, green, blue, alpha)
    }
}

impl ComparableColor {
    /// The bytes by which the color is hashed: its alpha, then, when it is not fully
    /// transparent, its red, green and blue. Colors that are the same give the same bytes.
    pub open spec fn spec_hash_bytes(self) -> Seq<u8> {
        if self.alpha == 0 {
            seq![0u8]
        } else {
            seq![self.alpha, self.red, self.green, self.blue]
        }
    }

    /// The bytes by which the color is hashed (see [`Self::spec_hash_bytes`]).
    pub fn hash_bytes(&self) -> (r: Vec<u8>)
        ensures
            r@ == self.spec_hash_bytes(),
            forall|other: ComparableColor| self.same_as(other) ==> r@ == #[trigger] other.spec_hash_bytes(),
    {
        if self.alpha == 0 {
            vec![0u8]
        } else {
            vec![self.alpha, self.red, self.green, self.blue]
        }
    }
}

/// Calls `Hasher::write` on the bytes. Nothing is stated: the hasher's state is not visible.
#[verifier::external_body]
fn hasher_write<H: core::hash::Hasher>(state: &mut H, bytes: &[u8]) {
    state.write(bytes)
}

impl core::hash::Hash for ComparableColor {
    /// Feeds the hasher the color's [`hash_bytes`](ComparableColor::hash_bytes): the same
    /// bytes, in order, that hashing each of them as a `u8` gives a hasher whose `write_u8` is
    /// the default.
    fn hash<H: core::hash::Hasher>(&self, state: &mut H) {
        let bytes = self.hash_bytes();
        hasher_write(state, bytes.as_slice());
    }
}

} // verus!
