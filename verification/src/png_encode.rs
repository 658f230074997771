use crate::bit_pack::{lemma_packed_samples_read_back, pack_samples, packed, radix, unpacked_sample};
use crate::color::{channel_depth, demultiplied, premultiplied_form, BitDepth, ComparableColor};
use crate::png_mode::{channel_to_bit_depth, lemma_channel_round_trip, pow2_minus_one, scaled_channel, ColorMode, ColorModeModel};
use crate::raster::Pixmap;
use std::collections::HashMap;
use vstd::prelude::*;

verus! {

// ---------------------------------------------------------------------------------------------
// The bytes of each storage mode
// ---------------------------------------------------------------------------------------------

/// The premultiplied (red, green, blue, alpha) bytes of pixel `i`.
pub open spec fn pixel_at(data: Seq<u8>, i: int) -> (u8, u8, u8, u8) {
    (data[4 * i], data[4 * i + 1], data[4 * i + 2], data[4 * i + 3])
}

/// The color that a premultiplied pixel shows.
pub open spec fn demultiplied_color(p: (u8, u8, u8, u8)) -> ComparableColor {
    let d = demultiplied(p);
    ComparableColor { red: d.0, green: d.1, blue: d.2, alpha: d.3 }
}

/// The bytes that the first `n` pixels give, each pixel giving `f` of its four bytes.
pub open spec fn pixel_bytes(data: Seq<u8>, n: nat, f: spec_fn((u8, u8, u8, u8)) -> Seq<u8>) -> Seq<u8>
    decreases n,
{
    if n == 0 {
        seq![]
    } else {
        pixel_bytes(data, (n - 1) as nat, f) + f(pixel_at(data, n - 1))
    }
}

/// A pixel in RGB storage: its stored red, green and blue, or the high bytes of the marker
/// color when it is fully transparent and there is a marker.
pub open spec fn rgb_bytes_of(p: (u8, u8, u8, u8), transparent: Option<(u16, u16, u16)>) -> Seq<u8> {
    match transparent {
        Some(t) => if p.3 == 0 {
            seq![(t.0 / 256) as u8, (t.1 / 256) as u8, (t.2 / 256) as u8]
        } else {
            seq![p.0, p.1, p.2]
        },
        None => seq![p.0, p.1, p.2],
    }
}

/// A pixel in RGBA storage: the four channels of the color it shows.
pub open spec fn rgba_bytes_of(p: (u8, u8, u8, u8)) -> Seq<u8> {
    let d = demultiplied(p);
    seq![d.0, d.1, d.2, d.3]
}

/// A pixel in gray-and-alpha storage: the red channel of the color it shows, and its alpha.
pub open spec fn gray_alpha_bytes_of(p: (u8, u8, u8, u8)) -> Seq<u8> {
    seq![demultiplied(p).0, p.3]
}

/// A pixel's grayscale sample: its stored red channel at the depth, or the marker shade when
/// it is fully transparent and there is a marker.
pub open spec fn gray_sample(p: (u8, u8, u8, u8), shade: Option<u16>, depth: BitDepth) -> u16 {
    match shade {
        Some(s) => if p.3 == 0 {
            scaled_channel((s / 256) as u8, depth) as u16
        } else {
            scaled_channel(p.0, depth) as u16
        },
        None => scaled_channel(p.0, depth) as u16,
    }
}

/// The grayscale samples of the first `n` pixels.
pub open spec fn gray_samples(data: Seq<u8>, shade: Option<u16>, depth: BitDepth, n: nat) -> Seq<u16> {
    Seq::new(n, |i: int| gray_sample(pixel_at(data, i), shade, depth))
}

// ---------------------------------------------------------------------------------------------
// Palette indices
// ---------------------------------------------------------------------------------------------

/// The last of the first `n` palette entries whose premultiplied form is the pixel.
pub open spec fn last_match(palette: Seq<ComparableColor>, p: (u8, u8, u8, u8), n: nat) -> Option<nat>
    decreases n,
{
    if n == 0 {
        None
    } else if premultiplied_form(palette[n - 1]) == p {
        Some((n - 1) as nat)
    } else {
        last_match(palette, p, (n - 1) as nat)
    }
}

/// The distance between two colors: the sum of the channel differences, 0 between two fully
/// transparent colors.
pub open spec fn color_diff(a: ComparableColor, b: ComparableColor) -> int {
    if a.alpha == 0 && b.alpha == 0 {
        0
    } else {
        crate::color::channel_diff(a.red, b.red) + crate::color::channel_diff(a.green, b.green)
            + crate::color::channel_diff(a.blue, b.blue) + crate::color::channel_diff(a.alpha, b.alpha)
    }
}

/// The first of the first `n` palette entries that is nearest to `color`.
pub open spec fn nearest_from(palette: Seq<ComparableColor>, color: ComparableColor, n: nat) -> nat
    decreases n,
{
    if n <= 1 {
        0
    } else {
        let best = nearest_from(palette, color, (n - 1) as nat);
        if color_diff(palette[n - 1], color) < color_diff(palette[best as int], color) {
            (n - 1) as nat
        } else {
            best
        }
    }
}

/// The palette index of a premultiplied pixel: the last entry that stores exactly these
/// bytes, else the first entry nearest to the color the pixel shows.
pub open spec fn palette_index(palette: Seq<ComparableColor>, p: (u8, u8, u8, u8)) -> nat {
    match last_match(palette, p, palette.len()) {
        Some(k) => k,
        None => nearest_from(palette, demultiplied_color(p), palette.len()),
    }
}

/// Every pixel up to `i` stores the premultiplied form of the first palette entry.
pub open spec fn leading_run(data: Seq<u8>, palette: Seq<ComparableColor>, i: int) -> bool {
    forall|j: int| 0 <= j <= i ==> #[trigger] pixel_at(data, j) == premultiplied_form(palette[0])
}

/// The index stored for pixel `i`: 0 while the image starts with the first palette entry's
/// bytes, else the pixel's palette index.
pub open spec fn index_sample(data: Seq<u8>, palette: Seq<ComparableColor>, i: int) -> u16 {
    if leading_run(data, palette, i) {
        0
    } else {
        palette_index(palette, pixel_at(data, i)) as u16
    }
}

/// The indices stored for the first `n` pixels.
pub open spec fn index_samples(data: Seq<u8>, palette: Seq<ComparableColor>, n: nat) -> Seq<u16> {
    Seq::new(n, |i: int| index_sample(data, palette, i))
}

// ---------------------------------------------------------------------------------------------
// The whole image
// ---------------------------------------------------------------------------------------------

/// The storage modes and depths that can be written: eight bits for RGB, RGBA and gray with
/// alpha, up to eight for grayscale, and a nonempty palette that the depth can index.
pub open spec fn encodable(mode: ColorModeModel, depth: BitDepth) -> bool {
    match mode {
        ColorModeModel::Grayscale(_) => depth != BitDepth::Sixteen,
        ColorModeModel::Indexed(palette) => depth != BitDepth::Sixteen && 0 < palette.len() <= radix(depth),
        _ => depth == BitDepth::Eight,
    }
}

/// The raw bytes of the first `n` pixels in the given storage, rows not padded apart.
pub open spec fn encoded_pixels(data: Seq<u8>, n: nat, mode: ColorModeModel, depth: BitDepth) -> Seq<u8> {
    match mode {
        ColorModeModel::Rgb(t) => pixel_bytes(data, n, |p: (u8, u8, u8, u8)| rgb_bytes_of(p, t)),
        ColorModeModel::Rgba => pixel_bytes(data, n, |p: (u8, u8, u8, u8)| rgba_bytes_of(p)),
        ColorModeModel::Grayscale(s) => packed(gray_samples(data, s, depth, n), depth),
        ColorModeModel::GrayscaleAlpha => pixel_bytes(data, n, |p: (u8, u8, u8, u8)| gray_alpha_bytes_of(p)),
        ColorModeModel::Indexed(palette) => packed(index_samples(data, palette, n), depth),
    }
}

// ---------------------------------------------------------------------------------------------
// Executable forms
// ---------------------------------------------------------------------------------------------

proof fn lemma_pixel_bytes_step(data: Seq<u8>, n: nat, f: spec_fn((u8, u8, u8, u8)) -> Seq<u8>)
    ensures
        pixel_bytes(data, n + 1, f) == pixel_bytes(data, n, f) + f(pixel_at(data, n as int)),
{
}

/// Where every pixel gives `k` bytes, the first `n` pixels give `k * n` bytes.
proof fn lemma_pixel_bytes_len(data: Seq<u8>, n: nat, f: spec_fn((u8, u8, u8, u8)) -> Seq<u8>, k: nat)
    requires
        forall|p: (u8, u8, u8, u8)| #[trigger] f(p).len() == k,
    ensures
        pixel_bytes(data, n, f).len() == k * n,
    decreases n,
{
    if n > 0 {
        let m = (n - 1) as nat;
        lemma_pixel_bytes_len(data, m, f, k);
        assert(f(pixel_at(data, m as int)).len() == k);
        assert(pixel_bytes(data, n, f) == pixel_bytes(data, m, f) + f(pixel_at(data, m as int)));
        assert(k * n == k * m + k) by (nonlinear_arith)
            requires
                n == m + 1,
        ;
    } else {
        assert(k * n == 0) by (nonlinear_arith)
            requires
                n == 0,
        ;
    }
}

/// Where every pixel gives `k` bytes, pixel `i` gives those from `k * i` on.
proof fn lemma_pixel_bytes_index(data: Seq<u8>, n: nat, f: spec_fn((u8, u8, u8, u8)) -> Seq<u8>, k: nat, i: int, j: int)
    requires
        forall|p: (u8, u8, u8, u8)| #[trigger] f(p).len() == k,
        0 <= i < n,
        0 <= j < k,
    ensures
        pixel_bytes(data, n, f).len() == k * n,
        pixel_bytes(data, n, f)[k * i + j] == f(pixel_at(data, i))[j],
    decreases n,
{
    let m = (n - 1) as nat;
    lemma_pixel_bytes_len(data, n, f, k);
    lemma_pixel_bytes_len(data, m, f, k);
    assert(pixel_bytes(data, n, f) == pixel_bytes(data, m, f) + f(pixel_at(data, m as int)));
    if i < m {
        lemma_pixel_bytes_index(data, m, f, k, i, j);
        assert(k * i + j < k * m) by (nonlinear_arith)
            requires
                0 <= i < m,
                0 <= j < k,
        ;
    } else {
        assert(k * i == k * m);
    }
}

/// In gray-and-alpha storage each pixel gives two bytes: the gray, which is the red channel
/// of the color the pixel shows (the same byte that RGBA storage gives as its red), and the
/// pixel's opacity.
pub proof fn lemma_gray_alpha_pixels_read_back(data: Seq<u8>, n: nat, i: int)
    requires
        0 <= i < n,
    ensures
        encoded_pixels(data, n, ColorModeModel::GrayscaleAlpha, BitDepth::Eight).len() == 2 * n,
        encoded_pixels(data, n, ColorModeModel::GrayscaleAlpha, BitDepth::Eight)[2 * i] == demultiplied_color(
            pixel_at(data, i),
        ).red,
        encoded_pixels(data, n, ColorModeModel::GrayscaleAlpha, BitDepth::Eight)[2 * i + 1] == pixel_at(data, i).3,
        encoded_pixels(data, n, ColorModeModel::GrayscaleAlpha, BitDepth::Eight)[2 * i] == encoded_pixels(
            data,
            n,
            ColorModeModel::Rgba,
            BitDepth::Eight,
        )[4 * i],
{
    let ga = |p: (u8, u8, u8, u8)| gray_alpha_bytes_of(p);
    let rgba = |p: (u8, u8, u8, u8)| rgba_bytes_of(p);
    lemma_pixel_bytes_index(data, n, ga, 2, i, 0);
    lemma_pixel_bytes_index(data, n, ga, 2, i, 1);
    lemma_pixel_bytes_index(data, n, rgba, 4, i, 0);
}

/// In RGBA storage each pixel gives four bytes: the red, green, blue and alpha of the color it
/// shows.
pub proof fn lemma_rgba_pixels_read_back(data: Seq<u8>, n: nat, i: int)
    requires
        0 <= i < n,
    ensures
        encoded_pixels(data, n, ColorModeModel::Rgba, BitDepth::Eight).len() == 4 * n,
        encoded_pixels(data, n, ColorModeModel::Rgba, BitDepth::Eight)[4 * i] == demultiplied_color(pixel_at(data, i)).red,
        encoded_pixels(data, n, ColorModeModel::Rgba, BitDepth::Eight)[4 * i + 1] == demultiplied_color(pixel_at(data, i)).green,
        encoded_pixels(data, n, ColorModeModel::Rgba, BitDepth::Eight)[4 * i + 2] == demultiplied_color(pixel_at(data, i)).blue,
        encoded_pixels(data, n, ColorModeModel::Rgba, BitDepth::Eight)[4 * i + 3] == demultiplied_color(pixel_at(data, i)).alpha,
{
    let rgba = |p: (u8, u8, u8, u8)| rgba_bytes_of(p);
    lemma_pixel_bytes_index(data, n, rgba, 4, i, 0);
    lemma_pixel_bytes_index(data, n, rgba, 4, i, 1);
    lemma_pixel_bytes_index(data, n, rgba, 4, i, 2);
    lemma_pixel_bytes_index(data, n, rgba, 4, i, 3);
}

/// In RGB storage each pixel gives three bytes: its red, green and blue, except that a fully
/// transparent pixel gives the high bytes of the marker color where there is one.
pub proof fn lemma_rgb_pixels_read_back(data: Seq<u8>, n: nat, marker: Option<(u16, u16, u16)>, i: int)
    requires
        0 <= i < n,
    ensures
        encoded_pixels(data, n, ColorModeModel::Rgb(marker), BitDepth::Eight).len() == 3 * n,
        marker is Some && pixel_at(data, i).3 == 0 ==> encoded_pixels(data, n, ColorModeModel::Rgb(marker), BitDepth::Eight).subrange(3 * i, 3 * i + 3)
            == seq![(marker.unwrap().0 / 256) as u8, (marker.unwrap().1 / 256) as u8, (marker.unwrap().2 / 256) as u8],
        !(marker is Some && pixel_at(data, i).3 == 0) ==> encoded_pixels(data, n, ColorModeModel::Rgb(marker), BitDepth::Eight).subrange(3 * i, 3 * i + 3)
            == seq![pixel_at(data, i).0, pixel_at(data, i).1, pixel_at(data, i).2],
{
    let rgb = |p: (u8, u8, u8, u8)| rgb_bytes_of(p, marker);
    lemma_pixel_bytes_index(data, n, rgb, 3, i, 0);
    lemma_pixel_bytes_index(data, n, rgb, 3, i, 1);
    lemma_pixel_bytes_index(data, n, rgb, 3, i, 2);
    let bytes = encoded_pixels(data, n, ColorModeModel::Rgb(marker), BitDepth::Eight);
    assert(bytes == pixel_bytes(data, n, rgb));
    assert(bytes.subrange(3 * i, 3 * i + 3) =~= rgb(pixel_at(data, i)));
}

fn demultiply_at(data: &Vec<u8>, i: usize) -> (r: ComparableColor)
    requires
        4 * i + 3 < data@.len(),
        data@.len() <= usize::MAX,
    ensures
        r == demultiplied_color(pixel_at(data@, i as int)),
{
    ComparableColor::from_premultiplied(data[4 * i], data[4 * i + 1], data[4 * i + 2], data[4 * i + 3])
}

fn rgb_pixels(data: &Vec<u8>, n: usize, transparent: Option<(u16, u16, u16)>) -> (out: Vec<u8>)
    requires
        data@.len() == 4 * n,
        4 * n <= usize::MAX,
    ensures
        out@ == pixel_bytes(data@, n as nat, |p: (u8, u8, u8, u8)| rgb_bytes_of(p, transparent)),
{
    let ghost f = |p: (u8, u8, u8, u8)| rgb_bytes_of(p, transparent);
    let mut out: Vec<u8> = Vec::new();
    let mut i: usize = 0;
    while i < n
        invariant
            data@.len() == 4 * n,
            4 * n <= usize::MAX,
            i <= n,
            f == |p: (u8, u8, u8, u8)| rgb_bytes_of(p, transparent),
            out@ == pixel_bytes(data@, i as nat, f),
        decreases n - i,
    {
        proof {
            lemma_pixel_bytes_step(data@, i as nat, f);
        }
        let alpha = data[4 * i + 3];
        match transparent {
            Some(t) if alpha == 0 => {
                out.push((t.0 / 256) as u8);
                out.push((t.1 / 256) as u8);
                out.push((t.2 / 256) as u8);
            },
            _ => {
                out.push(data[4 * i]);
                out.push(data[4 * i + 1]);
                out.push(data[4 * i + 2]);
            },
        }
        assert(out@ =~= pixel_bytes(data@, (i + 1) as nat, f));
        i = i + 1;
    }
    out
}

fn rgba_pixels(data: &Vec<u8>, n: usize) -> (out: Vec<u8>)
    requires
        data@.len() == 4 * n,
        4 * n <= usize::MAX,
    ensures
        out@ == pixel_bytes(data@, n as nat, |p: (u8, u8, u8, u8)| rgba_bytes_of(p)),
{
    let ghost f = |p: (u8, u8, u8, u8)| rgba_bytes_of(p);
    let mut out: Vec<u8> = Vec::new();
    let mut i: usize = 0;
    while i < n
        invariant
            data@.len() == 4 * n,
            4 * n <= usize::MAX,
            i <= n,
            f == |p: (u8, u8, u8, u8)| rgba_bytes_of(p),
            out@ == pixel_bytes(data@, i as nat, f),
        decreases n - i,
    {
        proof {
            lemma_pixel_bytes_step(data@, i as nat, f);
        }
        let color = demultiply_at(data, i);
        out.push(color.red);
        out.push(color.green);
        out.push(color.blue);
        out.push(color.alpha);
        assert(out@ =~= pixel_bytes(data@, (i + 1) as nat, f));
        i = i + 1;
    }
    out
}

fn gray_alpha_pixels(data: &Vec<u8>, n: usize) -> (out: Vec<u8>)
    requires
        data@.len() == 4 * n,
        4 * n <= usize::MAX,
    ensures
        out@ == pixel_bytes(data@, n as nat, |p: (u8, u8, u8, u8)| gray_alpha_bytes_of(p)),
{
    let ghost f = |p: (u8, u8, u8, u8)| gray_alpha_bytes_of(p);
    let mut out: Vec<u8> = Vec::new();
    let mut i: usize = 0;
    while i < n
        invariant
            data@.len() == 4 * n,
            4 * n <= usize::MAX,
            i <= n,
            f == |p: (u8, u8, u8, u8)| gray_alpha_bytes_of(p),
            out@ == pixel_bytes(data@, i as nat, f),
        decreases n - i,
    {
        proof {
            lemma_pixel_bytes_step(data@, i as nat, f);
        }
        let color = demultiply_at(data, i);
        out.push(color.red);
        out.push(data[4 * i + 3]);
        assert(out@ =~= pixel_bytes(data@, (i + 1) as nat, f));
        i = i + 1;
    }
    out
}

proof fn lemma_scaled_channel_fits(input: u8, depth: BitDepth)
    requires
        depth != BitDepth::Sixteen,
    ensures
        0 <= scaled_channel(input, depth) < radix(depth),
{
}

/// In grayscale storage, a pixel other than a transparent one under a marker shade, whose
/// stored gray level needs no more bits than the depth has, reads back as that level once the
/// sample is scaled up to eight bits.
pub proof fn lemma_gray_pixels_read_back(data: Seq<u8>, n: nat, shade: Option<u16>, depth: BitDepth, i: int)
    requires
        depth != BitDepth::Sixteen,
        0 <= i < n,
        shade is None || pixel_at(data, i).3 != 0,
        channel_depth(pixel_at(data, i).0).bits() <= depth.bits(),
    ensures
        unpacked_sample(encoded_pixels(data, n, ColorModeModel::Grayscale(shade), depth), depth, i) * (255int
            / pow2_minus_one(depth)) == pixel_at(data, i).0 as int,
{
    let samples = gray_samples(data, shade, depth, n);
    assert forall|q: int| 0 <= q < samples.len() implies #[trigger] samples[q] < radix(depth) by {
        let p = pixel_at(data, q);
        lemma_scaled_channel_fits(p.0, depth);
        match shade {
            Some(m) => lemma_scaled_channel_fits((m / 256) as u8, depth),
            None => {},
        }
    }
    lemma_packed_samples_read_back(samples, depth, i);
    lemma_scaled_channel_fits(pixel_at(data, i).0, depth);
    assert(samples[i] == scaled_channel(pixel_at(data, i).0, depth));
    lemma_channel_round_trip(pixel_at(data, i).0, depth);
}

fn gray_sample_values(data: &Vec<u8>, n: usize, shade: Option<u16>, depth: BitDepth) -> (out: Vec<u16>)
    requires
        data@.len() == 4 * n,
        4 * n <= usize::MAX,
        depth != BitDepth::Sixteen,
    ensures
        out@ == gray_samples(data@, shade, depth, n as nat),
        forall|i: int| 0 <= i < out@.len() ==> (#[trigger] out@[i]) < radix(depth),
{
    let mut out: Vec<u16> = Vec::new();
    let mut i: usize = 0;
    while i < n
        invariant
            data@.len() == 4 * n,
            4 * n <= usize::MAX,
            depth != BitDepth::Sixteen,
            i <= n,
            out@.len() == i,
            forall|j: int| 0 <= j < i ==> #[trigger] out@[j] == gray_sample(pixel_at(data@, j), shade, depth),
            forall|j: int| 0 <= j < i ==> (#[trigger] out@[j]) < radix(depth),
        decreases n - i,
    {
        let alpha = data[4 * i + 3];
        let sample = match shade {
            Some(s) if alpha == 0 => {
                proof {
                    lemma_scaled_channel_fits((s / 256) as u8, depth);
                }
                channel_to_bit_depth((s / 256) as u8, depth)
            },
            _ => {
                proof {
                    lemma_scaled_channel_fits(data@[4 * i as int], depth);
                }
                channel_to_bit_depth(data[4 * i], depth)
            },
        };
        out.push(sample);
        i = i + 1;
    }
    assert(out@ =~= gray_samples(data@, shade, depth, n as nat));
    out
}

/// A premultiplied pixel as one number, red in the highest byte.
pub open spec fn pixel_key(p: (u8, u8, u8, u8)) -> u32 {
    (p.0 * 0x1000000 + p.1 * 0x10000 + p.2 * 0x100 + p.3) as u32
}

proof fn lemma_pixel_key_injective(a: (u8, u8, u8, u8), b: (u8, u8, u8, u8))
    requires
        pixel_key(a) == pixel_key(b),
    ensures
        a == b,
{
    let (a0, a1, a2, a3) = a;
    let (b0, b1, b2, b3) = b;
    assert(a0 * 0x1000000 + a1 * 0x10000 + a2 * 0x100 + a3 <= u32::MAX);
    assert(b0 * 0x1000000 + b1 * 0x10000 + b2 * 0x100 + b3 <= u32::MAX);
    assert(a0 == b0 && a1 == b1 && a2 == b2 && a3 == b3) by (nonlinear_arith)
        requires
            a0 * 0x1000000 + a1 * 0x10000 + a2 * 0x100 + a3 == b0 * 0x1000000 + b1 * 0x10000 + b2
                * 0x100 + b3,
            0 <= a0 < 256,
            0 <= a1 < 256,
            0 <= a2 < 256,
            0 <= a3 < 256,
            0 <= b0 < 256,
            0 <= b1 < 256,
            0 <= b2 < 256,
            0 <= b3 < 256,
    ;
}

fn key_of(p: (u8, u8, u8, u8)) -> (k: u32)
    ensures
        k == pixel_key(p),
{
    (p.0 as u32) * 0x1000000 + (p.1 as u32) * 0x10000 + (p.2 as u32) * 0x100 + (p.3 as u32)
}

fn nearest_palette_index(palette: &Vec<ComparableColor>, color: ComparableColor) -> (r: usize)
    requires
        palette@.len() >= 1,
    ensures
        r == nearest_from(palette@, color, palette@.len()),
        r < palette@.len(),
{
    let mut best: usize = 0;
    let mut best_diff: u16 = palette[0].abs_diff(&color);
    let mut i: usize = 1;
    while i < palette.len()
        invariant
            1 <= i <= palette@.len(),
            best < i,
            best == nearest_from(palette@, color, i as nat),
            best_diff == color_diff(palette@[best as int], color),
        decreases palette@.len() - i,
    {
        let diff = palette[i].abs_diff(&color);
        if diff < best_diff {
            best = i;
            best_diff = diff;
        }
        i = i + 1;
    }
    best
}

proof fn lemma_last_match_in_range(palette: Seq<ComparableColor>, p: (u8, u8, u8, u8), n: nat)
    ensures
        last_match(palette, p, n) matches Some(k) ==> k < n && premultiplied_form(palette[k as int]) == p,
    decreases n,
{
    if n > 0 {
        lemma_last_match_in_range(palette, p, (n - 1) as nat);
    }
}

proof fn lemma_nearest_in_range(palette: Seq<ComparableColor>, color: ComparableColor, n: nat)
    requires
        n >= 1,
    ensures
        nearest_from(palette, color, n) < n,
    decreases n,
{
    if n > 1 {
        lemma_nearest_in_range(palette, color, (n - 1) as nat);
    }
}

proof fn lemma_palette_index_in_range(palette: Seq<ComparableColor>, p: (u8, u8, u8, u8))
    requires
        palette.len() >= 1,
    ensures
        palette_index(palette, p) < palette.len(),
{
    lemma_last_match_in_range(palette, p, palette.len());
    lemma_nearest_in_range(palette, demultiplied_color(p), palette.len());
}

proof fn lemma_last_match_found(palette: Seq<ComparableColor>, p: (u8, u8, u8, u8), n: nat, j: int)
    requires
        0 <= j < n,
        premultiplied_form(palette[j]) == p,
    ensures
        last_match(palette, p, n) is Some,
    decreases n,
{
    if j < n - 1 && premultiplied_form(palette[n - 1]) != p {
        lemma_last_match_found(palette, p, (n - 1) as nat, j);
    }
}

/// In indexed storage, the index read back for a pixel whose premultiplied bytes some palette
/// entry stores exactly names a palette entry that stores those bytes.
pub proof fn lemma_indexed_pixels_read_back(
    data: Seq<u8>,
    n: nat,
    palette: Seq<ComparableColor>,
    depth: BitDepth,
    i: int,
    j: int,
)
    requires
        encodable(ColorModeModel::Indexed(palette), depth),
        0 <= i < n,
        0 <= j < palette.len(),
        premultiplied_form(palette[j]) == pixel_at(data, i),
    ensures
        ({
            let k = unpacked_sample(encoded_pixels(data, n, ColorModeModel::Indexed(palette), depth), depth, i);
            0 <= k < palette.len() && premultiplied_form(palette[k]) == pixel_at(data, i)
        }),
{
    let samples = index_samples(data, palette, n);
    assert forall|q: int| 0 <= q < samples.len() implies #[trigger] samples[q] < radix(depth) by {
        lemma_palette_index_in_range(palette, pixel_at(data, q));
        assert(samples[q] == index_sample(data, palette, q));
    }
    lemma_packed_samples_read_back(samples, depth, i);
    assert(samples[i] == index_sample(data, palette, i));
    if leading_run(data, palette, i) {
        assert(pixel_at(data, i) == premultiplied_form(palette[0]));
    } else {
        lemma_last_match_found(palette, pixel_at(data, i), palette.len(), j);
        lemma_last_match_in_range(palette, pixel_at(data, i), palette.len());
        lemma_palette_index_in_range(palette, pixel_at(data, i));
    }
}

fn index_sample_values(data: &Vec<u8>, n: usize, palette: &Vec<ComparableColor>) -> (out: Vec<u16>)
    requires
        data@.len() == 4 * n,
        4 * n <= usize::MAX,
        1 <= palette@.len() <= 65536,
    ensures
        out@ == index_samples(data@, palette@, n as nat),
        forall|i: int| 0 <= i < out@.len() ==> (#[trigger] out@[i]) < palette@.len(),
{
    broadcast use vstd::std_specs::hash::group_hash_axioms;

    let len = palette.len();
    let mut table: HashMap<u32, usize> = HashMap::new();
    let mut k: usize = 0;
    while k < len
        invariant
            len == palette@.len(),
            k <= len,
            forall|q: (u8, u8, u8, u8)|
                #![trigger last_match(palette@, q, k as nat)]
                table@.contains_key(pixel_key(q)) <==> last_match(palette@, q, k as nat) is Some,
            forall|q: (u8, u8, u8, u8)|
                #![trigger last_match(palette@, q, k as nat)]
                table@.contains_key(pixel_key(q)) ==> table@[pixel_key(q)] == last_match(palette@, q, k as nat)->0,
        decreases len - k,
    {
        let entry = palette[k].premultiplied();
        let key = key_of(entry);
        let ghost before = table@;
        table.insert(key, k);
        proof {
            assert forall|q: (u8, u8, u8, u8)|
                #![trigger last_match(palette@, q, (k + 1) as nat)]
                (table@.contains_key(pixel_key(q)) <==> last_match(palette@, q, (k + 1) as nat) is Some)
                && (table@.contains_key(pixel_key(q)) ==> table@[pixel_key(q)] == last_match(palette@, q, (k + 1) as nat)->0) by {
                assert(last_match(palette@, q, (k + 1) as nat) == if premultiplied_form(palette@[k as int]) == q {
                    Some(k as nat)
                } else {
                    last_match(palette@, q, k as nat)
                });
                if pixel_key(q) == key {
                    lemma_pixel_key_injective(q, entry);
                } else {
                    assert(q != entry);
                    assert(before.contains_key(pixel_key(q)) <==> last_match(palette@, q, k as nat) is Some);
                }
            }
        }
        k = k + 1;
    }
    let first = palette[0].premultiplied();
    let mut prev_pixel: (u8, u8, u8, u8) = first;
    let mut prev_index: usize = 0;
    let mut out: Vec<u16> = Vec::new();
    let mut i: usize = 0;
    while i < n
        invariant
            data@.len() == 4 * n,
            4 * n <= usize::MAX,
            len == palette@.len(),
            1 <= len <= 65536,
            first == premultiplied_form(palette@[0]),
            i <= n,
            out@.len() == i,
            forall|j: int| 0 <= j < i ==> #[trigger] out@[j] == index_sample(data@, palette@, j),
            forall|j: int| 0 <= j < i ==> (#[trigger] out@[j]) < len,
            forall|q: (u8, u8, u8, u8)|
                #![trigger table@.contains_key(pixel_key(q))]
                table@.contains_key(pixel_key(q)) ==> table@[pixel_key(q)] == palette_index(palette@, q),
            forall|q: (u8, u8, u8, u8)|
                #![trigger last_match(palette@, q, len as nat)]
                last_match(palette@, q, len as nat) is Some ==> table@.contains_key(pixel_key(q)),
            i == 0 ==> prev_pixel == first && prev_index == 0,
            i > 0 ==> prev_pixel == pixel_at(data@, i - 1) && prev_index == index_sample(data@, palette@, i - 1),
            prev_index < len,
        decreases n - i,
    {
        let pixel = (data[4 * i], data[4 * i + 1], data[4 * i + 2], data[4 * i + 3]);
        assert(pixel == pixel_at(data@, i as int));
        let index: usize;
        if pixel.0 == prev_pixel.0 && pixel.1 == prev_pixel.1 && pixel.2 == prev_pixel.2 && pixel.3 == prev_pixel.3 {
            index = prev_index;
            proof {
                if i == 0 {
                    assert(leading_run(data@, palette@, 0));
                } else if leading_run(data@, palette@, i - 1) {
                    assert(pixel_at(data@, i - 1) == first);
                    assert(leading_run(data@, palette@, i as int)) by {
                        assert forall|j: int| 0 <= j <= i implies #[trigger] pixel_at(data@, j) == premultiplied_form(palette@[0]) by {
                            if j < i {
                                assert(leading_run(data@, palette@, i - 1));
                            }
                        }
                    }
                } else {
                    assert(!leading_run(data@, palette@, i as int)) by {
                        if leading_run(data@, palette@, i as int) {
                            assert forall|j: int| 0 <= j <= i - 1 implies #[trigger] pixel_at(data@, j) == premultiplied_form(palette@[0]) by {
                                assert(pixel_at(data@, j) == premultiplied_form(palette@[0]));
                            }
                        }
                    }
                }
            }
        } else {
            let key = key_of(pixel);
            let found = table.get(&key);
            let looked_up: usize = match found {
                Some(ix) => *ix,
                None => {
                    proof {
                        lemma_last_match_in_range(palette@, pixel, len as nat);
                    }
                    let ix = nearest_palette_index(palette, demultiply_pixel(pixel));
                    table.insert(key, ix);
                    proof {
                        assert forall|q: (u8, u8, u8, u8)|
                            #![trigger table@.contains_key(pixel_key(q))]
                            table@.contains_key(pixel_key(q)) implies table@[pixel_key(q)] == palette_index(palette@, q) by {
                            if pixel_key(q) == key {
                                lemma_pixel_key_injective(q, pixel);
                            }
                        }
                    }
                    ix
                },
            };
            proof {
                lemma_palette_index_in_range(palette@, pixel);
                if i > 0 && leading_run(data@, palette@, i - 1) {
                    assert(pixel_at(data@, i - 1) == first);
                }
                assert(!leading_run(data@, palette@, i as int));
            }
            index = looked_up;
            prev_pixel = pixel;
            prev_index = index;
        }
        assert(index == index_sample(data@, palette@, i as int));
        out.push(index as u16);
        i = i + 1;
    }
    assert(out@ =~= index_samples(data@, palette@, n as nat));
    out
}

fn demultiply_pixel(p: (u8, u8, u8, u8)) -> (r: ComparableColor)
    ensures
        r == demultiplied_color(p),
{
    ComparableColor::from_premultiplied(p.0, p.1, p.2, p.3)
}

/// Whether the storage mode and depth can be written (see [`encodable`]).
pub fn is_encodable(mode: &ColorMode, depth: BitDepth) -> (r: bool)
    ensures
        r == encodable(mode@, depth),
{
    match mode {
        ColorMode::Grayscale { .. } => depth != BitDepth::Sixteen,
        ColorMode::Indexed { palette } => {
            let limit: usize = match depth {
                BitDepth::One => 2,
                BitDepth::Two => 4,
                BitDepth::Four => 16,
                BitDepth::Eight => 256,
                BitDepth::Sixteen => 0,
            };
            depth != BitDepth::Sixteen && palette.len() > 0 && palette.len() <= limit
        },
        _ => depth == BitDepth::Eight,
    }
}

/// The raw bytes of an image in the given storage mode and depth, as a PNG encoder reads
/// them: pixels in order, samples narrower than a byte packed together, with no padding
/// between rows.
pub fn encode_pixels(image: &Pixmap, mode: &ColorMode, depth: BitDepth) -> (out: Vec<u8>)
    requires
        image.wf(),
        encodable(mode@, depth),
    ensures
        out@ == encoded_pixels(image.data@, (image.width * image.height) as nat, mode@, depth),
{
    let n = image.data.len() / 4;
    assert(n == image.width * image.height);
    match mode {
        ColorMode::Rgb { transparent_color } => rgb_pixels(&image.data, n, *transparent_color),
        ColorMode::Rgba => rgba_pixels(&image.data, n),
        ColorMode::Grayscale { transparent_shade } => {
            let samples = gray_sample_values(&image.data, n, *transparent_shade, depth);
            pack_samples(&samples, depth)
        },
        ColorMode::GrayscaleAlpha => gray_alpha_pixels(&image.data, n),
        ColorMode::Indexed { palette } => {
            let samples = index_sample_values(&image.data, n, palette);
            pack_samples(&samples, depth)
        },
    }
}

} // verus!
