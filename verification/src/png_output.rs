use crate::cloneable::CloneableError;
use crate::color::BitDepth;
use crate::png_encode::{encodable, encode_pixels, encoded_pixels};
use crate::png_mode::{ColorMode, ColorModeModel};
use crate::raster::Pixmap;
use oxipng::{ColorType, Deflaters, IndexSet, Options, RawImage, RowFilter};
use vstd::prelude::*;

verus! {

// ---------------------------------------------------------------------------------------------
// Compression settings
// ---------------------------------------------------------------------------------------------

/// The compressor that deflates a PNG file's image data.
#[derive(Copy, Clone, Debug, PartialEq, Eq, Structural)]
pub enum Deflater {
    /// libdeflate at a compression level from 0 to 12.
    Libdeflater { compression: u8 },
    /// Zopfli with a number of iterations (not zero).
    Zopfli { iterations: u8 },
}

/// How a PNG file is optimized.
#[derive(Copy, Clone, Debug, PartialEq, Eq, Structural)]
pub struct PngSettings {
    /// oxipng's optimization preset, from 0 to 6.
    pub preset: u8,
    pub deflater: Deflater,
    /// Whether the color of fully transparent pixels may be changed to compress better.
    pub optimize_alpha: bool,
    /// Whether only the filter that leaves rows as they are is tried, in place of the
    /// preset's filters.
    pub unfiltered_only: bool,
}

/// The settings that oxipng accepts: a libdeflate level of at most 12 and a nonzero number
/// of Zopfli iterations.
pub open spec fn settings_valid(settings: PngSettings) -> bool {
    match settings.deflater {
        Deflater::Libdeflater { compression } => compression <= 12,
        Deflater::Zopfli { iterations } => iterations > 0,
    }
}

/// Whether `needle` occurs in `haystack`.
pub open spec fn contains_text(haystack: Seq<char>, needle: Seq<char>) -> bool {
    exists|i: int| 0 <= i && i + needle.len() <= haystack.len() && #[trigger] haystack.subrange(i, i + needle.len()) == needle
}

/// Whether `needle` occurs in `haystack`.
pub fn text_contains(haystack: &str, needle: &str) -> (r: bool)
    ensures
        r == contains_text(haystack@, needle@),
{
    let h = haystack.unicode_len();
    let n = needle.unicode_len();
    if n > h {
        assert forall|i: int| 0 <= i && i + needle@.len() <= haystack@.len() implies #[trigger] haystack@.subrange(
            i,
            i + needle@.len(),
        ) != needle@ by {}
        return false;
    }
    let mut start: usize = 0;
    while start <= h - n
        invariant
            h == haystack@.len(),
            n == needle@.len(),
            n <= h,
            start <= h - n + 1,
            forall|i: int| 0 <= i < start ==> #[trigger] haystack@.subrange(i, i + needle@.len()) != needle@,
        decreases h - start,
    {
        let mut k: usize = 0;
        let mut same = true;
        while k < n
            invariant
                h == haystack@.len(),
                n == needle@.len(),
                start + n <= h,
                k <= n,
                same == (forall|j: int| 0 <= j < k ==> haystack@[start + j] == needle@[j]),
            decreases n - k,
        {
            if haystack.get_char(start + k) != needle.get_char(k) {
                same = false;
            }
            k = k + 1;
        }
        if same {
            assert(haystack@.subrange(start as int, start + needle@.len()) =~= needle@);
            return true;
        }
        assert(haystack@.subrange(start as int, start + needle@.len()) != needle@) by {
            let j = choose|j: int| 0 <= j < n && haystack@[start + j] != needle@[j];
            assert(haystack@.subrange(start as int, start + needle@.len())[j] == haystack@[start + j]);
        }
        start = start + 1;
    }
    false
}

/// The compression settings for a file: the heaviest that the tile size allows, and for large
/// compass textures only unfiltered rows.
pub open spec fn settings_for(tile_size: u32, file_path: Seq<char>) -> PngSettings {
    PngSettings {
        preset: if tile_size < 1024 {
            6
        } else if tile_size < 2048 {
            5
        } else {
            4
        },
        deflater: if tile_size < 64 {
            Deflater::Zopfli { iterations: 255 }
        } else if tile_size < 128 {
            Deflater::Zopfli { iterations: 100 }
        } else if tile_size < 4096 {
            Deflater::Libdeflater { compression: 12 }
        } else {
            Deflater::Libdeflater { compression: 10 }
        },
        optimize_alpha: true,
        unfiltered_only: tile_size > 2048 && contains_text(file_path, seq!['c', 'o', 'm', 'p', 'a', 's', 's']),
    }
}

/// Whether only unfiltered rows are tried for a file: for compass textures above 2048 pixels
/// a side.
pub fn png_filters_to_try(tile_size: u32, file_path: &str) -> (r: bool)
    ensures
        r == (tile_size > 2048 && contains_text(file_path@, seq!['c', 'o', 'm', 'p', 'a', 's', 's'])),
{
    if tile_size > 2048 {
        let needle = "compass";
        proof {
            reveal_strlit("compass");
        }
        assert(needle@ =~= seq!['c', 'o', 'm', 'p', 'a', 's', 's']);
        text_contains(file_path, needle)
    } else {
        false
    }
}

/// The compression settings for a file (see [`settings_for`]).
pub fn png_settings(tile_size: u32, file_path: &str) -> (r: PngSettings)
    ensures
        r == settings_for(tile_size, file_path@),
{
    let preset: u8 = if tile_size < 1024 {
        6
    } else if tile_size < 2048 {
        5
    } else {
        4
    };
    let deflater = if tile_size < 64 {
        Deflater::Zopfli { iterations: 255 }
    } else if tile_size < 128 {
        Deflater::Zopfli { iterations: 100 }
    } else if tile_size < 4096 {
        Deflater::Libdeflater { compression: 12 }
    } else {
        Deflater::Libdeflater { compression: 10 }
    };
    PngSettings {
        preset,
        deflater,
        optimize_alpha: true,
        unfiltered_only: png_filters_to_try(tile_size, file_path),
    }
}

// ---------------------------------------------------------------------------------------------
// oxipng
// ---------------------------------------------------------------------------------------------

#[verifier::external_type_specification]
#[verifier::external_body]
pub struct ExOxipngOptions(oxipng::Options);

#[verifier::external_type_specification]
#[verifier::external_body]
pub struct ExPngError(oxipng::PngError);

/// The number of samples of one pixel in a storage mode.
pub open spec fn samples_per_pixel(mode: ColorModeModel) -> int {
    match mode {
        ColorModeModel::Grayscale(_) => 1,
        ColorModeModel::Rgb(_) => 3,
        ColorModeModel::Indexed(_) => 1,
        ColorModeModel::GrayscaleAlpha => 2,
        ColorModeModel::Rgba => 4,
    }
}

/// The length of the raw data that oxipng expects for an image with `bits` bits per sample:
/// each row takes whole bytes.
pub open spec fn png_data_len(width: u32, height: u32, mode: ColorModeModel, bits: int) -> int {
    ((bits * samples_per_pixel(mode) * width + 7) / 8) * height
}

/// The PNG file that oxipng makes of raw image data (`RawImage::new`, then
/// `create_optimized_png`) with options built from the settings, or `None` where oxipng
/// refuses the data. oxipng keeps the smallest of its trial encodings, ties broken by a fixed
/// key, and only ever drops a trial that is larger than one already made, so the file depends
/// on these values alone.
pub uninterp spec fn optimized_png(
    data: Seq<u8>,
    width: u32,
    height: u32,
    mode: ColorModeModel,
    bits: u8,
    settings: PngSettings,
) -> Option<Seq<u8>>;

/// Calls oxipng's `Options::from_preset` with the settings' preset, then sets the deflater,
/// whether transparent pixels' colors may change, and, where asked, only the filter that
/// leaves rows as they are (`RowFilter::None`). Nothing is stated of the options, which Verus
/// cannot see. A libdeflate level above 12 would make oxipng panic while it compresses, and
/// zero Zopfli iterations cannot be converted, so both are left out.
#[verifier::external_body]
fn png_options(settings: &PngSettings) -> (r: oxipng::Options)
    requires
        settings_valid(*settings),
{
    let mut options = Options::from_preset(settings.preset);
    options.deflate = match settings.deflater {
        Deflater::Libdeflater { compression } => Deflaters::Libdeflater { compression },
        Deflater::Zopfli { iterations } => Deflaters::Zopfli { iterations: iterations.try_into().unwrap() },
    };
    options.optimize_alpha = settings.optimize_alpha;
    if settings.unfiltered_only {
        options.filter = IndexSet::from([RowFilter::None]);
    }
    options
}

/// oxipng's options together with the settings they were built from. Only
/// [`oxipng_options`] makes one, from its settings by [`png_options`].
pub struct OxipngOptions {
    options: oxipng::Options,
    settings: Ghost<PngSettings>,
}

impl OxipngOptions {
    /// The settings that the options were built from.
    pub closed spec fn settings(self) -> PngSettings {
        self.settings@
    }
}

/// oxipng's options for the settings.
pub fn oxipng_options(settings: &PngSettings) -> (r: OxipngOptions)
    requires
        settings_valid(*settings),
    ensures
        r.settings() == *settings,
{
    OxipngOptions { options: png_options(settings), settings: Ghost(*settings) }
}

/// Calls oxipng's `RawImage::new` on the raw data with the storage mode and `bits` bits per
/// sample, then `create_optimized_png` with the options, which are those built from
/// `options.settings()` (see [`OxipngOptions`]). The result is named [`optimized_png`]; the
/// contract also states what oxipng's source shows of `RawImage::new`: data whose length is
/// not the one expected for the size, mode and depth is refused.
#[verifier::external_body]
fn optimize_png(data: Vec<u8>, width: u32, height: u32, mode: &ColorMode, bits: u8, options: &OxipngOptions) -> (r: Result<Vec<u8>, oxipng::PngError>)
    ensures
        match r {
            Ok(png) => optimized_png(data@, width, height, mode@, bits, options.settings()) == Some(png@),
            Err(_) => optimized_png(data@, width, height, mode@, bits, options.settings()) is None,
        },
        data@.len() != png_data_len(width, height, mode@, bits as int) ==> r is Err,
{
    let color_type = match mode {
        ColorMode::Rgb { transparent_color: t } => ColorType::RGB { transparent_color: t.map(Into::into) },
        ColorMode::Rgba => ColorType::RGBA,
        ColorMode::Grayscale { transparent_shade: t } => ColorType::Grayscale { transparent_shade: *t },
        ColorMode::GrayscaleAlpha => ColorType::GrayscaleAlpha,
        ColorMode::Indexed { palette } => ColorType::Indexed { palette: palette.iter().map(|c| (c.red, c.green, c.blue, c.alpha).into()).collect() },
    };
    RawImage::new(width, height, color_type, oxipng::BitDepth::try_from(bits)?, data)?.create_optimized_png(&options.options)
}

/// Calls `to_string` on an oxipng error, which gives the text of its `Display` form. Nothing
/// is stated of the text.
#[verifier::external_body]
fn png_error_message(error: &oxipng::PngError) -> (r: String) {
    error.to_string()
}

/// The optimized PNG file of an image in the given storage mode and depth: its pixels are
/// encoded as [`encoded_pixels`] describes, and that data, with the image's size, mode, depth
/// and the settings, is what oxipng compresses; the file is oxipng's result
/// ([`optimized_png`]), and where oxipng refuses the data the error carries its message. Raw
/// data whose length is not what oxipng expects for the image's rows is refused.
pub fn png_bytes(image: &Pixmap, mode: &ColorMode, depth: BitDepth, settings: &PngSettings) -> (r: Result<Vec<u8>, CloneableError>)
    requires
        image.wf(),
        encodable(mode@, depth),
        settings_valid(*settings),
    ensures
        match r {
            Ok(png) => optimized_png(
                encoded_pixels(image.data@, (image.width * image.height) as nat, mode@, depth),
                image.width,
                image.height,
                mode@,
                depth.bits() as u8,
                *settings,
            ) == Some(png@),
            Err(_) => optimized_png(
                encoded_pixels(image.data@, (image.width * image.height) as nat, mode@, depth),
                image.width,
                image.height,
                mode@,
                depth.bits() as u8,
                *settings,
            ) is None,
        },
        encoded_pixels(image.data@, (image.width * image.height) as nat, mode@, depth).len() != png_data_len(
            image.width,
            image.height,
            mode@,
            depth.bits(),
        ) ==> r is Err,
{
    let raw = encode_pixels(image, mode, depth);
    let options = oxipng_options(settings);
    match optimize_png(raw, image.width, image.height, mode, depth.bit_count(), &options) {
        Ok(png) => Ok(png),
        Err(error) => Err(CloneableError::from_message(png_error_message(&error))),
    }
}

} // verus!
