use ochd::bit_pack::pack_samples;
use ochd::color::{gray, rgb, rgba, BitDepth, ComparableColor};
use ochd::png_encode::encode_pixels;
use ochd::png_mode::ColorMode;
use ochd::png_output::{png_bytes, png_filters_to_try, png_settings, text_contains, Deflater, PngSettings};
use ochd::raster::Pixmap;

fn image(width: u32, height: u32, pixels: &[(u8, u8, u8, u8)]) -> Pixmap {
    let mut data = Vec::new();
    for &(r, g, b, a) in pixels {
        data.extend_from_slice(&[r, g, b, a]);
    }
    Pixmap { width, height, data }
}

#[test]
fn packs_samples_most_significant_first() {
    assert_eq!(pack_samples(&vec![1, 0, 1, 1, 0, 0, 0, 1, 1], BitDepth::One), vec![0b1011_0001, 0b1000_0000]);
    assert_eq!(pack_samples(&vec![3, 0, 2], BitDepth::Two), vec![0b1100_1000]);
    assert_eq!(pack_samples(&vec![0xa, 0xb, 0xc], BitDepth::Four), vec![0xab, 0xc0]);
    assert_eq!(pack_samples(&vec![7, 200], BitDepth::Eight), vec![7, 200]);
    assert_eq!(pack_samples(&vec![], BitDepth::One), Vec::<u8>::new());
}

#[test]
fn rgb_mode_writes_stored_channels_and_marks_transparency() {
    let img = image(2, 1, &[(1, 2, 3, 255), (0, 0, 0, 0)]);
    let plain = encode_pixels(&img, &ColorMode::Rgb { transparent_color: None }, BitDepth::Eight);
    assert_eq!(plain, vec![1, 2, 3, 0, 0, 0]);
    let marked = encode_pixels(
        &img,
        &ColorMode::Rgb { transparent_color: Some((0xc0c0, 0xffff, 0x3e3e)) },
        BitDepth::Eight,
    );
    assert_eq!(marked, vec![1, 2, 3, 0xc0, 0xff, 0x3e]);
}

#[test]
fn rgba_and_gray_alpha_modes_write_unpremultiplied_colors() {
    let img = image(2, 1, &[(10, 20, 30, 255), (64, 64, 64, 128)]);
    let rgba_bytes = encode_pixels(&img, &ColorMode::Rgba, BitDepth::Eight);
    assert_eq!(&rgba_bytes[0..4], &[10, 20, 30, 255]);
    assert_eq!(rgba_bytes[7], 128);
    assert!(rgba_bytes[4].abs_diff(128) <= 1);
    let gray_alpha = encode_pixels(&img, &ColorMode::GrayscaleAlpha, BitDepth::Eight);
    assert_eq!(gray_alpha.len(), 4);
    assert_eq!(gray_alpha[0], 10);
    assert_eq!(gray_alpha[1], 255);
    assert_eq!(gray_alpha[3], 128);
}

#[test]
fn grayscale_mode_scales_and_packs() {
    let img = image(4, 1, &[(0, 0, 0, 255), (0x55, 0x55, 0x55, 255), (0xaa, 0xaa, 0xaa, 255), (0, 0, 0, 0)]);
    let two_bits = encode_pixels(&img, &ColorMode::Grayscale { transparent_shade: Some(0xffff) }, BitDepth::Two);
    assert_eq!(two_bits, vec![0b00_01_10_11]);
    let eight_bits = encode_pixels(&img, &ColorMode::Grayscale { transparent_shade: None }, BitDepth::Eight);
    assert_eq!(eight_bits, vec![0, 0x55, 0xaa, 0]);
}

#[test]
fn indexed_mode_finds_exact_and_nearest_entries() {
    let palette = vec![ComparableColor::transparent(), gray(0), rgb(255, 0, 0)];
    let img = image(4, 1, &[(0, 0, 0, 0), (250, 0, 0, 255), (0, 0, 0, 255), (0, 0, 0, 0)]);
    let bytes = encode_pixels(&img, &ColorMode::Indexed { palette }, BitDepth::Two);
    assert_eq!(bytes, vec![0b00_10_01_00]);
}

#[test]
fn indexed_mode_keeps_index_zero_while_the_image_starts_with_the_first_entry() {
    // Two palette entries store the same premultiplied bytes; lookups give the last one,
    // but the leading run of the first entry's bytes keeps index 0.
    let palette = vec![rgba(10, 0, 0, 1), rgba(20, 0, 0, 1), gray(0)];
    let first = palette[0].premultiplied();
    let img = image(4, 1, &[first, first, (0, 0, 0, 255), first]);
    let bytes = encode_pixels(&img, &ColorMode::Indexed { palette }, BitDepth::Two);
    assert_eq!(bytes, vec![0b00_00_10_01]);
}

#[test]
fn text_search() {
    assert!(text_contains("item/compass_07", "compass"));
    assert!(!text_contains("item/clock_07", "compass"));
    assert!(text_contains("abc", ""));
    assert!(!text_contains("ab", "abc"));
}

#[test]
fn png_settings_follow_the_tile_size() {
    let small = png_settings(32, "block/stone");
    assert_eq!(small, PngSettings { preset: 6, deflater: Deflater::Zopfli { iterations: 255 }, optimize_alpha: true, unfiltered_only: false });
    assert_eq!(png_settings(64, "x").deflater, Deflater::Zopfli { iterations: 100 });
    assert_eq!(png_settings(1024, "x").preset, 5);
    assert_eq!(png_settings(2048, "x").deflater, Deflater::Libdeflater { compression: 12 });
    assert_eq!(png_settings(4096, "item/compass_00").deflater, Deflater::Libdeflater { compression: 10 });
    assert!(png_settings(4096, "item/compass_00").unfiltered_only);
    assert!(!png_filters_to_try(2048, "item/compass_00"));
    assert!(png_filters_to_try(4096, "item/recovery_compass_31"));
}

#[test]
fn png_bytes_make_a_png_file() {
    let img = image(8, 1, &[(0, 0, 0, 255); 8]);
    let settings = PngSettings { preset: 0, deflater: Deflater::Libdeflater { compression: 1 }, optimize_alpha: false, unfiltered_only: true };
    let png = png_bytes(&img, &ColorMode::Grayscale { transparent_shade: None }, BitDepth::One, &settings).unwrap();
    assert_eq!(&png[0..8], &[0x89, b'P', b'N', b'G', 0x0d, 0x0a, 0x1a, 0x0a]);
}

#[test]
fn png_bytes_refuse_rows_that_do_not_fill_bytes() {
    let img = image(3, 3, &[(0, 0, 0, 255); 9]);
    let settings = PngSettings { preset: 0, deflater: Deflater::Libdeflater { compression: 1 }, optimize_alpha: false, unfiltered_only: false };
    let result = png_bytes(&img, &ColorMode::Grayscale { transparent_shade: None }, BitDepth::One, &settings);
    assert!(result.is_err());
    assert!(!result.unwrap_err().to_display_string().is_empty());
}

#[test]
fn packed_samples_read_back() {
    for (depth, bits) in [(BitDepth::One, 1u32), (BitDepth::Two, 2), (BitDepth::Four, 4), (BitDepth::Eight, 8)] {
        let per = 8 / bits as usize;
        let levels = 1u32 << bits;
        for len in 0..20usize {
            let values: Vec<u16> = (0..len).map(|i| ((i as u32 * 7 + 3) % levels) as u16).collect();
            let bytes = pack_samples(&values, depth);
            assert_eq!(bytes.len(), (len + per - 1) / per);
            for (i, value) in values.iter().enumerate() {
                let shift = bits * (per - 1 - i % per) as u32;
                let read = (bytes[i / per] as u32 >> shift) % levels;
                assert_eq!(read, *value as u32, "depth {} sample {}", bits, i);
            }
        }
    }
}

#[test]
fn indexed_pixels_read_back_their_palette_entries() {
    let palette = vec![
        ComparableColor::transparent(),
        rgb(255, 0, 0),
        rgba(0, 0, 255, 128),
        gray(0x80),
        rgb(0, 255, 0),
    ];
    let stored: Vec<(u8, u8, u8, u8)> = palette.iter().map(|c| c.premultiplied()).collect();
    let order = [3usize, 1, 4, 2, 0, 3, 3, 2, 1, 4, 0];
    let pixels: Vec<(u8, u8, u8, u8)> = order.iter().map(|&k| stored[k]).collect();
    let img = image(order.len() as u32, 1, &pixels);
    let bytes = encode_pixels(&img, &ColorMode::Indexed { palette: palette.clone() }, BitDepth::Four);
    for (i, pixel) in pixels.iter().enumerate() {
        let index = ((bytes[i / 2] >> (4 * (1 - i % 2))) & 0xf) as usize;
        assert!(index < palette.len());
        assert_eq!(palette[index].premultiplied(), *pixel, "pixel {}", i);
    }
}

#[test]
fn gray_pixels_read_back_their_levels() {
    let levels: Vec<u8> = (0..16u8).map(|k| k * 0x11).rev().collect();
    let pixels: Vec<(u8, u8, u8, u8)> = levels.iter().map(|&v| (v, v, v, 255)).collect();
    let img = image(levels.len() as u32, 1, &pixels);
    let bytes = encode_pixels(&img, &ColorMode::Grayscale { transparent_shade: None }, BitDepth::Four);
    for (i, level) in levels.iter().enumerate() {
        let sample = (bytes[i / 2] >> (4 * (1 - i % 2))) & 0xf;
        assert_eq!(sample as u32 * 0x11, *level as u32);
    }
    let two = image(3, 1, &[(0xaa, 0xaa, 0xaa, 255), (0, 0, 0, 0), (0x55, 0x55, 0x55, 255)]);
    let bytes = encode_pixels(&two, &ColorMode::Grayscale { transparent_shade: Some(0xffff) }, BitDepth::Two);
    assert_eq!((bytes[0] >> 6) as u32 * 0x55, 0xaa);
    assert_eq!(((bytes[0] >> 2) & 3) as u32 * 0x55, 0x55);
}

#[test]
fn png_bytes_are_oxipng_output_for_the_encoded_pixels() {
    let palette = vec![ComparableColor::transparent(), gray(0), rgb(255, 0, 0)];
    let img = image(8, 1, &[(0, 0, 0, 0), (0, 0, 0, 255), (255, 0, 0, 255), (0, 0, 0, 255), (0, 0, 0, 0), (255, 0, 0, 255), (0, 0, 0, 255), (0, 0, 0, 0)]);
    let mode = ColorMode::Indexed { palette: palette.clone() };
    let settings = PngSettings { preset: 2, deflater: Deflater::Libdeflater { compression: 6 }, optimize_alpha: true, unfiltered_only: true };
    let png = png_bytes(&img, &mode, BitDepth::Two, &settings).unwrap();
    let raw = encode_pixels(&img, &mode, BitDepth::Two);
    let mut options = oxipng::Options::from_preset(2);
    options.deflate = oxipng::Deflaters::Libdeflater { compression: 6 };
    options.optimize_alpha = true;
    options.filter = oxipng::IndexSet::from([oxipng::RowFilter::None]);
    let color_type = oxipng::ColorType::Indexed {
        palette: palette.iter().map(|c| oxipng::RGBA8::new(c.red, c.green, c.blue, c.alpha)).collect(),
    };
    let expected = oxipng::RawImage::new(8, 1, color_type, oxipng::BitDepth::Two, raw)
        .unwrap()
        .create_optimized_png(&options)
        .unwrap();
    assert_eq!(png, expected);
    assert_eq!(&png[1..4], b"PNG");
    assert_eq!(png_bytes(&img, &mode, BitDepth::Two, &settings).unwrap(), png);
}
