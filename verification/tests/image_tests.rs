use ochd::color::{c, rgba, ComparableColor};
use ochd::compose::{animate, is_drawable, paint, stack_alpha_on_alpha, stack_layer_on_background, stack_layer_on_layer};
use ochd::raster::{can_upscale, make_semitransparent, pixmap_to_mask, stack_alpha_on_background, upscale_image, upscale_mask, Mask, Pixmap};
use resvg::tiny_skia;

fn circle_pixmap(side_length: u32, color: Option<(u8, u8, u8, u8)>) -> tiny_skia::Pixmap {
    let mut pixmap = tiny_skia::Pixmap::new(side_length, side_length).unwrap();
    let circle = tiny_skia::PathBuilder::from_circle(64.0, 64.0, 50.0).unwrap();
    let mut paint = tiny_skia::Paint::default();
    if let Some((r, g, b, a)) = color {
        paint.set_color(tiny_skia::Color::from_rgba8(r, g, b, a));
    }
    pixmap.fill_path(&circle, &paint, tiny_skia::FillRule::EvenOdd, tiny_skia::Transform::default(), None);
    pixmap
}

fn to_library(pixmap: &tiny_skia::Pixmap) -> Pixmap {
    Pixmap { width: pixmap.width(), height: pixmap.height(), data: pixmap.data().to_vec() }
}

#[test]
fn test_alpha_channel() {
    let side_length = 128;
    let pixmap = circle_pixmap(side_length, None);
    let alpha_channel = pixmap_to_mask(&to_library(&pixmap));
    let pixmap_pixels = pixmap.pixels();
    for index in 0usize..((side_length * side_length) as usize) {
        assert_eq!(alpha_channel.data[index], pixmap_pixels[index].alpha());
    }
}

#[test]
fn test_paint() {
    let side_length = 128;
    let pixmap = circle_pixmap(side_length, None);
    let alpha_channel = pixmap_to_mask(&to_library(&pixmap));
    let repainted_alpha: u8 = 0xcf;
    let repainted_alpha_fraction = 0xcf as f32 / u8::MAX as f32;
    let red = c(0xff0000);
    let scaled_alpha = (f32::from(red.alpha) * repainted_alpha_fraction + 0.5) as u8;
    let repainted_red = paint(&alpha_channel, rgba(red.red, red.green, red.blue, scaled_alpha));
    let pixmap_pixels = pixmap.pixels();
    for index in 0usize..((side_length * side_length) as usize) {
        let expected_alpha: u8 =
            (u16::from(repainted_alpha) * u16::from(pixmap_pixels[index].alpha()) / 0xff) as u8;
        let actual_alpha = repainted_red.data[4 * index + 3];
        assert!(
            actual_alpha.abs_diff(expected_alpha) <= 1,
            "expected alpha of {} but found {}",
            expected_alpha,
            actual_alpha
        );
        if expected_alpha > 0 {
            // premultiplied
            assert_eq!(repainted_red.data[4 * index], repainted_red.data[4 * index + 3]);
            assert_eq!(repainted_red.data[4 * index + 1], 0);
            assert_eq!(repainted_red.data[4 * index + 2], 0);
        }
    }
}

#[test]
fn test_make_semitransparent() {
    let alpha = 128;
    let side_length = 128;
    let pixmap = circle_pixmap(side_length, Some((255, 0, 0, 255)));
    let pixmap_pixels = pixmap.pixels().to_owned();
    let mut semitransparent_circle = pixmap_to_mask(&to_library(&pixmap));
    make_semitransparent(&mut semitransparent_circle, alpha);
    let semitransparent_red_circle = paint(&semitransparent_circle, ComparableColor::red_color());
    let semitransparent_pixels = &semitransparent_red_circle.data;
    for index in 0usize..((side_length * side_length) as usize) {
        let expected_alpha: u8 =
            (alpha as u16 * pixmap_pixels[index].alpha() as u16 / u8::MAX as u16) as u8;
        assert!(semitransparent_pixels[4 * index + 3].abs_diff(expected_alpha) <= 1);
        if expected_alpha > 0 {
            assert!(semitransparent_pixels[4 * index].abs_diff(expected_alpha) <= 1);
            // premultiplied
            assert_eq!(semitransparent_pixels[4 * index + 1], 0);
            assert_eq!(semitransparent_pixels[4 * index + 2], 0);
        }
    }
}

#[test]
fn make_semitransparent_multiplies_each_pixel() {
    let mut mask = Mask { width: 2, height: 2, data: vec![0, 128, 255, 64] };
    make_semitransparent(&mut mask, 128);
    assert_eq!(mask.data, vec![0, 64, 128, 32]);
    assert_eq!((mask.width, mask.height), (2, 2));
}

#[test]
fn stack_alpha_on_background_uses_the_stacking_formula() {
    let mut mask = Mask { width: 3, height: 1, data: vec![0, 128, 255] };
    stack_alpha_on_background(128, &mut mask);
    assert_eq!(mask.data, vec![128, 128 + 64, 255]);
}

#[test]
fn stack_alpha_on_alpha_matches_the_float_formula() {
    for bg in 0..=255u8 {
        let fg_values: Vec<u8> = (0..=255u8).collect();
        let mut background = Mask { width: 256, height: 1, data: vec![bg; 256] };
        let foreground = Mask { width: 256, height: 1, data: fg_values.clone() };
        stack_alpha_on_alpha(&mut background, &foreground);
        for fg in 0..=255u8 {
            let expected = ((255.0 - bg as f32) * (fg as f32 / 255.0) + bg as f32 + 0.5) as u8;
            assert_eq!(background.data[fg as usize], expected, "bg {} fg {}", bg, fg);
        }
    }
}

#[test]
fn stack_alpha_on_alpha_keeps_pixels_past_the_foreground() {
    let mut background = Mask { width: 3, height: 1, data: vec![10, 20, 30] };
    let foreground = Mask { width: 1, height: 1, data: vec![255] };
    stack_alpha_on_alpha(&mut background, &foreground);
    assert_eq!(background.data, vec![255, 20, 30]);
}

#[test]
fn pixmap_to_mask_takes_every_fourth_byte() {
    let image = Pixmap { width: 2, height: 1, data: vec![1, 2, 3, 4, 5, 6, 7, 8] };
    let mask = pixmap_to_mask(&image);
    assert_eq!(mask.data, vec![4, 8]);
    assert_eq!((mask.width, mask.height), (2, 1));
}

#[test]
fn upscaling_repeats_each_pixel_as_a_square() {
    let mask = Mask { width: 2, height: 1, data: vec![7, 9] };
    let big = upscale_mask(&mask, 4);
    assert_eq!((big.width, big.height), (4, 2));
    assert_eq!(big.data, vec![7, 7, 9, 9, 7, 7, 9, 9]);
    let image = Pixmap { width: 1, height: 1, data: vec![1, 2, 3, 4] };
    let big_image = upscale_image(&image, 2);
    assert_eq!((big_image.width, big_image.height), (2, 2));
    assert_eq!(big_image.data, [1, 2, 3, 4].repeat(4));
}

#[test]
fn layers_are_drawn_over_each_other() {
    let mut background = Pixmap { width: 1, height: 1, data: vec![0, 0, 255, 255] };
    let half_red = Pixmap { width: 1, height: 1, data: vec![128, 0, 0, 128] };
    stack_layer_on_layer(&mut background, &half_red);
    let px = &background.data;
    assert_eq!(px[3], 255);
    assert!(px[0].abs_diff(128) <= 1);
    assert!(px[2].abs_diff(127) <= 1);
    let opaque_green = Pixmap { width: 1, height: 1, data: vec![0, 255, 0, 255] };
    stack_layer_on_layer(&mut background, &opaque_green);
    assert_eq!(background.data, vec![0, 255, 0, 255]);
}

#[test]
fn background_color_fills_only_behind() {
    let mut image = Pixmap { width: 2, height: 1, data: vec![0, 0, 0, 0, 0, 255, 0, 255] };
    stack_layer_on_background(ComparableColor::blue_color(), &mut image);
    assert_eq!(image.data, vec![0, 0, 255, 255, 0, 255, 0, 255]);
}

#[test]
fn animation_frames_are_stacked_vertically() {
    let background = Pixmap { width: 1, height: 1, data: vec![0, 0, 255, 255] };
    let frames = vec![
        Pixmap { width: 1, height: 1, data: vec![0, 0, 0, 0] },
        Pixmap { width: 1, height: 1, data: vec![255, 0, 0, 255] },
    ];
    let strip = animate(&background, &frames, false);
    assert_eq!((strip.width, strip.height), (1, 2));
    assert_eq!(strip.data, vec![0, 0, 255, 255, 255, 0, 0, 255]);
    let cleared = animate(&background, &frames, true);
    assert_eq!(cleared.data, strip.data);
    let transparent_background = Pixmap { width: 1, height: 1, data: vec![0, 0, 0, 0] };
    let see_through = animate(&transparent_background, &frames, true);
    assert_eq!(see_through.data, vec![0, 0, 0, 0, 255, 0, 0, 255]);
}

#[test]
fn painting_an_opaque_mask_gives_the_premultiplied_color() {
    let mask = Mask { width: 1, height: 2, data: vec![255, 0] };
    let painted = paint(&mask, rgba(10, 20, 30, 255));
    assert_eq!(painted.data, vec![10, 20, 30, 255, 0, 0, 0, 0]);
}

#[test]
fn premultiplied_and_demultiplied_forms() {
    assert_eq!(rgba(10, 20, 30, 255).premultiplied(), (10, 20, 30, 255));
    assert_eq!(rgba(10, 20, 30, 40).premultiplied(), (2, 3, 5, 40));
    assert_eq!(ComparableColor::from_premultiplied(10, 20, 30, 255), rgba(10, 20, 30, 255));
    let shown = ComparableColor::from_premultiplied(64, 0, 0, 128);
    assert_eq!(shown.alpha, 128);
    assert!(shown.red.abs_diff(128) <= 1);
}

#[test]
fn size_checks_for_drawing_and_upscaling() {
    assert!(is_drawable(1, 1));
    assert!(!is_drawable(0, 5));
    assert!(!is_drawable(5, 0));
    assert!(is_drawable(0x1fff_ffff, 0x7fff_ffff));
    assert!(!is_drawable(0x2000_0000, 1));
    assert!(!is_drawable(1, 0x8000_0000));
    assert!(can_upscale(32, 32, 128));
    assert!(can_upscale(32, 64, 32));
    assert!(!can_upscale(32, 32, 100));
    assert!(!can_upscale(32, 32, 16));
    assert!(!can_upscale(0, 32, 128));
    assert!(!can_upscale(1, 0x10000, 0x10000));
}
