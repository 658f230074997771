use ochd::color::{c, gray, rgb, rgba, BitDepth, ComparableColor};
use std::collections::hash_map::DefaultHasher;
use std::hash::{Hash, Hasher};

#[test]
fn test_eq() {
    assert_eq!(ComparableColor::black(), ComparableColor::black());
    assert_eq!(ComparableColor::red_color(), ComparableColor::red_color());
    assert_eq!(ComparableColor::green_color(), ComparableColor::green_color());
    assert_eq!(ComparableColor::blue_color(), ComparableColor::blue_color());
    assert_eq!(ComparableColor::white(), ComparableColor::white());
    assert_eq!(ComparableColor::transparent(), ComparableColor::transparent());

    assert_ne!(ComparableColor::black(), ComparableColor::red_color());
    assert_ne!(ComparableColor::black(), ComparableColor::green_color());
    assert_ne!(ComparableColor::black(), ComparableColor::blue_color());
    assert_ne!(ComparableColor::black(), ComparableColor::white());
    assert_ne!(ComparableColor::black(), ComparableColor::transparent());

    // When alpha is zero (totally transparent), the color values don't matter
    assert_eq!(rgba(0, 0, 0, 0), rgba(u8::MAX, u8::MAX, u8::MAX, 0));
}

#[test]
fn test_under() {
    let semi_black = rgba(0, 0, 0, 127);
    assert_eq!(ComparableColor::transparent().under(&[semi_black]), vec![semi_black]);
    assert_eq!(ComparableColor::white().under(&[semi_black]), vec![gray(128)]);
    assert_eq!(semi_black.under(&[ComparableColor::white()]), vec![ComparableColor::white()]);
    assert_eq!(semi_black.under(&[semi_black]), vec![rgba(0, 0, 0, 191)]);
}

fn hash(color: ComparableColor) -> u64 {
    let mut hasher = DefaultHasher::new();
    color.hash(&mut hasher);
    hasher.finish()
}

#[test]
fn test_hash() {
    let black_hash = hash(ComparableColor::black());
    let red_hash = hash(ComparableColor::red_color());
    let green_hash = hash(ComparableColor::green_color());
    let blue_hash = hash(ComparableColor::blue_color());
    let transparent_hash_1 = hash(rgba(0, 0, 0, 0));
    let transparent_hash_2 = hash(rgba(u8::MAX, u8::MAX, u8::MAX, 0));

    assert_ne!(black_hash, red_hash);
    assert_ne!(black_hash, green_hash);
    assert_ne!(black_hash, blue_hash);
    assert_ne!(black_hash, transparent_hash_1);
    assert_ne!(black_hash, transparent_hash_2);
    assert_ne!(red_hash, green_hash);
    assert_ne!(red_hash, blue_hash);
    assert_ne!(green_hash, blue_hash);

    // When alpha is zero (totally transparent), the color values don't matter
    assert_eq!(transparent_hash_1, transparent_hash_2);
}

#[test]
fn test_gray() {
    let gray = gray(0x7f);
    assert_eq!(gray.red, 0x7f);
    assert_eq!(gray.green, 0x7f);
    assert_eq!(gray.blue, 0x7f);
    assert_eq!(gray.alpha, u8::MAX);
}

#[test]
fn test_c() {
    assert_eq!(
        c(0xc0ffee),
        ComparableColor { red: 0xc0, green: 0xff, blue: 0xee, alpha: u8::MAX }
    )
}

#[test]
fn test_ord() {
    assert_eq!(
        ComparableColor::transparent(),
        ComparableColor { red: u8::MAX, green: u8::MAX, blue: u8::MAX, alpha: 0 }
    );
    assert!(
        ComparableColor::transparent() < ComparableColor { red: 0, green: 0, blue: 0, alpha: 1 }
    );
    assert!(
        ComparableColor { red: u8::MAX, green: u8::MAX, blue: u8::MAX, alpha: 1 }
            < ComparableColor { red: 0, green: 0, blue: 0, alpha: 2 }
    );
}

#[test]
fn hash_agrees_with_equality_on_transparent_colors() {
    for value in 0..=u8::MAX {
        let a = rgba(value, 0, 255 - value, 0);
        assert_eq!(a, ComparableColor::transparent());
        assert_eq!(hash(a), hash(ComparableColor::transparent()));
    }
}

#[test]
fn order_is_alpha_then_red_green_blue() {
    assert!(rgba(255, 255, 255, 10) < rgba(0, 0, 0, 11));
    assert!(rgba(1, 0, 0, 10) > rgba(0, 255, 255, 10));
    assert!(rgba(0, 1, 0, 10) > rgba(0, 0, 255, 10));
    assert!(rgba(0, 0, 2, 10) > rgba(0, 0, 1, 10));
    assert_eq!(rgba(5, 6, 7, 0).partial_cmp(&rgba(8, 9, 10, 0)), Some(std::cmp::Ordering::Equal));
}

#[test]
fn display_string_is_hex_or_transparent() {
    assert_eq!(c(0xc0ffee).to_display_string(), "#c0ffeeff");
    assert_eq!(rgba(1, 2, 3, 0).to_display_string(), "transparent");
    assert_eq!(rgba(0x0a, 0xb0, 0x0c, 0x7f).to_display_string(), "#0ab00c7f");
}

#[test]
fn gray_and_binary_alpha_checks() {
    assert!(gray(0x33).is_gray());
    assert!(rgba(1, 2, 3, 0).is_gray());
    assert!(!rgb(1, 2, 3).is_gray());
    assert!(rgb(1, 2, 3).is_binary_alpha());
    assert!(rgba(1, 2, 3, 0).is_binary_alpha());
    assert!(!rgba(1, 2, 3, 4).is_binary_alpha());
}

#[test]
fn abs_diff_sums_channel_differences() {
    assert_eq!(rgba(10, 20, 30, 40).abs_diff(&rgba(13, 18, 30, 50)), 3 + 2 + 0 + 10);
    assert_eq!(rgba(10, 20, 30, 0).abs_diff(&rgba(200, 0, 1, 0)), 0);
    assert_eq!(rgba(0, 0, 0, 0).abs_diff(&rgba(255, 255, 255, 255)), 1020);
}

#[test]
fn bit_depth_follows_the_deepest_channel() {
    assert_eq!(rgba(7, 8, 9, 0).bit_depth(), BitDepth::One);
    assert_eq!(ComparableColor::black().bit_depth(), BitDepth::One);
    assert_eq!(ComparableColor::white().bit_depth(), BitDepth::One);
    assert_eq!(gray(0x55).bit_depth(), BitDepth::Two);
    assert_eq!(gray(0x11).bit_depth(), BitDepth::Four);
    assert_eq!(rgb(0x11, 0x55, 0xff).bit_depth(), BitDepth::Four);
    assert_eq!(rgb(0x12, 0x55, 0xff).bit_depth(), BitDepth::Eight);
}

#[test]
fn getters_and_constants() {
    let color = rgba(1, 2, 3, 4);
    assert_eq!((color.red(), color.green(), color.blue(), color.alpha()), (1, 2, 3, 4));
    assert_eq!(ComparableColor::stone(), gray(0x88));
    assert_eq!(ComparableColor::deepslate_shadow(), c(0x2f2f3f));
    assert_eq!(ComparableColor::reserved_for_transparency(), c(0xc0ff3e));
    assert_eq!(c(0xff123456), c(0x123456));
}

#[test]
fn under_keeps_order_of_foregrounds() {
    let out = ComparableColor::white().under(&[ComparableColor::transparent(), ComparableColor::red_color()]);
    assert_eq!(out, vec![ComparableColor::white(), ComparableColor::red_color()]);
}

fn hash_of(color: &ComparableColor) -> u64 {
    let mut h = DefaultHasher::new();
    color.hash(&mut h);
    h.finish()
}

fn fields_hash(bytes: &[u8]) -> u64 {
    let mut h = DefaultHasher::new();
    for b in bytes {
        b.hash(&mut h);
    }
    h.finish()
}

#[test]
fn hashing_feeds_alpha_then_visible_channels() {
    let color = rgba(10, 20, 30, 40);
    assert_eq!(color.hash_bytes(), vec![40, 10, 20, 30]);
    assert_eq!(hash_of(&color), fields_hash(&[40, 10, 20, 30]));
    assert_eq!(rgba(1, 2, 3, 0).hash_bytes(), vec![0]);
    assert_eq!(hash_of(&rgba(1, 2, 3, 0)), fields_hash(&[0]));
    assert_eq!(hash_of(&rgba(1, 2, 3, 0)), hash_of(&ComparableColor::transparent()));
}
