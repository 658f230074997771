use ochd::cloneable::{Arcow, CloneableError};
use ochd::color::{c, gray, rgba, ComparableColor};
use ochd::color_description::{multiply_alpha_vec, paint_alpha_colors, stack_alpha_vecs, ColorDescription, Transparency};
use ochd::color_set::{
    contains_alpha, contains_semitransparency, create_black_to_transparent, dedup_adjacent_colors, sort_dedup_colors,
    unique_color_list,
};
use ochd::task_graph::{
    alpha_node, alpha_values_on_background, animation_description, describe_node, image_colors, is_small_output, output_render_size,
    stack_on_color_description, GRID_SIZE,
};
use ochd::task_order::{compare_alpha_tasks, compare_pixmap_tasks, compare_texts};
use ochd::task_spec::{from_svg_task, out_task, svg_alpha_task, ToAlphaChannelTaskSpec, ToPixmapTaskSpec};
use ochd::raster::Pixmap;
use ochd::u8set::U8BitSet;

fn listed(d: &ColorDescription) -> Vec<ComparableColor> {
    match d {
        ColorDescription::SpecifiedColors(colors) => colors.clone(),
        ColorDescription::Rgb(_) => panic!("expected listed colors"),
    }
}

#[test]
fn transparency_combinations() {
    let (opaque, binary, alpha) = (Transparency::Opaque, Transparency::Binary, Transparency::AlphaChannel);
    assert_eq!(binary.stack_on(&opaque), opaque);
    assert_eq!(binary.stack_on(&binary), binary);
    assert_eq!(alpha.stack_on(&binary), alpha);
    assert_eq!(opaque.put_adjacent(&opaque), opaque);
    assert_eq!(opaque.put_adjacent(&binary), binary);
    assert_eq!(binary.put_adjacent(&alpha), alpha);
}

#[test]
fn description_transparency() {
    assert_eq!(ColorDescription::SpecifiedColors(vec![gray(0)]).transparency(), Transparency::Opaque);
    assert_eq!(
        ColorDescription::SpecifiedColors(vec![ComparableColor::transparent(), gray(0)]).transparency(),
        Transparency::Binary
    );
    assert_eq!(
        ColorDescription::SpecifiedColors(vec![rgba(0, 0, 0, 5), gray(0)]).transparency(),
        Transparency::AlphaChannel
    );
}

#[test]
fn stacking_descriptions() {
    let opaque = ColorDescription::SpecifiedColors(vec![gray(0)]);
    let binary = ColorDescription::SpecifiedColors(vec![ComparableColor::transparent(), c(0xff0000)]);
    let background = ColorDescription::SpecifiedColors(vec![gray(0x40), gray(0x80)]);
    assert_eq!(listed(&opaque.stack_on(&background, 10)), vec![gray(0)]);
    assert_eq!(listed(&binary.stack_on(&background, 10)), vec![gray(0x40), gray(0x80), c(0xff0000)]);
    assert_eq!(listed(&binary.stack_on(&background, 2)), vec![gray(0x40), gray(0x80)]);
    let half_black = ColorDescription::SpecifiedColors(vec![rgba(0, 0, 0, 127)]);
    assert_eq!(listed(&half_black.stack_on(&ColorDescription::SpecifiedColors(vec![ComparableColor::white()]), 10)), vec![gray(128)]);
    match binary.stack_on(&ColorDescription::Rgb(Transparency::Opaque), 10) {
        ColorDescription::Rgb(t) => assert_eq!(t, Transparency::Opaque),
        _ => panic!("expected any colors"),
    }
}

#[test]
fn adjacent_descriptions_merge_colors() {
    let a = ColorDescription::SpecifiedColors(vec![gray(0), gray(1)]);
    let b = ColorDescription::SpecifiedColors(vec![gray(1), gray(2)]);
    assert_eq!(listed(&a.put_adjacent(&b)), vec![gray(0), gray(1), gray(2)]);
    match a.put_adjacent(&ColorDescription::Rgb(Transparency::Binary)) {
        ColorDescription::Rgb(t) => assert_eq!(t, Transparency::Binary),
        _ => panic!("expected any colors"),
    }
}

#[test]
fn capping_uses_the_image_colors() {
    let many = ColorDescription::SpecifiedColors(vec![gray(0), gray(1), gray(2)]);
    let capped = many.capped(2, &[gray(9), gray(3), gray(9)]);
    assert_eq!(listed(&capped), vec![gray(3), gray(9)]);
    let few = ColorDescription::SpecifiedColors(vec![gray(0)]);
    assert_eq!(listed(&few.capped(2, &[gray(7)])), vec![gray(0)]);
}

#[test]
fn possible_alpha_values_of_descriptions() {
    let binary = ColorDescription::SpecifiedColors(vec![ComparableColor::transparent(), gray(0)]);
    assert_eq!(binary.possible_alpha_values().to_vec(), vec![0, 255]);
    assert_eq!(ColorDescription::Rgb(Transparency::Opaque).possible_alpha_values().to_vec(), vec![255]);
    assert_eq!(ColorDescription::Rgb(Transparency::AlphaChannel).possible_alpha_values().len(), 256);
    let semi = ColorDescription::SpecifiedColors(vec![rgba(0, 0, 0, 7), rgba(1, 0, 0, 7), gray(0)]);
    assert_eq!(semi.possible_alpha_values().to_vec(), vec![7, 255]);
    let gradient = ColorDescription::SpecifiedColors(create_black_to_transparent());
    let mut big = create_black_to_transparent();
    big.push(c(0x123456));
    let many = ColorDescription::SpecifiedColors(sort_dedup_colors(&big));
    assert_eq!(many.possible_alpha_values().len(), 256);
    assert_eq!(gradient.possible_alpha_values().len(), 256);
}

#[test]
fn alpha_value_sets() {
    let set = U8BitSet::from_slice(&[0, 128, 255]);
    assert_eq!(multiply_alpha_vec(U8BitSet::from_slice(&[0, 128, 255]), 128).to_vec(), vec![0, 64, 128]);
    assert_eq!(multiply_alpha_vec(U8BitSet::from_slice(&[10, 20]), 0).to_vec(), vec![0]);
    assert_eq!(multiply_alpha_vec(U8BitSet::from_slice(&[10, 20]), 255).to_vec(), vec![10, 20]);
    let stacked = stack_alpha_vecs(&U8BitSet::from_slice(&[0, 128]), &set);
    assert_eq!(stacked.to_vec(), vec![0, 128, 192, 255]);
    assert_eq!(alpha_values_on_background(128, &set).to_vec(), vec![128, 192, 255]);
    let mut s = U8BitSet::new();
    assert_eq!(s.len(), 0);
    s.insert(9);
    s.insert(9);
    assert!(s.contains(9));
    assert!(!s.contains(8));
    assert_eq!(s.len(), 1);
    assert_eq!(U8BitSet::all_u8s().to_vec(), (0..=255u8).collect::<Vec<_>>());
}

#[test]
fn painting_alpha_values() {
    let colors = paint_alpha_colors(c(0xff0000), &U8BitSet::from_slice(&[0, 255, 128]));
    assert_eq!(colors, vec![rgba(255, 0, 0, 0), rgba(255, 0, 0, 128), rgba(255, 0, 0, 255)]);
    let half = paint_alpha_colors(rgba(0, 0, 255, 128), &U8BitSet::from_slice(&[255, 254]));
    assert_eq!(half, vec![rgba(0, 0, 255, 128)]);
}

#[test]
fn color_lists() {
    assert_eq!(sort_dedup_colors(&[gray(2), gray(1), gray(2), rgba(5, 5, 5, 0), ComparableColor::transparent()]), vec![ComparableColor::transparent(), gray(1), gray(2)]);
    assert_eq!(unique_color_list(&[gray(2), gray(1), gray(2)]), vec![gray(2), gray(1)]);
    assert_eq!(dedup_adjacent_colors(&[gray(2), gray(2), gray(1), gray(2)]), vec![gray(2), gray(1), gray(2)]);
    let sorted = sort_dedup_colors(&[rgba(0, 0, 0, 7), gray(0), ComparableColor::transparent()]);
    assert!(contains_semitransparency(&sorted));
    assert!(!contains_semitransparency(&[ComparableColor::transparent(), gray(0)]));
    assert!(contains_alpha(&sorted, 7));
    assert!(!contains_alpha(&sorted, 8));
    let gradient = create_black_to_transparent();
    assert_eq!(gradient.len(), 256);
    assert_eq!(gradient[17], rgba(0, 0, 0, 17));
}

#[test]
fn task_order() {
    assert_eq!(compare_texts(&"a".to_string(), &"b".to_string()), -1);
    assert_eq!(compare_texts(&"ab".to_string(), &"a".to_string()), 1);
    assert_eq!(compare_texts(&"same".to_string(), &"same".to_string()), 0);
    assert_eq!(compare_pixmap_tasks(&from_svg_task("a"), &from_svg_task("b")), -1);
    assert_eq!(compare_alpha_tasks(&svg_alpha_task("b"), &svg_alpha_task("a")), 1);
    let up = ToPixmapTaskSpec::UpscaleFromGridSize { base: Box::new(from_svg_task("a")) };
    assert_eq!(compare_pixmap_tasks(&from_svg_task("z"), &up), -1);
}

#[test]
fn shared_values() {
    let owned: Arcow<'static, u32> = Arcow::from_owned(7);
    assert_eq!(*owned.value(), 7);
    assert_eq!(owned.consume(|v| v + 1), 8);
    let big: Arcow<'static, [u64; 32]> = Arcow::from_owned([3; 32]);
    assert!(matches!(big, Arcow::SharingRef(_)));
    assert_eq!(big.consume(|v| v[31]), 3);
    let text = String::from("x");
    let borrowed = Arcow::borrowing_from(&text);
    assert_eq!(borrowed.value(), "x");
    assert_eq!(borrowed.consume(|s| s + "y"), "xy");
    let shared: Arcow<'static, Vec<u8>> = Arcow::sharing_ref(vec![1, 2]);
    assert_eq!(shared.consume(|v| v.len()), 2);
    let cloning: Arcow<'static, u8> = Arcow::cloning_from(4);
    assert!(matches!(cloning, Arcow::Cloning(4)));
    let error = CloneableError::from_message("failed".to_string());
    assert_eq!(error.to_display_string(), "failed");
    assert_eq!(error.clone(), error);
}

#[test]
fn graph_decisions() {
    assert_eq!(GRID_SIZE, 32);
    assert!(from_svg_task("borderSolid").reroutes_to_grid(128));
    assert!(!from_svg_task("borderSolid").reroutes_to_grid(32));
    assert!(!from_svg_task("streaks").reroutes_to_grid(128));
    let up = ToPixmapTaskSpec::UpscaleFromGridSize { base: Box::new(from_svg_task("borderSolid")) };
    assert!(!up.reroutes_to_grid(128));
    assert!(svg_alpha_task("borderSolid").reroutes_to_grid(64));
    assert_eq!(output_render_size(&from_svg_task("borderSolid"), 128), 32);
    assert_eq!(output_render_size(&from_svg_task("streaks"), 128), 128);
    assert!(is_small_output(&out_task("a", from_svg_task("borderSolid")), 128));
    assert!(!is_small_output(&out_task("a", from_svg_task("borderSolid")), 32));
    assert_eq!(from_svg_task("streaks").description_side_length(128), 128);
    assert_eq!(from_svg_task("borderSolid").description_side_length(128), 32);
    let animation = ToPixmapTaskSpec::Animate {
        background: Box::new(from_svg_task("streaks")),
        frames: vec![from_svg_task("streaks"), from_svg_task("streaks")],
    };
    assert_eq!(animation.description_pixel_count(64), 64 * 64 * 2);
}

#[test]
fn node_descriptions() {
    let background = ColorDescription::SpecifiedColors(vec![gray(0x10)]);
    let frames = vec![
        ColorDescription::SpecifiedColors(vec![ComparableColor::transparent(), gray(1)]),
        ColorDescription::SpecifiedColors(vec![ComparableColor::transparent(), gray(2)]),
    ];
    assert_eq!(listed(&animation_description(&background, &frames, 100)), vec![gray(1), gray(2), gray(0x10)]);
    let over_red = stack_on_color_description(&ColorDescription::SpecifiedColors(vec![ComparableColor::transparent(), gray(0)]), c(0xff0000), 100);
    assert_eq!(listed(&over_red), vec![gray(0), c(0xff0000)]);
    let image = Pixmap { width: 2, height: 1, data: vec![0, 0, 0, 0, 9, 8, 7, 255] };
    assert_eq!(image_colors(&image), vec![ComparableColor::transparent(), rgba(9, 8, 7, 255)]);
}

#[test]
fn stacked_descriptions_list_every_shown_color() {
    let backgrounds = vec![ComparableColor::transparent(), gray(0), c(0x0000ff)];
    let binary = vec![ComparableColor::transparent(), c(0xff0000)];
    let partial = vec![rgba(0, 255, 0, 64), rgba(255, 0, 0, 128)];
    for foregrounds in [binary, partial, vec![c(0x00ff00), gray(0xff)]] {
        let stacked = ColorDescription::SpecifiedColors(foregrounds.clone())
            .stack_on(&ColorDescription::SpecifiedColors(backgrounds.clone()), 1000);
        let out = listed(&stacked);
        for background in backgrounds.iter() {
            let shown = if background.alpha == 0 { foregrounds.clone() } else { background.under(&foregrounds) };
            for color in shown {
                assert!(out.iter().any(|listed| *listed == color), "{} missing", color.to_display_string());
            }
        }
    }
}

#[test]
fn owned_values_are_shared_only_when_large() {
    let small: Arcow<u64> = Arcow::from_owned(7u64);
    assert!(matches!(small, Arcow::Cloning(7)));
    let words: Arcow<[usize; 8]> = Arcow::from_owned([1usize; 8]);
    assert!(matches!(words, Arcow::Cloning(_)));
    let large: Arcow<[usize; 9]> = Arcow::from_owned([2usize; 9]);
    assert!(matches!(large, Arcow::SharingRef(_)));
    assert_eq!(*large.value(), [2usize; 9]);
}

#[test]
fn side_by_side_descriptions_commute_and_combine_transparency() {
    let lists = [
        vec![ComparableColor::transparent(), gray(0)],
        vec![gray(0), c(0xff0000)],
        vec![rgba(0, 0, 255, 128), gray(0xff)],
        vec![rgba(9, 9, 9, 0), gray(0), gray(1)],
    ];
    for a in lists.iter() {
        for b in lists.iter() {
            let da = ColorDescription::SpecifiedColors(a.clone());
            let db = ColorDescription::SpecifiedColors(b.clone());
            let ab = da.put_adjacent(&db);
            let ba = db.put_adjacent(&da);
            assert_eq!(listed(&ab), listed(&ba));
            assert_eq!(ab.transparency(), da.transparency().put_adjacent(&db.transparency()));
        }
    }
}

#[test]
fn mutable_access_copies_on_write() {
    let mut owned: Arcow<u32> = Arcow::cloning_from(5);
    *owned.value_mut() += 1;
    assert!(matches!(owned, Arcow::Cloning(6)));
    let original = vec![1, 2, 3];
    let mut borrowed: Arcow<Vec<u32>> = Arcow::borrowing_from(&original);
    borrowed.value_mut().push(4);
    assert!(matches!(borrowed, Arcow::SharingRef(_)));
    assert_eq!(*borrowed.value(), vec![1, 2, 3, 4]);
    assert_eq!(original, vec![1, 2, 3]);
    let shared = std::sync::Arc::new(vec![7u32]);
    let mut sharing: Arcow<Vec<u32>> = Arcow::SharingRef(shared.clone());
    sharing.value_mut().push(8);
    assert_eq!(*sharing.value(), vec![7, 8]);
    assert_eq!(*shared, vec![7]);
}

#[test]
fn describing_one_node_from_its_inputs() {
    let empty = U8BitSet::new();
    let svg = from_svg_task("borderSolid");
    let alone = describe_node(&svg, &[], &empty, 100);
    assert_eq!(listed(&alone), vec![ComparableColor::transparent(), gray(0)]);
    let frames = vec![svg.clone(), svg.clone()];
    let animation = ToPixmapTaskSpec::Animate { background: Box::new(svg.clone()), frames };
    let inputs = vec![
        ColorDescription::SpecifiedColors(vec![gray(0x10)]),
        ColorDescription::SpecifiedColors(vec![ComparableColor::transparent(), gray(1)]),
        ColorDescription::SpecifiedColors(vec![ComparableColor::transparent(), gray(2)]),
    ];
    assert_eq!(listed(&describe_node(&animation, &inputs, &empty, 100)), vec![gray(1), gray(2), gray(0x10)]);
    let on_red = ToPixmapTaskSpec::StackLayerOnColor { background: c(0xff0000), foreground: Box::new(svg.clone()) };
    let fg = vec![ColorDescription::SpecifiedColors(vec![ComparableColor::transparent(), gray(0)])];
    assert_eq!(listed(&describe_node(&on_red, &fg, &empty, 100)), vec![gray(0), c(0xff0000)]);
    let painted = ToPixmapTaskSpec::PaintAlphaChannel { base: Box::new(svg_alpha_task("borderSolid")), color: c(0x00ff00) };
    let mut alphas = U8BitSet::new();
    alphas.insert(0);
    alphas.insert(255);
    assert_eq!(listed(&describe_node(&painted, &[], &alphas, 100)), vec![ComparableColor::transparent(), c(0x00ff00)]);
    let upscaled = ToPixmapTaskSpec::UpscaleFromGridSize { base: Box::new(svg) };
    assert_eq!(listed(&describe_node(&upscaled, &fg, &empty, 100)), listed(&fg[0]));
}

#[test]
fn alpha_values_of_one_node_from_its_inputs() {
    let svg = svg_alpha_task("borderSolid");
    let image = ColorDescription::SpecifiedColors(vec![ComparableColor::transparent(), gray(0)]);
    assert_eq!(alpha_node(&svg, vec![], Some(&image)).to_vec(), vec![0, 255]);
    let half = ToAlphaChannelTaskSpec::MakeSemitransparent { base: Box::new(svg.clone()), alpha: 128 };
    assert_eq!(alpha_node(&half, vec![U8BitSet::from_slice(&[0, 255])], None).to_vec(), vec![0, 128]);
    let stacked = ToAlphaChannelTaskSpec::StackAlphaOnAlpha { background: Box::new(svg.clone()), foreground: Box::new(svg.clone()) };
    assert_eq!(alpha_node(&stacked, vec![U8BitSet::from_slice(&[255]), U8BitSet::from_slice(&[0])], None).to_vec(), vec![255]);
    assert_eq!(alpha_node(&stacked, vec![U8BitSet::from_slice(&[0]), U8BitSet::from_slice(&[0])], None).to_vec(), vec![0]);
    let on_clear = ToAlphaChannelTaskSpec::StackAlphaOnBackground { background: 0, foreground: Box::new(svg.clone()) };
    assert_eq!(alpha_node(&on_clear, vec![U8BitSet::from_slice(&[0, 255])], None).to_vec(), vec![0, 255]);
    let on_opaque = ToAlphaChannelTaskSpec::StackAlphaOnBackground { background: 255, foreground: Box::new(svg.clone()) };
    assert_eq!(alpha_node(&on_opaque, vec![U8BitSet::from_slice(&[0, 255])], None).to_vec(), vec![255]);
    let upscaled = ToAlphaChannelTaskSpec::UpscaleFromGridSize { base: Box::new(svg) };
    assert_eq!(alpha_node(&upscaled, vec![U8BitSet::from_slice(&[0, 255])], None).to_vec(), vec![0, 255]);
}
