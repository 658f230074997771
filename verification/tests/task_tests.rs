use ochd::color::{c, gray, rgba, ComparableColor};
use ochd::color_description::{ColorDescription, Transparency};
use ochd::png_mode::{color_description_to_mode, ColorMode};
use ochd::color::BitDepth;
use ochd::stack::stack;
use ochd::stack_alpha::stack_alpha;
use ochd::task_spec::{
    from_svg_task, out_task, paint_svg_task, paint_task, svg_alpha_task, svg_color_description, FileOutputTaskSpec,
    TaskSpec, TileSized, ToAlphaChannelTaskSpec, ToPixmapTaskSpec,
};

fn red() -> ComparableColor {
    ComparableColor::red_color()
}

#[test]
fn painting_a_black_svg_black_is_the_svg() {
    let task = paint_svg_task("borderSolid", ComparableColor::black());
    assert_eq!(task, from_svg_task("borderSolid"));
    let colored = paint_svg_task("clockFrame", ComparableColor::black());
    assert_eq!(colored.to_display_string(), "clockFrame@#000000ff");
    assert_eq!(paint_svg_task("borderSolid", red()).to_display_string(), "borderSolid@#ff0000ff");
}

#[test]
fn repainting_an_opaque_paint_paints_the_alpha_channel() {
    let painted = paint_svg_task("streaks", red());
    let repainted = paint_task(ToAlphaChannelTaskSpec::FromPixmap { base: painted }, c(0x00ff00));
    assert_eq!(repainted, paint_svg_task("streaks", c(0x00ff00)));
    let half = paint_svg_task("streaks", rgba(255, 0, 0, 128));
    let kept = paint_task(ToAlphaChannelTaskSpec::FromPixmap { base: half.clone() }, c(0x00ff00));
    assert_eq!(kept.to_display_string(), "streaks@#ff000080@#00ff00ff");
}

#[test]
fn stack_merges_layers_of_one_color() {
    let merged = stack(paint_svg_task("streaks", red()), paint_svg_task("borderSolid", red()));
    assert_eq!(merged.to_display_string(), "(alpha(borderSolid)+alpha(streaks))@#ff0000ff");
    let separate = stack(paint_svg_task("streaks", red()), paint_svg_task("borderSolid", c(0x0000ff)));
    assert_eq!(separate.to_display_string(), "(streaks@#ff0000ff+borderSolid@#0000ffff)");
}

#[test]
fn stack_merges_upscaled_layers_before_upscaling() {
    let a = ToPixmapTaskSpec::UpscaleFromGridSize { base: Box::new(from_svg_task("compassRim")) };
    let b = ToPixmapTaskSpec::UpscaleFromGridSize { base: Box::new(from_svg_task("clockFrame")) };
    assert_eq!(stack(a, b).to_display_string(), "upscale((compassRim+clockFrame))");
}

#[test]
fn stack_merges_with_the_nearest_layer_of_a_stack() {
    let lower = stack(paint_svg_task("circle32", c(0x0000ff)), paint_svg_task("streaks", red()));
    let top = stack(lower, paint_svg_task("borderSolid", red()));
    assert_eq!(
        top.to_display_string(),
        "(circle32@#0000ffff+(alpha(borderSolid)+alpha(streaks))@#ff0000ff)"
    );
}

#[test]
fn stack_alpha_flattens_and_sorts_layers() {
    let stacked = stack_alpha(vec![svg_alpha_task("streaks"), svg_alpha_task("borderSolid"), svg_alpha_task("circle32")]);
    assert_eq!(stacked.to_display_string(), "((alpha(borderSolid)+alpha(circle32))+alpha(streaks))");
    let with_upscaled = stack_alpha(vec![
        ToAlphaChannelTaskSpec::UpscaleFromGridSize { base: Box::new(svg_alpha_task("streaks")) },
        svg_alpha_task("circle32"),
        ToAlphaChannelTaskSpec::UpscaleFromGridSize { base: Box::new(svg_alpha_task("borderSolid")) },
    ]);
    assert_eq!(
        with_upscaled.to_display_string(),
        "(alpha(circle32)+upscale((alpha(borderSolid)+alpha(streaks))))"
    );
    assert_eq!(stack_alpha(vec![svg_alpha_task("streaks")]), svg_alpha_task("streaks"));
}

#[test]
fn alpha_and_color_of_images() {
    let (alpha, color) = paint_svg_task("streaks", red()).alpha_and_color().unwrap();
    assert_eq!(alpha, svg_alpha_task("streaks"));
    assert_eq!(color, red());
    let (black_alpha, black) = from_svg_task("borderSolid").alpha_and_color().unwrap();
    assert_eq!(black_alpha, svg_alpha_task("borderSolid"));
    assert_eq!(black, gray(0));
    assert!(from_svg_task("clockFrame").alpha_and_color().is_none());
    let on_color = ToPixmapTaskSpec::StackLayerOnColor { background: red(), foreground: Box::new(from_svg_task("streaks")) };
    assert!(on_color.alpha_and_color().is_none());
}

#[test]
fn grid_perfect_images() {
    assert!(from_svg_task("borderSolid").is_grid_perfect());
    assert!(!from_svg_task("streaks").is_grid_perfect());
    assert!(!from_svg_task("clockFrame").is_grid_perfect());
    let up = ToPixmapTaskSpec::UpscaleFromGridSize { base: Box::new(from_svg_task("streaks")) };
    assert!(up.is_grid_perfect());
    assert!(svg_alpha_task("checksSmall").is_grid_perfect());
}

#[test]
fn output_paths_and_text_forms() {
    let out = out_task("block/stone", from_svg_task("streaks"));
    assert_eq!(out.get_path(), "assets/minecraft/textures/block/stone.png");
    assert_eq!(out.to_display_string(), "assets/minecraft/textures/block/stone.png");
    let copy = FileOutputTaskSpec::Copy { original: Box::new(out.clone()), link_name: "block/smooth_stone".to_string() };
    assert_eq!(
        copy.to_display_string(),
        "symlink(assets/minecraft/textures/block/smooth_stone.png -> assets/minecraft/textures/block/stone.png)"
    );
    let task = TaskSpec::from_output_task(&out);
    assert_eq!(task.to_display_string(), out.to_display_string());
    let semi = ToAlphaChannelTaskSpec::MakeSemitransparent { base: Box::new(svg_alpha_task("streaks")), alpha: 128 };
    assert_eq!(semi.to_display_string(), "alpha(streaks)@128");
    let on_background = ToAlphaChannelTaskSpec::StackAlphaOnBackground { background: 7, foreground: Box::new(svg_alpha_task("streaks")) };
    assert_eq!(on_background.to_display_string(), "(7+alpha(streaks))");
    let animation = ToPixmapTaskSpec::Animate {
        background: Box::new(from_svg_task("circle32")),
        frames: vec![from_svg_task("streaks"), from_svg_task("borderSolid")],
    };
    assert_eq!(animation.to_display_string(), "animate(circle32;streaks;borderSolid)");
    assert_eq!(ToPixmapTaskSpec::Empty.to_display_string(), "None");
    let sized = TileSized::new(from_svg_task("streaks"), 1024);
    assert_eq!(sized.to_display_string(), "streaks (size 1024)");
    let on_color = ToPixmapTaskSpec::StackLayerOnColor { background: red(), foreground: Box::new(from_svg_task("streaks")) };
    assert_eq!(on_color.to_display_string(), "#ff0000ff+streaks");
}

#[test]
fn svg_color_descriptions() {
    match svg_color_description(&"clockFrame".to_string()) {
        ColorDescription::Rgb(t) => assert_eq!(t, Transparency::AlphaChannel),
        _ => panic!("expected any colors"),
    }
    match svg_color_description(&"borderSolid".to_string()) {
        ColorDescription::SpecifiedColors(colors) => assert_eq!(colors, vec![ComparableColor::transparent(), gray(0)]),
        _ => panic!("expected listed colors"),
    }
    match svg_color_description(&"streaks".to_string()) {
        ColorDescription::SpecifiedColors(colors) => {
            assert_eq!(colors.len(), 256);
            assert_eq!(colors[255], gray(0));
        }
        _ => panic!("expected listed colors"),
    }
}

#[test]
fn storage_modes_for_descriptions() {
    let (mode, depth) = color_description_to_mode(&ColorDescription::Rgb(Transparency::Opaque));
    assert!(matches!(mode, ColorMode::Rgb { transparent_color: None }));
    assert_eq!(depth, BitDepth::Eight);
    let (mode, depth) = color_description_to_mode(&ColorDescription::Rgb(Transparency::Binary));
    assert!(matches!(mode, ColorMode::Rgb { transparent_color: Some((0xc0c0, 0xffff, 0x3e3e)) }));
    assert_eq!(depth, BitDepth::Eight);
    let (mode, depth) = color_description_to_mode(&ColorDescription::SpecifiedColors(vec![ComparableColor::transparent(), gray(0)]));
    assert!(matches!(mode, ColorMode::Grayscale { transparent_shade: Some(0xffff) }));
    assert_eq!(depth, BitDepth::One);
    let (mode, depth) = color_description_to_mode(&ColorDescription::SpecifiedColors(vec![gray(0), c(0xff0000)]));
    match mode {
        ColorMode::Indexed { palette } => assert_eq!(palette, vec![gray(0), c(0xff0000)]),
        _ => panic!("expected a palette"),
    }
    assert_eq!(depth, BitDepth::One);
}

#[test]
fn repainting_images_and_channels() {
    let red = c(0xff0000);
    let blue = c(0x0000ff);
    assert_eq!(paint_svg_task("a", red).repainted(blue), paint_svg_task("a", blue));
    assert_eq!(from_svg_task("a").repainted(red), paint_svg_task("a", red));
    assert_eq!(from_svg_task("a").repainted(gray(0)).to_display_string(), "a@#000000ff");
    let layered = ToPixmapTaskSpec::StackLayerOnColor { background: blue, foreground: Box::new(from_svg_task("a")) };
    assert_eq!(
        layered.clone().repainted(red),
        ToPixmapTaskSpec::PaintAlphaChannel {
            base: Box::new(ToAlphaChannelTaskSpec::FromPixmap { base: layered }),
            color: red,
        }
    );
    assert_eq!(svg_alpha_task("a").painted(red), paint_svg_task("a", red));
    assert_eq!(svg_alpha_task("a").painted(gray(0)), from_svg_task("a"));
    let stacked = stack(from_svg_task("a"), from_svg_task("b"));
    assert_eq!(stacked.clone().repainted(red).to_display_string(), stacked.repainted(blue).to_display_string().replace("#0000ffff", "#ff0000ff"));
}

#[test]
fn grayscale_markers_avoid_every_listed_level() {
    // Every two-bit level is used, so the marker moves to a four-bit level that no color has.
    let full_two_bit = vec![ComparableColor::transparent(), gray(0), gray(0x55), gray(0xaa), gray(0xff)];
    let (mode, depth) = color_description_to_mode(&ColorDescription::SpecifiedColors(full_two_bit.clone()));
    match mode {
        ColorMode::Grayscale { transparent_shade: Some(shade) } => {
            assert_eq!(shade, 0x2222);
            assert!(full_two_bit.iter().all(|c| c.alpha == 0 || c.red != (shade / 256) as u8));
        }
        _ => panic!("expected grayscale with a marker"),
    }
    assert_eq!(depth, BitDepth::Four);
    // Both one-bit levels are used: the marker is a two-bit level.
    let (mode, depth) = color_description_to_mode(&ColorDescription::SpecifiedColors(vec![
        ComparableColor::transparent(),
        gray(0),
        gray(0xff),
    ]));
    assert!(matches!(mode, ColorMode::Grayscale { transparent_shade: Some(0x5555) }));
    assert_eq!(depth, BitDepth::Two);
    // A free level is taken as it is.
    let (mode, _) = color_description_to_mode(&ColorDescription::SpecifiedColors(vec![
        ComparableColor::transparent(),
        gray(0),
        gray(0xaa),
    ]));
    assert!(matches!(mode, ColorMode::Grayscale { transparent_shade: Some(0x5555) }));
}

#[test]
fn stacking_alpha_layers_ignores_their_order() {
    let layers = vec![
        svg_alpha_task("b"),
        svg_alpha_task("a"),
        ToAlphaChannelTaskSpec::UpscaleFromGridSize { base: Box::new(svg_alpha_task("d")) },
        ToAlphaChannelTaskSpec::MakeSemitransparent { base: Box::new(svg_alpha_task("c")), alpha: 128 },
        ToAlphaChannelTaskSpec::UpscaleFromGridSize { base: Box::new(svg_alpha_task("e")) },
    ];
    let expected = stack_alpha(layers.clone());
    let orders: [[usize; 5]; 4] = [[4, 3, 2, 1, 0], [2, 0, 4, 1, 3], [1, 2, 3, 4, 0], [3, 4, 0, 2, 1]];
    for order in orders.iter() {
        let permuted: Vec<ToAlphaChannelTaskSpec> = order.iter().map(|&i| layers[i].clone()).collect();
        assert_eq!(stack_alpha(permuted), expected);
    }
}
