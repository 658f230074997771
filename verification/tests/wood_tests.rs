use ochd::color::{c, gray, rgba, ComparableColor};
use ochd::stack::stack;
use ochd::task_spec::{from_svg_task, paint_svg_task, FileOutputTaskSpec, ToPixmapTaskSpec};
use ochd::texture::{stack_four, stack_on_color, stack_three};
use ochd::wood::{
    acacia, birch, crimson, dark_oak, empty_task, jungle, mangrove, nether_fungi, nether_fungus, oak,
    overworld_wood, overworld_woods, spruce, warped, Wood, WoodKind,
};

fn names(tasks: &[FileOutputTaskSpec]) -> Vec<String> {
    tasks.iter().map(|t| t.to_display_string()).collect()
}

fn texture_of(task: &FileOutputTaskSpec) -> ToPixmapTaskSpec {
    match task {
        FileOutputTaskSpec::PngOutput { base, .. } => base.clone(),
        FileOutputTaskSpec::Copy { .. } => panic!("expected a PNG file"),
    }
}

#[test]
fn quarter_strengths_round_like_float_multiplication() {
    for alpha in 0..=255u8 {
        for quarters in 0..=4u8 {
            let color = rgba(1, 2, 3, alpha);
            let expected = (f32::from(alpha) * (quarters as f32 / 4.0) + 0.5) as u8;
            let scaled = color.times_quarters(quarters);
            assert_eq!(scaled.alpha, expected, "alpha {} times {}/4", alpha, quarters);
            assert_eq!((scaled.red, scaled.green, scaled.blue), (1, 2, 3));
        }
    }
    assert_eq!(gray(0).times_quarters(2).alpha, 128);
    assert_eq!(gray(0).times_quarters(3).alpha, 191);
}

#[test]
fn overworld_wood_file_names() {
    let tasks = acacia().get_output_tasks();
    assert_eq!(
        names(&tasks),
        vec![
            "assets/minecraft/textures/block/acacia_log.png",
            "assets/minecraft/textures/block/stripped_acacia_log.png",
            "assets/minecraft/textures/block/stripped_acacia_log_top.png",
            "assets/minecraft/textures/block/acacia_log_top.png",
            "assets/minecraft/textures/block/acacia_trapdoor.png",
            "assets/minecraft/textures/block/acacia_door_top.png",
            "assets/minecraft/textures/block/acacia_door_bottom.png",
            "assets/minecraft/textures/block/acacia_leaves.png",
            "assets/minecraft/textures/block/acacia_sapling.png",
            "assets/minecraft/textures/block/acacia_planks.png",
        ]
    );
    let mangrove_names = names(&mangrove().get_output_tasks());
    assert_eq!(mangrove_names[8], "assets/minecraft/textures/block/mangrove_propagule.png");
}

#[test]
fn nether_fungus_file_names() {
    let tasks = crimson().get_output_tasks();
    assert_eq!(tasks.len(), 10);
    assert_eq!(tasks[0].to_display_string(), "assets/minecraft/textures/block/crimson_stem.png");
    assert_eq!(tasks[3].to_display_string(), "assets/minecraft/textures/block/crimson_stem_top.png");
    assert_eq!(tasks[7].to_display_string(), "assets/minecraft/textures/block/crimson_wart_block.png");
    assert_eq!(tasks[8].to_display_string(), "assets/minecraft/textures/block/crimson_fungus.png");
    assert_eq!(warped().get_output_tasks()[9].to_display_string(), "assets/minecraft/textures/block/warped_planks.png");
}

#[test]
fn planks_waves_follow_strengths() {
    let wood = oak();
    let expected = stack_on_color(
        wood.color,
        stack_four(
            paint_svg_task("waves2", rgba(0xc2, 0x9d, 0x62, 128)),
            paint_svg_task("waves", rgba(0x70, 0x58, 0x3b, 128)),
            paint_svg_task("planksTopBorder", wood.shadow),
            paint_svg_task("borderShortDashes", wood.highlight),
        ),
    );
    assert_eq!(wood.planks(), expected);
    let full = jungle();
    let expected_full = stack_on_color(
        c(0x915431),
        stack_four(
            paint_svg_task("waves2", c(0x795b4b)),
            paint_svg_task("waves", c(0x8a593a)),
            paint_svg_task("planksTopBorder", c(0x8a593a)),
            paint_svg_task("borderShortDashes", c(0x795b4b)),
        ),
    );
    assert_eq!(full.planks(), expected_full);
    let fungus = crimson().planks().to_display_string();
    assert!(fungus.contains("waves2@#4b2737bf"));
    assert_eq!(birch().planks_highlight_quarters, 4);
    assert_eq!(birch().planks_shadow_quarters, 2);
}

#[test]
fn shared_textures_of_a_family() {
    let wood = spruce();
    let tasks = wood.get_output_tasks();
    assert_eq!(texture_of(&tasks[0]), wood.overworld_bark());
    assert_eq!(texture_of(&tasks[1]), wood.overworld_stripped_log_side());
    assert_eq!(texture_of(&tasks[2]), wood.overworld_stripped_log_top());
    assert_eq!(texture_of(&tasks[3]), wood.overworld_log_top(wood.overworld_stripped_log_top()));
    assert_eq!(texture_of(&tasks[9]), wood.planks());
    let fungus = warped();
    let fungus_tasks = fungus.get_output_tasks();
    assert_eq!(texture_of(&fungus_tasks[0]), fungus.fungus_bark());
    assert_eq!(texture_of(&fungus_tasks[1]), fungus.fungus_stripped_log_side());
    assert_eq!(texture_of(&fungus_tasks[2]), fungus.fungus_stripped_log_top());
    assert_eq!(texture_of(&fungus_tasks[3]), fungus.fungus_log_top(fungus.fungus_stripped_log_top()));
}

#[test]
fn log_top_rings_the_stripped_end() {
    let wood = oak();
    let stripped = wood.overworld_stripped_log_top();
    let expected = stack_three(
        stripped.clone(),
        paint_svg_task("borderSolid", wood.bark_color),
        paint_svg_task("borderDotted", wood.bark_shadow),
    );
    assert_eq!(wood.overworld_log_top(stripped), expected);
    assert_eq!(wood.fungus_log_top(from_svg_task("ignored")), wood.fungus_log_top(from_svg_task("other")));
}

#[test]
fn doors_reuse_their_bottom_half() {
    for wood in [acacia(), dark_oak(), mangrove(), spruce(), crimson(), warped()] {
        let tasks = wood.get_output_tasks();
        let bottom = texture_of(&tasks[6]);
        assert_eq!(texture_of(&tasks[5]), stack(bottom.clone(), from_svg_task("doorKnob")));
        assert_eq!(wood.default_door_top(bottom.clone(), empty_task()), texture_of(&tasks[5]));
    }
    let jungle_wood = jungle();
    let jungle_tasks = jungle_wood.get_output_tasks();
    let hinges = stack(
        paint_svg_task("doorHingesBig", ComparableColor::stone_shadow()),
        paint_svg_task("doorHinges", ComparableColor::stone()),
    );
    assert_eq!(texture_of(&jungle_tasks[6]), stack(jungle_wood.planks(), hinges));
    let birch_top = texture_of(&birch().get_output_tasks()[5]).to_display_string();
    assert!(birch_top.contains("doorKnob"));
    assert!(birch_top.contains("craftingGridSpaces"));
}

#[test]
fn oak_trapdoor_and_door() {
    let wood = oak();
    let tasks = wood.get_output_tasks();
    let half_color = rgba(0xaf, 0x8f, 0x55, 128);
    let common = stack_three(
        stack(paint_svg_task("borderSolidThick", wood.color), paint_svg_task("borderSolid", wood.highlight)),
        paint_svg_task("cross", wood.highlight),
        stack(paint_svg_task("2x2TopLeft", wood.shadow), paint_svg_task("borderShortDashes", half_color)),
    );
    let trapdoor = stack_three(
        common.clone(),
        paint_svg_task("trapdoorHingesBig", ComparableColor::stone()),
        paint_svg_task("trapdoorHinges", ComparableColor::stone_highlight()),
    );
    assert_eq!(texture_of(&tasks[4]), trapdoor);
    let bottom = stack_on_color(
        wood.color,
        stack_three(
            paint_svg_task("waves", wood.highlight),
            common,
            stack(
                paint_svg_task("doorHingesBig", ComparableColor::stone()),
                paint_svg_task("doorHinges", ComparableColor::stone_highlight()),
            ),
        ),
    );
    assert_eq!(texture_of(&tasks[6]), bottom);
}

#[test]
fn leaves_and_saplings() {
    let wood = acacia();
    let tasks = wood.get_output_tasks();
    assert_eq!(
        texture_of(&tasks[7]),
        stack(paint_svg_task("leaves1", gray(0x88)), paint_svg_task("leaves1a", gray(0xbb)))
    );
    assert_eq!(
        texture_of(&tasks[8]),
        stack_three(
            paint_svg_task("saplingStem", c(0x70583b)),
            paint_svg_task("acaciaSapling", c(0x6c9e38)),
            paint_svg_task("acaciaSapling2", c(0xc9d7a5)),
        )
    );
    let crimson_leaves = texture_of(&crimson().get_output_tasks()[7]).to_display_string();
    assert!(crimson_leaves.starts_with("#7b0000ff+"));
    assert!(texture_of(&warped().get_output_tasks()[8]).to_display_string().contains("warpedFungusSpots@#ff6500ff"));
}

#[test]
fn no_output_holds_the_empty_placeholder() {
    for wood in overworld_woods().into_iter().chain(nether_fungi()) {
        for task in wood.get_output_tasks() {
            assert!(texture_of(&task).has_no_empty(), "{}", task.to_display_string());
        }
    }
    assert_eq!(empty_task(), ToPixmapTaskSpec::Empty);
}

#[test]
fn constructors() {
    let wood: Wood = overworld_wood("test", gray(1), gray(2), gray(3), gray(4), gray(5), gray(6), WoodKind::Oak);
    assert_eq!((wood.log_synonym, wood.leaves_synonym, wood.sapling_synonym), ("log", "leaves", "sapling"));
    assert_eq!((wood.leaves_color, wood.leaves_highlight, wood.leaves_shadow), (gray(0x99), gray(0xbb), gray(0x88)));
    assert_eq!((wood.planks_highlight_quarters, wood.planks_shadow_quarters), (2, 2));
    let fungus = nether_fungus("f", gray(1), gray(2), gray(3), gray(4), gray(5), gray(6), gray(7), gray(8), gray(9), WoodKind::Warped);
    assert_eq!((fungus.log_synonym, fungus.leaves_synonym, fungus.sapling_synonym), ("stem", "wart_block", "fungus"));
    assert_eq!(fungus.leaves_shadow, gray(9));
    assert_eq!((fungus.planks_highlight_quarters, fungus.planks_shadow_quarters), (3, 3));
    assert_eq!(overworld_woods().len(), 7);
    assert_eq!(nether_fungi().len(), 2);
}
