use ochd::blocks::{andesite, blackstone, copper_oxides, diorite, granite};
use ochd::color::{c, gray, ComparableColor};
use ochd::command_blocks::{color_types, side_types, CommandBlocks};
use ochd::crops::{beetroots, carrots, nether_wart, potatoes, wheat};
use ochd::items::{clock, compass, recovery_compass, MusicDisc};
use ochd::ores::{coal, copper, deepslate_base, diamond, emerald, gold, iron, lapis, quartz, redstone, stone_base, Ore, Substrate};
use ochd::task_spec::FileOutputTaskSpec;
use ochd::texture::{numbered_name, paint_stack, stack_layers, stack_on_color, two_digit_name};
use ochd::task_spec::{from_svg_task, paint_svg_task};

fn names(tasks: &[FileOutputTaskSpec]) -> Vec<String> {
    tasks.iter().map(|t| t.to_display_string()).collect()
}

fn texture_of(task: &FileOutputTaskSpec) -> String {
    match task {
        FileOutputTaskSpec::PngOutput { base, .. } => base.to_display_string(),
        FileOutputTaskSpec::Copy { .. } => panic!("expected a PNG file"),
    }
}

#[test]
fn texture_helpers() {
    assert_eq!(numbered_name("clockDial", 17, ""), "clockDial17");
    assert_eq!(two_digit_name("item/clock_", 7, ""), "item/clock_07");
    assert_eq!(two_digit_name("item/clock_", 63, ".x"), "item/clock_63.x");
    assert_eq!(stack_on_color(ComparableColor::transparent(), from_svg_task("a")), from_svg_task("a"));
    assert_eq!(stack_on_color(gray(0), from_svg_task("a")).to_display_string(), "#000000ff+a");
    assert_eq!(paint_stack(c(0xff0000), &["streaks", "borderSolid"]).to_display_string(), "(alpha(borderSolid)+alpha(streaks))@#ff0000ff");
    let layers = vec![from_svg_task("a"), from_svg_task("b"), from_svg_task("c")];
    assert_eq!(stack_layers(&layers).to_display_string(), "((alpha(a)+alpha(b))+alpha(c))@#000000ff");
    let colored = vec![from_svg_task("clockFrame"), from_svg_task("b")];
    assert_eq!(stack_layers(&colored).to_display_string(), "(clockFrame+b)");
}

#[test]
fn clock_and_compasses() {
    let clock_tasks = clock().get_output_tasks();
    assert_eq!(clock_tasks.len(), 64);
    assert_eq!(clock_tasks[0].to_display_string(), "assets/minecraft/textures/item/clock_00.png");
    assert_eq!(texture_of(&clock_tasks[5]), "(clockDial5+clockFrame)");
    let compass_tasks = compass().get_output_tasks();
    assert_eq!(compass_tasks.len(), 32);
    assert_eq!(compass_tasks[31].to_display_string(), "assets/minecraft/textures/item/compass_31.png");
    assert_eq!(
        texture_of(&compass_tasks[3]),
        "(((circle32@#ffffffff+compassRim)+circle28@#2f2f3fff)+compass3@#ff0000ff)"
    );
    assert_eq!(recovery_compass().get_output_tasks()[9].to_display_string(), "assets/minecraft/textures/item/recovery_compass_09.png");
}

#[test]
fn music_disc() {
    let disc = MusicDisc { name: "far", color: c(0xb02e26) };
    let tasks = disc.get_output_tasks();
    assert_eq!(names(&tasks), vec!["assets/minecraft/textures/item/music_disc_far.png"]);
}

#[test]
fn crops() {
    let carrot_tasks = carrots().get_output_tasks();
    assert_eq!(carrot_tasks.len(), 4);
    assert_eq!(carrot_tasks[0].to_display_string(), "assets/minecraft/textures/block/carrots_stage0.png");
    assert_eq!(texture_of(&carrot_tasks[1]), "carrots1@#256325ff");
    assert_eq!(texture_of(&carrot_tasks[3]), "(carrots3Stems@#55ff2dff+rootVeg@#ff8000ff)");
    assert_eq!(beetroots().get_output_tasks().len(), 4);
    assert_eq!(texture_of(&potatoes().get_output_tasks()[3]), "(flowerStemShort@#55ff2dff+potato@#d97b30ff)");
    let wheat_tasks = wheat().get_output_tasks();
    assert_eq!(wheat_tasks.len(), 8);
    assert_eq!(texture_of(&wheat_tasks[2]), "(wheat2@#636300ff+wheatTexture2@#888836ff)");
    let wart = nether_wart(c(0x800000), c(0xff0000)).get_output_tasks();
    assert_eq!(wart.len(), 3);
    assert_eq!(texture_of(&wart[1]), "wart1@#800000ff");
    assert_eq!(wart[2].to_display_string(), "assets/minecraft/textures/block/nether_wart_stage2.png");
}

#[test]
fn command_blocks() {
    assert_eq!(side_types().len(), 4);
    assert_eq!(color_types().len(), 3);
    let tasks = CommandBlocks::CommandBlocks.get_output_tasks();
    assert_eq!(tasks.len(), 12);
    assert_eq!(tasks[0].to_display_string(), "assets/minecraft/textures/block/command_block_front.png");
    assert_eq!(tasks[7].to_display_string(), "assets/minecraft/textures/block/chain_command_block_conditional.png");
    assert_eq!(tasks[11].to_display_string(), "assets/minecraft/textures/block/repeating_command_block_conditional.png");
}

#[test]
fn ores() {
    let plain = Ore::new("tin", gray(1), gray(2), gray(3));
    assert_eq!(
        names(&plain.get_output_tasks()),
        vec![
            "assets/minecraft/textures/block/tin_ore.png",
            "assets/minecraft/textures/block/deepslate_tin_ore.png",
            "assets/minecraft/textures/block/tin_block.png",
            "assets/minecraft/textures/item/tin.png",
        ]
    );
    let iron_tasks = iron().get_output_tasks();
    assert_eq!(
        names(&iron_tasks)[2..].to_vec(),
        vec![
            "assets/minecraft/textures/block/iron_block.png",
            "assets/minecraft/textures/block/raw_iron_block.png",
            "assets/minecraft/textures/item/raw_iron.png",
            "assets/minecraft/textures/item/iron_ingot.png",
        ]
    );
    assert_eq!(gold().get_output_tasks()[2].to_display_string(), "assets/minecraft/textures/block/nether_gold_ore.png");
    let quartz_names = names(&quartz().get_output_tasks());
    assert_eq!(quartz_names, vec!["assets/minecraft/textures/block/nether_quartz_ore.png", "assets/minecraft/textures/item/quartz.png"]);
    assert_eq!(lapis().get_output_tasks().last().unwrap().to_display_string(), "assets/minecraft/textures/item/lapis_lazuli.png");
    assert_eq!(copper().get_output_tasks().len(), 6);
    assert_eq!(coal().get_output_tasks().len(), 4);
    assert_eq!(diamond().get_output_tasks().len(), 4);
    assert_eq!(emerald().get_output_tasks().len(), 4);
    assert_eq!(redstone(c(0xff5e5e)).get_output_tasks().len(), 4);
    let coal_deepslate = coal().ore_block_task(Substrate::Deepslate).to_display_string();
    assert!(coal_deepslate.contains("coalBorder"));
    assert!(!coal().ore_block_task(Substrate::Stone).to_display_string().contains("coalBorder"));
    assert_eq!(stone_base().block_name_prefix, "");
    assert_eq!(deepslate_base().texture().to_display_string(), "#555555ff+(diagonalChecksBottomLeftTopRight@#777777ff+diagonalChecksTopLeftBottomRight@#2f2f3fff)");
    assert_eq!(plain.default_single_layer_item(), paint_svg_task("tin", gray(1)));
}

#[test]
fn polishable_blocks_and_copper() {
    let tasks = andesite().get_output_tasks();
    assert_eq!(names(&tasks), vec!["assets/minecraft/textures/block/andesite.png", "assets/minecraft/textures/block/polished_andesite.png"]);
    assert!(texture_of(&tasks[1]).contains("borderSolidTopLeft"));
    assert_eq!(diorite().name, "diorite");
    assert_eq!(granite().get_output_tasks().len(), 2);
    assert_eq!(texture_of(&blackstone().get_output_tasks()[0]).starts_with("#000000ff+"), true);
    let oxides = copper_oxides();
    assert_eq!(oxides.len(), 3);
    assert_eq!(
        names(&oxides[1].get_output_tasks()),
        vec!["assets/minecraft/textures/block/weathered_copper.png", "assets/minecraft/textures/block/cut_weathered_copper.png"]
    );
}
