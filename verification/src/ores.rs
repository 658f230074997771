use crate::color::{c, c_spec, gray, gray_spec, rgb, rgb_spec, rgba, rgba_spec, ComparableColor};
use crate::stack::{spec_stack, stack};
use crate::task_order::{compare_texts, text_order};
use crate::task_spec::{
    out_task, pixmap_has_no_empty, spec_paint_svg_task, FileOutputTaskSpec, OutputTask, PixmapTask, ToPixmapTaskSpec,
};
use crate::texture::{
    paint_pair, painted_svg, spec_paint_stack, spec_stack_on_color, stack3, stack4, stack_four, stack_on_color,
    stack_three, ColorTriad,
};
use vstd::prelude::*;

verus! {

// ---------------------------------------------------------------------------------------------
// The rock that ores are found in
// ---------------------------------------------------------------------------------------------

/// The rock that an ore block is set in.
#[derive(Copy, Clone, Debug, PartialEq, Eq, Structural)]
pub enum Substrate {
    Stone,
    Deepslate,
    Netherrack,
}

/// The texture of a rock: its checks and circles over its color.
pub open spec fn substrate_texture(substrate: Substrate) -> PixmapTask {
    match substrate {
        Substrate::Stone => spec_stack_on_color(
            gray_spec(0x88),
            stack3(
                spec_paint_svg_task("checksQuarterCircles"@, gray_spec(0xaa)),
                spec_paint_svg_task("checksQuarterCircles2"@, gray_spec(0x77)),
                spec_paint_svg_task("circle24"@, rgba_spec(0x88, 0x88, 0x88, 191)),
            ),
        ),
        Substrate::Deepslate => spec_stack_on_color(
            gray_spec(0x55),
            spec_stack(
                spec_paint_svg_task("diagonalChecksBottomLeftTopRight"@, gray_spec(0x77)),
                spec_paint_svg_task("diagonalChecksTopLeftBottomRight"@, c_spec(0x2f2f3f)),
            ),
        ),
        Substrate::Netherrack => spec_stack_on_color(
            c_spec(0x723232),
            stack3(
                spec_paint_svg_task("diagonalChecksTopLeftBottomRight"@, c_spec(0x500000)),
                spec_paint_svg_task("diagonalChecksBottomLeftTopRight"@, c_spec(0x854242)),
                spec_paint_stack(
                    c_spec(0x723232),
                    seq!["diagonalChecksFillTopLeftBottomRight"@, "diagonalChecksFillBottomLeftTopRight"@],
                ),
            ),
        ),
    }
}

/// The texture of a rock (see [`substrate_texture`]).
pub fn substrate_task(substrate: Substrate) -> (r: ToPixmapTaskSpec)
    ensures
        r@ == substrate_texture(substrate),
        pixmap_has_no_empty(r@),
{
    match substrate {
        Substrate::Stone => stack_on_color(
            gray(0x88),
            stack_three(
                painted_svg("checksQuarterCircles", gray(0xaa)),
                painted_svg("checksQuarterCircles2", gray(0x77)),
                painted_svg("circle24", rgba(0x88, 0x88, 0x88, 191)),
            ),
        ),
        Substrate::Deepslate => stack_on_color(
            gray(0x55),
            stack(
                painted_svg("diagonalChecksBottomLeftTopRight", gray(0x77)),
                painted_svg("diagonalChecksTopLeftBottomRight", c(0x2f2f3f)),
            ),
        ),
        Substrate::Netherrack => stack_on_color(
            c(0x723232),
            stack_three(
                painted_svg("diagonalChecksTopLeftBottomRight", c(0x500000)),
                painted_svg("diagonalChecksBottomLeftTopRight", c(0x854242)),
                paint_pair(c(0x723232), "diagonalChecksFillTopLeftBottomRight", "diagonalChecksFillBottomLeftTopRight"),
            ),
        ),
    }
}

/// A rock that ores are found in, with the prefix of the names of its ore blocks.
#[derive(Copy, Clone, Debug)]
pub struct OreBase {
    pub block_name_prefix: &'static str,
    pub substrate: Substrate,
}

impl OreBase {
    /// The texture of the rock.
    pub fn texture(&self) -> (r: ToPixmapTaskSpec)
        ensures
            r@ == substrate_texture(self.substrate),
            pixmap_has_no_empty(r@),
    {
        substrate_task(self.substrate)
    }
}

/// Stone, whose ore blocks have no prefix.
pub fn stone_base() -> (r: OreBase)
    ensures
        r.block_name_prefix@ == ""@,
        r.substrate == Substrate::Stone,
{
    OreBase { block_name_prefix: "", substrate: Substrate::Stone }
}

/// Deepslate, whose ore blocks start with `deepslate_`.
pub fn deepslate_base() -> (r: OreBase)
    ensures
        r.block_name_prefix@ == "deepslate_"@,
        r.substrate == Substrate::Deepslate,
{
    OreBase { block_name_prefix: "deepslate_", substrate: Substrate::Deepslate }
}

/// Netherrack, whose ore blocks start with `nether_`.
pub fn netherrack_base() -> (r: OreBase)
    ensures
        r.block_name_prefix@ == "nether_"@,
        r.substrate == Substrate::Netherrack,
{
    OreBase { block_name_prefix: "nether_", substrate: Substrate::Netherrack }
}

// ---------------------------------------------------------------------------------------------
// Ores
// ---------------------------------------------------------------------------------------------

/// How an ore's raw item is drawn.
#[derive(Copy, Clone, Debug, PartialEq, Eq, Structural)]
pub enum RawItemStyle {
    Basic,
    Lapis,
    Diamond,
    Gold,
    Quartz,
    Emerald,
}

/// How an ore's block of refined material is drawn.
#[derive(Copy, Clone, Debug, PartialEq, Eq, Structural)]
pub enum RefinedBlockStyle {
    Basic,
    Coal,
    Lapis,
    Diamond,
    Emerald,
}

/// How an ore block is drawn over its rock.
#[derive(Copy, Clone, Debug, PartialEq, Eq, Structural)]
pub enum OreBlockStyle {
    /// The ore's single-layer item over the rock.
    Basic,
    /// As `Basic`, with a border over deepslate.
    Coal,
    /// Shadows and highlights over the rock.
    Redstone,
    /// The raw item over the rock.
    RawItemBased,
}

/// An ore: the ore blocks of each rock it is found in, its block, and its raw item, with the
/// raw block and ingot of ores that need refining.
pub struct Ore {
    pub name: &'static str,
    pub colors: ColorTriad,
    pub substrates: Vec<OreBase>,
    pub needs_refining: bool,
    pub svg_name: &'static str,
    pub item_name: &'static str,
    pub refined_colors: ColorTriad,
    pub raw_item: RawItemStyle,
    pub refined_block: RefinedBlockStyle,
    pub ore_block_for_substrate: OreBlockStyle,
}

/// The ore's item drawn in one layer: its image painted its color.
pub open spec fn single_layer_item(ore: Ore) -> PixmapTask {
    spec_paint_svg_task(ore.svg_name@, ore.colors.color)
}

/// The raw item of an ore.
pub open spec fn raw_item_texture(ore: Ore) -> PixmapTask {
    match ore.raw_item {
        RawItemStyle::Basic => stack3(
            spec_paint_svg_task("circle32BottomLeftTopRight"@, ore.colors.shadow),
            spec_paint_svg_task("circle32TopLeftBottomRight"@, ore.colors.color),
            spec_paint_svg_task(ore.svg_name@, ore.colors.highlight),
        ),
        RawItemStyle::Lapis => stack3(
            spec_paint_svg_task("lapis"@, ore.colors.color),
            spec_paint_svg_task("lapisHighlight"@, ore.colors.highlight),
            spec_paint_svg_task("lapisShadow"@, ore.colors.shadow),
        ),
        RawItemStyle::Diamond => spec_stack(
            spec_paint_svg_task("diamond1"@, c_spec(0xd5ffff)),
            spec_paint_svg_task("diamond2"@, ore.colors.shadow),
        ),
        RawItemStyle::Gold => stack3(
            spec_paint_svg_task("circle32BottomLeftTopRight"@, ore.colors.highlight),
            spec_paint_svg_task("circle32TopLeftBottomRight"@, ore.colors.color),
            spec_paint_svg_task("gold"@, ore.colors.shadow),
        ),
        RawItemStyle::Quartz => stack3(
            spec_paint_svg_task("quartzChunk"@, ore.colors.color),
            spec_paint_stack(ore.colors.highlight, seq!["diamond2"@, "quartzChunkTopLeftBottomRight"@]),
            spec_paint_svg_task("quartz"@, ore.colors.shadow),
        ),
        RawItemStyle::Emerald => spec_stack(
            spec_paint_svg_task("emerald"@, ore.colors.shadow),
            spec_paint_svg_task("emeraldTopLeft"@, ore.colors.highlight),
        ),
    }
}

/// The block of an ore's refined material.
pub open spec fn refined_block_texture(ore: Ore) -> PixmapTask {
    match ore.refined_block {
        RefinedBlockStyle::Basic => spec_stack_on_color(
            ore.refined_colors.color,
            stack3(
                spec_paint_svg_task("streaks"@, ore.refined_colors.highlight),
                spec_paint_stack(ore.refined_colors.shadow, seq![ore.svg_name@, "borderSolid"@]),
                spec_paint_svg_task("borderSolidTopLeft"@, ore.refined_colors.highlight),
            ),
        ),
        RefinedBlockStyle::Coal => spec_stack_on_color(
            ore.colors.color,
            stack3(
                spec_paint_stack(ore.refined_colors.highlight, seq!["streaks"@, "coalBorder"@]),
                spec_paint_stack(ore.refined_colors.shadow, seq!["coal"@, "borderSolid"@]),
                spec_paint_svg_task("borderSolidTopLeft"@, ore.refined_colors.highlight),
            ),
        ),
        RefinedBlockStyle::Lapis => spec_stack_on_color(
            ore.colors.highlight,
            stack4(
                spec_paint_svg_task("checksLarge"@, ore.colors.shadow),
                spec_paint_svg_task("checksSmall"@, ore.colors.color),
                spec_paint_svg_task("borderSolid"@, ore.colors.shadow),
                spec_paint_svg_task("borderSolidTopLeft"@, ore.colors.highlight),
            ),
        ),
        RefinedBlockStyle::Diamond => spec_stack_on_color(
            ore.colors.color,
            stack4(
                spec_paint_svg_task("streaks"@, ore.colors.highlight),
                raw_item_texture(ore),
                spec_paint_svg_task("borderSolid"@, ore.colors.shadow),
                spec_paint_svg_task("borderSolidTopLeft"@, c_spec(0xd5ffff)),
            ),
        ),
        RefinedBlockStyle::Emerald => spec_stack_on_color(
            ore.colors.highlight,
            stack3(
                spec_paint_svg_task("emerald"@, ore.colors.shadow),
                spec_paint_svg_task("borderSolid"@, ore.colors.color),
                spec_paint_stack(c_spec(0xd9ffeb), seq!["emeraldTopLeft"@, "borderSolidTopLeft"@]),
            ),
        ),
    }
}

/// The ingot of an ore that needs refining.
pub open spec fn ingot_texture(ore: Ore) -> PixmapTask {
    stack3(
        spec_paint_svg_task("ingotMask"@, ore.refined_colors.color),
        spec_paint_stack(ore.refined_colors.shadow, seq!["ingotBorder"@, ore.svg_name@]),
        spec_paint_svg_task("ingotBorderTopLeft"@, ore.refined_colors.highlight),
    )
}

/// The block of an ore's raw material.
pub open spec fn raw_block_texture(ore: Ore) -> PixmapTask {
    spec_stack_on_color(
        ore.colors.color,
        spec_stack(
            spec_paint_svg_task("checksSmall"@, ore.colors.highlight),
            spec_paint_svg_task(ore.svg_name@, ore.colors.shadow),
        ),
    )
}

/// The ore block of an ore in a rock.
pub open spec fn ore_block_texture(ore: Ore, substrate: Substrate) -> PixmapTask {
    let rock = substrate_texture(substrate);
    match ore.ore_block_for_substrate {
        OreBlockStyle::Coal => if substrate == Substrate::Deepslate {
            stack3(rock, spec_paint_svg_task("coalBorder"@, ore.colors.highlight), single_layer_item(ore))
        } else {
            spec_stack(rock, single_layer_item(ore))
        },
        OreBlockStyle::Redstone => stack3(
            rock,
            spec_paint_svg_task("redstoneShadows"@, ore.colors.shadow),
            spec_paint_svg_task("redstoneHighlights"@, ore.colors.highlight),
        ),
        OreBlockStyle::RawItemBased => spec_stack(rock, raw_item_texture(ore)),
        OreBlockStyle::Basic => spec_stack(rock, single_layer_item(ore)),
    }
}

/// The files of an ore, in order: one ore block per rock, the refined block (except for
/// quartz, whose block is drawn elsewhere), then the raw block, raw item and ingot of an ore
/// that needs refining, or else its item.
pub open spec fn ore_outputs(ore: Ore, substrates: Seq<OreBase>) -> Seq<OutputTask> {
    let blocks = Seq::new(
        substrates.len(),
        |i: int| OutputTask::PngOutput(
            ore_block_texture(ore, substrates[i].substrate),
            "block/"@ + substrates[i].block_name_prefix@ + ore.name@ + "_ore"@,
        ),
    );
    let refined = if ore.name@ == "quartz"@ {
        seq![]
    } else {
        seq![OutputTask::PngOutput(refined_block_texture(ore), "block/"@ + ore.name@ + "_block"@)]
    };
    let items = if ore.needs_refining {
        seq![
            OutputTask::PngOutput(raw_block_texture(ore), "block/raw_"@ + ore.name@ + "_block"@),
            OutputTask::PngOutput(raw_item_texture(ore), "item/raw_"@ + ore.item_name@),
            OutputTask::PngOutput(ingot_texture(ore), "item/"@ + ore.name@ + "_ingot"@),
        ]
    } else {
        seq![OutputTask::PngOutput(raw_item_texture(ore), "item/"@ + ore.item_name@)]
    };
    blocks + refined + items
}

impl Ore {
    /// An ore found in stone and deepslate, named and drawn after its image, with every
    /// texture in the basic style and the same colors for its refined material.
    pub fn new(name: &'static str, color: ComparableColor, shadow: ComparableColor, highlight: ComparableColor) -> (r: Ore)
        ensures
            r.name == name,
            r.colors == (ColorTriad { color, shadow, highlight }),
            r.substrates@.len() == 2,
            r.substrates@[0].block_name_prefix@ == ""@,
            r.substrates@[0].substrate == Substrate::Stone,
            r.substrates@[1].block_name_prefix@ == "deepslate_"@,
            r.substrates@[1].substrate == Substrate::Deepslate,
            !r.needs_refining,
            r.svg_name == name,
            r.item_name == name,
            r.refined_colors == r.colors,
            r.raw_item == RawItemStyle::Basic,
            r.refined_block == RefinedBlockStyle::Basic,
            r.ore_block_for_substrate == OreBlockStyle::Basic,
    {
        let mut substrates: Vec<OreBase> = Vec::new();
        substrates.push(stone_base());
        substrates.push(deepslate_base());
        Ore {
            name,
            colors: ColorTriad { color, shadow, highlight },
            substrates,
            needs_refining: false,
            svg_name: name,
            item_name: name,
            refined_colors: ColorTriad { color, shadow, highlight },
            raw_item: RawItemStyle::Basic,
            refined_block: RefinedBlockStyle::Basic,
            ore_block_for_substrate: OreBlockStyle::Basic,
        }
    }

    /// The ore's item drawn in one layer (see [`single_layer_item`]).
    pub fn default_single_layer_item(&self) -> (r: ToPixmapTaskSpec)
        ensures
            r@ == single_layer_item(*self),
            pixmap_has_no_empty(r@),
    {
        painted_svg(self.svg_name, self.colors.color)
    }

    /// The ore's raw item (see [`raw_item_texture`]).
    pub fn raw_item_task(&self) -> (r: ToPixmapTaskSpec)
        ensures
            r@ == raw_item_texture(*self),
            pixmap_has_no_empty(r@),
    {
        let colors = self.colors;
        match self.raw_item {
            RawItemStyle::Basic => stack_three(
                painted_svg("circle32BottomLeftTopRight", colors.shadow),
                painted_svg("circle32TopLeftBottomRight", colors.color),
                painted_svg(self.svg_name, colors.highlight),
            ),
            RawItemStyle::Lapis => stack_three(
                painted_svg("lapis", colors.color),
                painted_svg("lapisHighlight", colors.highlight),
                painted_svg("lapisShadow", colors.shadow),
            ),
            RawItemStyle::Diamond => stack(painted_svg("diamond1", c(0xd5ffff)), painted_svg("diamond2", colors.shadow)),
            RawItemStyle::Gold => stack_three(
                painted_svg("circle32BottomLeftTopRight", colors.highlight),
                painted_svg("circle32TopLeftBottomRight", colors.color),
                painted_svg("gold", colors.shadow),
            ),
            RawItemStyle::Quartz => stack_three(
                painted_svg("quartzChunk", colors.color),
                paint_pair(colors.highlight, "diamond2", "quartzChunkTopLeftBottomRight"),
                painted_svg("quartz", colors.shadow),
            ),
            RawItemStyle::Emerald => stack(painted_svg("emerald", colors.shadow), painted_svg("emeraldTopLeft", colors.highlight)),
        }
    }

    /// The block of the ore's refined material (see [`refined_block_texture`]).
    pub fn refined_block_task(&self) -> (r: ToPixmapTaskSpec)
        ensures
            r@ == refined_block_texture(*self),
            pixmap_has_no_empty(r@),
    {
        let colors = self.colors;
        let refined = self.refined_colors;
        match self.refined_block {
            RefinedBlockStyle::Basic => self.basic_refined_block(),
            RefinedBlockStyle::Coal => stack_on_color(
                colors.color,
                stack_three(
                    paint_pair(refined.highlight, "streaks", "coalBorder"),
                    paint_pair(refined.shadow, "coal", "borderSolid"),
                    painted_svg("borderSolidTopLeft", refined.highlight),
                ),
            ),
            RefinedBlockStyle::Lapis => stack_on_color(
                colors.highlight,
                stack_four(
                    painted_svg("checksLarge", colors.shadow),
                    painted_svg("checksSmall", colors.color),
                    painted_svg("borderSolid", colors.shadow),
                    painted_svg("borderSolidTopLeft", colors.highlight),
                ),
            ),
            RefinedBlockStyle::Diamond => stack_on_color(
                colors.color,
                stack_four(
                    painted_svg("streaks", colors.highlight),
                    self.raw_item_task(),
                    painted_svg("borderSolid", colors.shadow),
                    painted_svg("borderSolidTopLeft", c(0xd5ffff)),
                ),
            ),
            RefinedBlockStyle::Emerald => stack_on_color(
                colors.highlight,
                stack_three(
                    painted_svg("emerald", colors.shadow),
                    painted_svg("borderSolid", colors.color),
                    paint_pair(c(0xd9ffeb), "emeraldTopLeft", "borderSolidTopLeft"),
                ),
            ),
        }
    }

    /// The block of the ore's refined material in the basic style: streaks and a border over
    /// the refined color.
    pub fn basic_refined_block(&self) -> (r: ToPixmapTaskSpec)
        ensures
            r@ == spec_stack_on_color(
                self.refined_colors.color,
                stack3(
                    spec_paint_svg_task("streaks"@, self.refined_colors.highlight),
                    spec_paint_stack(self.refined_colors.shadow, seq![self.svg_name@, "borderSolid"@]),
                    spec_paint_svg_task("borderSolidTopLeft"@, self.refined_colors.highlight),
                ),
            ),
            pixmap_has_no_empty(r@),
    {
        let refined = self.refined_colors;
        stack_on_color(
            refined.color,
            stack_three(
                painted_svg("streaks", refined.highlight),
                paint_pair(refined.shadow, self.svg_name, "borderSolid"),
                painted_svg("borderSolidTopLeft", refined.highlight),
            ),
        )
    }

    /// The ingot of the ore (see [`ingot_texture`]).
    pub fn basic_ingot(&self) -> (r: ToPixmapTaskSpec)
        ensures
            r@ == ingot_texture(*self),
            pixmap_has_no_empty(r@),
    {
        let refined = self.refined_colors;
        stack_three(
            painted_svg("ingotMask", refined.color),
            paint_pair(refined.shadow, "ingotBorder", self.svg_name),
            painted_svg("ingotBorderTopLeft", refined.highlight),
        )
    }

    /// The block of the ore's raw material (see [`raw_block_texture`]).
    pub fn basic_raw_block(&self) -> (r: ToPixmapTaskSpec)
        ensures
            r@ == raw_block_texture(*self),
            pixmap_has_no_empty(r@),
    {
        stack_on_color(
            self.colors.color,
            stack(painted_svg("checksSmall", self.colors.highlight), painted_svg(self.svg_name, self.colors.shadow)),
        )
    }

    /// The ore block of the ore in a rock (see [`ore_block_texture`]).
    pub fn ore_block_task(&self, substrate: Substrate) -> (r: ToPixmapTaskSpec)
        ensures
            r@ == ore_block_texture(*self, substrate),
            pixmap_has_no_empty(r@),
    {
        let rock = substrate_task(substrate);
        match self.ore_block_for_substrate {
            OreBlockStyle::Coal => {
                if substrate == Substrate::Deepslate {
                    stack_three(
                        rock,
                        painted_svg("coalBorder", self.colors.highlight),
                        self.default_single_layer_item(),
                    )
                } else {
                    stack(rock, self.default_single_layer_item())
                }
            },
            OreBlockStyle::Redstone => stack_three(
                rock,
                painted_svg("redstoneShadows", self.colors.shadow),
                painted_svg("redstoneHighlights", self.colors.highlight),
            ),
            OreBlockStyle::RawItemBased => stack(rock, self.raw_item_task()),
            OreBlockStyle::Basic => stack(rock, self.default_single_layer_item()),
        }
    }

    /// The files of the ore (see [`ore_outputs`]).
    pub fn get_output_tasks(&self) -> (r: Vec<FileOutputTaskSpec>)
        ensures
            r@.map_values(|t: FileOutputTaskSpec| t@) == ore_outputs(*self, self.substrates@),
    {
        let ghost expected = ore_outputs(*self, self.substrates@);
        let mut out: Vec<FileOutputTaskSpec> = Vec::new();
        let mut i: usize = 0;
        while i < self.substrates.len()
            invariant
                i <= self.substrates@.len(),
                out@.len() == i,
                forall|k: int| 0 <= k < i ==> (#[trigger] out@[k])@ == expected[k],
                expected == ore_outputs(*self, self.substrates@),
            decreases self.substrates@.len() - i,
        {
            let base = self.substrates[i];
            let mut name = String::from_str("block/");
            name.append(base.block_name_prefix);
            name.append(self.name);
            name.append("_ore");
            out.push(out_task(name.as_str(), self.ore_block_task(base.substrate)));
            i = i + 1;
        }
        let blocks_len = out.len();
        proof {
            reveal_strlit("quartz");
        }
        let is_quartz = compare_texts(&String::from_str(self.name), &String::from_str("quartz")) == 0;
        proof {
            crate::task_order::lemma_text_order_zero(self.name@, "quartz"@);
        }
        if !is_quartz {
            let mut name = String::from_str("block/");
            name.append(self.name);
            name.append("_block");
            out.push(out_task(name.as_str(), self.refined_block_task()));
        }
        if self.needs_refining {
            let mut raw_block = String::from_str("block/raw_");
            raw_block.append(self.name);
            raw_block.append("_block");
            out.push(out_task(raw_block.as_str(), self.basic_raw_block()));
            let mut raw_item = String::from_str("item/raw_");
            raw_item.append(self.item_name);
            out.push(out_task(raw_item.as_str(), self.raw_item_task()));
            let mut ingot = String::from_str("item/");
            ingot.append(self.name);
            ingot.append("_ingot");
            out.push(out_task(ingot.as_str(), self.basic_ingot()));
        } else {
            let mut item = String::from_str("item/");
            item.append(self.item_name);
            out.push(out_task(item.as_str(), self.raw_item_task()));
        }
        assert(out@.map_values(|t: FileOutputTaskSpec| t@) =~= expected);
        out
    }
}

/// Copper: needs refining; its refined material has colors of its own.
pub fn copper() -> (r: Ore)
    ensures
        r.name@ == "copper"@,
        r.colors == (ColorTriad { color: c_spec(0xff8000), shadow: c_spec(0x915400), highlight: c_spec(0xffa268) }),
        r.refined_colors == (ColorTriad { color: c_spec(0xe0734d), shadow: c_spec(0x915431), highlight: c_spec(0xff8268) }),
        r.needs_refining,
        r.substrates@.len() == 2,
        r.raw_item == RawItemStyle::Basic,
        r.refined_block == RefinedBlockStyle::Basic,
        r.ore_block_for_substrate == OreBlockStyle::Basic,
{
    let mut ore = Ore::new("copper", c(0xff8000), c(0x915400), c(0xffa268));
    ore.needs_refining = true;
    ore.refined_colors = ColorTriad { color: c(0xe0734d), shadow: c(0x915431), highlight: c(0xff8268) };
    ore
}

/// Iron: needs refining; its refined material is light gray.
pub fn iron() -> (r: Ore)
    ensures
        r.name@ == "iron"@,
        r.colors == (ColorTriad { color: c_spec(0xffaf93), shadow: c_spec(0xaf8e77), highlight: c_spec(0xffcdb2) }),
        r.refined_colors == (ColorTriad { color: gray_spec(0xdd), shadow: gray_spec(0xaa), highlight: gray_spec(0xff) }),
        r.needs_refining,
        r.substrates@.len() == 2,
        r.raw_item == RawItemStyle::Basic,
        r.refined_block == RefinedBlockStyle::Basic,
        r.ore_block_for_substrate == OreBlockStyle::Basic,
{
    let mut ore = Ore::new("iron", c(0xffaf93), c(0xaf8e77), c(0xffcdb2));
    ore.needs_refining = true;
    ore.refined_colors = ColorTriad { color: gray(0xdd), highlight: gray(0xff), shadow: gray(0xaa) };
    ore
}

/// Coal: its block and its deepslate ore have a border.
pub fn coal() -> (r: Ore)
    ensures
        r.name@ == "coal"@,
        r.colors == (ColorTriad { color: gray_spec(0x22), shadow: gray_spec(0), highlight: gray_spec(0x55) }),
        r.refined_colors == r.colors,
        !r.needs_refining,
        r.substrates@.len() == 2,
        r.raw_item == RawItemStyle::Basic,
        r.refined_block == RefinedBlockStyle::Coal,
        r.ore_block_for_substrate == OreBlockStyle::Coal,
{
    let mut ore = Ore::new("coal", gray(0x22), gray(0), gray(0x55));
    ore.ore_block_for_substrate = OreBlockStyle::Coal;
    ore.refined_block = RefinedBlockStyle::Coal;
    ore
}

/// Redstone, glowing `highlight` in its ore.
pub fn redstone(highlight: ComparableColor) -> (r: Ore)
    ensures
        r.name@ == "redstone"@,
        r.colors == (ColorTriad { color: rgb_spec(255, 0, 0), shadow: c_spec(0xba0000), highlight }),
        r.refined_colors == r.colors,
        !r.needs_refining,
        r.substrates@.len() == 2,
        r.raw_item == RawItemStyle::Basic,
        r.refined_block == RefinedBlockStyle::Basic,
        r.ore_block_for_substrate == OreBlockStyle::Redstone,
{
    let mut ore = Ore::new("redstone", rgb(255, 0, 0), c(0xba0000), highlight);
    ore.ore_block_for_substrate = OreBlockStyle::Redstone;
    ore
}

/// Lapis lazuli.
pub fn lapis() -> (r: Ore)
    ensures
        r.name@ == "lapis"@,
        r.item_name@ == "lapis_lazuli"@,
        r.colors == (ColorTriad { color: c_spec(0x0055bd), shadow: c_spec(0x0000aa), highlight: c_spec(0x6995ff) }),
        !r.needs_refining,
        r.substrates@.len() == 2,
        r.raw_item == RawItemStyle::Lapis,
        r.refined_block == RefinedBlockStyle::Lapis,
        r.ore_block_for_substrate == OreBlockStyle::RawItemBased,
{
    let mut ore = Ore::new("lapis", c(0x0055bd), c(0x0000aa), c(0x6995ff));
    ore.item_name = "lapis_lazuli";
    ore.raw_item = RawItemStyle::Lapis;
    ore.refined_block = RefinedBlockStyle::Lapis;
    ore.ore_block_for_substrate = OreBlockStyle::RawItemBased;
    ore
}

/// Diamond.
pub fn diamond() -> (r: Ore)
    ensures
        r.name@ == "diamond"@,
        r.colors == (ColorTriad { color: c_spec(0x20d3d3), shadow: c_spec(0x209797), highlight: c_spec(0x77e7d1) }),
        !r.needs_refining,
        r.substrates@.len() == 2,
        r.raw_item == RawItemStyle::Diamond,
        r.refined_block == RefinedBlockStyle::Diamond,
        r.ore_block_for_substrate == OreBlockStyle::RawItemBased,
{
    let mut ore = Ore::new("diamond", c(0x20d3d3), c(0x209797), c(0x77e7d1));
    ore.raw_item = RawItemStyle::Diamond;
    ore.refined_block = RefinedBlockStyle::Diamond;
    ore.ore_block_for_substrate = OreBlockStyle::RawItemBased;
    ore
}

/// Gold: needs refining and is also found in netherrack.
pub fn gold() -> (r: Ore)
    ensures
        r.name@ == "gold"@,
        r.colors == (ColorTriad { color: rgb_spec(255, 255, 0), shadow: c_spec(0xeb9d00), highlight: c_spec(0xffffb5) }),
        r.refined_colors == r.colors,
        r.needs_refining,
        r.substrates@.len() == 3,
        r.substrates@[2].substrate == Substrate::Netherrack,
        r.raw_item == RawItemStyle::Gold,
        r.refined_block == RefinedBlockStyle::Basic,
        r.ore_block_for_substrate == OreBlockStyle::Basic,
{
    let mut ore = Ore::new("gold", rgb(255, 255, 0), c(0xeb9d00), c(0xffffb5));
    ore.needs_refining = true;
    let mut substrates: Vec<OreBase> = Vec::new();
    substrates.push(stone_base());
    substrates.push(deepslate_base());
    substrates.push(netherrack_base());
    ore.substrates = substrates;
    ore.raw_item = RawItemStyle::Gold;
    ore
}

/// Quartz: found only in netherrack.
pub fn quartz() -> (r: Ore)
    ensures
        r.name@ == "quartz"@,
        r.colors == (ColorTriad { color: c_spec(0xe8e8de), shadow: c_spec(0xb6a48e), highlight: gray_spec(0xff) }),
        !r.needs_refining,
        r.substrates@.len() == 1,
        r.substrates@[0].substrate == Substrate::Netherrack,
        r.raw_item == RawItemStyle::Quartz,
        r.refined_block == RefinedBlockStyle::Basic,
        r.ore_block_for_substrate == OreBlockStyle::Basic,
{
    let mut ore = Ore::new("quartz", c(0xe8e8de), c(0xb6a48e), gray(0xff));
    let mut substrates: Vec<OreBase> = Vec::new();
    substrates.push(netherrack_base());
    ore.substrates = substrates;
    ore.raw_item = RawItemStyle::Quartz;
    ore
}

/// Emerald.
pub fn emerald() -> (r: Ore)
    ensures
        r.name@ == "emerald"@,
        r.colors == (ColorTriad { color: c_spec(0x009829), shadow: c_spec(0x007b18), highlight: c_spec(0x00dd62) }),
        !r.needs_refining,
        r.substrates@.len() == 2,
        r.raw_item == RawItemStyle::Emerald,
        r.refined_block == RefinedBlockStyle::Emerald,
        r.ore_block_for_substrate == OreBlockStyle::RawItemBased,
{
    let mut ore = Ore::new("emerald", c(0x009829), c(0x007b18), c(0x00dd62));
    ore.raw_item = RawItemStyle::Emerald;
    ore.refined_block = RefinedBlockStyle::Emerald;
    ore.ore_block_for_substrate = OreBlockStyle::RawItemBased;
    ore
}

} // verus!
