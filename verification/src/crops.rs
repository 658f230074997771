use crate::color::{c, c_spec, ComparableColor};
use crate::stack::{spec_stack, stack};
use crate::task_display::decimal_text;
use crate::task_spec::{out_task, spec_paint_svg_task, FileOutputTaskSpec, OutputTask, PixmapTask, ToPixmapTaskSpec};
use crate::texture::{numbered_name, painted_svg};
use vstd::prelude::*;

verus! {

/// How a crop's textures are drawn.
#[derive(Copy, Clone, Debug)]
pub enum CropKind {
    /// Nether wart: each stage one shape of the crop's color; the last stage has highlights.
    NetherWart { highlight: ComparableColor },
    /// A root vegetable: green leaves while it grows, then stems over the root.
    RootVegetable,
    /// Potatoes: green leaves while they grow, then a short stem over the potato.
    Potatoes,
    /// Wheat: dark stalks with a texture of the crop's color, golden when grown.
    Wheat,
}

/// A crop, drawn in one texture per growth stage.
#[derive(Copy, Clone, Debug)]
pub struct Crop {
    pub name: &'static str,
    pub stages: u8,
    pub color: ComparableColor,
    pub kind: CropKind,
}

/// The color of the leaves of growing vegetables.
pub open spec fn veg_leaves_shadow() -> ComparableColor {
    c_spec(0x256325)
}

/// The color of the stems of grown vegetables.
pub open spec fn veg_leaves_highlight() -> ComparableColor {
    c_spec(0x55ff2d)
}

/// The texture of a crop at a stage before the last.
pub open spec fn growing_texture(crop: Crop, stage: nat) -> PixmapTask {
    match crop.kind {
        CropKind::NetherWart { .. } => spec_paint_svg_task("wart"@ + decimal_text(stage), crop.color),
        CropKind::Wheat => spec_stack(
            spec_paint_svg_task("wheat"@ + decimal_text(stage), c_spec(0x636300)),
            spec_paint_svg_task("wheatTexture"@ + decimal_text(stage), crop.color),
        ),
        _ => spec_paint_svg_task(crop.name@ + decimal_text(stage), veg_leaves_shadow()),
    }
}

/// The texture of a crop at its last stage.
pub open spec fn final_texture(crop: Crop) -> PixmapTask {
    match crop.kind {
        CropKind::NetherWart { highlight } => spec_stack(
            spec_paint_svg_task("wart2"@, crop.color),
            spec_paint_svg_task("wart2a"@, highlight),
        ),
        CropKind::RootVegetable => spec_stack(
            spec_paint_svg_task(crop.name@ + decimal_text((crop.stages - 1) as nat) + "Stems"@, veg_leaves_highlight()),
            spec_paint_svg_task("rootVeg"@, crop.color),
        ),
        CropKind::Potatoes => spec_stack(
            spec_paint_svg_task("flowerStemShort"@, veg_leaves_highlight()),
            spec_paint_svg_task("potato"@, crop.color),
        ),
        CropKind::Wheat => spec_stack(
            spec_paint_svg_task("wheat7"@, c_spec(0xdcbb65)),
            spec_paint_svg_task("wheatTexture7"@, crop.color),
        ),
    }
}

/// The texture of a crop at one stage, written to `block/NAME_stageN`.
pub open spec fn crop_output(crop: Crop, stage: nat) -> OutputTask {
    OutputTask::PngOutput(
        if stage + 1 < crop.stages {
            growing_texture(crop, stage)
        } else {
            final_texture(crop)
        },
        "block/"@ + crop.name@ + "_stage"@ + decimal_text(stage) + ""@,
    )
}

fn growing_task(crop: &Crop, stage: u8) -> (r: ToPixmapTaskSpec)
    ensures
        r@ == growing_texture(*crop, stage as nat),
{
    proof {
        reveal_strlit("");
    }
    match crop.kind {
        CropKind::NetherWart { .. } => {
            let name = numbered_name("wart", stage as u32, "");
            assert(name@ =~= "wart"@ + decimal_text(stage as nat));
            painted_svg(name.as_str(), crop.color)
        },
        CropKind::Wheat => {
            let stalks = numbered_name("wheat", stage as u32, "");
            let texture = numbered_name("wheatTexture", stage as u32, "");
            assert(stalks@ =~= "wheat"@ + decimal_text(stage as nat));
            assert(texture@ =~= "wheatTexture"@ + decimal_text(stage as nat));
            stack(painted_svg(stalks.as_str(), c(0x636300)), painted_svg(texture.as_str(), crop.color))
        },
        _ => {
            let name = numbered_name(crop.name, stage as u32, "");
            assert(name@ =~= crop.name@ + decimal_text(stage as nat));
            painted_svg(name.as_str(), c(0x256325))
        },
    }
}

fn final_task(crop: &Crop) -> (r: ToPixmapTaskSpec)
    requires
        crop.stages >= 1,
    ensures
        r@ == final_texture(*crop),
{
    match crop.kind {
        CropKind::NetherWart { highlight } => stack(painted_svg("wart2", crop.color), painted_svg("wart2a", highlight)),
        CropKind::RootVegetable => {
            let stems = numbered_name(crop.name, (crop.stages - 1) as u32, "Stems");
            stack(painted_svg(stems.as_str(), c(0x55ff2d)), painted_svg("rootVeg", crop.color))
        },
        CropKind::Potatoes => stack(painted_svg("flowerStemShort", c(0x55ff2d)), painted_svg("potato", crop.color)),
        CropKind::Wheat => stack(painted_svg("wheat7", c(0xdcbb65)), painted_svg("wheatTexture7", crop.color)),
    }
}

impl Crop {
    /// One texture per growth stage (see [`crop_output`]).
    pub fn get_output_tasks(&self) -> (r: Vec<FileOutputTaskSpec>)
        requires
            self.stages >= 1,
        ensures
            r@.len() == self.stages,
            forall|i: int| 0 <= i < self.stages ==> (#[trigger] r@[i])@ == crop_output(*self, i as nat),
    {
        let mut prefix = String::from_str("block/");
        prefix.append(self.name);
        prefix.append("_stage");
        let mut out: Vec<FileOutputTaskSpec> = Vec::new();
        let mut stage: u8 = 0;
        while stage < self.stages
            invariant
                self.stages >= 1,
                stage <= self.stages,
                prefix@ == "block/"@ + self.name@ + "_stage"@,
                out@.len() == stage,
                forall|i: int| 0 <= i < stage ==> (#[trigger] out@[i])@ == crop_output(*self, i as nat),
            decreases self.stages - stage,
        {
            let texture = if stage + 1 < self.stages {
                growing_task(self, stage)
            } else {
                final_task(self)
            };
            let name = numbered_name(prefix.as_str(), stage as u32, "");
            out.push(out_task(name.as_str(), texture));
            stage = stage + 1;
        }
        out
    }
}

/// Carrots: four stages, orange roots.
pub fn carrots() -> (r: Crop)
    ensures
        r.stages == 4,
        r.color == c_spec(0xff8000),
        r.kind == CropKind::RootVegetable,
        r.name@ == "carrots"@,
{
    Crop { name: "carrots", stages: 4, color: c(0xff8000), kind: CropKind::RootVegetable }
}

/// Beetroots: four stages, red roots.
pub fn beetroots() -> (r: Crop)
    ensures
        r.stages == 4,
        r.color == c_spec(0xbf2727),
        r.kind == CropKind::RootVegetable,
        r.name@ == "beetroots"@,
{
    Crop { name: "beetroots", stages: 4, color: c(0xbf2727), kind: CropKind::RootVegetable }
}

/// Potatoes: four stages.
pub fn potatoes() -> (r: Crop)
    ensures
        r.stages == 4,
        r.color == c_spec(0xd97b30),
        r.kind == CropKind::Potatoes,
        r.name@ == "potatoes"@,
{
    Crop { name: "potatoes", stages: 4, color: c(0xd97b30), kind: CropKind::Potatoes }
}

/// Wheat: eight stages.
pub fn wheat() -> (r: Crop)
    ensures
        r.stages == 8,
        r.color == c_spec(0x888836),
        r.kind == CropKind::Wheat,
        r.name@ == "wheat"@,
{
    Crop { name: "wheat", stages: 8, color: c(0x888836), kind: CropKind::Wheat }
}

/// Nether wart: three stages of the given color, with the given highlight when grown.
pub fn nether_wart(color: ComparableColor, highlight: ComparableColor) -> (r: Crop)
    ensures
        r.stages == 3,
        r.color == color,
        r.kind == (CropKind::NetherWart { highlight }),
        r.name@ == "nether_wart"@,
{
    Crop { name: "nether_wart", stages: 3, color, kind: CropKind::NetherWart { highlight } }
}

} // verus!
