use crate::color::{c, c_spec, gray, gray_spec, ComparableColor};
use crate::stack::{spec_stack, stack};
use crate::task_spec::{out_task, pixmap_has_no_empty, spec_paint_svg_task, FileOutputTaskSpec, OutputTask, PixmapTask, ToPixmapTaskSpec};
use crate::texture::{
    paint_pair, painted_svg, spec_paint_stack, spec_stack_on_color, stack3, stack_on_color, stack_three, ColorTriad,
};
use vstd::prelude::*;

verus! {

// ---------------------------------------------------------------------------------------------
// Blocks with a polished form
// ---------------------------------------------------------------------------------------------

/// A block that also has a polished form: the same texture inside a border.
pub struct PolishableBlock {
    pub name: &'static str,
    pub colors: ColorTriad,
    pub texture: ToPixmapTaskSpec,
}

/// The polished form of a texture: a border in the shadow color, lit at the top left.
pub open spec fn polished_of(texture: PixmapTask, colors: ColorTriad) -> PixmapTask {
    stack3(
        texture,
        spec_paint_svg_task("borderSolid"@, colors.shadow),
        spec_paint_svg_task("borderSolidTopLeft"@, colors.highlight),
    )
}

impl PolishableBlock {
    /// The polished form of the block's texture (see [`polished_of`]).
    pub fn polished_texture(&self) -> (r: ToPixmapTaskSpec)
        requires
            pixmap_has_no_empty(self.texture@),
        ensures
            r@ == polished_of(self.texture@, self.colors),
            pixmap_has_no_empty(r@),
    {
        stack_three(
            self.texture.clone(),
            painted_svg("borderSolid", self.colors.shadow),
            painted_svg("borderSolidTopLeft", self.colors.highlight),
        )
    }

    /// The block's texture, written to `block/NAME`, and its polished form, written to
    /// `block/polished_NAME`.
    pub fn get_output_tasks(&self) -> (r: Vec<FileOutputTaskSpec>)
        requires
            pixmap_has_no_empty(self.texture@),
        ensures
            r@.len() == 2,
            r@[0]@ == OutputTask::PngOutput(self.texture@, "block/"@ + self.name@),
            r@[1]@ == OutputTask::PngOutput(polished_of(self.texture@, self.colors), "block/polished_"@ + self.name@),
    {
        let mut plain = String::from_str("block/");
        plain.append(self.name);
        let mut polished = String::from_str("block/polished_");
        polished.append(self.name);
        let mut out: Vec<FileOutputTaskSpec> = Vec::new();
        out.push(out_task(plain.as_str(), self.texture.clone()));
        out.push(out_task(polished.as_str(), self.polished_texture()));
        out
    }
}

/// A polishable block whose texture is two layers over a background color.
fn polishable(
    name: &'static str,
    colors: ColorTriad,
    background: ComparableColor,
    first: ToPixmapTaskSpec,
    second: ToPixmapTaskSpec,
) -> (r: PolishableBlock)
    requires
        pixmap_has_no_empty(first@),
        pixmap_has_no_empty(second@),
    ensures
        r.name == name,
        r.colors == colors,
        r.texture@ == spec_stack_on_color(background, spec_stack(first@, second@)),
        pixmap_has_no_empty(r.texture@),
{
    PolishableBlock { name, colors, texture: stack_on_color(background, stack(first, second)) }
}

/// Andesite: big rings over gray.
pub fn andesite() -> (r: PolishableBlock)
    ensures
        r.name@ == "andesite"@,
        r.colors == (ColorTriad { color: c_spec(0x8b8b8b), shadow: c_spec(0x737373), highlight: c_spec(0xaaaaaa) }),
        r.texture@ == spec_stack_on_color(
            c_spec(0x8b8b8b),
            spec_stack(
                spec_paint_svg_task("bigRingsBottomLeftTopRight"@, c_spec(0xaaaaaa)),
                spec_paint_svg_task("bigRingsTopLeftBottomRight"@, c_spec(0x737373)),
            ),
        ),
        pixmap_has_no_empty(r.texture@),
{
    let colors = ColorTriad { color: c(0x8b8b8b), shadow: c(0x737373), highlight: c(0xaaaaaa) };
    polishable(
        "andesite",
        colors,
        colors.color,
        painted_svg("bigRingsBottomLeftTopRight", colors.highlight),
        painted_svg("bigRingsTopLeftBottomRight", colors.shadow),
    )
}

/// Diorite: big rings over light gray.
pub fn diorite() -> (r: PolishableBlock)
    ensures
        r.name@ == "diorite"@,
        r.colors == (ColorTriad { color: c_spec(0xbfbfbf), shadow: c_spec(0x888888), highlight: gray_spec(0xff) }),
        r.texture@ == spec_stack_on_color(
            c_spec(0xbfbfbf),
            spec_stack(
                spec_paint_svg_task("bigRingsBottomLeftTopRight"@, c_spec(0x888888)),
                spec_paint_svg_task("bigRingsTopLeftBottomRight"@, gray_spec(0xff)),
            ),
        ),
        pixmap_has_no_empty(r.texture@),
{
    let colors = ColorTriad { color: c(0xbfbfbf), shadow: c(0x888888), highlight: gray(0xff) };
    polishable(
        "diorite",
        colors,
        colors.color,
        painted_svg("bigRingsBottomLeftTopRight", colors.shadow),
        painted_svg("bigRingsTopLeftBottomRight", colors.highlight),
    )
}

/// Granite: big dots and rings over pink.
pub fn granite() -> (r: PolishableBlock)
    ensures
        r.name@ == "granite"@,
        r.colors == (ColorTriad { color: c_spec(0x9f6b58), shadow: c_spec(0x624033), highlight: c_spec(0xffcdb2) }),
        r.texture@ == spec_stack_on_color(
            c_spec(0x9f6b58),
            stack3(
                spec_paint_svg_task("bigDotsBottomLeftTopRight"@, c_spec(0xffcdb2)),
                spec_paint_stack(c_spec(0x624033), seq!["bigDotsTopLeftBottomRight"@, "bigRingsBottomLeftTopRight"@]),
                spec_paint_svg_task("bigRingsTopLeftBottomRight"@, c_spec(0xffcdb2)),
            ),
        ),
        pixmap_has_no_empty(r.texture@),
{
    let colors = ColorTriad { color: c(0x9f6b58), shadow: c(0x624033), highlight: c(0xffcdb2) };
    let texture = stack_on_color(
        colors.color,
        stack_three(
            painted_svg("bigDotsBottomLeftTopRight", colors.highlight),
            paint_pair(colors.shadow, "bigDotsTopLeftBottomRight", "bigRingsBottomLeftTopRight"),
            painted_svg("bigRingsTopLeftBottomRight", colors.highlight),
        ),
    );
    PolishableBlock { name: "granite", colors, texture }
}

/// Blackstone: big dots over black.
pub fn blackstone() -> (r: PolishableBlock)
    ensures
        r.name@ == "blackstone"@,
        r.colors == (ColorTriad { color: c_spec(0x2e2e36), shadow: gray_spec(0), highlight: c_spec(0x515151) }),
        r.texture@ == spec_stack_on_color(
            gray_spec(0),
            spec_stack(
                spec_paint_svg_task("bigDotsBottomLeftTopRight"@, c_spec(0x515151)),
                spec_paint_svg_task("bigDotsTopLeftBottomRight"@, c_spec(0x2e2e36)),
            ),
        ),
        pixmap_has_no_empty(r.texture@),
{
    let colors = ColorTriad { color: c(0x2e2e36), shadow: gray(0), highlight: c(0x515151) };
    polishable(
        "blackstone",
        colors,
        colors.shadow,
        painted_svg("bigDotsBottomLeftTopRight", colors.highlight),
        painted_svg("bigDotsTopLeftBottomRight", colors.color),
    )
}

// ---------------------------------------------------------------------------------------------
// Oxidized copper
// ---------------------------------------------------------------------------------------------

/// One stage of oxidation of copper blocks.
#[derive(Copy, Clone, Debug)]
pub struct CopperOxide {
    pub name: &'static str,
    pub texture_name: &'static str,
    pub color: ComparableColor,
    pub shadow: ComparableColor,
    pub highlight: ComparableColor,
}

/// What the plain and the cut copper blocks of a stage share: a border and streaks over its
/// color.
pub open spec fn copper_shared_layers(oxide: CopperOxide) -> PixmapTask {
    spec_stack_on_color(
        oxide.color,
        spec_stack(
            spec_paint_svg_task("borderSolid"@, oxide.shadow),
            spec_paint_stack(oxide.highlight, seq!["streaks"@, "borderSolidTopLeft"@]),
        ),
    )
}

impl CopperOxide {
    /// The copper block of the stage, written to `block/NAME_copper`, and its cut copper
    /// block, written to `block/cut_NAME_copper`.
    pub fn get_output_tasks(&self) -> (r: Vec<FileOutputTaskSpec>)
        ensures
            r@.len() == 2,
            r@[0]@ == OutputTask::PngOutput(
                spec_stack(copper_shared_layers(*self), spec_paint_svg_task(self.texture_name@, self.shadow)),
                "block/"@ + self.name@ + "_copper"@,
            ),
            r@[1]@ == OutputTask::PngOutput(
                stack3(
                    copper_shared_layers(*self),
                    spec_paint_svg_task("cutInQuarters2"@, self.highlight),
                    spec_paint_svg_task("cutInQuarters1"@, self.shadow),
                ),
                "block/cut_"@ + self.name@ + "_copper"@,
            ),
    {
        let shared = stack_on_color(
            self.color,
            stack(painted_svg("borderSolid", self.shadow), paint_pair(self.highlight, "streaks", "borderSolidTopLeft")),
        );
        let mut plain_name = String::from_str("block/");
        plain_name.append(self.name);
        plain_name.append("_copper");
        let mut cut_name = String::from_str("block/cut_");
        cut_name.append(self.name);
        cut_name.append("_copper");
        let plain = stack(shared.clone(), painted_svg(self.texture_name, self.shadow));
        let cut = stack_three(shared, painted_svg("cutInQuarters2", self.highlight), painted_svg("cutInQuarters1", self.shadow));
        let mut out: Vec<FileOutputTaskSpec> = Vec::new();
        out.push(out_task(plain_name.as_str(), plain));
        out.push(out_task(cut_name.as_str(), cut));
        out
    }
}

/// The three stages of oxidation: exposed, weathered and oxidized.
pub fn copper_oxides() -> (r: Vec<CopperOxide>)
    ensures
        r@.len() == 3,
        r@[0].name@ == "exposed"@,
        r@[0].texture_name@ == "copper2oxideOneThird"@,
        (r@[0].color, r@[0].shadow, r@[0].highlight) == (c_spec(0xa87762), c_spec(0x795b4b), c_spec(0xce8888)),
        r@[1].name@ == "weathered"@,
        r@[1].texture_name@ == "copper2oxideTwoThirds"@,
        (r@[1].color, r@[1].shadow, r@[1].highlight) == (c_spec(0x64a077), c_spec(0x647147), c_spec(0x74be9c)),
        r@[2].name@ == "oxidized"@,
        r@[2].texture_name@ == "copper2oxide"@,
        (r@[2].color, r@[2].shadow, r@[2].highlight) == (c_spec(0x4fab90), c_spec(0x3b5c5c), c_spec(0x74be9c)),
{
    let mut out: Vec<CopperOxide> = Vec::new();
    out.push(CopperOxide { name: "exposed", texture_name: "copper2oxideOneThird", color: c(0xa87762), shadow: c(0x795b4b), highlight: c(0xce8888) });
    out.push(CopperOxide { name: "weathered", texture_name: "copper2oxideTwoThirds", color: c(0x64a077), shadow: c(0x647147), highlight: c(0x74be9c) });
    out.push(CopperOxide { name: "oxidized", texture_name: "copper2oxide", color: c(0x4fab90), shadow: c(0x3b5c5c), highlight: c(0x74be9c) });
    out
}

} // verus!
