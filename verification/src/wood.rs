use crate::color::{c, c_spec, gray, gray_spec, ComparableColor};
use crate::stack::{spec_stack, stack};
use crate::task_spec::{
    from_svg_task, out_task, pixmap_has_no_empty, spec_paint_svg_task, FileOutputTaskSpec, OutputTask, PixmapTask,
    ToPixmapTaskSpec,
};
use crate::texture::{
    name_views, paint_pair, paint_stack, painted_svg, spec_paint_stack, spec_stack_on_color, stack3, stack4,
    stack_four, stack_on_color, stack_three,
};
use vstd::prelude::*;

verus! {

// ---------------------------------------------------------------------------------------------
// Kinds of wood
// ---------------------------------------------------------------------------------------------

/// Which tree a wood comes from. It decides the shapes of the wood's doors, trapdoor, leaves
/// and sapling, and whether the wood is an overworld wood or a nether fungus.
#[derive(Copy, Clone, Debug, PartialEq, Eq, Structural)]
pub enum WoodKind {
    Acacia,
    Birch,
    DarkOak,
    Jungle,
    Mangrove,
    Spruce,
    Oak,
    Crimson,
    Warped,
}

impl WoodKind {
    /// Whether the wood grows in the nether as a huge fungus.
    pub open spec fn is_fungus(self) -> bool {
        self is Crimson || self is Warped
    }

    /// Whether the wood's doors and trapdoor are built on layers that they share.
    pub open spec fn has_door_common_layers(self) -> bool {
        !(self is Spruce || self.is_fungus())
    }
}

/// A kind of wood, with the colors of its planks, bark and leaves and the names of its blocks.
/// The strengths of the two wave layers of the planks are counted in quarters of opacity.
#[derive(Copy, Clone, Debug)]
pub struct Wood {
    pub color: ComparableColor,
    pub highlight: ComparableColor,
    pub shadow: ComparableColor,
    pub bark_color: ComparableColor,
    pub bark_highlight: ComparableColor,
    pub bark_shadow: ComparableColor,
    pub leaves_color: ComparableColor,
    pub leaves_highlight: ComparableColor,
    pub leaves_shadow: ComparableColor,
    pub log_synonym: &'static str,
    pub leaves_synonym: &'static str,
    pub sapling_synonym: &'static str,
    pub name: &'static str,
    pub planks_highlight_quarters: u8,
    pub planks_shadow_quarters: u8,
    pub kind: WoodKind,
}

impl Wood {
    /// The wave strengths are at most full opacity.
    pub open spec fn wf(self) -> bool {
        self.planks_highlight_quarters <= 4 && self.planks_shadow_quarters <= 4
    }

    /// The wood has these nine colors.
    pub open spec fn has_colors(
        self,
        color: ComparableColor,
        highlight: ComparableColor,
        shadow: ComparableColor,
        bark_color: ComparableColor,
        bark_highlight: ComparableColor,
        bark_shadow: ComparableColor,
        leaves_color: ComparableColor,
        leaves_highlight: ComparableColor,
        leaves_shadow: ComparableColor,
    ) -> bool {
        &&& self.color == color
        &&& self.highlight == highlight
        &&& self.shadow == shadow
        &&& self.bark_color == bark_color
        &&& self.bark_highlight == bark_highlight
        &&& self.bark_shadow == bark_shadow
        &&& self.leaves_color == leaves_color
        &&& self.leaves_highlight == leaves_highlight
        &&& self.leaves_shadow == leaves_shadow
    }

    /// The wood's name and the words that its log, leaves and sapling are called by.
    pub open spec fn has_names(self, name: Seq<char>, log: Seq<char>, leaves: Seq<char>, sapling: Seq<char>) -> bool {
        &&& self.name@ == name
        &&& self.log_synonym@ == log
        &&& self.leaves_synonym@ == leaves
        &&& self.sapling_synonym@ == sapling
    }
}

/// One layer: the SVG image `name` painted `color`.
pub open spec fn layer(name: Seq<char>, color: ComparableColor) -> PixmapTask {
    spec_paint_svg_task(name, color)
}

/// The darker gray of metal hinges.
pub open spec fn stone_shadow() -> ComparableColor {
    gray_spec(0x77)
}

/// The gray of metal hinges.
pub open spec fn stone() -> ComparableColor {
    gray_spec(0x88)
}

/// The lighter gray of metal hinges.
pub open spec fn stone_highlight() -> ComparableColor {
    gray_spec(0xaa)
}

/// The color of the spots on a nether fungus.
pub open spec fn fungus_spot_color() -> ComparableColor {
    c_spec(0xff6500)
}

// ---------------------------------------------------------------------------------------------
// Textures shared by all woods of a family
// ---------------------------------------------------------------------------------------------

/// Planks: two layers of waves at the wood's strengths, a top border and short dashes.
pub open spec fn planks_texture(w: Wood) -> PixmapTask {
    spec_stack_on_color(
        w.color,
        stack4(
            layer("waves2"@, w.highlight.spec_times_quarters(w.planks_highlight_quarters)),
            layer("waves"@, w.shadow.spec_times_quarters(w.planks_shadow_quarters)),
            layer("planksTopBorder"@, w.shadow),
            layer("borderShortDashes"@, w.highlight),
        ),
    )
}

/// The bark of an overworld log: a border and two zigzags.
pub open spec fn overworld_bark_texture(w: Wood) -> PixmapTask {
    spec_stack_on_color(
        w.bark_color,
        stack4(
            layer("borderSolid"@, w.bark_shadow),
            layer("borderDotted"@, w.bark_highlight),
            layer("zigzagSolid"@, w.bark_shadow),
            layer("zigzagSolid2"@, w.bark_highlight),
        ),
    )
}

/// The bark of a nether stem: a border with waves.
pub open spec fn fungus_bark_texture(w: Wood) -> PixmapTask {
    spec_stack_on_color(
        w.bark_color,
        spec_stack(
            spec_paint_stack(w.bark_shadow, seq!["borderSolid"@, "waves2"@]),
            layer("waves"@, w.bark_highlight),
        ),
    )
}

/// The side of a stripped overworld log.
pub open spec fn overworld_stripped_log_side_texture(w: Wood) -> PixmapTask {
    spec_stack_on_color(
        w.color,
        spec_stack(layer("borderSolid"@, w.shadow), layer("borderShortDashes"@, w.highlight)),
    )
}

/// The side of a stripped nether stem.
pub open spec fn fungus_stripped_log_side_texture(w: Wood) -> PixmapTask {
    spec_stack_on_color(w.color, spec_stack(layer("borderSolid"@, w.shadow), layer("borderDotted"@, w.highlight)))
}

/// The end of a stripped overworld log: growth rings.
pub open spec fn overworld_stripped_log_top_texture(w: Wood) -> PixmapTask {
    spec_stack_on_color(
        w.color,
        spec_stack(layer("ringsCentralBullseye"@, w.highlight), layer("rings"@, w.shadow)),
    )
}

/// The end of a stripped nether stem.
pub open spec fn fungus_stripped_log_top_texture(w: Wood) -> PixmapTask {
    spec_stack_on_color(
        w.color,
        spec_stack(layer("ringsCentralBullseye"@, w.shadow), layer("rings2"@, w.highlight)),
    )
}

/// The end of an overworld log: the stripped end inside a ring of bark.
pub open spec fn overworld_log_top_texture(w: Wood, stripped_log_top: PixmapTask) -> PixmapTask {
    stack3(stripped_log_top, layer("borderSolid"@, w.bark_color), layer("borderDotted"@, w.bark_shadow))
}

/// The end of a nether stem.
pub open spec fn fungus_log_top_texture(w: Wood) -> PixmapTask {
    spec_stack_on_color(
        w.color,
        stack3(
            spec_stack(layer("ringsCentralBullseye"@, w.shadow), layer("rings2"@, w.highlight)),
            layer("borderSolid"@, w.bark_color),
            layer("borderShortDashes"@, w.bark_shadow),
        ),
    )
}

/// The top half of a door that is the bottom half with a knob.
pub open spec fn default_door_top_texture(door_bottom: PixmapTask) -> PixmapTask {
    spec_stack(door_bottom, PixmapTask::FromSvg("doorKnob"@))
}

/// The bark of the wood's log.
pub open spec fn bark_texture(w: Wood) -> PixmapTask {
    if w.kind.is_fungus() {
        fungus_bark_texture(w)
    } else {
        overworld_bark_texture(w)
    }
}

/// The side of the wood's stripped log.
pub open spec fn stripped_log_side_texture(w: Wood) -> PixmapTask {
    if w.kind.is_fungus() {
        fungus_stripped_log_side_texture(w)
    } else {
        overworld_stripped_log_side_texture(w)
    }
}

/// The end of the wood's stripped log.
pub open spec fn stripped_log_top_texture(w: Wood) -> PixmapTask {
    if w.kind.is_fungus() {
        fungus_stripped_log_top_texture(w)
    } else {
        overworld_stripped_log_top_texture(w)
    }
}

/// The end of the wood's log.
pub open spec fn log_top_texture(w: Wood) -> PixmapTask {
    if w.kind.is_fungus() {
        fungus_log_top_texture(w)
    } else {
        overworld_log_top_texture(w, stripped_log_top_texture(w))
    }
}

// ---------------------------------------------------------------------------------------------
// Textures of each wood
// ---------------------------------------------------------------------------------------------

/// The layers that a wood's doors and trapdoor share; the empty placeholder where it has none.
pub open spec fn door_common_texture(w: Wood) -> PixmapTask {
    match w.kind {
        WoodKind::Acacia => stack3(
            layer("borderSolidThick"@, w.color),
            layer("borderSolid"@, w.highlight),
            layer("bigDiamond"@, w.shadow),
        ),
        WoodKind::Birch => spec_stack_on_color(
            w.bark_highlight,
            stack4(
                layer("borderSolidExtraThick"@, w.color),
                layer("craftingGridSquare"@, w.highlight),
                layer("craftingGridSpaces"@, w.bark_highlight),
                layer("borderSolid"@, w.shadow),
            ),
        ),
        WoodKind::DarkOak => spec_stack_on_color(
            w.color,
            stack3(
                spec_paint_stack(w.highlight, seq!["borderSolid"@, "cross"@]),
                layer("2x2TopLeft"@, w.shadow),
                layer("borderShortDashes"@, w.color),
            ),
        ),
        WoodKind::Jungle => spec_stack(layer("doorHingesBig"@, stone_shadow()), layer("doorHinges"@, stone())),
        WoodKind::Mangrove => spec_stack(layer("rings2"@, w.shadow), layer("borderDotted"@, w.highlight)),
        WoodKind::Oak => stack3(
            spec_stack(layer("borderSolidThick"@, w.color), layer("borderSolid"@, w.highlight)),
            layer("cross"@, w.highlight),
            spec_stack(layer("2x2TopLeft"@, w.shadow), layer("borderShortDashes"@, w.color.spec_times_quarters(2))),
        ),
        _ => PixmapTask::Empty,
    }
}

/// The wood's trapdoor.
pub open spec fn trapdoor_texture(w: Wood) -> PixmapTask {
    let common = door_common_texture(w);
    match w.kind {
        WoodKind::Acacia => stack3(
            common,
            layer("trapdoorHingesBig"@, stone_shadow()),
            layer("trapdoorHinges"@, stone_highlight()),
        ),
        WoodKind::Birch => spec_stack(common, layer("trapdoorHingesBig"@, stone_shadow())),
        WoodKind::DarkOak => spec_stack(common, layer("trapdoorHingesBig"@, stone_highlight())),
        WoodKind::Jungle => spec_stack(
            stack4(
                layer("trapdoor2"@, w.color),
                layer("borderSolid"@, w.shadow),
                layer("borderShortDashes"@, w.highlight),
                layer("trapdoorHingesBig"@, stone_shadow()),
            ),
            layer("trapdoorHinges"@, stone()),
        ),
        WoodKind::Mangrove => stack4(
            layer("ringsHole"@, w.color),
            common,
            layer("trapdoorHingesBig"@, stone_highlight()),
            layer("trapdoorHinges"@, stone_shadow()),
        ),
        WoodKind::Spruce => spec_stack_on_color(
            w.shadow,
            spec_stack(
                stack4(
                    layer("planksTopVertical"@, w.color),
                    layer("borderSolidThick"@, w.shadow),
                    layer("borderLongDashes"@, w.highlight),
                    layer("trapdoorHingesBig"@, stone()),
                ),
                layer("trapdoorHinges"@, stone_shadow()),
            ),
        ),
        WoodKind::Oak => stack3(common, layer("trapdoorHingesBig"@, stone()), layer("trapdoorHinges"@, stone_highlight())),
        WoodKind::Crimson => spec_stack(
            spec_stack(
                spec_stack(
                    stack4(
                        layer("borderSolidThick"@, w.color),
                        layer("trapdoor1"@, w.shadow),
                        layer("borderShortDashes"@, w.highlight),
                        layer("zigzagSolid2"@, w.highlight),
                    ),
                    layer("zigzagSolid"@, w.shadow),
                ),
                layer("trapdoorHingesBig"@, stone_highlight()),
            ),
            layer("trapdoorHinges"@, stone_shadow()),
        ),
        WoodKind::Warped => spec_stack(
            spec_stack(
                stack4(
                    layer("trapdoor1"@, w.highlight),
                    layer("borderSolidThick"@, w.color),
                    layer("borderSolid"@, w.highlight),
                    layer("borderShortDashes"@, w.shadow),
                ),
                layer("waves"@, w.color),
            ),
            spec_stack(layer("trapdoorHingesBig"@, stone_shadow()), layer("trapdoorHinges"@, stone_highlight())),
        ),
    }
}

/// The bottom half of the wood's door.
pub open spec fn door_bottom_texture(w: Wood) -> PixmapTask {
    let common = door_common_texture(w);
    match w.kind {
        WoodKind::Acacia => stack4(
            common,
            spec_paint_stack(w.color, seq!["strokeBottomLeftTopRight"@, "strokeTopLeftBottomRight"@]),
            layer("doorHingesBig"@, stone_shadow()),
            layer("doorHinges"@, stone_highlight()),
        ),
        WoodKind::Birch => spec_stack_on_color(
            w.highlight,
            spec_stack(
                stack4(
                    layer("borderSolidExtraThick"@, w.color),
                    layer("craftingGridSquare"@, w.shadow),
                    layer("borderSolid"@, w.shadow),
                    layer("craftingGridSpaces"@, w.highlight),
                ),
                layer("doorHingesBig"@, stone_shadow()),
            ),
        ),
        WoodKind::DarkOak => spec_stack(common, layer("doorHingesBig"@, stone_highlight())),
        WoodKind::Jungle => spec_stack(planks_texture(w), common),
        WoodKind::Mangrove => spec_stack_on_color(
            w.color,
            stack3(common, layer("doorHingesBig"@, stone_highlight()), layer("doorHinges"@, stone_shadow())),
        ),
        WoodKind::Spruce => stack3(planks_texture(w), layer("doorHingesBig"@, stone()), layer("doorHinges"@, stone_shadow())),
        WoodKind::Oak => spec_stack_on_color(
            w.color,
            stack3(
                layer("waves"@, w.highlight),
                common,
                spec_stack(layer("doorHingesBig"@, stone()), layer("doorHinges"@, stone_highlight())),
            ),
        ),
        WoodKind::Crimson => spec_stack_on_color(
            w.color,
            spec_stack(
                spec_stack(
                    stack4(
                        layer("planksTopBorderVertical"@, w.shadow),
                        layer("borderShortDashes"@, w.highlight),
                        layer("zigzagSolid2"@, w.bark_highlight),
                        layer("zigzagSolid"@, w.shadow),
                    ),
                    layer("doorHingesBig"@, stone_highlight()),
                ),
                layer("doorHinges"@, stone_shadow()),
            ),
        ),
        WoodKind::Warped => spec_stack_on_color(
            w.color,
            stack4(
                layer("planksTopBorderVertical"@, w.shadow),
                layer("borderShortDashes"@, w.highlight),
                layer("waves"@, w.bark_highlight),
                spec_stack(layer("doorHingesBig"@, stone_shadow()), layer("doorHinges"@, stone_highlight())),
            ),
        ),
    }
}

/// The top half of the wood's door.
pub open spec fn door_top_texture(w: Wood) -> PixmapTask {
    let common = door_common_texture(w);
    match w.kind {
        WoodKind::Birch => stack3(common, layer("doorHingesBig"@, stone_shadow()), PixmapTask::FromSvg("doorKnob"@)),
        WoodKind::Jungle => stack4(
            layer("trapdoor2"@, w.color),
            layer("borderShortDashes"@, w.highlight),
            common,
            PixmapTask::FromSvg("doorKnob"@),
        ),
        WoodKind::Oak => spec_stack(
            stack4(
                spec_stack(layer("borderSolidThick"@, w.color), layer("borderSolid"@, w.highlight)),
                spec_stack(layer("2x2TopLeft"@, w.shadow), layer("borderShortDashes"@, w.color.spec_times_quarters(2))),
                spec_paint_stack(w.shadow, seq!["craftingSide"@, "cross"@]),
                PixmapTask::FromSvg("doorKnob"@),
            ),
            spec_stack(layer("doorHingesBig"@, stone()), layer("doorHinges"@, stone_highlight())),
        ),
        _ => default_door_top_texture(door_bottom_texture(w)),
    }
}

/// The wood's leaves.
pub open spec fn leaves_texture(w: Wood) -> PixmapTask {
    match w.kind {
        WoodKind::Acacia => spec_stack(layer("leaves1"@, w.leaves_shadow), layer("leaves1a"@, w.leaves_highlight)),
        WoodKind::Birch => spec_stack(layer("leaves2"@, w.leaves_highlight), layer("leaves2a"@, w.leaves_shadow)),
        WoodKind::DarkOak => spec_stack(layer("leaves3"@, w.leaves_shadow), layer("leaves3a"@, w.leaves_highlight)),
        WoodKind::Jungle => spec_stack(layer("leaves6"@, w.leaves_highlight), layer("leaves6a"@, w.leaves_shadow)),
        WoodKind::Mangrove => stack3(
            layer("leaves5"@, w.leaves_highlight),
            layer("leaves5a"@, w.leaves_color),
            layer("leaves5b"@, w.leaves_shadow),
        ),
        WoodKind::Spruce => spec_stack(layer("leaves3"@, w.leaves_highlight), layer("leaves3b"@, w.leaves_shadow)),
        WoodKind::Oak => spec_stack(layer("leaves4"@, w.leaves_shadow), layer("leaves4a"@, w.leaves_highlight)),
        WoodKind::Crimson => spec_stack_on_color(
            w.leaves_color,
            spec_stack(
                layer("leaves6"@, w.leaves_shadow),
                spec_paint_stack(w.leaves_highlight, seq!["leaves6a"@, "borderRoundDots"@]),
            ),
        ),
        WoodKind::Warped => spec_stack_on_color(
            w.leaves_color,
            spec_stack(
                spec_paint_stack(w.leaves_shadow, seq!["leaves3"@, "borderSolid"@]),
                spec_paint_stack(w.leaves_highlight, seq!["leaves3a"@, "leaves3b"@, "borderShortDashes"@]),
            ),
        ),
    }
}

/// The wood's sapling (or fungus, or propagule).
pub open spec fn sapling_texture(w: Wood) -> PixmapTask {
    match w.kind {
        WoodKind::Acacia => stack3(
            layer("saplingStem"@, w.bark_color),
            layer("acaciaSapling"@, c_spec(0x6c9e38)),
            layer("acaciaSapling2"@, c_spec(0xc9d7a5)),
        ),
        WoodKind::Birch => stack3(
            layer("saplingStem"@, w.bark_color),
            layer("flowerStemBottomBorder"@, w.bark_shadow),
            layer("saplingLeaves"@, c_spec(0x6c9e38)),
        ),
        WoodKind::DarkOak => stack3(
            layer("saplingStem"@, w.bark_color),
            layer("bigCircle"@, c_spec(0x005c00)),
            layer("bigCircleTwoQuarters"@, c_spec(0x57ad3f)),
        ),
        WoodKind::Jungle => spec_stack(layer("saplingStem"@, w.bark_color), layer("acaciaSapling"@, c_spec(0x378020))),
        WoodKind::Mangrove => spec_stack(
            layer("mangrovePropagule"@, c_spec(0x4aa54a)),
            layer("flowerStemBottomBorder"@, c_spec(0x748241)),
        ),
        WoodKind::Spruce => spec_stack(layer("saplingStem"@, w.bark_highlight), layer("spruceSapling"@, c_spec(0x2e492e))),
        WoodKind::Oak => stack4(
            layer("coalBorder"@, c_spec(0x005c00)),
            layer("saplingStem"@, w.bark_color),
            layer("coal"@, c_spec(0x57ad3f)),
            layer("sunflowerPistil"@, c_spec(0x005c00)),
        ),
        WoodKind::Crimson => stack3(
            layer("mushroomStem"@, w.bark_shadow),
            layer("mushroomCapRed"@, w.leaves_color),
            layer("crimsonFungusSpots"@, fungus_spot_color()),
        ),
        WoodKind::Warped => stack3(
            layer("mushroomStem"@, w.bark_shadow),
            layer("warpedFungusCap"@, w.leaves_color),
            layer("warpedFungusSpots"@, fungus_spot_color()),
        ),
    }
}

/// The ten files of a wood, in order: log, stripped log, the ends of both, trapdoor, both
/// halves of the door, leaves, sapling and planks.
pub open spec fn wood_outputs(w: Wood) -> Seq<OutputTask> {
    seq![
        OutputTask::PngOutput(bark_texture(w), "block/"@ + w.name@ + "_"@ + w.log_synonym@),
        OutputTask::PngOutput(stripped_log_side_texture(w), "block/stripped_"@ + w.name@ + "_"@ + w.log_synonym@),
        OutputTask::PngOutput(
            stripped_log_top_texture(w),
            "block/stripped_"@ + w.name@ + "_"@ + w.log_synonym@ + "_top"@,
        ),
        OutputTask::PngOutput(log_top_texture(w), "block/"@ + w.name@ + "_"@ + w.log_synonym@ + "_top"@),
        OutputTask::PngOutput(trapdoor_texture(w), "block/"@ + w.name@ + "_trapdoor"@),
        OutputTask::PngOutput(door_top_texture(w), "block/"@ + w.name@ + "_door_top"@),
        OutputTask::PngOutput(door_bottom_texture(w), "block/"@ + w.name@ + "_door_bottom"@),
        OutputTask::PngOutput(leaves_texture(w), "block/"@ + w.name@ + "_"@ + w.leaves_synonym@),
        OutputTask::PngOutput(sapling_texture(w), "block/"@ + w.name@ + "_"@ + w.sapling_synonym@),
        OutputTask::PngOutput(planks_texture(w), "block/"@ + w.name@ + "_planks"@),
    ]
}

/// The image of a PNG file holds no empty placeholder.
pub open spec fn png_output_has_no_empty(o: OutputTask) -> bool {
    match o {
        OutputTask::PngOutput(base, _) => pixmap_has_no_empty(base),
        OutputTask::Copy(..) => false,
    }
}

// ---------------------------------------------------------------------------------------------
// Building the textures
// ---------------------------------------------------------------------------------------------

fn hinge_shadow() -> (r: ComparableColor)
    ensures
        r == stone_shadow(),
{
    gray(0x77)
}

fn hinge() -> (r: ComparableColor)
    ensures
        r == stone(),
{
    gray(0x88)
}

fn hinge_highlight() -> (r: ComparableColor)
    ensures
        r == stone_highlight(),
{
    gray(0xaa)
}

fn door_knob() -> (r: ToPixmapTaskSpec)
    ensures
        r@ == PixmapTask::FromSvg("doorKnob"@),
        pixmap_has_no_empty(r@),
{
    from_svg_task("doorKnob")
}

fn paint_triple(color: ComparableColor, first: &str, second: &str, third: &str) -> (r: ToPixmapTaskSpec)
    ensures
        r@ == spec_paint_stack(color, seq![first@, second@, third@]),
        pixmap_has_no_empty(r@),
{
    let names = [first, second, third];
    assert(name_views(names@) =~= seq![first@, second@, third@]);
    paint_stack(color, &names)
}

/// The empty placeholder, which stands for the shared door layers of a wood that has none.
pub fn empty_task() -> (r: ToPixmapTaskSpec)
    ensures
        r@ == PixmapTask::Empty,
{
    ToPixmapTaskSpec::Empty
}

impl Wood {
    /// The planks (see [`planks_texture`]).
    pub fn planks(&self) -> (r: ToPixmapTaskSpec)
        requires
            self.wf(),
        ensures
            r@ == planks_texture(*self),
            pixmap_has_no_empty(r@),
    {
        stack_on_color(
            self.color,
            stack_four(
                painted_svg("waves2", self.highlight.times_quarters(self.planks_highlight_quarters)),
                painted_svg("waves", self.shadow.times_quarters(self.planks_shadow_quarters)),
                painted_svg("planksTopBorder", self.shadow),
                painted_svg("borderShortDashes", self.highlight),
            ),
        )
    }

    /// The bark of an overworld log (see [`overworld_bark_texture`]).
    pub fn overworld_bark(&self) -> (r: ToPixmapTaskSpec)
        ensures
            r@ == overworld_bark_texture(*self),
            pixmap_has_no_empty(r@),
    {
        stack_on_color(
            self.bark_color,
            stack_four(
                painted_svg("borderSolid", self.bark_shadow),
                painted_svg("borderDotted", self.bark_highlight),
                painted_svg("zigzagSolid", self.bark_shadow),
                painted_svg("zigzagSolid2", self.bark_highlight),
            ),
        )
    }

    /// The bark of a nether stem (see [`fungus_bark_texture`]).
    pub fn fungus_bark(&self) -> (r: ToPixmapTaskSpec)
        ensures
            r@ == fungus_bark_texture(*self),
            pixmap_has_no_empty(r@),
    {
        stack_on_color(
            self.bark_color,
            stack(paint_pair(self.bark_shadow, "borderSolid", "waves2"), painted_svg("waves", self.bark_highlight)),
        )
    }

    /// The side of a stripped overworld log (see [`overworld_stripped_log_side_texture`]).
    pub fn overworld_stripped_log_side(&self) -> (r: ToPixmapTaskSpec)
        ensures
            r@ == overworld_stripped_log_side_texture(*self),
            pixmap_has_no_empty(r@),
    {
        stack_on_color(
            self.color,
            stack(painted_svg("borderSolid", self.shadow), painted_svg("borderShortDashes", self.highlight)),
        )
    }

    /// The side of a stripped nether stem (see [`fungus_stripped_log_side_texture`]).
    pub fn fungus_stripped_log_side(&self) -> (r: ToPixmapTaskSpec)
        ensures
            r@ == fungus_stripped_log_side_texture(*self),
            pixmap_has_no_empty(r@),
    {
        stack_on_color(
            self.color,
            stack(painted_svg("borderSolid", self.shadow), painted_svg("borderDotted", self.highlight)),
        )
    }

    /// The end of a stripped overworld log (see [`overworld_stripped_log_top_texture`]).
    pub fn overworld_stripped_log_top(&self) -> (r: ToPixmapTaskSpec)
        ensures
            r@ == overworld_stripped_log_top_texture(*self),
            pixmap_has_no_empty(r@),
    {
        stack_on_color(
            self.color,
            stack(painted_svg("ringsCentralBullseye", self.highlight), painted_svg("rings", self.shadow)),
        )
    }

    /// The end of a stripped nether stem (see [`fungus_stripped_log_top_texture`]).
    pub fn fungus_stripped_log_top(&self) -> (r: ToPixmapTaskSpec)
        ensures
            r@ == fungus_stripped_log_top_texture(*self),
            pixmap_has_no_empty(r@),
    {
        stack_on_color(
            self.color,
            stack(painted_svg("ringsCentralBullseye", self.shadow), painted_svg("rings2", self.highlight)),
        )
    }

    /// The end of an overworld log: `stripped_log_top` inside a ring of bark (see
    /// [`overworld_log_top_texture`]).
    pub fn overworld_log_top(&self, stripped_log_top: ToPixmapTaskSpec) -> (r: ToPixmapTaskSpec)
        requires
            pixmap_has_no_empty(stripped_log_top@),
        ensures
            r@ == overworld_log_top_texture(*self, stripped_log_top@),
            pixmap_has_no_empty(r@),
    {
        stack_three(
            stripped_log_top,
            painted_svg("borderSolid", self.bark_color),
            painted_svg("borderDotted", self.bark_shadow),
        )
    }

    /// The end of a nether stem, drawn whole whatever stripped end is given (see
    /// [`fungus_log_top_texture`]).
    pub fn fungus_log_top(&self, _stripped_log_top: ToPixmapTaskSpec) -> (r: ToPixmapTaskSpec)
        ensures
            r@ == fungus_log_top_texture(*self),
            pixmap_has_no_empty(r@),
    {
        stack_on_color(
            self.color,
            stack_three(
                stack(painted_svg("ringsCentralBullseye", self.shadow), painted_svg("rings2", self.highlight)),
                painted_svg("borderSolid", self.bark_color),
                painted_svg("borderShortDashes", self.bark_shadow),
            ),
        )
    }

    /// The top half of a door: `door_bottom` with a knob; the shared layers are not used (see
    /// [`default_door_top_texture`]).
    pub fn default_door_top(&self, door_bottom: ToPixmapTaskSpec, _door_common_layers: ToPixmapTaskSpec) -> (r: ToPixmapTaskSpec)
        requires
            pixmap_has_no_empty(door_bottom@),
        ensures
            r@ == default_door_top_texture(door_bottom@),
            pixmap_has_no_empty(r@),
    {
        stack(door_bottom, door_knob())
    }

    fn bark_task(&self) -> (r: ToPixmapTaskSpec)
        ensures
            r@ == bark_texture(*self),
            pixmap_has_no_empty(r@),
    {
        match self.kind {
            WoodKind::Crimson | WoodKind::Warped => self.fungus_bark(),
            _ => self.overworld_bark(),
        }
    }

    fn stripped_log_side_task(&self) -> (r: ToPixmapTaskSpec)
        ensures
            r@ == stripped_log_side_texture(*self),
            pixmap_has_no_empty(r@),
    {
        match self.kind {
            WoodKind::Crimson | WoodKind::Warped => self.fungus_stripped_log_side(),
            _ => self.overworld_stripped_log_side(),
        }
    }

    fn stripped_log_top_task(&self) -> (r: ToPixmapTaskSpec)
        ensures
            r@ == stripped_log_top_texture(*self),
            pixmap_has_no_empty(r@),
    {
        match self.kind {
            WoodKind::Crimson | WoodKind::Warped => self.fungus_stripped_log_top(),
            _ => self.overworld_stripped_log_top(),
        }
    }

    fn log_top_task(&self, stripped_log_top: ToPixmapTaskSpec) -> (r: ToPixmapTaskSpec)
        requires
            stripped_log_top@ == stripped_log_top_texture(*self),
            pixmap_has_no_empty(stripped_log_top@),
        ensures
            r@ == log_top_texture(*self),
            pixmap_has_no_empty(r@),
    {
        match self.kind {
            WoodKind::Crimson | WoodKind::Warped => self.fungus_log_top(stripped_log_top),
            _ => self.overworld_log_top(stripped_log_top),
        }
    }
    fn door_common_layers(&self) -> (r: ToPixmapTaskSpec)
        ensures
            r@ == door_common_texture(*self),
            self.kind.has_door_common_layers() ==> pixmap_has_no_empty(r@),
    {
        match self.kind {
            WoodKind::Acacia => stack_three(
                painted_svg("borderSolidThick", self.color),
                painted_svg("borderSolid", self.highlight),
                painted_svg("bigDiamond", self.shadow),
            ),
            WoodKind::Birch => stack_on_color(
                self.bark_highlight,
                stack_four(
                    painted_svg("borderSolidExtraThick", self.color),
                    painted_svg("craftingGridSquare", self.highlight),
                    painted_svg("craftingGridSpaces", self.bark_highlight),
                    painted_svg("borderSolid", self.shadow),
                ),
            ),
            WoodKind::DarkOak => stack_on_color(
                self.color,
                stack_three(
                    paint_pair(self.highlight, "borderSolid", "cross"),
                    painted_svg("2x2TopLeft", self.shadow),
                    painted_svg("borderShortDashes", self.color),
                ),
            ),
            WoodKind::Jungle => stack(painted_svg("doorHingesBig", hinge_shadow()), painted_svg("doorHinges", hinge())),
            WoodKind::Mangrove => stack(painted_svg("rings2", self.shadow), painted_svg("borderDotted", self.highlight)),
            WoodKind::Oak => stack_three(
                stack(painted_svg("borderSolidThick", self.color), painted_svg("borderSolid", self.highlight)),
                painted_svg("cross", self.highlight),
                stack(painted_svg("2x2TopLeft", self.shadow), painted_svg("borderShortDashes", self.color.times_quarters(2))),
            ),
            _ => empty_task(),
        }
    }

    fn trapdoor_task(&self, door_common_layers: ToPixmapTaskSpec) -> (r: ToPixmapTaskSpec)
        requires
            door_common_layers@ == door_common_texture(*self),
            self.kind.has_door_common_layers() ==> pixmap_has_no_empty(door_common_layers@),
        ensures
            r@ == trapdoor_texture(*self),
            pixmap_has_no_empty(r@),
    {
        match self.kind {
            WoodKind::Acacia => stack_three(
                door_common_layers,
                painted_svg("trapdoorHingesBig", hinge_shadow()),
                painted_svg("trapdoorHinges", hinge_highlight()),
            ),
            WoodKind::Birch => stack(door_common_layers, painted_svg("trapdoorHingesBig", hinge_shadow())),
            WoodKind::DarkOak => stack(door_common_layers, painted_svg("trapdoorHingesBig", hinge_highlight())),
            WoodKind::Jungle => stack(
                stack_four(
                    painted_svg("trapdoor2", self.color),
                    painted_svg("borderSolid", self.shadow),
                    painted_svg("borderShortDashes", self.highlight),
                    painted_svg("trapdoorHingesBig", hinge_shadow()),
                ),
                painted_svg("trapdoorHinges", hinge()),
            ),
            WoodKind::Mangrove => stack_four(
                painted_svg("ringsHole", self.color),
                door_common_layers,
                painted_svg("trapdoorHingesBig", hinge_highlight()),
                painted_svg("trapdoorHinges", hinge_shadow()),
            ),
            WoodKind::Spruce => stack_on_color(
                self.shadow,
                stack(
                    stack_four(
                        painted_svg("planksTopVertical", self.color),
                        painted_svg("borderSolidThick", self.shadow),
                        painted_svg("borderLongDashes", self.highlight),
                        painted_svg("trapdoorHingesBig", hinge()),
                    ),
                    painted_svg("trapdoorHinges", hinge_shadow()),
                ),
            ),
            WoodKind::Oak => stack_three(
                door_common_layers,
                painted_svg("trapdoorHingesBig", hinge()),
                painted_svg("trapdoorHinges", hinge_highlight()),
            ),
            WoodKind::Crimson => stack(
                stack(
                    stack(
                        stack_four(
                            painted_svg("borderSolidThick", self.color),
                            painted_svg("trapdoor1", self.shadow),
                            painted_svg("borderShortDashes", self.highlight),
                            painted_svg("zigzagSolid2", self.highlight),
                        ),
                        painted_svg("zigzagSolid", self.shadow),
                    ),
                    painted_svg("trapdoorHingesBig", hinge_highlight()),
                ),
                painted_svg("trapdoorHinges", hinge_shadow()),
            ),
            WoodKind::Warped => stack(
                stack(
                    stack_four(
                        painted_svg("trapdoor1", self.highlight),
                        painted_svg("borderSolidThick", self.color),
                        painted_svg("borderSolid", self.highlight),
                        painted_svg("borderShortDashes", self.shadow),
                    ),
                    painted_svg("waves", self.color),
                ),
                stack(painted_svg("trapdoorHingesBig", hinge_shadow()), painted_svg("trapdoorHinges", hinge_highlight())),
            ),
        }
    }

    fn door_bottom_task(&self, door_common_layers: ToPixmapTaskSpec) -> (r: ToPixmapTaskSpec)
        requires
            self.wf(),
            door_common_layers@ == door_common_texture(*self),
            self.kind.has_door_common_layers() ==> pixmap_has_no_empty(door_common_layers@),
        ensures
            r@ == door_bottom_texture(*self),
            pixmap_has_no_empty(r@),
    {
        match self.kind {
            WoodKind::Acacia => stack_four(
                door_common_layers,
                paint_pair(self.color, "strokeBottomLeftTopRight", "strokeTopLeftBottomRight"),
                painted_svg("doorHingesBig", hinge_shadow()),
                painted_svg("doorHinges", hinge_highlight()),
            ),
            WoodKind::Birch => stack_on_color(
                self.highlight,
                stack(
                    stack_four(
                        painted_svg("borderSolidExtraThick", self.color),
                        painted_svg("craftingGridSquare", self.shadow),
                        painted_svg("borderSolid", self.shadow),
                        painted_svg("craftingGridSpaces", self.highlight),
                    ),
                    painted_svg("doorHingesBig", hinge_shadow()),
                ),
            ),
            WoodKind::DarkOak => stack(door_common_layers, painted_svg("doorHingesBig", hinge_highlight())),
            WoodKind::Jungle => stack(self.planks(), door_common_layers),
            WoodKind::Mangrove => stack_on_color(
                self.color,
                stack_three(
                    door_common_layers,
                    painted_svg("doorHingesBig", hinge_highlight()),
                    painted_svg("doorHinges", hinge_shadow()),
                ),
            ),
            WoodKind::Spruce => stack_three(
                self.planks(),
                painted_svg("doorHingesBig", hinge()),
                painted_svg("doorHinges", hinge_shadow()),
            ),
            WoodKind::Oak => stack_on_color(
                self.color,
                stack_three(
                    painted_svg("waves", self.highlight),
                    door_common_layers,
                    stack(painted_svg("doorHingesBig", hinge()), painted_svg("doorHinges", hinge_highlight())),
                ),
            ),
            WoodKind::Crimson => stack_on_color(
                self.color,
                stack(
                    stack(
                        stack_four(
                            painted_svg("planksTopBorderVertical", self.shadow),
                            painted_svg("borderShortDashes", self.highlight),
                            painted_svg("zigzagSolid2", self.bark_highlight),
                            painted_svg("zigzagSolid", self.shadow),
                        ),
                        painted_svg("doorHingesBig", hinge_highlight()),
                    ),
                    painted_svg("doorHinges", hinge_shadow()),
                ),
            ),
            WoodKind::Warped => stack_on_color(
                self.color,
                stack_four(
                    painted_svg("planksTopBorderVertical", self.shadow),
                    painted_svg("borderShortDashes", self.highlight),
                    painted_svg("waves", self.bark_highlight),
                    stack(painted_svg("doorHingesBig", hinge_shadow()), painted_svg("doorHinges", hinge_highlight())),
                ),
            ),
        }
    }

    fn door_top_task(&self, door_bottom: ToPixmapTaskSpec, door_common_layers: ToPixmapTaskSpec) -> (r: ToPixmapTaskSpec)
        requires
            door_bottom@ == door_bottom_texture(*self),
            pixmap_has_no_empty(door_bottom@),
            door_common_layers@ == door_common_texture(*self),
            self.kind.has_door_common_layers() ==> pixmap_has_no_empty(door_common_layers@),
        ensures
            r@ == door_top_texture(*self),
            pixmap_has_no_empty(r@),
    {
        match self.kind {
            WoodKind::Birch => stack_three(door_common_layers, painted_svg("doorHingesBig", hinge_shadow()), door_knob()),
            WoodKind::Jungle => stack_four(
                painted_svg("trapdoor2", self.color),
                painted_svg("borderShortDashes", self.highlight),
                door_common_layers,
                door_knob(),
            ),
            WoodKind::Oak => stack(
                stack_four(
                    stack(painted_svg("borderSolidThick", self.color), painted_svg("borderSolid", self.highlight)),
                    stack(painted_svg("2x2TopLeft", self.shadow), painted_svg("borderShortDashes", self.color.times_quarters(2))),
                    paint_pair(self.shadow, "craftingSide", "cross"),
                    door_knob(),
                ),
                stack(painted_svg("doorHingesBig", hinge()), painted_svg("doorHinges", hinge_highlight())),
            ),
            _ => self.default_door_top(door_bottom, door_common_layers),
        }
    }

    fn leaves_task(&self) -> (r: ToPixmapTaskSpec)
        ensures
            r@ == leaves_texture(*self),
            pixmap_has_no_empty(r@),
    {
        match self.kind {
            WoodKind::Acacia => stack(painted_svg("leaves1", self.leaves_shadow), painted_svg("leaves1a", self.leaves_highlight)),
            WoodKind::Birch => stack(painted_svg("leaves2", self.leaves_highlight), painted_svg("leaves2a", self.leaves_shadow)),
            WoodKind::DarkOak => stack(painted_svg("leaves3", self.leaves_shadow), painted_svg("leaves3a", self.leaves_highlight)),
            WoodKind::Jungle => stack(painted_svg("leaves6", self.leaves_highlight), painted_svg("leaves6a", self.leaves_shadow)),
            WoodKind::Mangrove => stack_three(
                painted_svg("leaves5", self.leaves_highlight),
                painted_svg("leaves5a", self.leaves_color),
                painted_svg("leaves5b", self.leaves_shadow),
            ),
            WoodKind::Spruce => stack(painted_svg("leaves3", self.leaves_highlight), painted_svg("leaves3b", self.leaves_shadow)),
            WoodKind::Oak => stack(painted_svg("leaves4", self.leaves_shadow), painted_svg("leaves4a", self.leaves_highlight)),
            WoodKind::Crimson => stack_on_color(
                self.leaves_color,
                stack(
                    painted_svg("leaves6", self.leaves_shadow),
                    paint_pair(self.leaves_highlight, "leaves6a", "borderRoundDots"),
                ),
            ),
            WoodKind::Warped => stack_on_color(
                self.leaves_color,
                stack(
                    paint_pair(self.leaves_shadow, "leaves3", "borderSolid"),
                    paint_triple(self.leaves_highlight, "leaves3a", "leaves3b", "borderShortDashes"),
                ),
            ),
        }
    }

    fn sapling_task(&self) -> (r: ToPixmapTaskSpec)
        ensures
            r@ == sapling_texture(*self),
            pixmap_has_no_empty(r@),
    {
        match self.kind {
            WoodKind::Acacia => stack_three(
                painted_svg("saplingStem", self.bark_color),
                painted_svg("acaciaSapling", c(0x6c9e38)),
                painted_svg("acaciaSapling2", c(0xc9d7a5)),
            ),
            WoodKind::Birch => stack_three(
                painted_svg("saplingStem", self.bark_color),
                painted_svg("flowerStemBottomBorder", self.bark_shadow),
                painted_svg("saplingLeaves", c(0x6c9e38)),
            ),
            WoodKind::DarkOak => stack_three(
                painted_svg("saplingStem", self.bark_color),
                painted_svg("bigCircle", c(0x005c00)),
                painted_svg("bigCircleTwoQuarters", c(0x57ad3f)),
            ),
            WoodKind::Jungle => stack(painted_svg("saplingStem", self.bark_color), painted_svg("acaciaSapling", c(0x378020))),
            WoodKind::Mangrove => stack(
                painted_svg("mangrovePropagule", c(0x4aa54a)),
                painted_svg("flowerStemBottomBorder", c(0x748241)),
            ),
            WoodKind::Spruce => stack(painted_svg("saplingStem", self.bark_highlight), painted_svg("spruceSapling", c(0x2e492e))),
            WoodKind::Oak => stack_four(
                painted_svg("coalBorder", c(0x005c00)),
                painted_svg("saplingStem", self.bark_color),
                painted_svg("coal", c(0x57ad3f)),
                painted_svg("sunflowerPistil", c(0x005c00)),
            ),
            WoodKind::Crimson => stack_three(
                painted_svg("mushroomStem", self.bark_shadow),
                painted_svg("mushroomCapRed", self.leaves_color),
                painted_svg("crimsonFungusSpots", c(0xff6500)),
            ),
            WoodKind::Warped => stack_three(
                painted_svg("mushroomStem", self.bark_shadow),
                painted_svg("warpedFungusCap", self.leaves_color),
                painted_svg("warpedFungusSpots", c(0xff6500)),
            ),
        }
    }
    /// The wood's ten files (see [`wood_outputs`]); none of their images holds the empty
    /// placeholder.
    pub fn get_output_tasks(&self) -> (r: Vec<FileOutputTaskSpec>)
        requires
            self.wf(),
        ensures
            r@.map_values(|t: FileOutputTaskSpec| t@) == wood_outputs(*self),
            forall|i: int| 0 <= i < r@.len() ==> png_output_has_no_empty(#[trigger] r@[i]@),
    {
        let door_common_layers = self.door_common_layers();
        let door_bottom = self.door_bottom_task(door_common_layers.clone());
        let stripped_log_side = self.stripped_log_side_task();
        let stripped_log_top = self.stripped_log_top_task();
        let mut out: Vec<FileOutputTaskSpec> = Vec::new();

        let mut path = String::from_str("block/");
        path.append(self.name);
        path.append("_");
        path.append(self.log_synonym);
        out.push(out_task(path.as_str(), self.bark_task()));

        let mut path = String::from_str("block/stripped_");
        path.append(self.name);
        path.append("_");
        path.append(self.log_synonym);
        out.push(out_task(path.as_str(), stripped_log_side));

        let mut path = String::from_str("block/stripped_");
        path.append(self.name);
        path.append("_");
        path.append(self.log_synonym);
        path.append("_top");
        out.push(out_task(path.as_str(), stripped_log_top.clone()));

        let mut path = String::from_str("block/");
        path.append(self.name);
        path.append("_");
        path.append(self.log_synonym);
        path.append("_top");
        out.push(out_task(path.as_str(), self.log_top_task(stripped_log_top)));

        let mut path = String::from_str("block/");
        path.append(self.name);
        path.append("_trapdoor");
        out.push(out_task(path.as_str(), self.trapdoor_task(door_common_layers.clone())));

        let mut path = String::from_str("block/");
        path.append(self.name);
        path.append("_door_top");
        out.push(out_task(path.as_str(), self.door_top_task(door_bottom.clone(), door_common_layers)));

        let mut path = String::from_str("block/");
        path.append(self.name);
        path.append("_door_bottom");
        out.push(out_task(path.as_str(), door_bottom));

        let mut path = String::from_str("block/");
        path.append(self.name);
        path.append("_");
        path.append(self.leaves_synonym);
        out.push(out_task(path.as_str(), self.leaves_task()));

        let mut path = String::from_str("block/");
        path.append(self.name);
        path.append("_");
        path.append(self.sapling_synonym);
        out.push(out_task(path.as_str(), self.sapling_task()));

        let mut path = String::from_str("block/");
        path.append(self.name);
        path.append("_planks");
        out.push(out_task(path.as_str(), self.planks()));

        assert(out@.map_values(|t: FileOutputTaskSpec| t@) =~= wood_outputs(*self));
        out
    }
}

/// An overworld wood, with the biome-tinted grays for leaves, named "log", "leaves" and
/// "sapling", and planks waves at half strength.
pub fn overworld_wood(
    name: &'static str,
    color: ComparableColor,
    highlight: ComparableColor,
    shadow: ComparableColor,
    bark_color: ComparableColor,
    bark_highlight: ComparableColor,
    bark_shadow: ComparableColor,
    kind: WoodKind,
) -> (r: Wood)
    requires
        !kind.is_fungus(),
    ensures
        r.has_colors(color, highlight, shadow, bark_color, bark_highlight, bark_shadow, gray_spec(0x99), gray_spec(0xbb), gray_spec(0x88)),
        r.has_names(name@, "log"@, "leaves"@, "sapling"@),
        r.planks_highlight_quarters == 2,
        r.planks_shadow_quarters == 2,
        r.kind == kind,
        r.wf(),
{
    Wood {
        color,
        highlight,
        shadow,
        bark_color,
        bark_highlight,
        bark_shadow,
        leaves_color: ComparableColor::medium_biome_colorable(),
        leaves_highlight: ComparableColor::light_biome_colorable(),
        leaves_shadow: ComparableColor::dark_biome_colorable(),
        log_synonym: "log",
        leaves_synonym: "leaves",
        sapling_synonym: "sapling",
        name,
        planks_highlight_quarters: 2,
        planks_shadow_quarters: 2,
        kind,
    }
}

/// A nether fungus, named "stem", "wart_block" and "fungus", with planks waves at
/// three-quarter strength.
pub fn nether_fungus(
    name: &'static str,
    color: ComparableColor,
    highlight: ComparableColor,
    shadow: ComparableColor,
    bark_color: ComparableColor,
    bark_highlight: ComparableColor,
    bark_shadow: ComparableColor,
    leaves_color: ComparableColor,
    leaves_highlight: ComparableColor,
    leaves_shadow: ComparableColor,
    kind: WoodKind,
) -> (r: Wood)
    requires
        kind.is_fungus(),
    ensures
        r.has_colors(color, highlight, shadow, bark_color, bark_highlight, bark_shadow, leaves_color, leaves_highlight, leaves_shadow),
        r.has_names(name@, "stem"@, "wart_block"@, "fungus"@),
        r.planks_highlight_quarters == 3,
        r.planks_shadow_quarters == 3,
        r.kind == kind,
        r.wf(),
{
    Wood {
        color,
        highlight,
        shadow,
        bark_color,
        bark_highlight,
        bark_shadow,
        leaves_color,
        leaves_highlight,
        leaves_shadow,
        log_synonym: "stem",
        leaves_synonym: "wart_block",
        sapling_synonym: "fungus",
        name,
        planks_highlight_quarters: 3,
        planks_shadow_quarters: 3,
        kind,
    }
}

/// Acacia.
pub fn acacia() -> (r: Wood)
    ensures
        r.has_colors(c_spec(0xad5d32), c_spec(0xc26d3f), c_spec(0x915431), c_spec(0x70583B), c_spec(0x898977), c_spec(0x4a4a39), gray_spec(0x99), gray_spec(0xbb), gray_spec(0x88)),
        r.has_names("acacia"@, "log"@, "leaves"@, "sapling"@),
        r.planks_highlight_quarters == 2,
        r.planks_shadow_quarters == 2,
        r.kind == WoodKind::Acacia,
        r.wf(),
{
    overworld_wood("acacia", c(0xad5d32), c(0xc26d3f), c(0x915431), c(0x70583B), c(0x898977), c(0x4a4a39), WoodKind::Acacia)
}

/// Birch: its planks highlight waves are at full strength.
pub fn birch() -> (r: Wood)
    ensures
        r.has_colors(c_spec(0xc8b77a), c_spec(0xD7C187), c_spec(0x915431), c_spec(0xeeffea), gray_spec(0xff), c_spec(0x5f5f4f), gray_spec(0x99), gray_spec(0xbb), gray_spec(0x88)),
        r.has_names("birch"@, "log"@, "leaves"@, "sapling"@),
        r.planks_highlight_quarters == 4,
        r.planks_shadow_quarters == 2,
        r.kind == WoodKind::Birch,
        r.wf(),
{
    let mut base = overworld_wood(
        "birch",
        c(0xc8b77a),
        c(0xD7C187),
        c(0x915431),
        c(0xeeffea),
        ComparableColor::white(),
        c(0x5f5f4f),
        WoodKind::Birch,
    );
    base.planks_highlight_quarters = 4;
    base
}

/// Dark oak.
pub fn dark_oak() -> (r: Wood)
    ensures
        r.has_colors(c_spec(0x3f2d23), c_spec(0x3a2400), c_spec(0x4a4a39), c_spec(0x483800), c_spec(0x2b2000), c_spec(0x624033), gray_spec(0x99), gray_spec(0xbb), gray_spec(0x88)),
        r.has_names("dark_oak"@, "log"@, "leaves"@, "sapling"@),
        r.planks_highlight_quarters == 2,
        r.planks_shadow_quarters == 2,
        r.kind == WoodKind::DarkOak,
        r.wf(),
{
    overworld_wood("dark_oak", c(0x3f2d23), c(0x3a2400), c(0x4a4a39), c(0x483800), c(0x2b2000), c(0x624033), WoodKind::DarkOak)
}

/// Jungle: both planks waves are at full strength.
pub fn jungle() -> (r: Wood)
    ensures
        r.has_colors(c_spec(0x915431), c_spec(0x795b4b), c_spec(0x8A593A), c_spec(0x483800), c_spec(0x2B2000), c_spec(0x8A593A), gray_spec(0x99), gray_spec(0xbb), gray_spec(0x88)),
        r.has_names("jungle"@, "log"@, "leaves"@, "sapling"@),
        r.planks_highlight_quarters == 4,
        r.planks_shadow_quarters == 4,
        r.kind == WoodKind::Jungle,
        r.wf(),
{
    let mut base = overworld_wood(
        "jungle",
        c(0x915431),
        c(0x795b4b),
        c(0x8A593A),
        c(0x483800),
        c(0x2B2000),
        c(0x8A593A),
        WoodKind::Jungle,
    );
    base.planks_shadow_quarters = 4;
    base.planks_highlight_quarters = 4;
    base
}

/// Mangrove: its sapling is called a propagule.
pub fn mangrove() -> (r: Wood)
    ensures
        r.has_colors(c_spec(0x773636), c_spec(0x8A593A), c_spec(0x500000), c_spec(0x583838), c_spec(0x624033), c_spec(0x4a4a39), gray_spec(0x99), gray_spec(0xbb), gray_spec(0x88)),
        r.has_names("mangrove"@, "log"@, "leaves"@, "propagule"@),
        r.planks_highlight_quarters == 2,
        r.planks_shadow_quarters == 2,
        r.kind == WoodKind::Mangrove,
        r.wf(),
{
    let mut base = overworld_wood(
        "mangrove",
        c(0x773636),
        c(0x8A593A),
        c(0x500000),
        c(0x583838),
        c(0x624033),
        c(0x4a4a39),
        WoodKind::Mangrove,
    );
    base.sapling_synonym = "propagule";
    base
}

/// Spruce.
pub fn spruce() -> (r: Wood)
    ensures
        r.has_colors(c_spec(0x70583B), c_spec(0x8A593A), c_spec(0x624033), c_spec(0x3b2700), c_spec(0x624033), c_spec(0x2b2000), gray_spec(0x99), gray_spec(0xbb), gray_spec(0x88)),
        r.has_names("spruce"@, "log"@, "leaves"@, "sapling"@),
        r.planks_highlight_quarters == 2,
        r.planks_shadow_quarters == 2,
        r.kind == WoodKind::Spruce,
        r.wf(),
{
    overworld_wood("spruce", c(0x70583B), c(0x8A593A), c(0x624033), c(0x3b2700), c(0x624033), c(0x2b2000), WoodKind::Spruce)
}

/// Oak.
pub fn oak() -> (r: Wood)
    ensures
        r.has_colors(c_spec(0xaf8f55), c_spec(0xC29d62), c_spec(0x70583B), c_spec(0x70583B), c_spec(0x987849), c_spec(0x4a4a39), gray_spec(0x99), gray_spec(0xbb), gray_spec(0x88)),
        r.has_names("oak"@, "log"@, "leaves"@, "sapling"@),
        r.planks_highlight_quarters == 2,
        r.planks_shadow_quarters == 2,
        r.kind == WoodKind::Oak,
        r.wf(),
{
    overworld_wood("oak", c(0xaf8f55), c(0xC29d62), c(0x70583B), c(0x70583B), c(0x987849), c(0x4a4a39), WoodKind::Oak)
}

/// Crimson, a nether fungus.
pub fn crimson() -> (r: Wood)
    ensures
        r.has_colors(c_spec(0x6a344b), c_spec(0x4b2737), c_spec(0x863e5a), c_spec(0x4b2737), c_spec(0x442929), c_spec(0xb10000), c_spec(0x7b0000), c_spec(0x500000), c_spec(0xac2020)),
        r.has_names("crimson"@, "stem"@, "wart_block"@, "fungus"@),
        r.planks_highlight_quarters == 3,
        r.planks_shadow_quarters == 3,
        r.kind == WoodKind::Crimson,
        r.wf(),
{
    nether_fungus(
        "crimson",
        c(0x6a344b),
        c(0x4b2737),
        c(0x863e5a),
        c(0x4b2737),
        c(0x442929),
        c(0xb10000),
        c(0x7b0000),
        c(0x500000),
        c(0xac2020),
        WoodKind::Crimson,
    )
}

/// Warped, a nether fungus.
pub fn warped() -> (r: Wood)
    ensures
        r.has_colors(c_spec(0x286c6c), c_spec(0x3a8d8d), c_spec(0x003939), c_spec(0x583838), c_spec(0x00956f), c_spec(0x440031), c_spec(0x008282), c_spec(0x00b485), c_spec(0x006565)),
        r.has_names("warped"@, "stem"@, "wart_block"@, "fungus"@),
        r.planks_highlight_quarters == 3,
        r.planks_shadow_quarters == 3,
        r.kind == WoodKind::Warped,
        r.wf(),
{
    nether_fungus(
        "warped",
        c(0x286c6c),
        c(0x3a8d8d),
        c(0x003939),
        c(0x583838),
        c(0x00956f),
        c(0x440031),
        c(0x008282),
        c(0x00b485),
        c(0x006565),
        WoodKind::Warped,
    )
}

/// The overworld woods, in order.
pub fn overworld_woods() -> (r: Vec<Wood>)
    ensures
        r@.len() == 7,
        r@[0].kind == WoodKind::Acacia,
        r@[1].kind == WoodKind::Birch,
        r@[2].kind == WoodKind::DarkOak,
        r@[3].kind == WoodKind::Jungle,
        r@[4].kind == WoodKind::Mangrove,
        r@[5].kind == WoodKind::Spruce,
        r@[6].kind == WoodKind::Oak,
        forall|i: int| 0 <= i < r@.len() ==> (#[trigger] r@[i]).wf(),
{
    vec![acacia(), birch(), dark_oak(), jungle(), mangrove(), spruce(), oak()]
}

/// The nether fungi, in order.
pub fn nether_fungi() -> (r: Vec<Wood>)
    ensures
        r@.len() == 2,
        r@[0].kind == WoodKind::Crimson,
        r@[1].kind == WoodKind::Warped,
        forall|i: int| 0 <= i < r@.len() ==> (#[trigger] r@[i]).wf(),
{
    vec![crimson(), warped()]
}

} // verus!
