use crate::color::{c, c_spec, ComparableColor};
use crate::stack::{spec_stack, stack};
use crate::task_spec::{
    from_svg_task, out_task, pixmap_has_no_empty, spec_paint_svg_task, FileOutputTaskSpec, OutputTask, PixmapTask,
    ToPixmapTaskSpec,
};
use crate::texture::{painted_svg, spec_stack_on_color, stack_on_color, ColorTriad};
use vstd::prelude::*;

verus! {

/// One side of a command block: a layer under the grid and the grid.
#[derive(Copy, Clone, Debug)]
pub struct CommandBlockSideType {
    pub name: &'static str,
    pub layer_under_grid_name: &'static str,
    pub grid_layer_name: &'static str,
}

/// The grid of a side over the layer under it, painted the shadow color.
pub open spec fn grid_layers_of(layer_under_grid: Seq<char>, grid: Seq<char>, colors: ColorTriad) -> PixmapTask {
    spec_stack(spec_paint_svg_task(layer_under_grid, colors.shadow), PixmapTask::FromSvg(grid))
}

impl CommandBlockSideType {
    /// The grid of the side over the layer under it (see [`grid_layers_of`]).
    pub fn grid_layers(&self, type_colors: &ColorTriad) -> (r: ToPixmapTaskSpec)
        ensures
            r@ == grid_layers_of(self.layer_under_grid_name@, self.grid_layer_name@, *type_colors),
            pixmap_has_no_empty(r@),
    {
        let grid = from_svg_task(self.grid_layer_name);
        assert(pixmap_has_no_empty(grid@));
        stack(painted_svg(self.layer_under_grid_name, type_colors.shadow), grid)
    }
}

/// One kind of command block: a name prefix, colors and an optional decoration.
#[derive(Copy, Clone, Debug)]
pub struct CommandBlockColorType {
    pub prefix: &'static str,
    pub colors: ColorTriad,
    pub decoration: Option<&'static str>,
}

/// The background of a kind of command block: diagonal checks over its color, with its
/// decoration on top.
pub open spec fn command_block_background(colors: ColorTriad, decoration: Option<Seq<char>>) -> PixmapTask {
    let background = spec_stack_on_color(
        colors.color,
        spec_stack(
            spec_paint_svg_task("diagonalChecks4x"@, colors.shadow),
            spec_paint_svg_task("diagonalChecksFill4x"@, colors.highlight),
        ),
    );
    match decoration {
        Some(d) => spec_stack(background, PixmapTask::FromSvg(d)),
        None => background,
    }
}

/// The name, the layer under the grid and the grid of side `s` of a command block: front,
/// back, side and conditional side.
pub open spec fn side_spec(s: int) -> (Seq<char>, Seq<char>, Seq<char>) {
    if s == 0 {
        ("front"@, "commandBlockOctagon4x"@, "commandBlockGridFront"@)
    } else if s == 1 {
        ("back"@, "commandBlockSquare4x"@, "commandBlockGrid"@)
    } else if s == 2 {
        ("side"@, "commandBlockArrowUnconditional4x"@, "commandBlockGrid"@)
    } else {
        ("conditional"@, "commandBlockArrow4x"@, "commandBlockGrid"@)
    }
}

/// The name prefix, colors and decoration of kind `k` of command block: impulse, chain and
/// repeating.
pub open spec fn kind_spec(k: int) -> (Seq<char>, ColorTriad, Option<Seq<char>>) {
    if k == 0 {
        (""@, ColorTriad { color: c_spec(0xc77e4f), shadow: c_spec(0xa66030), highlight: c_spec(0xd7b49d) }, None)
    } else if k == 1 {
        (
            "chain_"@,
            ColorTriad { color: c_spec(0x76b297), shadow: c_spec(0x5f8f7a), highlight: c_spec(0xa8bec5) },
            Some("commandBlockChains4x"@),
        )
    } else {
        (
            "repeating_"@,
            ColorTriad { color: c_spec(0x6a4fc7), shadow: c_spec(0x553b9b), highlight: c_spec(0x9b8bcf) },
            Some("loopArrow4x"@),
        )
    }
}

/// The texture of side `s` of kind `k` of command block, written to
/// `block/PREFIXcommand_block_SIDE`.
pub open spec fn command_block_output(k: int, s: int) -> OutputTask {
    let (prefix, colors, decoration) = kind_spec(k);
    let (name, under, grid) = side_spec(s);
    OutputTask::PngOutput(
        spec_stack(command_block_background(colors, decoration), grid_layers_of(under, grid, colors)),
        "block/"@ + prefix + "command_block_"@ + name,
    )
}

/// The view of an optional name.
pub open spec fn decoration_view(d: Option<&'static str>) -> Option<Seq<char>> {
    match d {
        Some(name) => Some(name@),
        None => None,
    }
}

/// The four sides of a command block (see [`side_spec`]).
pub fn side_types() -> (r: Vec<CommandBlockSideType>)
    ensures
        r@.len() == 4,
        forall|s: int| 0 <= s < 4 ==> ((#[trigger] r@[s]).name@, r@[s].layer_under_grid_name@, r@[s].grid_layer_name@) == side_spec(s),
{
    let mut out: Vec<CommandBlockSideType> = Vec::new();
    out.push(CommandBlockSideType { name: "front", layer_under_grid_name: "commandBlockOctagon4x", grid_layer_name: "commandBlockGridFront" });
    out.push(CommandBlockSideType { name: "back", layer_under_grid_name: "commandBlockSquare4x", grid_layer_name: "commandBlockGrid" });
    out.push(CommandBlockSideType { name: "side", layer_under_grid_name: "commandBlockArrowUnconditional4x", grid_layer_name: "commandBlockGrid" });
    out.push(CommandBlockSideType { name: "conditional", layer_under_grid_name: "commandBlockArrow4x", grid_layer_name: "commandBlockGrid" });
    out
}

/// The three kinds of command blocks (see [`kind_spec`]).
pub fn color_types() -> (r: Vec<CommandBlockColorType>)
    ensures
        r@.len() == 3,
        forall|k: int| 0 <= k < 3 ==> ((#[trigger] r@[k]).prefix@, r@[k].colors, decoration_view(r@[k].decoration)) == kind_spec(k),
{
    let mut out: Vec<CommandBlockColorType> = Vec::new();
    out.push(CommandBlockColorType {
        prefix: "",
        colors: ColorTriad { color: c(0xc77e4f), shadow: c(0xa66030), highlight: c(0xd7b49d) },
        decoration: None,
    });
    out.push(CommandBlockColorType {
        prefix: "chain_",
        colors: ColorTriad { color: c(0x76b297), shadow: c(0x5f8f7a), highlight: c(0xa8bec5) },
        decoration: Some("commandBlockChains4x"),
    });
    out.push(CommandBlockColorType {
        prefix: "repeating_",
        colors: ColorTriad { color: c(0x6a4fc7), shadow: c(0x553b9b), highlight: c(0x9b8bcf) },
        decoration: Some("loopArrow4x"),
    });
    out
}

fn background_task(color_type: &CommandBlockColorType) -> (r: ToPixmapTaskSpec)
    ensures
        r@ == command_block_background(color_type.colors, decoration_view(color_type.decoration)),
        pixmap_has_no_empty(r@),
{
    let checks = stack(
        painted_svg("diagonalChecks4x", color_type.colors.shadow),
        painted_svg("diagonalChecksFill4x", color_type.colors.highlight),
    );
    let background = stack_on_color(color_type.colors.color, checks);
    match color_type.decoration {
        Some(decoration) => {
            let layer = from_svg_task(decoration);
            assert(pixmap_has_no_empty(layer@));
            stack(background, layer)
        },
        None => background,
    }
}

/// The command blocks.
pub enum CommandBlocks {
    CommandBlocks,
}

impl CommandBlocks {
    /// One texture for each side of each kind of command block, the kinds in order, the
    /// sides in order within each kind (see [`command_block_output`]).
    pub fn get_output_tasks(&self) -> (r: Vec<FileOutputTaskSpec>)
        ensures
            r@.len() == 12,
            forall|k: int, s: int| 0 <= k < 3 && 0 <= s < 4 ==> (#[trigger] r@[4 * k + s])@ == command_block_output(k, s),
    {
        let kinds = color_types();
        let sides = side_types();
        let mut out: Vec<FileOutputTaskSpec> = Vec::new();
        let mut k: usize = 0;
        while k < 3
            invariant
                kinds@.len() == 3,
                sides@.len() == 4,
                k <= 3,
                out@.len() == 4 * k,
                forall|k2: int| 0 <= k2 < 3 ==> ((#[trigger] kinds@[k2]).prefix@, kinds@[k2].colors, decoration_view(kinds@[k2].decoration)) == kind_spec(k2),
                forall|s2: int| 0 <= s2 < 4 ==> ((#[trigger] sides@[s2]).name@, sides@[s2].layer_under_grid_name@, sides@[s2].grid_layer_name@) == side_spec(s2),
                forall|kk: int, s: int| 0 <= kk < k && 0 <= s < 4 ==> (#[trigger] out@[4 * kk + s])@ == command_block_output(kk, s),
            decreases 3 - k,
        {
            let background = background_task(&kinds[k]);
            assert(kinds@[k as int].prefix@ == kind_spec(k as int).0);
            let mut prefix = String::from_str("block/");
            prefix.append(kinds[k].prefix);
            prefix.append("command_block_");
            let mut s: usize = 0;
            while s < 4
                invariant
                    kinds@.len() == 3,
                    sides@.len() == 4,
                    k < 3,
                    s <= 4,
                    forall|k2: int| 0 <= k2 < 3 ==> ((#[trigger] kinds@[k2]).prefix@, kinds@[k2].colors, decoration_view(kinds@[k2].decoration)) == kind_spec(k2),
                    forall|s2: int| 0 <= s2 < 4 ==> ((#[trigger] sides@[s2]).name@, sides@[s2].layer_under_grid_name@, sides@[s2].grid_layer_name@) == side_spec(s2),
                    background@ == command_block_background(kind_spec(k as int).1, kind_spec(k as int).2),
                    pixmap_has_no_empty(background@),
                    prefix@ == "block/"@ + kind_spec(k as int).0 + "command_block_"@,
                    out@.len() == 4 * k + s,
                    forall|kk: int, ss: int| 0 <= kk < k && 0 <= ss < 4 ==> (#[trigger] out@[4 * kk + ss])@ == command_block_output(kk, ss),
                    forall|ss: int| 0 <= ss < s ==> (#[trigger] out@[4 * k + ss])@ == command_block_output(k as int, ss),
                decreases 4 - s,
            {
                let side = sides[s];
                let mut name = String::from_str(prefix.as_str());
                name.append(side.name);
                assert(side.name@ == side_spec(s as int).0);
                let texture = stack(background.clone(), side.grid_layers(&kinds[k].colors));
                out.push(out_task(name.as_str(), texture));
                assert(out@[4 * k + s]@ == command_block_output(k as int, s as int));
                s = s + 1;
            }
            assert forall|kk: int, ss: int| 0 <= kk < k + 1 && 0 <= ss < 4 implies (#[trigger] out@[4 * kk + ss])@ == command_block_output(kk, ss) by {
                if kk == k {
                    assert(out@[4 * k + ss]@ == command_block_output(k as int, ss));
                }
            }
            k = k + 1;
        }
        out
    }
}

} // verus!
