use crate::color::{gray_spec, ComparableColor};
use crate::color_description::{description_alphas, multiply_alpha_vec, multiplied_alphas, paint_alpha_colors, stack_alpha_vecs, stacked_alphas, tinted, ColorDescription, DescriptionModel, Transparency};
use crate::color_set::strictly_sorted;
use crate::png_encode::{demultiplied_color, pixel_at};
use crate::raster::Pixmap;
use crate::task_spec::{
    alpha_grid_perfect, alpha_has_no_empty, frames_view, svg_color_description, svg_description_kind, pixmap_grid_perfect, pixmap_has_no_empty,
    AlphaTask, FileOutputTaskSpec, OutputTask, PixmapTask, ToAlphaChannelTaskSpec, ToPixmapTaskSpec,
};
use crate::u8set::U8BitSet;
use vstd::prelude::*;

verus! {

/// The side of the grid that the textures are drawn on, in pixels.
pub const GRID_SIZE: u32 = 32;

// ---------------------------------------------------------------------------------------------
// Where tasks are rendered
// ---------------------------------------------------------------------------------------------

/// An image task is rendered at the grid size and upscaled when that loses nothing, the tile
/// size is not the grid size, and the task is not already an upscaling.
pub open spec fn pixmap_reroutes(p: PixmapTask, tile_size: u32) -> bool {
    !(p is UpscaleFromGridSize) && tile_size != GRID_SIZE && pixmap_grid_perfect(p)
}

/// An alpha-channel task is rendered at the grid size and upscaled on the same conditions as
/// an image task.
pub open spec fn alpha_reroutes(a: AlphaTask, tile_size: u32) -> bool {
    !(a is UpscaleFromGridSize) && tile_size != GRID_SIZE && alpha_grid_perfect(a)
}

/// The side at which a task's colors are found: the grid size when the tile size is the grid
/// size or the task can be rendered at the grid size, else the tile size.
pub open spec fn description_side(p: PixmapTask, tile_size: u32) -> u32 {
    if tile_size == GRID_SIZE || pixmap_grid_perfect(p) {
        GRID_SIZE
    } else {
        tile_size
    }
}

/// The number of pixels whose colors a task's description covers: a square of the side, once
/// per frame of an animation.
pub open spec fn description_pixels(p: PixmapTask, tile_size: u32) -> int {
    let side = description_side(p, tile_size);
    match p {
        PixmapTask::Animate(_, frames) => side * side * frames.len(),
        _ => side * side,
    }
}

impl ToPixmapTaskSpec {
    /// Whether the task is added to the task graph as the upscaling of itself rendered at the
    /// grid size.
    pub fn reroutes_to_grid(&self, tile_size: u32) -> (r: bool)
        requires
            pixmap_has_no_empty(self@),
        ensures
            r == pixmap_reroutes(self@, tile_size),
    {
        match self {
            ToPixmapTaskSpec::UpscaleFromGridSize { .. } => false,
            _ => tile_size != GRID_SIZE && self.is_grid_perfect(),
        }
    }

    /// The side at which the task's colors are found (see [`description_side`]).
    pub fn description_side_length(&self, tile_size: u32) -> (r: u32)
        requires
            pixmap_has_no_empty(self@),
        ensures
            r == description_side(self@, tile_size),
    {
        if tile_size == GRID_SIZE || self.is_grid_perfect() {
            GRID_SIZE
        } else {
            tile_size
        }
    }

    /// The number of pixels the task's description covers (see [`description_pixels`]).
    pub fn description_pixel_count(&self, tile_size: u32) -> (r: usize)
        requires
            pixmap_has_no_empty(self@),
            description_pixels(self@, tile_size) < usize::MAX,
        ensures
            r == description_pixels(self@, tile_size),
    {
        let side = self.description_side_length(tile_size) as usize;
        match self {
            ToPixmapTaskSpec::Animate { frames, .. } => {
                proof {
                    crate::task_spec::lemma_frames_view_facts(frames@);
                    assert(self@ matches PixmapTask::Animate(_, fv) && fv.len() == frames@.len());
                }
                if frames.len() == 0 {
                    assert(side * side * 0 == 0);
                    0
                } else {
                    proof {
                        assert(side * side <= side * side * frames@.len()) by (nonlinear_arith)
                            requires
                                frames@.len() >= 1,
                        ;
                    }
                    side * side * frames.len()
                }
            },
            _ => side * side,
        }
    }
}

impl ToAlphaChannelTaskSpec {
    /// Whether the task is added to the task graph as the upscaling of itself rendered at the
    /// grid size.
    pub fn reroutes_to_grid(&self, tile_size: u32) -> (r: bool)
        requires
            alpha_has_no_empty(self@),
        ensures
            r == alpha_reroutes(self@, tile_size),
    {
        match self {
            ToAlphaChannelTaskSpec::UpscaleFromGridSize { .. } => false,
            _ => tile_size != GRID_SIZE && self.is_grid_perfect(),
        }
    }
}

/// The size at which the image of a PNG file is rendered: the grid size when that loses
/// nothing, else the tile size.
pub fn output_render_size(base: &ToPixmapTaskSpec, tile_size: u32) -> (r: u32)
    requires
        pixmap_has_no_empty(base@),
    ensures
        r == (if pixmap_grid_perfect(base@) {
            GRID_SIZE
        } else {
            tile_size
        }),
{
    if base.is_grid_perfect() {
        GRID_SIZE
    } else {
        tile_size
    }
}

/// Whether a file-output task is cheap enough to be started after the others: a copy, or a
/// PNG file whose image is rendered at the grid size while the tiles are larger.
pub fn is_small_output(task: &FileOutputTaskSpec, tile_size: u32) -> (r: bool)
    requires
        task@ matches OutputTask::PngOutput(base, _) ==> pixmap_has_no_empty(base),
    ensures
        r == (match task@ {
            OutputTask::PngOutput(base, _) => tile_size > GRID_SIZE && pixmap_grid_perfect(base),
            OutputTask::Copy(_, _) => true,
        }),
{
    match task {
        FileOutputTaskSpec::PngOutput { base, .. } => tile_size > GRID_SIZE && base.is_grid_perfect(),
        FileOutputTaskSpec::Copy { .. } => true,
    }
}

// ---------------------------------------------------------------------------------------------
// Colors and alpha values of the nodes
// ---------------------------------------------------------------------------------------------

/// The description of an animation: each frame laid over the background, each joined side by
/// side with the frames before it.
pub open spec fn animation_description_model(
    background: DescriptionModel,
    frames: Seq<DescriptionModel>,
    max_colors: nat,
) -> DescriptionModel
    decreases frames.len(),
{
    if frames.len() <= 1 {
        frames[0].stack_on(background, max_colors)
    } else {
        frames.last().stack_on(background, max_colors).put_adjacent(
            animation_description_model(background, frames.drop_last(), max_colors),
        )
    }
}

/// The forms of a list of descriptions.
pub open spec fn descriptions_view(s: Seq<ColorDescription>) -> Seq<DescriptionModel> {
    s.map_values(|d: ColorDescription| d@)
}

/// The description of an animation of frames with the given descriptions over a background
/// (see [`animation_description_model`]); at most `max_colors` colors are listed where frames
/// are laid over listed colors.
pub fn animation_description(background: &ColorDescription, frames: &[ColorDescription], max_colors: usize) -> (r: ColorDescription)
    requires
        background@.wf(),
        frames@.len() > 0,
        forall|i: int| 0 <= i < frames@.len() ==> (#[trigger] frames@[i])@.wf(),
        max_colors >= 1,
    ensures
        r@ == animation_description_model(background@, descriptions_view(frames@), max_colors as nat),
        r@.wf(),
{
    let ghost views = descriptions_view(frames@);
    let mut current = frames[0].stack_on(background, max_colors);
    proof {
        assert(views.take(1).len() == 1);
        assert(views.take(1)[0] == frames@[0]@);
    }
    let mut i: usize = 1;
    while i < frames.len()
        invariant
            1 <= i <= frames@.len(),
            views == descriptions_view(frames@),
            background@.wf(),
            max_colors >= 1,
            forall|k: int| 0 <= k < frames@.len() ==> (#[trigger] frames@[k])@.wf(),
            current@.wf(),
            current@ == animation_description_model(background@, views.take(i as int), max_colors as nat),
        decreases frames@.len() - i,
    {
        let frame = frames[i].stack_on(background, max_colors);
        let next = frame.put_adjacent(&current);
        proof {
            let t = views.take(i + 1);
            assert(t.drop_last() =~= views.take(i as int));
            assert(t.last() == frames@[i as int]@);
        }
        current = next;
        i = i + 1;
    }
    assert(views.take(frames@.len() as int) =~= views);
    current
}

/// The description of an image laid over a solid color, listing at most `max_colors` colors.
pub fn stack_on_color_description(foreground: &ColorDescription, background: ComparableColor, max_colors: usize) -> (r: ColorDescription)
    requires
        foreground@.wf(),
        max_colors >= 1,
    ensures
        r@ == foreground@.stack_on(DescriptionModel::SpecifiedColors(seq![background]), max_colors as nat),
        r@.wf(),
{
    let mut colors: Vec<ComparableColor> = Vec::new();
    colors.push(background);
    let described = ColorDescription::SpecifiedColors(colors);
    assert(described@ == DescriptionModel::SpecifiedColors(seq![background]));
    foreground.stack_on(&described, max_colors)
}

/// The description of the colors that the SVG image `name` may hold (see
/// [`svg_color_description`]).
pub open spec fn svg_description_model(name: Seq<char>) -> DescriptionModel {
    let kind = svg_description_kind(name);
    if kind == 0 {
        DescriptionModel::Rgb(Transparency::Binary)
    } else if kind == 1 {
        DescriptionModel::Rgb(Transparency::AlphaChannel)
    } else if kind == 2 {
        DescriptionModel::SpecifiedColors(seq![ComparableColor { alpha: 0, red: 0, green: 0, blue: 0 }, gray_spec(0)])
    } else {
        DescriptionModel::SpecifiedColors(
            Seq::new(256, |i: int| ComparableColor { alpha: i as u8, red: 0, green: 0, blue: 0 }),
        )
    }
}

/// How many descriptions of its inputs a node's description is made from, in the order
/// [`node_described`] reads them: an animation's background then its frames, a layer over a
/// color its foreground, two layers their background then foreground, an upscaling its base;
/// none for an SVG image or a painted alpha channel.
pub open spec fn node_inputs(p: PixmapTask) -> int {
    match p {
        PixmapTask::Animate(_, frames) => 1 + frames.len() as int,
        PixmapTask::StackLayerOnColor(..) => 1,
        PixmapTask::StackLayerOnLayer(..) => 2,
        PixmapTask::UpscaleFromGridSize(..) => 1,
        _ => 0,
    }
}

/// The colors are strictly sorted and are those that painting `color` through pixels of the
/// opacities `alphas` gives.
pub open spec fn painted_colors(colors: Seq<ComparableColor>, color: ComparableColor, alphas: Set<u8>) -> bool {
    &&& strictly_sorted(colors)
    &&& forall|c: ComparableColor| #[trigger] colors.contains(c) <==> exists|a: u8| alphas.contains(a) && c
        == #[trigger] tinted(color, a)
}

/// Whether `d` is the description of the node `p` before capping, made from the descriptions
/// of its inputs and, for a painted alpha channel, the alpha values of the channel; at most
/// `max_colors` colors are listed where layers are laid over listed colors.
pub open spec fn node_described(
    p: PixmapTask,
    inputs: Seq<DescriptionModel>,
    alphas: Set<u8>,
    max_colors: nat,
    d: DescriptionModel,
) -> bool {
    match p {
        PixmapTask::Animate(..) => d == animation_description_model(inputs[0], inputs.drop_first(), max_colors),
        PixmapTask::FromSvg(name) => d == svg_description_model(name),
        PixmapTask::PaintAlphaChannel(_, color) => d matches DescriptionModel::SpecifiedColors(colors)
            && painted_colors(colors, color, alphas),
        PixmapTask::StackLayerOnColor(background, _) => d == inputs[0].stack_on(
            DescriptionModel::SpecifiedColors(seq![background]),
            max_colors,
        ),
        PixmapTask::StackLayerOnLayer(..) => d == inputs[1].stack_on(inputs[0], max_colors),
        PixmapTask::UpscaleFromGridSize(..) => d == inputs[0],
        PixmapTask::Empty => false,
    }
}

/// The description of one node of the task graph before capping, from the descriptions of its
/// inputs (see [`node_inputs`]) and, for a painted alpha channel, the alpha values of the
/// channel (see [`node_described`]).
pub fn describe_node(task: &ToPixmapTaskSpec, inputs: &[ColorDescription], alphas: &U8BitSet, max_colors: usize) -> (r: ColorDescription)
    requires
        pixmap_has_no_empty(task@),
        inputs@.len() == node_inputs(task@),
        forall|i: int| 0 <= i < inputs@.len() ==> (#[trigger] inputs@[i])@.wf(),
        alphas.wf(),
        task@ is Animate ==> inputs@.len() > 1,
        max_colors >= 1,
    ensures
        node_described(task@, descriptions_view(inputs@), alphas@, max_colors as nat, r@),
        !(task@ is PaintAlphaChannel) || alphas@.len() > 0 ==> r@.wf(),
{
    let ghost views = descriptions_view(inputs@);
    assert(inputs@.len() >= 1 ==> views[0] == inputs@[0]@);
    assert(inputs@.len() >= 2 ==> views[1] == inputs@[1]@);
    let r = match task {
        ToPixmapTaskSpec::Animate { .. } => {
            let frames = vstd::slice::slice_subrange(inputs, 1, inputs.len());
            assert(frames@ =~= inputs@.subrange(1, inputs@.len() as int));
            assert(descriptions_view(frames@) =~= views.drop_first());
            animation_description(&inputs[0], frames, max_colors)
        },
        ToPixmapTaskSpec::FromSvg { source } => svg_color_description(source),
        ToPixmapTaskSpec::PaintAlphaChannel { color, .. } => {
            let colors = paint_alpha_colors(*color, alphas);
            assert(painted_colors(colors@, *color, alphas@));
            ColorDescription::SpecifiedColors(colors)
        },
        ToPixmapTaskSpec::StackLayerOnColor { background, .. } => stack_on_color_description(
            &inputs[0],
            *background,
            max_colors,
        ),
        ToPixmapTaskSpec::StackLayerOnLayer { .. } => inputs[1].stack_on(&inputs[0], max_colors),
        ToPixmapTaskSpec::UpscaleFromGridSize { .. } => inputs[0].duplicate(),
        ToPixmapTaskSpec::Empty => unreached(),
    };
    r
}

/// The alpha values of an alpha channel laid over a uniform one of opacity `background`.
pub fn alpha_values_on_background(background: u8, foreground: &U8BitSet) -> (r: U8BitSet)
    requires
        foreground.wf(),
    ensures
        r.wf(),
        r@ == crate::color_description::stacked_alphas(set![background], foreground@),
{
    let mut only = U8BitSet::new();
    only.insert(background);
    assert(only@ =~= set![background]);
    stack_alpha_vecs(&only, foreground)
}

/// The colors of a rendered image, one per pixel in order.
pub open spec fn image_colors_of(data: Seq<u8>, n: nat) -> Seq<ComparableColor> {
    Seq::new(n, |i: int| demultiplied_color(pixel_at(data, i)))
}

/// The color that each pixel of a rendered image shows, in order.
pub fn image_colors(image: &Pixmap) -> (r: Vec<ComparableColor>)
    requires
        image.wf(),
    ensures
        r@ == image_colors_of(image.data@, (image.width * image.height) as nat),
{
    let len = image.data.len();
    let n = len / 4;
    let mut out: Vec<ComparableColor> = Vec::new();
    let mut i: usize = 0;
    while i < n
        invariant
            len == image.data@.len(),
            n * 4 == image.data@.len(),
            n == image.width * image.height,
            i <= n,
            out@.len() == i,
            forall|j: int| 0 <= j < i ==> #[trigger] out@[j] == demultiplied_color(pixel_at(image.data@, j)),
        decreases n - i,
    {
        let color = ComparableColor::from_premultiplied(
            image.data[4 * i],
            image.data[4 * i + 1],
            image.data[4 * i + 2],
            image.data[4 * i + 3],
        );
        out.push(color);
        i = i + 1;
    }
    assert(out@ =~= image_colors_of(image.data@, n as nat));
    out
}


/// How many alpha-value sets of its inputs an alpha-channel node's values are made from, in the
/// order [`alpha_node_values`] reads them: a stack of two channels its background then its
/// foreground; one for the other kinds, except none for the channel of an image.
pub open spec fn alpha_node_inputs(a: AlphaTask) -> int {
    match a {
        AlphaTask::FromPixmap(..) => 0,
        AlphaTask::StackAlphaOnAlpha(..) => 2,
        _ => 1,
    }
}

/// The forms of a list of alpha-value sets.
pub open spec fn alpha_sets_view(s: Seq<U8BitSet>) -> Seq<Set<u8>> {
    s.map_values(|x: U8BitSet| x@)
}

/// The alpha values that the pixels of an alpha-channel node may have, from those of its
/// inputs, and for the channel of an image from the image's description.
pub open spec fn alpha_node_values(a: AlphaTask, inputs: Seq<Set<u8>>, image: Option<DescriptionModel>) -> Set<u8> {
    match a {
        AlphaTask::MakeSemitransparent(_, alpha) => multiplied_alphas(inputs[0], alpha),
        AlphaTask::FromPixmap(_) => description_alphas(image.unwrap()),
        AlphaTask::StackAlphaOnAlpha(..) => stacked_alphas(inputs[0], inputs[1]),
        AlphaTask::StackAlphaOnBackground(background, _) => stacked_alphas(set![background], inputs[0]),
        AlphaTask::UpscaleFromGridSize(_) => inputs[0],
    }
}

/// The description of an image, where there is one.
pub open spec fn image_view(image: Option<&ColorDescription>) -> Option<DescriptionModel> {
    match image {
        Some(d) => Some(d@),
        None => None,
    }
}

/// The alpha values of one alpha-channel node of the task graph, from those of its inputs
/// (see [`alpha_node_inputs`]) and, for the channel of an image, the image's description (see
/// [`alpha_node_values`]).
pub fn alpha_node(task: &ToAlphaChannelTaskSpec, inputs: Vec<U8BitSet>, image: Option<&ColorDescription>) -> (r: U8BitSet)
    requires
        inputs@.len() == alpha_node_inputs(task@),
        forall|i: int| 0 <= i < inputs@.len() ==> (#[trigger] inputs@[i]).wf(),
        task@ is FromPixmap ==> (image matches Some(d) && d@.wf()),
    ensures
        r.wf(),
        r@ == alpha_node_values(task@, alpha_sets_view(inputs@), image_view(image)),
{
    let ghost views = alpha_sets_view(inputs@);
    assert(inputs@.len() >= 1 ==> views[0] == inputs@[0]@);
    assert(inputs@.len() >= 2 ==> views[1] == inputs@[1]@);
    let mut inputs = inputs;
    match task {
        ToAlphaChannelTaskSpec::MakeSemitransparent { alpha, .. } => {
            let base = inputs.pop().unwrap();
            multiply_alpha_vec(base, *alpha)
        },
        ToAlphaChannelTaskSpec::FromPixmap { .. } => image.unwrap().possible_alpha_values(),
        ToAlphaChannelTaskSpec::StackAlphaOnAlpha { .. } => {
            let foreground = inputs.pop().unwrap();
            let background = inputs.pop().unwrap();
            stack_alpha_vecs(&background, &foreground)
        },
        ToAlphaChannelTaskSpec::StackAlphaOnBackground { background, .. } => {
            let foreground = inputs.pop().unwrap();
            alpha_values_on_background(*background, &foreground)
        },
        ToAlphaChannelTaskSpec::UpscaleFromGridSize { .. } => inputs.pop().unwrap(),
    }
}

} // verus!
