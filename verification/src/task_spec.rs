use crate::color::{gray, gray_spec, ComparableColor};
use crate::color_description::ColorDescription;
use crate::color_set::create_black_to_transparent;
use crate::color_description::Transparency;
use crate::svg_names::{color_svgs, is_color_svg, is_semitransparency_free_svg, semitransparency_free_svgs};
use vstd::prelude::*;

verus! {

/// A task that produces an image.
#[derive(Debug, PartialEq, Eq, Hash)]
pub enum ToPixmapTaskSpec {
    Animate { background: Box<ToPixmapTaskSpec>, frames: Vec<ToPixmapTaskSpec> },
    FromSvg { source: String },
    PaintAlphaChannel { base: Box<ToAlphaChannelTaskSpec>, color: ComparableColor },
    StackLayerOnColor { background: ComparableColor, foreground: Box<ToPixmapTaskSpec> },
    StackLayerOnLayer { background: Box<ToPixmapTaskSpec>, foreground: Box<ToPixmapTaskSpec> },
    UpscaleFromGridSize { base: Box<ToPixmapTaskSpec> },
    Empty,
}

/// A task that produces an alpha channel.
#[derive(Debug, PartialEq, Eq, Hash)]
pub enum ToAlphaChannelTaskSpec {
    MakeSemitransparent { base: Box<ToAlphaChannelTaskSpec>, alpha: u8 },
    FromPixmap { base: ToPixmapTaskSpec },
    StackAlphaOnAlpha { background: Box<ToAlphaChannelTaskSpec>, foreground: Box<ToAlphaChannelTaskSpec> },
    StackAlphaOnBackground { background: u8, foreground: Box<ToAlphaChannelTaskSpec> },
    UpscaleFromGridSize { base: Box<ToAlphaChannelTaskSpec> },
}


/// The mathematical form of a [`ToPixmapTaskSpec`].
pub enum PixmapTask {
    Animate(Box<PixmapTask>, Seq<PixmapTask>),
    FromSvg(Seq<char>),
    PaintAlphaChannel(Box<AlphaTask>, ComparableColor),
    StackLayerOnColor(ComparableColor, Box<PixmapTask>),
    StackLayerOnLayer(Box<PixmapTask>, Box<PixmapTask>),
    UpscaleFromGridSize(Box<PixmapTask>),
    Empty,
}

/// The mathematical form of a [`ToAlphaChannelTaskSpec`].
pub enum AlphaTask {
    MakeSemitransparent(Box<AlphaTask>, u8),
    FromPixmap(PixmapTask),
    StackAlphaOnAlpha(Box<AlphaTask>, Box<AlphaTask>),
    StackAlphaOnBackground(u8, Box<AlphaTask>),
    UpscaleFromGridSize(Box<AlphaTask>),
}

/// The forms of a list of image tasks.
pub open spec fn frames_view(frames: Seq<ToPixmapTaskSpec>) -> Seq<PixmapTask>
    decreases frames,
{
    if frames.len() == 0 {
        seq![]
    } else {
        frames_view(frames.drop_last()).push(pixmap_view(&frames.last()))
    }
}

/// The form of an image task.
pub open spec fn pixmap_view(t: &ToPixmapTaskSpec) -> PixmapTask
    decreases t,
{
    match t {
        ToPixmapTaskSpec::Animate { background, frames } => PixmapTask::Animate(
            Box::new(pixmap_view(background)),
            frames_view(frames@),
        ),
        ToPixmapTaskSpec::FromSvg { source } => PixmapTask::FromSvg(source@),
        ToPixmapTaskSpec::PaintAlphaChannel { base, color } => PixmapTask::PaintAlphaChannel(
            Box::new(alpha_view(base)),
            *color,
        ),
        ToPixmapTaskSpec::StackLayerOnColor { background, foreground } => PixmapTask::StackLayerOnColor(
            *background,
            Box::new(pixmap_view(foreground)),
        ),
        ToPixmapTaskSpec::StackLayerOnLayer { background, foreground } => PixmapTask::StackLayerOnLayer(
            Box::new(pixmap_view(background)),
            Box::new(pixmap_view(foreground)),
        ),
        ToPixmapTaskSpec::UpscaleFromGridSize { base } => PixmapTask::UpscaleFromGridSize(
            Box::new(pixmap_view(base)),
        ),
        ToPixmapTaskSpec::Empty => PixmapTask::Empty,
    }
}

/// The form of an alpha-channel task.
pub open spec fn alpha_view(t: &ToAlphaChannelTaskSpec) -> AlphaTask
    decreases t,
{
    match t {
        ToAlphaChannelTaskSpec::MakeSemitransparent { base, alpha } => AlphaTask::MakeSemitransparent(
            Box::new(alpha_view(base)),
            *alpha,
        ),
        ToAlphaChannelTaskSpec::FromPixmap { base } => AlphaTask::FromPixmap(pixmap_view(base)),
        ToAlphaChannelTaskSpec::StackAlphaOnAlpha { background, foreground } => AlphaTask::StackAlphaOnAlpha(
            Box::new(alpha_view(background)),
            Box::new(alpha_view(foreground)),
        ),
        ToAlphaChannelTaskSpec::StackAlphaOnBackground { background, foreground } => AlphaTask::StackAlphaOnBackground(
            *background,
            Box::new(alpha_view(foreground)),
        ),
        ToAlphaChannelTaskSpec::UpscaleFromGridSize { base } => AlphaTask::UpscaleFromGridSize(
            Box::new(alpha_view(base)),
        ),
    }
}

impl View for ToPixmapTaskSpec {
    type V = PixmapTask;

    open spec fn view(&self) -> PixmapTask {
        pixmap_view(self)
    }
}

impl View for ToAlphaChannelTaskSpec {
    type V = AlphaTask;

    open spec fn view(&self) -> AlphaTask {
        alpha_view(self)
    }
}

impl Clone for ToPixmapTaskSpec {
    fn clone(&self) -> (r: Self)
        ensures
            r@ == self@,
        decreases self,
    {
        match self {
            ToPixmapTaskSpec::Animate { background, frames } => {
                let mut copies: Vec<ToPixmapTaskSpec> = Vec::new();
                let mut i: usize = 0;
                while i < frames.len()
                    invariant
                        i <= frames.len(),
                        frames_view(copies@) == frames_view(frames@.subrange(0, i as int)),
                        copies@.len() == i,
                        *self is Animate,
                        (*self)->Animate_frames == *frames,
                    decreases frames.len() - i,
                {
                    proof {
                        broadcast use vstd::std_specs::vec::axiom_vec_decreases_to_view;
                        broadcast use vstd::std_specs::vec::axiom_vec_index_decreases;
                        assert(decreases_to!(frames => frames@[i as int]));
                        assert(*self is Animate);
                        assert((*self)->Animate_frames == *frames);
                        assert(decreases_to!(*self => (*self)->Animate_frames));
                        assert(decreases_to!(*frames => frames@));
                    }
                    let ghost before = copies@;
                    copies.push(frames[i].clone());
                    assert(frames@.subrange(0, i + 1).drop_last() =~= frames@.subrange(0, i as int));
                    assert(copies@.drop_last() =~= before);
                    i = i + 1;
                }
                assert(frames@.subrange(0, frames.len() as int) =~= frames@);
                ToPixmapTaskSpec::Animate { background: Box::new((**background).clone()), frames: copies }
            },
            ToPixmapTaskSpec::FromSvg { source } => ToPixmapTaskSpec::FromSvg { source: source.clone() },
            ToPixmapTaskSpec::PaintAlphaChannel { base, color } => ToPixmapTaskSpec::PaintAlphaChannel { base: Box::new((**base).clone()), color: *color },
            ToPixmapTaskSpec::StackLayerOnColor { background, foreground } => ToPixmapTaskSpec::StackLayerOnColor { background: *background, foreground: Box::new((**foreground).clone()) },
            ToPixmapTaskSpec::StackLayerOnLayer { background, foreground } => ToPixmapTaskSpec::StackLayerOnLayer { background: Box::new((**background).clone()), foreground: Box::new((**foreground).clone()) },
            ToPixmapTaskSpec::UpscaleFromGridSize { base } => ToPixmapTaskSpec::UpscaleFromGridSize { base: Box::new((**base).clone()) },
            ToPixmapTaskSpec::Empty => ToPixmapTaskSpec::Empty,
        }
    }
}

impl Clone for ToAlphaChannelTaskSpec {
    fn clone(&self) -> (r: Self)
        ensures
            r@ == self@,
        decreases self,
    {
        match self {
            ToAlphaChannelTaskSpec::MakeSemitransparent { base, alpha } => ToAlphaChannelTaskSpec::MakeSemitransparent { base: Box::new((**base).clone()), alpha: *alpha },
            ToAlphaChannelTaskSpec::FromPixmap { base } => ToAlphaChannelTaskSpec::FromPixmap { base: base.clone() },
            ToAlphaChannelTaskSpec::StackAlphaOnAlpha { background, foreground } => ToAlphaChannelTaskSpec::StackAlphaOnAlpha { background: Box::new((**background).clone()), foreground: Box::new((**foreground).clone()) },
            ToAlphaChannelTaskSpec::StackAlphaOnBackground { background, foreground } => ToAlphaChannelTaskSpec::StackAlphaOnBackground { background: *background, foreground: Box::new((**foreground).clone()) },
            ToAlphaChannelTaskSpec::UpscaleFromGridSize { base } => ToAlphaChannelTaskSpec::UpscaleFromGridSize { base: Box::new((**base).clone()) },
        }
    }
}


/// A task that writes a file.
#[derive(Debug, PartialEq, Eq, Hash)]
pub enum FileOutputTaskSpec {
    PngOutput { base: ToPixmapTaskSpec, destination_name: String },
    Copy { original: Box<FileOutputTaskSpec>, link_name: String },
}

/// The mathematical form of a [`FileOutputTaskSpec`].
pub enum OutputTask {
    PngOutput(PixmapTask, Seq<char>),
    Copy(Box<OutputTask>, Seq<char>),
}

/// The form of a file-output task.
pub open spec fn output_view(t: &FileOutputTaskSpec) -> OutputTask
    decreases t,
{
    match t {
        FileOutputTaskSpec::PngOutput { base, destination_name } => OutputTask::PngOutput(
            pixmap_view(base),
            destination_name@,
        ),
        FileOutputTaskSpec::Copy { original, link_name } => OutputTask::Copy(
            Box::new(output_view(original)),
            link_name@,
        ),
    }
}

impl View for FileOutputTaskSpec {
    type V = OutputTask;

    open spec fn view(&self) -> OutputTask {
        output_view(self)
    }
}

impl Clone for FileOutputTaskSpec {
    fn clone(&self) -> (r: Self)
        ensures
            r@ == self@,
        decreases self,
    {
        match self {
            FileOutputTaskSpec::PngOutput { base, destination_name } => FileOutputTaskSpec::PngOutput {
                base: base.clone(),
                destination_name: destination_name.clone(),
            },
            FileOutputTaskSpec::Copy { original, link_name } => FileOutputTaskSpec::Copy {
                original: Box::new((**original).clone()),
                link_name: link_name.clone(),
            },
        }
    }
}

/// A task of any of the three kinds.
#[derive(Debug, PartialEq, Eq, Hash)]
pub enum TaskSpec {
    ToPixmap(ToPixmapTaskSpec),
    ToAlphaChannel(ToAlphaChannelTaskSpec),
    FileOutput(FileOutputTaskSpec),
}

impl TaskSpec {
    pub fn from_pixmap_task(value: &ToPixmapTaskSpec) -> (r: TaskSpec)
        ensures
            r matches TaskSpec::ToPixmap(t) && t@ == value@,
    {
        TaskSpec::ToPixmap(value.clone())
    }

    pub fn from_alpha_task(value: &ToAlphaChannelTaskSpec) -> (r: TaskSpec)
        ensures
            r matches TaskSpec::ToAlphaChannel(t) && t@ == value@,
    {
        TaskSpec::ToAlphaChannel(value.clone())
    }

    pub fn from_output_task(value: &FileOutputTaskSpec) -> (r: TaskSpec)
        ensures
            r matches TaskSpec::FileOutput(t) && t@ == value@,
    {
        TaskSpec::FileOutput(value.clone())
    }
}

/// A task together with the tile size it is rendered at.
#[derive(Clone, Debug, PartialEq, Eq, Hash)]
pub struct TileSized<T> {
    pub inner: T,
    pub tile_size: u32,
}

impl<T> TileSized<T> {
    pub fn new(inner: T, tile_size: u32) -> (r: TileSized<T>)
        ensures
            r.inner == inner,
            r.tile_size == tile_size,
    {
        TileSized { inner, tile_size }
    }
}

/// The directory in the resource pack that holds every texture.
pub open spec fn asset_dir() -> Seq<char> {
    "assets/minecraft/textures/"@
}

/// The path of the PNG file that a file-output task writes.
pub open spec fn output_path(t: OutputTask) -> Seq<char> {
    match t {
        OutputTask::PngOutput(_, name) => asset_dir() + name + ".png"@,
        OutputTask::Copy(_, name) => asset_dir() + name + ".png"@,
    }
}

impl FileOutputTaskSpec {
    /// The path of the file that the task writes: the asset directory, the name and `.png`.
    pub fn get_path(&self) -> (r: String)
        ensures
            r@ == output_path(self@),
    {
        let name = match self {
            FileOutputTaskSpec::PngOutput { destination_name, .. } => destination_name,
            FileOutputTaskSpec::Copy { link_name, .. } => link_name,
        };
        let mut out_path = String::from_str("assets/minecraft/textures/");
        out_path.append(name.as_str());
        out_path.append(".png");
        out_path
    }
}

/// The task that renders the SVG image `name`.
pub fn from_svg_task(name: &str) -> (r: ToPixmapTaskSpec)
    ensures
        r@ == PixmapTask::FromSvg(name@),
{
    ToPixmapTaskSpec::FromSvg { source: String::from_str(name) }
}

/// The task that takes the alpha channel of the SVG image `name`.
pub fn svg_alpha_task(name: &str) -> (r: ToAlphaChannelTaskSpec)
    ensures
        r@ == AlphaTask::FromPixmap(PixmapTask::FromSvg(name@)),
{
    ToAlphaChannelTaskSpec::FromPixmap { base: from_svg_task(name) }
}

/// The task that writes the image of `base` to the PNG file `name`.
pub fn out_task(name: &str, base: ToPixmapTaskSpec) -> (r: FileOutputTaskSpec)
    ensures
        r@ == OutputTask::PngOutput(base@, name@),
{
    FileOutputTaskSpec::PngOutput { base, destination_name: String::from_str(name) }
}

/// Painting an alpha channel with a color, simplified: painting the alpha channel of a
/// black-only SVG image black is that image, and repainting an image that was painted an
/// opaque color paints its alpha channel directly.
pub open spec fn spec_paint_task(base: AlphaTask, color: ComparableColor) -> PixmapTask
    decreases base,
{
    match base {
        AlphaTask::FromPixmap(base_base) => match base_base {
            PixmapTask::FromSvg(source) => if color.same_as(gray_spec(0)) && !color_svgs().contains(source) {
                base_base
            } else {
                PixmapTask::PaintAlphaChannel(Box::new(base), color)
            },
            PixmapTask::PaintAlphaChannel(base_base_base, base_color) => if base_color.alpha == 255 {
                spec_paint_task(*base_base_base, color)
            } else {
                PixmapTask::PaintAlphaChannel(Box::new(base), color)
            },
            _ => PixmapTask::PaintAlphaChannel(Box::new(base), color),
        },
        _ => PixmapTask::PaintAlphaChannel(Box::new(base), color),
    }
}

/// The task that paints the alpha channel `base` with `color`, simplified as
/// [`spec_paint_task`] describes.
pub fn paint_task(base: ToAlphaChannelTaskSpec, color: ComparableColor) -> (r: ToPixmapTaskSpec)
    ensures
        r@ == spec_paint_task(base@, color),
    decreases base,
{
    let ghost base_view = base@;
    match base {
        ToAlphaChannelTaskSpec::FromPixmap { base: base_base } => {
            assert(base_view == AlphaTask::FromPixmap(base_base@));
            match base_base {
                ToPixmapTaskSpec::FromSvg { source } => {
                    if color.is_same(&gray(0)) && !is_color_svg(&source) {
                        ToPixmapTaskSpec::FromSvg { source }
                    } else {
                        let rebuilt = ToAlphaChannelTaskSpec::FromPixmap { base: ToPixmapTaskSpec::FromSvg { source } };
                        assert(rebuilt@ == base_view);
                        let r = ToPixmapTaskSpec::PaintAlphaChannel { base: Box::new(rebuilt), color };
                        assert(r@ == PixmapTask::PaintAlphaChannel(Box::new(base_view), color));
                        r
                    }
                },
                ToPixmapTaskSpec::PaintAlphaChannel { base: base_base_base, color: base_color } => {
                    if base_color.alpha == 255 {
                        paint_task(*base_base_base, color)
                    } else {
                        let inner = ToPixmapTaskSpec::PaintAlphaChannel { base: base_base_base, color: base_color };
                        let rebuilt = ToAlphaChannelTaskSpec::FromPixmap { base: inner };
                        assert(rebuilt@ == base_view);
                        let r = ToPixmapTaskSpec::PaintAlphaChannel { base: Box::new(rebuilt), color };
                        assert(r@ == PixmapTask::PaintAlphaChannel(Box::new(base_view), color));
                        r
                    }
                },
                other => {
                    let rebuilt = ToAlphaChannelTaskSpec::FromPixmap { base: other };
                    assert(rebuilt@ == base_view);
                    let r = ToPixmapTaskSpec::PaintAlphaChannel { base: Box::new(rebuilt), color };
                    assert(r@ == PixmapTask::PaintAlphaChannel(Box::new(base_view), color));
                    r
                },
            }
        },
        other => {
            let r = ToPixmapTaskSpec::PaintAlphaChannel { base: Box::new(other), color };
            assert(r@ == PixmapTask::PaintAlphaChannel(Box::new(base_view), color));
            r
        },
    }
}

/// An image repainted one color: an image that paints an alpha channel paints the same
/// channel with the new color; any other image has its own alpha channel painted.
pub open spec fn spec_repainted(p: PixmapTask, color: ComparableColor) -> PixmapTask {
    match p {
        PixmapTask::PaintAlphaChannel(base, _) => PixmapTask::PaintAlphaChannel(base, color),
        _ => PixmapTask::PaintAlphaChannel(Box::new(AlphaTask::FromPixmap(p)), color),
    }
}

impl ToPixmapTaskSpec {
    /// This image repainted with `color` (see [`spec_repainted`]).
    pub fn repainted(self, color: ComparableColor) -> (r: ToPixmapTaskSpec)
        ensures
            r@ == spec_repainted(self@, color),
    {
        let ghost view = self@;
        match self {
            ToPixmapTaskSpec::PaintAlphaChannel { base, .. } => ToPixmapTaskSpec::PaintAlphaChannel { base, color },
            other => {
                let channel = ToAlphaChannelTaskSpec::FromPixmap { base: other };
                assert(channel@ == AlphaTask::FromPixmap(view));
                ToPixmapTaskSpec::PaintAlphaChannel { base: Box::new(channel), color }
            },
        }
    }
}

impl ToAlphaChannelTaskSpec {
    /// This alpha channel painted with `color` (see [`spec_paint_task`]).
    pub fn painted(self, color: ComparableColor) -> (r: ToPixmapTaskSpec)
        ensures
            r@ == spec_paint_task(self@, color),
    {
        paint_task(self, color)
    }
}

/// Painting the SVG image `name` with `color`: a black-only image painted black is the image
/// itself, anything else paints the image's alpha channel.
pub open spec fn spec_paint_svg_task(name: Seq<char>, color: ComparableColor) -> PixmapTask {
    if color.same_as(gray_spec(0)) && !color_svgs().contains(name) {
        PixmapTask::FromSvg(name)
    } else {
        PixmapTask::PaintAlphaChannel(Box::new(AlphaTask::FromPixmap(PixmapTask::FromSvg(name))), color)
    }
}

/// The task that paints the SVG image `name` with `color` (see [`spec_paint_svg_task`]).
pub fn paint_svg_task(name: &str, color: ComparableColor) -> (r: ToPixmapTaskSpec)
    ensures
        r@ == spec_paint_svg_task(name@, color),
{
    let source = String::from_str(name);
    if color.is_same(&gray(0)) && !is_color_svg(&source) {
        ToPixmapTaskSpec::FromSvg { source }
    } else {
        let svg = ToPixmapTaskSpec::FromSvg { source };
        assert(svg@ == PixmapTask::FromSvg(name@));
        let alpha = ToAlphaChannelTaskSpec::FromPixmap { base: svg };
        assert(alpha@ == AlphaTask::FromPixmap(PixmapTask::FromSvg(name@)));
        let r = ToPixmapTaskSpec::PaintAlphaChannel { base: Box::new(alpha), color };
        assert(r@ == PixmapTask::PaintAlphaChannel(Box::new(alpha@), color));
        r
    }
}

/// No task in the tree is the empty placeholder task.
pub open spec fn pixmap_has_no_empty(p: PixmapTask) -> bool
    decreases p,
{
    match p {
        PixmapTask::Animate(background, frames) => pixmap_has_no_empty(*background) && frames_have_no_empty(frames),
        PixmapTask::FromSvg(_) => true,
        PixmapTask::PaintAlphaChannel(base, _) => alpha_has_no_empty(*base),
        PixmapTask::StackLayerOnColor(_, foreground) => pixmap_has_no_empty(*foreground),
        PixmapTask::StackLayerOnLayer(background, foreground) => pixmap_has_no_empty(*background) && pixmap_has_no_empty(*foreground),
        PixmapTask::UpscaleFromGridSize(base) => pixmap_has_no_empty(*base),
        PixmapTask::Empty => false,
    }
}

pub open spec fn frames_have_no_empty(frames: Seq<PixmapTask>) -> bool
    decreases frames,
{
    if frames.len() == 0 {
        true
    } else {
        frames_have_no_empty(frames.drop_last()) && pixmap_has_no_empty(frames.last())
    }
}

pub open spec fn alpha_has_no_empty(a: AlphaTask) -> bool
    decreases a,
{
    match a {
        AlphaTask::MakeSemitransparent(base, _) => alpha_has_no_empty(*base),
        AlphaTask::FromPixmap(base) => pixmap_has_no_empty(base),
        AlphaTask::StackAlphaOnAlpha(background, foreground) => alpha_has_no_empty(*background) && alpha_has_no_empty(*foreground),
        AlphaTask::StackAlphaOnBackground(_, foreground) => alpha_has_no_empty(*foreground),
        AlphaTask::UpscaleFromGridSize(base) => alpha_has_no_empty(*base),
    }
}

/// Whether an image can be rendered at the grid size and upscaled without loss: it has no
/// gradients, diagonals or curves.
pub open spec fn pixmap_grid_perfect(p: PixmapTask) -> bool
    decreases p,
{
    match p {
        PixmapTask::Animate(background, frames) => pixmap_grid_perfect(*background) && frames_grid_perfect(frames),
        PixmapTask::FromSvg(source) => semitransparency_free_svgs().contains(source) && !color_svgs().contains(source),
        PixmapTask::PaintAlphaChannel(base, _) => alpha_grid_perfect(*base),
        PixmapTask::StackLayerOnColor(_, foreground) => pixmap_grid_perfect(*foreground),
        PixmapTask::StackLayerOnLayer(background, foreground) => pixmap_grid_perfect(*background) && pixmap_grid_perfect(*foreground),
        PixmapTask::UpscaleFromGridSize(_) => true,
        PixmapTask::Empty => false,
    }
}

pub open spec fn frames_grid_perfect(frames: Seq<PixmapTask>) -> bool
    decreases frames,
{
    if frames.len() == 0 {
        true
    } else {
        frames_grid_perfect(frames.drop_last()) && pixmap_grid_perfect(frames.last())
    }
}

pub open spec fn alpha_grid_perfect(a: AlphaTask) -> bool
    decreases a,
{
    match a {
        AlphaTask::MakeSemitransparent(base, _) => alpha_grid_perfect(*base),
        AlphaTask::FromPixmap(base) => pixmap_grid_perfect(base),
        AlphaTask::StackAlphaOnAlpha(background, foreground) => alpha_grid_perfect(*background) && alpha_grid_perfect(*foreground),
        AlphaTask::StackAlphaOnBackground(_, foreground) => alpha_grid_perfect(*foreground),
        AlphaTask::UpscaleFromGridSize(_) => true,
    }
}

/// Frames that are grid perfect together are each grid perfect.
proof fn lemma_frames_grid_perfect_each(frames: Seq<PixmapTask>, i: int)
    requires
        frames_grid_perfect(frames),
        0 <= i < frames.len(),
    ensures
        pixmap_grid_perfect(frames[i]),
    decreases frames.len(),
{
    if i < frames.len() - 1 {
        lemma_frames_grid_perfect_each(frames.drop_last(), i);
    }
}

/// An image made of parts drawn at its own size can be rendered at the grid size and upscaled
/// without loss only if each of those parts can: both layers of a stack, the background and
/// every frame of an animation, the foreground laid on a color, and the alpha channel that is
/// painted; likewise both alpha channels of a stack of them.
pub proof fn lemma_grid_perfect_needs_parts(
    background: PixmapTask,
    foreground: PixmapTask,
    frames: Seq<PixmapTask>,
    color: ComparableColor,
    alpha: AlphaTask,
    other_alpha: AlphaTask,
)
    ensures
        pixmap_grid_perfect(PixmapTask::StackLayerOnLayer(Box::new(background), Box::new(foreground)))
            ==> pixmap_grid_perfect(background) && pixmap_grid_perfect(foreground),
        pixmap_grid_perfect(PixmapTask::Animate(Box::new(background), frames)) ==> pixmap_grid_perfect(background)
            && forall|i: int| 0 <= i < frames.len() ==> pixmap_grid_perfect(#[trigger] frames[i]),
        pixmap_grid_perfect(PixmapTask::StackLayerOnColor(color, Box::new(foreground))) ==> pixmap_grid_perfect(foreground),
        pixmap_grid_perfect(PixmapTask::PaintAlphaChannel(Box::new(alpha), color)) ==> alpha_grid_perfect(alpha),
        alpha_grid_perfect(AlphaTask::StackAlphaOnAlpha(Box::new(alpha), Box::new(other_alpha)))
            ==> alpha_grid_perfect(alpha) && alpha_grid_perfect(other_alpha),
        alpha_grid_perfect(AlphaTask::FromPixmap(foreground)) ==> pixmap_grid_perfect(foreground),
{
    if pixmap_grid_perfect(PixmapTask::Animate(Box::new(background), frames)) {
        assert forall|i: int| 0 <= i < frames.len() implies pixmap_grid_perfect(#[trigger] frames[i]) by {
            lemma_frames_grid_perfect_each(frames, i);
        }
    }
}

/// An image drawn from an SVG can be rendered at the grid size and upscaled without loss only
/// if the SVG has no partly transparent pixels and is not one whose own colors are kept; an
/// image that is already upscaled from the grid size always can, and the empty placeholder
/// never can.
pub proof fn lemma_grid_perfect_sources(source: Seq<char>, base: PixmapTask, alpha: AlphaTask)
    ensures
        pixmap_grid_perfect(PixmapTask::FromSvg(source)) ==> semitransparency_free_svgs().contains(source)
            && !color_svgs().contains(source),
        pixmap_grid_perfect(PixmapTask::UpscaleFromGridSize(Box::new(base))),
        alpha_grid_perfect(AlphaTask::UpscaleFromGridSize(Box::new(alpha))),
        !pixmap_grid_perfect(PixmapTask::Empty),
{
}

proof fn lemma_frames_view_index(frames: Seq<ToPixmapTaskSpec>, i: int)
    requires
        0 <= i < frames.len(),
    ensures
        frames_view(frames).len() == frames.len(),
        frames_view(frames)[i] == frames[i]@,
    decreases frames.len(),
{
    lemma_frames_view_drop_last(frames);
    if i < frames.len() - 1 {
        lemma_frames_view_index(frames.drop_last(), i);
    }
}

/// The forms of a list of image tasks are the forms of its tasks, one by one.
pub proof fn lemma_frames_view_facts(frames: Seq<ToPixmapTaskSpec>)
    ensures
        frames_view(frames).len() == frames.len(),
        forall|i: int| 0 <= i < frames.len() ==> #[trigger] frames_view(frames)[i] == frames[i]@,
{
    lemma_frames_view_len(frames);
    assert forall|i: int| 0 <= i < frames.len() implies #[trigger] frames_view(frames)[i] == frames[i]@ by {
        lemma_frames_view_index(frames, i);
    }
}

pub proof fn lemma_frames_view_drop_last(frames: Seq<ToPixmapTaskSpec>)
    requires
        frames.len() > 0,
    ensures
        frames_view(frames).drop_last() == frames_view(frames.drop_last()),
        frames_view(frames).last() == frames.last()@,
        frames_view(frames).len() == frames.len(),
{
    lemma_frames_view_len(frames);
    assert(frames_view(frames) == frames_view(frames.drop_last()).push(pixmap_view(&frames.last())));
    assert(frames_view(frames).drop_last() =~= frames_view(frames.drop_last()));
}

proof fn lemma_frames_view_len(frames: Seq<ToPixmapTaskSpec>)
    ensures
        frames_view(frames).len() == frames.len(),
    decreases frames.len(),
{
    if frames.len() > 0 {
        assert(frames_view(frames) == frames_view(frames.drop_last()).push(pixmap_view(&frames.last())));
        lemma_frames_view_len(frames.drop_last());
    }
}

impl ToPixmapTaskSpec {
    /// Whether no task in the tree is the empty placeholder.
    pub fn has_no_empty(&self) -> (r: bool)
        ensures
            r == pixmap_has_no_empty(self@),
        decreases self,
    {
        match self {
            ToPixmapTaskSpec::Animate { background, frames } => {
                if !background.has_no_empty() {
                    return false;
                }
                let mut i: usize = 0;
                proof {
                    lemma_frames_view_len(frames@);
                }
                while i < frames.len()
                    invariant
                        i <= frames.len(),
                        *self is Animate,
                        (*self)->Animate_frames == *frames,
                        frames_view(frames@).len() == frames@.len(),
                        frames_have_no_empty(frames_view(frames@.take(i as int))),
                    decreases frames.len() - i,
                {
                    proof {
                        broadcast use vstd::std_specs::vec::axiom_vec_decreases_to_view;
                        broadcast use vstd::std_specs::vec::axiom_vec_index_decreases;
                        assert(decreases_to!(*self => (*self)->Animate_frames));
                        assert(decreases_to!(frames => frames@[i as int]));
                        assert(frames@.take(i + 1).drop_last() =~= frames@.take(i as int));
                        lemma_frames_view_drop_last(frames@.take(i + 1));
                    }
                    if !frames[i].has_no_empty() {
                        proof {
                            if frames_have_no_empty(frames_view(frames@)) {
                                lemma_frames_no_empty_index(frames@, i as int);
                            }
                        }
                        return false;
                    }
                    i = i + 1;
                }
                assert(frames@.take(frames.len() as int) =~= frames@);
                true
            },
            ToPixmapTaskSpec::FromSvg { .. } => true,
            ToPixmapTaskSpec::PaintAlphaChannel { base, .. } => base.has_no_empty(),
            ToPixmapTaskSpec::StackLayerOnColor { foreground, .. } => foreground.has_no_empty(),
            ToPixmapTaskSpec::StackLayerOnLayer { background, foreground } => background.has_no_empty() && foreground.has_no_empty(),
            ToPixmapTaskSpec::UpscaleFromGridSize { base } => base.has_no_empty(),
            ToPixmapTaskSpec::Empty => false,
        }
    }

    /// Whether the image can be rendered at the grid size and upscaled without loss.
    pub fn is_grid_perfect(&self) -> (r: bool)
        requires
            pixmap_has_no_empty(self@),
        ensures
            r == pixmap_grid_perfect(self@),
        decreases self,
    {
        match self {
            ToPixmapTaskSpec::Animate { background, frames } => {
                if !background.is_grid_perfect() {
                    return false;
                }
                let mut i: usize = 0;
                proof {
                    lemma_frames_view_len(frames@);
                }
                while i < frames.len()
                    invariant
                        i <= frames.len(),
                        *self is Animate,
                        (*self)->Animate_frames == *frames,
                        frames_have_no_empty(frames_view(frames@)),
                        frames_view(frames@).len() == frames@.len(),
                        frames_grid_perfect(frames_view(frames@.take(i as int))),
                    decreases frames.len() - i,
                {
                    proof {
                        broadcast use vstd::std_specs::vec::axiom_vec_decreases_to_view;
                        broadcast use vstd::std_specs::vec::axiom_vec_index_decreases;
                        assert(decreases_to!(*self => (*self)->Animate_frames));
                        assert(decreases_to!(frames => frames@[i as int]));
                        lemma_frames_no_empty_index(frames@, i as int);
                        assert(frames@.take(i + 1).drop_last() =~= frames@.take(i as int));
                        lemma_frames_view_drop_last(frames@.take(i + 1));
                    }
                    if !frames[i].is_grid_perfect() {
                        proof {
                            lemma_frames_grid_perfect_index(frames@, i as int);
                        }
                        return false;
                    }
                    i = i + 1;
                }
                assert(frames@.take(frames.len() as int) =~= frames@);
                true
            },
            ToPixmapTaskSpec::FromSvg { source } => is_semitransparency_free_svg(source) && !is_color_svg(source),
            ToPixmapTaskSpec::PaintAlphaChannel { base, .. } => base.is_grid_perfect(),
            ToPixmapTaskSpec::StackLayerOnColor { foreground, .. } => foreground.is_grid_perfect(),
            ToPixmapTaskSpec::StackLayerOnLayer { background, foreground } => background.is_grid_perfect() && foreground.is_grid_perfect(),
            ToPixmapTaskSpec::UpscaleFromGridSize { .. } => true,
            ToPixmapTaskSpec::Empty => false,
        }
    }
}

proof fn lemma_frames_no_empty_index(frames: Seq<ToPixmapTaskSpec>, i: int)
    requires
        0 <= i < frames.len(),
        frames_have_no_empty(frames_view(frames)),
    ensures
        pixmap_has_no_empty(frames[i]@),
    decreases frames.len(),
{
    lemma_frames_view_drop_last(frames);
    if i < frames.len() - 1 {
        lemma_frames_no_empty_index(frames.drop_last(), i);
    }
}

proof fn lemma_frames_grid_perfect_index(frames: Seq<ToPixmapTaskSpec>, i: int)
    requires
        0 <= i < frames.len(),
        !pixmap_grid_perfect(frames[i]@),
    ensures
        !frames_grid_perfect(frames_view(frames)),
    decreases frames.len(),
{
    lemma_frames_view_drop_last(frames);
    if i < frames.len() - 1 {
        lemma_frames_grid_perfect_index(frames.drop_last(), i);
    }
}

impl ToAlphaChannelTaskSpec {
    /// Whether no task in the tree is the empty placeholder.
    pub fn has_no_empty(&self) -> (r: bool)
        ensures
            r == alpha_has_no_empty(self@),
        decreases self,
    {
        match self {
            ToAlphaChannelTaskSpec::MakeSemitransparent { base, .. } => base.has_no_empty(),
            ToAlphaChannelTaskSpec::FromPixmap { base } => base.has_no_empty(),
            ToAlphaChannelTaskSpec::StackAlphaOnAlpha { background, foreground } => background.has_no_empty() && foreground.has_no_empty(),
            ToAlphaChannelTaskSpec::StackAlphaOnBackground { foreground, .. } => foreground.has_no_empty(),
            ToAlphaChannelTaskSpec::UpscaleFromGridSize { base } => base.has_no_empty(),
        }
    }

    /// Whether the alpha channel can be rendered at the grid size and upscaled without loss.
    pub fn is_grid_perfect(&self) -> (r: bool)
        requires
            alpha_has_no_empty(self@),
        ensures
            r == alpha_grid_perfect(self@),
        decreases self,
    {
        match self {
            ToAlphaChannelTaskSpec::MakeSemitransparent { base, .. } => base.is_grid_perfect(),
            ToAlphaChannelTaskSpec::FromPixmap { base } => base.is_grid_perfect(),
            ToAlphaChannelTaskSpec::StackAlphaOnAlpha { background, foreground } => background.is_grid_perfect() && foreground.is_grid_perfect(),
            ToAlphaChannelTaskSpec::StackAlphaOnBackground { foreground, .. } => foreground.is_grid_perfect(),
            ToAlphaChannelTaskSpec::UpscaleFromGridSize { .. } => true,
        }
    }
}

/// The description of the colors that the SVG image `name` holds: any colors (with binary
/// transparency or an alpha channel) for color images, else black with binary transparency
/// or black at any opacity.
pub open spec fn svg_description_kind(name: Seq<char>) -> int {
    if color_svgs().contains(name) {
        if semitransparency_free_svgs().contains(name) { 0 } else { 1 }
    } else if semitransparency_free_svgs().contains(name) {
        2
    } else {
        3
    }
}

/// The colors that the SVG image `name` may hold.
pub fn svg_color_description(name: &String) -> (r: ColorDescription)
    ensures
        r@.wf(),
        svg_description_kind(name@) == 0 ==> r@ == crate::color_description::DescriptionModel::Rgb(Transparency::Binary),
        svg_description_kind(name@) == 1 ==> r@ == crate::color_description::DescriptionModel::Rgb(Transparency::AlphaChannel),
        svg_description_kind(name@) == 2 ==> r@ == crate::color_description::DescriptionModel::SpecifiedColors(
            seq![ComparableColor { alpha: 0, red: 0, green: 0, blue: 0 }, gray_spec(0)],
        ),
        svg_description_kind(name@) == 3 ==> r@ == crate::color_description::DescriptionModel::SpecifiedColors(
            Seq::new(256, |i: int| ComparableColor { alpha: i as u8, red: 0, green: 0, blue: 0 }),
        ),
{
    let color = is_color_svg(name);
    let free = is_semitransparency_free_svg(name);
    if color {
        if free {
            ColorDescription::Rgb(Transparency::Binary)
        } else {
            ColorDescription::Rgb(Transparency::AlphaChannel)
        }
    } else if free {
        let mut colors: Vec<ComparableColor> = Vec::new();
        colors.push(ComparableColor { alpha: 0, red: 0, green: 0, blue: 0 });
        colors.push(gray(0));
        assert(colors@ =~= seq![ComparableColor { alpha: 0, red: 0, green: 0, blue: 0 }, gray_spec(0)]);
        ColorDescription::SpecifiedColors(colors)
    } else {
        let colors = create_black_to_transparent();
        assert(colors@ =~= Seq::new(256, |i: int| ComparableColor { alpha: i as u8, red: 0, green: 0, blue: 0 }));
        ColorDescription::SpecifiedColors(colors)
    }
}


/// An image that is one color painted through an alpha channel, as that alpha channel and
/// color: a black-only SVG image is its alpha channel painted black; two layers of the same
/// color are their stacked alpha channels painted that color; an upscaled image is its
/// upscaled alpha channel. Other images have no such form.
pub open spec fn spec_alpha_and_color(p: PixmapTask) -> Option<(AlphaTask, ComparableColor)>
    decreases p,
{
    match p {
        PixmapTask::FromSvg(source) => if color_svgs().contains(source) {
            None
        } else {
            Some((AlphaTask::FromPixmap(p), gray_spec(0)))
        },
        PixmapTask::PaintAlphaChannel(base, color) => Some((*base, color)),
        PixmapTask::StackLayerOnLayer(background, foreground) => match spec_alpha_and_color(*background) {
            Some((bg_alpha, bg_color)) => match spec_alpha_and_color(*foreground) {
                Some((fg_alpha, fg_color)) => if bg_color.same_as(fg_color) {
                    Some((AlphaTask::StackAlphaOnAlpha(Box::new(bg_alpha), Box::new(fg_alpha)), bg_color))
                } else {
                    None
                },
                None => None,
            },
            None => None,
        },
        PixmapTask::UpscaleFromGridSize(base) => match spec_alpha_and_color(*base) {
            Some((base_alpha, base_color)) => Some((AlphaTask::UpscaleFromGridSize(Box::new(base_alpha)), base_color)),
            None => None,
        },
        _ => None,
    }
}

/// Finding the alpha channel and color of `p` never reaches the empty placeholder task.
pub open spec fn alpha_and_color_defined(p: PixmapTask) -> bool
    decreases p,
{
    match p {
        PixmapTask::StackLayerOnLayer(background, foreground) => alpha_and_color_defined(*background) && (
        spec_alpha_and_color(*background) is Some ==> alpha_and_color_defined(*foreground)),
        PixmapTask::UpscaleFromGridSize(base) => alpha_and_color_defined(*base),
        PixmapTask::Empty => false,
        _ => true,
    }
}

/// The form of a found alpha channel and color.
pub open spec fn alpha_color_view(r: Option<(ToAlphaChannelTaskSpec, ComparableColor)>) -> Option<(AlphaTask, ComparableColor)> {
    match r {
        Some((alpha, color)) => Some((alpha@, color)),
        None => None,
    }
}

/// Trees free of the empty placeholder never reach it.
pub proof fn lemma_no_empty_defined(p: PixmapTask)
    requires
        pixmap_has_no_empty(p),
    ensures
        alpha_and_color_defined(p),
    decreases p,
{
    match p {
        PixmapTask::StackLayerOnLayer(background, foreground) => {
            lemma_no_empty_defined(*background);
            lemma_no_empty_defined(*foreground);
        },
        PixmapTask::UpscaleFromGridSize(base) => {
            lemma_no_empty_defined(*base);
        },
        _ => {},
    }
}

impl ToPixmapTaskSpec {
    /// The image as an alpha channel painted one color, when it has that form (see
    /// [`spec_alpha_and_color`]).
    pub fn alpha_and_color(&self) -> (r: Option<(ToAlphaChannelTaskSpec, ComparableColor)>)
        requires
            alpha_and_color_defined(self@),
        ensures
            alpha_color_view(r) == spec_alpha_and_color(self@),
        decreases self,
    {
        match self {
            ToPixmapTaskSpec::Animate { .. } => None,
            ToPixmapTaskSpec::FromSvg { source } => {
                if is_color_svg(source) {
                    None
                } else {
                    Some((ToAlphaChannelTaskSpec::FromPixmap { base: self.clone() }, gray(0)))
                }
            },
            ToPixmapTaskSpec::PaintAlphaChannel { base, color } => Some(((**base).clone(), *color)),
            ToPixmapTaskSpec::StackLayerOnColor { .. } => None,
            ToPixmapTaskSpec::StackLayerOnLayer { background, foreground } => {
                match background.alpha_and_color() {
                    Some((bg_alpha, bg_color)) => match foreground.alpha_and_color() {
                        Some((fg_alpha, fg_color)) => {
                            if bg_color.is_same(&fg_color) {
                                Some((
                                    ToAlphaChannelTaskSpec::StackAlphaOnAlpha {
                                        background: Box::new(bg_alpha),
                                        foreground: Box::new(fg_alpha),
                                    },
                                    bg_color,
                                ))
                            } else {
                                None
                            }
                        },
                        None => None,
                    },
                    None => None,
                }
            },
            ToPixmapTaskSpec::UpscaleFromGridSize { base } => match base.alpha_and_color() {
                Some((base_alpha, base_color)) => Some((
                    ToAlphaChannelTaskSpec::UpscaleFromGridSize { base: Box::new(base_alpha) },
                    base_color,
                )),
                None => None,
            },
            ToPixmapTaskSpec::Empty => None,
        }
    }
}

} // verus!
