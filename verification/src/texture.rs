use crate::color::ComparableColor;
use crate::stack::{list_has_no_empty, lemma_paint_task_measures, lemma_stack_alpha_measures, spec_stack, stack};
use crate::stack_alpha::{alpha_views, spec_stack_alpha, stack_alpha};
use crate::task_display::{decimal_text, push_decimal_u32, push_literal};
use crate::task_spec::{
    pixmap_has_no_empty, spec_paint_svg_task, spec_paint_task, paint_svg_task, paint_task, svg_alpha_task, AlphaTask,
    PixmapTask, ToAlphaChannelTaskSpec, ToPixmapTaskSpec,
};
use vstd::prelude::*;

verus! {

/// The three colors of a material: its main color, a darker one and a lighter one.
#[derive(Copy, Clone, Debug)]
pub struct ColorTriad {
    pub color: ComparableColor,
    pub shadow: ComparableColor,
    pub highlight: ComparableColor,
}

/// The forms of a list of image tasks.
pub open spec fn task_views(s: Seq<ToPixmapTaskSpec>) -> Seq<PixmapTask> {
    s.map_values(|t: ToPixmapTaskSpec| t@)
}

/// Layers stacked in order, the first at the bottom, each stacked on the ones below it.
pub open spec fn stack_fold(s: Seq<PixmapTask>) -> PixmapTask
    decreases s.len(),
{
    if s.len() <= 1 {
        s[0]
    } else {
        spec_stack(stack_fold(s.drop_last()), s.last())
    }
}

/// Stacks the layers in order, the first at the bottom (see [`stack_fold`]).
pub fn stack_layers(layers: &Vec<ToPixmapTaskSpec>) -> (r: ToPixmapTaskSpec)
    requires
        layers@.len() > 0,
        forall|i: int| 0 <= i < layers@.len() ==> pixmap_has_no_empty(#[trigger] layers@[i]@),
    ensures
        r@ == stack_fold(task_views(layers@)),
        pixmap_has_no_empty(r@),
{
    let ghost views = task_views(layers@);
    let mut acc = layers[0].clone();
    proof {
        assert(views.take(1).len() == 1);
        assert(views.take(1)[0] == layers@[0]@);
    }
    let mut i: usize = 1;
    while i < layers.len()
        invariant
            1 <= i <= layers@.len(),
            views == task_views(layers@),
            forall|k: int| 0 <= k < layers@.len() ==> pixmap_has_no_empty(#[trigger] layers@[k]@),
            acc@ == stack_fold(views.take(i as int)),
            pixmap_has_no_empty(acc@),
        decreases layers@.len() - i,
    {
        let next = layers[i].clone();
        proof {
            let t = views.take(i + 1);
            assert(t.drop_last() =~= views.take(i as int));
            assert(t.last() == layers@[i as int]@);
        }
        acc = stack(acc, next);
        i = i + 1;
    }
    assert(views.take(layers@.len() as int) =~= views);
    acc
}

/// An image laid over a solid color; over a fully transparent color it is the image itself.
pub open spec fn spec_stack_on_color(background: ComparableColor, foreground: PixmapTask) -> PixmapTask {
    if background.alpha == 0 {
        foreground
    } else {
        PixmapTask::StackLayerOnColor(background, Box::new(foreground))
    }
}

/// The image `foreground` laid over the solid color `background` (see [`spec_stack_on_color`]).
pub fn stack_on_color(background: ComparableColor, foreground: ToPixmapTaskSpec) -> (r: ToPixmapTaskSpec)
    ensures
        r@ == spec_stack_on_color(background, foreground@),
        pixmap_has_no_empty(foreground@) ==> pixmap_has_no_empty(r@),
{
    if background.alpha == 0 {
        foreground
    } else {
        ToPixmapTaskSpec::StackLayerOnColor { background, foreground: Box::new(foreground) }
    }
}

/// The alpha channels of SVG images, in order.
pub open spec fn svg_alphas(names: Seq<Seq<char>>) -> Seq<AlphaTask> {
    names.map_values(|n: Seq<char>| AlphaTask::FromPixmap(PixmapTask::FromSvg(n)))
}

/// The alpha channels of the SVG images stacked and painted one color.
pub open spec fn spec_paint_stack(color: ComparableColor, names: Seq<Seq<char>>) -> PixmapTask {
    spec_paint_task(spec_stack_alpha(svg_alphas(names)), color)
}

/// The views of a list of names.
pub open spec fn name_views(names: Seq<&str>) -> Seq<Seq<char>> {
    names.map_values(|n: &str| n@)
}

/// Paints the stacked alpha channels of the SVG images `names` with `color`.
pub fn paint_stack(color: ComparableColor, names: &[&str]) -> (r: ToPixmapTaskSpec)
    requires
        names@.len() > 0,
    ensures
        r@ == spec_paint_stack(color, name_views(names@)),
        pixmap_has_no_empty(r@),
{
    let mut layers: Vec<ToAlphaChannelTaskSpec> = Vec::new();
    let mut i: usize = 0;
    while i < names.len()
        invariant
            i <= names@.len(),
            alpha_views(layers@) == svg_alphas(name_views(names@.take(i as int))),
        decreases names@.len() - i,
    {
        let layer = svg_alpha_task(names[i]);
        let ghost before = layers@;
        let ghost layer_view = layer@;
        layers.push(layer);
        proof {
            assert(names@.take(i + 1) =~= names@.take(i as int).push(names@[i as int]));
            assert(layers@ == before.push(layer));
            assert(alpha_views(layers@) =~= alpha_views(before).push(layer_view));
            assert(name_views(names@.take(i + 1)) =~= name_views(names@.take(i as int)).push(names@[i as int]@));
            assert(svg_alphas(name_views(names@.take(i + 1))) =~= svg_alphas(name_views(names@.take(i as int))).push(
                AlphaTask::FromPixmap(PixmapTask::FromSvg(names@[i as int]@)),
            ));
        }
        i = i + 1;
    }
    assert(names@.take(names@.len() as int) =~= names@);
    let ghost s = alpha_views(layers@);
    let stacked = stack_alpha(layers);
    proof {
        assert forall|k: int| 0 <= k < s.len() implies crate::task_spec::alpha_has_no_empty(#[trigger] s[k]) by {
            assert(s[k] == AlphaTask::FromPixmap(PixmapTask::FromSvg(names@[k]@)));
            assert(pixmap_has_no_empty(PixmapTask::FromSvg(names@[k]@)));
        }
        assert(list_has_no_empty(s));
        lemma_stack_alpha_measures(s);
        lemma_paint_task_measures(stacked@, color);
    }
    paint_task(stacked, color)
}

/// Paints the stacked alpha channels of the SVG images `first` and `second` with `color`.
pub fn paint_pair(color: ComparableColor, first: &str, second: &str) -> (r: ToPixmapTaskSpec)
    ensures
        r@ == spec_paint_stack(color, seq![first@, second@]),
        pixmap_has_no_empty(r@),
{
    let names = [first, second];
    assert(name_views(names@) =~= seq![first@, second@]);
    paint_stack(color, &names)
}

/// Three layers stacked in order, the first at the bottom.
pub open spec fn stack3(a: PixmapTask, b: PixmapTask, c: PixmapTask) -> PixmapTask {
    spec_stack(spec_stack(a, b), c)
}

/// Four layers stacked in order, the first at the bottom.
pub open spec fn stack4(a: PixmapTask, b: PixmapTask, c: PixmapTask, d: PixmapTask) -> PixmapTask {
    spec_stack(stack3(a, b, c), d)
}

/// Stacks three layers in order, the first at the bottom.
pub fn stack_three(a: ToPixmapTaskSpec, b: ToPixmapTaskSpec, c: ToPixmapTaskSpec) -> (r: ToPixmapTaskSpec)
    requires
        pixmap_has_no_empty(a@),
        pixmap_has_no_empty(b@),
        pixmap_has_no_empty(c@),
    ensures
        r@ == stack3(a@, b@, c@),
        pixmap_has_no_empty(r@),
{
    stack(stack(a, b), c)
}

/// Stacks four layers in order, the first at the bottom.
pub fn stack_four(a: ToPixmapTaskSpec, b: ToPixmapTaskSpec, c: ToPixmapTaskSpec, d: ToPixmapTaskSpec) -> (r: ToPixmapTaskSpec)
    requires
        pixmap_has_no_empty(a@),
        pixmap_has_no_empty(b@),
        pixmap_has_no_empty(c@),
        pixmap_has_no_empty(d@),
    ensures
        r@ == stack4(a@, b@, c@, d@),
        pixmap_has_no_empty(r@),
{
    stack(stack_three(a, b, c), d)
}

/// The texture name `prefix`, the number `n` in decimal and `suffix`.
pub fn numbered_name(prefix: &str, n: u32, suffix: &str) -> (r: String)
    ensures
        r@ == prefix@ + decimal_text(n as nat) + suffix@,
{
    let mut out = String::from_str(prefix);
    push_decimal_u32(&mut out, n);
    push_literal(&mut out, suffix);
    out
}

/// A number below 100 in decimal with at least two digits.
pub open spec fn two_digit_text(n: nat) -> Seq<char> {
    if n < 10 {
        seq!['0'] + decimal_text(n)
    } else {
        decimal_text(n)
    }
}

/// The texture name `prefix`, the number `n` in at least two decimal digits and `suffix`.
pub fn two_digit_name(prefix: &str, n: u32, suffix: &str) -> (r: String)
    ensures
        r@ == prefix@ + two_digit_text(n as nat) + suffix@,
{
    let mut out = String::from_str(prefix);
    if n < 10 {
        proof {
            reveal_strlit("0");
        }
        push_literal(&mut out, "0");
    }
    push_decimal_u32(&mut out, n);
    push_literal(&mut out, suffix);
    assert(out@ =~= prefix@ + two_digit_text(n as nat) + suffix@);
    out
}

/// The SVG image `name` painted `color`, free of the empty placeholder.
pub fn painted_svg(name: &str, color: ComparableColor) -> (r: ToPixmapTaskSpec)
    ensures
        r@ == spec_paint_svg_task(name@, color),
        pixmap_has_no_empty(r@),
{
    let r = paint_svg_task(name, color);
    assert(pixmap_has_no_empty(PixmapTask::FromSvg(name@)));
    assert(crate::task_spec::alpha_has_no_empty(AlphaTask::FromPixmap(PixmapTask::FromSvg(name@))));
    r
}

} // verus!
