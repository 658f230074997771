use crate::stack_alpha::{
    alpha_views, insert_ordered, layers_of, layers_top_down, plain_layers, sort_ordered,
    spec_stack_alpha, stack_alpha, stack_presorted, upscaled_bases, layers_size,
    lemma_top_down_size, lemma_upscaled_bases_size,
};
use crate::task_spec::{
    alpha_has_no_empty, frames_have_no_empty, lemma_no_empty_defined, paint_task, pixmap_has_no_empty,
    spec_alpha_and_color, spec_paint_task, AlphaTask, PixmapTask, ToAlphaChannelTaskSpec,
    ToPixmapTaskSpec,
};
use vstd::prelude::*;

verus! {

// ---------------------------------------------------------------------------------------------
// Measures
// ---------------------------------------------------------------------------------------------

/// The number of upscaling steps in an image task, its alpha channels included.
pub open spec fn pixmap_upscales(p: PixmapTask) -> nat
    decreases p,
{
    match p {
        PixmapTask::Animate(background, frames) => pixmap_upscales(*background) + frames_upscales(frames),
        PixmapTask::FromSvg(_) => 0,
        PixmapTask::PaintAlphaChannel(base, _) => alpha_upscales(*base),
        PixmapTask::StackLayerOnColor(_, foreground) => pixmap_upscales(*foreground),
        PixmapTask::StackLayerOnLayer(background, foreground) => pixmap_upscales(*background) + pixmap_upscales(*foreground),
        PixmapTask::UpscaleFromGridSize(base) => 1 + pixmap_upscales(*base),
        PixmapTask::Empty => 0,
    }
}

pub open spec fn frames_upscales(frames: Seq<PixmapTask>) -> nat
    decreases frames,
{
    if frames.len() == 0 {
        0
    } else {
        frames_upscales(frames.drop_last()) + pixmap_upscales(frames.last())
    }
}

/// The number of upscaling steps in an alpha-channel task, the images it reads included.
pub open spec fn alpha_upscales(a: AlphaTask) -> nat
    decreases a,
{
    match a {
        AlphaTask::MakeSemitransparent(base, _) => alpha_upscales(*base),
        AlphaTask::FromPixmap(base) => pixmap_upscales(base),
        AlphaTask::StackAlphaOnAlpha(background, foreground) => alpha_upscales(*background) + alpha_upscales(*foreground),
        AlphaTask::StackAlphaOnBackground(_, foreground) => alpha_upscales(*foreground),
        AlphaTask::UpscaleFromGridSize(base) => 1 + alpha_upscales(*base),
    }
}

/// The number of upscaling steps in a list of alpha-channel tasks.
pub open spec fn list_upscales(s: Seq<AlphaTask>) -> nat
    decreases s.len(),
{
    if s.len() == 0 {
        0
    } else {
        list_upscales(s.drop_last()) + alpha_upscales(s.last())
    }
}

/// Every alpha-channel task of the list is free of the empty placeholder.
pub open spec fn list_has_no_empty(s: Seq<AlphaTask>) -> bool {
    forall|i: int| 0 <= i < s.len() ==> alpha_has_no_empty(#[trigger] s[i])
}

/// The number of image layers stacked directly on each other.
pub open spec fn layer_count(p: PixmapTask) -> nat
    decreases p,
{
    match p {
        PixmapTask::StackLayerOnLayer(background, foreground) => layer_count(*background) + layer_count(*foreground),
        _ => 1,
    }
}

proof fn lemma_layer_count_positive(p: PixmapTask)
    ensures
        layer_count(p) >= 1,
    decreases p,
{
    if let PixmapTask::StackLayerOnLayer(background, foreground) = p {
        lemma_layer_count_positive(*background);
        lemma_layer_count_positive(*foreground);
    }
}

// ---------------------------------------------------------------------------------------------
// The simplifying stack, as a function with a bound on its recursion
// ---------------------------------------------------------------------------------------------

/// One attempt to merge two layers into one, with at most `fuel` nested stacking steps:
/// two layers that are alpha channels painted the same color become their stacked alpha
/// channels painted that color, and two upscaled layers become the upscaled stack of what
/// they upscale. `Some(None)` means the layers cannot be merged; `None` means the fuel ran out.
pub open spec fn simplify_pair_fuel(background: PixmapTask, foreground: PixmapTask, fuel: nat) -> Option<Option<PixmapTask>>
    decreases fuel, 2nat,
{
    match spec_alpha_and_color(background) {
        Some((bg_alpha, bg_color)) => match spec_alpha_and_color(foreground) {
            Some((fg_alpha, fg_color)) => if bg_color.same_as(fg_color) {
                Some(Some(spec_paint_task(spec_stack_alpha(seq![bg_alpha, fg_alpha]), bg_color)))
            } else {
                upscale_pair_fuel(background, foreground, fuel)
            },
            None => upscale_pair_fuel(background, foreground, fuel),
        },
        None => upscale_pair_fuel(background, foreground, fuel),
    }
}

/// The second way of merging two layers: both upscaled, merged before upscaling.
pub open spec fn upscale_pair_fuel(background: PixmapTask, foreground: PixmapTask, fuel: nat) -> Option<Option<PixmapTask>>
    decreases fuel, 1nat,
{
    match background {
        PixmapTask::UpscaleFromGridSize(bg_base) => match foreground {
            PixmapTask::UpscaleFromGridSize(fg_base) => match stack_fuel(*bg_base, *fg_base, fuel) {
                Some(s) => Some(Some(PixmapTask::UpscaleFromGridSize(Box::new(s)))),
                None => None,
            },
            _ => Some(None),
        },
        _ => Some(None),
    }
}

/// Stacking `foreground` on `background` with at most `fuel` nested steps, merging layers
/// where possible: first the two layers themselves, then the background with the bottom of a
/// stacked foreground, then the top of a stacked background with the foreground. `None`
/// means the fuel ran out.
pub open spec fn stack_fuel(background: PixmapTask, foreground: PixmapTask, fuel: nat) -> Option<PixmapTask>
    decreases fuel, 0nat,
{
    if fuel == 0 {
        None
    } else {
        let f = (fuel - 1) as nat;
        match simplify_pair_fuel(background, foreground, f) {
            None => None,
            Some(Some(simplified)) => Some(simplified),
            Some(None) => match foreground {
                PixmapTask::StackLayerOnLayer(fg_bg, fg_fg) => match simplify_pair_fuel(background, *fg_bg, f) {
                    None => None,
                    Some(Some(simplified)) => stack_fuel(simplified, *fg_fg, f),
                    Some(None) => match stack_fuel(*fg_bg, *fg_fg, f) {
                        Some(top) => Some(PixmapTask::StackLayerOnLayer(Box::new(background), Box::new(top))),
                        None => None,
                    },
                },
                _ => match background {
                    PixmapTask::StackLayerOnLayer(bg_bg, bg_fg) => match simplify_pair_fuel(*bg_fg, foreground, f) {
                        None => None,
                        Some(Some(simplified)) => stack_fuel(*bg_bg, simplified, f),
                        Some(None) => match stack_fuel(*bg_bg, *bg_fg, f) {
                            Some(bottom) => Some(PixmapTask::StackLayerOnLayer(Box::new(bottom), Box::new(foreground))),
                            None => None,
                        },
                    },
                    _ => Some(PixmapTask::StackLayerOnLayer(Box::new(background), Box::new(foreground))),
                },
            },
        }
    }
}

/// More fuel never changes a result that was reached.
pub proof fn lemma_fuel_monotonic(background: PixmapTask, foreground: PixmapTask, fuel: nat)
    ensures
        stack_fuel(background, foreground, fuel) is Some ==> stack_fuel(background, foreground, fuel + 1)
            == stack_fuel(background, foreground, fuel),
        simplify_pair_fuel(background, foreground, fuel) is Some ==> simplify_pair_fuel(background, foreground, fuel + 1)
            == simplify_pair_fuel(background, foreground, fuel),
        upscale_pair_fuel(background, foreground, fuel) is Some ==> upscale_pair_fuel(background, foreground, fuel + 1)
            == upscale_pair_fuel(background, foreground, fuel),
    decreases fuel, 1nat,
{
    // upscale_pair_fuel at `fuel` uses stack_fuel at `fuel`.
    if let PixmapTask::UpscaleFromGridSize(bg_base) = background {
        if let PixmapTask::UpscaleFromGridSize(fg_base) = foreground {
            if fuel > 0 {
                lemma_fuel_monotonic(*bg_base, *fg_base, (fuel - 1) as nat);
                lemma_stack_fuel_step(*bg_base, *fg_base, fuel);
            }
        }
    }
    lemma_stack_fuel_step(background, foreground, fuel);
}

/// The step of [`lemma_fuel_monotonic`] for `stack_fuel`, given the claim for smaller fuel.
proof fn lemma_stack_fuel_step(background: PixmapTask, foreground: PixmapTask, fuel: nat)
    ensures
        stack_fuel(background, foreground, fuel) is Some ==> stack_fuel(background, foreground, fuel + 1)
            == stack_fuel(background, foreground, fuel),
    decreases fuel, 0nat,
{
    if fuel > 0 {
        let f = (fuel - 1) as nat;
        lemma_fuel_monotonic(background, foreground, f);
        if let PixmapTask::StackLayerOnLayer(fg_bg, fg_fg) = foreground {
            lemma_fuel_monotonic(background, *fg_bg, f);
            lemma_fuel_monotonic(*fg_bg, *fg_fg, f);
            if let Some(Some(simplified)) = simplify_pair_fuel(background, *fg_bg, f) {
                lemma_fuel_monotonic(simplified, *fg_fg, f);
            }
        } else if let PixmapTask::StackLayerOnLayer(bg_bg, bg_fg) = background {
            lemma_fuel_monotonic(*bg_fg, foreground, f);
            lemma_fuel_monotonic(*bg_bg, *bg_fg, f);
            if let Some(Some(simplified)) = simplify_pair_fuel(*bg_fg, foreground, f) {
                lemma_fuel_monotonic(*bg_bg, simplified, f);
            }
        }
    }
}

/// A result reached with some fuel is reached with any larger fuel.
pub proof fn lemma_fuel_more(background: PixmapTask, foreground: PixmapTask, fuel: nat, more: nat)
    requires
        stack_fuel(background, foreground, fuel) is Some,
        more >= fuel,
    ensures
        stack_fuel(background, foreground, more) == stack_fuel(background, foreground, fuel),
    decreases more - fuel,
{
    if more > fuel {
        lemma_fuel_more(background, foreground, fuel, (more - 1) as nat);
        lemma_fuel_monotonic(background, foreground, (more - 1) as nat);
    }
}

proof fn lemma_simplify_fuel_more(background: PixmapTask, foreground: PixmapTask, fuel: nat, more: nat)
    requires
        simplify_pair_fuel(background, foreground, fuel) is Some,
        more >= fuel,
    ensures
        simplify_pair_fuel(background, foreground, more) == simplify_pair_fuel(background, foreground, fuel),
    decreases more - fuel,
{
    if more > fuel {
        lemma_simplify_fuel_more(background, foreground, fuel, (more - 1) as nat);
        lemma_fuel_monotonic(background, foreground, (more - 1) as nat);
    }
}

/// `foreground` stacked on `background` with layers merged where possible (see
/// [`stack_fuel`]); the stacking always finishes, so this is its result with enough fuel.
pub open spec fn spec_stack(background: PixmapTask, foreground: PixmapTask) -> PixmapTask {
    stack_fuel(background, foreground, choose|f: nat| stack_fuel(background, foreground, f) is Some).unwrap()
}

proof fn lemma_spec_stack(background: PixmapTask, foreground: PixmapTask, fuel: nat)
    requires
        stack_fuel(background, foreground, fuel) is Some,
    ensures
        spec_stack(background, foreground) == stack_fuel(background, foreground, fuel).unwrap(),
{
    let g = choose|f: nat| stack_fuel(background, foreground, f) is Some;
    if g >= fuel {
        lemma_fuel_more(background, foreground, fuel, g);
    } else {
        lemma_fuel_more(background, foreground, g, fuel);
    }
}

// ---------------------------------------------------------------------------------------------
// What simplification keeps
// ---------------------------------------------------------------------------------------------

proof fn lemma_alpha_and_color_measures(p: PixmapTask)
    requires
        spec_alpha_and_color(p) is Some,
    ensures
        alpha_upscales(spec_alpha_and_color(p).unwrap().0) == pixmap_upscales(p),
        pixmap_has_no_empty(p) ==> alpha_has_no_empty(spec_alpha_and_color(p).unwrap().0),
    decreases p,
{
    match p {
        PixmapTask::StackLayerOnLayer(background, foreground) => {
            lemma_alpha_and_color_measures(*background);
            lemma_alpha_and_color_measures(*foreground);
        },
        PixmapTask::UpscaleFromGridSize(base) => {
            lemma_alpha_and_color_measures(*base);
        },
        _ => {},
    }
}

pub proof fn lemma_paint_task_measures(base: AlphaTask, color: crate::color::ComparableColor)
    ensures
        pixmap_upscales(spec_paint_task(base, color)) <= alpha_upscales(base),
        alpha_has_no_empty(base) ==> pixmap_has_no_empty(spec_paint_task(base, color)),
        layer_count(spec_paint_task(base, color)) == 1,
    decreases base,
{
    let painted = PixmapTask::PaintAlphaChannel(Box::new(base), color);
    assert(pixmap_upscales(painted) == alpha_upscales(base));
    assert(pixmap_has_no_empty(painted) == alpha_has_no_empty(base));
    match base {
        AlphaTask::FromPixmap(base_base) => match base_base {
            PixmapTask::PaintAlphaChannel(base_base_base, base_color) => {
                assert(alpha_upscales(base) == pixmap_upscales(base_base));
                assert(pixmap_upscales(base_base) == alpha_upscales(*base_base_base));
                assert(alpha_has_no_empty(base) == pixmap_has_no_empty(base_base));
                assert(pixmap_has_no_empty(base_base) == alpha_has_no_empty(*base_base_base));
                lemma_paint_task_measures(*base_base_base, color);
            },
            _ => {},
        },
        _ => {},
    }
}

proof fn lemma_list_one(x: AlphaTask)
    ensures
        list_upscales(seq![x]) == alpha_upscales(x),
        list_has_no_empty(seq![x]) == alpha_has_no_empty(x),
{
    assert(seq![x].drop_last() =~= Seq::<AlphaTask>::empty());
    reveal_with_fuel(list_upscales, 2);
    assert(seq![x][0] == x);
}

proof fn lemma_layers_of_measures(a: AlphaTask)
    ensures
        list_upscales(layers_of(a)) == alpha_upscales(a),
        alpha_has_no_empty(a) ==> list_has_no_empty(layers_of(a)),
    decreases a,
{
    match a {
        AlphaTask::StackAlphaOnAlpha(background, foreground) => {
            lemma_layers_of_measures(*background);
            lemma_layers_of_measures(*foreground);
            lemma_list_concat(layers_of(*foreground), layers_of(*background));
        },
        _ => {
            lemma_list_one(a);
        },
    }
}

proof fn lemma_list_concat(a: Seq<AlphaTask>, b: Seq<AlphaTask>)
    ensures
        list_upscales(a + b) == list_upscales(a) + list_upscales(b),
        list_has_no_empty(a) && list_has_no_empty(b) ==> list_has_no_empty(a + b),
    decreases b.len(),
{
    if b.len() == 0 {
        assert(a + b =~= a);
    } else {
        lemma_list_concat(a, b.drop_last());
        assert((a + b).drop_last() =~= a + b.drop_last());
    }
    if list_has_no_empty(a) && list_has_no_empty(b) {
        assert forall|i: int| 0 <= i < (a + b).len() implies alpha_has_no_empty(#[trigger] (a + b)[i]) by {
            if i >= a.len() {
                assert((a + b)[i] == b[i - a.len()]);
            }
        }
    }
}

proof fn lemma_top_down_measures(s: Seq<AlphaTask>)
    ensures
        list_upscales(layers_top_down(s)) == list_upscales(s),
        list_has_no_empty(s) ==> list_has_no_empty(layers_top_down(s)),
    decreases s.len(),
{
    if s.len() > 0 {
        lemma_top_down_measures(s.drop_last());
        lemma_layers_of_measures(s.last());
        lemma_list_concat(layers_of(s.last()), layers_top_down(s.drop_last()));
        if list_has_no_empty(s) {
            assert(alpha_has_no_empty(s[s.len() - 1]));
            assert(list_has_no_empty(s.drop_last())) by {
                assert forall|i: int| 0 <= i < s.drop_last().len() implies alpha_has_no_empty(#[trigger] s.drop_last()[i]) by {
                    assert(s.drop_last()[i] == s[i]);
                }
            }
        }
    }
}

proof fn lemma_split_measures(s: Seq<AlphaTask>)
    ensures
        list_upscales(plain_layers(s)) + list_upscales(upscaled_bases(s)) + upscaled_bases(s).len() == list_upscales(s),
        list_has_no_empty(s) ==> list_has_no_empty(plain_layers(s)) && list_has_no_empty(upscaled_bases(s)),
    decreases s.len(),
{
    if s.len() > 0 {
        let p = s.drop_last();
        lemma_split_measures(p);
        if list_has_no_empty(s) {
            assert(list_has_no_empty(p)) by {
                assert forall|i: int| 0 <= i < p.len() implies alpha_has_no_empty(#[trigger] p[i]) by {
                    assert(p[i] == s[i]);
                }
            }
            assert(alpha_has_no_empty(s[s.len() - 1]));
        }
        match s.last() {
            AlphaTask::UpscaleFromGridSize(base) => {
                assert(upscaled_bases(s).drop_last() =~= upscaled_bases(p));
                if list_has_no_empty(s) {
                    assert forall|i: int| 0 <= i < upscaled_bases(s).len() implies alpha_has_no_empty(#[trigger] upscaled_bases(s)[i]) by {
                        if i < upscaled_bases(p).len() {
                            assert(upscaled_bases(s)[i] == upscaled_bases(p)[i]);
                        }
                    }
                }
            },
            _ => {
                assert(plain_layers(s).drop_last() =~= plain_layers(p));
                if list_has_no_empty(s) {
                    assert forall|i: int| 0 <= i < plain_layers(s).len() implies alpha_has_no_empty(#[trigger] plain_layers(s)[i]) by {
                        if i < plain_layers(p).len() {
                            assert(plain_layers(s)[i] == plain_layers(p)[i]);
                        }
                    }
                }
            },
        }
    }
}

proof fn lemma_insert_ordered_measures(s: Seq<AlphaTask>, x: AlphaTask)
    ensures
        list_upscales(insert_ordered(s, x)) == list_upscales(s) + alpha_upscales(x),
        list_has_no_empty(s) && alpha_has_no_empty(x) ==> list_has_no_empty(insert_ordered(s, x)),
        insert_ordered(s, x).len() == s.len() + 1,
    decreases s.len(),
{
    lemma_list_one(x);
    if s.len() == 0 {
    } else if crate::task_order::alpha_order(s[0], x) > 0 {
        lemma_list_concat(seq![x], s);
    } else {
        let t = s.drop_first();
        lemma_insert_ordered_measures(t, x);
        lemma_list_concat(seq![s[0]], t);
        lemma_list_concat(seq![s[0]], insert_ordered(t, x));
        assert(seq![s[0]] + t =~= s);
        lemma_list_one(s[0]);
        if list_has_no_empty(s) && alpha_has_no_empty(x) {
            assert(list_has_no_empty(t)) by {
                assert forall|i: int| 0 <= i < t.len() implies alpha_has_no_empty(#[trigger] t[i]) by {
                    assert(t[i] == s[i + 1]);
                }
            }
            assert(list_has_no_empty(seq![s[0]])) by {
                assert(alpha_has_no_empty(s[0]));
            }
        }
    }
}

proof fn lemma_sort_measures(s: Seq<AlphaTask>)
    ensures
        list_upscales(sort_ordered(s)) == list_upscales(s),
        list_has_no_empty(s) ==> list_has_no_empty(sort_ordered(s)),
        sort_ordered(s).len() == s.len(),
    decreases s.len(),
{
    if s.len() > 0 {
        lemma_sort_measures(s.drop_last());
        lemma_insert_ordered_measures(sort_ordered(s.drop_last()), s.last());
        if list_has_no_empty(s) {
            assert(list_has_no_empty(s.drop_last())) by {
                assert forall|i: int| 0 <= i < s.drop_last().len() implies alpha_has_no_empty(#[trigger] s.drop_last()[i]) by {
                    assert(s.drop_last()[i] == s[i]);
                }
            }
            assert(alpha_has_no_empty(s[s.len() - 1]));
        }
    }
}

proof fn lemma_presorted_measures(s: Seq<AlphaTask>)
    requires
        s.len() > 0,
    ensures
        alpha_upscales(stack_presorted(s)) == list_upscales(s),
        list_has_no_empty(s) ==> alpha_has_no_empty(stack_presorted(s)),
    decreases s.len(),
{
    if s.len() == 1 {
        assert(s =~= seq![s[0]]);
        lemma_list_one(s[0]);
    } else {
        lemma_presorted_measures(s.drop_last());
        if list_has_no_empty(s) {
            assert(list_has_no_empty(s.drop_last())) by {
                assert forall|i: int| 0 <= i < s.drop_last().len() implies alpha_has_no_empty(#[trigger] s.drop_last()[i]) by {
                    assert(s.drop_last()[i] == s[i]);
                }
            }
            assert(alpha_has_no_empty(s[s.len() - 1]));
        }
    }
}

/// Stacking alpha channels adds no upscaling steps and no empty placeholder.
pub proof fn lemma_stack_alpha_measures(s: Seq<AlphaTask>)
    requires
        s.len() > 0,
    ensures
        alpha_upscales(spec_stack_alpha(s)) <= list_upscales(s),
        list_has_no_empty(s) ==> alpha_has_no_empty(spec_stack_alpha(s)),
    decreases layers_size(s),
{
    let layers = layers_top_down(s);
    let plain = sort_ordered(plain_layers(layers));
    let ups = upscaled_bases(layers);
    lemma_top_down_measures(s);
    lemma_top_down_size(s);
    lemma_split_measures(layers);
    lemma_sort_measures(plain_layers(layers));
    crate::stack_alpha::lemma_split_nonempty(layers);
    if ups.len() == 0 {
        lemma_presorted_measures(plain);
    } else {
        lemma_upscaled_bases_size(layers);
        lemma_stack_alpha_measures(ups);
        let top = AlphaTask::UpscaleFromGridSize(Box::new(spec_stack_alpha(ups)));
        let all = plain.push(top);
        assert(all.drop_last() =~= plain);
        lemma_presorted_measures(all);
        if list_has_no_empty(s) {
            assert forall|i: int| 0 <= i < all.len() implies alpha_has_no_empty(#[trigger] all[i]) by {
                if i < plain.len() {
                    assert(all[i] == plain[i]);
                }
            }
        }
    }
}

// ---------------------------------------------------------------------------------------------
// The order of layers
// ---------------------------------------------------------------------------------------------

/// The layers of an image drawn directly on each other, bottom first.
pub open spec fn stacked_layers(p: PixmapTask) -> Seq<PixmapTask>
    decreases p,
{
    match p {
        PixmapTask::StackLayerOnLayer(background, foreground) => stacked_layers(*background) + stacked_layers(
            *foreground,
        ),
        _ => seq![p],
    }
}

/// No two of the layers can be merged: none is upscaled, and no two are alpha channels
/// painted the same color.
pub open spec fn unmergeable_layers(s: Seq<PixmapTask>) -> bool {
    &&& forall|i: int| 0 <= i < s.len() ==> !(#[trigger] s[i] is UpscaleFromGridSize)
    &&& forall|i: int, j: int|
        0 <= i < j < s.len() && (#[trigger] spec_alpha_and_color(s[i])) is Some
            && (#[trigger] spec_alpha_and_color(s[j])) is Some ==> !spec_alpha_and_color(s[i]).unwrap().1.same_as(
            spec_alpha_and_color(s[j]).unwrap().1,
        )
}

proof fn lemma_stacked_layers_len(p: PixmapTask)
    ensures
        stacked_layers(p).len() == layer_count(p),
        layer_count(p) >= 1,
        !(p is StackLayerOnLayer) ==> stacked_layers(p) == seq![p],
        p is StackLayerOnLayer ==> stacked_layers(p).len() >= 2,
    decreases p,
{
    if let PixmapTask::StackLayerOnLayer(background, foreground) = p {
        lemma_stacked_layers_len(*background);
        lemma_stacked_layers_len(*foreground);
    }
}

/// Every layer of an image that is one alpha channel painted one color is itself an alpha
/// channel painted that color.
proof fn lemma_painted_color_on_every_layer(p: PixmapTask, k: int)
    requires
        spec_alpha_and_color(p) is Some,
        0 <= k < stacked_layers(p).len(),
    ensures
        spec_alpha_and_color(stacked_layers(p)[k]) is Some,
        spec_alpha_and_color(stacked_layers(p)[k]).unwrap().1.same_as(spec_alpha_and_color(p).unwrap().1),
    decreases p,
{
    match p {
        PixmapTask::StackLayerOnLayer(background, foreground) => {
            let lb = stacked_layers(*background).len() as int;
            if k < lb {
                lemma_painted_color_on_every_layer(*background, k);
                assert(stacked_layers(p)[k] == stacked_layers(*background)[k]);
            } else {
                lemma_painted_color_on_every_layer(*foreground, k - lb);
                assert(stacked_layers(p)[k] == stacked_layers(*foreground)[k - lb]);
            }
        },
        _ => {},
    }
}

proof fn lemma_unmergeable_subrange(s: Seq<PixmapTask>, a: int, b: int)
    requires
        unmergeable_layers(s),
        0 <= a <= b <= s.len(),
    ensures
        unmergeable_layers(s.subrange(a, b)),
{
    let t = s.subrange(a, b);
    assert forall|i: int| 0 <= i < t.len() implies !(#[trigger] t[i] is UpscaleFromGridSize) by {
        assert(t[i] == s[a + i]);
    }
    assert forall|i: int, j: int|
        0 <= i < j < t.len() && (#[trigger] spec_alpha_and_color(t[i])) is Some
            && (#[trigger] spec_alpha_and_color(t[j])) is Some implies !spec_alpha_and_color(t[i]).unwrap().1.same_as(
        spec_alpha_and_color(t[j]).unwrap().1,
    ) by {
        assert(t[i] == s[a + i]);
        assert(t[j] == s[a + j]);
    }
}

/// Two images whose layers cannot be merged are not merged.
proof fn lemma_unmergeable_pair(background: PixmapTask, foreground: PixmapTask, fuel: nat)
    requires
        unmergeable_layers(stacked_layers(background) + stacked_layers(foreground)),
    ensures
        simplify_pair_fuel(background, foreground, fuel) == Some(None::<PixmapTask>),
{
    let bl = stacked_layers(background);
    let fl = stacked_layers(foreground);
    let s = bl + fl;
    lemma_stacked_layers_len(background);
    lemma_stacked_layers_len(foreground);
    assert(s[0] == bl[0]);
    assert(s[bl.len() as int] == fl[0]);
    if background is UpscaleFromGridSize {
        assert(bl[0] == background);
    }
    if spec_alpha_and_color(background) is Some && spec_alpha_and_color(foreground) is Some {
        lemma_painted_color_on_every_layer(background, 0);
        lemma_painted_color_on_every_layer(foreground, 0);
        if background is StackLayerOnLayer {
            lemma_painted_color_on_every_layer(background, 1);
            assert(s[1] == bl[1]);
            assert(false);
        }
        if foreground is StackLayerOnLayer {
            lemma_painted_color_on_every_layer(foreground, 1);
            assert(s[bl.len() + 1int] == fl[1]);
            assert(false);
        }
        assert(bl.len() == 1);
        assert(!spec_alpha_and_color(s[0]).unwrap().1.same_as(spec_alpha_and_color(s[1]).unwrap().1));
    }
}

proof fn lemma_stack_fuel_keeps_layers(background: PixmapTask, foreground: PixmapTask)
    requires
        unmergeable_layers(stacked_layers(background) + stacked_layers(foreground)),
    ensures
        stack_fuel(background, foreground, layer_count(background) + layer_count(foreground)) is Some,
        stacked_layers(stack_fuel(background, foreground, layer_count(background) + layer_count(foreground)).unwrap())
            == stacked_layers(background) + stacked_layers(foreground),
    decreases layer_count(background) + layer_count(foreground),
{
    let bl = stacked_layers(background);
    let fl = stacked_layers(foreground);
    let s = bl + fl;
    let n = layer_count(background) + layer_count(foreground);
    lemma_stacked_layers_len(background);
    lemma_stacked_layers_len(foreground);
    let f = (n - 1) as nat;
    lemma_unmergeable_pair(background, foreground, f);
    match foreground {
        PixmapTask::StackLayerOnLayer(fg_bg, fg_fg) => {
            lemma_stacked_layers_len(*fg_bg);
            lemma_stacked_layers_len(*fg_fg);
            let lbb = stacked_layers(*fg_bg).len() as int;
            lemma_unmergeable_subrange(s, 0, bl.len() + lbb);
            assert(s.subrange(0, bl.len() + lbb) =~= bl + stacked_layers(*fg_bg));
            lemma_unmergeable_pair(background, *fg_bg, f);
            lemma_unmergeable_subrange(s, bl.len() as int, s.len() as int);
            assert(s.subrange(bl.len() as int, s.len() as int) =~= stacked_layers(*fg_bg) + stacked_layers(*fg_fg));
            lemma_stack_fuel_keeps_layers(*fg_bg, *fg_fg);
            lemma_fuel_more(*fg_bg, *fg_fg, layer_count(*fg_bg) + layer_count(*fg_fg), f);
            assert(s =~= bl + (stacked_layers(*fg_bg) + stacked_layers(*fg_fg)));
        },
        _ => match background {
            PixmapTask::StackLayerOnLayer(bg_bg, bg_fg) => {
                lemma_stacked_layers_len(*bg_bg);
                lemma_stacked_layers_len(*bg_fg);
                let lbb = stacked_layers(*bg_bg).len() as int;
                lemma_unmergeable_subrange(s, lbb, s.len() as int);
                assert(s.subrange(lbb, s.len() as int) =~= stacked_layers(*bg_fg) + fl);
                lemma_unmergeable_pair(*bg_fg, foreground, f);
                lemma_unmergeable_subrange(s, 0, bl.len() as int);
                assert(s.subrange(0, bl.len() as int) =~= stacked_layers(*bg_bg) + stacked_layers(*bg_fg));
                lemma_stack_fuel_keeps_layers(*bg_bg, *bg_fg);
                lemma_fuel_more(*bg_bg, *bg_fg, layer_count(*bg_bg) + layer_count(*bg_fg), f);
            },
            _ => {},
        },
    }
}

/// Painting an alpha channel gives a single layer that is an alpha channel painted that color.
proof fn lemma_paint_task_color(base: AlphaTask, color: crate::color::ComparableColor)
    ensures
        !(spec_paint_task(base, color) is StackLayerOnLayer),
        spec_alpha_and_color(spec_paint_task(base, color)) is Some,
        spec_alpha_and_color(spec_paint_task(base, color)).unwrap().1.same_as(color),
    decreases base,
{
    if let AlphaTask::FromPixmap(base_base) = base {
        if let PixmapTask::PaintAlphaChannel(base_base_base, base_color) = base_base {
            if base_color.alpha == 255 {
                lemma_paint_task_color(*base_base_base, color);
            }
        }
    }
}

/// Two layers that are alpha channels painted the same color stack to a single layer: an
/// alpha channel painted that color.
pub proof fn lemma_stack_merges_same_color(background: PixmapTask, foreground: PixmapTask)
    requires
        spec_alpha_and_color(background) is Some,
        spec_alpha_and_color(foreground) is Some,
        spec_alpha_and_color(background).unwrap().1.same_as(spec_alpha_and_color(foreground).unwrap().1),
    ensures
        stacked_layers(spec_stack(background, foreground)).len() == 1,
        spec_alpha_and_color(spec_stack(background, foreground)) is Some,
        spec_alpha_and_color(spec_stack(background, foreground)).unwrap().1.same_as(
            spec_alpha_and_color(background).unwrap().1,
        ),
{
    let (bg_alpha, color) = spec_alpha_and_color(background).unwrap();
    let fg_alpha = spec_alpha_and_color(foreground).unwrap().0;
    let merged = spec_paint_task(spec_stack_alpha(seq![bg_alpha, fg_alpha]), color);
    assert(simplify_pair_fuel(background, foreground, 0) == Some(Some(merged)));
    assert(stack_fuel(background, foreground, 1) == Some(merged));
    lemma_spec_stack(background, foreground, 1);
    lemma_paint_task_color(spec_stack_alpha(seq![bg_alpha, fg_alpha]), color);
    lemma_stacked_layers_len(merged);
}

/// Stacking keeps the order of the layers: where no two layers can be merged, the layers of
/// the stack are those of the background, bottom first, then those of the foreground, so no
/// layer of the background is ever drawn over one of the foreground.
pub proof fn lemma_stack_keeps_layer_order(background: PixmapTask, foreground: PixmapTask)
    requires
        unmergeable_layers(stacked_layers(background) + stacked_layers(foreground)),
    ensures
        stacked_layers(spec_stack(background, foreground)) == stacked_layers(background) + stacked_layers(foreground),
{
    lemma_stack_fuel_keeps_layers(background, foreground);
    lemma_spec_stack(background, foreground, layer_count(background) + layer_count(foreground));
}

// ---------------------------------------------------------------------------------------------
// Executable forms
// ---------------------------------------------------------------------------------------------

/// Merges two layers into one where [`simplify_pair_fuel`] can, giving them back otherwise.
fn try_simplify_pair(background: ToPixmapTaskSpec, foreground: ToPixmapTaskSpec) -> (r: (
    Result<ToPixmapTaskSpec, (ToPixmapTaskSpec, ToPixmapTaskSpec)>,
    Ghost<nat>,
))
    requires
        pixmap_has_no_empty(background@),
        pixmap_has_no_empty(foreground@),
    ensures
        simplify_pair_fuel(background@, foreground@, r.1@) == match r.0 {
            Ok(s) => Some(Some(s@)),
            Err(_) => Some(None::<PixmapTask>),
        },
        match r.0 {
            Ok(s) => {
                &&& pixmap_has_no_empty(s@)
                &&& layer_count(s@) == 1
                &&& pixmap_upscales(s@) <= pixmap_upscales(background@) + pixmap_upscales(foreground@)
            },
            Err((b, f)) => b@ == background@ && f@ == foreground@,
        },
    decreases pixmap_upscales(background@) + pixmap_upscales(foreground@), layer_count(background@) + layer_count(foreground@), 0nat,
{
    proof {
        lemma_no_empty_defined(background@);
        lemma_no_empty_defined(foreground@);
    }
    let bg_found = background.alpha_and_color();
    if let Some((bg_alpha, bg_color)) = bg_found {
        let fg_found = foreground.alpha_and_color();
        if let Some((fg_alpha, fg_color)) = fg_found {
            if bg_color.is_same(&fg_color) {
                proof {
                    lemma_alpha_and_color_measures(background@);
                    lemma_alpha_and_color_measures(foreground@);
                }
                let ghost layers = seq![bg_alpha@, fg_alpha@];
                let mut pair: Vec<ToAlphaChannelTaskSpec> = Vec::new();
                pair.push(bg_alpha);
                pair.push(fg_alpha);
                assert(alpha_views(pair@) =~= layers);
                let stacked = stack_alpha(pair);
                proof {
                    assert(layers =~= seq![layers[0]] + seq![layers[1]]);
                    lemma_list_one(layers[0]);
                    lemma_list_one(layers[1]);
                    lemma_list_concat(seq![layers[0]], seq![layers[1]]);
                    assert(list_upscales(layers) == alpha_upscales(layers[0]) + alpha_upscales(layers[1]));
                    assert(list_has_no_empty(layers)) by {
                        assert forall|i: int| 0 <= i < layers.len() implies alpha_has_no_empty(#[trigger] layers[i]) by {
                            if i == 0 {
                            } else {
                            }
                        }
                    }
                    lemma_stack_alpha_measures(layers);
                    lemma_paint_task_measures(stacked@, bg_color);
                }
                let simplified = paint_task(stacked, bg_color);
                return (Ok(simplified), Ghost(0));
            }
        }
    }
    let ghost bg_view = background@;
    let ghost fg_view = foreground@;
    match background {
        ToPixmapTaskSpec::UpscaleFromGridSize { base: bg_base } => match foreground {
            ToPixmapTaskSpec::UpscaleFromGridSize { base: fg_base } => {
                let ghost bg_base_view = (*bg_base)@;
                let ghost fg_base_view = (*fg_base)@;
                let (inner, Ghost(fuel)) = stack_inner(*bg_base, *fg_base);
                proof {
                    lemma_upscale_pair(bg_base_view, fg_base_view, fuel);
                }
                (Ok(ToPixmapTaskSpec::UpscaleFromGridSize { base: Box::new(inner) }), Ghost(fuel))
            },
            other => {
                let b = ToPixmapTaskSpec::UpscaleFromGridSize { base: bg_base };
                assert(b@ == bg_view);
                (Err((b, other)), Ghost(0))
            },
        },
        other => (Err((other, foreground)), Ghost(0)),
    }
}

proof fn lemma_upscale_pair(bg_base: PixmapTask, fg_base: PixmapTask, fuel: nat)
    requires
        stack_fuel(bg_base, fg_base, fuel) is Some,
    ensures
        upscale_pair_fuel(
            PixmapTask::UpscaleFromGridSize(Box::new(bg_base)),
            PixmapTask::UpscaleFromGridSize(Box::new(fg_base)),
            fuel,
        ) == Some(Some(PixmapTask::UpscaleFromGridSize(Box::new(stack_fuel(bg_base, fg_base, fuel).unwrap())))),
{
}

/// Stacks `foreground` on `background`, merging layers as [`stack_fuel`] describes, and gives
/// the fuel that suffices.
fn stack_inner(background: ToPixmapTaskSpec, foreground: ToPixmapTaskSpec) -> (r: (ToPixmapTaskSpec, Ghost<nat>))
    requires
        pixmap_has_no_empty(background@),
        pixmap_has_no_empty(foreground@),
    ensures
        stack_fuel(background@, foreground@, r.1@) == Some(r.0@),
        pixmap_has_no_empty(r.0@),
        pixmap_upscales(r.0@) <= pixmap_upscales(background@) + pixmap_upscales(foreground@),
    decreases pixmap_upscales(background@) + pixmap_upscales(foreground@), layer_count(background@) + layer_count(foreground@), 1nat,
{
    let ghost bg_view = background@;
    let ghost fg_view = foreground@;
    proof {
        lemma_layer_count_positive(bg_view);
        lemma_layer_count_positive(fg_view);
    }
    let (first, Ghost(f0)) = try_simplify_pair(background, foreground);
    match first {
        Ok(simplified) => {
            proof {
                lemma_simplify_fuel_more(bg_view, fg_view, f0, f0);
            }
            (simplified, Ghost(f0 + 1))
        },
        Err((background, foreground)) => {
            match foreground {
                ToPixmapTaskSpec::StackLayerOnLayer { background: fg_bg, foreground: fg_fg } => {
                    let ghost fg_bg_view = fg_bg@;
                    let ghost fg_fg_view = fg_fg@;
                    proof {
                        lemma_layer_count_positive(fg_fg_view);
                        lemma_layer_count_positive(fg_bg_view);
                        assert(fg_view == PixmapTask::StackLayerOnLayer(Box::new(fg_bg_view), Box::new(fg_fg_view)));
                        assert(pixmap_upscales(fg_view) == pixmap_upscales(fg_bg_view) + pixmap_upscales(fg_fg_view));
                        assert(layer_count(fg_view) == layer_count(fg_bg_view) + layer_count(fg_fg_view));
                    }
                    let (second, Ghost(f1)) = try_simplify_pair(background, *fg_bg);
                    match second {
                        Ok(simplified) => {
                            let ghost s_view = simplified@;
                            let (result, Ghost(f2)) = stack_inner(simplified, *fg_fg);
                            let ghost f = if f0 >= f1 { if f0 >= f2 { f0 } else { f2 } } else if f1 >= f2 { f1 } else { f2 };
                            proof {
                                lemma_simplify_fuel_more(bg_view, fg_view, f0, f);
                                lemma_simplify_fuel_more(bg_view, fg_bg_view, f1, f);
                                lemma_fuel_more(s_view, fg_fg_view, f2, f);
                            }
                            (result, Ghost(f + 1))
                        },
                        Err((background, fg_bg)) => {
                            let (top, Ghost(f2)) = stack_inner(fg_bg, *fg_fg);
                            let ghost f = if f0 >= f1 { if f0 >= f2 { f0 } else { f2 } } else if f1 >= f2 { f1 } else { f2 };
                            proof {
                                lemma_simplify_fuel_more(bg_view, fg_view, f0, f);
                                lemma_simplify_fuel_more(bg_view, fg_bg_view, f1, f);
                                lemma_fuel_more(fg_bg_view, fg_fg_view, f2, f);
                            }
                            (ToPixmapTaskSpec::StackLayerOnLayer { background: Box::new(background), foreground: Box::new(top) }, Ghost(f + 1))
                        },
                    }
                },
                foreground => {
                    match background {
                        ToPixmapTaskSpec::StackLayerOnLayer { background: bg_bg, foreground: bg_fg } => {
                            let ghost bg_bg_view = bg_bg@;
                            let ghost bg_fg_view = bg_fg@;
                            proof {
                                lemma_layer_count_positive(bg_bg_view);
                                lemma_layer_count_positive(bg_fg_view);
                                assert(bg_view == PixmapTask::StackLayerOnLayer(Box::new(bg_bg_view), Box::new(bg_fg_view)));
                                assert(pixmap_upscales(bg_view) == pixmap_upscales(bg_bg_view) + pixmap_upscales(bg_fg_view));
                                assert(layer_count(bg_view) == layer_count(bg_bg_view) + layer_count(bg_fg_view));
                            }
                            let (second, Ghost(f1)) = try_simplify_pair(*bg_fg, foreground);
                            match second {
                                Ok(simplified) => {
                                    let ghost s_view = simplified@;
                                    let (result, Ghost(f2)) = stack_inner(*bg_bg, simplified);
                                    let ghost f = if f0 >= f1 { if f0 >= f2 { f0 } else { f2 } } else if f1 >= f2 { f1 } else { f2 };
                                    proof {
                                        lemma_simplify_fuel_more(bg_view, fg_view, f0, f);
                                        lemma_simplify_fuel_more(bg_fg_view, fg_view, f1, f);
                                        lemma_fuel_more(bg_bg_view, s_view, f2, f);
                                    }
                                    (result, Ghost(f + 1))
                                },
                                Err((bg_fg, foreground)) => {
                                    let (bottom, Ghost(f2)) = stack_inner(*bg_bg, bg_fg);
                                    let ghost f = if f0 >= f1 { if f0 >= f2 { f0 } else { f2 } } else if f1 >= f2 { f1 } else { f2 };
                                    proof {
                                        lemma_simplify_fuel_more(bg_view, fg_view, f0, f);
                                        lemma_simplify_fuel_more(bg_fg_view, fg_view, f1, f);
                                        lemma_fuel_more(bg_bg_view, bg_fg_view, f2, f);
                                    }
                                    (ToPixmapTaskSpec::StackLayerOnLayer { background: Box::new(bottom), foreground: Box::new(foreground) }, Ghost(f + 1))
                                },
                            }
                        },
                        background => {
                            proof {
                                lemma_simplify_fuel_more(bg_view, fg_view, f0, f0);
                            }
                            (ToPixmapTaskSpec::StackLayerOnLayer { background: Box::new(background), foreground: Box::new(foreground) }, Ghost(f0 + 1))
                        },
                    }
                },
            }
        },
    }
}

/// Stacks `foreground` on `background`, merging layers where possible (see [`spec_stack`]):
/// layers that are alpha channels painted the same color become one painted alpha channel,
/// and layers that are both upscaled are stacked before upscaling.
pub fn stack(background: ToPixmapTaskSpec, foreground: ToPixmapTaskSpec) -> (r: ToPixmapTaskSpec)
    requires
        pixmap_has_no_empty(background@),
        pixmap_has_no_empty(foreground@),
    ensures
        r@ == spec_stack(background@, foreground@),
        pixmap_has_no_empty(r@),
{
    let ghost bg_view = background@;
    let ghost fg_view = foreground@;
    let (result, Ghost(fuel)) = stack_inner(background, foreground);
    proof {
        lemma_spec_stack(bg_view, fg_view, fuel);
    }
    result
}

} // verus!
