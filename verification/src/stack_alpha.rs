use crate::task_order::{alpha_order, compare_alpha_tasks, lemma_alpha_order_antisymmetric, lemma_alpha_order_transitive};
use vstd::multiset::Multiset;
use crate::task_spec::{AlphaTask, ToAlphaChannelTaskSpec};
use vstd::prelude::*;

verus! {

/// The forms of a list of alpha-channel tasks.
pub open spec fn alpha_views(s: Seq<ToAlphaChannelTaskSpec>) -> Seq<AlphaTask> {
    s.map_values(|a: ToAlphaChannelTaskSpec| a@)
}

/// The number of nodes of an alpha-channel task, counting an image task it reads as one.
pub open spec fn alpha_size(a: AlphaTask) -> nat
    decreases a,
{
    match a {
        AlphaTask::MakeSemitransparent(base, _) => 1 + alpha_size(*base),
        AlphaTask::FromPixmap(_) => 1,
        AlphaTask::StackAlphaOnAlpha(background, foreground) => 1 + alpha_size(*background) + alpha_size(*foreground),
        AlphaTask::StackAlphaOnBackground(_, foreground) => 1 + alpha_size(*foreground),
        AlphaTask::UpscaleFromGridSize(base) => 1 + alpha_size(*base),
    }
}

/// The number of nodes of a list of alpha-channel tasks.
pub open spec fn layers_size(s: Seq<AlphaTask>) -> nat
    decreases s.len(),
{
    if s.len() == 0 {
        0
    } else {
        layers_size(s.drop_last()) + alpha_size(s.last())
    }
}

/// The layers of one alpha channel, topmost first: a stack of two alpha channels gives the
/// layers of its foreground, then those of its background.
pub open spec fn layers_of(a: AlphaTask) -> Seq<AlphaTask>
    decreases a,
{
    match a {
        AlphaTask::StackAlphaOnAlpha(background, foreground) => layers_of(*foreground) + layers_of(*background),
        _ => seq![a],
    }
}

/// The layers of a list of alpha channels, topmost first, taking the last channel first.
pub open spec fn layers_top_down(s: Seq<AlphaTask>) -> Seq<AlphaTask>
    decreases s.len(),
{
    if s.len() == 0 {
        seq![]
    } else {
        layers_of(s.last()) + layers_top_down(s.drop_last())
    }
}

/// The layers that are not upscaled from the grid size, in order.
pub open spec fn plain_layers(s: Seq<AlphaTask>) -> Seq<AlphaTask>
    decreases s.len(),
{
    if s.len() == 0 {
        seq![]
    } else if s.last() is UpscaleFromGridSize {
        plain_layers(s.drop_last())
    } else {
        plain_layers(s.drop_last()).push(s.last())
    }
}

/// What the layers that are upscaled from the grid size upscale, in order.
pub open spec fn upscaled_bases(s: Seq<AlphaTask>) -> Seq<AlphaTask>
    decreases s.len(),
{
    if s.len() == 0 {
        seq![]
    } else {
        match s.last() {
            AlphaTask::UpscaleFromGridSize(base) => upscaled_bases(s.drop_last()).push(*base),
            _ => upscaled_bases(s.drop_last()),
        }
    }
}

/// Puts `x` into `s` after every element that is not above it in the order, before the first
/// one that is.
pub open spec fn insert_ordered(s: Seq<AlphaTask>, x: AlphaTask) -> Seq<AlphaTask>
    decreases s.len(),
{
    if s.len() == 0 {
        seq![x]
    } else if alpha_order(s[0], x) > 0 {
        seq![x] + s
    } else {
        seq![s[0]] + insert_ordered(s.drop_first(), x)
    }
}

/// The list sorted by [`alpha_order`], keeping equal tasks in their order.
pub open spec fn sort_ordered(s: Seq<AlphaTask>) -> Seq<AlphaTask>
    decreases s.len(),
{
    if s.len() == 0 {
        seq![]
    } else {
        insert_ordered(sort_ordered(s.drop_last()), s.last())
    }
}

/// Each task is no greater than the next in the order.
pub open spec fn ordered(s: Seq<AlphaTask>) -> bool {
    forall|i: int| 0 <= i < s.len() - 1 ==> alpha_order(#[trigger] s[i], s[i + 1]) <= 0
}

/// The alpha channels stacked in list order: the first at the bottom.
pub open spec fn stack_presorted(s: Seq<AlphaTask>) -> AlphaTask
    decreases s.len(),
{
    if s.len() <= 1 {
        s[0]
    } else {
        AlphaTask::StackAlphaOnAlpha(Box::new(stack_presorted(s.drop_last())), Box::new(s.last()))
    }
}

pub proof fn lemma_layers_of_size(a: AlphaTask)
    ensures
        layers_size(layers_of(a)) <= alpha_size(a),
        layers_of(a).len() > 0,
    decreases a,
{
    match a {
        AlphaTask::StackAlphaOnAlpha(background, foreground) => {
            lemma_layers_of_size(*background);
            lemma_layers_of_size(*foreground);
            lemma_layers_size_concat(layers_of(*foreground), layers_of(*background));
            assert(layers_of(a) == layers_of(*foreground) + layers_of(*background));
            assert(alpha_size(a) == 1 + alpha_size(*background) + alpha_size(*foreground));
            assert(layers_size(layers_of(*foreground) + layers_of(*background)) == layers_size(layers_of(*foreground)) + layers_size(layers_of(*background)));
            assert(layers_size(layers_of(a)) <= alpha_size(a));
        },
        _ => {
            assert(seq![a].drop_last() =~= Seq::<AlphaTask>::empty());
            assert(layers_of(a) == seq![a]);
            assert(layers_size(seq![a]) == layers_size(Seq::<AlphaTask>::empty()) + alpha_size(a));
        },
    }
}

pub proof fn lemma_layers_size_concat(a: Seq<AlphaTask>, b: Seq<AlphaTask>)
    ensures
        layers_size(a + b) == layers_size(a) + layers_size(b),
    decreases b.len(),
{
    if b.len() == 0 {
        assert(a + b =~= a);
    } else {
        lemma_layers_size_concat(a, b.drop_last());
        assert((a + b).drop_last() =~= a + b.drop_last());
    }
}

pub proof fn lemma_top_down_size(s: Seq<AlphaTask>)
    ensures
        layers_size(layers_top_down(s)) <= layers_size(s),
        s.len() > 0 ==> layers_top_down(s).len() > 0,
    decreases s.len(),
{
    if s.len() > 0 {
        lemma_top_down_size(s.drop_last());
        lemma_layers_of_size(s.last());
        lemma_layers_size_concat(layers_of(s.last()), layers_top_down(s.drop_last()));
    }
}

pub proof fn lemma_upscaled_bases_size(s: Seq<AlphaTask>)
    ensures
        layers_size(upscaled_bases(s)) + upscaled_bases(s).len() <= layers_size(s),
    decreases s.len(),
{
    if s.len() > 0 {
        lemma_upscaled_bases_size(s.drop_last());
        match s.last() {
            AlphaTask::UpscaleFromGridSize(base) => {
                assert(upscaled_bases(s).drop_last() =~= upscaled_bases(s.drop_last()));
            },
            _ => {},
        }
    }
}

pub proof fn lemma_split_nonempty(s: Seq<AlphaTask>)
    ensures
        s.len() == plain_layers(s).len() + upscaled_bases(s).len(),
    decreases s.len(),
{
    if s.len() > 0 {
        lemma_split_nonempty(s.drop_last());
    }
}

/// The alpha channels of a list stacked into one, simplified: nested stacks are taken apart
/// into their layers, the layers that are not upscaled are sorted, and the upscaled ones are
/// stacked (in the same way) before upscaling and put on top.
pub open spec fn spec_stack_alpha(s: Seq<AlphaTask>) -> AlphaTask
    decreases layers_size(s),
{
    let layers = layers_top_down(s);
    let plain = sort_ordered(plain_layers(layers));
    let ups = upscaled_bases(layers);
    if ups.len() == 0 {
        stack_presorted(plain)
    } else {
        proof {
            lemma_top_down_size(s);
            lemma_upscaled_bases_size(layers);
        }
        stack_presorted(plain.push(AlphaTask::UpscaleFromGridSize(Box::new(spec_stack_alpha(ups)))))
    }
}

// ---------------------------------------------------------------------------------------------
// Laws of the stable insertion sort
// ---------------------------------------------------------------------------------------------

proof fn lemma_insert_ordered(s: Seq<AlphaTask>, x: AlphaTask)
    requires
        ordered(s),
    ensures
        ordered(insert_ordered(s, x)),
        insert_ordered(s, x).to_multiset() == s.to_multiset().insert(x),
        insert_ordered(s, x).len() == s.len() + 1,
        insert_ordered(s, x)[0] == x || (s.len() > 0 && insert_ordered(s, x)[0] == s[0]),
    decreases s.len(),
{
    broadcast use vstd::seq_lib::group_to_multiset_ensures;
    if s.len() == 0 {
        assert(seq![x] =~= s.push(x));
    } else if alpha_order(s[0], x) > 0 {
        lemma_alpha_order_antisymmetric(s[0], x);
        let r = seq![x] + s;
        assert forall|i: int| 0 <= i < r.len() - 1 implies alpha_order(#[trigger] r[i], r[i + 1]) <= 0 by {
            if i > 0 {
                assert(r[i] == s[i - 1] && r[i + 1] == s[i]);
            }
        }
        vstd::seq_lib::lemma_multiset_commutative(seq![x], s);
        assert(seq![x].to_multiset() =~= vstd::multiset::Multiset::<AlphaTask>::empty().insert(x));
    } else {
        let t = s.drop_first();
        assert(ordered(t)) by {
            assert forall|i: int| 0 <= i < t.len() - 1 implies alpha_order(#[trigger] t[i], t[i + 1]) <= 0 by {
                assert(t[i] == s[i + 1] && t[i + 1] == s[i + 2]);
            }
        }
        lemma_insert_ordered(t, x);
        let it = insert_ordered(t, x);
        let r = seq![s[0]] + it;
        assert forall|i: int| 0 <= i < r.len() - 1 implies alpha_order(#[trigger] r[i], r[i + 1]) <= 0 by {
            if i > 0 {
                assert(r[i] == it[i - 1] && r[i + 1] == it[i]);
            } else {
                assert(r[1] == it[0]);
                if it[0] != x {
                    assert(it[0] == t[0]);
                    assert(t[0] == s[1]);
                }
            }
        }
        vstd::seq_lib::lemma_multiset_commutative(seq![s[0]], it);
        vstd::seq_lib::lemma_multiset_commutative(seq![s[0]], t);
        assert(seq![s[0]] + t =~= s);
    }
}

/// Sorting gives an ordered list with the same tasks.
pub proof fn lemma_sort_ordered(s: Seq<AlphaTask>)
    ensures
        ordered(sort_ordered(s)),
        sort_ordered(s).to_multiset() == s.to_multiset(),
        sort_ordered(s).len() == s.len(),
    decreases s.len(),
{
    broadcast use vstd::seq_lib::group_to_multiset_ensures;
    if s.len() > 0 {
        lemma_sort_ordered(s.drop_last());
        lemma_insert_ordered(sort_ordered(s.drop_last()), s.last());
        assert(s.drop_last().push(s.last()) =~= s);
    }
}

// ---------------------------------------------------------------------------------------------
// Executable forms
// ---------------------------------------------------------------------------------------------

proof fn lemma_insert_ordered_step(s: Seq<AlphaTask>, i: int, x: AlphaTask)
    requires
        0 <= i < s.len(),
        alpha_order(s[i], x) <= 0,
    ensures
        insert_ordered(s.subrange(i, s.len() as int), x) == seq![s[i]] + insert_ordered(s.subrange(i + 1, s.len() as int), x),
{
    let t = s.subrange(i, s.len() as int);
    assert(t.drop_first() =~= s.subrange(i + 1, s.len() as int));
}

/// Inserts `x` after every task that is not above it.
fn insert_alpha_ordered(v: &mut Vec<ToAlphaChannelTaskSpec>, x: ToAlphaChannelTaskSpec)
    ensures
        alpha_views(final(v)@) == insert_ordered(alpha_views(old(v)@), x@),
{
    let ghost s = alpha_views(v@);
    let n = v.len();
    let mut i: usize = 0;
    assert(s.subrange(0, 0) + insert_ordered(s.subrange(0, n as int), x@) =~= insert_ordered(s, x@)) by {
        assert(s.subrange(0, n as int) =~= s);
    }
    while i < n && compare_alpha_tasks(&v[i], &x) <= 0
        invariant
            n == v@.len(),
            v@ == old(v)@,
            s == alpha_views(v@),
            i <= n,
            insert_ordered(s, x@) == s.subrange(0, i as int) + insert_ordered(s.subrange(i as int, n as int), x@),
        decreases n - i,
    {
        proof {
            lemma_insert_ordered_step(s, i as int, x@);
            assert(s.subrange(0, i as int) + (seq![s[i as int]] + insert_ordered(s.subrange(i + 1, n as int), x@))
                =~= s.subrange(0, i + 1) + insert_ordered(s.subrange(i + 1, n as int), x@));
        }
        i = i + 1;
    }
    if i == n {
        assert(s.subrange(i as int, n as int) =~= Seq::<AlphaTask>::empty());
        assert(s.subrange(0, i as int) =~= s);
    }
    let ghost xv = x@;
    v.insert(i, x);
    assert(alpha_views(v@) =~= s.subrange(0, i as int) + insert_ordered(s.subrange(i as int, n as int), xv)) by {
        if i < n {
            assert(insert_ordered(s.subrange(i as int, n as int), xv) == seq![xv] + s.subrange(i as int, n as int));
        }
    }
}

/// Sorts a list of alpha-channel tasks by [`alpha_order`], keeping equal tasks in order.
pub fn sort_alpha_tasks(layers: Vec<ToAlphaChannelTaskSpec>) -> (out: Vec<ToAlphaChannelTaskSpec>)
    ensures
        alpha_views(out@) == sort_ordered(alpha_views(layers@)),
{
    let ghost s = alpha_views(layers@);
    let mut input = layers;
    let mut reversed: Vec<ToAlphaChannelTaskSpec> = Vec::new();
    // Take the tasks off the end, then put them back in their order while inserting.
    while input.len() > 0
        invariant
            alpha_views(input@) + alpha_views(reversed@).reverse() == s,
        decreases input.len(),
    {
        let ghost before_input = input@;
        let ghost before_rev = reversed@;
        let last = input.pop().unwrap();
        reversed.push(last);
        assert(alpha_views(input@) + alpha_views(reversed@).reverse() =~= alpha_views(before_input) + alpha_views(before_rev).reverse());
    }
    assert(alpha_views(reversed@).reverse() =~= s);
    let mut out: Vec<ToAlphaChannelTaskSpec> = Vec::new();
    let mut k: usize = 0;
    let n = reversed.len();
    while reversed.len() > 0
        invariant
            n == s.len(),
            k + reversed@.len() == n,
            alpha_views(reversed@).reverse() == s.subrange(k as int, n as int),
            alpha_views(out@) == sort_ordered(s.subrange(0, k as int)),
        decreases reversed.len(),
    {
        let ghost before_rev = reversed@;
        let next = reversed.pop().unwrap();
        proof {
            assert(alpha_views(before_rev).reverse()[0] == next@);
            assert(s.subrange(k as int, n as int)[0] == s[k as int]);
            assert(alpha_views(reversed@) =~= alpha_views(before_rev).drop_last());
            assert(alpha_views(before_rev).drop_last().reverse() =~= alpha_views(before_rev).reverse().drop_first());
            assert(s.subrange(k as int, n as int).drop_first() =~= s.subrange(k + 1, n as int));
            assert(alpha_views(reversed@).reverse() =~= s.subrange(k + 1, n as int));
            assert(s.subrange(0, k + 1).drop_last() =~= s.subrange(0, k as int));
            assert(s.subrange(0, k + 1).last() == next@);
        }
        insert_alpha_ordered(&mut out, next);
        k = k + 1;
    }
    assert(s.subrange(0, n as int) =~= s);
    out
}

/// Stacks the alpha channels of a nonempty list in list order, the first at the bottom.
pub fn stack_alpha_presorted(layers: Vec<ToAlphaChannelTaskSpec>) -> (r: ToAlphaChannelTaskSpec)
    requires
        layers@.len() > 0,
    ensures
        r@ == stack_presorted(alpha_views(layers@)),
    decreases layers@.len(),
{
    let mut layers = layers;
    let ghost s = alpha_views(layers@);
    if layers.len() == 1 {
        let only = layers.pop().unwrap();
        return only;
    }
    let last = layers.pop().unwrap();
    assert(alpha_views(layers@) =~= s.drop_last());
    let background = stack_alpha_presorted(layers);
    ToAlphaChannelTaskSpec::StackAlphaOnAlpha { background: Box::new(background), foreground: Box::new(last) }
}

proof fn lemma_layers_top_down_step(s: Seq<AlphaTask>)
    requires
        s.len() > 0,
    ensures
        layers_top_down(s) == layers_of(s.last()) + layers_top_down(s.drop_last()),
{
}

proof fn lemma_split_push(s: Seq<AlphaTask>, x: AlphaTask)
    ensures
        plain_layers(s.push(x)) == if x is UpscaleFromGridSize {
            plain_layers(s)
        } else {
            plain_layers(s).push(x)
        },
        upscaled_bases(s.push(x)) == match x {
            AlphaTask::UpscaleFromGridSize(base) => upscaled_bases(s).push(*base),
            _ => upscaled_bases(s),
        },
{
    assert(s.push(x).drop_last() =~= s);
}

/// The alpha channels of a nonempty list stacked into one and simplified (see
/// [`spec_stack_alpha`]).
pub fn stack_alpha(layers: Vec<ToAlphaChannelTaskSpec>) -> (r: ToAlphaChannelTaskSpec)
    requires
        layers@.len() > 0,
    ensures
        r@ == spec_stack_alpha(alpha_views(layers@)),
    decreases layers_size(alpha_views(layers@)),
{
    let ghost s = alpha_views(layers@);
    let mut pending = layers;
    let mut upscale_layers: Vec<ToAlphaChannelTaskSpec> = Vec::new();
    let mut non_upscale_layers: Vec<ToAlphaChannelTaskSpec> = Vec::new();
    let ghost mut emitted: Seq<AlphaTask> = Seq::empty();
    while pending.len() > 0
        invariant
            layers_top_down(s) == emitted + layers_top_down(alpha_views(pending@)),
            alpha_views(non_upscale_layers@) == plain_layers(emitted),
            alpha_views(upscale_layers@) == upscaled_bases(emitted),
        decreases layers_size(alpha_views(pending@)),
    {
        let ghost before = alpha_views(pending@);
        let layer = pending.pop().unwrap();
        proof {
            assert(alpha_views(pending@) =~= before.drop_last());
            lemma_layers_top_down_step(before);
        }
        match layer {
            ToAlphaChannelTaskSpec::StackAlphaOnAlpha { background, foreground } => {
                let ghost bg = background@;
                let ghost fg = foreground@;
                pending.push(*background);
                pending.push(*foreground);
                proof {
                    let p = alpha_views(pending@);
                    assert(p.drop_last() =~= before.drop_last().push(bg));
                    assert(p.drop_last().drop_last() =~= before.drop_last());
                    lemma_layers_top_down_step(p);
                    lemma_layers_top_down_step(p.drop_last());
                    assert(layers_top_down(p) =~= layers_of(fg) + (layers_of(bg) + layers_top_down(before.drop_last())));
                    assert(layers_of(before.last()) == layers_of(fg) + layers_of(bg));
                    assert(p.drop_last().drop_last() =~= before.drop_last());
                    assert(layers_size(p) == layers_size(p.drop_last()) + alpha_size(fg));
                    assert(layers_size(p.drop_last()) == layers_size(before.drop_last()) + alpha_size(bg));
                    assert(layers_size(before) == layers_size(before.drop_last()) + alpha_size(before.last()));
                    assert(alpha_size(before.last()) == 1 + alpha_size(bg) + alpha_size(fg));
                    assert(layers_size(p) < layers_size(before));
                }
            },
            ToAlphaChannelTaskSpec::UpscaleFromGridSize { base } => {
                let ghost lv = ToAlphaChannelTaskSpec::UpscaleFromGridSize { base: base }@;
                proof {
                    lemma_split_push(emitted, lv);
                    assert(layers_of(lv) == seq![lv]);
                    assert(layers_top_down(s) =~= emitted.push(lv) + layers_top_down(alpha_views(pending@)));
                    emitted = emitted.push(lv);
                }
                upscale_layers.push(*base);
                proof {
                    assert(alpha_views(upscale_layers@) =~= upscaled_bases(emitted));
                }
            },
            other => {
                let ghost lv = other@;
                proof {
                    lemma_split_push(emitted, lv);
                    assert(layers_of(lv) == seq![lv]);
                    assert(layers_top_down(s) =~= emitted.push(lv) + layers_top_down(alpha_views(pending@)));
                    emitted = emitted.push(lv);
                }
                non_upscale_layers.push(other);
                proof {
                    assert(alpha_views(non_upscale_layers@) =~= plain_layers(emitted));
                }
            },
        }
    }
    assert(alpha_views(pending@) =~= Seq::<AlphaTask>::empty());
    assert(emitted =~= layers_top_down(s));
    proof {
        lemma_top_down_size(s);
        lemma_upscaled_bases_size(layers_top_down(s));
        lemma_split_nonempty(layers_top_down(s));
        lemma_sort_ordered(plain_layers(layers_top_down(s)));
    }
    let mut sorted = sort_alpha_tasks(non_upscale_layers);
    if upscale_layers.len() == 0 {
        stack_alpha_presorted(sorted)
    } else {
        let upscaled = stack_alpha(upscale_layers);
        let ghost sorted_before = sorted@;
        sorted.push(ToAlphaChannelTaskSpec::UpscaleFromGridSize { base: Box::new(upscaled) });
        assert(alpha_views(sorted@) =~= alpha_views(sorted_before).push(
            AlphaTask::UpscaleFromGridSize(Box::new(spec_stack_alpha(upscaled_bases(layers_top_down(s))))),
        ));
        stack_alpha_presorted(sorted)
    }
}


// ---------------------------------------------------------------------------------------------
// The order of the layers does not matter
// ---------------------------------------------------------------------------------------------

/// No two different tasks of the multiset compare equal.
pub open spec fn order_faithful(m: Multiset<AlphaTask>) -> bool {
    forall|a: AlphaTask, b: AlphaTask| #[trigger] m.contains(a) && #[trigger] m.contains(b) && alpha_order(a, b) == 0 ==> a == b
}

/// Layers whose stacking sorts only tasks that compare equal when they are equal: the plain
/// layers, and (in the same way) the layers that are upscaled.
pub open spec fn stack_alpha_faithful(s: Seq<AlphaTask>) -> bool
    decreases layers_size(s),
{
    let layers = layers_top_down(s);
    let ups = upscaled_bases(layers);
    &&& order_faithful(plain_layers(layers).to_multiset())
    &&& (ups.len() > 0 ==> {
        proof {
            lemma_top_down_size(s);
            lemma_upscaled_bases_size(layers);
        }
        stack_alpha_faithful(ups)
    })
}

proof fn lemma_ordered_pair(x: Seq<AlphaTask>, i: int, j: int)
    requires
        ordered(x),
        0 <= i < j < x.len(),
    ensures
        alpha_order(x[i], x[j]) <= 0,
    decreases j - i,
{
    if j > i + 1 {
        lemma_ordered_pair(x, i, j - 1);
        assert(alpha_order(x[j - 1], x[j]) <= 0);
        lemma_alpha_order_transitive(x[i], x[j - 1], x[j]);
    }
}

proof fn lemma_ordered_tail(x: Seq<AlphaTask>)
    requires
        x.len() > 0,
        ordered(x),
    ensures
        ordered(x.drop_first()),
{
    let x1 = x.drop_first();
    assert forall|i: int| 0 <= i < x1.len() - 1 implies alpha_order(#[trigger] x1[i], x1[i + 1]) <= 0 by {
        assert(x1[i] == x[i + 1] && x1[i + 1] == x[i + 2]);
    }
}

proof fn lemma_faithful_sub(m: Multiset<AlphaTask>, v: AlphaTask)
    requires
        order_faithful(m),
    ensures
        order_faithful(m.remove(v)),
{
    broadcast use vstd::multiset::group_multiset_axioms;
    assert forall|a: AlphaTask, b: AlphaTask| #[trigger] m.remove(v).contains(a) && #[trigger] m.remove(v).contains(b)
        && alpha_order(a, b) == 0 implies a == b by {
        assert(m.contains(a) && m.contains(b));
    }
}

proof fn lemma_sorted_heads(x: Seq<AlphaTask>, y: Seq<AlphaTask>)
    requires
        x.len() > 0,
        y.len() > 0,
        ordered(x),
        ordered(y),
        x.to_multiset() == y.to_multiset(),
        order_faithful(x.to_multiset()),
    ensures
        x[0] == y[0],
{
    vstd::seq_lib::to_multiset_contains(x, x[0]);
    vstd::seq_lib::to_multiset_contains(x, y[0]);
    vstd::seq_lib::to_multiset_contains(y, x[0]);
    vstd::seq_lib::to_multiset_contains(y, y[0]);
    assert(x.contains(x[0]));
    assert(y.contains(y[0]));
    let k = choose|k: int| 0 <= k < y.len() && y[k] == x[0];
    let q = choose|q: int| 0 <= q < x.len() && x[q] == y[0];
    if k > 0 {
        lemma_ordered_pair(y, 0, k);
    }
    if q > 0 {
        lemma_ordered_pair(x, 0, q);
    }
    lemma_alpha_order_antisymmetric(x[0], y[0]);
    assert(x.to_multiset().contains(x[0]) && x.to_multiset().contains(y[0]));
}

#[verifier::rlimit(60)]
proof fn lemma_sorted_faithful_unique(x: Seq<AlphaTask>, y: Seq<AlphaTask>)
    requires
        ordered(x),
        ordered(y),
        x.to_multiset() == y.to_multiset(),
        order_faithful(x.to_multiset()),
    ensures
        x == y,
    decreases x.len(),
{
    vstd::seq_lib::to_multiset_len(x);
    vstd::seq_lib::to_multiset_len(y);
    if x.len() == 0 {
        assert(x =~= y);
    } else {
        lemma_sorted_heads(x, y);
        let x1 = x.drop_first();
        let y1 = y.drop_first();
        assert(x.remove(0) =~= x1);
        assert(y.remove(0) =~= y1);
        vstd::seq_lib::to_multiset_remove(x, 0);
        vstd::seq_lib::to_multiset_remove(y, 0);
        lemma_ordered_tail(x);
        lemma_ordered_tail(y);
        lemma_faithful_sub(x.to_multiset(), x[0]);
        lemma_sorted_faithful_unique(x1, y1);
        assert(x =~= seq![x[0]] + x1);
        assert(y =~= seq![y[0]] + y1);
    }
}

proof fn lemma_plain_counts(x: Seq<AlphaTask>, v: AlphaTask)
    ensures
        plain_layers(x).to_multiset().count(v) == (if v is UpscaleFromGridSize {
            0
        } else {
            x.to_multiset().count(v)
        }),
    decreases x.len(),
{
    broadcast use vstd::multiset::group_multiset_axioms, vstd::seq_lib::group_to_multiset_ensures;
    if x.len() == 0 {
        assert(plain_layers(x) =~= Seq::<AlphaTask>::empty());
    } else {
        lemma_plain_counts(x.drop_last(), v);
        assert(x.drop_last().push(x.last()) =~= x);
    }
}

proof fn lemma_upscaled_counts(x: Seq<AlphaTask>, v: AlphaTask)
    ensures
        upscaled_bases(x).to_multiset().count(v) == x.to_multiset().count(
            AlphaTask::UpscaleFromGridSize(Box::new(v)),
        ),
    decreases x.len(),
{
    broadcast use vstd::multiset::group_multiset_axioms, vstd::seq_lib::group_to_multiset_ensures;
    if x.len() == 0 {
        assert(upscaled_bases(x) =~= Seq::<AlphaTask>::empty());
    } else {
        lemma_upscaled_counts(x.drop_last(), v);
        assert(x.drop_last().push(x.last()) =~= x);
    }
}

proof fn lemma_top_down_remove(x: Seq<AlphaTask>, k: int)
    requires
        0 <= k < x.len(),
    ensures
        layers_top_down(x).to_multiset() == layers_top_down(x.remove(k)).to_multiset().add(
            layers_of(x[k]).to_multiset(),
        ),
    decreases x.len(),
{
    broadcast use vstd::multiset::group_multiset_axioms, vstd::seq_lib::group_to_multiset_ensures;
    let last = x.last();
    vstd::seq_lib::lemma_multiset_commutative(layers_of(last), layers_top_down(x.drop_last()));
    if k == x.len() - 1 {
        assert(x.remove(k) =~= x.drop_last());
        assert(layers_top_down(x).to_multiset() =~= layers_top_down(x.remove(k)).to_multiset().add(
            layers_of(x[k]).to_multiset(),
        ));
    } else {
        let r = x.remove(k);
        assert(r.drop_last() =~= x.drop_last().remove(k));
        assert(r.last() == last);
        lemma_top_down_remove(x.drop_last(), k);
        vstd::seq_lib::lemma_multiset_commutative(layers_of(last), layers_top_down(r.drop_last()));
        assert(x.drop_last()[k] == x[k]);
        assert(layers_top_down(x).to_multiset() =~= layers_top_down(x.remove(k)).to_multiset().add(
            layers_of(x[k]).to_multiset(),
        ));
    }
}

proof fn lemma_top_down_permutation(x: Seq<AlphaTask>, y: Seq<AlphaTask>)
    requires
        x.to_multiset() == y.to_multiset(),
    ensures
        layers_top_down(x).to_multiset() == layers_top_down(y).to_multiset(),
    decreases x.len(),
{
    broadcast use vstd::multiset::group_multiset_axioms, vstd::seq_lib::group_to_multiset_ensures;
    vstd::seq_lib::to_multiset_len(x);
    vstd::seq_lib::to_multiset_len(y);
    if x.len() == 0 {
        assert(y.len() == 0);
        assert(x =~= y);
    } else {
        let e = x.last();
        assert(x.to_multiset().contains(e)) by {
            assert(x.contains(e)) by {
                assert(x[x.len() - 1] == e);
            }
        }
        assert(y.contains(e));
        let k = choose|k: int| 0 <= k < y.len() && y[k] == e;
        lemma_top_down_remove(x, x.len() - 1);
        lemma_top_down_remove(y, k);
        assert(x.remove(x.len() - 1) =~= x.drop_last());
        assert(x.drop_last().to_multiset() == x.to_multiset().remove(e));
        assert(y.remove(k).to_multiset() == y.to_multiset().remove(e));
        lemma_top_down_permutation(x.drop_last(), y.remove(k));
    }
}

/// Stacking alpha channels does not depend on the order in which they are given, as long as
/// the layers it sorts compare equal only when they are equal: any permutation of the layers
/// stacks into the same task.
pub proof fn lemma_stack_alpha_ignores_order(s: Seq<AlphaTask>, p: Seq<AlphaTask>)
    requires
        s.to_multiset() == p.to_multiset(),
        stack_alpha_faithful(s),
    ensures
        spec_stack_alpha(p) == spec_stack_alpha(s),
    decreases layers_size(s),
{
    let ls = layers_top_down(s);
    let lp = layers_top_down(p);
    lemma_top_down_permutation(s, p);
    let plain_s = plain_layers(ls);
    let plain_p = plain_layers(lp);
    assert(plain_s.to_multiset() =~= plain_p.to_multiset()) by {
        assert forall|v: AlphaTask| #[trigger] plain_s.to_multiset().count(v) == plain_p.to_multiset().count(v) by {
            lemma_plain_counts(ls, v);
            lemma_plain_counts(lp, v);
        }
    }
    let ups_s = upscaled_bases(ls);
    let ups_p = upscaled_bases(lp);
    assert(ups_s.to_multiset() =~= ups_p.to_multiset()) by {
        assert forall|v: AlphaTask| #[trigger] ups_s.to_multiset().count(v) == ups_p.to_multiset().count(v) by {
            lemma_upscaled_counts(ls, v);
            lemma_upscaled_counts(lp, v);
        }
    }
    lemma_sort_ordered(plain_s);
    lemma_sort_ordered(plain_p);
    lemma_sorted_faithful_unique(sort_ordered(plain_s), sort_ordered(plain_p));
    broadcast use vstd::seq_lib::group_to_multiset_ensures;
    assert(ups_s.len() == ups_p.len()) by {
        assert(ups_s.len() == ups_s.to_multiset().len());
        assert(ups_p.len() == ups_p.to_multiset().len());
    }
    if ups_s.len() > 0 {
        lemma_top_down_size(s);
        lemma_upscaled_bases_size(ls);
        lemma_stack_alpha_ignores_order(ups_s, ups_p);
    }
}

} // verus!
