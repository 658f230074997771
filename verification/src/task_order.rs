use crate::color::ComparableColor;
use crate::task_spec::{AlphaTask, PixmapTask, ToAlphaChannelTaskSpec, ToPixmapTaskSpec, frames_view};
use vstd::prelude::*;

verus! {

/// -1, 0 or 1 as `a` is below, equal to or above `b`.
pub open spec fn int_order(a: int, b: int) -> int {
    if a < b {
        -1
    } else if a == b {
        0
    } else {
        1
    }
}

/// The lexicographic order of two texts by character.
pub open spec fn text_order(a: Seq<char>, b: Seq<char>) -> int
    decreases a.len(),
{
    if a.len() == 0 {
        if b.len() == 0 {
            0
        } else {
            -1
        }
    } else if b.len() == 0 {
        1
    } else if a[0] != b[0] {
        int_order(a[0] as int, b[0] as int)
    } else {
        text_order(a.drop_first(), b.drop_first())
    }
}

/// The position of an image task's kind in the declaration order of the kinds.
pub open spec fn pixmap_rank(p: PixmapTask) -> int {
    match p {
        PixmapTask::Animate(..) => 0,
        PixmapTask::FromSvg(..) => 1,
        PixmapTask::PaintAlphaChannel(..) => 2,
        PixmapTask::StackLayerOnColor(..) => 3,
        PixmapTask::StackLayerOnLayer(..) => 4,
        PixmapTask::UpscaleFromGridSize(..) => 5,
        PixmapTask::Empty => 6,
    }
}

/// The position of an alpha-channel task's kind in the declaration order of the kinds.
pub open spec fn alpha_rank(a: AlphaTask) -> int {
    match a {
        AlphaTask::MakeSemitransparent(..) => 0,
        AlphaTask::FromPixmap(..) => 1,
        AlphaTask::StackAlphaOnAlpha(..) => 2,
        AlphaTask::StackAlphaOnBackground(..) => 3,
        AlphaTask::UpscaleFromGridSize(..) => 4,
    }
}

/// The order of image tasks: by kind in declaration order, then field by field in declaration
/// order (texts by character, colors by their sort key, lists lexicographically).
pub open spec fn pixmap_order(a: PixmapTask, b: PixmapTask) -> int
    decreases a,
{
    if pixmap_rank(a) != pixmap_rank(b) {
        int_order(pixmap_rank(a), pixmap_rank(b))
    } else {
        match (a, b) {
            (PixmapTask::Animate(bg1, frames1), PixmapTask::Animate(bg2, frames2)) => {
                let first = pixmap_order(*bg1, *bg2);
                if first != 0 {
                    first
                } else {
                    frames_order(frames1, frames2)
                }
            },
            (PixmapTask::FromSvg(s1), PixmapTask::FromSvg(s2)) => text_order(s1, s2),
            (PixmapTask::PaintAlphaChannel(base1, c1), PixmapTask::PaintAlphaChannel(base2, c2)) => {
                let first = alpha_order(*base1, *base2);
                if first != 0 {
                    first
                } else {
                    int_order(c1.sort_key(), c2.sort_key())
                }
            },
            (PixmapTask::StackLayerOnColor(c1, fg1), PixmapTask::StackLayerOnColor(c2, fg2)) => {
                if c1.sort_key() != c2.sort_key() {
                    int_order(c1.sort_key(), c2.sort_key())
                } else {
                    pixmap_order(*fg1, *fg2)
                }
            },
            (PixmapTask::StackLayerOnLayer(bg1, fg1), PixmapTask::StackLayerOnLayer(bg2, fg2)) => {
                let first = pixmap_order(*bg1, *bg2);
                if first != 0 {
                    first
                } else {
                    pixmap_order(*fg1, *fg2)
                }
            },
            (PixmapTask::UpscaleFromGridSize(base1), PixmapTask::UpscaleFromGridSize(base2)) => pixmap_order(*base1, *base2),
            _ => 0,
        }
    }
}

/// The lexicographic order of two lists of image tasks.
pub open spec fn frames_order(a: Seq<PixmapTask>, b: Seq<PixmapTask>) -> int
    decreases a,
{
    if a.len() == 0 {
        if b.len() == 0 {
            0
        } else {
            -1
        }
    } else if b.len() == 0 {
        1
    } else {
        let first = pixmap_order(a[0], b[0]);
        if first != 0 {
            first
        } else {
            frames_order(a.drop_first(), b.drop_first())
        }
    }
}

/// The order of alpha-channel tasks: by kind in declaration order, then field by field.
pub open spec fn alpha_order(a: AlphaTask, b: AlphaTask) -> int
    decreases a,
{
    if alpha_rank(a) != alpha_rank(b) {
        int_order(alpha_rank(a), alpha_rank(b))
    } else {
        match (a, b) {
            (AlphaTask::MakeSemitransparent(base1, x1), AlphaTask::MakeSemitransparent(base2, x2)) => {
                let first = alpha_order(*base1, *base2);
                if first != 0 {
                    first
                } else {
                    int_order(x1 as int, x2 as int)
                }
            },
            (AlphaTask::FromPixmap(p1), AlphaTask::FromPixmap(p2)) => pixmap_order(p1, p2),
            (AlphaTask::StackAlphaOnAlpha(bg1, fg1), AlphaTask::StackAlphaOnAlpha(bg2, fg2)) => {
                let first = alpha_order(*bg1, *bg2);
                if first != 0 {
                    first
                } else {
                    alpha_order(*fg1, *fg2)
                }
            },
            (AlphaTask::StackAlphaOnBackground(x1, fg1), AlphaTask::StackAlphaOnBackground(x2, fg2)) => {
                if x1 != x2 {
                    int_order(x1 as int, x2 as int)
                } else {
                    alpha_order(*fg1, *fg2)
                }
            },
            (AlphaTask::UpscaleFromGridSize(base1), AlphaTask::UpscaleFromGridSize(base2)) => alpha_order(*base1, *base2),
            _ => 0,
        }
    }
}

/// Swapping two texts negates their order.
pub proof fn lemma_text_order_antisymmetric(a: Seq<char>, b: Seq<char>)
    ensures
        text_order(a, b) == -text_order(b, a),
    decreases a.len(),
{
    if a.len() > 0 && b.len() > 0 && a[0] == b[0] {
        lemma_text_order_antisymmetric(a.drop_first(), b.drop_first());
    }
}

/// Two texts are in neither order exactly when they are equal.
pub proof fn lemma_text_order_zero(a: Seq<char>, b: Seq<char>)
    ensures
        text_order(a, b) == 0 <==> a == b,
    decreases a.len(),
{
    if a.len() > 0 && b.len() > 0 && a[0] == b[0] {
        lemma_text_order_zero(a.drop_first(), b.drop_first());
        if a.drop_first() == b.drop_first() {
            assert(a =~= seq![a[0]] + a.drop_first());
            assert(b =~= seq![b[0]] + b.drop_first());
        }
        if a == b {
            assert(a.drop_first() =~= b.drop_first());
        }
    } else if a.len() == 0 && b.len() == 0 {
        assert(a =~= b);
    }
}

/// Swapping two image tasks negates their order.
pub proof fn lemma_pixmap_order_antisymmetric(a: PixmapTask, b: PixmapTask)
    ensures
        pixmap_order(a, b) == -pixmap_order(b, a),
    decreases a,
{
    if pixmap_rank(a) == pixmap_rank(b) {
        match (a, b) {
            (PixmapTask::Animate(bg1, frames1), PixmapTask::Animate(bg2, frames2)) => {
                lemma_pixmap_order_antisymmetric(*bg1, *bg2);
                lemma_frames_order_antisymmetric(frames1, frames2);
            },
            (PixmapTask::FromSvg(s1), PixmapTask::FromSvg(s2)) => {
                lemma_text_order_antisymmetric(s1, s2);
            },
            (PixmapTask::PaintAlphaChannel(base1, c1), PixmapTask::PaintAlphaChannel(base2, c2)) => {
                lemma_alpha_order_antisymmetric(*base1, *base2);
            },
            (PixmapTask::StackLayerOnColor(c1, fg1), PixmapTask::StackLayerOnColor(c2, fg2)) => {
                lemma_pixmap_order_antisymmetric(*fg1, *fg2);
            },
            (PixmapTask::StackLayerOnLayer(bg1, fg1), PixmapTask::StackLayerOnLayer(bg2, fg2)) => {
                lemma_pixmap_order_antisymmetric(*bg1, *bg2);
                lemma_pixmap_order_antisymmetric(*fg1, *fg2);
            },
            (PixmapTask::UpscaleFromGridSize(base1), PixmapTask::UpscaleFromGridSize(base2)) => {
                lemma_pixmap_order_antisymmetric(*base1, *base2);
            },
            _ => {},
        }
    }
}

/// Swapping two lists of image tasks negates their order.
pub proof fn lemma_frames_order_antisymmetric(a: Seq<PixmapTask>, b: Seq<PixmapTask>)
    ensures
        frames_order(a, b) == -frames_order(b, a),
    decreases a,
{
    if a.len() > 0 && b.len() > 0 {
        lemma_pixmap_order_antisymmetric(a[0], b[0]);
        lemma_frames_order_antisymmetric(a.drop_first(), b.drop_first());
    }
}

/// Swapping two alpha-channel tasks negates their order.
pub proof fn lemma_alpha_order_antisymmetric(a: AlphaTask, b: AlphaTask)
    ensures
        alpha_order(a, b) == -alpha_order(b, a),
    decreases a,
{
    if alpha_rank(a) == alpha_rank(b) {
        match (a, b) {
            (AlphaTask::MakeSemitransparent(base1, x1), AlphaTask::MakeSemitransparent(base2, x2)) => {
                lemma_alpha_order_antisymmetric(*base1, *base2);
            },
            (AlphaTask::FromPixmap(p1), AlphaTask::FromPixmap(p2)) => {
                lemma_pixmap_order_antisymmetric(p1, p2);
            },
            (AlphaTask::StackAlphaOnAlpha(bg1, fg1), AlphaTask::StackAlphaOnAlpha(bg2, fg2)) => {
                lemma_alpha_order_antisymmetric(*bg1, *bg2);
                lemma_alpha_order_antisymmetric(*fg1, *fg2);
            },
            (AlphaTask::StackAlphaOnBackground(x1, fg1), AlphaTask::StackAlphaOnBackground(x2, fg2)) => {
                lemma_alpha_order_antisymmetric(*fg1, *fg2);
            },
            (AlphaTask::UpscaleFromGridSize(base1), AlphaTask::UpscaleFromGridSize(base2)) => {
                lemma_alpha_order_antisymmetric(*base1, *base2);
            },
            _ => {},
        }
    }
}


/// What transitivity says of three orders: when `a` is at or below `b` and `b` at or below
/// `c`, `a` is at or below `c`, and `a` and `c` are in neither order only when neither pair is.
pub open spec fn chained(ab: int, bc: int, ac: int) -> bool {
    ab <= 0 && bc <= 0 ==> ac <= 0 && (ac == 0 ==> ab == 0 && bc == 0)
}

/// The order of texts is transitive (see [`chained`]).
pub proof fn lemma_text_order_transitive(a: Seq<char>, b: Seq<char>, c: Seq<char>)
    ensures
        chained(text_order(a, b), text_order(b, c), text_order(a, c)),
    decreases a.len(),
{
    if a.len() > 0 && b.len() > 0 && c.len() > 0 && a[0] == b[0] && b[0] == c[0] {
        lemma_text_order_transitive(a.drop_first(), b.drop_first(), c.drop_first());
    }
}

/// The order of image tasks is transitive (see [`chained`]).
pub proof fn lemma_pixmap_order_transitive(a: PixmapTask, b: PixmapTask, c: PixmapTask)
    ensures
        chained(pixmap_order(a, b), pixmap_order(b, c), pixmap_order(a, c)),
    decreases a,
{
    if pixmap_rank(a) == pixmap_rank(b) && pixmap_rank(b) == pixmap_rank(c) {
        match (a, b, c) {
            (PixmapTask::Animate(bg1, f1), PixmapTask::Animate(bg2, f2), PixmapTask::Animate(bg3, f3)) => {
                lemma_pixmap_order_transitive(*bg1, *bg2, *bg3);
                lemma_frames_order_transitive(f1, f2, f3);
            },
            (PixmapTask::FromSvg(s1), PixmapTask::FromSvg(s2), PixmapTask::FromSvg(s3)) => {
                lemma_text_order_transitive(s1, s2, s3);
            },
            (PixmapTask::PaintAlphaChannel(b1, _), PixmapTask::PaintAlphaChannel(b2, _), PixmapTask::PaintAlphaChannel(b3, _)) => {
                lemma_alpha_order_transitive(*b1, *b2, *b3);
            },
            (PixmapTask::StackLayerOnColor(_, f1), PixmapTask::StackLayerOnColor(_, f2), PixmapTask::StackLayerOnColor(_, f3)) => {
                lemma_pixmap_order_transitive(*f1, *f2, *f3);
            },
            (PixmapTask::StackLayerOnLayer(b1, f1), PixmapTask::StackLayerOnLayer(b2, f2), PixmapTask::StackLayerOnLayer(b3, f3)) => {
                lemma_pixmap_order_transitive(*b1, *b2, *b3);
                lemma_pixmap_order_transitive(*f1, *f2, *f3);
            },
            (PixmapTask::UpscaleFromGridSize(b1), PixmapTask::UpscaleFromGridSize(b2), PixmapTask::UpscaleFromGridSize(b3)) => {
                lemma_pixmap_order_transitive(*b1, *b2, *b3);
            },
            _ => {},
        }
    }
}

/// The order of lists of image tasks is transitive (see [`chained`]).
pub proof fn lemma_frames_order_transitive(a: Seq<PixmapTask>, b: Seq<PixmapTask>, c: Seq<PixmapTask>)
    ensures
        chained(frames_order(a, b), frames_order(b, c), frames_order(a, c)),
    decreases a,
{
    if a.len() > 0 && b.len() > 0 && c.len() > 0 {
        lemma_pixmap_order_transitive(a[0], b[0], c[0]);
        lemma_frames_order_transitive(a.drop_first(), b.drop_first(), c.drop_first());
    }
}

/// The order of alpha-channel tasks is transitive (see [`chained`]).
pub proof fn lemma_alpha_order_transitive(a: AlphaTask, b: AlphaTask, c: AlphaTask)
    ensures
        chained(alpha_order(a, b), alpha_order(b, c), alpha_order(a, c)),
    decreases a,
{
    if alpha_rank(a) == alpha_rank(b) && alpha_rank(b) == alpha_rank(c) {
        match (a, b, c) {
            (AlphaTask::MakeSemitransparent(b1, _), AlphaTask::MakeSemitransparent(b2, _), AlphaTask::MakeSemitransparent(b3, _)) => {
                lemma_alpha_order_transitive(*b1, *b2, *b3);
            },
            (AlphaTask::FromPixmap(p1), AlphaTask::FromPixmap(p2), AlphaTask::FromPixmap(p3)) => {
                lemma_pixmap_order_transitive(p1, p2, p3);
            },
            (AlphaTask::StackAlphaOnAlpha(b1, f1), AlphaTask::StackAlphaOnAlpha(b2, f2), AlphaTask::StackAlphaOnAlpha(b3, f3)) => {
                lemma_alpha_order_transitive(*b1, *b2, *b3);
                lemma_alpha_order_transitive(*f1, *f2, *f3);
            },
            (AlphaTask::StackAlphaOnBackground(_, f1), AlphaTask::StackAlphaOnBackground(_, f2), AlphaTask::StackAlphaOnBackground(_, f3)) => {
                lemma_alpha_order_transitive(*f1, *f2, *f3);
            },
            (AlphaTask::UpscaleFromGridSize(b1), AlphaTask::UpscaleFromGridSize(b2), AlphaTask::UpscaleFromGridSize(b3)) => {
                lemma_alpha_order_transitive(*b1, *b2, *b3);
            },
            _ => {},
        }
    }
}

fn sign_of(a: u32, b: u32) -> (r: i8)
    ensures
        r == int_order(a as int, b as int),
{
    if a < b {
        -1
    } else if a == b {
        0
    } else {
        1
    }
}

/// The character order of two texts (see [`text_order`]).
pub fn compare_texts(a: &String, b: &String) -> (r: i8)
    ensures
        r == text_order(a@, b@),
{
    let sa = a.as_str();
    let sb = b.as_str();
    let la = sa.unicode_len();
    let lb = sb.unicode_len();
    let mut i: usize = 0;
    assert(a@.skip(0) =~= a@);
    assert(b@.skip(0) =~= b@);
    loop
        invariant
            i <= la,
            i <= lb,
            la == a@.len(),
            lb == b@.len(),
            sa@ == a@,
            sb@ == b@,
            text_order(a@, b@) == text_order(a@.skip(i as int), b@.skip(i as int)),
        decreases la - i,
    {
        if i == la {
            return if i == lb {
                0
            } else {
                -1
            };
        }
        if i == lb {
            return 1;
        }
        let ca = sa.get_char(i);
        let cb = sb.get_char(i);
        assert(a@.skip(i as int)[0] == ca);
        assert(b@.skip(i as int)[0] == cb);
        if ca != cb {
            return sign_of(ca as u32, cb as u32);
        }
        assert(a@.skip(i as int).drop_first() =~= a@.skip(i + 1));
        assert(b@.skip(i as int).drop_first() =~= b@.skip(i + 1));
        i = i + 1;
    }
}

impl ToPixmapTaskSpec {
    /// The position of the task's kind in the declaration order of the kinds.
    pub fn rank(&self) -> (r: u8)
        ensures
            r == pixmap_rank(self@),
    {
        match self {
            ToPixmapTaskSpec::Animate { .. } => 0,
            ToPixmapTaskSpec::FromSvg { .. } => 1,
            ToPixmapTaskSpec::PaintAlphaChannel { .. } => 2,
            ToPixmapTaskSpec::StackLayerOnColor { .. } => 3,
            ToPixmapTaskSpec::StackLayerOnLayer { .. } => 4,
            ToPixmapTaskSpec::UpscaleFromGridSize { .. } => 5,
            ToPixmapTaskSpec::Empty => 6,
        }
    }
}

impl ToAlphaChannelTaskSpec {
    /// The position of the task's kind in the declaration order of the kinds.
    pub fn rank(&self) -> (r: u8)
        ensures
            r == alpha_rank(self@),
    {
        match self {
            ToAlphaChannelTaskSpec::MakeSemitransparent { .. } => 0,
            ToAlphaChannelTaskSpec::FromPixmap { .. } => 1,
            ToAlphaChannelTaskSpec::StackAlphaOnAlpha { .. } => 2,
            ToAlphaChannelTaskSpec::StackAlphaOnBackground { .. } => 3,
            ToAlphaChannelTaskSpec::UpscaleFromGridSize { .. } => 4,
        }
    }
}

fn compare_colors(a: &ComparableColor, b: &ComparableColor) -> (r: i8)
    ensures
        r == int_order(a.sort_key(), b.sort_key()),
{
    let ka = a.key();
    let kb = b.key();
    sign_of(ka, kb)
}

proof fn lemma_frames_view_skip(frames: Seq<ToPixmapTaskSpec>, i: int)
    requires
        0 <= i < frames.len(),
    ensures
        frames_view(frames).len() == frames.len(),
        frames_view(frames.skip(i)).len() > 0,
        frames_view(frames.skip(i))[0] == frames[i]@,
        frames_view(frames.skip(i)).drop_first() == frames_view(frames.skip(i + 1)),
    decreases frames.len(),
{
    crate::task_spec::lemma_frames_view_facts(frames);
    crate::task_spec::lemma_frames_view_facts(frames.skip(i));
    crate::task_spec::lemma_frames_view_facts(frames.skip(i + 1));
    assert(frames_view(frames.skip(i)).drop_first() =~= frames_view(frames.skip(i + 1))) by {
        assert forall|k: int| 0 <= k < frames_view(frames.skip(i + 1)).len() implies
            #[trigger] frames_view(frames.skip(i)).drop_first()[k] == frames_view(frames.skip(i + 1))[k] by {
            assert(frames.skip(i)[k + 1] == frames.skip(i + 1)[k]);
        }
    }
}

/// The order of two image tasks (see [`pixmap_order`]).
pub fn compare_pixmap_tasks(a: &ToPixmapTaskSpec, b: &ToPixmapTaskSpec) -> (r: i8)
    ensures
        r == pixmap_order(a@, b@),
    decreases a,
{
    let ra = a.rank();
    let rb = b.rank();
    if ra != rb {
        return sign_of(ra as u32, rb as u32);
    }
    match a {
        ToPixmapTaskSpec::Animate { background: bg1, frames: frames1 } => match b {
            ToPixmapTaskSpec::Animate { background: bg2, frames: frames2 } => {
                let first = compare_pixmap_tasks(bg1, bg2);
                if first != 0 {
                    return first;
                }
                let ghost fv1 = frames_view(frames1@);
                let ghost fv2 = frames_view(frames2@);
                proof {
                    crate::task_spec::lemma_frames_view_facts(frames1@);
                    crate::task_spec::lemma_frames_view_facts(frames2@);
                    assert(frames1@.skip(0) =~= frames1@);
                    assert(frames2@.skip(0) =~= frames2@);
                    assert(a@ == PixmapTask::Animate(Box::new(bg1@), fv1));
                    assert(b@ == PixmapTask::Animate(Box::new(bg2@), fv2));
                    assert(pixmap_order(a@, b@) == frames_order(fv1, fv2));
                }
                let mut i: usize = 0;
                loop
                    invariant
                        *a is Animate,
                        (*a)->Animate_frames == *frames1,
                        i <= frames1@.len(),
                        i <= frames2@.len(),
                        fv1 == frames_view(frames1@),
                        fv2 == frames_view(frames2@),
                        pixmap_order(a@, b@) == frames_order(fv1, fv2),
                        frames_order(fv1, fv2) == frames_order(frames_view(frames1@.skip(i as int)), frames_view(frames2@.skip(i as int))),
                    decreases frames1@.len() - i,
                {
                    if i == frames1.len() {
                        assert(frames1@.skip(i as int) =~= Seq::<ToPixmapTaskSpec>::empty());
                        assert(frames_view(frames1@.skip(i as int)) =~= Seq::<PixmapTask>::empty());
                        if i == frames2.len() {
                            assert(frames2@.skip(i as int) =~= Seq::<ToPixmapTaskSpec>::empty());
                            assert(frames_view(frames2@.skip(i as int)) =~= Seq::<PixmapTask>::empty());
                            return 0;
                        } else {
                            proof {
                                lemma_frames_view_skip(frames2@, i as int);
                            }
                            return -1;
                        }
                    }
                    proof {
                        lemma_frames_view_skip(frames1@, i as int);
                    }
                    if i == frames2.len() {
                        assert(frames2@.skip(i as int) =~= Seq::<ToPixmapTaskSpec>::empty());
                        assert(frames_view(frames2@.skip(i as int)) =~= Seq::<PixmapTask>::empty());
                        return 1;
                    }
                    proof {
                        lemma_frames_view_skip(frames2@, i as int);
                        broadcast use vstd::std_specs::vec::axiom_vec_decreases_to_view;
                        broadcast use vstd::std_specs::vec::axiom_vec_index_decreases;
                        assert(decreases_to!(*a => (*a)->Animate_frames));
                        assert(decreases_to!(frames1 => frames1@[i as int]));
                    }
                    let c = compare_pixmap_tasks(&frames1[i], &frames2[i]);
                    if c != 0 {
                        return c;
                    }
                    i = i + 1;
                }
            },
            _ => 0,
        },
        ToPixmapTaskSpec::FromSvg { source: s1 } => match b {
            ToPixmapTaskSpec::FromSvg { source: s2 } => compare_texts(s1, s2),
            _ => 0,
        },
        ToPixmapTaskSpec::PaintAlphaChannel { base: base1, color: c1 } => match b {
            ToPixmapTaskSpec::PaintAlphaChannel { base: base2, color: c2 } => {
                let first = compare_alpha_tasks(base1, base2);
                if first != 0 {
                    first
                } else {
                    compare_colors(c1, c2)
                }
            },
            _ => 0,
        },
        ToPixmapTaskSpec::StackLayerOnColor { background: c1, foreground: fg1 } => match b {
            ToPixmapTaskSpec::StackLayerOnColor { background: c2, foreground: fg2 } => {
                let first = compare_colors(c1, c2);
                if first != 0 {
                    first
                } else {
                    compare_pixmap_tasks(fg1, fg2)
                }
            },
            _ => 0,
        },
        ToPixmapTaskSpec::StackLayerOnLayer { background: bg1, foreground: fg1 } => match b {
            ToPixmapTaskSpec::StackLayerOnLayer { background: bg2, foreground: fg2 } => {
                let first = compare_pixmap_tasks(bg1, bg2);
                if first != 0 {
                    first
                } else {
                    compare_pixmap_tasks(fg1, fg2)
                }
            },
            _ => 0,
        },
        ToPixmapTaskSpec::UpscaleFromGridSize { base: base1 } => match b {
            ToPixmapTaskSpec::UpscaleFromGridSize { base: base2 } => compare_pixmap_tasks(base1, base2),
            _ => 0,
        },
        ToPixmapTaskSpec::Empty => 0,
    }
}

/// The order of two alpha-channel tasks (see [`alpha_order`]).
pub fn compare_alpha_tasks(a: &ToAlphaChannelTaskSpec, b: &ToAlphaChannelTaskSpec) -> (r: i8)
    ensures
        r == alpha_order(a@, b@),
    decreases a,
{
    let ra = a.rank();
    let rb = b.rank();
    if ra != rb {
        return sign_of(ra as u32, rb as u32);
    }
    match a {
        ToAlphaChannelTaskSpec::MakeSemitransparent { base: base1, alpha: x1 } => match b {
            ToAlphaChannelTaskSpec::MakeSemitransparent { base: base2, alpha: x2 } => {
                let first = compare_alpha_tasks(base1, base2);
                if first != 0 {
                    first
                } else {
                    sign_of(*x1 as u32, *x2 as u32)
                }
            },
            _ => 0,
        },
        ToAlphaChannelTaskSpec::FromPixmap { base: p1 } => match b {
            ToAlphaChannelTaskSpec::FromPixmap { base: p2 } => compare_pixmap_tasks(p1, p2),
            _ => 0,
        },
        ToAlphaChannelTaskSpec::StackAlphaOnAlpha { background: bg1, foreground: fg1 } => match b {
            ToAlphaChannelTaskSpec::StackAlphaOnAlpha { background: bg2, foreground: fg2 } => {
                let first = compare_alpha_tasks(bg1, bg2);
                if first != 0 {
                    first
                } else {
                    compare_alpha_tasks(fg1, fg2)
                }
            },
            _ => 0,
        },
        ToAlphaChannelTaskSpec::StackAlphaOnBackground { background: x1, foreground: fg1 } => match b {
            ToAlphaChannelTaskSpec::StackAlphaOnBackground { background: x2, foreground: fg2 } => {
                if *x1 != *x2 {
                    sign_of(*x1 as u32, *x2 as u32)
                } else {
                    compare_alpha_tasks(fg1, fg2)
                }
            },
            _ => 0,
        },
        ToAlphaChannelTaskSpec::UpscaleFromGridSize { base: base1 } => match b {
            ToAlphaChannelTaskSpec::UpscaleFromGridSize { base: base2 } => compare_alpha_tasks(base1, base2),
            _ => 0,
        },
    }
}

} // verus!
