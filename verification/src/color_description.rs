use crate::color::{channel_depth, bit_depth_for_channel, BitDepth, ComparableColor};
use crate::color_set::{contains_alpha, contains_semitransparency, sort_dedup_colors, unique_color_list, has_alpha, has_key, has_semitransparency, lemma_sort_dedup, lemma_sorted_alpha, lemma_take_sorted, sort_dedup, strictly_sorted, unique_colors};
use crate::make_semitransparent::{alpha_multiply, alpha_product, alpha_stack, alpha_stacked, lemma_alpha_stacking_laws};
use crate::u8set::U8BitSet;
use vstd::prelude::*;

verus! {

/// How much transparency an image may hold.
#[derive(PartialEq, Eq, Structural, Copy, Clone, Debug)]
pub enum Transparency {
    /// Every pixel is fully opaque.
    Opaque,
    /// Every pixel is either fully transparent or fully opaque.
    Binary,
    /// Pixels may be partly transparent.
    AlphaChannel,
}

impl Transparency {
    /// The transparency of one layer laid over another.
    pub open spec fn spec_stack_on(self, other: Transparency) -> Transparency {
        if self == Transparency::Opaque || other == Transparency::Opaque {
            Transparency::Opaque
        } else if self == Transparency::Binary && other == Transparency::Binary {
            Transparency::Binary
        } else {
            Transparency::AlphaChannel
        }
    }

    /// The transparency of two images shown side by side (such as animation frames).
    pub open spec fn spec_put_adjacent(self, other: Transparency) -> Transparency {
        if self == Transparency::AlphaChannel || other == Transparency::AlphaChannel {
            Transparency::AlphaChannel
        } else if self == Transparency::Opaque && other == Transparency::Opaque {
            Transparency::Opaque
        } else {
            Transparency::Binary
        }
    }

    pub fn stack_on(&self, other: &Transparency) -> (r: Transparency)
        ensures
            r == self.spec_stack_on(*other),
    {
        if *self == Transparency::Opaque || *other == Transparency::Opaque {
            Transparency::Opaque
        } else if *self == Transparency::Binary && *other == Transparency::Binary {
            Transparency::Binary
        } else {
            Transparency::AlphaChannel
        }
    }

    pub fn put_adjacent(&self, other: &Transparency) -> (r: Transparency)
        ensures
            r == self.spec_put_adjacent(*other),
    {
        if *self == Transparency::AlphaChannel || *other == Transparency::AlphaChannel {
            Transparency::AlphaChannel
        } else if *self == Transparency::Opaque && *other == Transparency::Opaque {
            Transparency::Opaque
        } else {
            Transparency::Binary
        }
    }
}

/// Laying layers over each other and putting images side by side are both commutative and
/// associative in their effect on transparency; an opaque layer makes any stack opaque, two
/// layers with binary transparency stay binary, opaque images side by side stay opaque, and
/// an image with an alpha channel gives its neighbors one.
pub proof fn lemma_transparency_laws(a: Transparency, b: Transparency, c: Transparency)
    ensures
        a.spec_stack_on(b) == b.spec_stack_on(a),
        a.spec_stack_on(b).spec_stack_on(c) == a.spec_stack_on(b.spec_stack_on(c)),
        a.spec_put_adjacent(b) == b.spec_put_adjacent(a),
        a.spec_put_adjacent(b).spec_put_adjacent(c) == a.spec_put_adjacent(b.spec_put_adjacent(c)),
        a.spec_stack_on(Transparency::Opaque) == Transparency::Opaque,
        Transparency::Binary.spec_stack_on(Transparency::Binary) == Transparency::Binary,
        a.spec_put_adjacent(Transparency::Opaque) == (if a == Transparency::Opaque {
            Transparency::Opaque
        } else {
            a
        }),
        a.spec_put_adjacent(Transparency::AlphaChannel) == Transparency::AlphaChannel,
        a.spec_put_adjacent(a) == a,
{
}

impl Transparency {
    /// Whether a pixel of an image with this transparency may have opacity `alpha`.
    pub open spec fn allows_alpha(self, alpha: u8) -> bool {
        match self {
            Transparency::Opaque => alpha == 255,
            Transparency::Binary => alpha == 0 || alpha == 255,
            Transparency::AlphaChannel => true,
        }
    }
}

/// The transparency of a stack allows every opacity that a pixel of the foreground laid over
/// a pixel of the background can have.
pub proof fn lemma_stack_on_allows_stacked_alphas(foreground: Transparency, background: Transparency, f: u8, b: u8)
    requires
        foreground.allows_alpha(f),
        background.allows_alpha(b),
    ensures
        foreground.spec_stack_on(background).allows_alpha(alpha_stacked(b, f)),
{
    lemma_alpha_stacking_laws(b, f);
    lemma_alpha_stacking_laws(f, b);
    lemma_alpha_stacking_laws(255, 0);
}

/// The transparency of a stack is the narrowest one that allows every stacked opacity: any
/// transparency that allows all of them allows every opacity the stack's transparency allows.
/// So two layers that may be partly transparent, or one that may be and one with binary
/// transparency, give a stack that may be partly transparent.
pub proof fn lemma_stack_on_is_narrowest(foreground: Transparency, background: Transparency, t: Transparency, alpha: u8)
    requires
        forall|f: u8, b: u8|
            foreground.allows_alpha(f) && background.allows_alpha(b) ==> #[trigger] t.allows_alpha(
                alpha_stacked(b, f),
            ),
        foreground.spec_stack_on(background).allows_alpha(alpha),
    ensures
        t.allows_alpha(alpha),
{
    lemma_alpha_stacking_laws(255, 255);
    lemma_alpha_stacking_laws(0, 0);
    lemma_alpha_stacking_laws(0, 128);
    lemma_alpha_stacking_laws(128, 0);
    assert(t.allows_alpha(alpha_stacked(255, 255)));
    if foreground != Transparency::Opaque && background != Transparency::Opaque {
        assert(t.allows_alpha(alpha_stacked(0, 0)));
        if foreground == Transparency::AlphaChannel {
            assert(t.allows_alpha(alpha_stacked(0, 128)));
        }
        if background == Transparency::AlphaChannel {
            assert(t.allows_alpha(alpha_stacked(128, 0)));
        }
    }
}

/// Images side by side may hold every opacity that either of them may hold, and their
/// transparency is the narrowest that allows all of those: any transparency that allows every
/// opacity of both allows every opacity that theirs allows.
pub proof fn lemma_put_adjacent_is_narrowest_union(a: Transparency, b: Transparency, t: Transparency, alpha: u8)
    ensures
        a.allows_alpha(alpha) ==> a.spec_put_adjacent(b).allows_alpha(alpha),
        b.allows_alpha(alpha) ==> a.spec_put_adjacent(b).allows_alpha(alpha),
        (forall|x: u8| a.allows_alpha(x) || b.allows_alpha(x) ==> #[trigger] t.allows_alpha(x))
            && a.spec_put_adjacent(b).allows_alpha(alpha) ==> t.allows_alpha(alpha),
{
    if (forall|x: u8| a.allows_alpha(x) || b.allows_alpha(x) ==> #[trigger] t.allows_alpha(x)) {
        assert(t.allows_alpha(255));
        assert(t.allows_alpha(0) || (a == Transparency::Opaque && b == Transparency::Opaque));
        assert(t.allows_alpha(128) || (a != Transparency::AlphaChannel && b != Transparency::AlphaChannel));
    }
}

/// What is known of the colors an image may hold.
pub enum ColorDescription {
    /// The image holds only these colors (kept strictly sorted, never empty).
    SpecifiedColors(Vec<ComparableColor>),
    /// The image may hold any colors, with the given transparency.
    Rgb(Transparency),
}

/// The mathematical form of a [`ColorDescription`].
pub enum DescriptionModel {
    SpecifiedColors(Seq<ComparableColor>),
    Rgb(Transparency),
}

impl View for ColorDescription {
    type V = DescriptionModel;

    open spec fn view(&self) -> DescriptionModel {
        match self {
            ColorDescription::SpecifiedColors(colors) => DescriptionModel::SpecifiedColors(colors@),
            ColorDescription::Rgb(t) => DescriptionModel::Rgb(*t),
        }
    }
}

/// The transparency of a strictly sorted, nonempty list of colors.
pub open spec fn colors_transparency(s: Seq<ComparableColor>) -> Transparency {
    if has_semitransparency(s) {
        Transparency::AlphaChannel
    } else if s[0].alpha == 0 {
        Transparency::Binary
    } else {
        Transparency::Opaque
    }
}

/// The fully opaque colors of `s`, in order.
pub open spec fn opaque_only(s: Seq<ComparableColor>) -> Seq<ComparableColor>
    decreases s.len(),
{
    if s.len() == 0 {
        seq![]
    } else if s.last().alpha == 255 {
        opaque_only(s.drop_last()).push(s.last())
    } else {
        opaque_only(s.drop_last())
    }
}

/// Every foreground color seen over each background color in turn.
pub open spec fn under_all(backgrounds: Seq<ComparableColor>, foregrounds: Seq<ComparableColor>) -> Seq<
    ComparableColor,
>
    decreases backgrounds.len(),
{
    if backgrounds.len() == 0 {
        seq![]
    } else {
        under_all(backgrounds.drop_last(), foregrounds) + crate::color::spec_under(
            backgrounds.last(),
            foregrounds,
        )
    }
}

/// The first `n` colors of `s`, or all of them when there are fewer.
pub open spec fn truncated(s: Seq<ComparableColor>, n: nat) -> Seq<ComparableColor> {
    if s.len() <= n {
        s
    } else {
        s.take(n as int)
    }
}

impl DescriptionModel {
    /// Listed colors are strictly sorted and there is at least one.
    pub open spec fn wf(self) -> bool {
        match self {
            DescriptionModel::SpecifiedColors(s) => s.len() > 0 && strictly_sorted(s),
            DescriptionModel::Rgb(_) => true,
        }
    }

    pub open spec fn transparency(self) -> Transparency {
        match self {
            DescriptionModel::SpecifiedColors(s) => colors_transparency(s),
            DescriptionModel::Rgb(t) => t,
        }
    }

    /// The description of two images shown side by side.
    pub open spec fn put_adjacent(self, neighbor: DescriptionModel) -> DescriptionModel {
        match neighbor {
            DescriptionModel::Rgb(t) => DescriptionModel::Rgb(self.transparency().spec_put_adjacent(t)),
            DescriptionModel::SpecifiedColors(n) => match self {
                DescriptionModel::Rgb(t) => DescriptionModel::Rgb(
                    t.spec_put_adjacent(neighbor.transparency()),
                ),
                DescriptionModel::SpecifiedColors(s) => DescriptionModel::SpecifiedColors(
                    sort_dedup(s + n),
                ),
            },
        }
    }

    /// The description of this image laid over `background`, listing at most `max_colors`
    /// colors when a partly transparent image is laid over listed colors.
    pub open spec fn stack_on(self, background: DescriptionModel, max_colors: nat) -> DescriptionModel {
        match background {
            DescriptionModel::Rgb(t) => DescriptionModel::Rgb(self.transparency().spec_stack_on(t)),
            DescriptionModel::SpecifiedColors(bg) => match self {
                DescriptionModel::Rgb(t) => DescriptionModel::Rgb(
                    t.spec_stack_on(background.transparency()),
                ),
                DescriptionModel::SpecifiedColors(fg) => match colors_transparency(fg) {
                    Transparency::Opaque => DescriptionModel::SpecifiedColors(fg),
                    Transparency::Binary => DescriptionModel::SpecifiedColors(
                        truncated(sort_dedup(bg + opaque_only(fg)), max_colors),
                    ),
                    Transparency::AlphaChannel => DescriptionModel::SpecifiedColors(
                        sort_dedup(truncated(unique_colors(under_all(bg, fg)), max_colors)),
                    ),
                },
            },
        }
    }
}

/// An image laid over another, where either may hold any colors, may hold every opacity that
/// a pixel of the one laid over a pixel of the other can have; images side by side, where
/// either may hold any colors, may hold every opacity that either may.
pub proof fn lemma_described_stack_allows_stacked_alphas(
    foreground: DescriptionModel,
    background: DescriptionModel,
    max_colors: nat,
    f: u8,
    b: u8,
)
    requires
        foreground is Rgb || background is Rgb,
    ensures
        foreground.transparency().allows_alpha(f) && background.transparency().allows_alpha(b)
            ==> foreground.stack_on(background, max_colors).transparency().allows_alpha(alpha_stacked(b, f)),
        foreground.transparency().allows_alpha(f) || background.transparency().allows_alpha(f)
            ==> foreground.put_adjacent(background).transparency().allows_alpha(f),
{
    if foreground.transparency().allows_alpha(f) && background.transparency().allows_alpha(b) {
        lemma_stack_on_allows_stacked_alphas(foreground.transparency(), background.transparency(), f, b);
    }
    lemma_put_adjacent_is_narrowest_union(foreground.transparency(), background.transparency(), Transparency::Opaque, f);
}

proof fn lemma_opaque_only_len(s: Seq<ComparableColor>)
    ensures
        opaque_only(s).len() <= s.len(),
    decreases s.len(),
{
    if s.len() > 0 {
        lemma_opaque_only_len(s.drop_last());
    }
}

proof fn lemma_under_all_len(backgrounds: Seq<ComparableColor>, foregrounds: Seq<ComparableColor>)
    ensures
        under_all(backgrounds, foregrounds).len() == backgrounds.len() * foregrounds.len(),
    decreases backgrounds.len(),
{
    if backgrounds.len() > 0 {
        lemma_under_all_len(backgrounds.drop_last(), foregrounds);
        assert(crate::color::spec_under(backgrounds.last(), foregrounds).len() == foregrounds.len());
        assert((backgrounds.len() - 1) * foregrounds.len() + foregrounds.len() == backgrounds.len()
            * foregrounds.len()) by (nonlinear_arith);
    }
}

proof fn lemma_unique_nonempty(s: Seq<ComparableColor>)
    ensures
        s.len() > 0 ==> unique_colors(s).len() > 0,
        unique_colors(s).len() <= s.len(),
    decreases s.len(),
{
    if s.len() > 0 {
        lemma_unique_nonempty(s.drop_last());
    }
}

/// Laying described images over each other or side by side keeps descriptions well formed,
/// provided at least one color may be listed.
pub proof fn lemma_descriptions_stay_wf(a: DescriptionModel, b: DescriptionModel, max_colors: nat)
    requires
        a.wf(),
        b.wf(),
        max_colors >= 1,
    ensures
        a.stack_on(b, max_colors).wf(),
        a.put_adjacent(b).wf(),
{
    match (a, b) {
        (DescriptionModel::SpecifiedColors(fg), DescriptionModel::SpecifiedColors(bg)) => {
            lemma_sort_dedup(fg + bg);
            assert((fg + bg).len() > 0);
            lemma_sort_dedup(bg + opaque_only(fg));
            let sd = sort_dedup(bg + opaque_only(fg));
            if sd.len() > max_colors {
                lemma_take_sorted(sd, max_colors as int);
            }
            let u = unique_colors(under_all(bg, fg));
            lemma_under_all_len(bg, fg);
            assert(bg.len() * fg.len() > 0) by (nonlinear_arith)
                requires
                    bg.len() > 0,
                    fg.len() > 0,
            ;
            lemma_unique_nonempty(under_all(bg, fg));
            lemma_sort_dedup(truncated(u, max_colors));
        },
        _ => {},
    }
}

// ---------------------------------------------------------------------------------------------
// Stacked descriptions list the colors that stacked pixels show
// ---------------------------------------------------------------------------------------------

/// The color that a pixel of color `foreground` shows over a pixel of color `background`, as
/// listed colors are composed: over a fully transparent background, the foreground itself.
pub open spec fn shown_over(background: ComparableColor, foreground: ComparableColor) -> ComparableColor {
    if background.alpha == 0 {
        foreground
    } else {
        crate::color::spec_under_one(background, foreground)
    }
}

/// The length of the list of colors of an image described by `fg` laid over one described by
/// `bg` before the list is cut short; 0 when the upper image is opaque and nothing is cut.
pub open spec fn uncapped_stack_len(fg: Seq<ComparableColor>, bg: Seq<ComparableColor>) -> nat {
    match colors_transparency(fg) {
        Transparency::Opaque => 0,
        Transparency::Binary => sort_dedup(bg + opaque_only(fg)).len(),
        Transparency::AlphaChannel => unique_colors(under_all(bg, fg)).len(),
    }
}

/// In a listed, sorted description, opaque transparency means every color is fully opaque,
/// and binary transparency that every color is fully transparent or fully opaque.
pub proof fn lemma_listed_alphas(colors: Seq<ComparableColor>, i: int)
    requires
        colors.len() > 0,
        strictly_sorted(colors),
        0 <= i < colors.len(),
    ensures
        colors_transparency(colors) == Transparency::Opaque ==> colors[i].alpha == 255,
        colors_transparency(colors) == Transparency::Binary ==> colors[i].alpha == 0 || colors[i].alpha == 255,
        colors_transparency(colors) == Transparency::AlphaChannel ==> has_semitransparency(colors),
{
    if !has_semitransparency(colors) {
        assert(!(0 < colors[i].alpha < 255));
        if colors[0].alpha != 0 && i > 0 {
            lemma_sorted_alpha(colors, 0, i);
        }
    }
}

proof fn lemma_opaque_only_keeps(s: Seq<ComparableColor>, j: int)
    requires
        0 <= j < s.len(),
        s[j].alpha == 255,
    ensures
        opaque_only(s).contains(s[j]),
    decreases s.len(),
{
    let p = s.drop_last();
    if j < s.len() - 1 {
        lemma_opaque_only_keeps(p, j);
        assert(p[j] == s[j]);
        if s.last().alpha == 255 {
            let k = choose|k: int| 0 <= k < opaque_only(p).len() && opaque_only(p)[k] == s[j];
            assert(opaque_only(s)[k] == s[j]);
        }
    } else {
        assert(opaque_only(s).last() == s[j]);
    }
}

proof fn lemma_under_all_shows(bg: Seq<ComparableColor>, fg: Seq<ComparableColor>, i: int, j: int)
    requires
        0 <= i < bg.len(),
        0 <= j < fg.len(),
    ensures
        under_all(bg, fg).contains(shown_over(bg[i], fg[j])),
    decreases bg.len(),
{
    let p = bg.drop_last();
    let head = under_all(p, fg);
    let tail = crate::color::spec_under(bg.last(), fg);
    assert(under_all(bg, fg) == head + tail);
    if i < bg.len() - 1 {
        lemma_under_all_shows(p, fg, i, j);
        assert(p[i] == bg[i]);
        let k = choose|k: int| 0 <= k < head.len() && head[k] == shown_over(bg[i], fg[j]);
        assert((head + tail)[k] == head[k]);
    } else {
        assert(tail[j] == shown_over(bg[i], fg[j]));
        assert((head + tail)[head.len() + j] == tail[j]);
    }
}

proof fn lemma_unique_keeps_keys(s: Seq<ComparableColor>, k: int)
    ensures
        has_key(unique_colors(s), k) <==> has_key(s, k),
    decreases s.len(),
{
    if s.len() > 0 {
        let p = s.drop_last();
        let u = unique_colors(p);
        lemma_unique_keeps_keys(p, k);
        lemma_unique_keeps_keys(p, s.last().sort_key());
        if has_key(p, k) {
            let i = choose|i: int| 0 <= i < p.len() && #[trigger] p[i].sort_key() == k;
            assert(s[i].sort_key() == k);
        }
        if has_key(s, k) && !has_key(p, k) {
            let i = choose|i: int| 0 <= i < s.len() && #[trigger] s[i].sort_key() == k;
            if i < p.len() {
                assert(p[i].sort_key() == k);
            }
            assert(s.last().sort_key() == k);
        }
        if !has_key(u, s.last().sort_key()) {
            let w = u.push(s.last());
            if has_key(u, k) {
                let i = choose|i: int| 0 <= i < u.len() && #[trigger] u[i].sort_key() == k;
                assert(w[i].sort_key() == k);
            }
            if has_key(w, k) {
                let i = choose|i: int| 0 <= i < w.len() && #[trigger] w[i].sort_key() == k;
                if i < u.len() {
                    assert(u[i].sort_key() == k);
                }
            }
            assert(w[u.len() as int] == s.last());
        }
    }
}

/// An image described by listed colors laid over another: unless its list is cut short at
/// `max_colors`, the description of the result lists (a color the same as) every color that a
/// pixel of the upper image shows over a pixel of the lower one.
pub proof fn lemma_stacked_description_lists_shown_colors(
    fg: Seq<ComparableColor>,
    bg: Seq<ComparableColor>,
    max_colors: nat,
    i: int,
    j: int,
)
    requires
        DescriptionModel::SpecifiedColors(fg).wf(),
        DescriptionModel::SpecifiedColors(bg).wf(),
        0 <= i < bg.len(),
        0 <= j < fg.len(),
        uncapped_stack_len(fg, bg) <= max_colors,
    ensures
        DescriptionModel::SpecifiedColors(fg).stack_on(DescriptionModel::SpecifiedColors(bg), max_colors) matches DescriptionModel::SpecifiedColors(
            out,
        ) && has_key(out, shown_over(bg[i], fg[j]).sort_key()),
{
    let b = bg[i];
    let f = fg[j];
    let shown = shown_over(b, f);
    lemma_listed_alphas(fg, j);
    match colors_transparency(fg) {
        Transparency::Opaque => {
            assert(shown == f);
            assert(fg[j].sort_key() == shown.sort_key());
        },
        Transparency::Binary => {
            let joined = bg + opaque_only(fg);
            lemma_sort_dedup(joined);
            if f.alpha == 0 {
                assert(shown.sort_key() == b.sort_key());
                assert(joined[i] == b);
            } else {
                lemma_opaque_only_keeps(fg, j);
                assert(shown == f);
                let k = choose|k: int| 0 <= k < opaque_only(fg).len() && opaque_only(fg)[k] == f;
                assert(joined[bg.len() + k] == f);
            }
            assert(has_key(joined, shown.sort_key()));
        },
        Transparency::AlphaChannel => {
            let all = under_all(bg, fg);
            let u = unique_colors(all);
            lemma_under_all_shows(bg, fg, i, j);
            let k = choose|k: int| 0 <= k < all.len() && all[k] == shown;
            assert(has_key(all, shown.sort_key()));
            lemma_unique_keeps_keys(all, shown.sort_key());
            assert(truncated(u, max_colors) == u);
            lemma_sort_dedup(u);
        },
    }
}

/// Two images described by listed colors, side by side: the description of the pair lists (a
/// color the same as) every color of either image.
pub proof fn lemma_adjacent_description_lists_both(a: Seq<ComparableColor>, b: Seq<ComparableColor>, c: ComparableColor)
    requires
        DescriptionModel::SpecifiedColors(a).wf(),
        DescriptionModel::SpecifiedColors(b).wf(),
        a.contains(c) || b.contains(c),
    ensures
        DescriptionModel::SpecifiedColors(a).put_adjacent(DescriptionModel::SpecifiedColors(b)) matches DescriptionModel::SpecifiedColors(
            out,
        ) && has_key(out, c.sort_key()),
{
    let joined = a + b;
    lemma_sort_dedup(joined);
    if a.contains(c) {
        let k = choose|k: int| 0 <= k < a.len() && a[k] == c;
        assert(joined[k] == c);
    } else {
        let k = choose|k: int| 0 <= k < b.len() && b[k] == c;
        assert(joined[a.len() + k] == c);
    }
    assert(has_key(joined, c.sort_key()));
}

// ---------------------------------------------------------------------------------------------
// Side-by-side descriptions: order and transparency
// ---------------------------------------------------------------------------------------------

proof fn lemma_concat_keys(a: Seq<ComparableColor>, b: Seq<ComparableColor>, k: int)
    ensures
        has_key(a + b, k) <==> (has_key(a, k) || has_key(b, k)),
{
    if has_key(a, k) {
        let i = choose|i: int| 0 <= i < a.len() && #[trigger] a[i].sort_key() == k;
        assert((a + b)[i] == a[i]);
    }
    if has_key(b, k) {
        let i = choose|i: int| 0 <= i < b.len() && #[trigger] b[i].sort_key() == k;
        assert((a + b)[a.len() + i] == b[i]);
    }
    if has_key(a + b, k) {
        let i = choose|i: int| 0 <= i < (a + b).len() && #[trigger] (a + b)[i].sort_key() == k;
        if i < a.len() {
            assert(a[i] == (a + b)[i]);
        } else {
            assert(b[i - a.len()] == (a + b)[i]);
        }
    }
}

proof fn lemma_sorted_drop_first(x: Seq<ComparableColor>)
    requires
        x.len() > 0,
        strictly_sorted(x),
    ensures
        strictly_sorted(x.drop_first()),
        forall|q: int| #[trigger] has_key(x.drop_first(), q) <==> (has_key(x, q) && q != x[0].sort_key()),
{
    let x1 = x.drop_first();
    assert forall|a: int, b: int| 0 <= a < b < x1.len() implies #[trigger] x1[a].sort_key()
        < #[trigger] x1[b].sort_key() by {
        assert(x1[a] == x[a + 1] && x1[b] == x[b + 1]);
    }
    assert forall|q: int| #[trigger] has_key(x1, q) <==> (has_key(x, q) && q != x[0].sort_key()) by {
        if has_key(x1, q) {
            let i = choose|i: int| 0 <= i < x1.len() && #[trigger] x1[i].sort_key() == q;
            assert(x[i + 1].sort_key() == q);
            assert(x[0].sort_key() < x[i + 1].sort_key());
        }
        if has_key(x, q) && q != x[0].sort_key() {
            let m = choose|m: int| 0 <= m < x.len() && #[trigger] x[m].sort_key() == q;
            assert(x1[m - 1] == x[m]);
        }
    }
}

proof fn lemma_sorted_same_first_key(x: Seq<ComparableColor>, y: Seq<ComparableColor>)
    requires
        x.len() > 0,
        y.len() > 0,
        strictly_sorted(x),
        strictly_sorted(y),
        has_key(y, x[0].sort_key()),
        has_key(x, y[0].sort_key()),
    ensures
        x[0].sort_key() == y[0].sort_key(),
{
    let j = choose|j: int| 0 <= j < y.len() && #[trigger] y[j].sort_key() == x[0].sort_key();
    let k = choose|k: int| 0 <= k < x.len() && #[trigger] x[k].sort_key() == y[0].sort_key();
    if j > 0 {
        assert(y[0].sort_key() < y[j].sort_key());
        if k > 0 {
            assert(x[0].sort_key() < x[k].sort_key());
        }
    }
}

proof fn lemma_sorted_same_keys(x: Seq<ComparableColor>, y: Seq<ComparableColor>)
    requires
        strictly_sorted(x),
        strictly_sorted(y),
        forall|k: int| #[trigger] has_key(x, k) <==> has_key(y, k),
    ensures
        x.len() == y.len(),
        forall|i: int| 0 <= i < x.len() ==> #[trigger] x[i].sort_key() == y[i].sort_key(),
    decreases x.len(),
{
    if x.len() == 0 {
        if y.len() > 0 {
            assert(has_key(y, y[0].sort_key()));
            assert(has_key(x, y[0].sort_key()));
        }
    } else if y.len() == 0 {
        assert(has_key(x, x[0].sort_key()));
        assert(has_key(y, x[0].sort_key()));
    } else {
        assert(has_key(x, x[0].sort_key()));
        assert(has_key(y, y[0].sort_key()));
        assert(has_key(y, x[0].sort_key()));
        assert(has_key(x, y[0].sort_key()));
        lemma_sorted_same_first_key(x, y);
        lemma_sorted_drop_first(x);
        lemma_sorted_drop_first(y);
        let x1 = x.drop_first();
        let y1 = y.drop_first();
        assert forall|q: int| #[trigger] has_key(x1, q) <==> has_key(y1, q) by {
            assert(has_key(x, q) <==> has_key(y, q));
        }
        lemma_sorted_same_keys(x1, y1);
        assert forall|i: int| 0 <= i < x.len() implies #[trigger] x[i].sort_key() == y[i].sort_key() by {
            if i > 0 {
                assert(x1[i - 1] == x[i] && y1[i - 1] == y[i]);
            }
        }
    }
}

/// Two images side by side are described alike whichever is on the left: as listed colors,
/// the two lists have the same length and a color the same as the other's at each place; else
/// both allow any color with the same transparency.
pub proof fn lemma_adjacent_descriptions_commute(a: DescriptionModel, b: DescriptionModel)
    requires
        a.wf(),
        b.wf(),
    ensures
        match (a.put_adjacent(b), b.put_adjacent(a)) {
            (DescriptionModel::SpecifiedColors(x), DescriptionModel::SpecifiedColors(y)) => x.len() == y.len()
                && forall|i: int| 0 <= i < x.len() ==> #[trigger] x[i].same_as(y[i]),
            (DescriptionModel::Rgb(t), DescriptionModel::Rgb(u)) => t == u,
            _ => false,
        },
{
    lemma_transparency_laws(a.transparency(), b.transparency(), a.transparency());
    match (a, b) {
        (DescriptionModel::SpecifiedColors(sa), DescriptionModel::SpecifiedColors(sb)) => {
            let x = sort_dedup(sa + sb);
            let y = sort_dedup(sb + sa);
            lemma_sort_dedup(sa + sb);
            lemma_sort_dedup(sb + sa);
            assert forall|k: int| #[trigger] has_key(x, k) <==> has_key(y, k) by {
                lemma_concat_keys(sa, sb, k);
                lemma_concat_keys(sb, sa, k);
            }
            lemma_sorted_same_keys(x, y);
            assert forall|i: int| 0 <= i < x.len() implies #[trigger] x[i].same_as(y[i]) by {
                crate::color_order::lemma_same_as_is_key_equality(x[i], y[i], x[i]);
            }
        },
        _ => {},
    }
}

proof fn lemma_sorted_transparent_first(s: Seq<ComparableColor>)
    requires
        s.len() > 0,
        strictly_sorted(s),
    ensures
        s[0].alpha == 0 <==> has_key(s, 0),
{
    if has_key(s, 0) {
        let j = choose|j: int| 0 <= j < s.len() && #[trigger] s[j].sort_key() == 0;
        if j > 0 {
            assert(s[0].sort_key() < s[j].sort_key());
            assert(s[0].sort_key() >= 0) by (nonlinear_arith);
        }
    }
    if s[0].alpha == 0 {
        assert(s[0].sort_key() == 0);
    }
}

proof fn lemma_semitransparency_by_keys(s: Seq<ComparableColor>, t: Seq<ComparableColor>)
    requires
        forall|k: int| #[trigger] has_key(s, k) ==> has_key(t, k),
    ensures
        has_semitransparency(s) ==> has_semitransparency(t),
{
    if has_semitransparency(s) {
        let i = choose|i: int| 0 <= i < s.len() && 0 < #[trigger] s[i].alpha < 255;
        assert(has_key(s, s[i].sort_key()));
        assert(has_key(t, s[i].sort_key()));
        let j = choose|j: int| 0 <= j < t.len() && #[trigger] t[j].sort_key() == s[i].sort_key();
        crate::color_order::lemma_same_as_is_key_equality(s[i], t[j], s[i]);
        assert(0 < t[j].alpha < 255);
    }
}

/// The transparency of two images side by side follows from theirs as
/// [`Transparency::spec_put_adjacent`] says.
pub proof fn lemma_adjacent_transparency(a: DescriptionModel, b: DescriptionModel)
    requires
        a.wf(),
        b.wf(),
    ensures
        a.put_adjacent(b).transparency() == a.transparency().spec_put_adjacent(b.transparency()),
{
    lemma_transparency_laws(a.transparency(), b.transparency(), a.transparency());
    match (a, b) {
        (DescriptionModel::SpecifiedColors(sa), DescriptionModel::SpecifiedColors(sb)) => {
            let j = sa + sb;
            let x = sort_dedup(j);
            lemma_sort_dedup(j);
            assert forall|k: int| #[trigger] has_key(x, k) <==> (has_key(sa, k) || has_key(sb, k)) by {
                lemma_concat_keys(sa, sb, k);
            }
            lemma_semitransparency_by_keys(sa, x);
            lemma_semitransparency_by_keys(sb, x);
            if has_semitransparency(x) {
                let i = choose|i: int| 0 <= i < x.len() && 0 < #[trigger] x[i].alpha < 255;
                assert(has_key(x, x[i].sort_key()));
                if has_key(sa, x[i].sort_key()) {
                    let m = choose|m: int| 0 <= m < sa.len() && #[trigger] sa[m].sort_key() == x[i].sort_key();
                    crate::color_order::lemma_same_as_is_key_equality(x[i], sa[m], x[i]);
                    assert(0 < sa[m].alpha < 255);
                } else {
                    let m = choose|m: int| 0 <= m < sb.len() && #[trigger] sb[m].sort_key() == x[i].sort_key();
                    crate::color_order::lemma_same_as_is_key_equality(x[i], sb[m], x[i]);
                    assert(0 < sb[m].alpha < 255);
                }
            }
            lemma_sorted_transparent_first(sa);
            lemma_sorted_transparent_first(sb);
            lemma_sorted_transparent_first(x);
        },
        _ => {},
    }
}

/// The alpha values that colors of `s` have.
pub open spec fn alphas_of(s: Seq<ComparableColor>) -> Set<u8> {
    Set::new(|a: u8| has_alpha(s, a))
}

/// The alpha values that pixels of a described image may have.
pub open spec fn description_alphas(d: DescriptionModel) -> Set<u8> {
    match d.transparency() {
        Transparency::AlphaChannel => match d {
            DescriptionModel::Rgb(_) => Set::new(|a: u8| true),
            DescriptionModel::SpecifiedColors(s) => alphas_of(s),
        },
        Transparency::Binary => set![0u8, 255u8],
        Transparency::Opaque => set![255u8],
    }
}

/// The opacities of a uniform layer of each opacity in `foreground` laid over each opacity in
/// `background`.
pub open spec fn stacked_alphas(background: Set<u8>, foreground: Set<u8>) -> Set<u8> {
    Set::new(
        |z: u8|
            exists|b: u8, f: u8|
                background.contains(b) && foreground.contains(f) && z == #[trigger] alpha_stacked(b, f),
    )
}

/// The opacities in `alphas` multiplied by `rhs`.
pub open spec fn multiplied_alphas(alphas: Set<u8>, rhs: u8) -> Set<u8> {
    if rhs == 0 {
        set![0u8]
    } else if rhs == 255 {
        alphas
    } else {
        Set::new(|z: u8| exists|a: u8| alphas.contains(a) && z == #[trigger] alpha_product(rhs, a))
    }
}

/// Every opacity that stacking one of `foreground` over one of `background` gives.
pub fn stack_alpha_vecs(background: &U8BitSet, foreground: &U8BitSet) -> (r: U8BitSet)
    requires
        background.wf(),
        foreground.wf(),
    ensures
        r.wf(),
        r@ == stacked_alphas(background@, foreground@),
{
    let bg = background.to_vec();
    let fg = foreground.to_vec();
    let mut out = U8BitSet::new();
    let mut i: usize = 0;
    while i < bg.len()
        invariant
            out.wf(),
            i <= bg@.len(),
            bg@.to_set() == background@,
            fg@.to_set() == foreground@,
            forall|z: u8|
                #[trigger] out@.contains(z) <==> exists|b: u8, f: u8|
                    bg@.subrange(0, i as int).contains(b) && fg@.contains(f) && z == #[trigger] alpha_stacked(b, f),
        decreases bg@.len() - i,
    {
        let mut j: usize = 0;
        while j < fg.len()
            invariant
                out.wf(),
                i < bg@.len(),
                j <= fg@.len(),
                forall|z: u8|
                    #[trigger] out@.contains(z) <==> (exists|b: u8, f: u8|
                        bg@.subrange(0, i as int).contains(b) && fg@.contains(f) && z == #[trigger] alpha_stacked(b, f))
                        || (exists|f: u8| fg@.subrange(0, j as int).contains(f) && z == #[trigger] alpha_stacked(bg@[i as int], f)),
            decreases fg@.len() - j,
        {
            let z = alpha_stack(bg[i], fg[j]);
            let ghost before = out@;
            out.insert(z);
            assert forall|w: u8|
                #[trigger] out@.contains(w) <==> (exists|b: u8, f: u8|
                    bg@.subrange(0, i as int).contains(b) && fg@.contains(f) && w == #[trigger] alpha_stacked(b, f))
                    || (exists|f: u8| fg@.subrange(0, j + 1).contains(f) && w == #[trigger] alpha_stacked(bg@[i as int], f)) by {
                if w == z {
                    assert(fg@.subrange(0, j + 1)[j as int] == fg@[j as int]);
                    assert(fg@.subrange(0, j + 1).contains(fg@[j as int]));
                }
                if exists|f: u8| fg@.subrange(0, j + 1).contains(f) && w == #[trigger] alpha_stacked(bg@[i as int], f) {
                    let f = choose|f: u8| fg@.subrange(0, j + 1).contains(f) && w == #[trigger] alpha_stacked(bg@[i as int], f);
                    let k = choose|k: int| 0 <= k < j + 1 && #[trigger] fg@.subrange(0, j + 1)[k] == f;
                    if k < j {
                        assert(fg@.subrange(0, j as int)[k] == f);
                        assert(fg@.subrange(0, j as int).contains(f));
                    }
                }
            }
            j = j + 1;
        }
        assert forall|z: u8|
            #[trigger] out@.contains(z) <==> exists|b: u8, f: u8|
                bg@.subrange(0, i + 1).contains(b) && fg@.contains(f) && z == #[trigger] alpha_stacked(b, f) by {
            assert(fg@.subrange(0, fg@.len() as int) =~= fg@);
            if exists|b: u8, f: u8| bg@.subrange(0, i as int).contains(b) && fg@.contains(f) && z == #[trigger] alpha_stacked(b, f) {
                let (b, f) = choose|b: u8, f: u8| bg@.subrange(0, i as int).contains(b) && fg@.contains(f) && z == #[trigger] alpha_stacked(b, f);
                let k = choose|k: int| 0 <= k < i && #[trigger] bg@.subrange(0, i as int)[k] == b;
                assert(bg@.subrange(0, i + 1)[k] == b);
                assert(bg@.subrange(0, i + 1).contains(b));
            }
            if exists|f: u8| fg@.contains(f) && z == #[trigger] alpha_stacked(bg@[i as int], f) {
                let f = choose|f: u8| fg@.contains(f) && z == #[trigger] alpha_stacked(bg@[i as int], f);
                assert(bg@.subrange(0, i + 1)[i as int] == bg@[i as int]);
                assert(bg@.subrange(0, i + 1).contains(bg@[i as int]));
            }
            if exists|b: u8, f: u8| bg@.subrange(0, i + 1).contains(b) && fg@.contains(f) && z == #[trigger] alpha_stacked(b, f) {
                let (b, f) = choose|b: u8, f: u8| bg@.subrange(0, i + 1).contains(b) && fg@.contains(f) && z == #[trigger] alpha_stacked(b, f);
                let k = choose|k: int| 0 <= k < i + 1 && #[trigger] bg@.subrange(0, i + 1)[k] == b;
                if k < i {
                    assert(bg@.subrange(0, i as int)[k] == b);
                    assert(bg@.subrange(0, i as int).contains(b));
                } else {
                    assert(b == bg@[i as int]);
                }
            }
        }
        i = i + 1;
    }
    assert(bg@.subrange(0, bg@.len() as int) =~= bg@);
    assert(out@ =~= stacked_alphas(background@, foreground@)) by {
        assert forall|z: u8| out@.contains(z) <==> stacked_alphas(background@, foreground@).contains(z) by {
            if out@.contains(z) {
                let (b, f) = choose|b: u8, f: u8| bg@.contains(b) && fg@.contains(f) && z == #[trigger] alpha_stacked(b, f);
                assert(bg@.to_set().contains(b));
                assert(fg@.to_set().contains(f));
            }
            if stacked_alphas(background@, foreground@).contains(z) {
                let (b, f) = choose|b: u8, f: u8| background@.contains(b) && foreground@.contains(f) && z == #[trigger] alpha_stacked(b, f);
                assert(bg@.to_set().contains(b));
                assert(fg@.to_set().contains(f));
            }
        }
    }
    out
}

/// Every opacity of `alphas` multiplied by `rhs`; multiplying by zero gives only zero.
pub fn multiply_alpha_vec(alphas: U8BitSet, rhs: u8) -> (r: U8BitSet)
    requires
        alphas.wf(),
    ensures
        r.wf(),
        r@ == multiplied_alphas(alphas@, rhs),
{
    if rhs == 0 {
        let mut out = U8BitSet::new();
        out.insert(0);
        assert(out@ =~= set![0u8]);
        out
    } else if rhs == 255 {
        alphas
    } else {
        let values = alphas.to_vec();
        let mut out = U8BitSet::new();
        let mut i: usize = 0;
        while i < values.len()
            invariant
                out.wf(),
                i <= values@.len(),
                values@.to_set() == alphas@,
                forall|z: u8|
                    #[trigger] out@.contains(z) <==> exists|a: u8|
                        values@.subrange(0, i as int).contains(a) && z == #[trigger] alpha_product(rhs, a),
            decreases values@.len() - i,
        {
            let z = alpha_multiply(rhs, values[i]);
            out.insert(z);
            assert forall|w: u8|
                #[trigger] out@.contains(w) <==> exists|a: u8|
                    values@.subrange(0, i + 1).contains(a) && w == #[trigger] alpha_product(rhs, a) by {
                if w == z {
                    assert(values@.subrange(0, i + 1)[i as int] == values@[i as int]);
                    assert(values@.subrange(0, i + 1).contains(values@[i as int]));
                }
                if exists|a: u8| values@.subrange(0, i as int).contains(a) && w == #[trigger] alpha_product(rhs, a) {
                    let a = choose|a: u8| values@.subrange(0, i as int).contains(a) && w == #[trigger] alpha_product(rhs, a);
                    let k = choose|k: int| 0 <= k < i && #[trigger] values@.subrange(0, i as int)[k] == a;
                    assert(values@.subrange(0, i + 1)[k] == a);
                    assert(values@.subrange(0, i + 1).contains(a));
                }
                if exists|a: u8| values@.subrange(0, i + 1).contains(a) && w == #[trigger] alpha_product(rhs, a) {
                    let a = choose|a: u8| values@.subrange(0, i + 1).contains(a) && w == #[trigger] alpha_product(rhs, a);
                    let k = choose|k: int| 0 <= k < i + 1 && #[trigger] values@.subrange(0, i + 1)[k] == a;
                    if k < i {
                        assert(values@.subrange(0, i as int)[k] == a);
                        assert(values@.subrange(0, i as int).contains(a));
                    }
                }
            }
            i = i + 1;
        }
        assert(values@.subrange(0, values@.len() as int) =~= values@);
        assert(out@ =~= multiplied_alphas(alphas@, rhs)) by {
            assert forall|z: u8| out@.contains(z) <==> multiplied_alphas(alphas@, rhs).contains(z) by {
                if out@.contains(z) {
                    let a = choose|a: u8| values@.contains(a) && z == #[trigger] alpha_product(rhs, a);
                    assert(values@.to_set().contains(a));
                }
                if multiplied_alphas(alphas@, rhs).contains(z) {
                    let a = choose|a: u8| alphas@.contains(a) && z == #[trigger] alpha_product(rhs, a);
                    assert(values@.to_set().contains(a));
                }
            }
        }
        out
    }
}


/// A copy of a list of colors.
pub fn copy_colors(colors: &[ComparableColor]) -> (out: Vec<ComparableColor>)
    ensures
        out@ == colors@,
{
    let mut out: Vec<ComparableColor> = Vec::new();
    let mut i: usize = 0;
    while i < colors.len()
        invariant
            i <= colors.len(),
            out@ == colors@.subrange(0, i as int),
        decreases colors.len() - i,
    {
        out.push(colors[i]);
        assert(colors@.subrange(0, i + 1) =~= colors@.subrange(0, i as int).push(colors@[i as int]));
        i = i + 1;
    }
    assert(colors@.subrange(0, colors.len() as int) =~= colors@);
    out
}

/// The fully opaque colors of a list, in order.
fn opaque_colors(colors: &[ComparableColor]) -> (out: Vec<ComparableColor>)
    ensures
        out@ == opaque_only(colors@),
{
    let mut out: Vec<ComparableColor> = Vec::new();
    let mut i: usize = 0;
    while i < colors.len()
        invariant
            i <= colors.len(),
            out@ == opaque_only(colors@.subrange(0, i as int)),
        decreases colors.len() - i,
    {
        assert(colors@.subrange(0, i + 1).drop_last() =~= colors@.subrange(0, i as int));
        if colors[i].alpha == 255 {
            out.push(colors[i]);
        }
        i = i + 1;
    }
    assert(colors@.subrange(0, colors.len() as int) =~= colors@);
    out
}

/// Every foreground color seen over each background color in turn.
fn colors_under_all(backgrounds: &[ComparableColor], foregrounds: &[ComparableColor]) -> (out: Vec<
    ComparableColor,
>)
    ensures
        out@ == under_all(backgrounds@, foregrounds@),
{
    let mut out: Vec<ComparableColor> = Vec::new();
    let mut i: usize = 0;
    while i < backgrounds.len()
        invariant
            i <= backgrounds.len(),
            out@ == under_all(backgrounds@.subrange(0, i as int), foregrounds@),
        decreases backgrounds.len() - i,
    {
        assert(backgrounds@.subrange(0, i + 1).drop_last() =~= backgrounds@.subrange(0, i as int));
        let mut layer = backgrounds[i].under(foregrounds);
        out.append(&mut layer);
        i = i + 1;
    }
    assert(backgrounds@.subrange(0, backgrounds.len() as int) =~= backgrounds@);
    out
}

/// Keeps the first `n` colors (all of them when there are fewer).
fn truncate_colors(v: &mut Vec<ComparableColor>, n: usize)
    ensures
        final(v)@ == truncated(old(v)@, n as nat),
{
    if v.len() > n {
        v.truncate(n);
        assert(v@ =~= old(v)@.take(n as int));
    }
}

impl ColorDescription {
    /// How much transparency the described image may hold.
    pub fn transparency(&self) -> (r: Transparency)
        requires
            self@.wf(),
        ensures
            r == self@.transparency(),
    {
        match self {
            ColorDescription::SpecifiedColors(colors) => {
                if contains_semitransparency(colors.as_slice()) {
                    Transparency::AlphaChannel
                } else if colors[0].alpha == 0 {
                    Transparency::Binary
                } else {
                    Transparency::Opaque
                }
            },
            ColorDescription::Rgb(transparency) => *transparency,
        }
    }

    /// A copy of the description.
    pub fn duplicate(&self) -> (r: ColorDescription)
        ensures
            r@ == self@,
    {
        match self {
            ColorDescription::SpecifiedColors(colors) => ColorDescription::SpecifiedColors(
                copy_colors(colors.as_slice()),
            ),
            ColorDescription::Rgb(transparency) => ColorDescription::Rgb(*transparency),
        }
    }

    /// The description of this image and `neighbor` shown side by side: listed colors are
    /// merged, anything else keeps only the transparency.
    pub fn put_adjacent(&self, neighbor: &ColorDescription) -> (r: ColorDescription)
        requires
            self@.wf(),
            neighbor@.wf(),
        ensures
            r@ == self@.put_adjacent(neighbor@),
            r@.wf(),
    {
        proof {
            lemma_descriptions_stay_wf(self@, neighbor@, 1);
        }
        match neighbor {
            ColorDescription::Rgb(transparency) => ColorDescription::Rgb(
                self.transparency().put_adjacent(transparency),
            ),
            ColorDescription::SpecifiedColors(neighbor_colors) => match self {
                ColorDescription::Rgb(transparency) => ColorDescription::Rgb(
                    transparency.put_adjacent(&neighbor.transparency()),
                ),
                ColorDescription::SpecifiedColors(self_colors) => {
                    let mut combined = copy_colors(self_colors.as_slice());
                    let mut rest = copy_colors(neighbor_colors.as_slice());
                    combined.append(&mut rest);
                    ColorDescription::SpecifiedColors(sort_dedup_colors(combined.as_slice()))
                },
            },
        }
    }

    /// The description of this image laid over `background`. Over listed colors, an opaque
    /// image keeps its colors; one with binary transparency adds its opaque colors to the
    /// background's and keeps the first `max_colors` of them in order; a partly transparent
    /// one gives every one of its colors over every background color, the first `max_colors`
    /// distinct ones, sorted.
    pub fn stack_on(&self, background: &ColorDescription, max_colors: usize) -> (r: ColorDescription)
        requires
            self@.wf(),
            background@.wf(),
        ensures
            r@ == self@.stack_on(background@, max_colors as nat),
            max_colors >= 1 ==> r@.wf(),
    {
        proof {
            if max_colors >= 1 {
                lemma_descriptions_stay_wf(self@, background@, max_colors as nat);
            }
        }
        match background {
            ColorDescription::Rgb(transparency) => ColorDescription::Rgb(
                self.transparency().stack_on(transparency),
            ),
            ColorDescription::SpecifiedColors(bg_colors) => match self {
                ColorDescription::Rgb(transparency) => ColorDescription::Rgb(
                    transparency.stack_on(&background.transparency()),
                ),
                ColorDescription::SpecifiedColors(fg_colors) => {
                    match self.transparency() {
                        Transparency::Opaque => ColorDescription::SpecifiedColors(
                            copy_colors(fg_colors.as_slice()),
                        ),
                        Transparency::Binary => {
                            let mut combined = copy_colors(bg_colors.as_slice());
                            let mut opaque = opaque_colors(fg_colors.as_slice());
                            combined.append(&mut opaque);
                            let mut sorted = sort_dedup_colors(combined.as_slice());
                            truncate_colors(&mut sorted, max_colors);
                            ColorDescription::SpecifiedColors(sorted)
                        },
                        Transparency::AlphaChannel => {
                            let all = colors_under_all(bg_colors.as_slice(), fg_colors.as_slice());
                            let mut unique = unique_color_list(all.as_slice());
                            truncate_colors(&mut unique, max_colors);
                            ColorDescription::SpecifiedColors(sort_dedup_colors(unique.as_slice()))
                        },
                    }
                },
            },
        }
    }

    /// Whether the description lists more than `max_colors` colors, so that the colors the
    /// image really holds have to be found in the rendered image (see [`Self::capped`]).
    pub fn lists_more_than(&self, max_colors: usize) -> (r: bool)
        ensures
            r == (self@ matches DescriptionModel::SpecifiedColors(s) && s.len() > max_colors),
    {
        match self {
            ColorDescription::SpecifiedColors(colors) => colors.len() > max_colors,
            ColorDescription::Rgb(_) => false,
        }
    }

    /// When the description lists more than `max_colors` colors, the listed colors are
    /// replaced by the distinct colors the image was found to hold, sorted; otherwise the
    /// description is kept.
    pub fn capped(self, max_colors: usize, image_colors: &[ComparableColor]) -> (r: ColorDescription)
        ensures
            r@ == (match self@ {
                DescriptionModel::SpecifiedColors(s) => if s.len() > max_colors {
                    DescriptionModel::SpecifiedColors(sort_dedup(image_colors@))
                } else {
                    self@
                },
                DescriptionModel::Rgb(_) => self@,
            }),
    {
        match self {
            ColorDescription::SpecifiedColors(colors) => {
                if colors.len() > max_colors {
                    ColorDescription::SpecifiedColors(sort_dedup_colors(image_colors))
                } else {
                    ColorDescription::SpecifiedColors(colors)
                }
            },
            ColorDescription::Rgb(transparency) => ColorDescription::Rgb(transparency),
        }
    }

    /// The alpha values that pixels of the described image may have.
    pub fn possible_alpha_values(&self) -> (r: U8BitSet)
        requires
            self@.wf(),
        ensures
            r.wf(),
            r@ == description_alphas(self@),
    {
        match self.transparency() {
            Transparency::AlphaChannel => match self {
                ColorDescription::Rgb(_) => U8BitSet::all_u8s(),
                ColorDescription::SpecifiedColors(colors) => {
                    let mut out = U8BitSet::new();
                    if colors.len() <= 256 {
                        let mut i: usize = 0;
                        while i < colors.len()
                            invariant
                                out.wf(),
                                i <= colors@.len(),
                                forall|a: u8| #[trigger] out@.contains(a) <==> has_alpha(colors@.subrange(0, i as int), a),
                            decreases colors@.len() - i,
                        {
                            out.insert(colors[i].alpha);
                            assert forall|a: u8| #[trigger] out@.contains(a) <==> has_alpha(colors@.subrange(0, i + 1), a) by {
                                let pre = colors@.subrange(0, i as int);
                                let post = colors@.subrange(0, i + 1);
                                if has_alpha(pre, a) {
                                    let k = choose|k: int| 0 <= k < pre.len() && #[trigger] pre[k].alpha == a;
                                    assert(post[k].alpha == a);
                                }
                                if has_alpha(post, a) {
                                    let k = choose|k: int| 0 <= k < post.len() && #[trigger] post[k].alpha == a;
                                    if k < i {
                                        assert(pre[k].alpha == a);
                                    }
                                }
                                if a == colors@[i as int].alpha {
                                    assert(post[i as int].alpha == a);
                                }
                            }
                            i = i + 1;
                        }
                        assert(colors@.subrange(0, colors@.len() as int) =~= colors@);
                    } else {
                        let mut x: u16 = 0;
                        while x < 256
                            invariant
                                out.wf(),
                                x <= 256,
                                colors@.len() > 0,
                                strictly_sorted(colors@),
                                forall|a: u8| #[trigger] out@.contains(a) <==> (a < x && has_alpha(colors@, a)),
                            decreases 256 - x,
                        {
                            if contains_alpha(colors.as_slice(), x as u8) {
                                out.insert(x as u8);
                            }
                            x = x + 1;
                        }
                    }
                    assert(out@ =~= alphas_of(colors@));
                    out
                },
            },
            Transparency::Binary => {
                let mut out = U8BitSet::new();
                out.insert(0);
                out.insert(255);
                assert(out@ =~= set![0u8, 255u8]);
                out
            },
            Transparency::Opaque => {
                let mut out = U8BitSet::new();
                out.insert(255);
                assert(out@ =~= set![255u8]);
                out
            },
        }
    }
}

/// The color `color` painted with opacity `alpha` applied to it.
pub open spec fn tinted(color: ComparableColor, alpha: u8) -> ComparableColor {
    ComparableColor {
        red: color.red,
        green: color.green,
        blue: color.blue,
        alpha: alpha_product(color.alpha, alpha),
    }
}

proof fn lemma_alpha_product_monotonic(x: u8, a: u8, b: u8)
    requires
        a <= b,
    ensures
        alpha_product(x, a) <= alpha_product(x, b),
{
    assert((x * a + 128) / 255 <= (x * b + 128) / 255) by (nonlinear_arith)
        requires
            0 <= x <= 255,
            0 <= a <= b,
    ;
    assert((x * b + 128) / 255 <= 255) by (nonlinear_arith)
        requires
            0 <= x <= 255,
            0 <= b <= 255,
    ;
    assert(0 <= (x * a + 128) / 255) by (nonlinear_arith)
        requires
            0 <= x <= 255,
            0 <= a <= 255,
    ;
}

/// The colors that painting `color` through an alpha channel whose pixels have the opacities
/// `alphas` may give: one for each opacity, in the color order, each listed once.
pub fn paint_alpha_colors(color: ComparableColor, alphas: &U8BitSet) -> (out: Vec<ComparableColor>)
    requires
        alphas.wf(),
    ensures
        strictly_sorted(out@),
        forall|c: ComparableColor| #[trigger] out@.contains(c) <==> exists|a: u8| alphas@.contains(a) && c == #[trigger] tinted(color, a),
        alphas@.len() > 0 ==> out@.len() > 0,
{
    let values = alphas.to_vec();
    let mut out: Vec<ComparableColor> = Vec::new();
    let mut i: usize = 0;
    while i < values.len()
        invariant
            i <= values@.len(),
            forall|p: int, q: int| 0 <= p < q < values@.len() ==> values@[p] < values@[q],
            values@.to_set() == alphas@,
            strictly_sorted(out@),
            i > 0 ==> out@.len() > 0 && out@.last() == tinted(color, values@[i - 1]),
            i == 0 ==> out@.len() == 0,
            forall|c: ComparableColor| #[trigger] out@.contains(c) <==> exists|k: int| 0 <= k < i && c == #[trigger] tinted(color, values@[k]),
        decreases values@.len() - i,
    {
        let alpha = alpha_multiply(color.alpha, values[i]);
        let next = ComparableColor { red: color.red, green: color.green, blue: color.blue, alpha };
        let ghost before = out@;
        if out.len() == 0 || out[out.len() - 1].alpha != alpha {
            proof {
                if i > 0 {
                    lemma_alpha_product_monotonic(color.alpha, values@[i - 1], values@[i as int]);
                    assert(before.last().alpha < next.alpha);
                    assert(before.last().sort_key() < next.sort_key());
                    assert forall|p: int, q: int| 0 <= p < q < before.len() + 1 implies #[trigger] before.push(next)[p].sort_key()
                        < #[trigger] before.push(next)[q].sort_key() by {
                        if q == before.len() {
                            if p < before.len() - 1 {
                                assert(before[p].sort_key() < before[before.len() - 1].sort_key());
                            }
                        } else {
                            assert(before[p].sort_key() < before[q].sort_key());
                        }
                    }
                }
            }
            out.push(next);
        } else {
            assert(before.last().red == next.red && before.last().green == next.green
                && before.last().blue == next.blue && before.last().alpha == next.alpha);
            assert(before.last() == next);
        }
        assert(out@.last() == next);
        assert forall|c: ComparableColor| #[trigger] out@.contains(c) <==> exists|k: int| 0 <= k < i + 1 && c == #[trigger] tinted(color, values@[k]) by {
            if out@.contains(c) {
                let m = choose|m: int| 0 <= m < out@.len() && out@[m] == c;
                if m < before.len() {
                    assert(before.contains(c));
                } else {
                    assert(c == tinted(color, values@[i as int]));
                }
            }
            if exists|k: int| 0 <= k < i + 1 && c == #[trigger] tinted(color, values@[k]) {
                let k = choose|k: int| 0 <= k < i + 1 && c == #[trigger] tinted(color, values@[k]);
                if k < i {
                    assert(before.contains(c));
                    let m = choose|m: int| 0 <= m < before.len() && before[m] == c;
                    assert(out@[m] == c);
                } else if out@.len() > before.len() {
                    assert(out@[out@.len() - 1] == c);
                } else {
                    assert(out@.last() == before.last());
                    assert(out@[out@.len() - 1] == c);
                }
            }
        }
        i = i + 1;
    }
    assert forall|c: ComparableColor| #[trigger] out@.contains(c) <==> exists|a: u8| alphas@.contains(a) && c == #[trigger] tinted(color, a) by {
        if out@.contains(c) {
            let k = choose|k: int| 0 <= k < values@.len() && c == #[trigger] tinted(color, values@[k]);
            assert(values@.to_set().contains(values@[k]));
        }
        if exists|a: u8| alphas@.contains(a) && c == #[trigger] tinted(color, a) {
            let a = choose|a: u8| alphas@.contains(a) && c == #[trigger] tinted(color, a);
            assert(values@.to_set().contains(a));
            let k = choose|k: int| 0 <= k < values@.len() && values@[k] == a;
            assert(c == tinted(color, values@[k]));
        }
    }
    proof {
        if alphas@.len() > 0 {
            assert(values@.len() > 0) by {
                if values@.len() == 0 {
                    assert(values@.to_set() =~= Set::<u8>::empty());
                }
            }
        }
    }
    out
}

} // verus!
