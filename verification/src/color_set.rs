use crate::color::ComparableColor;
use vstd::prelude::*;

verus! {

/// Each color comes strictly after the one before it in the color order (so no color appears
/// twice and at most one fully transparent color appears).
pub open spec fn strictly_sorted(s: Seq<ComparableColor>) -> bool {
    forall|i: int, j: int| 0 <= i < j < s.len() ==> #[trigger] s[i].sort_key() < #[trigger] s[j].sort_key()
}

/// Whether some color of `s` has the sort key `k`.
pub open spec fn has_key(s: Seq<ComparableColor>, k: int) -> bool {
    exists|i: int| 0 <= i < s.len() && #[trigger] s[i].sort_key() == k
}

/// Puts `x` into the sorted sequence `s` before the first color that comes after it, unless
/// a color that is the same as `x` is met first; then `s` is kept as it is.
pub open spec fn insert_sorted(s: Seq<ComparableColor>, x: ComparableColor) -> Seq<ComparableColor>
    decreases s.len(),
{
    if s.len() == 0 {
        seq![x]
    } else if s[0].sort_key() == x.sort_key() {
        s
    } else if s[0].sort_key() > x.sort_key() {
        seq![x] + s
    } else {
        seq![s[0]] + insert_sorted(s.drop_first(), x)
    }
}

/// The colors of `s` in the color order, each color kept once: of colors that are the same,
/// the first one in `s` is kept.
pub open spec fn sort_dedup(s: Seq<ComparableColor>) -> Seq<ComparableColor>
    decreases s.len(),
{
    if s.len() == 0 {
        seq![]
    } else {
        insert_sorted(sort_dedup(s.drop_last()), s.last())
    }
}

/// The colors of `s` in their order, without any color that is the same as an earlier one.
pub open spec fn unique_colors(s: Seq<ComparableColor>) -> Seq<ComparableColor>
    decreases s.len(),
{
    if s.len() == 0 {
        seq![]
    } else {
        let u = unique_colors(s.drop_last());
        if has_key(u, s.last().sort_key()) {
            u
        } else {
            u.push(s.last())
        }
    }
}

/// The colors of `s`, dropping every color that is the same as the color just before it.
pub open spec fn dedup_adjacent(s: Seq<ComparableColor>) -> Seq<ComparableColor>
    decreases s.len(),
{
    if s.len() <= 1 {
        s
    } else {
        let d = dedup_adjacent(s.drop_last());
        if d.last().sort_key() == s.last().sort_key() {
            d
        } else {
            d.push(s.last())
        }
    }
}

proof fn lemma_insert_sorted_step(s: Seq<ComparableColor>, i: int, x: ComparableColor)
    requires
        0 <= i < s.len(),
        s[i].sort_key() < x.sort_key(),
    ensures
        insert_sorted(s.subrange(i, s.len() as int), x) == seq![s[i]] + insert_sorted(
            s.subrange(i + 1, s.len() as int),
            x,
        ),
{
    let t = s.subrange(i, s.len() as int);
    assert(t.drop_first() =~= s.subrange(i + 1, s.len() as int));
}

/// Inserts `x` into `v` as [`insert_sorted`] does.
pub fn insert_color_sorted(v: &mut Vec<ComparableColor>, x: ComparableColor)
    ensures
        final(v)@ == insert_sorted(old(v)@, x),
{
    let n = v.len();
    let k = x.key();
    let mut i: usize = 0;
    assert(v@.subrange(0, 0) + insert_sorted(v@.subrange(0, n as int), x) =~= insert_sorted(v@, x)) by {
        assert(v@.subrange(0, n as int) =~= v@);
    }
    while i < n && v[i].key() < k
        invariant
            n == v@.len(),
            v@ == old(v)@,
            i <= n,
            k == x.sort_key(),
            insert_sorted(v@, x) == v@.subrange(0, i as int) + insert_sorted(
                v@.subrange(i as int, n as int),
                x,
            ),
        decreases n - i,
    {
        proof {
            lemma_insert_sorted_step(v@, i as int, x);
            assert(v@.subrange(0, i as int) + (seq![v@[i as int]] + insert_sorted(
                v@.subrange(i + 1, n as int),
                x,
            )) =~= v@.subrange(0, i + 1) + insert_sorted(v@.subrange(i + 1, n as int), x));
        }
        i = i + 1;
    }
    if i == n {
        assert(v@.subrange(i as int, n as int) =~= Seq::<ComparableColor>::empty());
        assert(v@.subrange(0, i as int) =~= v@);
        v.push(x);
    } else if v[i].key() == k {
        assert(v@.subrange(0, i as int) + v@.subrange(i as int, n as int) =~= v@);
    } else {
        assert(v@.subrange(0, i as int) + (seq![x] + v@.subrange(i as int, n as int)) =~= v@.insert(
            i as int,
            x,
        ));
        v.insert(i, x);
    }
}

/// The colors of `colors` in the color order, each kept once, as [`sort_dedup`] describes.
pub fn sort_dedup_colors(colors: &[ComparableColor]) -> (out: Vec<ComparableColor>)
    ensures
        out@ == sort_dedup(colors@),
{
    let mut out: Vec<ComparableColor> = Vec::new();
    let mut i: usize = 0;
    while i < colors.len()
        invariant
            i <= colors.len(),
            out@ == sort_dedup(colors@.subrange(0, i as int)),
        decreases colors.len() - i,
    {
        let ghost before = colors@.subrange(0, i as int);
        insert_color_sorted(&mut out, colors[i]);
        proof {
            let after = colors@.subrange(0, i + 1);
            assert(after.drop_last() =~= before);
        }
        i = i + 1;
    }
    assert(colors@.subrange(0, colors.len() as int) =~= colors@);
    out
}

/// Whether a color of `v` has the sort key `k`.
pub fn contains_key(v: &Vec<ComparableColor>, k: u32) -> (r: bool)
    ensures
        r == has_key(v@, k as int),
{
    let mut i: usize = 0;
    while i < v.len()
        invariant
            i <= v.len(),
            forall|j: int| 0 <= j < i ==> #[trigger] v@[j].sort_key() != k,
        decreases v.len() - i,
    {
        if v[i].key() == k {
            return true;
        }
        i = i + 1;
    }
    false
}

/// The colors of `colors` in their order, each color kept at its first appearance, as
/// [`unique_colors`] describes.
pub fn unique_color_list(colors: &[ComparableColor]) -> (out: Vec<ComparableColor>)
    ensures
        out@ == unique_colors(colors@),
{
    let mut out: Vec<ComparableColor> = Vec::new();
    let mut i: usize = 0;
    while i < colors.len()
        invariant
            i <= colors.len(),
            out@ == unique_colors(colors@.subrange(0, i as int)),
        decreases colors.len() - i,
    {
        proof {
            let after = colors@.subrange(0, i + 1);
            assert(after.drop_last() =~= colors@.subrange(0, i as int));
        }
        if !contains_key(&out, colors[i].key()) {
            out.push(colors[i]);
        }
        i = i + 1;
    }
    assert(colors@.subrange(0, colors.len() as int) =~= colors@);
    out
}

/// Drops every color that is the same as the color just before it, as [`dedup_adjacent`]
/// describes.
pub fn dedup_adjacent_colors(colors: &[ComparableColor]) -> (out: Vec<ComparableColor>)
    ensures
        out@ == dedup_adjacent(colors@),
{
    let mut out: Vec<ComparableColor> = Vec::new();
    if colors.len() == 0 {
        return out;
    }
    out.push(colors[0]);
    assert(out@ =~= dedup_adjacent(colors@.subrange(0, 1)));
    let mut i: usize = 1;
    while i < colors.len()
        invariant
            1 <= i <= colors.len(),
            out@ == dedup_adjacent(colors@.subrange(0, i as int)),
            out@.len() > 0,
            out@.last().sort_key() == colors@[i - 1].sort_key(),
        decreases colors.len() - i,
    {
        proof {
            let after = colors@.subrange(0, i + 1);
            assert(after.drop_last() =~= colors@.subrange(0, i as int));
            lemma_dedup_adjacent_last(colors@.subrange(0, i as int));
        }
        if out[out.len() - 1].key() != colors[i].key() {
            out.push(colors[i]);
        }
        i = i + 1;
    }
    assert(colors@.subrange(0, colors.len() as int) =~= colors@);
    out
}

proof fn lemma_dedup_adjacent_last(s: Seq<ComparableColor>)
    requires
        s.len() > 0,
    ensures
        dedup_adjacent(s).len() > 0,
        dedup_adjacent(s).last().sort_key() == s.last().sort_key(),
    decreases s.len(),
{
    if s.len() > 1 {
        lemma_dedup_adjacent_last(s.drop_last());
    }
}

// ---------------------------------------------------------------------------------------------
// Laws of the sorted color sets
// ---------------------------------------------------------------------------------------------

/// Inserting into a strictly sorted sequence keeps it strictly sorted, adds exactly the key of
/// the inserted color, and keeps every color that was there.
pub proof fn lemma_insert_sorted(s: Seq<ComparableColor>, x: ComparableColor)
    requires
        strictly_sorted(s),
    ensures
        strictly_sorted(insert_sorted(s, x)),
        forall|k: int| #[trigger] has_key(insert_sorted(s, x), k) <==> (has_key(s, k) || k == x.sort_key()),
        forall|c: ComparableColor| #[trigger] insert_sorted(s, x).contains(c) ==> (s.contains(c) || c == x),
        insert_sorted(s, x).len() > 0,
    decreases s.len(),
{
    if s.len() == 0 {
        assert forall|k: int| has_key(insert_sorted(s, x), k) <==> (has_key(s, k) || k
            == x.sort_key()) by {
            if k == x.sort_key() {
                assert(insert_sorted(s, x)[0].sort_key() == k);
            }
        }
    } else if s[0].sort_key() == x.sort_key() {
        assert forall|k: int| has_key(insert_sorted(s, x), k) <==> (has_key(s, k) || k
            == x.sort_key()) by {
            if k == x.sort_key() {
                assert(s[0].sort_key() == k);
            }
        }
    } else if s[0].sort_key() > x.sort_key() {
        let r = seq![x] + s;
        assert forall|i: int, j: int| 0 <= i < j < r.len() implies #[trigger] r[i].sort_key()
            < #[trigger] r[j].sort_key() by {
            if i > 0 {
                assert(r[i] == s[i - 1] && r[j] == s[j - 1]);
            } else {
                assert(r[j] == s[j - 1]);
                if j > 1 {
                    assert(s[0].sort_key() < s[j - 1].sort_key());
                }
            }
        }
        assert forall|k: int| has_key(r, k) <==> (has_key(s, k) || k == x.sort_key()) by {
            if has_key(r, k) {
                let i = choose|i: int| 0 <= i < r.len() && #[trigger] r[i].sort_key() == k;
                if i > 0 {
                    assert(s[i - 1].sort_key() == k);
                }
            }
            if has_key(s, k) {
                let i = choose|i: int| 0 <= i < s.len() && #[trigger] s[i].sort_key() == k;
                assert(r[i + 1].sort_key() == k);
            }
            if k == x.sort_key() {
                assert(r[0].sort_key() == k);
            }
        }
        assert forall|c: ComparableColor| r.contains(c) implies (s.contains(c) || c == x) by {
            let i = choose|i: int| 0 <= i < r.len() && r[i] == c;
            if i > 0 {
                assert(s[i - 1] == c);
            }
        }
    } else {
        let t = s.drop_first();
        assert(strictly_sorted(t)) by {
            assert forall|i: int, j: int| 0 <= i < j < t.len() implies #[trigger] t[i].sort_key()
                < #[trigger] t[j].sort_key() by {
                assert(t[i] == s[i + 1] && t[j] == s[j + 1]);
            }
        }
        lemma_insert_sorted(t, x);
        let it = insert_sorted(t, x);
        let r = seq![s[0]] + it;
        assert forall|i: int, j: int| 0 <= i < j < r.len() implies #[trigger] r[i].sort_key()
            < #[trigger] r[j].sort_key() by {
            if i > 0 {
                assert(r[i] == it[i - 1] && r[j] == it[j - 1]);
            } else {
                assert(r[j] == it[j - 1]);
                assert(it.contains(it[j - 1]));
                if t.contains(it[j - 1]) {
                    let m = choose|m: int| 0 <= m < t.len() && t[m] == it[j - 1];
                    assert(t[m] == s[m + 1]);
                }
            }
        }
        assert forall|k: int| has_key(r, k) <==> (has_key(s, k) || k == x.sort_key()) by {
            if has_key(r, k) {
                let i = choose|i: int| 0 <= i < r.len() && #[trigger] r[i].sort_key() == k;
                if i > 0 {
                    assert(it[i - 1].sort_key() == k);
                    assert(has_key(it, k));
                    if has_key(t, k) {
                        let m = choose|m: int| 0 <= m < t.len() && #[trigger] t[m].sort_key() == k;
                        assert(s[m + 1].sort_key() == k);
                    }
                } else {
                    assert(s[0].sort_key() == k);
                }
            }
            if has_key(s, k) {
                let i = choose|i: int| 0 <= i < s.len() && #[trigger] s[i].sort_key() == k;
                if i > 0 {
                    assert(t[i - 1].sort_key() == k);
                    assert(has_key(t, k));
                    assert(has_key(it, k));
                    let m = choose|m: int| 0 <= m < it.len() && #[trigger] it[m].sort_key() == k;
                    assert(r[m + 1].sort_key() == k);
                } else {
                    assert(r[0].sort_key() == k);
                }
            }
            if k == x.sort_key() {
                assert(has_key(it, k));
                let m = choose|m: int| 0 <= m < it.len() && #[trigger] it[m].sort_key() == k;
                assert(r[m + 1].sort_key() == k);
            }
        }
        assert forall|c: ComparableColor| r.contains(c) implies (s.contains(c) || c == x) by {
            let i = choose|i: int| 0 <= i < r.len() && r[i] == c;
            if i > 0 {
                assert(it[i - 1] == c);
                assert(it.contains(c));
                if t.contains(c) {
                    let m = choose|m: int| 0 <= m < t.len() && t[m] == c;
                    assert(s[m + 1] == c);
                }
            } else {
                assert(s[0] == c);
            }
        }
    }
}

/// Sorting and deduplicating gives a strictly sorted sequence that holds a color with each
/// key of the input and nothing else, each color taken from the input.
pub proof fn lemma_sort_dedup(s: Seq<ComparableColor>)
    ensures
        strictly_sorted(sort_dedup(s)),
        forall|k: int| has_key(sort_dedup(s), k) <==> has_key(s, k),
        forall|c: ComparableColor| sort_dedup(s).contains(c) ==> s.contains(c),
        s.len() > 0 ==> sort_dedup(s).len() > 0,
        sort_dedup(s).len() <= s.len(),
    decreases s.len(),
{
    if s.len() > 0 {
        let p = s.drop_last();
        lemma_sort_dedup(p);
        lemma_insert_sorted(sort_dedup(p), s.last());
        lemma_insert_sorted_len(sort_dedup(p), s.last());
        assert forall|k: int| has_key(sort_dedup(s), k) <==> has_key(s, k) by {
            if has_key(p, k) {
                let i = choose|i: int| 0 <= i < p.len() && #[trigger] p[i].sort_key() == k;
                assert(s[i].sort_key() == k);
            }
            if has_key(s, k) {
                let i = choose|i: int| 0 <= i < s.len() && #[trigger] s[i].sort_key() == k;
                if i < p.len() {
                    assert(p[i].sort_key() == k);
                }
            }
        }
        assert forall|c: ComparableColor| sort_dedup(s).contains(c) implies s.contains(c) by {
            if p.contains(c) {
                let i = choose|i: int| 0 <= i < p.len() && p[i] == c;
                assert(s[i] == c);
            } else {
                assert(s[s.len() - 1] == c);
            }
        }
    } else {
        assert(strictly_sorted(sort_dedup(s)));
    }
}

proof fn lemma_insert_sorted_len(s: Seq<ComparableColor>, x: ComparableColor)
    ensures
        insert_sorted(s, x).len() <= s.len() + 1,
    decreases s.len(),
{
    if s.len() > 0 && s[0].sort_key() < x.sort_key() {
        lemma_insert_sorted_len(s.drop_first(), x);
    }
}

/// A prefix of a strictly sorted sequence is strictly sorted.
pub proof fn lemma_take_sorted(s: Seq<ComparableColor>, n: int)
    requires
        strictly_sorted(s),
        0 <= n <= s.len(),
    ensures
        strictly_sorted(s.take(n)),
{
    assert forall|i: int, j: int| 0 <= i < j < s.take(n).len() implies #[trigger] s.take(n)[i].sort_key()
        < #[trigger] s.take(n)[j].sort_key() by {
        assert(s.take(n)[i] == s[i] && s.take(n)[j] == s[j]);
    }
}

/// In a strictly sorted sequence, alpha never decreases.
pub proof fn lemma_sorted_alpha(s: Seq<ComparableColor>, i: int, j: int)
    requires
        strictly_sorted(s),
        0 <= i < j < s.len(),
    ensures
        s[i].alpha <= s[j].alpha,
        s[j].alpha > 0,
{
    assert(s[i].sort_key() < s[j].sort_key());
}

// ---------------------------------------------------------------------------------------------
// Questions about sorted color sets
// ---------------------------------------------------------------------------------------------

/// Whether the colors hold one that is neither fully transparent nor fully opaque.
pub open spec fn has_semitransparency(s: Seq<ComparableColor>) -> bool {
    exists|i: int| 0 <= i < s.len() && 0 < #[trigger] s[i].alpha < 255
}

/// Whether a strictly sorted, nonempty list of colors holds a color that is neither fully
/// transparent nor fully opaque. Only the first two colors are looked at.
pub fn contains_semitransparency(vec: &[ComparableColor]) -> (r: bool)
    requires
        vec@.len() > 0,
        strictly_sorted(vec@),
    ensures
        r == has_semitransparency(vec@),
{
    let first = vec[0].alpha;
    if first == 0 {
        if vec.len() == 1 {
            assert(!has_semitransparency(vec@)) by {
                if has_semitransparency(vec@) {
                    let i = choose|i: int| 0 <= i < vec@.len() && 0 < #[trigger] vec@[i].alpha < 255;
                    assert(i == 0);
                }
            }
            false
        } else {
            let second = vec[1].alpha;
            proof {
                lemma_sorted_alpha(vec@, 0, 1);
            }
            if second == 255 {
                assert(!has_semitransparency(vec@)) by {
                    if has_semitransparency(vec@) {
                        let i = choose|i: int| 0 <= i < vec@.len() && 0 < #[trigger] vec@[i].alpha < 255;
                        if i > 1 {
                            lemma_sorted_alpha(vec@, 1, i);
                        }
                    }
                }
                false
            } else {
                assert(0 < vec@[1].alpha < 255);
                true
            }
        }
    } else if first == 255 {
        assert(!has_semitransparency(vec@)) by {
            if has_semitransparency(vec@) {
                let i = choose|i: int| 0 <= i < vec@.len() && 0 < #[trigger] vec@[i].alpha < 255;
                if i > 0 {
                    lemma_sorted_alpha(vec@, 0, i);
                }
            }
        }
        false
    } else {
        assert(0 < vec@[0].alpha < 255);
        true
    }
}

/// Whether some color of the list has alpha `needle`.
pub open spec fn has_alpha(s: Seq<ComparableColor>, needle: u8) -> bool {
    exists|i: int| 0 <= i < s.len() && #[trigger] s[i].alpha == needle
}

/// The first index of a strictly sorted list whose color's sort key is at least `target`
/// (the list's length when there is none), found by binary search.
pub fn lower_bound(vec: &[ComparableColor], target: u32) -> (r: usize)
    requires
        strictly_sorted(vec@),
    ensures
        r <= vec@.len(),
        forall|i: int| 0 <= i < r ==> #[trigger] vec@[i].sort_key() < target,
        forall|i: int| r <= i < vec@.len() ==> #[trigger] vec@[i].sort_key() >= target,
{
    let mut lo: usize = 0;
    let mut hi: usize = vec.len();
    while lo < hi
        invariant
            strictly_sorted(vec@),
            lo <= hi <= vec@.len(),
            forall|i: int| 0 <= i < lo ==> #[trigger] vec@[i].sort_key() < target,
            forall|i: int| hi <= i < vec@.len() ==> #[trigger] vec@[i].sort_key() >= target,
        decreases hi - lo,
    {
        let mid = lo + (hi - lo) / 2;
        if vec[mid].key() < target {
            assert forall|i: int| 0 <= i < mid + 1 implies #[trigger] vec@[i].sort_key() < target by {
                if i < mid {
                    assert(vec@[i].sort_key() < vec@[mid as int].sort_key());
                }
            }
            lo = mid + 1;
        } else {
            assert forall|i: int| mid <= i < vec@.len() implies #[trigger] vec@[i].sort_key() >= target by {
                if i > mid {
                    assert(vec@[mid as int].sort_key() < vec@[i].sort_key());
                }
            }
            hi = mid;
        }
    }
    lo
}

/// Whether a strictly sorted, nonempty list of colors holds a color whose alpha is
/// `needle_alpha`. The ends of the list are checked first, then the list is searched.
pub fn contains_alpha(vec: &[ComparableColor], needle_alpha: u8) -> (r: bool)
    requires
        vec@.len() > 0,
        strictly_sorted(vec@),
    ensures
        r == has_alpha(vec@, needle_alpha),
{
    let least_alpha = vec[0].alpha;
    if needle_alpha == 0 {
        if least_alpha != 0 {
            assert(!has_alpha(vec@, 0)) by {
                if has_alpha(vec@, 0) {
                    let i = choose|i: int| 0 <= i < vec@.len() && #[trigger] vec@[i].alpha == 0;
                    if i > 0 {
                        lemma_sorted_alpha(vec@, 0, i);
                    }
                }
            }
        }
        return least_alpha == 0;
    }
    if needle_alpha < least_alpha {
        assert(!has_alpha(vec@, needle_alpha)) by {
            if has_alpha(vec@, needle_alpha) {
                let i = choose|i: int| 0 <= i < vec@.len() && #[trigger] vec@[i].alpha == needle_alpha;
                if i > 0 {
                    lemma_sorted_alpha(vec@, 0, i);
                }
            }
        }
        return false;
    }
    if needle_alpha == least_alpha {
        return true;
    }
    let greatest_alpha = vec[vec.len() - 1].alpha;
    if needle_alpha > greatest_alpha {
        assert(!has_alpha(vec@, needle_alpha)) by {
            if has_alpha(vec@, needle_alpha) {
                let i = choose|i: int| 0 <= i < vec@.len() && #[trigger] vec@[i].alpha == needle_alpha;
                if i < vec@.len() - 1 {
                    lemma_sorted_alpha(vec@, i, vec@.len() - 1);
                }
            }
        }
        return false;
    }
    if needle_alpha == greatest_alpha {
        return true;
    }
    // The colors with this alpha have sort keys from needle * 2^24 to needle * 2^24 + 2^24 - 1.
    let start = lower_bound(vec, (needle_alpha as u32) * 0x1000000);
    let found = start < vec.len() && vec[start].alpha == needle_alpha;
    proof {
        if has_alpha(vec@, needle_alpha) {
            let i = choose|i: int| 0 <= i < vec@.len() && #[trigger] vec@[i].alpha == needle_alpha;
            assert(vec@[i].sort_key() >= needle_alpha * 0x1000000);
            assert(start <= i);
            assert(vec@[i].sort_key() < (needle_alpha + 1) * 0x1000000);
            if start < i {
                assert(vec@[start as int].sort_key() < vec@[i].sort_key());
            }
            assert(vec@[start as int].sort_key() >= needle_alpha * 0x1000000);
        }
    }
    found
}

/// The 256 colors that are black with each possible alpha, from fully transparent to opaque.
pub fn create_black_to_transparent() -> (table: Vec<ComparableColor>)
    ensures
        table@.len() == 256,
        forall|i: int|
            0 <= i < 256 ==> #[trigger] table@[i] == (ComparableColor {
                alpha: i as u8,
                red: 0,
                green: 0,
                blue: 0,
            }),
        strictly_sorted(table@),
{
    let mut table: Vec<ComparableColor> = Vec::new();
    let mut x: u16 = 0;
    while x < 256
        invariant
            x <= 256,
            table@.len() == x,
            forall|i: int|
                0 <= i < x ==> #[trigger] table@[i] == (ComparableColor {
                    alpha: i as u8,
                    red: 0,
                    green: 0,
                    blue: 0,
                }),
        decreases 256 - x,
    {
        table.push(ComparableColor { alpha: x as u8, red: 0, green: 0, blue: 0 });
        x = x + 1;
    }
    assert forall|i: int, j: int| 0 <= i < j < table@.len() implies #[trigger] table@[i].sort_key()
        < #[trigger] table@[j].sort_key() by {
        assert(table@[i].alpha == i as u8);
        assert(table@[j].alpha == j as u8);
    }
    table
}

} // verus!
