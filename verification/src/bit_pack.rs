use crate::color::BitDepth;
use vstd::arithmetic::div_mod::{
    lemma_div_by_multiple, lemma_div_denominator, lemma_div_is_ordered, lemma_div_multiples_vanish_quotient,
    lemma_fundamental_div_mod, lemma_fundamental_div_mod_converse,
};
use vstd::prelude::*;

verus! {

/// The number of levels of a sample of the given depth.
pub open spec fn radix(depth: BitDepth) -> int {
    match depth {
        BitDepth::One => 2,
        BitDepth::Two => 4,
        BitDepth::Four => 16,
        BitDepth::Eight => 256,
        BitDepth::Sixteen => 65536,
    }
}

/// How many samples of the given depth (below sixteen bits) share one byte.
pub open spec fn per_byte(depth: BitDepth) -> int {
    match depth {
        BitDepth::One => 8,
        BitDepth::Two => 4,
        BitDepth::Four => 2,
        _ => 1,
    }
}

/// `r` to the power `k`.
pub open spec fn radix_pow(r: int, k: nat) -> int
    decreases k,
{
    if k == 0 {
        1
    } else {
        radix_pow(r, (k - 1) as nat) * r
    }
}

/// The number whose digits in base `r` are the samples, the first most significant.
pub open spec fn chunk_value(s: Seq<u16>, r: int) -> int
    decreases s.len(),
{
    if s.len() == 0 {
        0
    } else {
        chunk_value(s.drop_last(), r) * r + s.last()
    }
}

/// Byte `j` of the packed samples: the samples that share it, most significant first, with
/// zero bits after the last sample of the list.
pub open spec fn packed_byte(values: Seq<u16>, depth: BitDepth, j: int) -> u8 {
    let per = per_byte(depth);
    let start = j * per;
    let end = if start + per <= values.len() {
        start + per
    } else {
        values.len() as int
    };
    (chunk_value(values.subrange(start, end), radix(depth)) * radix_pow(radix(depth), (per - (end - start)) as nat)) as u8
}

/// Samples written one after the other, most significant bit first, each with the bits of
/// the depth, into as many bytes as they need; the bits after the last sample are zero.
pub open spec fn packed(values: Seq<u16>, depth: BitDepth) -> Seq<u8> {
    Seq::new(
        ((values.len() + per_byte(depth) - 1) / per_byte(depth)) as nat,
        |j: int| packed_byte(values, depth, j),
    )
}

proof fn lemma_radix_pow_adds(r: int, a: nat, b: nat)
    ensures
        radix_pow(r, a) * radix_pow(r, b) == radix_pow(r, a + b),
    decreases b,
{
    if b > 0 {
        lemma_radix_pow_adds(r, a, (b - 1) as nat);
        assert(radix_pow(r, a) * radix_pow(r, b) == radix_pow(r, a) * (radix_pow(r, (b - 1) as nat) * r));
        assert(radix_pow(r, a) * (radix_pow(r, (b - 1) as nat) * r) == (radix_pow(r, a) * radix_pow(r, (b - 1) as nat))
            * r) by (nonlinear_arith);
    }
}

proof fn lemma_radix_pow_positive(r: int, k: nat)
    requires
        r >= 1,
    ensures
        radix_pow(r, k) >= 1,
    decreases k,
{
    if k > 0 {
        lemma_radix_pow_positive(r, (k - 1) as nat);
        assert(radix_pow(r, (k - 1) as nat) * r >= 1) by (nonlinear_arith)
            requires
                radix_pow(r, (k - 1) as nat) >= 1,
                r >= 1,
        ;
    }
}

proof fn lemma_radix_full_byte(depth: BitDepth)
    requires
        depth != BitDepth::Sixteen,
    ensures
        radix_pow(radix(depth), per_byte(depth) as nat) == 256,
        per_byte(depth) >= 1,
{
    reveal_with_fuel(radix_pow, 9);
}

proof fn lemma_chunk_bound(s: Seq<u16>, r: int)
    requires
        r >= 1,
        forall|i: int| 0 <= i < s.len() ==> #[trigger] s[i] < r,
    ensures
        0 <= chunk_value(s, r) < radix_pow(r, s.len()),
    decreases s.len(),
{
    if s.len() > 0 {
        let p = s.drop_last();
        assert forall|i: int| 0 <= i < p.len() implies #[trigger] p[i] < r by {
            assert(p[i] == s[i]);
        }
        lemma_chunk_bound(p, r);
        let c = chunk_value(p, r);
        let m = radix_pow(r, p.len());
        assert(s.last() < r);
        assert(c * r + s.last() < m * r) by (nonlinear_arith)
            requires
                0 <= c < m,
                0 <= s.last() < r,
        ;
        assert(0 <= c * r + s.last()) by (nonlinear_arith)
            requires
                0 <= c,
                r >= 1,
                0 <= s.last(),
        ;
    }
}

/// Sample `i` read back from packed bytes: the bits of the depth at the sample's place in its
/// byte, the first sample of a byte in its most significant bits.
pub open spec fn unpacked_sample(bytes: Seq<u8>, depth: BitDepth, i: int) -> int {
    let per = per_byte(depth);
    (bytes[i / per] as int / radix_pow(radix(depth), (per - 1 - i % per) as nat)) % radix(depth)
}

proof fn lemma_chunk_digit(s: Seq<u16>, r: int, k: int)
    requires
        r >= 2,
        forall|i: int| 0 <= i < s.len() ==> #[trigger] s[i] < r,
        0 <= k < s.len(),
    ensures
        (chunk_value(s, r) / radix_pow(r, (s.len() - 1 - k) as nat)) % r == s[k],
    decreases s.len(),
{
    let p = s.drop_last();
    assert forall|i: int| 0 <= i < p.len() implies #[trigger] p[i] < r by {
        assert(p[i] == s[i]);
    }
    lemma_chunk_bound(p, r);
    let cp = chunk_value(p, r);
    let cs = chunk_value(s, r);
    assert(cs == cp * r + s.last());
    lemma_fundamental_div_mod_converse(cs, r, cp, s.last() as int);
    if k == s.len() - 1 {
        assert(radix_pow(r, 0) == 1);
        assert(cs / 1 == cs);
    } else {
        let n = (s.len() - 2 - k) as nat;
        let b = radix_pow(r, n);
        lemma_radix_pow_positive(r, n);
        assert(radix_pow(r, (s.len() - 1 - k) as nat) == b * r);
        assert(cs >= 0) by (nonlinear_arith)
            requires
                cs == cp * r + s.last(),
                cp >= 0,
                r >= 2,
                s.last() >= 0,
        ;
        lemma_div_denominator(cs, r, b);
        assert(r * b == b * r) by (nonlinear_arith);
        lemma_chunk_digit(p, r, k);
        assert(p[k] == s[k]);
    }
}

/// Reading each sample back from the packed bytes (see [`unpacked_sample`]) gives the sample
/// that was written, for samples that fit in the depth.
pub proof fn lemma_packed_samples_read_back(values: Seq<u16>, depth: BitDepth, i: int)
    requires
        depth != BitDepth::Sixteen,
        forall|k: int| 0 <= k < values.len() ==> #[trigger] values[k] < radix(depth),
        0 <= i < values.len(),
    ensures
        unpacked_sample(packed(values, depth), depth, i) == values[i],
{
    let per = per_byte(depth);
    let r = radix(depth);
    lemma_radix_full_byte(depth);
    let j = i / per;
    let k = i % per;
    lemma_fundamental_div_mod(i, per);
    assert(0 <= k < per);
    assert(j >= 0) by (nonlinear_arith)
        requires
            i == per * j + k,
            i >= 0,
            k < per,
            per >= 1,
    ;
    // The byte that holds sample i exists.
    let len = values.len() as int;
    assert((j + 1) * per <= len + per - 1) by (nonlinear_arith)
        requires
            i == per * j + k,
            0 <= k,
            i < len,
    ;
    lemma_div_is_ordered((j + 1) * per, len + per - 1, per);
    lemma_div_by_multiple(j + 1, per);
    assert(j < (len + per - 1) / per);
    let bytes = packed(values, depth);
    assert(bytes[j] == packed_byte(values, depth, j));
    // Its samples, with i among them.
    let start = j * per;
    assert(start <= i) by (nonlinear_arith)
        requires
            start == j * per,
            i == per * j + k,
            k >= 0,
    ;
    assert(start >= 0) by (nonlinear_arith)
        requires
            start == j * per,
            j >= 0,
            per >= 1,
    ;
    let end = if start + per <= len { start + per } else { len };
    let chunk = values.subrange(start, end);
    let m = end - start;
    assert(start == per * j) by (nonlinear_arith)
        requires
            start == j * per,
    ;
    assert(i == start + k);
    assert(k < m);
    assert forall|q: int| 0 <= q < chunk.len() implies #[trigger] chunk[q] < r by {
        assert(chunk[q] == values[start + q]);
    }
    lemma_chunk_bound(chunk, r);
    let cv = chunk_value(chunk, r);
    let pad = radix_pow(r, (per - m) as nat);
    lemma_radix_pow_positive(r, (per - m) as nat);
    lemma_radix_pow_adds(r, m as nat, (per - m) as nat);
    assert(cv * pad < 256) by (nonlinear_arith)
        requires
            0 <= cv < radix_pow(r, m as nat),
            radix_pow(r, m as nat) * pad == 256,
            pad >= 1,
    ;
    assert(cv * pad >= 0) by (nonlinear_arith)
        requires
            cv >= 0,
            pad >= 1,
    ;
    assert(bytes[j] as int == cv * pad);
    // Dropping the padding, then the samples after i.
    let below = radix_pow(r, (m - 1 - k) as nat);
    lemma_radix_pow_positive(r, (m - 1 - k) as nat);
    lemma_radix_pow_adds(r, (per - m) as nat, (m - 1 - k) as nat);
    assert(radix_pow(r, (per - 1 - k) as nat) == pad * below);
    assert(i % per == k);
    lemma_div_multiples_vanish_quotient(pad, cv, below);
    assert(pad * cv == cv * pad) by (nonlinear_arith);
    assert((bytes[j] as int) / radix_pow(r, (per - 1 - k) as nat) == cv / below);
    lemma_chunk_digit(chunk, r, k);
    assert(chunk[k] == values[i]);
}

/// Packs the samples as [`packed`] describes; every sample must fit in the depth.
pub fn pack_samples(values: &Vec<u16>, depth: BitDepth) -> (out: Vec<u8>)
    requires
        depth != BitDepth::Sixteen,
        forall|i: int| 0 <= i < values@.len() ==> (#[trigger] values@[i]) < radix(depth),
    ensures
        out@ == packed(values@, depth),
{
    let r: u32 = match depth {
        BitDepth::One => 2,
        BitDepth::Two => 4,
        BitDepth::Four => 16,
        _ => 256,
    };
    let per: usize = match depth {
        BitDepth::One => 8,
        BitDepth::Two => 4,
        BitDepth::Four => 2,
        _ => 1,
    };
    proof {
        lemma_radix_full_byte(depth);
    }
    assert(r >= 2);
    let n = values.len();
    let mut out: Vec<u8> = Vec::new();
    let mut acc: u32 = 0;
    let mut count: usize = 0;
    let mut i: usize = 0;
    while i < n
        invariant
            n == values@.len(),
            r == radix(depth),
            per == per_byte(depth),
            depth != BitDepth::Sixteen,
            radix_pow(r as int, per as nat) == 256,
            forall|k: int| 0 <= k < values@.len() ==> (#[trigger] values@[k]) < radix(depth),
            i <= n,
            count < per,
            i == out@.len() * per + count,
            forall|j: int| 0 <= j < out@.len() ==> #[trigger] out@[j] == packed_byte(values@, depth, j),
            acc == chunk_value(values@.subrange(i - count, i as int), r as int),
            acc < radix_pow(r as int, count as nat),
        decreases n - i,
    {
        let ghost old_chunk = values@.subrange(i - count, i as int);
        let ghost new_chunk = values@.subrange(i - count, i + 1);
        proof {
            assert(new_chunk.drop_last() =~= old_chunk);
            assert(new_chunk.last() == values@[i as int]);
            lemma_radix_pow_adds(r as int, count as nat, (per - 1 - count) as nat);
            lemma_radix_pow_positive(r as int, (per - 1 - count) as nat);
            assert(radix_pow(r as int, (count + 1) as nat) == radix_pow(r as int, count as nat) * r);
            lemma_radix_pow_adds(r as int, (count + 1) as nat, (per - 1 - count) as nat);
            assert(radix_pow(r as int, (count + 1) as nat) <= 256) by (nonlinear_arith)
                requires
                    radix_pow(r as int, (count + 1) as nat) * radix_pow(r as int, (per - 1 - count) as nat) == 256,
                    radix_pow(r as int, (per - 1 - count) as nat) >= 1,
            ;
            assert(acc * r + values@[i as int] < radix_pow(r as int, (count + 1) as nat)) by (nonlinear_arith)
                requires
                    acc < radix_pow(r as int, count as nat),
                    values@[i as int] < r,
                    radix_pow(r as int, (count + 1) as nat) == radix_pow(r as int, count as nat) * r,
            ;
        }
        acc = acc * r + values[i] as u32;
        count = count + 1;
        i = i + 1;
        if count == per {
            proof {
                let j = out@.len() as int;
                assert(j * per + per == i) by (nonlinear_arith)
                    requires
                        i == j * per + count,
                        count == per,
                ;
                assert(j * per + per <= values@.len());
                assert(radix_pow(r as int, 0) == 1);
                assert(acc == chunk_value(new_chunk, r as int));
                let start = j * per;
                assert(start == i - per);
                assert(values@.subrange(start, start + per) =~= new_chunk);
                assert(chunk_value(values@.subrange(start, start + per), radix(depth)) == acc);
                assert(chunk_value(values@.subrange(start, start + per), radix(depth)) * radix_pow(radix(depth), 0) == acc);
                assert(packed_byte(values@, depth, j) == acc as u8);
            }
            let ghost before = out@.len();
            out.push(acc as u8);
            acc = 0;
            count = 0;
            assert(values@.subrange(i as int, i as int) =~= Seq::<u16>::empty());
            assert(i == out@.len() * per + count) by (nonlinear_arith)
                requires
                    i == before * per + per,
                    out@.len() == before + 1,
                    count == 0,
            ;
        }
    }
    let full = out.len();
    if count > 0 {
        let ghost last_chunk = values@.subrange(n - count, n as int);
        let ghost chunk = acc as int;
        let mut k: usize = count;
        assert(radix_pow(r as int, 0) == 1);
        assert(((k - count) as nat) == 0nat);
        assert(chunk * radix_pow(r as int, 0) == chunk);
        while k < per
            invariant
                r == radix(depth),
                r >= 2,
                count <= k <= per,
                radix_pow(r as int, per as nat) == 256,
                chunk < radix_pow(r as int, count as nat),
                chunk >= 0,
                acc == chunk * radix_pow(r as int, (k - count) as nat),
            decreases per - k,
        {
            proof {
                lemma_radix_pow_adds(r as int, count as nat, (k - count) as nat);
                lemma_radix_pow_adds(r as int, k as nat, (per - k) as nat);
                lemma_radix_pow_positive(r as int, (per - k - 1) as nat);
                lemma_radix_pow_positive(r as int, (k - count) as nat);
                assert(radix_pow(r as int, (per - k) as nat) == radix_pow(r as int, (per - k - 1) as nat) * r);
                assert(acc < radix_pow(r as int, k as nat)) by (nonlinear_arith)
                    requires
                        acc == chunk * radix_pow(r as int, (k - count) as nat),
                        chunk < radix_pow(r as int, count as nat),
                        radix_pow(r as int, count as nat) * radix_pow(r as int, (k - count) as nat) == radix_pow(r as int, k as nat),
                        radix_pow(r as int, (k - count) as nat) >= 1,
                ;
                assert(acc * r < 256) by (nonlinear_arith)
                    requires
                        acc < radix_pow(r as int, k as nat),
                        radix_pow(r as int, k as nat) * (radix_pow(r as int, (per - k - 1) as nat) * r) == 256,
                        radix_pow(r as int, (per - k - 1) as nat) >= 1,
                        r >= 2,
                ;
                assert(radix_pow(r as int, (k + 1 - count) as nat) == radix_pow(r as int, (k - count) as nat) * r);
                assert(acc * r == chunk * radix_pow(r as int, (k + 1 - count) as nat)) by (nonlinear_arith)
                    requires
                        acc == chunk * radix_pow(r as int, (k - count) as nat),
                        radix_pow(r as int, (k + 1 - count) as nat) == radix_pow(r as int, (k - count) as nat) * r,
                ;
            }
            acc = acc * r;
            k = k + 1;
        }
        proof {
            let j = full as int;
            assert(j * per + count == n);
            assert(!(j * per + per <= values@.len()));
            assert(values@.subrange(j * per, n as int) =~= last_chunk);
            assert(packed_byte(values@, depth, j) == acc as u8);
        }
        out.push(acc as u8);
    }
    proof {
        let len = values@.len() as int;
        let p = per as int;
        if count > 0 {
            lemma_fundamental_div_mod_converse(len + p - 1, p, full as int + 1, count - 1);
        } else {
            lemma_fundamental_div_mod_converse(len + p - 1, p, full as int, p - 1);
        }
        assert(out@.len() == (len + p - 1) / p);
    }
    assert(out@ =~= packed(values@, depth));
    out
}

} // verus!
