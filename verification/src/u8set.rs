use vstd::prelude::*;

verus! {

/// A set of `u8` values, held as one flag per possible value.
pub struct U8BitSet {
    flags: Vec<bool>,
}

impl View for U8BitSet {
    type V = Set<u8>;

    closed spec fn view(&self) -> Set<u8> {
        Set::new(|v: u8| self.flags@[v as int])
    }
}

impl U8BitSet {
    /// The set holds one flag for each of the 256 values.
    pub closed spec fn wf(&self) -> bool {
        self.flags@.len() == 256
    }

    /// The empty set.
    pub fn new() -> (s: U8BitSet)
        ensures
            s.wf(),
            s@ == Set::<u8>::empty(),
    {
        let mut flags: Vec<bool> = Vec::new();
        let mut i: usize = 0;
        while i < 256
            invariant
                i <= 256,
                flags@.len() == i,
                forall|j: int| 0 <= j < i ==> !#[trigger] flags@[j],
            decreases 256 - i,
        {
            flags.push(false);
            i = i + 1;
        }
        let s = U8BitSet { flags };
        assert(s@ =~= Set::<u8>::empty());
        s
    }

    /// The set of all 256 values.
    pub fn all_u8s() -> (s: U8BitSet)
        ensures
            s.wf(),
            s@ == Set::new(|v: u8| true),
    {
        let mut flags: Vec<bool> = Vec::new();
        let mut i: usize = 0;
        while i < 256
            invariant
                i <= 256,
                flags@.len() == i,
                forall|j: int| 0 <= j < i ==> #[trigger] flags@[j],
            decreases 256 - i,
        {
            flags.push(true);
            i = i + 1;
        }
        let s = U8BitSet { flags };
        assert(s@ =~= Set::new(|v: u8| true));
        s
    }

    /// Whether the set holds `value`.
    pub fn contains(&self, value: u8) -> (r: bool)
        requires
            self.wf(),
        ensures
            r == self@.contains(value),
    {
        self.flags[value as usize]
    }

    /// Adds `value` to the set.
    pub fn insert(&mut self, value: u8)
        requires
            old(self).wf(),
        ensures
            final(self).wf(),
            final(self)@ == old(self)@.insert(value),
    {
        self.flags.set(value as usize, true);
        assert(self@ =~= old(self)@.insert(value));
    }

    /// The set of the values in `values`.
    pub fn from_slice(values: &[u8]) -> (s: U8BitSet)
        ensures
            s.wf(),
            s@ == values@.to_set(),
    {
        let mut s = U8BitSet::new();
        let mut i: usize = 0;
        while i < values.len()
            invariant
                i <= values.len(),
                s.wf(),
                s@ == values@.subrange(0, i as int).to_set(),
            decreases values.len() - i,
        {
            s.insert(values[i]);
            assert(values@.subrange(0, i + 1) =~= values@.subrange(0, i as int).push(values@[i as int]));
            proof {
                values@.subrange(0, i as int).lemma_push_to_set_commute(values@[i as int]);
            }
            i = i + 1;
        }
        assert(values@.subrange(0, values.len() as int) =~= values@);
        s
    }

    /// The values in the set, in increasing order.
    pub fn to_vec(&self) -> (v: Vec<u8>)
        requires
            self.wf(),
        ensures
            forall|i: int, j: int| 0 <= i < j < v@.len() ==> v@[i] < v@[j],
            v@.to_set() == self@,
    {
        let mut v: Vec<u8> = Vec::new();
        let mut i: usize = 0;
        while i < 256
            invariant
                self.wf(),
                i <= 256,
                forall|a: int, b: int| 0 <= a < b < v@.len() ==> v@[a] < v@[b],
                forall|a: int| 0 <= a < v@.len() ==> v@[a] < i,
                forall|x: u8| #[trigger] v@.contains(x) <==> (x < i && self@.contains(x)),
            decreases 256 - i,
        {
            if self.flags[i] {
                let ghost before = v@;
                v.push(i as u8);
                assert forall|x: u8| #[trigger] v@.contains(x) <==> (x < i + 1 && self@.contains(x)) by {
                    assert(v@ == before.push(i as u8));
                    if x == i as u8 {
                        assert(v@[v@.len() - 1] == x);
                        assert(self@.contains(x));
                    } else {
                        if v@.contains(x) {
                            let k = choose|k: int| 0 <= k < v@.len() && v@[k] == x;
                            assert(k < before.len());
                            assert(before[k] == x);
                            assert(before.contains(x));
                        }
                        if x < i && self@.contains(x) {
                            assert(before.contains(x));
                            let k = choose|k: int| 0 <= k < before.len() && before[k] == x;
                            assert(v@[k] == x);
                        }
                    }
                }
            } else {
                assert forall|x: u8| #[trigger] v@.contains(x) <==> (x < i + 1 && self@.contains(x)) by {
                    if x == i as u8 {
                        assert(!self@.contains(x));
                    }
                }
            }
            i = i + 1;
        }
        assert(v@.to_set() =~= self@);
        v
    }

    /// The number of values in the set.
    pub fn len(&self) -> (n: usize)
        requires
            self.wf(),
        ensures
            n == self@.len(),
    {
        let v = self.to_vec();
        proof {
            assert(v@.no_duplicates());
            v@.unique_seq_to_set();
        }
        v.len()
    }
}

} // verus!
