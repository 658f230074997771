use crate::color::ComparableColor;
use core::cmp::Ordering;
use vstd::prelude::*;
use vstd::std_specs::cmp::PartialEqSpecImpl;
use vstd::std_specs::cmp::PartialOrdSpecImpl;

verus! {

/// The order of two integers as an `Ordering`.
pub open spec fn order_of(a: int, b: int) -> Ordering {
    if a < b {
        Ordering::Less
    } else if a == b {
        Ordering::Equal
    } else {
        Ordering::Greater
    }
}

/// Two colors are the same exactly when their sort keys are equal, so that equality and the
/// order agree (colors that are the same also give the same hash bytes, see
/// `ComparableColor::hash_bytes`); being the same is reflexive, symmetric and transitive.
pub proof fn lemma_same_as_is_key_equality(a: ComparableColor, b: ComparableColor, c: ComparableColor)
    ensures
        a.same_as(b) <==> a.sort_key() == b.sort_key(),
        a.same_as(a),
        a.same_as(b) ==> b.same_as(a),
        a.same_as(b) && b.same_as(c) ==> a.same_as(c),
        a.sort_key() < b.sort_key() || a.same_as(b) || b.sort_key() < a.sort_key(),
{
    if a.alpha != 0 && b.alpha != 0 && a.sort_key() == b.sort_key() {
        assert(a.alpha == b.alpha && a.red == b.red && a.green == b.green && a.blue == b.blue) by (nonlinear_arith)
            requires
                a.alpha * 0x1000000 + a.red * 0x10000 + a.green * 0x100 + a.blue == b.alpha * 0x1000000 + b.red
                    * 0x10000 + b.green * 0x100 + b.blue,
                0 <= a.red < 256,
                0 <= a.green < 256,
                0 <= a.blue < 256,
                0 <= b.red < 256,
                0 <= b.green < 256,
                0 <= b.blue < 256,
                0 <= a.alpha < 256,
                0 <= b.alpha < 256,
        ;
    }
}

impl PartialEq for ComparableColor {
    fn eq(&self, other: &Self) -> (r: bool) {
        self.is_same(other)
    }
}

impl PartialEqSpecImpl for ComparableColor {
    open spec fn obeys_eq_spec() -> bool {
        true
    }

    open spec fn eq_spec(&self, other: &ComparableColor) -> bool {
        self.same_as(*other)
    }
}

impl Eq for ComparableColor {}

impl PartialOrd for ComparableColor {
    /// Colors are ordered by their sort key: fully transparent first, then by alpha, red,
    /// green and blue.
    fn partial_cmp(&self, other: &Self) -> (r: Option<Ordering>) {
        let a = self.key();
        let b = other.key();
        if a < b {
            Some(Ordering::Less)
        } else if a == b {
            Some(Ordering::Equal)
        } else {
            Some(Ordering::Greater)
        }
    }
}

impl PartialOrdSpecImpl for ComparableColor {
    open spec fn obeys_partial_cmp_spec() -> bool {
        true
    }

    open spec fn partial_cmp_spec(&self, other: &ComparableColor) -> Option<Ordering> {
        Some(order_of(self.sort_key(), other.sort_key()))
    }
}

} // verus!
