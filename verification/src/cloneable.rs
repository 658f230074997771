use std::sync::Arc;
use vstd::prelude::*;

verus! {

/// An error that can be cloned and shared between the tasks that wait on it: only its message
/// is kept.
#[derive(Clone, Debug, PartialEq, Eq, Hash)]
pub struct CloneableError {
    pub message: String,
}

impl CloneableError {
    /// The error with the given message.
    pub fn from_message(message: String) -> (r: CloneableError)
        ensures
            r.message@ == message@,
    {
        CloneableError { message }
    }

    /// The message of the error.
    pub fn to_display_string(&self) -> (r: String)
        ensures
            r@ == self.message@,
    {
        self.message.clone()
    }
}

/// A value that is shared behind a reference count, owned and cloned on demand, or borrowed.
#[verifier::reject_recursive_types(T)]
pub enum Arcow<'a, T> {
    SharingRef(Arc<T>),
    Cloning(T),
    Borrowing(&'a T),
}

impl<'a, T> View for Arcow<'a, T> {
    type V = T;

    /// The value held, however it is held.
    open spec fn view(&self) -> T {
        match self {
            Arcow::SharingRef(arc) => **arc,
            Arcow::Cloning(value) => *value,
            Arcow::Borrowing(borrowed) => **borrowed,
        }
    }
}

/// Calls `Arc::unwrap_or_clone`, which gives the value when this is the only reference to it
/// and otherwise a clone of it (std's documentation).
#[verifier::external_body]
fn unwrap_or_clone<T: Clone>(arc: Arc<T>) -> (r: T)
    ensures
        r == *arc || cloned::<T>(*arc, r),
{
    Arc::unwrap_or_clone(arc)
}

/// The size in bytes above which an owned value is shared behind a reference count rather
/// than cloned: eight machine words.
pub open spec fn arc_threshold() -> int {
    8 * (usize::BITS as int / 8)
}

/// Calls `Arc::make_mut`, which gives mutable access to the shared value: to the value itself
/// when this is the only reference to it, else to a clone that the `Arc` then holds alone
/// (std's documentation). What is written through the access is what the `Arc` holds after.
#[verifier::external_body]
fn make_mut<T: Clone>(arc: &mut Arc<T>) -> (r: &mut T)
    ensures
        *r == **old(arc) || cloned::<T>(**old(arc), *r),
        **final(arc) == *final(r),
{
    Arc::make_mut(arc)
}

impl<'a, T> Arcow<'a, T> {
    /// Holds `value` to be cloned when it is needed elsewhere.
    pub fn cloning_from(value: T) -> (r: Arcow<'a, T>)
        ensures
            r == Arcow::<'a, T>::Cloning(value),
    {
        Arcow::Cloning(value)
    }

    /// Borrows `value`.
    pub fn borrowing_from(value: &'a T) -> (r: Arcow<'a, T>)
        ensures
            r == Arcow::<'a, T>::Borrowing(value),
    {
        Arcow::Borrowing(value)
    }

    /// Shares `value` behind a reference count.
    pub fn sharing_ref(value: T) -> (r: Arcow<'a, T>)
        ensures
            r is SharingRef,
            r@ == value,
    {
        Arcow::SharingRef(Arc::new(value))
    }

    /// Holds an owned value: shared behind a reference count when it takes more than eight
    /// machine words ([`arc_threshold`]), where sharing is cheaper than copying, else held to be
    /// cloned.
    pub fn from_owned(value: T) -> (r: Arcow<'a, T>)
        ensures
            r@ == value,
            vstd::layout::spec_size_of_val::<T>(&value) > arc_threshold() ==> r is SharingRef,
            vstd::layout::spec_size_of_val::<T>(&value) <= arc_threshold() ==> r is Cloning,
    {
        let threshold: usize = 8 * (usize::BITS as usize / 8);
        if core::mem::size_of_val(&value) > threshold {
            Self::sharing_ref(value)
        } else {
            Self::cloning_from(value)
        }
    }

    /// The value held.
    pub fn value(&self) -> (r: &T)
        ensures
            *r == self@,
    {
        match self {
            Arcow::SharingRef(arc) => &**arc,
            Arcow::Cloning(value) => value,
            Arcow::Borrowing(borrowed) => *borrowed,
        }
    }
}

impl<'a, T: Clone> Arcow<'a, T> {
    /// The value held, to change: a borrowed value is first copied into a shared one, and a
    /// shared value is copied first when something else shares it too. What is written through
    /// the access is the value held after. The access starts at the value held, or a clone of
    /// it (of a borrowed value, possibly a clone of that clone).
    pub fn value_mut(&mut self) -> (r: &mut T)
        ensures
            *r == old(self)@ || cloned::<T>(old(self)@, *r) || (*old(self) is Borrowing && exists|c: T|
                cloned::<T>(old(self)@, c) && #[trigger] cloned::<T>(c, *r)),
            final(self)@ == *final(r),
            *old(self) is Cloning ==> *final(self) is Cloning,
            !(*old(self) is Cloning) ==> *final(self) is SharingRef,
    {
        let ghost held = self@;
        let ghost copied: Option<T> = None;
        if let Arcow::Borrowing(borrowed) = self {
            let copy = borrowed.clone();
            proof {
                copied = Some(copy);
            }
            *self = Arcow::SharingRef(Arc::new(copy));
        }
        assert(copied matches Some(c) ==> cloned::<T>(held, c) && self@ == c);
        match self {
            Arcow::Cloning(value) => value,
            Arcow::SharingRef(arc) => {
                let r = make_mut(arc);
                proof {
                    if let Some(c) = copied {
                        if *r != c {
                            assert(cloned::<T>(held, c) && cloned::<T>(c, *r));
                        }
                    }
                }
                r
            },
            Arcow::Borrowing(_) => unreached(),
        }
    }

    /// Hands an owned copy of the value to `action`: the value itself when nothing else
    /// holds it, else a clone.
    pub fn consume<R, F: FnOnce(T) -> R>(self, action: F) -> (r: R)
        requires
            forall|v: T| #[trigger] call_requires(action, (v,)),
        ensures
            exists|v: T| (v == self@ || cloned::<T>(self@, v)) && #[trigger] call_ensures(action, (v,), r),
    {
        let ghost held = self@;
        let value = match self {
            Arcow::SharingRef(arc) => unwrap_or_clone(arc),
            Arcow::Cloning(value) => value,
            Arcow::Borrowing(borrowed) => borrowed.clone(),
        };
        assert(value == held || cloned::<T>(held, value));
        let r = action(value);
        assert(call_ensures(action, (value,), r));
        r
    }
}

} // verus!
