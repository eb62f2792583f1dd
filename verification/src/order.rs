//! Order, as contracts speak of it.
//!
//! A type is [`Ordered`] if it can say of two of its values whether they are
//! in order, and can say so in contracts. What holds of an order only if it
//! is total is stated under [`is_total`].

use crate::storage::HandleWrapper;
use vstd::prelude::*;

verus! {

/// A type with an order
pub trait Ordered: Copy {
    /// `a` comes before `b`, or neither comes before the other
    spec fn ordered(a: Self, b: Self) -> bool;

    /// Whether `a` comes before `b`, or neither comes before the other
    ///
    /// Of two values that are not in order, the second comes before the
    /// first.
    fn in_order(a: &Self, b: &Self) -> (r: bool)
        ensures
            r == Self::ordered(*a, *b),
            !r ==> Self::ordered(*b, *a),
    ;
}

/// Of any two values one comes before the other or neither does, and what
/// comes before a value comes before all that the value comes before
pub open spec fn is_total<S: Ordered>() -> bool {
    &&& forall|a: S, b: S| #[trigger] S::ordered(a, b) || S::ordered(b, a)
    &&& forall|a: S, b: S, c: S|
        #[trigger] S::ordered(a, b) && #[trigger] S::ordered(b, c) ==> S::ordered(a, c)
}

/// `a` comes before `b`
pub open spec fn before<S: Ordered>(a: S, b: S) -> bool {
    !S::ordered(b, a)
}

/// Neither of `a` and `b` comes before the other
pub open spec fn level<S: Ordered>(a: S, b: S) -> bool {
    S::ordered(a, b) && S::ordered(b, a)
}

/// The later of two values, and the second of two of which neither comes
/// before the other
pub open spec fn later<S: Ordered>(a: S, b: S) -> S {
    if S::ordered(a, b) {
        b
    } else {
        a
    }
}

/// The earlier of two values, and the first of two of which neither comes
/// before the other
pub open spec fn earlier<S: Ordered>(a: S, b: S) -> S {
    if S::ordered(a, b) {
        a
    } else {
        b
    }
}

/// The later of two values
pub fn max<S: Ordered>(a: S, b: S) -> (r: S)
    ensures
        r == later(a, b),
{
    if S::in_order(&a, &b) {
        b
    } else {
        a
    }
}

/// The earlier of two values
pub fn min<S: Ordered>(a: S, b: S) -> (r: S)
    ensures
        r == earlier(a, b),
{
    if S::in_order(&a, &b) {
        a
    } else {
        b
    }
}

impl Ordered for u64 {
    open spec fn ordered(a: u64, b: u64) -> bool {
        a <= b
    }

    fn in_order(a: &u64, b: &u64) -> (r: bool) {
        *a <= *b
    }
}

impl Ordered for i64 {
    open spec fn ordered(a: i64, b: i64) -> bool {
        a <= b
    }

    fn in_order(a: &i64, b: &i64) -> (r: bool) {
        *a <= *b
    }
}

impl Ordered for i32 {
    open spec fn ordered(a: i32, b: i32) -> bool {
        a <= b
    }

    fn in_order(a: &i32, b: &i32) -> (r: bool) {
        *a <= *b
    }
}

/// Handles are ordered by their ids: by the number of the store first, and
/// in a store by the number of the slot.
impl<T> Ordered for HandleWrapper<T> {
    open spec fn ordered(a: HandleWrapper<T>, b: HandleWrapper<T>) -> bool {
        a@@.0 < b@@.0 || (a@@.0 == b@@.0 && a@@.1 <= b@@.1)
    }

    fn in_order(a: &HandleWrapper<T>, b: &HandleWrapper<T>) -> (r: bool) {
        let a = a.id();
        let b = b.id();
        a.arena() < b.arena() || (a.arena() == b.arena() && a.slot() <= b.slot())
    }
}

/// The order of whole numbers is total.
pub proof fn lemma_numbers_are_total()
    ensures
        is_total::<u64>(),
        is_total::<i64>(),
        is_total::<i32>(),
{
}

/// The order of handles is total.
pub proof fn lemma_handles_are_total<T>()
    ensures
        is_total::<HandleWrapper<T>>(),
{
}

} // verus!
