//! Linear searches over a slice by index.
use vstd::prelude::*;

verus! {

/// The greatest index below `end` whose item satisfies `predicate`.
pub fn position_before<T, P>(slice: &[T], end: usize, predicate: P) -> (r: Option<usize>)
    where
        P: Fn(&T) -> bool,
    requires
        end <= slice@.len(),
        forall|i: int| 0 <= i < end ==> predicate.requires((&slice@[i],)),
    ensures
        match r {
            Some(i) => i < end && predicate.ensures((&slice@[i as int],), true) && forall|j: int|
                i < j < end ==> predicate.ensures((&slice@[j],), false),
            None => forall|j: int| 0 <= j < end ==> predicate.ensures((&slice@[j],), false),
        },
{
    let mut i = end;
    while i > 0
        invariant
            i <= end <= slice@.len(),
            forall|j: int| 0 <= j < end ==> predicate.requires((&slice@[j],)),
            forall|j: int| i <= j < end ==> predicate.ensures((&slice@[j],), false),
        decreases i,
    {
        i = i - 1;
        if predicate(&slice[i]) {
            return Some(i);
        }
    }
    None
}

/// The least index above `start` whose item satisfies `predicate`.
pub fn position_after<T, P>(slice: &[T], start: usize, predicate: P) -> (r: Option<usize>)
    where
        P: Fn(&T) -> bool,
    requires
        forall|i: int| start < i < slice@.len() ==> predicate.requires((&slice@[i],)),
    ensures
        match r {
            Some(i) => start < i < slice@.len() && predicate.ensures((&slice@[i as int],), true)
                && forall|j: int| start < j < i ==> predicate.ensures((&slice@[j],), false),
            None => forall|j: int| start < j < slice@.len() ==> predicate.ensures((&slice@[j],), false),
        },
{
    if start >= slice.len() {
        return None;
    }
    let mut i = start + 1;
    while i < slice.len()
        invariant
            start < i <= slice@.len(),
            forall|j: int| start < j < slice@.len() ==> predicate.requires((&slice@[j],)),
            forall|j: int| start < j < i ==> predicate.ensures((&slice@[j],), false),
        decreases slice@.len() - i,
    {
        if predicate(&slice[i]) {
            return Some(i);
        }
        i = i + 1;
    }
    None
}

} // verus!
