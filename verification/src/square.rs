use vstd::prelude::*;

verus! {

/// One of the two triangles that make up a square: the first on the
/// corners 0, 1, 2, the second on the corners 0, 2, 3.
#[derive(Clone, Copy, Debug, PartialEq, Eq, Structural)]
pub enum Half {
    First,
    Second,
}

/// The half of a square that a ray strikes, given what each half answered:
/// the nearer where both are hit, the second where they are equally near,
/// the one that is hit where only one is, and none where both are missed.
pub open spec fn struck_half(first: Option<u32>, second: Option<u32>) -> Option<Half> {
    match (first, second) {
        (Some(a), Some(b)) => if a < b {
            Some(Half::First)
        } else {
            Some(Half::Second)
        },
        (Some(_), None) => Some(Half::First),
        (None, Some(_)) => Some(Half::Second),
        (None, None) => None,
    }
}

/// What the struck half answered: the distance at which the square is hit.
pub open spec fn struck_at(first: Option<u32>, second: Option<u32>) -> Option<u32> {
    match struck_half(first, second) {
        Some(Half::First) => first,
        Some(Half::Second) => second,
        None => None,
    }
}

/// A square is hit exactly when one of its halves is, and then no nearer
/// than the nearer of them.
pub proof fn lemma_struck_is_nearest(first: Option<u32>, second: Option<u32>)
    ensures
        struck_at(first, second) is Some <==> first is Some || second is Some,
        first matches Some(a) ==> struck_at(first, second)->0 <= a,
        second matches Some(b) ==> struck_at(first, second)->0 <= b,
{
}

/// Chooses between the two halves of a square by what each answered to
/// the same ray.
pub fn nearer_half(first: Option<u32>, second: Option<u32>) -> (r: Option<Half>)
    ensures
        r == struck_half(first, second),
{
    match (first, second) {
        (Some(a), Some(b)) => {
            if a < b {
                Some(Half::First)
            } else {
                Some(Half::Second)
            }
        },
        (Some(_), None) => Some(Half::First),
        (None, Some(_)) => Some(Half::Second),
        (None, None) => None,
    }
}

} // verus!
