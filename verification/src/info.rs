//! Stored information about Kubernetes objects and how fresh data is merged in.
use vstd::prelude::*;

pub mod pod;
pub mod node;
pub mod container;
pub mod small;

verus! {

/// `merged` is what a field holding `old` holds after an update whose value
/// for it is `newer`: the newer value where there is one, else the old.
pub open spec fn taken<T>(merged: Option<T>, old: Option<T>, newer: Option<T>) -> bool {
    &&& (newer is Some ==> merged == newer)
    &&& (newer is None ==> merged == old)
}

/// `a.or(b)`: `a` where it holds a value, else `b`.
pub open spec fn or_else<T>(a: Option<T>, b: Option<T>) -> Option<T> {
    match a {
        Some(x) => Some(x),
        None => b,
    }
}

/// `a.or(b)`.
pub fn either<T>(a: Option<T>, b: Option<T>) -> (r: Option<T>)
    ensures
        r == or_else(a, b),
{
    match a {
        Some(x) => Some(x),
        None => b,
    }
}

} // verus!
