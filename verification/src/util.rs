//! Small general helpers: combining optional values and limits that may
//! be infinite.

use vstd::prelude::*;

verus! {

/// Combines two optional values: both absent gives nothing, one present
/// gives that one, both present gives what `combine` makes of the two.
pub fn merge_options<T, F: Fn(T, T) -> T>(x: Option<T>, y: Option<T>, combine: F) -> (r: Option<
    T,
>)
    requires
        forall|a: T, b: T| combine.requires((a, b)),
    ensures
        x is None && y is None ==> r is None,
        x is Some && y is None ==> r == x,
        x is None && y is Some ==> r == y,
        x matches Some(a) ==> (y matches Some(b) ==> (r matches Some(c) && combine.ensures(
            (a, b),
            c,
        ))),
{
    if let Some(x) = x {
        if let Some(y) = y {
            Some(combine(x, y))
        } else {
            Some(x)
        }
    } else {
        y
    }
}

/// A limit that is either a finite value or unbounded.
#[derive(Clone, Copy, Debug)]
pub enum OrInf<T> {
    Only(T),
    Inf,
}

impl<T> OrInf<T> {
    /// Applies `f` to the finite value, if there is one.
    pub fn map<U, F: FnOnce(T) -> U>(self, f: F) -> (r: OrInf<U>)
        requires
            forall|a: T| f.requires((a,)),
        ensures
            self is Inf <==> r is Inf,
            self matches OrInf::Only(a) ==> (r matches OrInf::Only(b) && f.ensures((a,), b)),
    {
        match self {
            OrInf::Only(x) => OrInf::Only(f(x)),
            OrInf::Inf => OrInf::Inf,
        }
    }

    /// A borrowed view of the limit.
    pub fn as_ref(&self) -> (r: OrInf<&T>)
        ensures
            self is Inf <==> r is Inf,
            self matches OrInf::Only(a) ==> (r matches OrInf::Only(b) && a == b),
    {
        match self {
            OrInf::Only(x) => OrInf::Only(x),
            OrInf::Inf => OrInf::Inf,
        }
    }

    /// The finite value, or `d` when the limit is unbounded.
    pub fn unwrap_or(self, d: T) -> (r: T)
        ensures
            self matches OrInf::Only(a) ==> r == a,
            self is Inf ==> r == d,
    {
        match self {
            OrInf::Only(x) => x,
            OrInf::Inf => d,
        }
    }
}

} // verus!
