//! Lists.
use vstd::prelude::*;

verus! {

/// The first `n` of `s`, or all where there are fewer.
pub open spec fn at_most<T>(s: Seq<T>, n: int) -> Seq<T> {
    if s.len() <= n {
        s
    } else {
        s.take(n)
    }
}

} // verus!
