//! The index bookkeeping of the calligraphy ribbon: which neighbours give
//! the local direction at a point, and how the two offset sides are joined
//! into one closed outline. The offsets themselves are computed elsewhere.

use vstd::prelude::*;

verus! {

/// The positions whose points give the local direction at position `i` of
/// a polyline of `n` points: the previous and the next point, clamped to
/// the ends.
pub fn neighbours(i: usize, n: usize) -> (r: (usize, usize))
    requires
        i < n,
    ensures
        r.0 == (if i == 0 { 0 } else { i - 1 }),
        r.1 == (if i + 1 < n { i + 1 } else { n - 1 }),
        r.0 <= i <= r.1 < n,
{
    let prev = if i == 0 { 0 } else { i - 1 };
    let next = if i + 1 < n { i + 1 } else { n - 1 };
    (prev, next)
}

/// The closed outline of a ribbon: along the left side, then back along
/// the right side.
pub fn ribbon_ring<P>(left: Vec<P>, right: Vec<P>) -> (r: Vec<P>)
    ensures
        r@ == left@ + right@.reverse(),
{
    let ghost l0 = left@;
    let ghost r0 = right@;
    let mut ring = left;
    let mut rest = right;
    while rest.len() > 0
        invariant
            rest@ == r0.take(rest@.len() as int),
            rest@.len() <= r0.len(),
            ring@ == l0 + r0.skip(rest@.len() as int).reverse(),
        decreases rest@.len(),
    {
        let ghost k = rest@.len();
        match rest.pop() {
            Some(p) => {
                assert(p == r0[k - 1]);
                ring.push(p);
                assert(r0.skip(k - 1).reverse() =~= r0.skip(k as int).reverse().push(p));
                assert(rest@ =~= r0.take(k - 1));
            },
            None => {},
        }
    }
    assert(r0.skip(0) =~= r0);
    ring
}

} // verus!
