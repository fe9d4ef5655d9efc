use vstd::prelude::*;

verus! {

/// The edges of a closed polygon over vertices `0..n`: each vertex joined
/// to the next and the last back to the first.
pub open spec fn ring_edges(n: nat) -> Seq<(usize, usize)> {
    Seq::new(n, |i: int| (i as usize, ((i + 1) % (n as int)) as usize))
}

/// The edges of the closed polygon that a polyline of `n` vertices is
/// turned into before it is extruded into a solid; a polyline of fewer
/// than three vertices makes no solid.
pub fn polyline_ring_edges(n: usize) -> (r: Option<Vec<(usize, usize)>>)
    ensures
        n < 3 ==> r is None,
        n >= 3 ==> (r matches Some(v) && v@ == ring_edges(n as nat)),
{
    if n < 3 {
        return None;
    }
    let mut v: Vec<(usize, usize)> = Vec::new();
    let mut i: usize = 0;
    while i < n
        invariant
            n >= 3,
            i <= n,
            v@.len() == i,
            forall|j: int| 0 <= j < i ==> #[trigger] v@[j] == ring_edges(n as nat)[j],
        decreases n - i,
    {
        let next = if i + 1 == n {
            0
        } else {
            i + 1
        };
        proof {
            if i + 1 == n {
                vstd::arithmetic::div_mod::lemma_mod_self_0(n as int);
            } else {
                vstd::arithmetic::div_mod::lemma_small_mod((i + 1) as nat, n as nat);
            }
        }
        v.push((i, next));
        i = i + 1;
    }
    assert(v@ =~= ring_edges(n as nat));
    Some(v)
}

} // verus!
