//! Vertex ordering for GPU buffers: the two endpoints of each curve-network
//! edge, and the trivial index list and triangle corners of an unindexed
//! triangle soup (as used for slice meshes).

use vstd::prelude::*;

verus! {

/// The endpoint list of a set of edges: for edge `i`, the node at
/// `tails[i]` and then the node at `tips[i]`.
pub open spec fn edge_endpoint_seq<T>(nodes: Seq<T>, tails: Seq<u32>, tips: Seq<u32>) -> Seq<T> {
    Seq::new(
        2 * tails.len(),
        |k: int|
            if k % 2 == 0 {
                nodes[tails[k / 2] as int]
            } else {
                nodes[tips[k / 2] as int]
            },
    )
}

/// Lists the two endpoints (tail, then tip) of each edge, in edge order:
/// the vertices of a line list that draws the edges.
///
/// Every edge index must name a node, and each tail needs its tip.
pub fn edge_endpoints<T: Copy>(nodes: &[T], tails: &[u32], tips: &[u32]) -> (r: Vec<T>)
    requires
        tails@.len() <= tips@.len(),
        forall|i: int| 0 <= i < tails@.len() ==> (#[trigger] tails@[i]) < nodes@.len(),
        forall|i: int| 0 <= i < tails@.len() ==> (#[trigger] tips@[i]) < nodes@.len(),
    ensures
        r@ == edge_endpoint_seq(nodes@, tails@, tips@),
{
    let mut out: Vec<T> = Vec::new();
    let mut i: usize = 0;
    while i < tails.len()
        invariant
            tails@.len() <= tips@.len(),
            forall|j: int| 0 <= j < tails@.len() ==> (#[trigger] tails@[j]) < nodes@.len(),
            forall|j: int| 0 <= j < tails@.len() ==> (#[trigger] tips@[j]) < nodes@.len(),
            i <= tails@.len(),
            out@ =~= edge_endpoint_seq(nodes@, tails@.take(i as int), tips@),
        decreases tails@.len() - i,
    {
        let a = tails[i];
        let b = tips[i];
        assert(tails@[i as int] == a);
        assert(tips@[i as int] == b);
        out.push(nodes[a as usize]);
        out.push(nodes[b as usize]);
        assert(out@ =~= edge_endpoint_seq(nodes@, tails@.take(i + 1), tips@));
        i = i + 1;
    }
    assert(tails@.take(tails@.len() as int) =~= tails@);
    out
}

/// The indices `0, 1, ..., n - 1`.
pub fn sequential_indices(n: u32) -> (r: Vec<u32>)
    ensures
        r@.len() == n,
        forall|i: int| 0 <= i < n ==> r@[i] == i,
{
    let mut out: Vec<u32> = Vec::new();
    let mut i: u32 = 0;
    while i < n
        invariant
            i <= n,
            out@.len() == i,
            forall|j: int| 0 <= j < i ==> out@[j] == j,
        decreases n - i,
    {
        out.push(i);
        i = i + 1;
    }
    out
}

/// Which corner (0, 1 or 2) of its triangle the `i`-th vertex of a
/// triangle soup is: it selects the barycentric coordinate that is 1.
pub fn triangle_corner(i: usize) -> (r: usize)
    ensures
        r == i % 3,
        r < 3,
{
    i % 3
}

} // verus!
