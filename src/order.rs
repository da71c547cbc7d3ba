use vstd::prelude::*;

verus! {

/// Face `a` is drawn before face `b`: it is farther (a larger depth key), or as far and emitted
/// earlier.
pub open spec fn drawn_before(keys: Seq<u64>, a: int, b: int) -> bool {
    keys[a] > keys[b] || (keys[a] == keys[b] && a < b)
}

/// `order` lists every face index below `keys.len()`, farthest first, ties in index order.
pub open spec fn is_draw_order(keys: Seq<u64>, order: Seq<usize>) -> bool {
    &&& order.len() == keys.len()
    &&& forall|i: int| 0 <= i < order.len() ==> #[trigger] order[i] < keys.len()
    &&& forall|i: int, j: int|
        0 <= i < j < order.len() ==> drawn_before(keys, #[trigger] order[i] as int, #[trigger] order[j] as int)
}

/// The painter's order of faces whose depth keys are `keys`: the indices of all faces, sorted
/// by descending key, stable on ties. A key is any order-preserving encoding of the depth, such
/// as the bits of a non-negative float.
pub fn order_faces(keys: &Vec<u64>) -> (order: Vec<usize>)
    ensures
        is_draw_order(keys@, order@),
{
    let mut order: Vec<usize> = Vec::new();
    let mut t: usize = 0;
    while t < keys.len()
        invariant
            t <= keys@.len(),
            order@.len() == t,
            forall|i: int| 0 <= i < order@.len() ==> #[trigger] order@[i] < t,
            forall|i: int, j: int|
                0 <= i < j < order@.len() ==> drawn_before(keys@, #[trigger] order@[i] as int, #[trigger] order@[j] as int),
        decreases keys@.len() - t,
    {
        let kt = keys[t];
        let mut p: usize = 0;
        while p < order.len() && keys[order[p]] >= kt
            invariant
                t < keys@.len(),
                kt == keys@[t as int],
                p <= order@.len(),
                order@.len() == t,
                forall|i: int| 0 <= i < order@.len() ==> #[trigger] order@[i] < t,
                forall|q: int| 0 <= q < p ==> keys@[#[trigger] order@[q] as int] >= kt,
            decreases order@.len() - p,
        {
            p = p + 1;
        }
        let ghost before = order@;
        order.insert(p, t);
        assert forall|i: int, j: int|
            0 <= i < j < order@.len() implies drawn_before(keys@, #[trigger] order@[i] as int, #[trigger] order@[j] as int) by {
            if j < p {
                assert(order@[i] == before[i] && order@[j] == before[j]);
            } else if j == p {
                assert(order@[i] == before[i]);
            } else if i == p {
                assert(order@[j] == before[j - 1]);
                assert(drawn_before(keys@, before[p as int] as int, before[j - 1] as int) || j - 1 == p);
            } else if i < p {
                assert(order@[i] == before[i] && order@[j] == before[j - 1]);
            } else {
                assert(order@[i] == before[i - 1] && order@[j] == before[j - 1]);
            }
        }
        t = t + 1;
    }
    order
}

/// Farther faces are drawn first: of two faces with different depth keys, the one with the
/// larger key comes earlier in the draw order.
pub proof fn lemma_farther_first(keys: Seq<u64>, order: Seq<usize>, i: int, j: int)
    requires
        is_draw_order(keys, order),
        0 <= i < order.len(),
        0 <= j < order.len(),
        keys[order[i] as int] > keys[order[j] as int],
    ensures
        i < j,
{
    if j < i {
        assert(drawn_before(keys, order[j] as int, order[i] as int));
    }
}

} // verus!
