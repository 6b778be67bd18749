use vstd::prelude::*;

verus! {

/// A hit of a ray on one element of a scene.
///
/// The element is named by its index in the scene's element list. The
/// distance along the ray is held as an order-preserving key: for distances
/// that are not negative, a larger key means a farther hit.
#[derive(Clone, Copy, Debug, PartialEq, Eq, Structural)]
pub struct Intersection {
    pub distance_key: u64,
    pub element: usize,
}

impl Intersection {
    pub fn new(distance_key: u64, element: usize) -> (r: Intersection)
        ensures
            r.distance_key == distance_key,
            r.element == element,
    {
        Intersection { distance_key, element }
    }
}

/// Whether no element is hit at all.
pub open spec fn all_miss(hits: Seq<Option<u64>>) -> bool {
    forall|j: int| 0 <= j < hits.len() ==> (#[trigger] hits[j]) is None
}

/// Whether element `i` is the nearest hit: it is hit, no hit is nearer, and
/// every element before it that is hit lies strictly farther (the first of
/// equally near hits is chosen).
pub open spec fn is_nearest(hits: Seq<Option<u64>>, i: int) -> bool {
    &&& 0 <= i < hits.len()
    &&& hits[i] is Some
    &&& forall|j: int|
        0 <= j < hits.len() && (#[trigger] hits[j]) is Some ==> hits[i]->0 <= hits[j]->0
    &&& forall|j: int| 0 <= j < i && (#[trigger] hits[j]) is Some ==> hits[i]->0 < hits[j]->0
}

/// Picks, among the elements that a ray hits, the one at the smallest
/// distance. `hits[i]` is the distance key of element `i`, or `None` where
/// the ray misses it.
pub fn nearest_hit(hits: &Vec<Option<u64>>) -> (r: Option<Intersection>)
    ensures
        r is None <==> all_miss(hits@),
        r matches Some(h) ==> is_nearest(hits@, h.element as int) && Some(h.distance_key)
            == hits@[h.element as int],
{
    let mut best: Option<Intersection> = None;
    let mut i: usize = 0;
    while i < hits.len()
        invariant
            0 <= i <= hits.len(),
            best is None <==> all_miss(hits@.subrange(0, i as int)),
            best matches Some(h) ==> is_nearest(hits@.subrange(0, i as int), h.element as int)
                && Some(h.distance_key) == hits@[h.element as int],
        decreases hits.len() - i,
    {
        let prefix = Ghost(hits@.subrange(0, i as int));
        let next = Ghost(hits@.subrange(0, i + 1));
        if let Some(d) = hits[i] {
            let better = match best {
                None => true,
                Some(h) => d < h.distance_key,
            };
            if better {
                best = Some(Intersection::new(d, i));
            }
        }
        proof {
            assert(next@ =~= prefix@.push(hits@[i as int]));
            assert forall|j: int| 0 <= j < i implies next@[j] == prefix@[j] by {}
        }
        i = i + 1;
    }
    proof {
        assert(hits@.subrange(0, hits@.len() as int) =~= hits@);
    }
    best
}

/// The distance of the nearest hit does not depend on the order in which the
/// elements are listed: where two lists hold the same hits, their nearest
/// hits lie at the same distance.
pub proof fn lemma_nearest_distance_order_independent(
    hits: Seq<Option<u64>>,
    reordered: Seq<Option<u64>>,
    i: int,
    j: int,
)
    requires
        hits.to_multiset() == reordered.to_multiset(),
        is_nearest(hits, i),
        is_nearest(reordered, j),
    ensures
        hits[i] == reordered[j],
{
    broadcast use vstd::seq_lib::to_multiset_contains;

    assert(hits.contains(hits[i]));
    assert(hits.to_multiset().count(hits[i]) > 0);
    assert(reordered.contains(hits[i]) <==> reordered.to_multiset().count(hits[i]) > 0);
    let k = choose|k: int| 0 <= k < reordered.len() && reordered[k] == hits[i];
    assert(reordered[j]->0 <= reordered[k]->0);
    assert(reordered.contains(reordered[j]));
    assert(reordered.to_multiset().count(reordered[j]) > 0);
    assert(hits.contains(reordered[j]) <==> hits.to_multiset().count(reordered[j]) > 0);
    let m = choose|m: int| 0 <= m < hits.len() && hits[m] == reordered[j];
    assert(hits[i]->0 <= hits[m]->0);
}

} // verus!
