use vstd::prelude::*;

verus! {

/// `i` is the sphere that a ray meets first, given each sphere's hit distance
/// as an order key (`None`: no hit). Among spheres at the same least
/// distance, the one listed last wins.
pub open spec fn is_closest(hits: Seq<Option<u64>>, i: int) -> bool {
    &&& 0 <= i < hits.len()
    &&& hits[i] is Some
    &&& forall|j: int|
        0 <= j < hits.len() && #[trigger] hits[j] is Some ==> hits[i]->0 <= hits[j]->0 && (i < j
            ==> hits[i]->0 < hits[j]->0)
}

/// The scene query: picks the sphere hit nearest along a ray.
///
/// `hits[i]` is the hit distance of sphere `i` as an order key, or `None`
/// when the ray misses it. Distances are positive, so the bit patterns of
/// the floating-point distances order exactly as the distances do and
/// serve as keys. Returns `None` when nothing is hit.
pub fn closest_hit(hits: &Vec<Option<u64>>) -> (r: Option<usize>)
    ensures
        r is None <==> forall|j: int| 0 <= j < hits@.len() ==> #[trigger] hits@[j] is None,
        r matches Some(i) ==> is_closest(hits@, i as int),
{
    let mut best: Option<usize> = None;
    let mut i: usize = hits.len();
    while i > 0
        invariant
            i <= hits@.len(),
            best is None <==> forall|j: int| i <= j < hits@.len() ==> #[trigger] hits@[j] is None,
            best matches Some(b) ==> {
                &&& i <= b < hits@.len()
                &&& hits@[b as int] is Some
                &&& forall|j: int|
                    i <= j < hits@.len() && #[trigger] hits@[j] is Some ==> hits@[b as int]->0
                        <= hits@[j]->0 && (b < j ==> hits@[b as int]->0 < hits@[j]->0)
            },
        decreases i,
    {
        i = i - 1;
        if let Some(d) = hits[i] {
            match best {
                None => {
                    best = Some(i);
                },
                Some(b) => {
                    if let Some(db) = hits[b] {
                        if d < db {
                            best = Some(i);
                        }
                    }
                },
            }
        }
    }
    best
}

} // verus!
