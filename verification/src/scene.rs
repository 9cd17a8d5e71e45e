//! Emissive-object bookkeeping for the scene.
//!
//! When a scene is built, the indices of its emissive objects are collected
//! once; light sampling then picks uniformly among them. The geometric side
//! of the scene (the bounding-volume hierarchy and the intersection tests)
//! is floating-point work that lives with the caller; what is verified here
//! is the derivation of the light list.

use vstd::prelude::*;

verus! {

/// The light list derived from the emission flags: index `i` is listed
/// exactly when object `i` is emissive, and indices appear in increasing
/// order.
pub open spec fn is_light_list(emissive: Seq<bool>, lights: Seq<usize>) -> bool {
    &&& forall|k: int|
        0 <= k < lights.len() ==> (#[trigger] lights[k]) < emissive.len() && emissive[lights[k] as int]
    &&& forall|i: int|
        0 <= i < emissive.len() && emissive[i] ==> lights.contains(i as usize)
    &&& forall|k: int, l: int| 0 <= k < l < lights.len() ==> lights[k] < lights[l]
}

/// Collects the indices of the emissive objects, in increasing order.
/// `emissive[i]` says whether object `i` has an emission radiance.
pub fn light_indices(emissive: &Vec<bool>) -> (lights: Vec<usize>)
    ensures
        is_light_list(emissive@, lights@),
{
    let mut lights: Vec<usize> = Vec::new();
    let mut i: usize = 0;
    while i < emissive.len()
        invariant
            i <= emissive@.len(),
            forall|k: int|
                0 <= k < lights@.len() ==> (#[trigger] lights@[k]) < i && emissive@[lights@[k] as int],
            forall|j: int| 0 <= j < i && emissive@[j] ==> lights@.contains(j as usize),
            forall|k: int, l: int| 0 <= k < l < lights@.len() ==> lights@[k] < lights@[l],
        decreases emissive@.len() - i,
    {
        let ghost prev = lights@;
        if emissive[i] {
            lights.push(i);
        }
        proof {
            assert forall|j: int| 0 <= j < i + 1 && emissive@[j] implies lights@.contains(
                j as usize,
            ) by {
                if j < i {
                    assert(prev.contains(j as usize));
                    let k = choose|k: int| 0 <= k < prev.len() && prev[k] == j as usize;
                    assert(lights@[k] == j as usize);
                } else if emissive@[i as int] {
                    assert(lights@[lights@.len() - 1] == i);
                }
            }
        }
        i = i + 1;
    }
    lights
}

} // verus!
