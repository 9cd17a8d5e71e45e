//! Discrete decision rules of the bidirectional path tracer.
//!
//! A path of total length `len` can be produced by any split into `s`
//! light-subpath vertices and `t = len - s` eye-subpath vertices. The
//! multiple-importance-sampling weight of one split is its probability
//! against the sum over every split that could have produced the same
//! path; a split contributes nothing when it would connect the two
//! subpaths across a specular (Dirac-delta) vertex, since such a
//! connection is a measure-zero event. These rules are pure bookkeeping
//! over vertex counts and specular flags and are verified here; the
//! probability densities themselves are floating-point work that stays
//! with the caller.

use vstd::prelude::*;

verus! {

/// The smallest light-subpath length tried for a total path length `len`
/// when the eye subpath holds at most `eye_cap` scattering vertices.
pub open spec fn spec_s_min(len: int, eye_cap: int) -> int {
    if len <= eye_cap + 2 {
        0
    } else {
        len - (eye_cap + 2)
    }
}

/// The largest light-subpath length tried for a total path length `len`
/// when the light subpath holds at most `light_cap` scattering vertices.
pub open spec fn spec_s_max(len: int, light_cap: int) -> int {
    if len - 2 <= light_cap + 2 {
        len - 2
    } else {
        light_cap + 2
    }
}

/// The range of light-subpath lengths `s` evaluated for a path of total
/// length `len`: every split `(s, len - s)` with at least two eye-side
/// vertices that both subpath caps allow. The range is never empty.
pub fn strategy_range(len: usize, eye_cap: usize, light_cap: usize) -> (r: (usize, usize))
    requires
        2 <= len,
        len <= eye_cap + light_cap + 4,
        eye_cap + light_cap + 4 <= usize::MAX,
    ensures
        r.0 == spec_s_min(len as int, eye_cap as int),
        r.1 == spec_s_max(len as int, light_cap as int),
        r.0 <= r.1,
{
    let s_min = if len <= eye_cap + 2 {
        0
    } else {
        len - (eye_cap + 2)
    };
    let s_max = if len - 2 <= light_cap + 2 {
        len - 2
    } else {
        light_cap + 2
    };
    (s_min, s_max)
}

/// Whether the split with `s` light vertices and `t` eye vertices can
/// carry probability, given the specular flags of the scattering vertices
/// of the two subpaths (eye side first-to-last, light side
/// first-to-last). The eye subpath must reach the connecting vertex, the
/// light subpath must provide `s - 2` scattering vertices beyond the
/// light point, and no connection may cross a specular vertex.
pub open spec fn spec_strategy_allowed(es: Seq<bool>, ls: Seq<bool>, s: int, t: int) -> bool {
    &&& t - 2 < es.len()
    &&& (s >= 2 ==> s - 2 < ls.len())
    &&& (s >= 1 ==> !es[t - 2])
    &&& (s >= 2 ==> !ls[s - 2])
}

/// Whether an alternative split `(s, t)` of an already sampled path keeps
/// a nonzero probability in the weight sum. `es` and `ls` are the specular
/// flags of the re-derived eye-side and light-side vertices. An eye
/// subpath that falls short by more than one vertex carries no
/// probability; one that falls short by exactly one is judged on its
/// connecting vertex alone; otherwise a connection across a specular
/// vertex, or a light subpath that falls short, carries none.
pub open spec fn spec_alternative_allowed(es: Seq<bool>, ls: Seq<bool>, s: int, t: int) -> bool {
    if t >= es.len() + 2 {
        false
    } else if t == es.len() + 1 {
        !(s >= 1 && es[t - 2])
    } else {
        &&& (s >= 2 ==> s < ls.len() + 2)
        &&& (s >= 1 ==> !es[t - 2])
        &&& (s >= 2 ==> !ls[s - 2])
    }
}

/// Decides whether an alternative split `(s, t)` contributes to the
/// multiple-importance-sampling weight sum, from the specular flags of the
/// re-derived vertices alone.
pub fn alternative_allowed(
    eye_specular: &Vec<bool>,
    light_specular: &Vec<bool>,
    s: usize,
    t: usize,
) -> (r: bool)
    requires
        t >= 2,
    ensures
        r == spec_alternative_allowed(eye_specular@, light_specular@, s as int, t as int),
{
    if t - 2 >= eye_specular.len() {
        false
    } else if t - 1 == eye_specular.len() {
        !(s >= 1 && eye_specular[t - 2])
    } else {
        if s >= 2 && s - 2 >= light_specular.len() {
            return false;
        }
        if s >= 1 && eye_specular[t - 2] {
            return false;
        }
        if s >= 2 && light_specular[s - 2] {
            return false;
        }
        true
    }
}

/// Decides whether the `(s, t)` split is evaluated at all: splits that
/// would treat a specular vertex as a connection point are skipped, as are
/// splits for which a subpath is too short.
pub fn strategy_allowed(
    eye_specular: &Vec<bool>,
    light_specular: &Vec<bool>,
    s: usize,
    t: usize,
) -> (r: bool)
    requires
        t >= 2,
    ensures
        r == spec_strategy_allowed(eye_specular@, light_specular@, s as int, t as int),
{
    if t - 2 >= eye_specular.len() {
        return false;
    }
    if s >= 2 && s - 2 >= light_specular.len() {
        return false;
    }
    if s >= 1 && eye_specular[t - 2] {
        return false;
    }
    if s >= 2 && light_specular[s - 2] {
        return false;
    }
    true
}

} // verus!
