//! Kinds of lights and the resolutions of their shadow maps.

use vstd::prelude::*;

verus! {

/// How a light is added to a scene: as one of the light sources, or as the
/// single ambient light.
#[derive(PartialEq, Eq, Structural, Debug, Clone, Copy)]
pub enum LightEmissionType {
    Source,
    Ambient,
}

/// The side length, in texels, of the shadow maps.
#[derive(PartialEq, Eq, Structural, Debug, Clone, Copy)]
pub enum ShadowResolution {
    Low,
    Medium,
    High,
    Ultra,
    Custom(u32),
}

/// The side length that a resolution stands for: 512, 1024, 2048 and 4096
/// texels for the four presets, the given value for a custom one.
pub open spec fn resolution_texels(r: ShadowResolution) -> u32 {
    match r {
        ShadowResolution::Low => 512,
        ShadowResolution::Medium => 1024,
        ShadowResolution::High => 2048,
        ShadowResolution::Ultra => 4096,
        ShadowResolution::Custom(v) => v,
    }
}

/// The shadow map resolution that a scene starts with.
pub const DEFAULT_SHADOW_RESOLUTION: u32 = 1024;

impl ShadowResolution {
    pub fn value(&self) -> (r: u32)
        ensures
            r == resolution_texels(*self),
    {
        match self {
            ShadowResolution::Low => 512,
            ShadowResolution::Medium => 1024,
            ShadowResolution::High => 2048,
            ShadowResolution::Ultra => 4096,
            ShadowResolution::Custom(v) => *v,
        }
    }
}

/// The presets grow with their names, each doubling the one before.
pub proof fn lemma_presets_double()
    ensures
        resolution_texels(ShadowResolution::Medium) == 2 * resolution_texels(ShadowResolution::Low),
        resolution_texels(ShadowResolution::High) == 2 * resolution_texels(ShadowResolution::Medium),
        resolution_texels(ShadowResolution::Ultra) == 2 * resolution_texels(ShadowResolution::High),
        resolution_texels(ShadowResolution::Medium) == DEFAULT_SHADOW_RESOLUTION,
{
}

/// The most lights that light one object.
pub const MAX_LIGHTS_PER_OBJECT: usize = 4;

/// The distances of the kept lights.
pub open spec fn kept_distances(kept: Seq<(usize, Option<u32>)>) -> Seq<Option<u32>> {
    kept.map_values(|p: (usize, Option<u32>)| p.1)
}

/// The farthest of the kept lights, as the selection finds it: scanning the
/// slots in order from slot 0 and distance 0, a slot becomes the farthest
/// when its distance is strictly greater than the farthest so far. An
/// unknown distance (`None`) is never greater. Gives the slot and its distance.
pub open spec fn farthest_slot(distances: Seq<Option<u32>>) -> (int, u32)
    decreases distances.len(),
{
    if distances.len() == 0 {
        (0, 0)
    } else {
        let before = farthest_slot(distances.drop_last());
        match distances.last() {
            Some(d) => if d > before.1 { ((distances.len() - 1) as int, d) } else { before },
            None => before,
        }
    }
}

/// One step of the selection: while fewer than four lights are kept, the
/// light is kept; after that it takes the farthest kept light's slot when
/// its distance is known and strictly smaller.
pub open spec fn select_step(kept: Seq<(usize, Option<u32>)>, light: usize, distance: Option<u32>) -> Seq<(usize, Option<u32>)> {
    if kept.len() < MAX_LIGHTS_PER_OBJECT {
        kept.push((light, distance))
    } else {
        let far = farthest_slot(kept_distances(kept));
        match distance {
            Some(d) => if d < far.1 { kept.update(far.0, (light, distance)) } else { kept },
            None => kept,
        }
    }
}

/// The lights kept after going through all of them in order, each with its
/// distance, in slot order.
pub open spec fn closest_selection(distances: Seq<Option<u32>>) -> Seq<(usize, Option<u32>)>
    decreases distances.len(),
{
    if distances.len() == 0 {
        seq![]
    } else {
        select_step(closest_selection(distances.drop_last()), (distances.len() - 1) as usize, distances.last())
    }
}

/// Whether light `j` is among the kept ones.
pub open spec fn is_kept(kept: Seq<(usize, Option<u32>)>, j: int) -> bool {
    exists|k: int| 0 <= k < kept.len() && kept[k].0 == j
}

/// The farthest slot holds the greatest known distance, and lies in range.
proof fn lemma_farthest(distances: Seq<Option<u32>>)
    ensures
        forall|k: int| 0 <= k < distances.len() && (#[trigger] distances[k]) is Some
            ==> distances[k]->0 <= farthest_slot(distances).1,
        farthest_slot(distances).1 > 0 ==> 0 <= farthest_slot(distances).0 < distances.len()
            && distances[farthest_slot(distances).0] == Some(farthest_slot(distances).1),
        distances.len() > 0 ==> 0 <= farthest_slot(distances).0 < distances.len(),
    decreases distances.len(),
{
    if distances.len() > 0 {
        let before = distances.drop_last();
        lemma_farthest(before);
        assert forall|k: int| 0 <= k < distances.len() && (#[trigger] distances[k]) is Some
            implies distances[k]->0 <= farthest_slot(distances).1 by {
            if k < distances.len() - 1 {
                assert(before[k] == distances[k]);
            }
        }
        if farthest_slot(distances).1 > 0 && farthest_slot(distances) == farthest_slot(before) {
            assert(before[farthest_slot(before).0] == distances[farthest_slot(before).0]);
        }
    }
}

/// What the selection keeps: at most four lights, each once, with its own
/// distance; the first lights while there are at most four; and every light
/// it leaves out whose distance is known is at least as far as the farthest
/// kept one.
proof fn lemma_selection(distances: Seq<Option<u32>>)
    requires
        distances.len() <= usize::MAX,
    ensures
        closest_selection(distances).len() == if distances.len() < MAX_LIGHTS_PER_OBJECT { distances.len() } else { MAX_LIGHTS_PER_OBJECT as nat },
        forall|k: int| 0 <= k < closest_selection(distances).len() ==> {
            let p = #[trigger] closest_selection(distances)[k];
            p.0 < distances.len() && p.1 == distances[p.0 as int]
        },
        forall|k: int, l: int| 0 <= k < l < closest_selection(distances).len()
            ==> #[trigger] closest_selection(distances)[k].0 != #[trigger] closest_selection(distances)[l].0,
        distances.len() <= MAX_LIGHTS_PER_OBJECT ==> forall|k: int| 0 <= k < closest_selection(distances).len()
            ==> #[trigger] closest_selection(distances)[k].0 == k,
        forall|j: int| 0 <= j < distances.len() && (#[trigger] distances[j]) is Some && !is_kept(closest_selection(distances), j)
            ==> distances[j]->0 >= farthest_slot(kept_distances(closest_selection(distances))).1,
    decreases distances.len(),
{
    if distances.len() > 0 {
        let before = distances.drop_last();
        let i = (distances.len() - 1) as int;
        let c = distances.last();
        let sp = closest_selection(before);
        let s = closest_selection(distances);
        lemma_selection(before);
        assert forall|j: int| 0 <= j < i implies #[trigger] before[j] == distances[j] by {}
        assert(s == select_step(sp, i as usize, c));
        if sp.len() < MAX_LIGHTS_PER_OBJECT {
            assert(s == sp.push((i as usize, c)));
            assert forall|j: int| 0 <= j < distances.len() implies is_kept(s, j) by {
                assert(s[j].0 == j);
            }
        } else {
            let ks = kept_distances(sp);
            let far = farthest_slot(ks);
            lemma_farthest(ks);
            assert(ks.len() == MAX_LIGHTS_PER_OBJECT);
            match c {
                Some(d) => {
                    if d < far.1 {
                        let slot = far.0;
                        assert(ks[slot] == sp[slot].1);
                        assert(s == sp.update(slot, (i as usize, c)));
                        let kn = kept_distances(s);
                        assert(kn =~= ks.update(slot, c));
                        lemma_farthest(kn);
                        let far2 = farthest_slot(kn);
                        assert(far2.1 <= far.1) by {
                            if far2.1 > 0 {
                                if far2.0 != slot {
                                    assert(kn[far2.0] == ks[far2.0]);
                                }
                            }
                        }
                        assert forall|j: int| 0 <= j < distances.len() && (#[trigger] distances[j]) is Some && !is_kept(s, j)
                            implies distances[j]->0 >= far2.1 by {
                            assert(j != i) by {
                                assert(s[slot].0 == i);
                            }
                            if is_kept(sp, j) {
                                let k = choose|k: int| 0 <= k < sp.len() && sp[k].0 == j;
                                if k != slot {
                                    assert(s[k] == sp[k]);
                                }
                                assert(k == slot);
                                assert(sp[slot].1 == Some(far.1));
                            } else {
                                assert(before[j] == distances[j]);
                                assert forall|k: int| 0 <= k < s.len() && s[k].0 == j implies false by {
                                    if k != slot {
                                        assert(s[k] == sp[k]);
                                    }
                                }
                            }
                        }
                        assert forall|k: int, l: int| 0 <= k < l < s.len() implies #[trigger] s[k].0 != #[trigger] s[l].0 by {
                            if k != slot && l != slot {
                                assert(s[k] == sp[k] && s[l] == sp[l]);
                            } else if k == slot {
                                assert(s[l] == sp[l]);
                            } else {
                                assert(s[k] == sp[k]);
                            }
                        }
                        assert forall|k: int| 0 <= k < s.len() implies {
                            let p = #[trigger] s[k];
                            p.0 < distances.len() && p.1 == distances[p.0 as int]
                        } by {
                            if k != slot {
                                assert(s[k] == sp[k]);
                            }
                        }
                    } else {
                        assert(s == sp);
                        assert forall|j: int| 0 <= j < distances.len() && (#[trigger] distances[j]) is Some && !is_kept(s, j)
                            implies distances[j]->0 >= far.1 by {
                            if j < i {
                                assert(before[j] == distances[j]);
                            }
                        }
                    }
                },
                None => {
                    assert(s == sp);
                    assert forall|j: int| 0 <= j < distances.len() && (#[trigger] distances[j]) is Some && !is_kept(s, j)
                        implies distances[j]->0 >= far.1 by {
                        assert(j < i);
                        assert(before[j] == distances[j]);
                    }
                },
            }
        }
    }
}

/// The slot and distance of the farthest of four kept lights.
fn find_farthest(kept: &Vec<(usize, Option<u32>)>) -> (r: (usize, u32))
    requires
        kept@.len() == MAX_LIGHTS_PER_OBJECT,
    ensures
        r.0 as int == farthest_slot(kept_distances(kept@)).0,
        r.1 == farthest_slot(kept_distances(kept@)).1,
{
    let ghost ks = kept_distances(kept@);
    let mut slot: usize = 0;
    let mut far: u32 = 0;
    let mut j: usize = 0;
    while j < MAX_LIGHTS_PER_OBJECT
        invariant
            kept@.len() == MAX_LIGHTS_PER_OBJECT,
            ks == kept_distances(kept@),
            0 <= j <= MAX_LIGHTS_PER_OBJECT,
            slot as int == farthest_slot(ks.take(j as int)).0,
            far == farthest_slot(ks.take(j as int)).1,
        decreases MAX_LIGHTS_PER_OBJECT - j,
    {
        proof {
            let t = ks.take(j + 1);
            assert(t.drop_last() =~= ks.take(j as int));
            assert(t.last() == kept@[j as int].1);
        }
        match kept[j].1 {
            Some(d) => {
                if d > far {
                    slot = j;
                    far = d;
                }
            },
            None => {},
        }
        j = j + 1;
    }
    assert(ks.take(MAX_LIGHTS_PER_OBJECT as int) =~= ks);
    (slot, far)
}

/// The lights that light an object, out of lights at the given distances
/// from it, as indices in slot order. A distance is given by a key that
/// orders as the distances do (`None` for one that compares with nothing).
/// Going through the lights in order, the first four are kept; after that
/// a light takes the place of the farthest kept one (the first of the
/// farthest) when it is strictly nearer. So an object is lit by as many
/// lights as there are, up to four, each light at most once, and no light
/// left out is nearer than a kept one.
pub fn closest_lights(distances: &Vec<Option<u32>>) -> (r: Vec<usize>)
    ensures
        r@ == closest_selection(distances@).map_values(|p: (usize, Option<u32>)| p.0),
        r@.len() == if distances@.len() < MAX_LIGHTS_PER_OBJECT { distances@.len() } else { MAX_LIGHTS_PER_OBJECT as nat },
        r@.no_duplicates(),
        forall|k: int| 0 <= k < r@.len() ==> #[trigger] r@[k] < distances@.len(),
        forall|k: int, j: int| 0 <= k < r@.len() && 0 <= j < distances@.len() && !r@.contains(j as usize)
            && (#[trigger] distances@[r@[k] as int]) is Some && (#[trigger] distances@[j]) is Some
            ==> distances@[r@[k] as int]->0 <= distances@[j]->0,
{
    let ghost ds = distances@;
    let mut kept: Vec<(usize, Option<u32>)> = Vec::new();
    let n = distances.len();
    let mut i: usize = 0;
    while i < n
        invariant
            n == ds.len(),
            ds == distances@,
            0 <= i <= n,
            kept@ == closest_selection(ds.take(i as int)),
        decreases n - i,
    {
        let d = distances[i];
        proof {
            let t = ds.take(i + 1);
            assert(t.drop_last() =~= ds.take(i as int));
            assert(t.last() == d);
            lemma_selection(ds.take(i as int));
        }
        if kept.len() < MAX_LIGHTS_PER_OBJECT {
            kept.push((i, d));
        } else {
            let (slot, far) = find_farthest(&kept);
            proof { lemma_farthest(kept_distances(kept@)); }
            match d {
                Some(dv) => {
                    if dv < far {
                        kept.set(slot, (i, d));
                    }
                },
                None => {},
            }
        }
        i = i + 1;
    }
    assert(ds.take(n as int) =~= ds);
    let ghost sel = closest_selection(ds);
    proof {
        lemma_selection(ds);
        lemma_farthest(kept_distances(sel));
    }
    let mut r: Vec<usize> = Vec::new();
    let m = kept.len();
    let mut k: usize = 0;
    while k < m
        invariant
            m == kept@.len(),
            kept@ == sel,
            0 <= k <= m,
            r@ == sel.take(k as int).map_values(|p: (usize, Option<u32>)| p.0),
        decreases m - k,
    {
        r.push(kept[k].0);
        proof {
            assert(sel.take(k + 1).map_values(|p: (usize, Option<u32>)| p.0)
                =~= sel.take(k as int).map_values(|p: (usize, Option<u32>)| p.0).push(sel[k as int].0));
        }
        k = k + 1;
    }
    assert(sel.take(m as int) =~= sel);
    proof {
        assert forall|a: int, b: int| 0 <= a < r@.len() && 0 <= b < r@.len() && a != b implies r@[a] != r@[b] by {
            if a < b {
                assert(sel[a].0 != sel[b].0);
            } else {
                assert(sel[b].0 != sel[a].0);
            }
        }
        assert forall|k: int, j: int| 0 <= k < r@.len() && 0 <= j < distances@.len() && !r@.contains(j as usize)
            && (#[trigger] distances@[r@[k] as int]) is Some && (#[trigger] distances@[j]) is Some
            implies distances@[r@[k] as int]->0 <= distances@[j]->0 by {
            assert(r@[k] == sel[k].0);
            assert(kept_distances(sel)[k] == sel[k].1);
            assert(!is_kept(sel, j)) by {
                if is_kept(sel, j) {
                    let q = choose|q: int| 0 <= q < sel.len() && sel[q].0 == j;
                    assert(r@[q] == j as usize);
                }
            }
        }
    }
    r
}

} // verus!
