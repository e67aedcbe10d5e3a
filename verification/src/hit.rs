use crate::texture::Texture;
use crate::texture::TextureModel;
use vstd::prelude::*;

verus! {

/// The textures bound to an object, either of which may be absent.
#[derive(Debug)]
pub struct TextureProperty {
    pub amb_tex: Option<Texture>,
    pub dif_tex: Option<Texture>,
}

/// What an optional texture is: what the texture is, where there is one.
pub open spec fn bound_view(texture: Option<Texture>) -> Option<TextureModel> {
    match texture {
        Some(t) => Some(t@),
        None => None,
    }
}

/// A copy of an optional texture.
fn clone_bound(texture: &Option<Texture>) -> (r: Option<Texture>)
    ensures
        bound_view(r) == bound_view(*texture),
{
    match texture {
        Some(t) => Some(t.clone()),
        None => None,
    }
}

impl Clone for TextureProperty {
    fn clone(&self) -> (r: Self)
        ensures
            bound_view(r.amb_tex) == bound_view(self.amb_tex),
            bound_view(r.dif_tex) == bound_view(self.dif_tex),
    {
        TextureProperty { amb_tex: clone_bound(&self.amb_tex), dif_tex: clone_bound(&self.dif_tex) }
    }
}

/// Whether entry `i` is the closest hit among `candidates`: it is a hit, no
/// hit is nearer, and every hit before it is farther.
///
/// A candidate is what one object answers to one ray: `None` for a miss,
/// `Some(key)` for a hit, where a nearer hit has a smaller key. The library
/// orders distances and never computes with them, so any key that keeps
/// their order will do; the bit pattern of a non-negative IEEE 754 number is
/// one.
pub open spec fn is_closest(candidates: Seq<Option<u32>>, i: int) -> bool {
    &&& 0 <= i < candidates.len()
    &&& candidates[i] is Some
    &&& forall|k: int|
        0 <= k < candidates.len() && (#[trigger] candidates[k]) is Some ==> candidates[i]->0
            <= candidates[k]->0
    &&& forall|k: int|
        0 <= k < i && (#[trigger] candidates[k]) is Some ==> candidates[i]->0 < candidates[k]->0
}

/// Whether no candidate is a hit.
pub open spec fn all_miss(candidates: Seq<Option<u32>>) -> bool {
    forall|k: int| 0 <= k < candidates.len() ==> (#[trigger] candidates[k]) is None
}

/// Whether something stands between a point and the light: some candidate
/// is a hit nearer than the light, whose distance has the key `light`.
pub open spec fn is_shadowed(candidates: Seq<Option<u32>>, light: u32) -> bool {
    exists|k: int|
        0 <= k < candidates.len() && (#[trigger] candidates[k]) is Some && candidates[k]->0 < light
}

/// At most one entry is the closest hit: on equal distances the first
/// object wins, so the choice never depends on anything but the candidates.
pub proof fn lemma_closest_unique(candidates: Seq<Option<u32>>, i: int, j: int)
    requires
        is_closest(candidates, i),
        is_closest(candidates, j),
    ensures
        i == j,
{
    if i < j {
        assert(candidates[i] is Some);
    } else if j < i {
        assert(candidates[j] is Some);
    }
}

/// Where some candidate is a hit, one of them is the closest: the entry
/// returned is it, and `None` is returned only where every candidate is a
/// miss.
pub proof fn lemma_closest_exists(candidates: Seq<Option<u32>>) -> (r: Option<int>)
    ensures
        match r {
            Some(i) => is_closest(candidates, i),
            None => all_miss(candidates),
        },
    decreases candidates.len(),
{
    if candidates.len() == 0 {
        None
    } else {
        let last = candidates.len() - 1;
        let front = candidates.drop_last();
        assert(forall|k: int| 0 <= k < last ==> front[k] == candidates[k]);
        match lemma_closest_exists(front) {
            Some(i) => {
                if candidates[last] is Some && candidates[last]->0 < front[i]->0 {
                    Some(last)
                } else {
                    Some(i)
                }
            },
            None => {
                if candidates[last] is Some {
                    Some(last)
                } else {
                    None
                }
            },
        }
    }
}

} // verus!
