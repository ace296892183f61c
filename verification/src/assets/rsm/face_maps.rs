use bevy::platform::collections::HashMap;
use bevy::platform::hash::FixedHasher;
use vstd::prelude::*;

verus! {

/// bevy's hash map, seen from verified code only through the names and
/// wrappers below.
#[verifier::external_type_specification]
#[verifier::external_body]
#[verifier::reject_recursive_types(K)]
#[verifier::reject_recursive_types(V)]
#[verifier::reject_recursive_types(S)]
pub struct ExternalHashMap<K, V, S>(HashMap<K, V, S>);

/// The fixed hasher that bevy's hash maps use by default.
#[verifier::external_type_specification]
#[verifier::external_body]
pub struct ExternalFixedHasher(FixedHasher);

/// Faces grouped by texture and sidedness: the key is a face's texture id
/// and sidedness, the value the positions of the faces that share them.
pub type FaceGroupMap = HashMap<(u16, u8), Vec<usize>, FixedHasher>;

/// The corners of a smooth mesh met so far: the key is a corner's vertex
/// and texture coordinate, the value the index of the vertex made for it.
pub type CornerCache = HashMap<(u16, u16), u16, FixedHasher>;

/// What a [`FaceGroupMap`] holds, each list of positions by its view.
pub uninterp spec fn face_groups(map: FaceGroupMap) -> Map<(u16, u8), Seq<usize>>;

/// What a [`CornerCache`] holds.
pub uninterp spec fn cached_corners(cache: CornerCache) -> Map<(u16, u16), u16>;

/// `HashMap::new` for face groups: the map holds nothing.
#[verifier::external_body]
pub(crate) fn new_face_groups() -> (groups: FaceGroupMap)
    ensures
        face_groups(groups).dom().is_empty(),
{
    HashMap::new()
}

/// `HashMap::remove` on face groups: the key leaves the map, and its list,
/// if it was there, comes back.
#[verifier::external_body]
pub(crate) fn take_face_group(groups: &mut FaceGroupMap, key: (u16, u8)) -> (faces: Option<
    Vec<usize>,
>)
    ensures
        face_groups(*final(groups)) == face_groups(*old(groups)).remove(key),
        faces is None ==> !face_groups(*old(groups)).contains_key(key),
        faces matches Some(list) ==> face_groups(*old(groups)).contains_key(key) && list@
            == face_groups(*old(groups))[key],
{
    groups.remove(&key)
}

/// `HashMap::insert` on face groups: the key maps to `faces` from now on.
#[verifier::external_body]
pub(crate) fn put_face_group(groups: &mut FaceGroupMap, key: (u16, u8), faces: Vec<usize>)
    ensures
        face_groups(*final(groups)) == face_groups(*old(groups)).insert(key, faces@),
{
    groups.insert(key, faces);
}

/// `HashMap::into_iter` on face groups, collected: every entry of the map
/// once, in an order that the map's layout decides and that is not stated.
#[verifier::external_body]
pub(crate) fn face_group_entries(groups: FaceGroupMap) -> (entries: Vec<((u16, u8), Vec<usize>)>)
    ensures
        forall|i: int|
            0 <= i < entries@.len() ==> face_groups(groups).contains_key(#[trigger] entries@[i].0)
                && face_groups(groups)[entries@[i].0] == entries@[i].1@,
        forall|i: int, j: int|
            0 <= i < j < entries@.len() ==> #[trigger] entries@[i].0 != #[trigger] entries@[j].0,
        forall|key: (u16, u8)|
            #[trigger] face_groups(groups).contains_key(key) ==> exists|i: int|
                0 <= i < entries@.len() && #[trigger] entries@[i].0 == key,
{
    groups.into_iter().collect()
}

/// `HashMap::new` for a corner cache: the cache holds nothing.
#[verifier::external_body]
pub(crate) fn new_corner_cache() -> (cache: CornerCache)
    ensures
        cached_corners(cache).dom().is_empty(),
{
    HashMap::new()
}

/// `HashMap::len` on a corner cache: the number of cached corners.
#[verifier::external_body]
pub(crate) fn corner_cache_len(cache: &CornerCache) -> (len: usize)
    ensures
        len == cached_corners(*cache).dom().len(),
{
    cache.len()
}

/// `HashMap::get` on a corner cache, copied out.
#[verifier::external_body]
pub(crate) fn cached_corner(cache: &CornerCache, corner: (u16, u16)) -> (index: Option<u16>)
    ensures
        index is None ==> !cached_corners(*cache).contains_key(corner),
        index matches Some(i) ==> cached_corners(*cache).contains_key(corner) && i
            == cached_corners(*cache)[corner],
{
    cache.get(&corner).copied()
}

/// `HashMap::insert` on a corner cache: the corner maps to `index` from
/// now on.
#[verifier::external_body]
pub(crate) fn cache_corner(cache: &mut CornerCache, corner: (u16, u16), index: u16)
    ensures
        cached_corners(*final(cache)) == cached_corners(*old(cache)).insert(corner, index),
{
    cache.insert(corner, index);
}

} // verus!
