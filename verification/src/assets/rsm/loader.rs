use vstd::prelude::*;

use crate::assets::paths::{join_path, ends_with, has_suffix, TEXTURE_FILES_FOLDER};
use super::face_maps::{
    cache_corner, cached_corner, cached_corners, corner_cache_len, face_group_entries, face_groups,
    new_corner_cache, new_face_groups, put_face_group, take_face_group,
};

verus! {

/// Loader of model files (`.rsm`, `.rsm2`).
#[derive(Debug, Clone, Copy, PartialEq, Eq, Structural)]
pub struct AssetLoader;

impl AssetLoader {
    /// File extensions this loader handles.
    pub fn extensions(&self) -> (r: &'static [&'static str])
        ensures
            r@.len() == 2,
            r@[0]@ == "rsm"@,
            r@[1]@ == "rsm2"@,
    {
        let r: &'static [&'static str] = &["rsm", "rsm2"];
        r
    }
}

/// Encoding of a model texture, as its file name tells.
#[derive(Debug, Clone, Copy, PartialEq, Eq, Structural)]
pub enum LoadedTextureFormat {
    Bmp,
    Tga,
}

/// The format of a texture file: `.tga` files are Targa images, all others
/// are read as bitmaps.
pub fn texture_format(texture_path: &str) -> (format: LoadedTextureFormat)
    ensures
        has_suffix(texture_path@, ".bmp"@) ==> format == LoadedTextureFormat::Bmp,
        !has_suffix(texture_path@, ".bmp"@) && has_suffix(texture_path@, ".tga"@) ==> format
            == LoadedTextureFormat::Tga,
        !has_suffix(texture_path@, ".bmp"@) && !has_suffix(texture_path@, ".tga"@) ==> format
            == LoadedTextureFormat::Bmp,
{
    if ends_with(texture_path, ".bmp") {
        LoadedTextureFormat::Bmp
    } else if ends_with(texture_path, ".tga") {
        LoadedTextureFormat::Tga
    } else {
        LoadedTextureFormat::Bmp
    }
}

/// Path of a model texture in the texture folder.
pub fn texture_path(texture_name: &str) -> (path: String)
    ensures
        path@ == TEXTURE_FILES_FOLDER@ + texture_name@,
{
    join_path(TEXTURE_FILES_FOLDER, texture_name)
}

/// The distinct items of `s`, in the order in which each first appears.
pub open spec fn first_appearances<T>(s: Seq<T>) -> Seq<T>
    decreases s.len(),
{
    if s.len() == 0 {
        Seq::empty()
    } else {
        let prev = first_appearances(s.drop_last());
        if prev.contains(s.last()) {
            prev
        } else {
            prev.push(s.last())
        }
    }
}

/// The positions `i < n` that satisfy `pred`, in increasing order.
pub open spec fn indexes_where(n: nat, pred: spec_fn(int) -> bool) -> Seq<usize>
    decreases n,
{
    if n == 0 {
        Seq::empty()
    } else {
        let prev = indexes_where((n - 1) as nat, pred);
        if pred(n - 1) {
            prev.push((n - 1) as usize)
        } else {
            prev
        }
    }
}

/// A position is among [`indexes_where`] exactly when it is below `n` and
/// satisfies the predicate; the positions come in increasing order.
pub proof fn lemma_indexes_where(n: nat, pred: spec_fn(int) -> bool)
    requires
        n <= usize::MAX,
    ensures
        forall|x: usize| #[trigger] indexes_where(n, pred).contains(x) <==> x < n && pred(x as int),
        forall|a: int, b: int|
            0 <= a < b < indexes_where(n, pred).len() ==> #[trigger] indexes_where(n, pred)[a]
                < #[trigger] indexes_where(n, pred)[b],
        forall|a: int| 0 <= a < indexes_where(n, pred).len() ==> #[trigger] indexes_where(n, pred)[a] < n,
    decreases n,
{
    if n > 0 {
        lemma_indexes_where((n - 1) as nat, pred);
        let prev = indexes_where((n - 1) as nat, pred);
        let cur = indexes_where(n, pred);
        if pred(n - 1) {
            assert(cur == prev.push((n - 1) as usize));
            assert forall|x: usize| #[trigger] cur.contains(x) <==> x < n && pred(x as int) by {
                if cur.contains(x) {
                    let k = choose|k: int| 0 <= k < cur.len() && cur[k] == x;
                    if k < prev.len() {
                        assert(prev[k] == x);
                        assert(prev.contains(x));
                    }
                }
                if x < n && pred(x as int) {
                    if x == n - 1 {
                        assert(cur[prev.len() as int] == x);
                    } else {
                        assert(prev.contains(x));
                        let k = choose|k: int| 0 <= k < prev.len() && prev[k] == x;
                        assert(cur[k] == x);
                    }
                }
            }
            assert forall|a: int, b: int| 0 <= a < b < cur.len() implies #[trigger] cur[a]
                < #[trigger] cur[b] by {
                if b < prev.len() {
                    assert(cur[a] == prev[a] && cur[b] == prev[b]);
                } else {
                    assert(cur[a] == prev[a]);
                    assert(prev[a] < n - 1);
                }
            }
            assert forall|a: int| 0 <= a < cur.len() implies #[trigger] cur[a] < n by {
                if a < prev.len() {
                    assert(cur[a] == prev[a]);
                }
            }
        } else {
            assert(cur == prev);
            assert forall|x: usize| #[trigger] cur.contains(x) <==> x < n && pred(x as int) by {
                if x < n && pred(x as int) {
                    assert(x != n - 1);
                }
            }
        }
    }
}

/// The predicate "the face at this position has key `key`".
pub open spec fn has_key(keys: Seq<FaceKey>, key: FaceKey) -> spec_fn(int) -> bool {
    |i: int| keys[i] == key
}

/// The distinct items of a sequence appear once each, and they are exactly
/// the items of the sequence.
pub proof fn lemma_first_appearances<T>(s: Seq<T>)
    ensures
        first_appearances(s).no_duplicates(),
        forall|x: T| #[trigger] first_appearances(s).contains(x) <==> s.contains(x),
        first_appearances(s).len() <= s.len(),
    decreases s.len(),
{
    if s.len() > 0 {
        lemma_first_appearances(s.drop_last());
        let prev = first_appearances(s.drop_last());
        assert forall|x: T| #[trigger] first_appearances(s).contains(x) <==> s.contains(x) by {
            if s.contains(x) {
                let k = choose|k: int| 0 <= k < s.len() && s[k] == x;
                if k < s.len() - 1 {
                    assert(s.drop_last()[k] == x);
                }
            }
            if s.drop_last().contains(x) {
                let k = choose|k: int| 0 <= k < s.len() - 1 && s.drop_last()[k] == x;
                assert(s[k] == x);
            }
            if first_appearances(s).contains(x) && !prev.contains(x) {
                assert(x == s.last());
                assert(s[s.len() - 1] == x);
            }
            if prev.contains(x) {
                let k = choose|k: int| 0 <= k < prev.len() && prev[k] == x;
                assert(first_appearances(s)[k] == x);
            }
            if x == s.last() {
                assert(s[s.len() - 1] == x);
                if !prev.contains(x) {
                    assert(first_appearances(s)[first_appearances(s).len() - 1] == x);
                }
            }
        }
    }
}

/// The distinct items of a prefix are a prefix of the distinct items.
proof fn lemma_first_appearances_prefix<T>(s: Seq<T>, i: int, j: int)
    requires
        0 <= i <= j <= s.len(),
    ensures
        first_appearances(s.take(i)).len() <= first_appearances(s.take(j)).len(),
    decreases j - i,
{
    if i < j {
        lemma_first_appearances_prefix(s, i, j - 1);
        assert(s.take(j).drop_last() =~= s.take(j - 1));
    }
}

/// Texture and sidedness of a face: faces that share both are drawn
/// together.
#[derive(Debug, Clone, Copy, PartialEq, Eq, Structural)]
pub struct FaceKey {
    pub texture_id: u16,
    pub two_side: u8,
}

/// The faces of a mesh that one draw uses: all the faces with its texture
/// and sidedness.
#[derive(Debug, Clone, PartialEq, Eq)]
pub struct Primitive {
    pub key: FaceKey,
    /// Positions of the faces in the mesh, in increasing order.
    pub faces: Vec<usize>,
}

/// A face key as the key of a face group map.
pub open spec fn key_tuple(key: FaceKey) -> (u16, u8) {
    (key.texture_id, key.two_side)
}

/// The face key of a face group map's key.
pub open spec fn tuple_key(t: (u16, u8)) -> FaceKey {
    FaceKey { texture_id: t.0, two_side: t.1 }
}

/// The face groups of the first `n` faces: each key met among them maps to
/// the positions, below `n`, of the faces with that key.
pub open spec fn grouped_faces(keys: Seq<FaceKey>, n: nat) -> Map<(u16, u8), Seq<usize>> {
    Map::new(
        |t: (u16, u8)| exists|j: int| 0 <= j < n && #[trigger] key_tuple(keys[j]) == t,
        |t: (u16, u8)| indexes_where(n, has_key(keys, tuple_key(t))),
    )
}

/// The keys of a list of primitives, in order.
pub open spec fn primitive_keys(primitives: Seq<Primitive>) -> Seq<FaceKey> {
    primitives.map_values(|p: Primitive| p.key)
}

/// `primitives` holds one primitive per distinct key of `keys`, each with
/// the positions of all the faces with its key, in increasing order.
pub open spec fn groups_faces(keys: Seq<FaceKey>, primitives: Seq<Primitive>) -> bool {
    &&& primitive_keys(primitives).no_duplicates()
    &&& primitive_keys(primitives).to_set() == keys.to_set()
    &&& forall|g: int|
        0 <= g < primitives.len() ==> (#[trigger] primitives[g]).faces@ == indexes_where(
            keys.len(),
            has_key(keys, primitives[g].key),
        )
}

/// Adding face `n` to the groups of the faces before it appends `n` to the
/// group of its key, which was empty if the key had not been met.
proof fn lemma_group_step(keys: Seq<FaceKey>, n: nat)
    requires
        n < keys.len(),
        n < usize::MAX,
    ensures
        grouped_faces(keys, n + 1) == grouped_faces(keys, n).insert(
            key_tuple(keys[n as int]),
            indexes_where(n, has_key(keys, keys[n as int])).push(n as usize),
        ),
        !grouped_faces(keys, n).contains_key(key_tuple(keys[n as int])) ==> indexes_where(
            n,
            has_key(keys, keys[n as int]),
        ).len() == 0,
        grouped_faces(keys, n).contains_key(key_tuple(keys[n as int])) ==> grouped_faces(keys, n)[key_tuple(
            keys[n as int],
        )] == indexes_where(n, has_key(keys, keys[n as int])),
{
    let k = keys[n as int];
    let t = key_tuple(k);
    let before = grouped_faces(keys, n);
    let after = grouped_faces(keys, n + 1);
    assert(tuple_key(t) == k);
    assert(after.contains_key(t)) by {
        assert(key_tuple(keys[n as int]) == t);
    }
    assert forall|t2: (u16, u8)| #[trigger] after.contains_key(t2) <==> before.contains_key(t2) || t2 == t by {
        if after.contains_key(t2) && t2 != t {
            let j = choose|j: int| 0 <= j < n + 1 && #[trigger] key_tuple(keys[j]) == t2;
            assert(j != n);
            assert(before.contains_key(t2));
        }
        if before.contains_key(t2) {
            let j = choose|j: int| 0 <= j < n && #[trigger] key_tuple(keys[j]) == t2;
            assert(key_tuple(keys[j]) == t2);
        }
    }
    assert forall|t2: (u16, u8)| after.contains_key(t2) && t2 != t implies #[trigger] after[t2]
        == before[t2] by {
        assert(tuple_key(t2) != k) by {
            if tuple_key(t2) == k {
                assert(key_tuple(tuple_key(t2)) == t2);
            }
        }
        assert(!has_key(keys, tuple_key(t2))(n as int));
    }
    assert(has_key(keys, k)(n as int));
    assert(after[t] == indexes_where(n, has_key(keys, k)).push(n as usize));
    assert(after =~= before.insert(t, indexes_where(n, has_key(keys, k)).push(n as usize)));
    if !before.contains_key(t) {
        lemma_indexes_where(n, has_key(keys, k));
        let found = indexes_where(n, has_key(keys, k));
        if found.len() > 0 {
            assert(found.contains(found[0]));
            let x = found[0];
            assert(x < n && keys[x as int] == k);
            assert(key_tuple(keys[x as int]) == t);
        }
    }
}

/// Groups the faces of a mesh by texture and sidedness: one primitive per
/// distinct key, with the positions of the faces of that key. The
/// primitives come in the order in which the group map hands them out.
pub fn split_mesh_into_primitives(keys: &Vec<FaceKey>) -> (primitives: Vec<Primitive>)
    ensures
        groups_faces(keys@, primitives@),
{
    let mut groups = new_face_groups();
    proof {
        assert(face_groups(groups) =~= grouped_faces(keys@, 0));
    }
    let mut i: usize = 0;
    while i < keys.len()
        invariant
            i <= keys@.len(),
            face_groups(groups) == grouped_faces(keys@, i as nat),
        decreases keys@.len() - i,
    {
        let key = keys[i];
        let t = (key.texture_id, key.two_side);
        proof {
            lemma_group_step(keys@, i as nat);
            assert(key_tuple(keys@[i as int]) == t);
        }
        match take_face_group(&mut groups, t) {
            Some(mut faces) => {
                faces.push(i);
                put_face_group(&mut groups, t, faces);
            },
            None => {
                let faces = vec![i];
                proof {
                    assert(faces@ =~= indexes_where(i as nat, has_key(keys@, key)).push(i));
                }
                put_face_group(&mut groups, t, faces);
            },
        }
        proof {
            assert(face_groups(groups) =~= grouped_faces(keys@, (i + 1) as nat));
        }
        i = i + 1;
    }
    let ghost all = grouped_faces(keys@, keys@.len());
    let mut entries = face_group_entries(groups);
    let ghost listed = entries@;
    let n = entries.len();
    let mut primitives: Vec<Primitive> = Vec::new();
    while entries.len() > 0
        invariant
            listed.len() == n,
            entries@ == listed.take(entries@.len() as int),
            primitives@.len() + entries@.len() == n,
            forall|g: int|
                0 <= g < primitives@.len() ==> (#[trigger] primitives@[g]).key == tuple_key(
                    listed[n - 1 - g].0,
                ) && primitives@[g].faces@ == listed[n - 1 - g].1@,
        decreases entries@.len(),
    {
        let ghost before = entries@;
        let (t, faces) = entries.pop().unwrap();
        proof {
            assert(before[before.len() - 1] == listed[before.len() - 1]);
            assert(entries@ =~= listed.take(entries@.len() as int));
        }
        primitives.push(Primitive { key: FaceKey { texture_id: t.0, two_side: t.1 }, faces });
    }
    proof {
        let p = primitives@;
        let pk = primitive_keys(p);
        assert forall|g: int| 0 <= g < p.len() implies #[trigger] key_tuple(p[g].key) == listed[n - 1
            - g].0 && all.contains_key(listed[n - 1 - g].0) by {}
        assert forall|g: int, h: int| 0 <= g < pk.len() && 0 <= h < pk.len() && g != h implies pk[g]
            != pk[h] by {
            assert(key_tuple(p[g].key) == listed[n - 1 - g].0);
            assert(key_tuple(p[h].key) == listed[n - 1 - h].0);
            if g < h {
                assert(listed[n - 1 - h].0 != listed[n - 1 - g].0);
            } else {
                assert(listed[n - 1 - g].0 != listed[n - 1 - h].0);
            }
        }
        assert forall|k: FaceKey| #[trigger] pk.contains(k) <==> keys@.contains(k) by {
            if pk.contains(k) {
                let g = choose|g: int| 0 <= g < pk.len() && pk[g] == k;
                let t = listed[n - 1 - g].0;
                assert(p[g].key == k);
                assert(all.contains_key(t));
                let j = choose|j: int| 0 <= j < keys@.len() && #[trigger] key_tuple(keys@[j]) == t;
                assert(keys@[j] == k);
            }
            if keys@.contains(k) {
                let f = choose|f: int| 0 <= f < keys@.len() && keys@[f] == k;
                let t = key_tuple(k);
                assert(key_tuple(keys@[f]) == t);
                assert(all.contains_key(t));
                let e = choose|e: int| 0 <= e < listed.len() && #[trigger] listed[e].0 == t;
                let g = n - 1 - e;
                assert(p[g].key == tuple_key(t));
                assert(pk[g] == k);
            }
        }
        assert(pk.to_set() =~= keys@.to_set());
        assert forall|g: int| 0 <= g < p.len() implies (#[trigger] p[g]).faces@ == indexes_where(
            keys@.len(),
            has_key(keys@, p[g].key),
        ) by {
            let t = listed[n - 1 - g].0;
            assert(all[t] == listed[n - 1 - g].1@);
        }
    }
    primitives
}

/// Every face of a mesh lies in exactly one of the primitives that
/// [`split_mesh_into_primitives`] makes of it: the one of its texture and
/// sidedness.
pub proof fn lemma_primitives_partition_faces(
    keys: Seq<FaceKey>,
    primitives: Seq<Primitive>,
    face: int,
)
    requires
        keys.len() <= usize::MAX,
        groups_faces(keys, primitives),
        0 <= face < keys.len(),
    ensures
        exists|g: int|
            0 <= g < primitives.len() && (#[trigger] primitives[g]).faces@.contains(face as usize),
        forall|g: int|
            0 <= g < primitives.len() ==> ((#[trigger] primitives[g]).faces@.contains(face as usize)
                <==> primitives[g].key == keys[face]),
        forall|g: int, h: int|
            0 <= g < primitives.len() && 0 <= h < primitives.len() && (
            #[trigger] primitives[g]).faces@.contains(face as usize) && (
            #[trigger] primitives[h]).faces@.contains(face as usize) ==> g == h,
{
    assert forall|g: int| 0 <= g < primitives.len() implies ((#[trigger] primitives[g]).faces@.contains(
        face as usize,
    ) <==> primitives[g].key == keys[face]) by {
        lemma_indexes_where(keys.len(), has_key(keys, primitives[g].key));
    }
    assert(keys.to_set().contains(keys[face]));
    assert(primitive_keys(primitives).to_set().contains(keys[face]));
    let g = choose|g: int|
        0 <= g < primitive_keys(primitives).len() && primitive_keys(primitives)[g] == keys[face];
    assert(primitives[g].key == keys[face]);
    assert(primitives[g].faces@.contains(face as usize));
    assert forall|g1: int, h1: int|
        0 <= g1 < primitives.len() && 0 <= h1 < primitives.len() && (
        #[trigger] primitives[g1]).faces@.contains(face as usize) && (
        #[trigger] primitives[h1]).faces@.contains(face as usize) implies g1 == h1 by {
        assert(primitive_keys(primitives)[g1] == keys[face]);
        assert(primitive_keys(primitives)[h1] == keys[face]);
    }
}

/// A corner of a face: which vertex and which texture coordinate it uses.
#[derive(Debug, Clone, Copy, PartialEq, Eq, Structural)]
pub struct VertexUv {
    pub vertex: u16,
    pub uv: u16,
}

/// An indexed mesh that shares corners: the distinct corners, and for each
/// face corner the position of its corner among them.
#[derive(Debug, Clone, PartialEq, Eq)]
pub struct SmoothMeshIndices {
    pub unique: Vec<VertexUv>,
    pub indices: Vec<u16>,
}

/// A corner as the key of a corner cache.
pub open spec fn corner_key(corner: VertexUv) -> (u16, u16) {
    (corner.vertex, corner.uv)
}

/// The corner of a corner cache's key.
pub open spec fn key_corner(key: (u16, u16)) -> VertexUv {
    VertexUv { vertex: key.0, uv: key.1 }
}

/// Shares the corners of a smooth shaded mesh: each distinct corner becomes
/// one vertex, in the order in which it first appears, and every face corner
/// points at its vertex.
pub fn smooth_mesh_indices(corners: &Vec<VertexUv>) -> (mesh: SmoothMeshIndices)
    requires
        first_appearances(corners@).len() <= u16::MAX + 1,
    ensures
        mesh.unique@ == first_appearances(corners@),
        mesh.indices@.len() == corners@.len(),
        forall|k: int|
            0 <= k < corners@.len() ==> (#[trigger] mesh.indices@[k]) < mesh.unique@.len()
                && mesh.unique@[mesh.indices@[k] as int] == corners@[k],
{
    let mut cache = new_corner_cache();
    let mut unique: Vec<VertexUv> = Vec::new();
    let mut indices: Vec<u16> = Vec::new();
    proof {
        lemma_first_appearances(corners@.take(0));
        assert(cached_corners(cache).dom() =~= Set::empty());
    }
    let mut i: usize = 0;
    while i < corners.len()
        invariant
            i <= corners@.len(),
            first_appearances(corners@).len() <= u16::MAX + 1,
            unique@ == first_appearances(corners@.take(i as int)),
            unique@.no_duplicates(),
            indices@.len() == i,
            forall|k: int|
                0 <= k < i ==> (#[trigger] indices@[k]) < unique@.len() && unique@[indices@[k] as int]
                    == corners@[k],
            cached_corners(cache).dom().finite(),
            cached_corners(cache).dom().len() == unique@.len(),
            forall|key: (u16, u16)|
                #[trigger] cached_corners(cache).contains_key(key) <==> unique@.contains(
                    key_corner(key),
                ),
            forall|key: (u16, u16)|
                #[trigger] cached_corners(cache).contains_key(key) ==> cached_corners(cache)[key]
                    < unique@.len() && unique@[cached_corners(cache)[key] as int] == key_corner(key),
        decreases corners@.len() - i,
    {
        let corner = corners[i];
        let key = (corner.vertex, corner.uv);
        proof {
            assert(corners@.take(i + 1).drop_last() =~= corners@.take(i as int));
            assert(corners@.take(i + 1).last() == corner);
            lemma_first_appearances_prefix(corners@, i + 1, corners@.len() as int);
            assert(corners@.take(corners@.len() as int) =~= corners@);
            lemma_first_appearances(corners@.take(i + 1));
            assert(key_corner(key) == corner);
        }
        match cached_corner(&cache, key) {
            Some(index) => {
                indices.push(index);
            },
            None => {
                let cache_len = corner_cache_len(&cache);
                let new_index = cache_len as u16;
                let ghost old_cache = cached_corners(cache);
                let ghost old_unique = unique@;
                unique.push(corner);
                indices.push(new_index);
                cache_corner(&mut cache, key, new_index);
                proof {
                    assert forall|k2: (u16, u16)|
                        #[trigger] cached_corners(cache).contains_key(k2) <==> unique@.contains(
                            key_corner(k2),
                        ) by {
                        if unique@.contains(key_corner(k2)) && k2 != key {
                            let p = choose|p: int| 0 <= p < unique@.len() && unique@[p] == key_corner(k2);
                            if p == old_unique.len() {
                                assert(key_corner(k2) == corner);
                                assert(corner_key(key_corner(k2)) == k2);
                            } else {
                                assert(old_unique[p] == key_corner(k2));
                                assert(old_unique.contains(key_corner(k2)));
                            }
                        }
                        if old_cache.contains_key(k2) {
                            let p = choose|p: int| 0 <= p < old_unique.len() && old_unique[p] == key_corner(k2);
                            assert(unique@[p] == key_corner(k2));
                        }
                        if k2 == key {
                            assert(unique@[old_unique.len() as int] == corner);
                        }
                    }
                    assert forall|k2: (u16, u16)|
                        #[trigger] cached_corners(cache).contains_key(k2) implies cached_corners(cache)[k2]
                            < unique@.len() && unique@[cached_corners(cache)[k2] as int] == key_corner(k2) by {
                        if k2 != key {
                            assert(old_cache.contains_key(k2));
                        }
                    }
                }
            },
        }
        proof {
            assert forall|k: int| 0 <= k < i + 1 implies (#[trigger] indices@[k]) < unique@.len()
                && unique@[indices@[k] as int] == corners@[k] by {}
        }
        i = i + 1;
    }
    proof {
        assert(corners@.take(corners@.len() as int) =~= corners@);
    }
    SmoothMeshIndices { unique, indices }
}

/// The views of a list of strings.
pub open spec fn names_of(names: Seq<String>) -> Seq<Seq<char>> {
    names.map_values(|s: String| s@)
}

fn contains_name(names: &Vec<String>, name: &String) -> (r: bool)
    ensures
        r == names_of(names@).contains(name@),
{
    let mut i: usize = 0;
    while i < names.len()
        invariant
            i <= names@.len(),
            forall|k: int| 0 <= k < i ==> names@[k]@ != name@,
        decreases names@.len() - i,
    {
        if names[i] == *name {
            assert(names_of(names@)[i as int] == name@);
            return true;
        }
        i = i + 1;
    }
    assert forall|k: int| 0 <= k < names_of(names@).len() implies names_of(names@)[k] != name@ by {
        assert(names_of(names@)[k] == names@[k]@);
    }
    false
}

/// The meshes that the model lists as roots, in mesh order.
pub fn root_mesh_indexes(mesh_names: &Vec<String>, root_names: &Vec<String>) -> (roots: Vec<usize>)
    ensures
        roots@ == indexes_where(
            mesh_names@.len(),
            |i: int| names_of(root_names@).contains(mesh_names@[i]@),
        ),
{
    let ghost pred = |i: int| names_of(root_names@).contains(mesh_names@[i]@);
    let mut roots: Vec<usize> = Vec::new();
    let mut i: usize = 0;
    while i < mesh_names.len()
        invariant
            i <= mesh_names@.len(),
            pred == (|i: int| names_of(root_names@).contains(mesh_names@[i]@)),
            roots@ == indexes_where(i as nat, pred),
        decreases mesh_names@.len() - i,
    {
        if contains_name(root_names, &mesh_names[i]) {
            roots.push(i);
        }
        i = i + 1;
    }
    roots
}

/// The meshes, other than `mesh` itself, whose parent is named like `mesh`,
/// in mesh order.
pub fn child_mesh_indexes(mesh_names: &Vec<String>, parent_names: &Vec<String>, mesh: usize) -> (children: Vec<usize>)
    requires
        mesh < mesh_names@.len(),
        parent_names@.len() == mesh_names@.len(),
    ensures
        children@ == indexes_where(
            mesh_names@.len(),
            |i: int| i != mesh && parent_names@[i]@ == mesh_names@[mesh as int]@,
        ),
{
    let ghost pred = |i: int| i != mesh && parent_names@[i]@ == mesh_names@[mesh as int]@;
    let mut children: Vec<usize> = Vec::new();
    let mut i: usize = 0;
    while i < mesh_names.len()
        invariant
            i <= mesh_names@.len(),
            mesh < mesh_names@.len(),
            parent_names@.len() == mesh_names@.len(),
            pred == (|i: int| i != mesh && parent_names@[i]@ == mesh_names@[mesh as int]@),
            children@ == indexes_where(i as nat, pred),
        decreases mesh_names@.len() - i,
    {
        if i != mesh && parent_names[i] == mesh_names[mesh] {
            children.push(i);
        }
        i = i + 1;
    }
    children
}

} // verus!
