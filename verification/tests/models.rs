use ragnarok_rebuild_bevy::assets::rsm::{
    child_mesh_indexes, prop_animation, root_mesh_indexes, smooth_mesh_indices,
    split_mesh_into_primitives, texture_format, texture_path, AssetLoader, FaceKey,
    LoadedTextureFormat, PropAnimation, VertexUv,
};

fn key(texture_id: u16, two_side: u8) -> FaceKey {
    FaceKey { texture_id, two_side }
}

#[test]
fn texture_formats() {
    assert_eq!(texture_format("wall.bmp"), LoadedTextureFormat::Bmp);
    assert_eq!(texture_format("wall.tga"), LoadedTextureFormat::Tga);
    assert_eq!(texture_format("wall.jpg"), LoadedTextureFormat::Bmp);
    assert_eq!(texture_format("tga"), LoadedTextureFormat::Bmp);
    assert_eq!(texture_path("a/b.bmp"), "data/texture/a/b.bmp");
    assert_eq!(AssetLoader.extensions(), &["rsm", "rsm2"]);
}

#[test]
fn primitives_group_faces_by_key() {
    let keys = vec![key(1, 0), key(0, 0), key(1, 0), key(1, 1), key(0, 0)];
    let primitives = split_mesh_into_primitives(&keys);
    assert_eq!(primitives.len(), 3);
    let faces_of = |k: FaceKey| {
        let found: Vec<_> = primitives.iter().filter(|p| p.key == k).collect();
        assert_eq!(found.len(), 1);
        found[0].faces.clone()
    };
    assert_eq!(faces_of(key(1, 0)), vec![0, 2]);
    assert_eq!(faces_of(key(0, 0)), vec![1, 4]);
    assert_eq!(faces_of(key(1, 1)), vec![3]);
    assert!(split_mesh_into_primitives(&vec![]).is_empty());
}

#[test]
fn every_face_in_one_primitive() {
    let keys: Vec<FaceKey> = (0..40u16).map(|i| key(i % 7, (i % 3) as u8)).collect();
    let primitives = split_mesh_into_primitives(&keys);
    for face in 0..keys.len() {
        let holding: Vec<_> = primitives.iter().filter(|p| p.faces.contains(&face)).collect();
        assert_eq!(holding.len(), 1);
        assert_eq!(holding[0].key, keys[face]);
    }
    let total: usize = primitives.iter().map(|p| p.faces.len()).sum();
    assert_eq!(total, keys.len());
}

#[test]
fn smooth_mesh_shares_corners() {
    let corner = |vertex, uv| VertexUv { vertex, uv };
    let corners = vec![corner(0, 0), corner(1, 1), corner(2, 2), corner(2, 2), corner(1, 1), corner(3, 0)];
    let mesh = smooth_mesh_indices(&corners);
    assert_eq!(mesh.unique, vec![corner(0, 0), corner(1, 1), corner(2, 2), corner(3, 0)]);
    assert_eq!(mesh.indices, vec![0, 1, 2, 2, 1, 3]);
}

#[test]
fn mesh_hierarchy() {
    let names = vec!["root".to_string(), "arm".to_string(), "hand".to_string(), "other".to_string()];
    let parents = vec!["".to_string(), "root".to_string(), "arm".to_string(), "root".to_string()];
    assert_eq!(root_mesh_indexes(&names, &vec!["root".to_string()]), vec![0]);
    assert_eq!(child_mesh_indexes(&names, &parents, 0), vec![1, 3]);
    assert_eq!(child_mesh_indexes(&names, &parents, 1), vec![2]);
    assert!(child_mesh_indexes(&names, &parents, 2).is_empty());
    // A mesh named like its own parent is not its own child.
    let names = vec!["loop".to_string()];
    let parents = vec!["loop".to_string()];
    assert!(child_mesh_indexes(&names, &parents, 0).is_empty());
}

#[test]
fn prop_animations() {
    assert_eq!(prop_animation(0, true), PropAnimation::Still);
    assert_eq!(prop_animation(2, false), PropAnimation::Still);
    assert_eq!(prop_animation(2, true), PropAnimation::Repeat);
    assert_eq!(prop_animation(1, true), PropAnimation::PlayOnce);
}
