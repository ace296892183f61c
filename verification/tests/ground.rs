use ragnarok_rebuild_bevy::assets::gnd::{plan_faces, AssetLoader, CubeSurfaces, FaceKind, FacePlan};

#[test]
fn faces_of_a_small_ground() {
    // 2 x 2 cubes; only the first cube has walls.
    let cubes = vec![
        CubeSurfaces { up: 0, east: 1, north: 2 },
        CubeSurfaces { up: 0, east: -1, north: -1 },
        CubeSurfaces { up: -1, east: -1, north: -1 },
        CubeSurfaces { up: 3, east: -1, north: -1 },
    ];
    let faces = plan_faces(&cubes, 2, 2, 4);
    assert_eq!(
        faces,
        vec![
            FacePlan { kind: FaceKind::Up, cube: 0, neighbour: 0, surface: 0, grid_x: -1, grid_z: -1 },
            FacePlan { kind: FaceKind::East, cube: 0, neighbour: 1, surface: 1, grid_x: 0, grid_z: -1 },
            FacePlan { kind: FaceKind::North, cube: 0, neighbour: 2, surface: 2, grid_x: -1, grid_z: 0 },
            FacePlan { kind: FaceKind::Up, cube: 1, neighbour: 1, surface: 0, grid_x: 0, grid_z: -1 },
            FacePlan { kind: FaceKind::Up, cube: 3, neighbour: 3, surface: 3, grid_x: 0, grid_z: 0 },
        ]
    );
}

#[test]
fn east_wall_of_last_column_wraps_its_column() {
    let cubes = vec![
        CubeSurfaces { up: -1, east: -1, north: -1 },
        CubeSurfaces { up: -1, east: 0, north: -1 },
        CubeSurfaces { up: -1, east: -1, north: -1 },
    ];
    let faces = plan_faces(&cubes, 2, 2, 1);
    assert_eq!(faces.len(), 1);
    assert_eq!(faces[0].neighbour, 2);
    assert_eq!(faces[0].grid_x, -1);
}

#[test]
fn ground_without_faces() {
    let cubes = vec![CubeSurfaces { up: -1, east: -1, north: -1 }; 3];
    assert!(plan_faces(&cubes, 0, 0, 0).is_empty());
    assert!(plan_faces(&vec![], 4, 4, 0).is_empty());
    assert_eq!(AssetLoader.extensions(), &["gnd"]);
}
