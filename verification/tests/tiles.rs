use ragnarok_rebuild_bevy::assets::gat::{TileRef, Tiles};

#[derive(Debug, Clone, Copy)]
struct Tile {
    bottom_left: f32,
    bottom_right: f32,
    top_left: f32,
    top_right: f32,
    tile_type: u8,
    is_water_tile: bool,
}

/// Grid corners of a box given by its lowest and highest corner, in the
/// map's centred coordinates, as the hover system computes them.
fn corners(tiles: &Tiles<Tile>, min: [f32; 3], max: [f32; 3]) -> (u32, u32, u32, u32) {
    let half_width = (tiles.width / 2) as f32;
    let half_height = (tiles.height / 2) as f32;
    (
        (min[0] + half_width) as u32,
        (min[2] + half_height) as u32,
        (max[0] + half_width) as u32,
        (max[2] + half_height) as u32,
    )
}

fn iter(tiles: &Tiles<Tile>, min: [f32; 3], max: [f32; 3]) -> Vec<TileRef<Tile>> {
    let (min_x, min_z, max_x, max_z) = corners(tiles, min, max);
    tiles.iter_tiles(min_x, min_z, max_x, max_z)
}

#[test]
fn test_iterate_tiles() {
    let quad_tree = Tiles {
        width: 10,
        height: 10,
        tiles: (0..100)
            .map(|i| Tile {
                bottom_left: 0.,
                bottom_right: 0.,
                top_left: 0.,
                top_right: 0.,
                tile_type: i,
                is_water_tile: false,
            })
            .collect(),
    };
    // Iterating from the root should return all in order
    assert!((0..100)
        .zip(iter(&quad_tree, [-5., 0., -5.], [5., 0., 5.]))
        .all(|(i, tile_ref)| tile_ref.tile.tile_type == i));
    // Iterating over lower left tiles
    assert!(iter(&quad_tree, [-5., 0., -5.], [0., 0., 0.])
        .iter()
        .map(|tile_ref| tile_ref.tile.tile_type)
        .zip([
            0, 1, 2, 3, 4, 10, 11, 12, 13, 14, 20, 21, 22, 23, 24, 30, 31, 32, 33, 34, 40, 41, 42,
            43, 44,
        ])
        .all(|(tile, i)| tile == i));
    // Iterating over lower left tiles, but a bit shifted
    assert!(iter(&quad_tree, [-7., 0., -7.], [-2., 0., -2.])
        .iter()
        .map(|tile_ref| tile_ref.tile.tile_type)
        .zip([0, 1, 2, 10, 11, 12, 20, 21, 22])
        .all(|(tile, i)| tile == i));
    // Iterating over lower right tiles
    assert!(iter(&quad_tree, [0., 0., -5.], [5., 0., 0.])
        .iter()
        .map(|tile_ref| tile_ref.tile.tile_type)
        .zip([
            5, 6, 7, 8, 9, 15, 16, 17, 18, 19, 25, 26, 27, 28, 29, 35, 36, 37, 38, 39, 45, 46, 47,
            48, 49
        ])
        .all(|(tile, i)| tile == i));
    // Iterating over lower right tiles, but a bit shifted
    assert!(iter(&quad_tree, [2., 0., -7.], [7., 0., -2.])
        .iter()
        .map(|tile_ref| tile_ref.tile.tile_type)
        .zip([7, 8, 9, 17, 18, 19, 27, 28, 29])
        .all(|(tile, i)| tile == i));
    // Iterating over top left tiles
    assert!(iter(&quad_tree, [-5., 0., 0.], [0., 0., 5.])
        .iter()
        .map(|tile_ref| tile_ref.tile.tile_type)
        .zip([
            50, 51, 52, 53, 54, 60, 61, 62, 63, 64, 70, 71, 72, 73, 74, 80, 81, 82, 83, 84, 90, 91,
            92, 93, 94
        ])
        .all(|(tile, i)| tile == i));
    // Iterating over top left tiles, but a bit shifted
    assert!(iter(&quad_tree, [-7., 0., 2.], [-2., 0., 7.])
        .iter()
        .map(|tile_ref| tile_ref.tile.tile_type)
        .zip([70, 71, 72, 80, 81, 82, 90, 91, 92])
        .all(|(tile, i)| tile == i));
    // Iterating over top right tiles
    assert!(iter(&quad_tree, [0., 0., 0.], [5., 0., 5.])
        .iter()
        .map(|tile_ref| tile_ref.tile.tile_type)
        .zip([
            55, 56, 57, 58, 59, 65, 66, 67, 68, 69, 75, 76, 77, 78, 79, 85, 86, 87, 88, 89, 95, 96,
            97, 98, 99
        ])
        .all(|(tile, i)| tile == i));
    // Iterating over top right tiles, but a bit shifted
    assert!(iter(&quad_tree, [2., 0., 2.], [7., 0., 7.])
        .iter()
        .map(|tile_ref| tile_ref.tile.tile_type)
        .zip([77, 78, 79, 87, 88, 89, 97, 98, 99])
        .all(|(tile, i)| tile == i));
    let _ = quad_tree.tiles[0].bottom_left
        + quad_tree.tiles[0].bottom_right
        + quad_tree.tiles[0].top_left
        + quad_tree.tiles[0].top_right;
    assert!(!quad_tree.tiles[0].is_water_tile);
}

#[test]
fn tiles_carry_their_grid_position() {
    let tiles = Tiles {
        width: 4,
        height: 3,
        tiles: (0u32..12).collect::<Vec<_>>(),
    };
    let found = tiles.iter_tiles(1, 1, 3, 3);
    let positions = found.iter().map(|t| (t.x, t.z, t.tile)).collect::<Vec<_>>();
    assert_eq!(positions, vec![(1, 1, 5), (2, 1, 6), (1, 2, 9), (2, 2, 10)]);
}

#[test]
fn far_corner_is_held_to_the_map() {
    let tiles = Tiles {
        width: 3,
        height: 2,
        tiles: (0u32..6).collect::<Vec<_>>(),
    };
    let found = tiles.iter_tiles(1, 0, 100, 100);
    assert_eq!(found.iter().map(|t| t.tile).collect::<Vec<_>>(), vec![1, 2, 4, 5]);
    assert!(tiles.iter_tiles(2, 0, 2, 2).is_empty());
    assert!(tiles.iter_tiles(0, 5, 3, 9).is_empty());
}
