use ragnarok_rebuild_bevy::assets::grf::reader::read_meta_error;
use ragnarok_rebuild_bevy::assets::grf::{
    map_archive_result, reader_error, AssetReader, AssetReaderError, GrfError,
};
use ragnarok_rebuild_bevy::assets::paths::{join_path, ends_with, trim_start_matches};
use ragnarok_rebuild_bevy::assets::rsw::{
    worlds_to_unload, AssetLoader, LoadWorld, QuadTree, RswDebug, World,
};
use ragnarok_rebuild_bevy::assets::water_plane::{next_frame, WaterAlphaMode, WaterPlaneMaterialKey};
use ragnarok_rebuild_bevy::audio::PlayBgm;

#[test]
fn world_paths() {
    let event = LoadWorld { world: "prontera.rsw".to_string() };
    assert_eq!(event.world_path(), "data/prontera.rsw");
    assert_eq!(AssetLoader::ground_path("prontera.gnd"), "data/prontera.gnd");
    assert_eq!(AssetLoader::tiles_scene_path("prontera.gat"), "data/prontera.gat#Scene");
    assert_eq!(AssetLoader::model_scene_path("tree.rsm"), "data/model/tree.rsm#Scene");
    assert_eq!(AssetLoader::sound_path("wind.wav"), "data/wav/wind.wav");
    assert_eq!(AssetLoader::world_name(Some("prontera.rsw")), "prontera.rsw");
    assert_eq!(AssetLoader::world_name(None), "Unnamed Rsw");
    assert_eq!(AssetLoader.extensions(), &["rsw"]);
}

#[test]
fn other_worlds_are_unloaded() {
    assert_eq!(worlds_to_unload(&vec![3, 7, 9, 7], 7), vec![3, 9]);
    assert!(worlds_to_unload(&vec![7], 7).is_empty());
}

#[test]
fn world_records_its_parts() {
    let world = World::new(0, 2, 1, QuadTree::<u8>::new(vec![]));
    assert!(!world.has_lights);
    assert!(world.has_sounds);
    assert!(world.has_effects);
}

#[test]
fn quad_tree_debug_depths() {
    let mut debug = RswDebug::default();
    assert!(!debug.show_quad_tree_condition());
    debug.show_quad_tree = true;
    debug.show_quad_tree_level = 5;
    assert!(debug.show_quad_tree_condition());
    assert!(debug.shows_quad_tree_depth(5));
    assert!(!debug.shows_quad_tree_depth(4));
    debug.show_quad_tree_level = 6;
    assert!(!debug.show_quad_tree_condition());
}

#[test]
fn archive_errors() {
    assert_eq!(
        reader_error("a/b.bmp", GrfError::FileNotFound),
        AssetReaderError::NotFound("a/b.bmp".to_string())
    );
    assert_eq!(
        reader_error("a", GrfError::Other("bad entry".to_string())),
        AssetReaderError::Io(
            "An error occurred while checking if path is directory. 'bad entry'".to_string()
        )
    );
    assert_eq!(map_archive_result("a", Ok::<u8, GrfError>(5)), Ok(5));
    assert_eq!(
        map_archive_result::<u8>("x", Err(GrfError::FileNotFound)),
        Err(AssetReaderError::NotFound("x".to_string()))
    );
    assert_eq!(read_meta_error("m"), AssetReaderError::NotFound("m".to_string()));
}

#[test]
fn reader_wraps_opened_archive() {
    let reader = AssetReader::new(Ok::<&str, String>("archive")).unwrap();
    assert_eq!(*reader.grf(), "archive");
    assert_eq!(
        AssetReader::<&str>::new(Err::<&str, String>("missing".to_string())).err(),
        Some("missing".to_string())
    );
}

#[test]
fn water_frames_cycle() {
    assert_eq!(next_frame(0), 1);
    assert_eq!(next_frame(31), 0);
    assert_eq!(next_frame(32), 1);
    let opaque = WaterPlaneMaterialKey::new(true);
    assert_eq!(opaque.alpha_mode(), WaterAlphaMode::Opaque);
    assert_eq!(opaque.fragment_shader_def(), Some("OPAQUE_WATER_PLANE"));
    let clear = WaterPlaneMaterialKey::new(false);
    assert_eq!(clear.alpha_mode(), WaterAlphaMode::Blend);
    assert_eq!(clear.fragment_shader_def(), None);
    assert!(opaque.opaque());
    assert!(!clear.opaque());
}

#[test]
fn text_helpers() {
    assert_eq!(join_path("ab", "cd"), "abcd");
    assert!(ends_with("file.bmp", ".bmp"));
    assert!(!ends_with("bmp", ".bmp"));
    assert!(ends_with("워터.bmp", ".bmp"));
    assert_eq!(trim_start_matches("ababc", "ab"), "c");
    assert_eq!(trim_start_matches("abc", ""), "abc");
    assert_eq!(PlayBgm { track: "01.mp3".to_string() }.track_path(), "bgm://01.mp3");
}
