use ragnarok_rebuild_bevy::debug::rsw_debug::toggles_on_world_load;
use ragnarok_rebuild_bevy::debug::{triangle_edges, GndDebug, RsmDebug, RswDebug, ShowRsmVertexNormals};
use ragnarok_rebuild_bevy::assets::gat::{GatDebug, HoveredTile};

#[test]
fn edges_of_triangles() {
    assert_eq!(
        triangle_edges(&vec![0, 1, 2, 2, 3, 4]),
        vec![(0, 1), (0, 2), (1, 2), (2, 3), (2, 4), (3, 4)]
    );
    assert!(triangle_edges(&vec![]).is_empty());
}

#[test]
fn debug_switches() {
    let gnd = GndDebug { show_edges: true, show_normals: false };
    assert!(gnd.show_gnd_edges_condition());
    assert!(!gnd.show_gnd_vertex_normal_condition());
    let rsm = RsmDebug::default();
    assert!(!rsm.show_rsm_edges_condition());
    assert!(ShowRsmVertexNormals(true).show_rsm_vertex_normal_condition());
    let gat = GatDebug { show_hovered: true };
    assert!(gat.show_hovered_condition(true));
    assert!(!gat.show_hovered_condition(false));
    let mut hovered = HoveredTile(Some(3u8));
    assert!(hovered.is_some());
    hovered.clear();
    assert!(!hovered.is_some());
}

#[test]
fn light_switches_toggle_on_change() {
    let mut debug = RswDebug::default();
    let mut previous = false;
    assert!(!debug.point_lights_changed(&mut previous, Some(true)));
    debug.show_point_lights = true;
    assert!(debug.point_lights_changed(&mut previous, Some(true)));
    assert!(previous);
    assert!(!debug.point_lights_changed(&mut previous, Some(true)));
    debug.show_point_lights = false;
    assert!(!debug.point_lights_changed(&mut previous, Some(false)));
    assert!(!previous);

    let mut previous = false;
    debug.show_directional_light = true;
    assert!(!debug.directional_light_changed(&mut previous, false));
    assert!(previous);
    debug.show_directional_light = false;
    assert!(debug.directional_light_changed(&mut previous, true));

    assert_eq!(toggles_on_world_load(Some(true)), (true, true));
    assert_eq!(toggles_on_world_load(None), (false, true));
    assert!(debug.sound_debug_condition() == debug.show_sounds);
    assert!(debug.effect_debug_condition() == debug.show_effects);
}
