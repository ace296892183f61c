use ragnarok_rebuild_bevy::assets::pal::{palette_to_image, Color};
use ragnarok_rebuild_bevy::assets::palette_asset::PaletteAssetLoader;
use ragnarok_rebuild_bevy::assets::spr::true_color_data;

fn color(red: u8, green: u8, blue: u8, alpha: u8) -> Color {
    Color { red, green, blue, alpha }
}

#[test]
fn palette_transparency() {
    let colors = vec![
        color(255, 0, 255, 0),
        color(10, 20, 30, 0),
        color(255, 0, 255, 0),
        color(1, 2, 3, 4),
    ];
    let image = palette_to_image(&colors);
    assert_eq!(image.width, 256);
    assert_eq!(image.height, 1);
    assert_eq!(
        image.data,
        vec![255, 0, 255, 0, 10, 20, 30, 255, 255, 0, 255, 0, 1, 2, 3, 4]
    );
}

#[test]
fn true_color_bytes() {
    let pixels = vec![color(1, 2, 3, 4), color(5, 6, 7, 8)];
    assert_eq!(true_color_data(&pixels), vec![1, 2, 3, 4, 5, 6, 7, 8]);
    assert!(true_color_data(&vec![]).is_empty());
    assert_eq!(PaletteAssetLoader.extensions(), &["pal"]);
}
