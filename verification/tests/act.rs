use ragnarok_rebuild_bevy::assets::act::tick_frame;
use ragnarok_rebuild_bevy::assets::act::loader::{frame_event, layer_sprite};
use ragnarok_rebuild_bevy::assets::act::{
    advance_frame, loading_step, sound_name, ActorFacing, AnimationEvent, AnimationLayerSprite,
    AssetLoadState, AssetLoader, AssetLoaderError, LoadActor, LoadingStep,
};
use ragnarok_rebuild_bevy::assets::actor_asset::ActorAssetLoader;

#[test]
fn facing_defaults_to_south() {
    assert_eq!(ActorFacing::default(), ActorFacing::South);
    let event = LoadActor { actor: "poring".to_string(), facing: None };
    assert_eq!(event.initial_facing(), ActorFacing::South);
    let event = LoadActor { actor: "poring".to_string(), facing: Some(ActorFacing::NorthEast) };
    assert_eq!(event.initial_facing(), ActorFacing::NorthEast);
}

#[test]
fn actor_paths() {
    let event = LoadActor { actor: "poring".to_string(), facing: None };
    assert_eq!(event.entity_name(), "poring.act");
    assert_eq!(event.act_path(), "data/sprite/poring.act");
    assert_eq!(event.sprite_path(), "data/sprite/poring.spr");
    assert_eq!(event.palette_path(), "data/sprite/poring.spr#Palette");
}

#[test]
fn frames_cycle_through_the_clip() {
    assert_eq!(advance_frame(0, 1, 4), 1);
    assert_eq!(advance_frame(3, 1, 4), 0);
    assert_eq!(advance_frame(2, 7, 4), 1);
    assert_eq!(advance_frame(0, 0, 1), 0);
}

#[test]
fn layer_sprites() {
    assert_eq!(layer_sprite(0, 3), Ok(AnimationLayerSprite::Indexed(3)));
    assert_eq!(layer_sprite(1, 7), Ok(AnimationLayerSprite::TrueColor(7)));
    assert_eq!(layer_sprite(0, -1), Err(AssetLoaderError::UsizeConversion));
    assert_eq!(layer_sprite(1, -5), Err(AssetLoaderError::UsizeConversion));
}

#[test]
fn frame_events() {
    let names = vec!["atk".to_string(), "hit.wav".to_string()];
    assert_eq!(frame_event(-1, &names), None);
    assert_eq!(frame_event(0, &names), Some(AnimationEvent::Attack));
    assert_eq!(frame_event(1, &names), Some(AnimationEvent::Sound("data/wav/hit.wav".to_string())));
    assert_eq!(frame_event(-2, &names), None);
    assert_eq!(frame_event(2, &names), None);
    // Other negative ids name the slot of their absolute value.
    let names = vec!["a.wav".to_string(), "b.wav".to_string(), "atk".to_string()];
    assert_eq!(frame_event(-2, &names), Some(AnimationEvent::Attack));
    assert_eq!(frame_event(i32::MIN, &names), None);
}

#[test]
fn loading_steps() {
    assert_eq!(loading_step(AssetLoadState::NotLoaded), LoadingStep::Wait);
    assert_eq!(loading_step(AssetLoadState::Loading), LoadingStep::Wait);
    assert_eq!(loading_step(AssetLoadState::Loaded), LoadingStep::Start);
    assert_eq!(loading_step(AssetLoadState::Failed), LoadingStep::GiveUp);
}

#[test]
fn sound_names() {
    assert_eq!(sound_name(Some("data/wav/effect/hit.wav")), "effect/hit.wav");
    assert_eq!(sound_name(Some("data/wav/data/wav/x.wav")), "x.wav");
    assert_eq!(sound_name(Some("other/x.wav")), "other/x.wav");
    assert_eq!(sound_name(None), "sound");
}

#[test]
fn actor_loader_extensions() {
    assert_eq!(AssetLoader.extensions(), &["act"]);
    assert_eq!(ActorAssetLoader.extensions(), &["act"]);
}

#[test]
fn loader_error_message() {
    assert_eq!(
        ragnarok_rebuild_bevy::assets::act::AssetLoaderError::UsizeConversion.message(),
        "AssetLoader failed to convert number into usize."
    );
}

#[test]
fn animation_ticks() {
    assert_eq!(tick_frame(2, 0, 5), None);
    assert_eq!(tick_frame(2, 1, 5), Some(3));
    assert_eq!(tick_frame(4, 1, 5), Some(0));
    assert_eq!(tick_frame(3, 7, 5), Some(0));
    assert_eq!(tick_frame(0, 3, 1), Some(0));
}
