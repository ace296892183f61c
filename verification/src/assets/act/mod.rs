pub mod components;
pub mod events;
pub mod loader;

pub use self::components::{
    advance_frame, loading_step, sound_name, tick_frame, ActorFacing, AssetLoadState, LoadingActor, LoadingStep,
};
pub use self::events::{LoadActor, StartActor};
pub use self::loader::{AnimationEvent, AnimationLayerSprite, AssetLoader, AssetLoaderError};
