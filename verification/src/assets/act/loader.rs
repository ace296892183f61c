use vstd::prelude::*;

use crate::assets::paths::{join_path, WAV_FILES_FOLDER};

verus! {

/// Loader of actor animation files (`.act`).
#[derive(Debug, Clone, Copy, PartialEq, Eq, Structural)]
pub struct AssetLoader;

impl AssetLoader {
    /// File extensions this loader handles.
    pub fn extensions(&self) -> (r: &'static [&'static str])
        ensures
            r@.len() == 1,
            r@[0]@ == "act"@,
    {
        let r: &'static [&'static str] = &["act"];
        r
    }
}

/// Errors of the actor loader's own checks.
#[derive(Debug, Clone, Copy, PartialEq, Eq, Structural)]
pub enum AssetLoaderError {
    /// A number did not fit in a `usize`.
    UsizeConversion,
}

impl AssetLoaderError {
    /// The message that tells the error.
    pub fn message(&self) -> (message: String)
        ensures
            message@ == "AssetLoader failed to convert number into usize."@,
    {
        match self {
            AssetLoaderError::UsizeConversion => String::from_str(
                "AssetLoader failed to convert number into usize.",
            ),
        }
    }
}

/// The spritesheet cell a layer draws: an indexed (palette) sprite or a
/// true color sprite, by its position in the sprite file.
#[derive(Debug, Clone, Copy, PartialEq, Eq, Structural)]
pub enum AnimationLayerSprite {
    Indexed(usize),
    TrueColor(usize),
}

/// What an animation frame triggers when it shows.
#[derive(Debug, Clone, PartialEq, Eq)]
pub enum AnimationEvent {
    /// The actor hits.
    Attack,
    /// A sound plays, loaded from this path.
    Sound(String),
}

/// What [`layer_sprite`] returns.
pub open spec fn layer_sprite_spec(image_type_id: i32, spritesheet_cell_index: i32) -> Result<
    AnimationLayerSprite,
    AssetLoaderError,
> {
    if spritesheet_cell_index < 0 {
        Err(AssetLoaderError::UsizeConversion)
    } else if image_type_id == 0 {
        Ok(AnimationLayerSprite::Indexed(spritesheet_cell_index as usize))
    } else {
        Ok(AnimationLayerSprite::TrueColor(spritesheet_cell_index as usize))
    }
}

/// The sprite a layer draws: image type 0 names an indexed sprite, 1 a
/// true color sprite; a negative cell index does not fit in a `usize`.
pub fn layer_sprite(image_type_id: i32, spritesheet_cell_index: i32) -> (r: Result<
    AnimationLayerSprite,
    AssetLoaderError,
>)
    requires
        image_type_id == 0 || image_type_id == 1,
    ensures
        r == layer_sprite_spec(image_type_id, spritesheet_cell_index),
        spritesheet_cell_index < 0 ==> r == Err::<AnimationLayerSprite, AssetLoaderError>(
            AssetLoaderError::UsizeConversion,
        ),
        spritesheet_cell_index >= 0 && image_type_id == 0 ==> r == Ok::<
            AnimationLayerSprite,
            AssetLoaderError,
        >(AnimationLayerSprite::Indexed(spritesheet_cell_index as usize)),
        spritesheet_cell_index >= 0 && image_type_id == 1 ==> r == Ok::<
            AnimationLayerSprite,
            AssetLoaderError,
        >(AnimationLayerSprite::TrueColor(spritesheet_cell_index as usize)),
{
    if spritesheet_cell_index < 0 {
        return Err(AssetLoaderError::UsizeConversion);
    }
    let cell = spritesheet_cell_index as usize;
    if image_type_id == 0 {
        Ok(AnimationLayerSprite::Indexed(cell))
    } else {
        Ok(AnimationLayerSprite::TrueColor(cell))
    }
}

/// Position, in the file's event list, that a frame's event id names: its
/// absolute value.
pub open spec fn event_slot(animation_event_id: i32) -> int {
    if animation_event_id < 0 {
        -animation_event_id
    } else {
        animation_event_id as int
    }
}

/// What [`frame_event`] returns, over the names of the file's events:
/// `None` for id -1 and for an id past the list, `Attack` for the event
/// named `atk`, else the sound of that name in the audio folder.
pub open spec fn frame_event_spec(animation_event_id: i32, event_names: Seq<Seq<char>>) -> Option<
    Seq<char>,
> {
    if animation_event_id == -1 || event_slot(animation_event_id) >= event_names.len() {
        None
    } else {
        Some(event_names[event_slot(animation_event_id)])
    }
}

/// The event a frame triggers.
pub fn frame_event(animation_event_id: i32, event_names: &Vec<String>) -> (r: Option<
    AnimationEvent,
>)
    ensures
        frame_event_spec(animation_event_id, event_names@.map_values(|s: String| s@)) is None
            ==> r is None,
        frame_event_spec(animation_event_id, event_names@.map_values(|s: String| s@)) matches Some(
            name,
        ) ==> {
            ||| name == "atk"@ && r == Some(AnimationEvent::Attack)
            ||| name != "atk"@ && (r matches Some(AnimationEvent::Sound(path)) && path@
                == WAV_FILES_FOLDER@ + name)
        },
{
    if animation_event_id == -1 {
        return None;
    }
    let slot: u32 = if animation_event_id < 0 {
        (0i64 - (animation_event_id as i64)) as u32
    } else {
        animation_event_id as u32
    };
    let slot = slot as usize;
    if slot >= event_names.len() {
        return None;
    }
    let name = &event_names[slot];
    let attack = String::from_str("atk");
    if *name == attack {
        Some(AnimationEvent::Attack)
    } else {
        Some(AnimationEvent::Sound(join_path(WAV_FILES_FOLDER, name.as_str())))
    }
}

} // verus!
