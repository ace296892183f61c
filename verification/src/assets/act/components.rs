use vstd::prelude::*;

verus! {

/// The direction an actor faces, clockwise from south.
#[derive(Debug, Clone, Copy, PartialEq, Eq, Structural)]
pub enum ActorFacing {
    South,
    SouthWest,
    West,
    NorthWest,
    North,
    NorthEast,
    East,
    SouthEast,
}

impl Default for ActorFacing {
    fn default() -> (r: ActorFacing)
        ensures
            r == ActorFacing::South,
    {
        ActorFacing::South
    }
}

/// Marks an actor whose animation is still loading.
#[derive(Debug, Clone, Copy, PartialEq, Eq, Structural)]
pub struct LoadingActor;

/// The frame an animation shows after its timer finished `times_ticked`
/// times on `frame`: the frames of a clip repeat in a cycle.
pub fn advance_frame(frame: usize, times_ticked: usize, frame_count: usize) -> (next: usize)
    requires
        frame_count > 0,
        frame + times_ticked <= usize::MAX,
    ensures
        next == (frame + times_ticked) % (frame_count as int),
        next < frame_count,
{
    (frame + times_ticked) % frame_count
}

/// One tick of an actor's animation whose timer finished `times_finished`
/// times during the tick: when it finished at least once, the frame moves on
/// by that many steps in the clip's cycle and the actor is announced (the
/// result is `Some` of the new frame); when it did not finish, nothing
/// changes and nothing is announced (`None`). A frame inside the clip stays
/// inside it.
pub fn tick_frame(frame: usize, times_finished: usize, frame_count: usize) -> (next: Option<usize>)
    requires
        frame_count > 0,
        frame + times_finished <= usize::MAX,
    ensures
        times_finished == 0 ==> next is None,
        times_finished > 0 ==> next == Some(((frame + times_finished) % (frame_count as int)) as usize),
        next matches Some(f) ==> f < frame_count,
{
    if times_finished == 0 {
        None
    } else {
        Some(advance_frame(frame, times_finished, frame_count))
    }
}

} // verus!

verus! {

/// How far the loading of an actor's animation got.
#[derive(Debug, Clone, Copy, PartialEq, Eq, Structural)]
pub enum AssetLoadState {
    NotLoaded,
    Loading,
    Loaded,
    Failed,
}

/// What to do with an actor whose animation is loading.
#[derive(Debug, Clone, Copy, PartialEq, Eq, Structural)]
pub enum LoadingStep {
    /// Check again later.
    Wait,
    /// Start the animation.
    Start,
    /// Stop waiting: the animation will never load.
    GiveUp,
}

/// The step for an actor whose animation is in `state`: wait while it is
/// not loaded yet, start it once loaded, give up when loading failed.
pub fn loading_step(state: AssetLoadState) -> (step: LoadingStep)
    ensures
        (state == AssetLoadState::NotLoaded || state == AssetLoadState::Loading) ==> step
            == LoadingStep::Wait,
        state == AssetLoadState::Loaded ==> step == LoadingStep::Start,
        state == AssetLoadState::Failed ==> step == LoadingStep::GiveUp,
{
    match state {
        AssetLoadState::NotLoaded | AssetLoadState::Loading => LoadingStep::Wait,
        AssetLoadState::Loaded => LoadingStep::Start,
        AssetLoadState::Failed => LoadingStep::GiveUp,
    }
}

} // verus!

verus! {

/// Name under which a frame's sound plays: its asset path without the
/// leading audio folder, or `sound` when the sound has no path.
pub fn sound_name(sound_path: Option<&str>) -> (name: String)
    ensures
        sound_path matches Some(p) ==> name@ == crate::assets::paths::strip_prefixes(
            p@,
            crate::assets::paths::WAV_FILES_FOLDER@,
        ),
        sound_path is None ==> name@ == "sound"@,
{
    match sound_path {
        Some(p) => crate::assets::paths::trim_start_matches(p, crate::assets::paths::WAV_FILES_FOLDER),
        None => String::from_str("sound"),
    }
}

} // verus!
