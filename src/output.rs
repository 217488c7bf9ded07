//! The output log: what the user sees, in order of arrival.

use vstd::prelude::*;

use crate::player::{PlayerId, Track};

verus! {

/// One entry of the output log. Entries are appended and never removed; a `Player` entry is
/// changed in place by the transport controls.
#[derive(Debug)]
pub enum Output {
    /// Text posted by the engine.
    Normal(String),
    /// A command as the user issued it.
    Command(String),
    /// An error reported by the engine or by playback.
    Error(String),
    /// A loaded media file with its transport state.
    Player(Track),
}

/// The entry at `i` is a track whose identifier is `id`.
pub open spec fn is_track(log: Seq<Output>, id: PlayerId) -> bool {
    &&& id.index() < log.len()
    &&& log[id.index() as int] is Player
    &&& log[id.index() as int]->Player_0.id == id
}

/// The track stored at `i`.
pub open spec fn track_of(log: Seq<Output>, i: int) -> Track {
    log[i]->Player_0
}

/// The log with the track at `i` given a new transport state; its path and identifier stay.
pub open spec fn with_transport(log: Seq<Output>, i: int, playing: bool, position: u64) -> Seq<
    Output,
> {
    log.update(
        i,
        Output::Player(
            Track {
                is_playing: playing,
                path: track_of(log, i).path,
                id: track_of(log, i).id,
                position,
            },
        ),
    )
}

/// Sets the transport state of the track at `i`.
pub fn set_transport(output: &mut Vec<Output>, i: usize, playing: bool, position: u64)
    requires
        i < old(output).len(),
        old(output)@[i as int] is Player,
    ensures
        final(output)@ == with_transport(old(output)@, i as int, playing, position),
{
    let replaced = match &output[i] {
        Output::Player(t) => {
            Track { is_playing: playing, path: t.path.clone(), id: t.id, position }
        },
        _ => {
            return ;
        },
    };
    output.set(i, Output::Player(replaced));
}

} // verus!
