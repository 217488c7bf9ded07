//! The playback coordinator.
//!
//! It keeps the transport state of every loaded track and decides what the two audio backends
//! (the MIDI synthesizer and the decoded-audio sinks) must do. The backends themselves are driven
//! by the caller, which performs the returned [`BackendCommand`]s in order.

use vstd::prelude::*;

use crate::output::{is_track, set_transport, track_of, with_transport, Output};

verus! {

/// Positions are integer fractions of a track: `0` is its start and `POSITION_SCALE` its end.
pub const POSITION_SCALE: u64 = 1_000_000;

/// The slowest tempo, in beats per minute.
pub const MIN_TEMPO: u16 = 20;

/// The fastest tempo, in beats per minute.
pub const MAX_TEMPO: u16 = 600;

/// The tempo that playback starts with.
pub const DEFAULT_TEMPO: u16 = 120;

/// Identifies a track by the kind of its backend and by its index in the output log.
#[derive(Debug, Clone, Copy, PartialEq, Eq, Structural)]
pub enum PlayerId {
    Midi(usize),
    Audio(usize),
}

impl PlayerId {
    pub open spec fn index(self) -> nat {
        match self {
            PlayerId::Midi(v) => v as nat,
            PlayerId::Audio(v) => v as nat,
        }
    }

    /// The index of the track in the output log.
    pub fn inner(&self) -> (r: usize)
        ensures
            r == self.index(),
    {
        match self {
            PlayerId::Midi(v) => *v,
            PlayerId::Audio(v) => *v,
        }
    }
}

impl From<PlayerId> for usize {
    fn from(value: PlayerId) -> (r: usize)
        ensures
            r == value.index(),
    {
        match value {
            PlayerId::Midi(v) => v,
            PlayerId::Audio(v) => v,
        }
    }
}

impl vstd::std_specs::convert::FromSpecImpl<PlayerId> for usize {
    open spec fn obeys_from_spec() -> bool {
        true
    }

    open spec fn from_spec(v: PlayerId) -> usize {
        match v {
            PlayerId::Midi(i) => i,
            PlayerId::Audio(i) => i,
        }
    }
}

/// The transport state of one loaded media file.
#[derive(Debug)]
pub struct Track {
    pub is_playing: bool,
    pub path: String,
    pub id: PlayerId,
    /// In `[0, POSITION_SCALE]`.
    pub position: u64,
}

/// What the caller observed about the file of a track before asking to play it.
#[derive(Debug, Clone, Copy, PartialEq, Eq, Structural)]
pub struct MediaProbe {
    /// The file is still at its path.
    pub file_exists: bool,
    /// The cached sink for the file has played to its end and has nothing left to play.
    pub sink_exhausted: bool,
}

/// One step for a backend. Audio steps name the track whose file they act on; the caller keeps
/// one sink per path.
#[derive(Debug, Clone, Copy, PartialEq, Eq, Structural)]
pub enum BackendCommand {
    /// Silence the shared synthesizer.
    StopMidi,
    /// Load the track's file into the synthesizer.
    LoadMidi(PlayerId),
    /// Move the synthesizer to a position.
    SeekMidi(u64),
    /// Give the synthesizer a tempo.
    SetMidiTempo(u16),
    /// Start the synthesizer.
    PlayMidi,
    /// Open a fresh decoder and sink for the track's file, replacing any cached one.
    OpenAudio(PlayerId),
    /// Move the sink of the track's file to a position.
    SeekAudio(PlayerId, u64),
    /// Resume the sink of the track's file.
    PlayAudio(PlayerId),
    /// Pause the sink of the track's file, keeping its position.
    PauseAudio(PlayerId),
}

/// A transport intent, with what the caller observed for it.
#[derive(Debug)]
pub enum Message {
    Play(PlayerId, MediaProbe),
    Pause(PlayerId),
    ChangePosition(PlayerId, u64),
    SetTempo(u16),
    /// A periodic poll, with the position that the active track's backend reports.
    Tick(u64),
    /// A backend step for the track failed; the text says why.
    Failed(PlayerId, String),
}

pub open spec fn clamp_tempo(t: u16) -> u16 {
    if t < MIN_TEMPO {
        MIN_TEMPO
    } else if t > MAX_TEMPO {
        MAX_TEMPO
    } else {
        t
    }
}

pub open spec fn clamp_position(p: u64) -> u64 {
    if p > POSITION_SCALE {
        POSITION_SCALE
    } else {
        p
    }
}

/// The text of the error entry for a track whose file is gone.
pub open spec fn missing_file_text(path: Seq<char>) -> Seq<char> {
    "File "@ + path + " does not exist."@
}

/// Transport state shared by all tracks.
pub struct GlobalState {
    playing_track: Option<PlayerId>,
    tempo: u16,
    /// Paths with an open sink, each once.
    audio_cache: Vec<String>,
}

impl GlobalState {
    pub closed spec fn active(&self) -> Option<PlayerId> {
        self.playing_track
    }

    pub closed spec fn spec_tempo(&self) -> u16 {
        self.tempo
    }

    /// The paths that have an open sink.
    pub closed spec fn cache(&self) -> Seq<Seq<char>> {
        self.audio_cache@.map_values(|p: String| p@)
    }

    pub open spec fn cached(&self, path: Seq<char>) -> bool {
        self.cache().contains(path)
    }

    /// The state agrees with the log: tracks sit at their own index with a position in range,
    /// and a track plays exactly when it is the active one.
    pub open spec fn wf(&self, log: Seq<Output>) -> bool {
        &&& MIN_TEMPO <= self.spec_tempo() <= MAX_TEMPO
        &&& forall|i: int|
            0 <= i < log.len() && (#[trigger] log[i]) is Player ==> {
                &&& track_of(log, i).id.index() == i
                &&& track_of(log, i).position <= POSITION_SCALE
                &&& track_of(log, i).is_playing ==> self.active() == Some(track_of(log, i).id)
            }
        &&& self.active() matches Some(id) ==> is_track(log, id) && track_of(
            log,
            id.index() as int,
        ).is_playing
        &&& self.cache().no_duplicates()
    }

    /// Steps that stop the backend of track `t`.
    pub open spec fn pause_steps(&self, t: Track) -> Seq<BackendCommand> {
        match t.id {
            PlayerId::Midi(_) => seq![BackendCommand::StopMidi],
            PlayerId::Audio(_) => if self.cached(t.path@) {
                seq![BackendCommand::PauseAudio(t.id)]
            } else {
                seq![]
            },
        }
    }

    pub fn new() -> (r: GlobalState)
        ensures
            r.active() == None::<PlayerId>,
            r.spec_tempo() == DEFAULT_TEMPO,
            r.cache() == Seq::<Seq<char>>::empty(),
            forall|log: Seq<Output>| r.wf(log) <== no_track_plays(log),
    {
        let r = GlobalState { playing_track: None, tempo: DEFAULT_TEMPO, audio_cache: Vec::new() };
        assert(r.cache() =~= Seq::<Seq<char>>::empty());
        r
    }

    pub fn tempo(&self) -> (r: u16)
        ensures
            r == self.spec_tempo(),
    {
        self.tempo
    }

    /// A track is active.
    pub fn playing(&self) -> (r: bool)
        ensures
            r == self.active().is_some(),
    {
        self.playing_track.is_some()
    }

    /// The active track, if any.
    pub fn playing_track(&self) -> (r: Option<PlayerId>)
        ensures
            r == self.active(),
    {
        self.playing_track
    }

    fn is_cached(&self, path: &String) -> (r: bool)
        ensures
            r == self.cached(path@),
    {
        let mut k: usize = 0;
        while k < self.audio_cache.len()
            invariant
                k <= self.audio_cache.len(),
                self.cache().len() == self.audio_cache.len(),
                forall|j: int| 0 <= j < k ==> self.cache()[j] != path@,
            decreases self.audio_cache.len() - k,
        {
            if self.audio_cache[k] == *path {
                assert(self.cache()[k as int] == path@);
                return true;
            }
            k += 1;
        }
        false
    }
}

impl GlobalState {
    /// The log once the active track, if any, is stopped.
    pub open spec fn paused_log(&self, log: Seq<Output>) -> Seq<Output> {
        match self.active() {
            Some(p) => with_transport(
                log,
                p.index() as int,
                false,
                track_of(log, p.index() as int).position,
            ),
            None => log,
        }
    }

    /// Steps that stop the active track, if any.
    pub open spec fn stop_steps(&self, log: Seq<Output>) -> Seq<BackendCommand> {
        match self.active() {
            Some(p) => self.pause_steps(track_of(log, p.index() as int)),
            None => seq![],
        }
    }

    /// Steps that start track `t` from its stored position.
    pub open spec fn start_steps(&self, t: Track, probe: MediaProbe) -> Seq<BackendCommand> {
        match t.id {
            PlayerId::Midi(_) => seq![
                BackendCommand::LoadMidi(t.id),
                BackendCommand::SeekMidi(t.position),
                BackendCommand::SetMidiTempo(self.spec_tempo()),
                BackendCommand::PlayMidi,
            ],
            PlayerId::Audio(_) => (if !self.cached(t.path@) || probe.sink_exhausted {
                seq![BackendCommand::OpenAudio(t.id)]
            } else {
                seq![]
            }) + seq![BackendCommand::SeekAudio(t.id, t.position), BackendCommand::PlayAudio(t.id)],
        }
    }

    /// Steps that move the backend of track `t` to `position`, if it is the active one.
    pub open spec fn seek_steps(&self, t: Track, position: u64) -> Seq<BackendCommand> {
        if self.active() == Some(t.id) {
            match t.id {
                PlayerId::Midi(_) => seq![BackendCommand::SeekMidi(position)],
                PlayerId::Audio(_) => if self.cached(t.path@) {
                    seq![BackendCommand::SeekAudio(t.id, position)]
                } else {
                    seq![]
                },
            }
        } else {
            seq![]
        }
    }

    /// What `pause` does.
    pub open spec fn pause_result(
        s0: GlobalState,
        log0: Seq<Output>,
        id: PlayerId,
        s1: GlobalState,
        log1: Seq<Output>,
        cmds: Seq<BackendCommand>,
    ) -> bool {
        &&& s1.spec_tempo() == s0.spec_tempo()
        &&& s1.cache() == s0.cache()
        &&& is_track(log0, id) ==> {
            &&& log1 == with_transport(
                log0,
                id.index() as int,
                false,
                track_of(log0, id.index() as int).position,
            )
            &&& s1.active() == (if s0.active() == Some(id) {
                None
            } else {
                s0.active()
            })
            &&& cmds == s0.pause_steps(track_of(log0, id.index() as int))
        }
        &&& !is_track(log0, id) ==> {
            &&& log1 == log0
            &&& s1.active() == s0.active()
            &&& cmds.len() == 0
        }
    }

    /// What `play` does.
    pub open spec fn play_result(
        s0: GlobalState,
        log0: Seq<Output>,
        id: PlayerId,
        probe: MediaProbe,
        s1: GlobalState,
        log1: Seq<Output>,
        cmds: Seq<BackendCommand>,
    ) -> bool {
        &&& s1.spec_tempo() == s0.spec_tempo()
        &&& !is_track(log0, id) ==> {
            &&& log1 == log0
            &&& s1.active() == s0.active()
            &&& s1.cache() == s0.cache()
            &&& cmds.len() == 0
        }
        &&& is_track(log0, id) && !probe.file_exists ==> {
            let t = track_of(log0, id.index() as int);
            let stopped = with_transport(log0, id.index() as int, false, t.position);
            &&& log1.len() == stopped.len() + 1
            &&& log1.take(stopped.len() as int) == stopped
            &&& log1.last() is Error
            &&& log1.last()->Error_0@ == missing_file_text(t.path@)
            &&& s1.cache() == s0.cache()
            &&& if s0.active() == Some(id) {
                &&& s1.active() is None
                &&& cmds == s0.pause_steps(t)
            } else {
                &&& s1.active() == s0.active()
                &&& cmds.len() == 0
            }
        }
        &&& is_track(log0, id) && probe.file_exists ==> {
            let t = track_of(log0, id.index() as int);
            &&& log1 == with_transport(
                s0.paused_log(log0),
                id.index() as int,
                true,
                t.position,
            )
            &&& s1.active() == Some(id)
            &&& s1.cache() == (if id is Audio && !s0.cached(t.path@) {
                s0.cache().push(t.path@)
            } else {
                s0.cache()
            })
            &&& cmds == s0.stop_steps(log0) + s0.start_steps(t, probe)
        }
    }

    /// What `set_position` does.
    pub open spec fn set_position_result(
        s0: GlobalState,
        log0: Seq<Output>,
        id: PlayerId,
        position: u64,
        s1: GlobalState,
        log1: Seq<Output>,
        cmds: Seq<BackendCommand>,
    ) -> bool {
        &&& s1.spec_tempo() == s0.spec_tempo()
        &&& s1.cache() == s0.cache()
        &&& s1.active() == s0.active()
        &&& is_track(log0, id) ==> {
            let t = track_of(log0, id.index() as int);
            &&& log1 == with_transport(
                log0,
                id.index() as int,
                t.is_playing,
                clamp_position(position),
            )
            &&& cmds == s0.seek_steps(t, clamp_position(position))
        }
        &&& !is_track(log0, id) ==> log1 == log0 && cmds.len() == 0
    }

    /// What `set_tempo` does.
    pub open spec fn set_tempo_result(s0: GlobalState, tempo: u16, s1: GlobalState, cmds: Seq<
        BackendCommand,
    >) -> bool {
        &&& s1.spec_tempo() == clamp_tempo(tempo)
        &&& s1.active() == s0.active()
        &&& s1.cache() == s0.cache()
        &&& cmds == (if s0.active() matches Some(PlayerId::Midi(_)) {
            seq![BackendCommand::SetMidiTempo(clamp_tempo(tempo))]
        } else {
            seq![]
        })
    }

    /// What `update` does with `message`.
    pub open spec fn update_result(
        s0: GlobalState,
        log0: Seq<Output>,
        message: Message,
        s1: GlobalState,
        log1: Seq<Output>,
        cmds: Seq<BackendCommand>,
    ) -> bool {
        match message {
            Message::Play(id, probe) => Self::play_result(s0, log0, id, probe, s1, log1, cmds),
            Message::Pause(id) => Self::pause_result(s0, log0, id, s1, log1, cmds),
            Message::ChangePosition(id, position) => {
                Self::set_position_result(s0, log0, id, position, s1, log1, cmds)
            },
            Message::SetTempo(tempo) => log1 == log0
                && Self::set_tempo_result(s0, tempo, s1, cmds),
            Message::Tick(reported) => {
                cmds.len() == 0 && Self::on_tick_result(s0, log0, reported, s1, log1)
            },
            Message::Failed(id, reason) => {
                cmds.len() == 0 && Self::fail_result(s0, log0, id, reason@, s1, log1)
            },
        }
    }

    /// What `on_tick` does.
    pub open spec fn on_tick_result(
        s0: GlobalState,
        log0: Seq<Output>,
        reported: u64,
        s1: GlobalState,
        log1: Seq<Output>,
    ) -> bool {
        &&& s1.spec_tempo() == s0.spec_tempo()
        &&& s1.cache() == s0.cache()
        &&& s0.active() is None ==> log1 == log0 && s1.active() is None
        &&& s0.active() matches Some(p) ==> if reported >= POSITION_SCALE {
            &&& log1 == with_transport(log0, p.index() as int, false, 0)
            &&& s1.active() is None
        } else {
            &&& log1 == with_transport(log0, p.index() as int, true, reported)
            &&& s1.active() == s0.active()
        }
    }

    /// What `fail` does.
    pub open spec fn fail_result(
        s0: GlobalState,
        log0: Seq<Output>,
        id: PlayerId,
        reason: Seq<char>,
        s1: GlobalState,
        log1: Seq<Output>,
    ) -> bool {
        &&& s1.spec_tempo() == s0.spec_tempo()
        &&& log1.len() == log0.len() + 1
        &&& log1.last() is Error
        &&& log1.last()->Error_0@ == reason
        &&& is_track(log0, id) ==> {
            let t = track_of(log0, id.index() as int);
            &&& log1.take(log0.len() as int) == with_transport(
                log0,
                id.index() as int,
                false,
                t.position,
            )
            &&& s1.active() == (if s0.active() == Some(id) {
                None
            } else {
                s0.active()
            })
            &&& forall|q: Seq<char>|
                s1.cached(q) <==> (s0.cached(q) && !(id is Audio && q
                    == t.path@))
        }
        &&& !is_track(log0, id) ==> {
            &&& log1.take(log0.len() as int) == log0
            &&& s1.active() == s0.active()
            &&& s1.cache() == s0.cache()
        }
    }

    /// Stops track `id`: its backend is silenced (an audio sink keeps its position) and it is no
    /// longer active.
    pub(crate) fn pause(&mut self, output: &mut Vec<Output>, id: PlayerId) -> (cmds: Vec<
        BackendCommand,
    >)
        requires
            old(self).wf(old(output)@),
        ensures
            final(self).wf(final(output)@),
            Self::pause_result(*old(self), old(output)@, id, *final(self), final(output)@, cmds@),
    {
        let mut cmds: Vec<BackendCommand> = Vec::new();
        if !find_track(output, id) {
            return cmds;
        }
        let i = id.inner();
        let position = match &output[i] {
            Output::Player(t) => {
                match id {
                    PlayerId::Midi(_) => cmds.push(BackendCommand::StopMidi),
                    PlayerId::Audio(_) => {
                        if self.is_cached(&t.path) {
                            cmds.push(BackendCommand::PauseAudio(id));
                        }
                    },
                }
                t.position
            },
            _ => {
                return cmds;
            },
        };
        proof {
            let t = track_of(output@, i as int);
            assert(cmds@ =~= self.pause_steps(t));
        }
        set_transport(output, i, false, position);
        let was_active = match self.playing_track {
            Some(p) => p == id,
            None => false,
        };
        if was_active {
            self.playing_track = None;
        }
        proof {
            let log0 = old(output)@;
            let log1 = output@;
            assert forall|j: int| 0 <= j < log1.len() && (#[trigger] log1[j]) is Player implies {
                &&& track_of(log1, j).id.index() == j
                &&& track_of(log1, j).position <= POSITION_SCALE
                &&& track_of(log1, j).is_playing ==> self.active() == Some(track_of(log1, j).id)
            } by {
                assert(log0[j] is Player);
            }
            if let Some(p) = self.active() {
                assert(is_track(log0, p));
                assert(p.index() != i);
            }
        }
        cmds
    }
}

impl GlobalState {
    /// Starts track `id` from its stored position, stopping the active track first.
    ///
    /// When the file is gone nothing else changes: the track stays stopped (it is stopped if it
    /// was the active one), any other active track plays on, and an error entry is appended.
    pub(crate) fn play(
        &mut self,
        output: &mut Vec<Output>,
        id: PlayerId,
        probe: MediaProbe,
    ) -> (cmds: Vec<BackendCommand>)
        requires
            old(self).wf(old(output)@),
        ensures
            final(self).wf(final(output)@),
            Self::play_result(
                *old(self),
                old(output)@,
                id,
                probe,
                *final(self),
                final(output)@,
                cmds@,
            ),
    {
        if !find_track(output, id) {
            return Vec::new();
        }
        let ghost log0 = output@;
        let ghost s0 = *self;
        let i = id.inner();
        if !probe.file_exists {
            // the file is gone: the target stays stopped and any other track plays on
            let (position, path) = match &output[i] {
                Output::Player(t) => (t.position, t.path.clone()),
                _ => {
                    return Vec::new();
                },
            };
            let target_active = match self.playing_track {
                Some(p) => p == id,
                None => false,
            };
            let cmds = if target_active {
                self.pause(output, id)
            } else {
                set_transport(output, i, false, position);
                proof {
                    let log1 = output@;
                    assert forall|j: int|
                        0 <= j < log1.len() && (#[trigger] log1[j]) is Player implies {
                        &&& track_of(log1, j).id.index() == j
                        &&& track_of(log1, j).position <= POSITION_SCALE
                        &&& track_of(log1, j).is_playing ==> self.active() == Some(
                            track_of(log1, j).id,
                        )
                    } by {
                        assert(log0[j] is Player);
                    }
                    if let Some(p) = self.active() {
                        assert(is_track(log0, p));
                        assert(p.index() != i);
                    }
                }
                Vec::new()
            };
            let ghost stopped = output@;
            output.push(Output::Error(missing_file_message(&path)));
            proof {
                assert(output@.take(stopped.len() as int) =~= stopped);
                let log1 = output@;
                assert forall|j: int|
                    0 <= j < log1.len() && (#[trigger] log1[j]) is Player implies {
                    &&& track_of(log1, j).id.index() == j
                    &&& track_of(log1, j).position <= POSITION_SCALE
                    &&& track_of(log1, j).is_playing ==> self.active() == Some(
                        track_of(log1, j).id,
                    )
                } by {
                    assert(j < stopped.len());
                    assert(log1[j] == stopped[j]);
                }
                if let Some(p) = self.active() {
                    assert(log1[p.index() as int] == stopped[p.index() as int]);
                }
            }
            return cmds;
        }
        let mut cmds = match self.playing_track {
            Some(p) => self.pause(output, p),
            None => Vec::new(),
        };
        proof {
            if let Some(p) = s0.active() {
                assert(is_track(log0, p));
            }
            assert(output@ == s0.paused_log(log0));
            assert(cmds@ == s0.stop_steps(log0));
            assert(self.active() == None::<PlayerId>);
            assert(is_track(output@, id));
        }
        let (position, path) = match &output[i] {
            Output::Player(t) => (t.position, t.path.clone()),
            _ => {
                return cmds;
            },
        };
        let ghost before_start = cmds@;
        match id {
            PlayerId::Midi(_) => {
                cmds.push(BackendCommand::LoadMidi(id));
                cmds.push(BackendCommand::SeekMidi(position));
                cmds.push(BackendCommand::SetMidiTempo(self.tempo));
                cmds.push(BackendCommand::PlayMidi);
            },
            PlayerId::Audio(_) => {
                let cached = self.is_cached(&path);
                if !cached || probe.sink_exhausted {
                    cmds.push(BackendCommand::OpenAudio(id));
                }
                cmds.push(BackendCommand::SeekAudio(id, position));
                cmds.push(BackendCommand::PlayAudio(id));
                if !cached {
                    self.audio_cache.push(path);
                    proof {
                        assert(self.cache() =~= s0.cache().push(track_of(log0, i as int).path@));
                    }
                }
            },
        }
        proof {
            let t = track_of(log0, i as int);
            assert(cmds@ =~= before_start + s0.start_steps(t, probe));
        }
        set_transport(output, i, true, position);
        self.playing_track = Some(id);
        proof {
            let log1 = output@;
            assert forall|j: int| 0 <= j < log1.len() && (#[trigger] log1[j]) is Player implies {
                &&& track_of(log1, j).id.index() == j
                &&& track_of(log1, j).position <= POSITION_SCALE
                &&& track_of(log1, j).is_playing ==> self.active() == Some(track_of(log1, j).id)
            } by {
                if j != i {
                    assert(log1[j] == log0[j] || log1[j] == s0.paused_log(log0)[j]);
                }
            }
        }
        cmds
    }
}

impl GlobalState {
    /// Moves track `id` to `position`, clamped to the end of the track. The live backend follows
    /// when the track is the active one.
    pub(crate) fn set_position(
        &mut self,
        output: &mut Vec<Output>,
        id: PlayerId,
        position: u64,
    ) -> (cmds: Vec<BackendCommand>)
        requires
            old(self).wf(old(output)@),
        ensures
            final(self).wf(final(output)@),
            Self::set_position_result(
                *old(self),
                old(output)@,
                id,
                position,
                *final(self),
                final(output)@,
                cmds@,
            ),
    {
        let mut cmds: Vec<BackendCommand> = Vec::new();
        if !find_track(output, id) {
            return cmds;
        }
        let position = if position > POSITION_SCALE {
            POSITION_SCALE
        } else {
            position
        };
        let i = id.inner();
        let playing = match &output[i] {
            Output::Player(t) => {
                let active = match self.playing_track {
                    Some(p) => p == id,
                    None => false,
                };
                if active {
                    match id {
                        PlayerId::Midi(_) => cmds.push(BackendCommand::SeekMidi(position)),
                        PlayerId::Audio(_) => {
                            if self.is_cached(&t.path) {
                                cmds.push(BackendCommand::SeekAudio(id, position));
                            }
                        },
                    }
                }
                t.is_playing
            },
            _ => {
                return cmds;
            },
        };
        proof {
            let t = track_of(output@, i as int);
            assert(cmds@ =~= self.seek_steps(t, position));
        }
        let ghost log0 = output@;
        set_transport(output, i, playing, position);
        proof {
            let log1 = output@;
            assert forall|j: int| 0 <= j < log1.len() && (#[trigger] log1[j]) is Player implies {
                &&& track_of(log1, j).id.index() == j
                &&& track_of(log1, j).position <= POSITION_SCALE
                &&& track_of(log1, j).is_playing ==> self.active() == Some(track_of(log1, j).id)
            } by {
                assert(log0[j] is Player);
            }
            if let Some(p) = self.active() {
                assert(is_track(log0, p));
            }
        }
        cmds
    }

    /// Stores `tempo` clamped to `[MIN_TEMPO, MAX_TEMPO]`; an active MIDI track takes it at once.
    pub fn set_tempo(&mut self, tempo: u16) -> (cmds: Vec<BackendCommand>)
        ensures
            Self::set_tempo_result(*old(self), tempo, *final(self), cmds@),
            forall|log: Seq<Output>| old(self).wf(log) ==> final(self).wf(log),
    {
        let tempo = if tempo < MIN_TEMPO {
            MIN_TEMPO
        } else if tempo > MAX_TEMPO {
            MAX_TEMPO
        } else {
            tempo
        };
        self.tempo = tempo;
        let mut cmds: Vec<BackendCommand> = Vec::new();
        if let Some(PlayerId::Midi(_)) = self.playing_track {
            cmds.push(BackendCommand::SetMidiTempo(tempo));
        }
        proof {
            assert(cmds@ =~= (if old(self).active() matches Some(PlayerId::Midi(_)) {
                seq![BackendCommand::SetMidiTempo(clamp_tempo(tempo))]
            } else {
                seq![]
            }));
        }
        cmds
    }

    /// Copies the position that the active track's backend reports into its state. At the end
    /// of the track it stops, rewinds to the start and is no longer active.
    pub(crate) fn on_tick(&mut self, output: &mut Vec<Output>, reported: u64)
        requires
            old(self).wf(old(output)@),
        ensures
            final(self).wf(final(output)@),
            Self::on_tick_result(*old(self), old(output)@, reported, *final(self), final(output)@),
    {
        let p = match self.playing_track {
            Some(p) => p,
            None => {
                return ;
            },
        };
        proof {
            assert(is_track(output@, p));
        }
        let ghost log0 = output@;
        let i = p.inner();
        if reported >= POSITION_SCALE {
            set_transport(output, i, false, 0);
            self.playing_track = None;
        } else {
            set_transport(output, i, true, reported);
        }
        proof {
            let log1 = output@;
            assert forall|j: int| 0 <= j < log1.len() && (#[trigger] log1[j]) is Player implies {
                &&& track_of(log1, j).id.index() == j
                &&& track_of(log1, j).position <= POSITION_SCALE
                &&& track_of(log1, j).is_playing ==> self.active() == Some(track_of(log1, j).id)
            } by {
                assert(log0[j] is Player);
            }
        }
    }
}

impl GlobalState {
    /// Closes the cached sink of `path`, if there is one.
    fn forget_sink(&mut self, path: &String)
        requires
            old(self).cache().no_duplicates(),
        ensures
            final(self).cache().no_duplicates(),
            forall|q: Seq<char>| final(self).cached(q) <==> (old(self).cached(q) && q != path@),
            final(self).active() == old(self).active(),
            final(self).spec_tempo() == old(self).spec_tempo(),
    {
        let ghost c0 = self.cache();
        let mut k: usize = 0;
        while k < self.audio_cache.len()
            invariant
                k <= self.audio_cache.len(),
                self.cache() == c0,
                c0 == old(self).cache(),
                self.playing_track == old(self).playing_track,
                self.tempo == old(self).tempo,
                c0.len() == self.audio_cache.len(),
                c0.no_duplicates(),
                forall|j: int| 0 <= j < k ==> c0[j] != path@,
            decreases self.audio_cache.len() - k,
        {
            if self.audio_cache[k] == *path {
                assert(c0[k as int] == path@);
                self.audio_cache.remove(k);
                proof {
                    assert(self.cache() =~= c0.remove(k as int));
                    c0.remove_ensures(k as int);
                    assert forall|q: Seq<char>|
                        self.cached(q) <==> (c0.contains(q) && q != path@) by {
                        if c0.contains(q) && q != path@ {
                            let j = choose|j: int| 0 <= j < c0.len() && c0[j] == q;
                            assert(j != k);
                            if j < k {
                                assert(self.cache()[j] == q);
                                assert(self.cache().contains(q));
                            } else {
                                assert(self.cache()[j - 1] == q);
                                assert(self.cache().contains(q));
                            }
                        }
                        if self.cached(q) {
                            let j = choose|j: int|
                                0 <= j < self.cache().len() && self.cache()[j] == q;
                            if j < k {
                                assert(c0[j] == q);
                                assert(c0.contains(q));
                                assert(c0[j] != c0[k as int]);
                            } else {
                                assert(c0[j + 1] == q);
                                assert(c0.contains(q));
                                assert(c0[j + 1] != c0[k as int]);
                            }
                        }
                    }
                }
                return ;
            }
            k += 1;
        }
    }

    /// Reports that a backend step for track `id` failed: the track stops, a sink that could not
    /// be opened leaves the cache, and `reason` is appended as an error entry.
    pub(crate) fn fail(&mut self, output: &mut Vec<Output>, id: PlayerId, reason: String)
        requires
            old(self).wf(old(output)@),
        ensures
            final(self).wf(final(output)@),
            Self::fail_result(*old(self), old(output)@, id, reason@, *final(self), final(output)@),
    {
        let ghost log0 = output@;
        if find_track(output, id) {
            let i = id.inner();
            let (position, path) = match &output[i] {
                Output::Player(t) => (t.position, t.path.clone()),
                _ => {
                    return ;
                },
            };
            set_transport(output, i, false, position);
            let was_active = match self.playing_track {
                Some(p) => p == id,
                None => false,
            };
            if was_active {
                self.playing_track = None;
            }
            if let PlayerId::Audio(_) = id {
                self.forget_sink(&path);
            }
            proof {
                let log1 = output@;
                assert forall|j: int|
                    0 <= j < log1.len() && (#[trigger] log1[j]) is Player implies {
                    &&& track_of(log1, j).id.index() == j
                    &&& track_of(log1, j).position <= POSITION_SCALE
                    &&& track_of(log1, j).is_playing ==> self.active() == Some(
                        track_of(log1, j).id,
                    )
                } by {
                    assert(log0[j] is Player);
                }
                if let Some(p) = self.active() {
                    assert(is_track(log0, p));
                    assert(p.index() != i);
                }
            }
        }
        let ghost log1 = output@;
        output.push(Output::Error(reason));
        proof {
            assert(output@.take(log1.len() as int) =~= log1);
            let log2 = output@;
            assert forall|j: int| 0 <= j < log2.len() && (#[trigger] log2[j]) is Player implies {
                &&& track_of(log2, j).id.index() == j
                &&& track_of(log2, j).position <= POSITION_SCALE
                &&& track_of(log2, j).is_playing ==> self.active() == Some(track_of(log2, j).id)
            } by {
                assert(log2[j] == log1[j]);
            }
        }
    }

    /// Applies one transport intent.
    pub(crate) fn update(&mut self, output: &mut Vec<Output>, message: Message) -> (cmds: Vec<
        BackendCommand,
    >)
        requires
            old(self).wf(old(output)@),
        ensures
            final(self).wf(final(output)@),
            Self::update_result(
                *old(self),
                old(output)@,
                message,
                *final(self),
                final(output)@,
                cmds@,
            ),
    {
        match message {
            Message::Play(id, probe) => self.play(output, id, probe),
            Message::Pause(id) => self.pause(output, id),
            Message::ChangePosition(id, position) => self.set_position(output, id, position),
            Message::SetTempo(tempo) => self.set_tempo(tempo),
            Message::Tick(reported) => {
                self.on_tick(output, reported);
                Vec::new()
            },
            Message::Failed(id, reason) => {
                self.fail(output, id, reason);
                Vec::new()
            },
        }
    }
}

/// The error text for a track whose file is gone.
pub fn missing_file_message(path: &String) -> (r: String)
    ensures
        r@ == missing_file_text(path@),
{
    let mut r = String::from_str("File ");
    r.append(path.as_str());
    r.append(" does not exist.");
    r
}

/// Whether the entry at the track's index is that track.
pub fn find_track(output: &Vec<Output>, id: PlayerId) -> (r: bool)
    ensures
        r == is_track(output@, id),
{
    let i = id.inner();
    if i >= output.len() {
        return false;
    }
    match &output[i] {
        Output::Player(t) => t.id == id,
        _ => false,
    }
}

/// Track positions stay within the track: `wf` bounds them, and every operation of the
/// coordinator keeps `wf`, so this holds after any sequence of play, pause, seek and tick.
pub proof fn lemma_positions_in_range(s: GlobalState, log: Seq<Output>)
    requires
        s.wf(log),
    ensures
        forall|i: int|
            0 <= i < log.len() && (#[trigger] log[i]) is Player ==> 0 <= track_of(log, i).position
                <= POSITION_SCALE,
{
}

/// At most one track plays at a time: two playing tracks are the same entry of the log.
pub proof fn lemma_at_most_one_playing(s: GlobalState, log: Seq<Output>)
    requires
        s.wf(log),
    ensures
        forall|i: int, j: int|
            0 <= i < log.len() && 0 <= j < log.len() && (#[trigger] log[i]) is Player && (
            #[trigger] log[j]) is Player && track_of(log, i).is_playing && track_of(
                log,
                j,
            ).is_playing ==> i == j,
{
}

/// Playing a track, whether its file is there or not, keeps its stored position, path and
/// identifier.
pub proof fn lemma_play_keeps_track(
    s0: GlobalState,
    log0: Seq<Output>,
    id: PlayerId,
    probe: MediaProbe,
    s1: GlobalState,
    log1: Seq<Output>,
    cmds: Seq<BackendCommand>,
)
    requires
        s0.wf(log0),
        is_track(log0, id),
        GlobalState::play_result(s0, log0, id, probe, s1, log1, cmds),
    ensures
        is_track(log1, id),
        track_of(log1, id.index() as int).position == track_of(log0, id.index() as int).position,
        track_of(log1, id.index() as int).path == track_of(log0, id.index() as int).path,
{
    let i = id.index() as int;
    if !probe.file_exists {
        let stopped = with_transport(log0, i, false, track_of(log0, i).position);
        assert(log1[i] == log1.take(stopped.len() as int)[i]);
    } else if let Some(p) = s0.active() {
        assert(is_track(log0, p));
    }
}

/// Stopping a track keeps its stored position, path and identifier.
pub proof fn lemma_pause_keeps_track(
    s0: GlobalState,
    log0: Seq<Output>,
    id: PlayerId,
    s1: GlobalState,
    log1: Seq<Output>,
    cmds: Seq<BackendCommand>,
)
    requires
        s0.wf(log0),
        is_track(log0, id),
        GlobalState::pause_result(s0, log0, id, s1, log1, cmds),
    ensures
        is_track(log1, id),
        !track_of(log1, id.index() as int).is_playing,
        track_of(log1, id.index() as int).position == track_of(log0, id.index() as int).position,
        track_of(log1, id.index() as int).path == track_of(log0, id.index() as int).path,
{
}

/// Seeking stores the requested position clamped to the track, and keeps whether it plays.
pub proof fn lemma_seek_clamps(
    s0: GlobalState,
    log0: Seq<Output>,
    id: PlayerId,
    position: u64,
    s1: GlobalState,
    log1: Seq<Output>,
    cmds: Seq<BackendCommand>,
)
    requires
        s0.wf(log0),
        is_track(log0, id),
        GlobalState::set_position_result(s0, log0, id, position, s1, log1, cmds),
    ensures
        is_track(log1, id),
        track_of(log1, id.index() as int).position == clamp_position(position),
        track_of(log1, id.index() as int).position <= POSITION_SCALE,
        track_of(log1, id.index() as int).is_playing == track_of(log0, id.index() as int).is_playing,
        s1.active() == s0.active(),
{
}

/// A tick stores the reported position of the active track while it is inside the track, and
/// rewinds it to the start at the end.
pub proof fn lemma_tick_position(
    s0: GlobalState,
    log0: Seq<Output>,
    reported: u64,
    s1: GlobalState,
    log1: Seq<Output>,
)
    requires
        s0.wf(log0),
        s0.active() is Some,
        GlobalState::on_tick_result(s0, log0, reported, s1, log1),
    ensures
        ({
            let i = s0.active()->0.index() as int;
            &&& is_track(log1, s0.active()->0)
            &&& track_of(log1, i).position == (if reported < POSITION_SCALE {
                reported
            } else {
                0
            })
            &&& track_of(log1, i).position <= POSITION_SCALE
        }),
{
}

/// No track of the log is playing.
pub open spec fn no_track_plays(log: Seq<Output>) -> bool {
    forall|i: int|
        0 <= i < log.len() && (#[trigger] log[i]) is Player ==> {
            &&& track_of(log, i).id.index() == i
            &&& track_of(log, i).position <= POSITION_SCALE
            &&& !track_of(log, i).is_playing
        }
}

} // verus!
