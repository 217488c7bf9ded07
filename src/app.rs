//! The state that the user interface renders, and how each message changes it.
//!
//! Nothing here blocks or performs I/O: [`State::update`] returns an [`Effect`] that the caller
//! carries out (a message to the worker, an answer to a waiting command, steps for the audio
//! backends).

use vstd::prelude::*;

use crate::output::{is_track, track_of, Output};
use crate::player::{self, BackendCommand, GlobalState, PlayerId, Track};
use crate::worker;

verus! {

/// A message for the user interface.
#[derive(Debug)]
pub enum Message {
    InputChanged(String),
    /// The user answered the question (first) with the text (second).
    Answer(String, String),
    /// The user picked a scratch folder, or cancelled.
    SetScratchDir(Option<String>),
    PiSelected(String),
    TiSelected(String),
    Interpreter(worker::Message),
    Player(player::Message),
}

impl From<worker::Message> for Message {
    fn from(value: worker::Message) -> (r: Message)
        ensures
            r == Message::Interpreter(value),
    {
        Message::Interpreter(value)
    }
}

impl vstd::std_specs::convert::FromSpecImpl<worker::Message> for Message {
    open spec fn obeys_from_spec() -> bool {
        true
    }

    open spec fn from_spec(v: worker::Message) -> Message {
        Message::Interpreter(v)
    }
}

impl From<player::Message> for Message {
    fn from(value: player::Message) -> (r: Message)
        ensures
            r == Message::Player(value),
    {
        Message::Player(value)
    }
}

impl vstd::std_specs::convert::FromSpecImpl<player::Message> for Message {
    open spec fn obeys_from_spec() -> bool {
        true
    }

    open spec fn from_spec(v: player::Message) -> Message {
        Message::Player(v)
    }
}

/// What the caller must do after an update.
#[derive(Debug)]
pub enum Effect {
    Nothing,
    /// Put the keyboard focus back on the input line.
    FocusInput,
    /// Send a request to the worker.
    Send(worker::Message),
    /// Hand the answer to the command that waits for it.
    Respond(String),
    /// Perform these backend steps in order.
    Playback(Vec<BackendCommand>),
}

/// The user interface's state.
pub struct State {
    answer: String,
    session: Session,
    question: Option<String>,
    scratch_dir: String,
    path_lib: Vec<String>,
    texture_lib: Vec<String>,
    active_path: String,
    active_texture: String,
}

/// The output log with the playback state, which always agree with each other.
pub struct Session {
    output: Vec<Output>,
    player_state: GlobalState,
}

impl Session {
    #[verifier::type_invariant]
    spec fn agrees(&self) -> bool {
        self.player_state.wf(self.output@)
    }

    pub closed spec fn log(&self) -> Seq<Output> {
        self.output@
    }

    pub closed spec fn player(&self) -> GlobalState {
        self.player_state
    }

    /// A log with one text entry and nothing playing.
    fn with_text(text: String) -> (r: Session)
        ensures
            r.log() == seq![Output::Normal(text)],
            r.player().active() is None,
            r.player().spec_tempo() == player::DEFAULT_TEMPO,
    {
        let player_state = GlobalState::new();
        let output = vec![Output::Normal(text)];
        assert(player::no_track_plays(output@));
        Session { output, player_state }
    }

    /// The log, which the playback state agrees with.
    pub fn output(&self) -> (r: &Vec<Output>)
        ensures
            r@ == self.log(),
            self.player().wf(self.log()),
    {
        proof {
            use_type_invariant(self);
        }
        &self.output
    }

    /// The playback state, which agrees with the log.
    pub fn player_state(&self) -> (r: &GlobalState)
        ensures
            *r == self.player(),
            self.player().wf(self.log()),
    {
        proof {
            use_type_invariant(self);
        }
        &self.player_state
    }

    /// The session with `entry` appended; a new entry never plays.
    fn append(self, entry: Output) -> (r: Session)
        requires
            entry is Player ==> track_of(seq![entry], 0).id.index() == self.log().len()
                && track_of(seq![entry], 0).position <= player::POSITION_SCALE && !track_of(
                seq![entry],
                0,
            ).is_playing,
        ensures
            r.log() == self.log().push(entry),
            r.player() == self.player(),
    {
        proof {
            use_type_invariant(&self);
        }
        let Session { mut output, player_state } = self;
        let ghost log0 = output@;
        output.push(entry);
        proof {
            let log1 = output@;
            assert forall|j: int| 0 <= j < log1.len() && (#[trigger] log1[j]) is Player implies {
                &&& track_of(log1, j).id.index() == j
                &&& track_of(log1, j).position <= player::POSITION_SCALE
                &&& track_of(log1, j).is_playing ==> player_state.active() == Some(
                    track_of(log1, j).id,
                )
            } by {
                if j < log0.len() {
                    assert(log1[j] == log0[j]);
                } else {
                    assert(log1[j] == seq![entry][0]);
                }
            }
            if let Some(p) = player_state.active() {
                assert(is_track(log0, p));
                assert(log1[p.index() as int] == log0[p.index() as int]);
            }
        }
        Session { output, player_state }
    }

    /// The session after a transport intent, and the backend steps it takes.
    fn apply(self, m: player::Message) -> (r: (Session, Vec<BackendCommand>))
        ensures
            GlobalState::update_result(self.player(), self.log(), m, r.0.player(), r.0.log(), r.1@),
    {
        proof {
            use_type_invariant(&self);
        }
        let Session { mut output, mut player_state } = self;
        let cmds = player_state.update(&mut output, m);
        (Session { output, player_state }, cmds)
    }
}

/// The command that sets the scratch folder.
pub open spec fn scratch_dir_command(dir: Seq<char>) -> Seq<char> {
    "apdir x "@ + dir
}

/// The command that selects a path instance.
pub open spec fn select_path_command(name: Seq<char>) -> Seq<char> {
    "pio "@ + name
}

/// The command that selects a texture instance.
pub open spec fn select_texture_command(name: Seq<char>) -> Seq<char> {
    "tio "@ + name
}

/// A request for the worker to run `text`.
pub open spec fn sends_command(e: Effect, text: Seq<char>) -> bool {
    e matches Effect::Send(worker::Message::SendCmd(c)) && c@ == text
}

impl State {
    pub closed spec fn log(&self) -> Seq<Output> {
        self.session.log()
    }

    pub closed spec fn input(&self) -> Seq<char> {
        self.answer@
    }

    pub closed spec fn prompt(&self) -> Option<String> {
        self.question
    }

    pub closed spec fn player(&self) -> GlobalState {
        self.session.player()
    }

    pub closed spec fn spec_scratch_dir(&self) -> Seq<char> {
        self.scratch_dir@
    }

    pub closed spec fn spec_path_lib(&self) -> Seq<String> {
        self.path_lib@
    }

    pub closed spec fn spec_texture_lib(&self) -> Seq<String> {
        self.texture_lib@
    }

    pub closed spec fn spec_active_path(&self) -> Seq<char> {
        self.active_path@
    }

    pub closed spec fn spec_active_texture(&self) -> Seq<char> {
        self.active_texture@
    }

    /// Everything but the input line, the question and the log is as in `other`.
    pub open spec fn same_settings(&self, other: State) -> bool {
        &&& self.spec_scratch_dir() == other.spec_scratch_dir()
        &&& self.spec_path_lib() == other.spec_path_lib()
        &&& self.spec_texture_lib() == other.spec_texture_lib()
        &&& self.spec_active_path() == other.spec_active_path()
        &&& self.spec_active_texture() == other.spec_active_texture()
    }
}

impl State {
    /// A fresh state whose log holds the welcome text.
    pub fn new(welcome: String) -> (r: State)
        ensures
            r.log() == seq![Output::Normal(welcome)],
            r.input().len() == 0,
            r.prompt() is None,
            r.player().active() is None,
            r.player().spec_tempo() == player::DEFAULT_TEMPO,
    {
        State {
            answer: String::new(),
            session: Session::with_text(welcome),
            question: None,
            scratch_dir: String::new(),
            path_lib: Vec::new(),
            texture_lib: Vec::new(),
            active_path: String::new(),
            active_texture: String::new(),
        }
    }

    /// What submitting the input line means: the answer to the pending question if there is
    /// one, else a command.
    pub fn submit_input(&self) -> (r: Message)
        ensures
            self.prompt() matches Some(q) ==> (r matches Message::Answer(a, b) && a == q && b@
                == self.input()),
            self.prompt() is None ==> (r matches Message::Interpreter(
                worker::Message::SendCmd(c),
            ) && c@ == self.input()),
    {
        match &self.question {
            Some(q) => Message::Answer(q.clone(), self.answer.clone()),
            None => Message::Interpreter(worker::Message::SendCmd(self.answer.clone())),
        }
    }

    /// The log, which the playback state agrees with.
    pub fn output(&self) -> (r: &Vec<Output>)
        ensures
            r@ == self.log(),
            self.player().wf(self.log()),
    {
        self.session.output()
    }

    pub fn answer(&self) -> (r: &str)
        ensures
            r@ == self.input(),
    {
        self.answer.as_str()
    }

    pub fn question(&self) -> (r: &Option<String>)
        ensures
            *r == self.prompt(),
    {
        &self.question
    }

    /// The playback state, which agrees with the log.
    pub fn player_state(&self) -> (r: &GlobalState)
        ensures
            *r == self.player(),
            self.player().wf(self.log()),
    {
        self.session.player_state()
    }

    pub fn scratch_dir(&self) -> (r: &str)
        ensures
            r@ == self.spec_scratch_dir(),
    {
        self.scratch_dir.as_str()
    }

    pub fn path_lib(&self) -> (r: &Vec<String>)
        ensures
            r@ == self.spec_path_lib(),
    {
        &self.path_lib
    }

    pub fn texture_lib(&self) -> (r: &Vec<String>)
        ensures
            r@ == self.spec_texture_lib(),
    {
        &self.texture_lib
    }

    pub fn active_path(&self) -> (r: &str)
        ensures
            r@ == self.spec_active_path(),
    {
        self.active_path.as_str()
    }

    pub fn active_texture(&self) -> (r: &str)
        ensures
            r@ == self.spec_active_texture(),
    {
        self.active_texture.as_str()
    }

    /// Appends `entry` to the log; a new entry never plays.
    fn append(&mut self, entry: Output)
        requires
            entry is Player ==> track_of(seq![entry], 0).id.index() == old(self).log().len()
                && track_of(seq![entry], 0).position <= player::POSITION_SCALE && !track_of(
                seq![entry],
                0,
            ).is_playing,
        ensures
            final(self).log() == old(self).log().push(entry),
            final(self).player() == old(self).player(),
            final(self).input() == old(self).input(),
            final(self).prompt() == old(self).prompt(),
            final(self).same_settings(*old(self)),
    {
        let mut session = Session::with_text(String::new());
        std::mem::swap(&mut session, &mut self.session);
        self.session = session.append(entry);
    }
}

/// A fresh, stopped track for a file that the engine loaded.
pub open spec fn loaded_track(path: String, id: PlayerId) -> Output {
    Output::Player(Track { is_playing: false, path, id, position: 0 })
}

impl State {
    /// Nothing changed.
    pub open spec fn keeps_all(&self, other: State) -> bool {
        &&& self.log() == other.log()
        &&& self.input() == other.input()
        &&& self.prompt() == other.prompt()
        &&& self.player() == other.player()
        &&& self.same_settings(other)
    }

    /// Only the log grew by `entry`.
    pub open spec fn appends(&self, other: State, entry: Output) -> bool {
        &&& self.log() == other.log().push(entry)
        &&& self.prompt() == other.prompt()
        &&& self.player() == other.player()
        &&& self.same_settings(other)
    }

    /// What a message from the worker does.
    pub open spec fn interpreter_result(
        s0: State,
        m: worker::Message,
        s1: State,
        r: Effect,
    ) -> bool {
        match m {
            worker::Message::SendCmd(cmd) => {
                &&& s1.appends(s0, Output::Command(cmd))
                &&& s1.input().len() == 0
                &&& r == Effect::Send(worker::Message::SendCmd(cmd))
            },
            worker::Message::Post(text) => {
                &&& s1.appends(s0, Output::Normal(text))
                &&& s1.input().len() == 0
                &&& r is FocusInput
            },
            worker::Message::Error(text) => {
                &&& s1.appends(s0, Output::Error(text))
                &&& s1.input().len() == 0
                &&& r is FocusInput
            },
            worker::Message::PythonError(text) => {
                &&& s1.appends(s0, Output::Error(text))
                &&& s1.input().len() == 0
                &&& r is FocusInput
            },
            worker::Message::Ask(question) => {
                &&& s1.log() == s0.log()
                &&& s1.prompt() == Some(question)
                &&& s1.player() == s0.player()
                &&& s1.same_settings(s0)
                &&& s1.input().len() == 0
                &&& r is FocusInput
            },
            worker::Message::LoadMidi(path) => {
                &&& s1.appends(s0, loaded_track(path, PlayerId::Midi(s0.log().len() as usize)))
                &&& s1.input() == s0.input()
                &&& r is Nothing
            },
            worker::Message::LoadAudio(path) => {
                &&& s1.appends(s0, loaded_track(path, PlayerId::Audio(s0.log().len() as usize)))
                &&& s1.input() == s0.input()
                &&& r is Nothing
            },
            worker::Message::GetScratchDir => s1.keeps_all(s0) && r is Nothing,
            worker::Message::ScratchDir(dir) => {
                &&& s1.spec_scratch_dir() == dir@
                &&& s1.log() == s0.log() && s1.input() == s0.input() && s1.prompt() == s0.prompt()
                &&& s1.player() == s0.player()
                &&& s1.spec_path_lib() == s0.spec_path_lib()
                &&& s1.spec_texture_lib() == s0.spec_texture_lib()
                &&& s1.spec_active_path() == s0.spec_active_path()
                &&& s1.spec_active_texture() == s0.spec_active_texture()
                &&& r is Nothing
            },
            worker::Message::PathLibUpdated(names) => {
                &&& s1.spec_path_lib() == names@
                &&& s1.log() == s0.log() && s1.input() == s0.input() && s1.prompt() == s0.prompt()
                &&& s1.player() == s0.player()
                &&& s1.spec_scratch_dir() == s0.spec_scratch_dir()
                &&& s1.spec_texture_lib() == s0.spec_texture_lib()
                &&& s1.spec_active_path() == s0.spec_active_path()
                &&& s1.spec_active_texture() == s0.spec_active_texture()
                &&& r is Nothing
            },
            worker::Message::TextureLibUpdated(names) => {
                &&& s1.spec_texture_lib() == names@
                &&& s1.log() == s0.log() && s1.input() == s0.input() && s1.prompt() == s0.prompt()
                &&& s1.player() == s0.player()
                &&& s1.spec_scratch_dir() == s0.spec_scratch_dir()
                &&& s1.spec_path_lib() == s0.spec_path_lib()
                &&& s1.spec_active_path() == s0.spec_active_path()
                &&& s1.spec_active_texture() == s0.spec_active_texture()
                &&& r is Nothing
            },
            worker::Message::ActivePathSet(name) => {
                &&& s1.spec_active_path() == name@
                &&& s1.log() == s0.log() && s1.input() == s0.input() && s1.prompt() == s0.prompt()
                &&& s1.player() == s0.player()
                &&& s1.spec_scratch_dir() == s0.spec_scratch_dir()
                &&& s1.spec_path_lib() == s0.spec_path_lib()
                &&& s1.spec_texture_lib() == s0.spec_texture_lib()
                &&& s1.spec_active_texture() == s0.spec_active_texture()
                &&& r is Nothing
            },
            worker::Message::ActiveTextureSet(name) => {
                &&& s1.spec_active_texture() == name@
                &&& s1.log() == s0.log() && s1.input() == s0.input() && s1.prompt() == s0.prompt()
                &&& s1.player() == s0.player()
                &&& s1.spec_scratch_dir() == s0.spec_scratch_dir()
                &&& s1.spec_path_lib() == s0.spec_path_lib()
                &&& s1.spec_texture_lib() == s0.spec_texture_lib()
                &&& s1.spec_active_path() == s0.spec_active_path()
                &&& r is Nothing
            },
        }
    }

    /// What a message does.
    pub open spec fn update_result(s0: State, message: Message, s1: State, r: Effect) -> bool {
        match message {
            Message::InputChanged(text) => {
                &&& s1.input() == text@
                &&& s1.log() == s0.log() && s1.prompt() == s0.prompt()
                &&& s1.player() == s0.player() && s1.same_settings(s0)
                &&& r is Nothing
            },
            Message::Answer(question, text) => {
                &&& s1.log().len() == s0.log().len() + 1
                &&& s1.log().take(s0.log().len() as int) == s0.log()
                &&& s1.log().last() matches Output::Normal(shown) && shown@ == question@ + text@
                &&& s1.prompt() is None
                &&& s1.input() == s0.input()
                &&& s1.player() == s0.player() && s1.same_settings(s0)
                &&& r == Effect::Respond(text)
            },
            Message::SetScratchDir(dir) => {
                &&& s1.keeps_all(s0)
                &&& dir matches Some(d) ==> sends_command(r, scratch_dir_command(d@))
                &&& dir is None ==> r is Nothing
            },
            Message::PiSelected(name) => s1.keeps_all(s0) && sends_command(
                r,
                select_path_command(name@),
            ),
            Message::TiSelected(name) => s1.keeps_all(s0) && sends_command(
                r,
                select_texture_command(name@),
            ),
            Message::Interpreter(m) => Self::interpreter_result(s0, m, s1, r),
            Message::Player(m) => {
                &&& r matches Effect::Playback(cmds) && GlobalState::update_result(
                    s0.player(),
                    s0.log(),
                    m,
                    s1.player(),
                    s1.log(),
                    cmds@,
                )
                &&& s1.input() == s0.input() && s1.prompt() == s0.prompt()
                &&& s1.same_settings(s0)
            },
        }
    }

    /// Applies one message.
    pub fn update(&mut self, message: Message) -> (r: Effect)
        ensures
            Self::update_result(*old(self), message, *final(self), r),
    {
        match message {
            Message::InputChanged(text) => {
                self.answer = text;
                Effect::Nothing
            },
            Message::Answer(question, text) => {
                self.question = None;
                let mut shown = question;
                shown.append(text.as_str());
                self.append(Output::Normal(shown));
                proof {
                    assert(self.log().take(old(self).log().len() as int) =~= old(self).log());
                }
                Effect::Respond(text)
            },
            Message::SetScratchDir(dir) => match dir {
                Some(d) => Effect::Send(worker::Message::SendCmd(prefixed("apdir x ", &d))),
                None => Effect::Nothing,
            },
            Message::PiSelected(name) => Effect::Send(
                worker::Message::SendCmd(prefixed("pio ", &name)),
            ),
            Message::TiSelected(name) => Effect::Send(
                worker::Message::SendCmd(prefixed("tio ", &name)),
            ),
            Message::Interpreter(m) => self.update_interpreter(m),
            Message::Player(m) => {
                let mut session = Session::with_text(String::new());
                std::mem::swap(&mut session, &mut self.session);
                let (session, cmds) = session.apply(m);
                self.session = session;
                Effect::Playback(cmds)
            },
        }
    }

    fn update_interpreter(&mut self, m: worker::Message) -> (r: Effect)
        ensures
            Self::interpreter_result(*old(self), m, *final(self), r),
    {
        match m {
            worker::Message::SendCmd(cmd) => {
                self.answer = String::new();
                self.append(Output::Command(cmd.clone()));
                Effect::Send(worker::Message::SendCmd(cmd))
            },
            worker::Message::Post(text) => {
                self.answer = String::new();
                self.append(Output::Normal(text));
                Effect::FocusInput
            },
            worker::Message::Error(text) | worker::Message::PythonError(text) => {
                self.answer = String::new();
                self.append(Output::Error(text));
                Effect::FocusInput
            },
            worker::Message::Ask(question) => {
                self.answer = String::new();
                self.question = Some(question);
                Effect::FocusInput
            },
            worker::Message::LoadMidi(path) => {
                let id = PlayerId::Midi(self.session.output().len());
                self.append(Output::Player(Track { is_playing: false, path, id, position: 0 }));
                Effect::Nothing
            },
            worker::Message::LoadAudio(path) => {
                let id = PlayerId::Audio(self.session.output().len());
                self.append(Output::Player(Track { is_playing: false, path, id, position: 0 }));
                Effect::Nothing
            },
            worker::Message::GetScratchDir => Effect::Nothing,
            worker::Message::ScratchDir(dir) => {
                self.scratch_dir = dir;
                Effect::Nothing
            },
            worker::Message::PathLibUpdated(names) => {
                self.path_lib = names;
                Effect::Nothing
            },
            worker::Message::TextureLibUpdated(names) => {
                self.texture_lib = names;
                Effect::Nothing
            },
            worker::Message::ActivePathSet(name) => {
                self.active_path = name;
                Effect::Nothing
            },
            worker::Message::ActiveTextureSet(name) => {
                self.active_texture = name;
                Effect::Nothing
            },
        }
    }
}

/// `prefix` followed by `value`.
fn prefixed(prefix: &str, value: &String) -> (r: String)
    ensures
        r@ == prefix@ + value@,
{
    let mut r = String::from_str(prefix);
    r.append(value.as_str());
    r
}

} // verus!
