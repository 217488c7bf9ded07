use athenacl::app::{Effect, Message, State};
use athenacl::output::Output;
use athenacl::player::{self, BackendCommand, MediaProbe, PlayerId, POSITION_SCALE};
use athenacl::worker;

const PRESENT: MediaProbe = MediaProbe { file_exists: true, sink_exhausted: false };

fn post(state: &mut State, text: &str) {
    state.update(Message::Interpreter(worker::Message::Post(text.to_string())));
}

/// Log: 0 welcome, 1 text, 2 MIDI track, 3 and 4 text, 5 audio track.
fn loaded_state() -> State {
    let mut state = State::new("welcome".to_string());
    post(&mut state, "one");
    state.update(Message::Interpreter(worker::Message::LoadMidi("song.mid".to_string())));
    post(&mut state, "three");
    post(&mut state, "four");
    state.update(Message::Interpreter(worker::Message::LoadAudio("take.wav".to_string())));
    state
}

fn track(state: &State, i: usize) -> &player::Track {
    match &state.output()[i] {
        Output::Player(t) => t,
        other => panic!("entry {} is not a track: {:?}", i, other),
    }
}

fn commands(effect: Effect) -> Vec<BackendCommand> {
    match effect {
        Effect::Playback(cmds) => cmds,
        other => panic!("expected playback steps, got {:?}", other),
    }
}

fn play(state: &mut State, id: PlayerId, probe: MediaProbe) -> Vec<BackendCommand> {
    commands(state.update(Message::Player(player::Message::Play(id, probe))))
}

fn playing_count(state: &State) -> usize {
    state
        .output()
        .iter()
        .filter(|e| matches!(e, Output::Player(t) if t.is_playing))
        .count()
}

#[test]
fn loading_media_creates_tracks_at_their_index() {
    let state = loaded_state();
    assert_eq!(state.output().len(), 6);
    assert_eq!(track(&state, 2).id, PlayerId::Midi(2));
    assert_eq!(track(&state, 5).id, PlayerId::Audio(5));
    assert!(!track(&state, 5).is_playing);
    assert_eq!(track(&state, 5).position, 0);
    assert_eq!(track(&state, 5).path, "take.wav");
}

#[test]
fn playing_another_track_stops_the_first() {
    let mut state = loaded_state();
    let cmds = play(&mut state, PlayerId::Midi(2), PRESENT);
    assert_eq!(
        cmds,
        vec![
            BackendCommand::LoadMidi(PlayerId::Midi(2)),
            BackendCommand::SeekMidi(0),
            BackendCommand::SetMidiTempo(120),
            BackendCommand::PlayMidi,
        ]
    );
    assert!(track(&state, 2).is_playing);
    assert_eq!(state.player_state().playing_track(), Some(PlayerId::Midi(2)));

    let cmds = play(&mut state, PlayerId::Audio(5), PRESENT);
    assert_eq!(
        cmds,
        vec![
            BackendCommand::StopMidi,
            BackendCommand::OpenAudio(PlayerId::Audio(5)),
            BackendCommand::SeekAudio(PlayerId::Audio(5), 0),
            BackendCommand::PlayAudio(PlayerId::Audio(5)),
        ]
    );
    assert!(!track(&state, 2).is_playing);
    assert!(track(&state, 5).is_playing);
    assert_eq!(state.player_state().playing_track(), Some(PlayerId::Audio(5)));
    assert_eq!(playing_count(&state), 1);
}

#[test]
fn playing_a_deleted_file_appends_an_error() {
    let mut state = loaded_state();
    let gone = MediaProbe { file_exists: false, sink_exhausted: false };
    let cmds = play(&mut state, PlayerId::Audio(5), gone);
    assert!(cmds.is_empty());
    assert!(!track(&state, 5).is_playing);
    assert_eq!(state.player_state().playing_track(), None);
    assert_eq!(state.output().len(), 7);
    match &state.output()[6] {
        Output::Error(text) => assert_eq!(text, "File take.wav does not exist."),
        other => panic!("expected an error entry, got {:?}", other),
    }
}

#[test]
fn deleted_file_leaves_the_active_track_playing() {
    let mut state = loaded_state();
    play(&mut state, PlayerId::Midi(2), PRESENT);
    let gone = MediaProbe { file_exists: false, sink_exhausted: false };
    let cmds = play(&mut state, PlayerId::Audio(5), gone);
    assert!(cmds.is_empty());
    assert!(track(&state, 2).is_playing);
    assert!(!track(&state, 5).is_playing);
    assert_eq!(playing_count(&state), 1);
    assert_eq!(state.player_state().playing_track(), Some(PlayerId::Midi(2)));
    assert!(matches!(state.output().last(), Some(Output::Error(t)) if t == "File take.wav does not exist."));
}

#[test]
fn deleted_file_of_the_active_track_stops_it() {
    let mut state = loaded_state();
    play(&mut state, PlayerId::Audio(5), PRESENT);
    let gone = MediaProbe { file_exists: false, sink_exhausted: false };
    let cmds = play(&mut state, PlayerId::Audio(5), gone);
    assert_eq!(cmds, vec![BackendCommand::PauseAudio(PlayerId::Audio(5))]);
    assert!(!track(&state, 5).is_playing);
    assert_eq!(state.player_state().playing_track(), None);
    assert_eq!(state.output().len(), 7);
}

#[test]
fn tick_at_the_end_rewinds_and_stops() {
    let mut state = loaded_state();
    play(&mut state, PlayerId::Audio(5), PRESENT);
    state.update(Message::Player(player::Message::Tick(400_000)));
    assert_eq!(track(&state, 5).position, 400_000);
    assert!(track(&state, 5).is_playing);
    state.update(Message::Player(player::Message::Tick(POSITION_SCALE)));
    assert!(!track(&state, 5).is_playing);
    assert_eq!(track(&state, 5).position, 0);
    assert_eq!(state.player_state().playing_track(), None);
    assert!(!state.player_state().playing());
}

#[test]
fn tick_past_the_end_also_stops() {
    let mut state = loaded_state();
    play(&mut state, PlayerId::Midi(2), PRESENT);
    state.update(Message::Player(player::Message::Tick(POSITION_SCALE + 17)));
    assert_eq!(track(&state, 2).position, 0);
    assert!(!track(&state, 2).is_playing);
}

#[test]
fn tempo_is_clamped() {
    let mut state = loaded_state();
    state.update(Message::Player(player::Message::SetTempo(5)));
    assert_eq!(state.player_state().tempo(), 20);
    state.update(Message::Player(player::Message::SetTempo(700)));
    assert_eq!(state.player_state().tempo(), 600);
    state.update(Message::Player(player::Message::SetTempo(20)));
    assert_eq!(state.player_state().tempo(), 20);
    state.update(Message::Player(player::Message::SetTempo(600)));
    assert_eq!(state.player_state().tempo(), 600);
    state.update(Message::Player(player::Message::SetTempo(90)));
    assert_eq!(state.player_state().tempo(), 90);
}

#[test]
fn tempo_reaches_only_an_active_midi_track() {
    let mut state = loaded_state();
    let cmds = commands(state.update(Message::Player(player::Message::SetTempo(90))));
    assert!(cmds.is_empty());
    play(&mut state, PlayerId::Midi(2), PRESENT);
    let cmds = commands(state.update(Message::Player(player::Message::SetTempo(1000))));
    assert_eq!(cmds, vec![BackendCommand::SetMidiTempo(600)]);
    play(&mut state, PlayerId::Audio(5), PRESENT);
    let cmds = commands(state.update(Message::Player(player::Message::SetTempo(100))));
    assert!(cmds.is_empty());
}

#[test]
fn seek_is_clamped_and_follows_the_live_backend() {
    let mut state = loaded_state();
    let cmds = commands(state.update(Message::Player(player::Message::ChangePosition(
        PlayerId::Midi(2),
        POSITION_SCALE * 3,
    ))));
    assert!(cmds.is_empty());
    assert_eq!(track(&state, 2).position, POSITION_SCALE);

    let cmds = play(&mut state, PlayerId::Midi(2), PRESENT);
    assert_eq!(cmds[1], BackendCommand::SeekMidi(POSITION_SCALE));
    let cmds = commands(state.update(Message::Player(player::Message::ChangePosition(
        PlayerId::Midi(2),
        250_000,
    ))));
    assert_eq!(cmds, vec![BackendCommand::SeekMidi(250_000)]);
    assert_eq!(track(&state, 2).position, 250_000);
}

#[test]
fn pause_keeps_the_audio_position() {
    let mut state = loaded_state();
    play(&mut state, PlayerId::Audio(5), PRESENT);
    state.update(Message::Player(player::Message::Tick(300_000)));
    let cmds = commands(state.update(Message::Player(player::Message::Pause(PlayerId::Audio(5)))));
    assert_eq!(cmds, vec![BackendCommand::PauseAudio(PlayerId::Audio(5))]);
    assert!(!track(&state, 5).is_playing);
    assert_eq!(track(&state, 5).position, 300_000);
    assert_eq!(state.player_state().playing_track(), None);

    // the sink stays open, so resuming seeks it without reopening
    let cmds = play(&mut state, PlayerId::Audio(5), PRESENT);
    assert_eq!(
        cmds,
        vec![
            BackendCommand::SeekAudio(PlayerId::Audio(5), 300_000),
            BackendCommand::PlayAudio(PlayerId::Audio(5)),
        ]
    );
}

#[test]
fn exhausted_sink_is_reopened() {
    let mut state = loaded_state();
    play(&mut state, PlayerId::Audio(5), PRESENT);
    state.update(Message::Player(player::Message::Tick(POSITION_SCALE)));
    let spent = MediaProbe { file_exists: true, sink_exhausted: true };
    let cmds = play(&mut state, PlayerId::Audio(5), spent);
    assert_eq!(cmds[0], BackendCommand::OpenAudio(PlayerId::Audio(5)));
    assert!(track(&state, 5).is_playing);
}

#[test]
fn failed_backend_step_reports_and_stops() {
    let mut state = loaded_state();
    play(&mut state, PlayerId::Audio(5), PRESENT);
    state.update(Message::Player(player::Message::Failed(
        PlayerId::Audio(5),
        "cannot decode".to_string(),
    )));
    assert!(!track(&state, 5).is_playing);
    assert_eq!(state.player_state().playing_track(), None);
    assert!(matches!(state.output().last(), Some(Output::Error(t)) if t == "cannot decode"));
    // the sink was dropped, so the next play opens it again
    let cmds = play(&mut state, PlayerId::Audio(5), PRESENT);
    assert_eq!(cmds[0], BackendCommand::OpenAudio(PlayerId::Audio(5)));
}

#[test]
fn intents_for_missing_tracks_change_nothing() {
    let mut state = loaded_state();
    let cmds = play(&mut state, PlayerId::Audio(2), PRESENT);
    assert!(cmds.is_empty());
    let cmds = play(&mut state, PlayerId::Midi(40), PRESENT);
    assert!(cmds.is_empty());
    assert_eq!(playing_count(&state), 0);
    assert_eq!(state.output().len(), 6);
}

#[test]
fn at_most_one_track_plays_after_many_intents() {
    let mut state = loaded_state();
    state.update(Message::Interpreter(worker::Message::LoadMidi("other.mid".to_string())));
    let ids = [PlayerId::Midi(2), PlayerId::Audio(5), PlayerId::Midi(6), PlayerId::Audio(5)];
    for id in ids {
        play(&mut state, id, PRESENT);
        assert_eq!(playing_count(&state), 1);
        assert_eq!(state.player_state().playing_track(), Some(id));
    }
    state.update(Message::Player(player::Message::Pause(PlayerId::Audio(5))));
    assert_eq!(playing_count(&state), 0);
}

#[test]
fn player_id_gives_its_index() {
    assert_eq!(PlayerId::Midi(3).inner(), 3);
    assert_eq!(PlayerId::Audio(9).inner(), 9);
    assert_eq!(usize::from(PlayerId::Audio(4)), 4);
    assert_eq!(usize::from(PlayerId::Midi(0)), 0);
}

#[test]
fn missing_file_message_names_the_path() {
    assert_eq!(
        player::missing_file_message(&"a/b.mid".to_string()),
        "File a/b.mid does not exist."
    );
}
