use athenacl::app::{Effect, Message, State};
use athenacl::output::Output;
use athenacl::worker::{self, command_result, Error, Worker};

fn send(text: &str) -> worker::Message {
    worker::Message::SendCmd(text.to_string())
}

#[test]
fn command_waits_behind_a_pending_prompt() {
    let mut w = Worker::new();
    w.submit(send("pin"));
    assert!(matches!(w.next_job(), Some(worker::Message::SendCmd(c)) if c == "pin"));
    let shown = w.ask("name a path instance: ".to_string());
    assert!(matches!(shown, Some(worker::Message::Ask(q)) if q == "name a path instance: "));
    assert_eq!(w.pending_prompt(), Some("name a path instance: ".to_string()));

    w.submit(send("help"));
    assert!(w.next_job().is_none());
    assert_eq!(w.answer("a".to_string()), Some("a".to_string()));
    assert!(w.pending_prompt().is_none());
    assert!(w.next_job().is_none());

    let done = w.finish(Ok("created".to_string()));
    assert!(matches!(done, worker::Message::Post(t) if t == "created"));
    assert!(matches!(w.next_job(), Some(worker::Message::SendCmd(c)) if c == "help"));
}

#[test]
fn each_request_ends_with_one_terminal_message() {
    let mut w = Worker::new();
    w.submit(send("a"));
    w.submit(send("b"));
    w.submit(worker::Message::GetScratchDir);
    w.submit(worker::Message::Post("ignored".to_string()));

    assert!(matches!(w.next_job(), Some(worker::Message::SendCmd(c)) if c == "a"));
    assert!(w.is_running());
    let m = w.finish(Ok("out".to_string()));
    assert!(matches!(m, worker::Message::Post(t) if t == "out"));
    assert!(w.is_idle());

    assert!(matches!(w.next_job(), Some(worker::Message::SendCmd(c)) if c == "b"));
    let m = w.finish(Err(Error::Command("b".to_string(), "no such command".to_string())));
    assert!(matches!(m, worker::Message::Error(t) if t == "no such command"));

    assert!(matches!(w.next_job(), Some(worker::Message::GetScratchDir)));
    let m = w.finish(Ok("/tmp/scratch".to_string()));
    assert!(matches!(m, worker::Message::ScratchDir(t) if t == "/tmp/scratch"));

    assert!(w.next_job().is_none());
}

#[test]
fn interpreter_fault_is_reported_and_the_worker_goes_on() {
    let mut w = Worker::new();
    w.submit(send("x"));
    w.submit(send("y"));
    w.next_job();
    let m = w.finish(Err(Error::PythonError("bad tuple".to_string())));
    assert!(matches!(m, worker::Message::PythonError(t) if t == "bad tuple"));
    assert!(matches!(w.next_job(), Some(worker::Message::SendCmd(c)) if c == "y"));
}

#[test]
fn scratch_dir_query_never_prompts() {
    let mut w = Worker::new();
    w.submit(worker::Message::GetScratchDir);
    w.next_job();
    assert!(w.ask("?".to_string()).is_none());
    assert!(w.pending_prompt().is_none());
}

#[test]
fn answer_without_question_is_dropped() {
    let mut w = Worker::new();
    assert!(w.answer("stray".to_string()).is_none());
    w.submit(send("x"));
    w.next_job();
    assert!(w.answer("stray".to_string()).is_none());
    assert!(w.is_running());
}

#[test]
fn a_second_question_waits_for_the_first_answer() {
    let mut w = Worker::new();
    w.submit(send("x"));
    w.next_job();
    assert!(w.ask("first".to_string()).is_some());
    assert!(w.ask("second".to_string()).is_none());
    assert_eq!(w.answer("1".to_string()), Some("1".to_string()));
    assert!(w.ask("second".to_string()).is_some());
}

#[test]
fn command_result_follows_the_success_flag() {
    assert!(matches!(command_result("ls", true, "ok".to_string()), Ok(t) if t == "ok"));
    match command_result("ls", false, "nope".to_string()) {
        Err(Error::Command(c, t)) => {
            assert_eq!(c, "ls");
            assert_eq!(t, "nope");
        }
        other => panic!("unexpected {:?}", other),
    }
}

#[test]
fn errors_convert_to_messages() {
    let m = worker::Message::from(Error::Command("c".to_string(), "t".to_string()));
    assert!(matches!(m, worker::Message::Error(t) if t == "t"));
    let m = worker::Message::from(Error::PythonError("p".to_string()));
    assert!(matches!(m, worker::Message::PythonError(t) if t == "p"));
    let ok: Result<worker::Message, Error> = Ok(worker::Message::Post("x".to_string()));
    assert!(matches!(worker::Message::from(ok), worker::Message::Post(t) if t == "x"));
    let err: Result<worker::Message, Error> = Err(Error::PythonError("e".to_string()));
    assert!(matches!(worker::Message::from(err), worker::Message::PythonError(t) if t == "e"));
}

#[test]
fn error_texts() {
    assert_eq!(
        Error::Command("tin a".to_string(), "bad name".to_string()).text(),
        "Error running command `tin a`: bad name"
    );
    assert_eq!(Error::PythonError("boom".to_string()).text(), "boom");
    assert_eq!(Error::from_exception(None).text(), "Unknown error");
    assert_eq!(Error::from_exception(Some("why".to_string())).text(), "why");
}

#[test]
fn submitted_command_is_echoed_before_it_is_sent() {
    let mut state = State::new("hi".to_string());
    state.update(Message::InputChanged("help".to_string()));
    let submitted = state.submit_input();
    let effect = state.update(submitted);
    assert!(matches!(effect, Effect::Send(worker::Message::SendCmd(c)) if c == "help"));
    assert!(matches!(state.output().last(), Some(Output::Command(c)) if c == "help"));
    assert_eq!(state.answer(), "");
}

#[test]
fn input_goes_to_the_pending_question() {
    let mut state = State::new("hi".to_string());
    let effect = state.update(Message::Interpreter(worker::Message::Ask("tempo? ".to_string())));
    assert!(matches!(effect, Effect::FocusInput));
    assert_eq!(state.question().as_deref(), Some("tempo? "));
    state.update(Message::InputChanged("90".to_string()));
    let submitted = state.submit_input();
    assert!(matches!(&submitted, Message::Answer(q, a) if q == "tempo? " && a == "90"));
    let effect = state.update(submitted);
    assert!(matches!(effect, Effect::Respond(a) if a == "90"));
    assert!(state.question().is_none());
    assert!(matches!(state.output().last(), Some(Output::Normal(t)) if t == "tempo? 90"));
}

#[test]
fn engine_output_and_errors_enter_the_log() {
    let mut state = State::new("hi".to_string());
    state.update(Message::Interpreter(worker::Message::Post("text".to_string())));
    state.update(Message::Interpreter(worker::Message::Error("failed".to_string())));
    state.update(Message::Interpreter(worker::Message::PythonError("fault".to_string())));
    let log = state.output();
    assert_eq!(log.len(), 4);
    assert!(matches!(&log[0], Output::Normal(t) if t == "hi"));
    assert!(matches!(&log[1], Output::Normal(t) if t == "text"));
    assert!(matches!(&log[2], Output::Error(t) if t == "failed"));
    assert!(matches!(&log[3], Output::Error(t) if t == "fault"));
}

#[test]
fn selections_become_commands() {
    let mut state = State::new("hi".to_string());
    let e = state.update(Message::PiSelected("p1".to_string()));
    assert!(matches!(e, Effect::Send(worker::Message::SendCmd(c)) if c == "pio p1"));
    let e = state.update(Message::TiSelected("t1".to_string()));
    assert!(matches!(e, Effect::Send(worker::Message::SendCmd(c)) if c == "tio t1"));
    let e = state.update(Message::SetScratchDir(Some("/home/me".to_string())));
    assert!(matches!(e, Effect::Send(worker::Message::SendCmd(c)) if c == "apdir x /home/me"));
    let e = state.update(Message::SetScratchDir(None));
    assert!(matches!(e, Effect::Nothing));
    assert_eq!(state.output().len(), 1);
}

#[test]
fn library_notifications_update_the_settings() {
    let mut state = State::new("hi".to_string());
    state.update(Message::Interpreter(worker::Message::ScratchDir("/s".to_string())));
    state.update(Message::Interpreter(worker::Message::PathLibUpdated(vec!["a".to_string()])));
    state.update(Message::Interpreter(worker::Message::TextureLibUpdated(vec![
        "t".to_string(),
        "u".to_string(),
    ])));
    state.update(Message::Interpreter(worker::Message::ActivePathSet("a".to_string())));
    state.update(Message::Interpreter(worker::Message::ActiveTextureSet("u".to_string())));
    assert_eq!(state.scratch_dir(), "/s");
    assert_eq!(state.path_lib(), &vec!["a".to_string()]);
    assert_eq!(state.texture_lib().len(), 2);
    assert_eq!(state.active_path(), "a");
    assert_eq!(state.active_texture(), "u");
}
