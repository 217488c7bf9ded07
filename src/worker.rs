//! The command worker's protocol.
//!
//! The worker owns the script engine and runs one request at a time. While a command runs, the
//! engine may ask the user a question; the command then waits for the answer, and requests that
//! arrive meanwhile wait in line. This module holds the worker's decisions; the caller runs the
//! engine and moves the messages.

use vstd::prelude::*;

verus! {

/// A message between the user interface and the worker.
#[derive(Debug, Clone)]
pub enum Message {
    /// Output from the interpreter (stdout).
    Post(String),
    /// Request input from the user (stdin).
    Ask(String),
    /// Send command to the interpreter.
    SendCmd(String),
    /// The command reported a failure.
    Error(String),
    /// Interpreter-level errors.
    PythonError(String),
    /// A MIDI file to play; the value is its path.
    LoadMidi(String),
    /// An audio file to play; the value is its path.
    LoadAudio(String),
    /// Ask for the scratch directory.
    GetScratchDir,
    /// The answer to `GetScratchDir`.
    ScratchDir(String),
    /// The names in the path library.
    PathLibUpdated(Vec<String>),
    /// The names in the texture library.
    TextureLibUpdated(Vec<String>),
    /// The active path instance.
    ActivePathSet(String),
    /// The active texture instance.
    ActiveTextureSet(String),
}

/// A failure of a request.
#[derive(Debug, Clone)]
pub enum Error {
    /// The interpreter failed; the text says how.
    PythonError(String),
    /// The command (first) reported a failure (second).
    Command(String, String),
}

/// The message that reports an error to the user interface.
pub open spec fn error_message(e: Error) -> Message {
    match e {
        Error::Command(_, text) => Message::Error(text),
        Error::PythonError(text) => Message::PythonError(text),
    }
}

/// The message that a result stands for.
pub open spec fn result_message(r: Result<Message, Error>) -> Message {
    match r {
        Ok(m) => m,
        Err(e) => error_message(e),
    }
}

impl From<Error> for Message {
    fn from(value: Error) -> (r: Message)
        ensures
            r == error_message(value),
    {
        match value {
            Error::Command(_, text) => Message::Error(text),
            Error::PythonError(text) => Message::PythonError(text),
        }
    }
}

impl vstd::std_specs::convert::FromSpecImpl<Error> for Message {
    open spec fn obeys_from_spec() -> bool {
        true
    }

    open spec fn from_spec(v: Error) -> Message {
        error_message(v)
    }
}

impl From<Result<Message, Error>> for Message {
    fn from(value: Result<Message, Error>) -> (r: Message)
        ensures
            r == result_message(value),
    {
        match value {
            Ok(msg) => msg,
            Err(e) => Self::from(e),
        }
    }
}

impl vstd::std_specs::convert::FromSpecImpl<Result<Message, Error>> for Message {
    open spec fn obeys_from_spec() -> bool {
        true
    }

    open spec fn from_spec(v: Result<Message, Error>) -> Message {
        result_message(v)
    }
}

/// The text of an engine fault whose exception carried no message.
pub open spec fn unknown_error_text() -> Seq<char> {
    "Unknown error"@
}

/// The text shown for an error.
pub open spec fn error_text(e: Error) -> Seq<char> {
    match e {
        Error::PythonError(text) => text@,
        Error::Command(cmd, text) => "Error running command `"@ + cmd@ + "`: "@ + text@,
    }
}

impl Error {
    /// The fault for an exception whose first argument, as a string, is `message`.
    pub fn from_exception(message: Option<String>) -> (r: Error)
        ensures
            r is PythonError,
            message matches Some(m) ==> r->PythonError_0 == m,
            message is None ==> r->PythonError_0@ == unknown_error_text(),
    {
        match message {
            Some(m) => Error::PythonError(m),
            None => Error::PythonError(String::from_str("Unknown error")),
        }
    }

    /// The text shown for the error.
    pub fn text(&self) -> (r: String)
        ensures
            r@ == error_text(*self),
    {
        match self {
            Error::PythonError(text) => text.clone(),
            Error::Command(cmd, text) => {
                let mut r = String::from_str("Error running command `");
                r.append(cmd.as_str());
                r.append("`: ");
                r.append(text.as_str());
                r
            },
        }
    }
}

/// The result of a command from the engine's reply: on success the payload, else the payload as
/// the command's failure.
pub fn command_result(cmd: &str, is_ok: bool, payload: String) -> (r: Result<String, Error>)
    ensures
        is_ok ==> r == Ok::<String, Error>(payload),
        !is_ok ==> (r matches Err(Error::Command(c, p)) && c@ == cmd@ && p == payload),
{
    if is_ok {
        Ok(payload)
    } else {
        Err(Error::Command(cmd.to_owned(), payload))
    }
}

/// Only commands and scratch-directory queries are requests for the worker.
pub open spec fn is_request(m: Message) -> bool {
    m is SendCmd || m is GetScratchDir
}

/// A message that ends a request.
pub open spec fn is_terminal(m: Message) -> bool {
    m is Post || m is Error || m is PythonError || m is ScratchDir
}

/// The message that ends request `job` once the engine has returned `result`.
pub open spec fn finish_message(job: Message, result: Result<String, Error>) -> Message {
    match result {
        Ok(payload) => match job {
            Message::GetScratchDir => Message::ScratchDir(payload),
            _ => Message::Post(payload),
        },
        Err(e) => error_message(e),
    }
}

/// The worker as the protocol sees it: the request that runs, the question it waits on, and the
/// requests in line.
pub struct WorkerModel {
    pub job: Option<Message>,
    pub prompt: Option<String>,
    pub queue: Seq<Message>,
}

/// A request arrives; anything else is ignored.
pub open spec fn spec_submit(m: WorkerModel, msg: Message) -> WorkerModel {
    if is_request(msg) {
        WorkerModel { queue: m.queue.push(msg), ..m }
    } else {
        m
    }
}

/// An idle worker takes the oldest request in line.
pub open spec fn spec_next(m: WorkerModel) -> (WorkerModel, Option<Message>) {
    if m.job is None && m.queue.len() > 0 {
        (
            WorkerModel { job: Some(m.queue[0]), prompt: None, queue: m.queue.drop_first() },
            Some(m.queue[0]),
        )
    } else {
        (m, None)
    }
}

/// A running command may ask one question at a time.
pub open spec fn can_ask(m: WorkerModel) -> bool {
    m.job matches Some(Message::SendCmd(_)) && m.prompt is None
}

/// The engine asks `question`: the worker waits for the answer and the user sees the question.
pub open spec fn spec_ask(m: WorkerModel, question: String) -> (WorkerModel, Option<Message>) {
    if can_ask(m) {
        (WorkerModel { prompt: Some(question), ..m }, Some(Message::Ask(question)))
    } else {
        (m, None)
    }
}

/// The user answers: a waiting command gets the text and runs on.
pub open spec fn spec_answer(m: WorkerModel, text: String) -> (WorkerModel, Option<String>) {
    if m.prompt is Some {
        (WorkerModel { prompt: None, ..m }, Some(text))
    } else {
        (m, None)
    }
}

/// The engine returns `result` for the running request, which ends it.
pub open spec fn spec_finish(m: WorkerModel, result: Result<String, Error>) -> (
    WorkerModel,
    Message,
) {
    (WorkerModel { job: None, prompt: None, ..m }, finish_message(m.job->0, result))
}

/// Messages arriving one after another.
pub open spec fn submit_all(m: WorkerModel, arrivals: Seq<Message>) -> WorkerModel
    decreases arrivals.len(),
{
    if arrivals.len() == 0 {
        m
    } else {
        submit_all(spec_submit(m, arrivals[0]), arrivals.drop_first())
    }
}

/// A running command asks the questions `exchanges[k].0` and gets the answers
/// `exchanges[k].1`. Returns the state afterwards and the events shown to the user.
pub open spec fn run_exchanges(m: WorkerModel, exchanges: Seq<(String, String)>) -> (
    WorkerModel,
    Seq<Message>,
)
    decreases exchanges.len(),
{
    if exchanges.len() == 0 {
        (m, seq![])
    } else {
        let asked = spec_ask(m, exchanges[0].0);
        let answered = spec_answer(asked.0, exchanges[0].1);
        let rest = run_exchanges(answered.0, exchanges.drop_first());
        let shown = match asked.1 {
            Some(e) => seq![e],
            None => seq![],
        };
        (rest.0, shown + rest.1)
    }
}

proof fn lemma_submit_all_keeps_job(m: WorkerModel, arrivals: Seq<Message>)
    ensures
        submit_all(m, arrivals).job == m.job,
        submit_all(m, arrivals).prompt == m.prompt,
    decreases arrivals.len(),
{
    if arrivals.len() > 0 {
        lemma_submit_all_keeps_job(spec_submit(m, arrivals[0]), arrivals.drop_first());
    }
}

proof fn lemma_exchanges_keep_job(m: WorkerModel, exchanges: Seq<(String, String)>)
    requires
        can_ask(m),
    ensures
        run_exchanges(m, exchanges).0 == m,
        forall|k: int|
            0 <= k < run_exchanges(m, exchanges).1.len() ==> (#[trigger] run_exchanges(
                m,
                exchanges,
            ).1[k]) is Ask,
    decreases exchanges.len(),
{
    if exchanges.len() > 0 {
        let asked = spec_ask(m, exchanges[0].0);
        let answered = spec_answer(asked.0, exchanges[0].1);
        assert(answered.0 == m);
        lemma_exchanges_keep_job(m, exchanges.drop_first());
        let rest = run_exchanges(m, exchanges.drop_first());
        let all = run_exchanges(m, exchanges).1;
        assert(all == seq![Message::Ask(exchanges[0].0)] + rest.1);
        assert forall|k: int| 0 <= k < all.len() implies (#[trigger] all[k]) is Ask by {
            if k > 0 {
                assert(all[k] == rest.1[k - 1]);
            }
        }
    }
}

/// A running command, whatever else waits in line, ends with exactly one terminal event: every
/// question it asks on the way is shown as a non-terminal `Ask`, and the engine's return gives
/// one terminal message for that command (its output, its failure or an interpreter fault).
/// The requests in line are untouched, and the worker is idle again.
pub proof fn lemma_running_command_ends_once(
    m: WorkerModel,
    exchanges: Seq<(String, String)>,
    result: Result<String, Error>,
)
    requires
        can_ask(m),
    ensures
        ({
            let asked = run_exchanges(m, exchanges);
            let done = spec_finish(asked.0, result);
            &&& forall|k: int| 0 <= k < asked.1.len() ==> !is_terminal(#[trigger] asked.1[k])
            &&& is_terminal(done.1)
            &&& done.1 == finish_message(m.job->0, result)
            &&& done.0.job is None
            &&& done.0.prompt is None
            &&& done.0.queue == m.queue
        }),
{
    lemma_exchanges_keep_job(m, exchanges);
    let asked = run_exchanges(m, exchanges);
    assert forall|k: int| 0 <= k < asked.1.len() implies !is_terminal(#[trigger] asked.1[k]) by {
        assert(asked.1[k] is Ask);
    }
}

/// A command yields exactly one terminal event: once submitted to an idle worker it starts,
/// every question it asks on the way is shown as a non-terminal `Ask`, and the engine's return
/// gives one terminal message (its output, its failure or an interpreter fault), after which the
/// worker is idle again.
pub proof fn lemma_one_terminal_event(
    m: WorkerModel,
    cmd: String,
    exchanges: Seq<(String, String)>,
    result: Result<String, Error>,
)
    requires
        m.job is None,
        m.prompt is None,
        m.queue.len() == 0,
    ensures
        ({
            let submitted = spec_submit(m, Message::SendCmd(cmd));
            let started = spec_next(submitted);
            let asked = run_exchanges(started.0, exchanges);
            let done = spec_finish(asked.0, result);
            &&& started.1 == Some(Message::SendCmd(cmd))
            &&& forall|k: int| 0 <= k < asked.1.len() ==> !is_terminal(#[trigger] asked.1[k])
            &&& is_terminal(done.1)
            &&& done.1 == finish_message(Message::SendCmd(cmd), result)
            &&& done.0.job is None
            &&& done.0.queue.len() == 0
        }),
{
    let submitted = spec_submit(m, Message::SendCmd(cmd));
    let started = spec_next(submitted);
    lemma_exchanges_keep_job(started.0, exchanges);
    let asked = run_exchanges(started.0, exchanges);
    assert forall|k: int| 0 <= k < asked.1.len() implies !is_terminal(#[trigger] asked.1[k]) by {
        assert(asked.1[k] is Ask);
    }
}

/// A question pairs with the next answer: while the command waits, messages that arrive are
/// put in line and none of them starts; the answer goes to the same waiting command, which runs
/// on, and still nothing else starts until it returns.
pub proof fn lemma_prompt_pairing(
    m: WorkerModel,
    question: String,
    arrivals: Seq<Message>,
    text: String,
)
    requires
        can_ask(m),
    ensures
        ({
            let asked = spec_ask(m, question);
            let waiting = submit_all(asked.0, arrivals);
            let answered = spec_answer(waiting, text);
            &&& asked.1 == Some(Message::Ask(question))
            &&& spec_next(waiting).1 is None
            &&& answered.1 == Some(text)
            &&& answered.0.job == m.job
            &&& answered.0.prompt is None
            &&& spec_next(answered.0).1 is None
        }),
{
    let asked = spec_ask(m, question);
    lemma_submit_all_keeps_job(asked.0, arrivals);
}

/// Requests are served in the order they arrive: an idle worker starts the oldest one.
pub proof fn lemma_requests_in_order(m: WorkerModel, msg: Message)
    requires
        is_request(msg),
        m.job is None,
    ensures
        spec_submit(m, msg).queue == m.queue.push(msg),
        spec_next(spec_submit(m, msg)).1 == Some(m.queue.push(msg)[0]),
        spec_next(spec_submit(m, msg)).0.queue == m.queue.push(msg).drop_first(),
{
}

/// A request as the worker keeps it.
enum Request {
    Command(String),
    ScratchDir,
}

spec fn request_message(r: Request) -> Message {
    match r {
        Request::Command(c) => Message::SendCmd(c),
        Request::ScratchDir => Message::GetScratchDir,
    }
}

impl Request {
    fn to_message(&self) -> (r: Message)
        ensures
            r == request_message(*self),
    {
        match self {
            Request::Command(c) => Message::SendCmd(c.clone()),
            Request::ScratchDir => Message::GetScratchDir,
        }
    }
}

/// The worker's state.
pub struct Worker {
    job: Option<Request>,
    prompt: Option<String>,
    queue: Vec<Request>,
}

impl View for Worker {
    type V = WorkerModel;

    closed spec fn view(&self) -> WorkerModel {
        WorkerModel {
            job: match self.job {
                Some(r) => Some(request_message(r)),
                None => None,
            },
            prompt: self.prompt,
            queue: self.queue@.map_values(|r: Request| request_message(r)),
        }
    }
}

impl Worker {
    /// An idle worker with nothing in line.
    pub fn new() -> (r: Worker)
        ensures
            r@.job is None,
            r@.prompt is None,
            r@.queue.len() == 0,
    {
        let r = Worker { job: None, prompt: None, queue: Vec::new() };
        assert(r@.queue.len() == 0);
        r
    }

    /// No request runs.
    pub fn is_idle(&self) -> (r: bool)
        ensures
            r == (self@.job is None),
    {
        self.job.is_none()
    }

    /// A request runs and does not wait for an answer.
    pub fn is_running(&self) -> (r: bool)
        ensures
            r == (self@.job is Some && self@.prompt is None),
    {
        self.job.is_some() && self.prompt.is_none()
    }

    /// The question that the running command waits on.
    pub fn pending_prompt(&self) -> (r: Option<String>)
        ensures
            r == self@.prompt,
    {
        self.prompt.clone()
    }

    /// A message arrives from the user interface.
    pub fn submit(&mut self, msg: Message)
        ensures
            final(self)@ == spec_submit(old(self)@, msg),
    {
        match msg {
            Message::SendCmd(c) => self.queue.push(Request::Command(c)),
            Message::GetScratchDir => self.queue.push(Request::ScratchDir),
            _ => {
                return ;
            },
        }
        proof {
            assert(self@.queue =~= old(self)@.queue.push(msg));
        }
    }

    /// Starts the oldest request in line, if no request runs.
    pub fn next_job(&mut self) -> (r: Option<Message>)
        ensures
            (final(self)@, r) == spec_next(old(self)@),
    {
        if self.job.is_some() || self.queue.len() == 0 {
            return None;
        }
        let job = self.queue.remove(0);
        let r = job.to_message();
        self.job = Some(job);
        self.prompt = None;
        proof {
            assert(self@.queue =~= old(self)@.queue.drop_first());
        }
        Some(r)
    }

    /// The engine asks `question` during the running command. Returns the message for the user,
    /// or `None` when no command can ask now.
    pub fn ask(&mut self, question: String) -> (r: Option<Message>)
        ensures
            (final(self)@, r) == spec_ask(old(self)@, question),
    {
        let allowed = match &self.job {
            Some(Request::Command(_)) => self.prompt.is_none(),
            _ => false,
        };
        if !allowed {
            return None;
        }
        self.prompt = Some(question.clone());
        Some(Message::Ask(question))
    }

    /// The user answers. Returns the text to hand to the waiting command, or `None` when no
    /// command waits.
    pub fn answer(&mut self, text: String) -> (r: Option<String>)
        ensures
            (final(self)@, r) == spec_answer(old(self)@, text),
    {
        if self.prompt.is_none() {
            return None;
        }
        self.prompt = None;
        Some(text)
    }

    /// The engine returned `result` for the running request. Returns the one message that ends
    /// it.
    pub fn finish(&mut self, result: Result<String, Error>) -> (r: Message)
        requires
            old(self)@.job is Some,
            old(self)@.prompt is None,
        ensures
            (final(self)@, r) == spec_finish(old(self)@, result),
            is_terminal(r),
    {
        let job = self.job.take();
        self.prompt = None;
        let is_query = match job {
            Some(Request::ScratchDir) => true,
            _ => false,
        };
        match result {
            Ok(payload) => if is_query {
                Message::ScratchDir(payload)
            } else {
                Message::Post(payload)
            },
            Err(e) => Message::from(e),
        }
    }
}

} // verus!
