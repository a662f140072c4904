//! How a command whose output is a log is run: when to read, to write, to kill and to wait.
//!
//! The run is a state machine. It is told what the last action came to and says what to do
//! next. Errors of the actions are handed through as they are.
use vstd::prelude::*;

verus! {

/// The two streams of a command.
#[derive(Clone, Copy, Debug, PartialEq, Eq, Structural)]
pub enum LogStream {
    Stdout,
    Stderr,
}

impl LogStream {
    /// The name of a stream.
    pub open spec fn identifier(self) -> Seq<char> {
        match self {
            LogStream::Stdout => "stdout"@,
            LogStream::Stderr => "stderr"@,
        }
    }

    /// The name of a stream.
    pub fn name(self) -> (r: &'static str)
        ensures
            r@ == self.identifier(),
    {
        match self {
            LogStream::Stdout => "stdout",
            LogStream::Stderr => "stderr",
        }
    }
}

/// Where a run stands.
pub enum LogRun<E> {
    /// The cancellation handler is being installed.
    Installing,
    /// The command is being started.
    Spawning,
    /// It is being asked whether the run was cancelled.
    Checking,
    /// A text is being waited for.
    Receiving,
    /// A text is being written.
    Writing,
    /// The command is being killed, because of an error.
    Killing(E),
    /// The end of the command is being waited for; an error may have been met before.
    Waiting(Option<E>),
    /// The run is over.
    Finished,
}

/// What an action came to.
pub enum LogEvent<E> {
    Installed,
    InstallFailed(E),
    /// The command runs; each of its streams may be missing.
    Spawned { stdout: bool, stderr: bool },
    SpawnFailed(E),
    NotCancelled,
    Cancelled(E),
    /// A reader handed on a text.
    Text { stream: LogStream, text: String },
    /// A reader failed.
    ReaderFailed(E),
    /// No text came in time.
    TimedOut,
    /// Both readers are at their end.
    Disconnected,
    Written,
    WriteFailed(E),
    Killed,
    /// The command has ended, with this status.
    Exited { success: bool, status: String },
    WaitFailed(E),
}

/// What to do next.
pub enum LogAction<E> {
    /// Install the cancellation handler.
    Install,
    /// Start the command in a process group of its own.
    Spawn,
    /// Ask whether the run was cancelled.
    CheckCancellation,
    /// Wait a short time for a text.
    Receive,
    /// Write a text to the output.
    Write { stream: LogStream, text: String },
    /// Stop receiving, and kill the process group.
    Kill,
    /// Stop receiving, and wait for the end of the command.
    Wait,
    /// Return.
    Return(Result<(), LogRunError<E>>),
}

/// Why a run failed.
pub enum LogRunError<E> {
    Install(E),
    Spawn(E),
    MissingStdout,
    MissingStderr,
    /// It was cancelled, or a text could not be read or written.
    Stream(E),
    Wait(E),
    /// The command ended with a status that is no success.
    Exit(String),
}

/// The next state and action of a run; none where the event is not one that the state
/// waits for.
pub open spec fn transition<E>(run: LogRun<E>, event: LogEvent<E>) -> Option<
    (LogRun<E>, LogAction<E>),
> {
    match (run, event) {
        (LogRun::Installing, LogEvent::Installed) => Some((LogRun::Spawning, LogAction::Spawn)),
        (LogRun::Installing, LogEvent::InstallFailed(error)) => returned(
            Err(LogRunError::Install(error)),
        ),
        (LogRun::Spawning, LogEvent::Spawned { stdout, stderr }) => if !stdout {
            returned(Err(LogRunError::MissingStdout))
        } else if !stderr {
            returned(Err(LogRunError::MissingStderr))
        } else {
            Some((LogRun::Checking, LogAction::CheckCancellation))
        },
        (LogRun::Spawning, LogEvent::SpawnFailed(error)) => returned(
            Err(LogRunError::Spawn(error)),
        ),
        (LogRun::Checking, LogEvent::NotCancelled) => Some((LogRun::Receiving, LogAction::Receive)),
        (LogRun::Checking, LogEvent::Cancelled(error)) => killed_for(error),
        (LogRun::Receiving, LogEvent::Text { stream, text }) => Some(
            (LogRun::Writing, LogAction::Write { stream, text }),
        ),
        (LogRun::Receiving, LogEvent::ReaderFailed(error)) => killed_for(error),
        (LogRun::Receiving, LogEvent::TimedOut) => Some(
            (LogRun::Checking, LogAction::CheckCancellation),
        ),
        (LogRun::Receiving, LogEvent::Disconnected) => Some(
            (LogRun::Waiting(None), LogAction::Wait),
        ),
        (LogRun::Writing, LogEvent::Written) => Some(
            (LogRun::Checking, LogAction::CheckCancellation),
        ),
        (LogRun::Writing, LogEvent::WriteFailed(error)) => killed_for(error),
        (LogRun::Killing(error), LogEvent::Killed) => Some(
            (LogRun::Waiting(Some(error)), LogAction::Wait),
        ),
        (LogRun::Waiting(Some(error)), LogEvent::Exited { .. }) => returned(
            Err(LogRunError::Stream(error)),
        ),
        (LogRun::Waiting(Some(error)), LogEvent::WaitFailed(_)) => returned(
            Err(LogRunError::Stream(error)),
        ),
        (LogRun::Waiting(None), LogEvent::Exited { success, status }) => if success {
            returned(Ok(()))
        } else {
            returned(Err(LogRunError::Exit(status)))
        },
        (LogRun::Waiting(None), LogEvent::WaitFailed(error)) => returned(
            Err(LogRunError::Wait(error)),
        ),
        _ => None,
    }
}

/// The run is over.
pub open spec fn returned<E>(result: Result<(), LogRunError<E>>) -> Option<
    (LogRun<E>, LogAction<E>),
> {
    Some((LogRun::Finished, LogAction::Return(result)))
}

/// The command is to be killed.
pub open spec fn killed_for<E>(error: E) -> Option<(LogRun<E>, LogAction<E>)> {
    Some((LogRun::Killing(error), LogAction::Kill))
}

/// How a run starts.
pub fn start_log_command<E>() -> (r: (LogRun<E>, LogAction<E>))
    ensures
        r == (LogRun::<E>::Installing, LogAction::<E>::Install),
{
    (LogRun::Installing, LogAction::Install)
}

/// One step of a run: the next state and action, after what the last action came to. None
/// where the event is not one that the state waits for.
pub fn run_log_command<E>(run: LogRun<E>, event: LogEvent<E>) -> (r: Option<
    (LogRun<E>, LogAction<E>),
>)
    ensures
        r == transition(run, event),
{
    match (run, event) {
        (LogRun::Installing, LogEvent::Installed) => Some((LogRun::Spawning, LogAction::Spawn)),
        (LogRun::Installing, LogEvent::InstallFailed(error)) => finish(
            Err(LogRunError::Install(error)),
        ),
        (LogRun::Spawning, LogEvent::Spawned { stdout, stderr }) => if !stdout {
            finish(Err(LogRunError::MissingStdout))
        } else if !stderr {
            finish(Err(LogRunError::MissingStderr))
        } else {
            Some((LogRun::Checking, LogAction::CheckCancellation))
        },
        (LogRun::Spawning, LogEvent::SpawnFailed(error)) => finish(Err(LogRunError::Spawn(error))),
        (LogRun::Checking, LogEvent::NotCancelled) => Some((LogRun::Receiving, LogAction::Receive)),
        (LogRun::Receiving, LogEvent::Text { stream, text }) => Some(
            (LogRun::Writing, LogAction::Write { stream, text }),
        ),
        (LogRun::Receiving, LogEvent::TimedOut) => Some(
            (LogRun::Checking, LogAction::CheckCancellation),
        ),
        (LogRun::Receiving, LogEvent::Disconnected) => Some(
            (LogRun::Waiting(None), LogAction::Wait),
        ),
        (LogRun::Writing, LogEvent::Written) => Some(
            (LogRun::Checking, LogAction::CheckCancellation),
        ),
        (LogRun::Checking, LogEvent::Cancelled(error)) => kill(error),
        (LogRun::Receiving, LogEvent::ReaderFailed(error)) => kill(error),
        (LogRun::Writing, LogEvent::WriteFailed(error)) => kill(error),
        (LogRun::Killing(error), LogEvent::Killed) => Some(
            (LogRun::Waiting(Some(error)), LogAction::Wait),
        ),
        (LogRun::Waiting(Some(error)), LogEvent::Exited { .. }) => finish(
            Err(LogRunError::Stream(error)),
        ),
        (LogRun::Waiting(Some(error)), LogEvent::WaitFailed(_)) => finish(
            Err(LogRunError::Stream(error)),
        ),
        (LogRun::Waiting(None), LogEvent::Exited { success, status }) => if success {
            finish(Ok(()))
        } else {
            finish(Err(LogRunError::Exit(status)))
        },
        (LogRun::Waiting(None), LogEvent::WaitFailed(error)) => finish(
            Err(LogRunError::Wait(error)),
        ),
        _ => None,
    }
}

fn finish<E>(result: Result<(), LogRunError<E>>) -> (r: Option<(LogRun<E>, LogAction<E>)>)
    ensures
        r == returned(result),
{
    Some((LogRun::Finished, LogAction::Return(result)))
}

fn kill<E>(error: E) -> (r: Option<(LogRun<E>, LogAction<E>)>)
    ensures
        r == killed_for(error),
{
    Some((LogRun::Killing(error), LogAction::Kill))
}

impl<E> LogRunError<E> {
    /// What an error says of a run whose aim is `context`. An error in the stream speaks
    /// for itself; the others that have a cause stand in front of it.
    pub open spec fn words(self, context: Seq<char>) -> Option<Seq<char>> {
        match self {
            LogRunError::Install(_) => Some("Failed to install log cancellation handler"@),
            LogRunError::Spawn(_) => Some("Failed to "@ + context),
            LogRunError::MissingStdout => Some("Missing log stdout"@),
            LogRunError::MissingStderr => Some("Missing log stderr"@),
            LogRunError::Stream(_) => None,
            LogRunError::Wait(_) => Some("Failed to wait for "@ + context),
            LogRunError::Exit(status) => Some(
                "Failed to "@ + context + ": command exited with status "@ + status@,
            ),
        }
    }

    /// What an error says of a run whose aim is `context`.
    pub fn message(&self, context: &str) -> (r: Option<String>)
        ensures
            match r {
                Some(message) => self.words(context@) == Some(message@),
                None => self.words(context@) is None,
            },
    {
        match self {
            LogRunError::Install(_) => Some(
                "Failed to install log cancellation handler".to_owned(),
            ),
            LogRunError::Spawn(_) => Some("Failed to ".to_owned().concat(context)),
            LogRunError::MissingStdout => Some("Missing log stdout".to_owned()),
            LogRunError::MissingStderr => Some("Missing log stderr".to_owned()),
            LogRunError::Stream(_) => None,
            LogRunError::Wait(_) => Some("Failed to wait for ".to_owned().concat(context)),
            LogRunError::Exit(status) => {
                let mut message = "Failed to ".to_owned().concat(context);
                message.append(": command exited with status ");
                message.append(status.as_str());
                Some(message)
            },
        }
    }
}

/// The actions of a run from a state on, as long as the events are ones that it waits for.
pub open spec fn trace<E>(run: LogRun<E>, events: Seq<LogEvent<E>>) -> Seq<LogAction<E>>
    decreases events.len(),
{
    if events.len() == 0 {
        seq![]
    } else {
        match transition(run, events[0]) {
            Some((next, action)) => seq![action] + trace(next, events.drop_first()),
            None => seq![],
        }
    }
}

/// How often the command is killed.
pub open spec fn kills<E>(actions: Seq<LogAction<E>>) -> int
    decreases actions.len(),
{
    if actions.len() == 0 {
        0
    } else {
        (if actions[0] is Kill {
            1int
        } else {
            0
        }) + kills(actions.drop_first())
    }
}

/// How often the end of the command is waited for.
pub open spec fn waits<E>(actions: Seq<LogAction<E>>) -> int
    decreases actions.len(),
{
    if actions.len() == 0 {
        0
    } else {
        (if actions[0] is Wait {
            1int
        } else {
            0
        }) + waits(actions.drop_first())
    }
}

/// Whether the actions end with a return.
pub open spec fn ends<E>(actions: Seq<LogAction<E>>) -> bool {
    actions.len() > 0 && actions.last() is Return
}

/// What the actions return.
pub open spec fn outcome<E>(actions: Seq<LogAction<E>>) -> Result<(), LogRunError<E>>
    recommends
        ends(actions),
{
    actions.last()->Return_0
}

/// Whether a run failed on its stream.
pub open spec fn is_stream_error<E>(result: Result<(), LogRunError<E>>) -> bool {
    result is Err && result->Err_0 is Stream
}

/// The texts that readers handed on, with the streams that they come from.
pub open spec fn received<E>(events: Seq<LogEvent<E>>) -> Seq<(LogStream, String)>
    decreases events.len(),
{
    if events.len() == 0 {
        seq![]
    } else {
        (match events[0] {
            LogEvent::Text { stream, text } => seq![(stream, text)],
            _ => seq![],
        }) + received(events.drop_first())
    }
}

/// The texts that are written, with the streams that they come from.
pub open spec fn written<E>(actions: Seq<LogAction<E>>) -> Seq<(LogStream, String)>
    decreases actions.len(),
{
    if actions.len() == 0 {
        seq![]
    } else {
        (match actions[0] {
            LogAction::Write { stream, text } => seq![(stream, text)],
            _ => seq![],
        }) + written(actions.drop_first())
    }
}

/// Whether an action failed, or the command did.
pub open spec fn is_failure<E>(event: LogEvent<E>) -> bool {
    match event {
        LogEvent::InstallFailed(_) => true,
        LogEvent::Spawned { stdout, stderr } => !stdout || !stderr,
        LogEvent::SpawnFailed(_) => true,
        LogEvent::Cancelled(_) => true,
        LogEvent::ReaderFailed(_) => true,
        LogEvent::WriteFailed(_) => true,
        LogEvent::Exited { success, .. } => !success,
        LogEvent::WaitFailed(_) => true,
        _ => false,
    }
}

/// Nothing is done once a run is over.
proof fn lemma_finished<E>(events: Seq<LogEvent<E>>)
    ensures
        trace(LogRun::<E>::Finished, events).len() == 0,
{
}

/// A wait ends the run: with the error that was met before, or with what the wait says.
/// Nothing more is written.
pub proof fn lemma_waiting<E>(met: Option<E>, events: Seq<LogEvent<E>>)
    ensures
        ({
            let actions = trace(LogRun::Waiting(met), events);
            &&& kills(actions) == 0
            &&& waits(actions) == 0
            &&& written(actions).len() == 0
            &&& ends(actions) ==> match met {
                Some(error) => outcome(actions) == Err::<(), _>(LogRunError::Stream(error)),
                None => !is_stream_error(outcome(actions)),
            }
        }),
{
    let actions = trace(LogRun::Waiting(met), events);
    if events.len() > 0 {
        lemma_finished(events.drop_first());
        if let Some((next, action)) = transition(LogRun::Waiting(met), events[0]) {
            assert(actions =~= seq![action]);
            assert(actions.drop_first().len() == 0);
            assert(kills(actions.drop_first()) == 0 && waits(actions.drop_first()) == 0);
            assert(written(actions.drop_first()).len() == 0);
        }
    }
}

/// After an error nothing more is written, the command is waited for once, whatever the wait
/// says, and that error is returned.
pub proof fn lemma_killing<E>(error: E, events: Seq<LogEvent<E>>)
    ensures
        ({
            let actions = trace(LogRun::Killing(error), events);
            &&& kills(actions) == 0
            &&& written(actions).len() == 0
            &&& ends(actions) ==> {
                &&& waits(actions) == 1
                &&& outcome(actions) == Err::<(), _>(LogRunError::Stream(error))
            }
        }),
{
    let actions = trace(LogRun::Killing(error), events);
    if events.len() > 0 {
        let rest = events.drop_first();
        if let Some((next, action)) = transition(LogRun::Killing(error), events[0]) {
            lemma_waiting(Some(error), rest);
            assert(actions.drop_first() =~= trace(next, rest));
            if trace(next, rest).len() > 0 {
                assert(actions.last() == trace(next, rest).last());
            }
        }
    }
}

/// A command whose log is being read is never left behind, and only killed for an error:
/// when the run returns, the end of the command was waited for once, and the command was
/// killed, once, exactly if the run was cancelled or a text could not be read or written.
pub proof fn lemma_command_is_reaped<E>(run: LogRun<E>, events: Seq<LogEvent<E>>)
    requires
        run is Checking || run is Receiving || run is Writing,
    ensures
        ({
            let actions = trace(run, events);
            ends(actions) ==> {
                &&& waits(actions) == 1
                &&& kills(actions) == (if is_stream_error(outcome(actions)) {
                    1int
                } else {
                    0
                })
            }
        }),
    decreases events.len(),
{
    let actions = trace(run, events);
    if events.len() > 0 {
        let rest = events.drop_first();
        if let Some((next, action)) = transition(run, events[0]) {
            assert(actions.drop_first() =~= trace(next, rest));
            if trace(next, rest).len() > 0 {
                assert(actions.last() == trace(next, rest).last());
            }
            match next {
                LogRun::Killing(error) => lemma_killing(error, rest),
                LogRun::Waiting(met) => lemma_waiting(met, rest),
                _ => lemma_command_is_reaped(next, rest),
            }
        }
    }
}

/// The first error is the one that counts: a text that cannot be written, a reader that
/// fails or a cancellation kills the command, and is returned whatever the wait says.
/// Nothing is written after it.
pub proof fn lemma_first_error_is_returned<E>(
    run: LogRun<E>,
    event: LogEvent<E>,
    error: E,
    events: Seq<LogEvent<E>>,
)
    requires
        transition(run, event) == killed_for(error),
    ensures
        ({
            let actions = trace(run, seq![event] + events);
            &&& actions.len() > 0 && actions[0] is Kill
            &&& written(actions).len() == 0
            &&& ends(actions) ==> outcome(actions) == Err::<(), _>(LogRunError::Stream(error))
        }),
{
    let all = seq![event] + events;
    let actions = trace(run, all);
    assert(all.drop_first() =~= events);
    lemma_killing(error, events);
    let rest = trace(LogRun::Killing(error), events);
    assert(actions.drop_first() =~= rest);
    if rest.len() > 0 {
        assert(actions.last() == rest.last());
    }
}

/// Every text that a reader hands on is written, once, in the order in which they come.
pub proof fn lemma_texts_are_written<E>(run: LogRun<E>, events: Seq<LogEvent<E>>)
    requires
        trace(run, events).len() == events.len(),
    ensures
        written(trace(run, events)) == received(events),
    decreases events.len(),
{
    if events.len() > 0 {
        let actions = trace(run, events);
        if let Some((next, action)) = transition(run, events[0]) {
            assert(actions.drop_first() =~= trace(next, events.drop_first()));
            lemma_texts_are_written(next, events.drop_first());
        }
    }
}

/// A text is only waited for when the run was just found not to be cancelled.
pub proof fn lemma_cancellation_is_checked<E>(run: LogRun<E>, event: LogEvent<E>)
    ensures
        (transition(run, event) matches Some((_, action)) && action is Receive) ==> run is Checking
            && event is NotCancelled,
{
}

/// A step returns success only where both streams came to their end and the command ended
/// with success.
pub proof fn lemma_success<E>(run: LogRun<E>, event: LogEvent<E>)
    ensures
        transition(run, event) == returned::<E>(Ok(())) <==> run == LogRun::<E>::Waiting(None)
            && (event matches LogEvent::Exited { success, .. } && success),
{
}

/// A run that has met no error so far returns success exactly if nothing fails from then on.
proof fn lemma_success_from<E>(run: LogRun<E>, events: Seq<LogEvent<E>>)
    requires
        run !is Killing,
        run matches LogRun::Waiting(met) ==> met is None,
    ensures
        ({
            let actions = trace(run, events);
            &&& actions.len() <= events.len()
            &&& ends(actions) ==> (outcome(actions) is Ok <==> forall|i: int|
                0 <= i < actions.len() ==> !is_failure(#[trigger] events[i]))
        }),
    decreases events.len(),
{
    let actions = trace(run, events);
    if events.len() > 0 {
        let rest = events.drop_first();
        if let Some((next, action)) = transition(run, events[0]) {
            let later = trace(next, rest);
            assert(actions.drop_first() =~= later);
            if later.len() > 0 {
                assert(actions.last() == later.last());
            }
            assert(forall|i: int| 0 <= i < rest.len() ==> #[trigger] rest[i] == events[i + 1]);
            assert(forall|i: int| 1 <= i < events.len() ==> #[trigger] events[i] == rest[i - 1]);
            if let LogRun::Killing(error) = next {
                lemma_killing(error, rest);
                lemma_trace_len(next, rest);
                assert(is_failure(events[0]));
            } else {
                lemma_success_from(next, rest);
                if next is Finished {
                    lemma_finished(rest);
                    assert(actions =~= seq![action]);
                }
            }
        }
    }
}

proof fn lemma_trace_len<E>(run: LogRun<E>, events: Seq<LogEvent<E>>)
    ensures
        trace(run, events).len() <= events.len(),
    decreases events.len(),
{
    if events.len() > 0 {
        if let Some((next, action)) = transition(run, events[0]) {
            lemma_trace_len(next, events.drop_first());
        }
    }
}

/// A run that returns does so with success exactly if nothing failed: the handler was
/// installed, the command was started with both its streams, no cancellation came, every
/// text was read and written, and the command ended with success.
pub proof fn lemma_run_succeeds_without_failure<E>(events: Seq<LogEvent<E>>)
    ensures
        ({
            let actions = trace(LogRun::<E>::Installing, events);
            &&& actions.len() <= events.len()
            &&& ends(actions) ==> (outcome(actions) is Ok <==> forall|i: int|
                0 <= i < actions.len() ==> !is_failure(#[trigger] events[i]))
        }),
{
    lemma_success_from(LogRun::<E>::Installing, events);
}

} // verus!
