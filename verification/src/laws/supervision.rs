//! Runs of a command whose output is a log, told by what the actions come to and what is
//! done next.
use vstd::prelude::*;

use crate::supervise::{
    run_log_command, start_log_command, LogAction, LogEvent, LogRun, LogRunError, LogStream,
};

verus! {

/// Whether an action can come to an event.
pub open spec fn comes_to<E>(action: LogAction<E>, event: LogEvent<E>) -> bool {
    match action {
        LogAction::Install => event is Installed || event is InstallFailed,
        LogAction::Spawn => event is Spawned || event is SpawnFailed,
        LogAction::CheckCancellation => event is NotCancelled || event is Cancelled,
        LogAction::Receive => event is Text || event is ReaderFailed || event is TimedOut
            || event is Disconnected,
        LogAction::Write { .. } => event is Written || event is WriteFailed,
        LogAction::Kill => event is Killed,
        LogAction::Wait => event is Exited || event is WaitFailed,
        LogAction::Return(_) => false,
    }
}

/// A run: it starts as runs start, each action comes to the event at its position, and the
/// event leads to the next state and the next action.
pub open spec fn goes<E>(
    runs: Seq<LogRun<E>>,
    actions: Seq<LogAction<E>>,
    events: Seq<LogEvent<E>>,
) -> bool {
    &&& runs.len() == events.len() + 1
    &&& actions.len() == events.len() + 1
    &&& call_ensures(start_log_command::<E>, (), (runs[0], actions[0]))
    &&& forall|i: int|
        #![trigger events[i]]
        0 <= i < events.len() ==> {
            &&& comes_to(actions[i], events[i])
            &&& call_ensures(
                run_log_command::<E>,
                (runs[i], events[i]),
                Some((runs[i + 1], actions[i + 1])),
            )
        }
}

/// The error of a cancellation, of a reader or of a write.
pub open spec fn stream_failure<E>(event: LogEvent<E>) -> Option<E> {
    match event {
        LogEvent::Cancelled(error) => Some(error),
        LogEvent::ReaderFailed(error) => Some(error),
        LogEvent::WriteFailed(error) => Some(error),
        _ => None,
    }
}

/// Whether a state waits for an action.
spec fn waits_for<E>(run: LogRun<E>, action: LogAction<E>) -> bool {
    match run {
        LogRun::Installing => action is Install,
        LogRun::Spawning => action is Spawn,
        LogRun::Checking => action is CheckCancellation,
        LogRun::Receiving => action is Receive,
        LogRun::Writing => action is Write,
        LogRun::Killing(_) => action is Kill,
        LogRun::Waiting(_) => action is Wait,
        LogRun::Finished => action is Return,
    }
}

/// Whether that error, and no other, was met in the first `n` events.
spec fn met<E>(events: Seq<LogEvent<E>>, n: int, error: E) -> bool {
    &&& exists|k: int| 0 <= k < n && stream_failure(#[trigger] events[k]) == Some(error)
    &&& forall|k: int|
        0 <= k < n ==> (stream_failure(#[trigger] events[k]) matches Some(other) ==> other
            == error)
}

/// Whether no error was met in the first `n` events.
spec fn met_none<E>(events: Seq<LogEvent<E>>, n: int) -> bool {
    forall|k: int| 0 <= k < n ==> stream_failure(#[trigger] events[k]) is None
}

/// Whether a state knows the error that was met in the first `n` events.
spec fn knows<E>(run: LogRun<E>, events: Seq<LogEvent<E>>, n: int) -> bool {
    match run {
        LogRun::Killing(error) => met(events, n, error),
        LogRun::Waiting(Some(error)) => met(events, n, error),
        LogRun::Finished => true,
        _ => met_none(events, n),
    }
}

proof fn lemma_standing<E>(
    runs: Seq<LogRun<E>>,
    actions: Seq<LogAction<E>>,
    events: Seq<LogEvent<E>>,
    n: int,
)
    requires
        goes(runs, actions, events),
        0 <= n <= events.len(),
    ensures
        waits_for(runs[n], actions[n]),
        knows(runs[n], events, n),
    decreases n,
{
    if n > 0 {
        lemma_standing(runs, actions, events, n - 1);
        let event = events[n - 1];
        assert(comes_to(actions[n - 1], event));
        if let LogRun::Killing(error) = runs[n] {
            assert(stream_failure(event) == Some(error));
            assert(met(events, n, error));
        }
    }
}

/// A run starts by installing the cancellation handler.
pub proof fn law_run_starts<E>(r: (LogRun<E>, LogAction<E>))
    requires
        call_ensures(start_log_command::<E>, (), r),
    ensures
        r.1 is Install,
{
}

/// A run never breaks off: whatever an action comes to, there is a next step.
pub proof fn law_run_is_never_stuck<E>(
    runs: Seq<LogRun<E>>,
    actions: Seq<LogAction<E>>,
    events: Seq<LogEvent<E>>,
    event: LogEvent<E>,
    r: Option<(LogRun<E>, LogAction<E>)>,
)
    requires
        goes(runs, actions, events),
        comes_to(actions.last(), event),
        call_ensures(run_log_command::<E>, (runs.last(), event), r),
    ensures
        r is Some,
{
    lemma_standing(runs, actions, events, events.len() as int);
}

/// Every text that is read, from either stream, is written next, with its stream; nothing
/// else is ever written.
pub proof fn law_texts_are_written<E>(
    runs: Seq<LogRun<E>>,
    actions: Seq<LogAction<E>>,
    events: Seq<LogEvent<E>>,
    i: int,
)
    requires
        goes(runs, actions, events),
        0 <= i < events.len(),
    ensures
        events[i] matches LogEvent::Text { stream, text } ==> actions[i + 1] == (
        LogAction::<E>::Write { stream, text }),
        events[i] is Text <==> actions[i + 1] is Write,
{
    lemma_standing(runs, actions, events, i);
    assert(comes_to(actions[i], events[i]));
}

/// What is done next follows from what the last action came to: the command is started once
/// the handler is installed; whether the run was cancelled is asked once the command runs
/// with both its streams, and again after each text and each wait for one; a text is waited
/// for where it was not cancelled; the command is killed on a cancellation, or when a text
/// cannot be read or written; its end is waited for once it was killed, or once both streams
/// came to their end; and the run is over when that wait is, or when it could not be started
/// in full.
pub proof fn law_next_action<E>(
    runs: Seq<LogRun<E>>,
    actions: Seq<LogAction<E>>,
    events: Seq<LogEvent<E>>,
    i: int,
)
    requires
        goes(runs, actions, events),
        0 <= i < events.len(),
    ensures
        actions[i + 1] !is Install,
        actions[i + 1] is Spawn <==> events[i] is Installed,
        actions[i + 1] is CheckCancellation <==> {
            ||| events[i] == (LogEvent::<E>::Spawned { stdout: true, stderr: true })
            ||| events[i] is TimedOut
            ||| events[i] is Written
        },
        actions[i + 1] is Receive <==> events[i] is NotCancelled,
        actions[i + 1] is Kill <==> events[i] is Cancelled || events[i] is ReaderFailed
            || events[i] is WriteFailed,
        actions[i + 1] is Wait <==> events[i] is Killed || events[i] is Disconnected,
        actions[i + 1] is Return <==> {
            ||| events[i] is InstallFailed
            ||| events[i] is SpawnFailed
            ||| events[i] is Spawned && events[i] != (LogEvent::<E>::Spawned {
                stdout: true,
                stderr: true,
            })
            ||| events[i] is Exited
            ||| events[i] is WaitFailed
        },
{
    lemma_standing(runs, actions, events, i);
    assert(comes_to(actions[i], events[i]));
}

/// What a run returns where it could not be started in full.
pub proof fn law_failed_start<E>(
    runs: Seq<LogRun<E>>,
    actions: Seq<LogAction<E>>,
    events: Seq<LogEvent<E>>,
    i: int,
)
    requires
        goes(runs, actions, events),
        0 <= i < events.len(),
    ensures
        events[i] matches LogEvent::InstallFailed(error) ==> actions[i + 1]
            == LogAction::<E>::Return(Err(LogRunError::Install(error))),
        events[i] matches LogEvent::SpawnFailed(error) ==> actions[i + 1]
            == LogAction::<E>::Return(Err(LogRunError::Spawn(error))),
        events[i] matches LogEvent::Spawned { stdout, .. } && !stdout ==> actions[i + 1]
            == LogAction::<E>::Return(Err(LogRunError::MissingStdout)),
        events[i] matches LogEvent::Spawned { stdout, stderr } && stdout && !stderr ==> actions[i
            + 1] == LogAction::<E>::Return(Err(LogRunError::MissingStderr)),
{
    lemma_standing(runs, actions, events, i);
    assert(comes_to(actions[i], events[i]));
}

/// What a run returns once the command has ended: the error that was met on its stream,
/// whatever the wait says; otherwise what the wait says, which is success exactly where the
/// command ended with success.
pub proof fn law_outcome<E>(
    runs: Seq<LogRun<E>>,
    actions: Seq<LogAction<E>>,
    events: Seq<LogEvent<E>>,
    i: int,
)
    requires
        goes(runs, actions, events),
        0 <= i < events.len(),
        events[i] is Exited || events[i] is WaitFailed,
    ensures
        forall|k: int|
            0 <= k < i ==> (stream_failure(#[trigger] events[k]) matches Some(error) ==> actions[i
                + 1] == LogAction::<E>::Return(Err(LogRunError::Stream(error)))),
        (forall|k: int| 0 <= k < i ==> stream_failure(#[trigger] events[k]) is None) ==> {
            &&& events[i] matches LogEvent::Exited { success, status } ==> {
                &&& success ==> actions[i + 1] is Return && actions[i + 1]->Return_0 is Ok
                &&& !success ==> actions[i + 1] == LogAction::<E>::Return(
                    Err(LogRunError::Exit(status)),
                )
            }
            &&& events[i] matches LogEvent::WaitFailed(error) ==> actions[i + 1]
                == LogAction::<E>::Return(Err(LogRunError::Wait(error)))
        },
{
    lemma_standing(runs, actions, events, i);
    assert(comes_to(actions[i], events[i]));
}

/// What an error says: what was to be done and did not work. An error of the stream speaks
/// for itself.
pub proof fn law_messages<E>(error: &LogRunError<E>, context: &str, r: Option<String>)
    requires
        call_ensures(LogRunError::<E>::message, (error, context), r),
    ensures
        *error is Stream <==> r is None,
        *error is Install ==> r->0@ == "Failed to install log cancellation handler"@,
        *error is Spawn ==> r->0@ == "Failed to "@ + context@,
        *error is MissingStdout ==> r->0@ == "Missing log stdout"@,
        *error is MissingStderr ==> r->0@ == "Missing log stderr"@,
        *error is Wait ==> r->0@ == "Failed to wait for "@ + context@,
        *error matches LogRunError::Exit(status) ==> r->0@ == "Failed to "@ + context@
            + ": command exited with status "@ + status@,
{
}

/// The names of the streams.
pub proof fn law_stream_names(stream: LogStream, name: &'static str)
    requires
        call_ensures(LogStream::name, (stream,), name),
    ensures
        stream is Stdout ==> name@ == "stdout"@,
        stream is Stderr ==> name@ == "stderr"@,
{
}

} // verus!
