use ice_output::supervise::{
    run_log_command, start_log_command, LogAction, LogEvent, LogRun, LogRunError, LogStream,
};

fn exited(success: bool) -> LogEvent<u8> {
    LogEvent::Exited {
        success,
        status: "exit status: 7".to_owned(),
    }
}

fn started() -> Vec<LogEvent<u8>> {
    vec![
        LogEvent::Installed,
        LogEvent::Spawned {
            stdout: true,
            stderr: true,
        },
    ]
}

fn line(text: &str) -> LogEvent<u8> {
    LogEvent::Text {
        stream: LogStream::Stderr,
        text: text.to_owned(),
    }
}

fn short(action: &LogAction<u8>) -> String {
    match action {
        LogAction::Install => "install".to_owned(),
        LogAction::Spawn => "spawn".to_owned(),
        LogAction::CheckCancellation => "check".to_owned(),
        LogAction::Receive => "receive".to_owned(),
        LogAction::Write { stream, text } => format!("{}:{}", stream.name(), text),
        LogAction::Kill => "kill".to_owned(),
        LogAction::Wait => "wait".to_owned(),
        LogAction::Return(Ok(())) => "ok".to_owned(),
        LogAction::Return(Err(error)) => match error.message("read logs") {
            Some(message) => message,
            None => match error {
                LogRunError::Stream(cause) => format!("stream {cause}"),
                _ => panic!("only a stream error has no words of its own"),
            },
        },
    }
}

fn actions(events: Vec<LogEvent<u8>>) -> String {
    let (mut run, action): (LogRun<u8>, LogAction<u8>) = start_log_command();
    let mut all = vec![short(&action)];
    for event in events {
        match run_log_command(run, event) {
            Some((next, action)) => {
                run = next;
                all.push(short(&action));
            }
            None => {
                all.push("unexpected".to_owned());
                break;
            }
        }
    }
    all.join(" ")
}

fn streamed(events: Vec<LogEvent<u8>>) -> String {
    let mut all = started();
    all.extend(events);
    actions(all)
        .strip_prefix("install spawn check ")
        .unwrap()
        .to_owned()
}

#[test]
fn a_log_is_streamed_to_its_end() {
    assert_eq!(
        streamed(vec![
            LogEvent::NotCancelled,
            line("a"),
            LogEvent::Written,
            LogEvent::NotCancelled,
            LogEvent::TimedOut,
            LogEvent::NotCancelled,
            LogEvent::Disconnected,
            exited(true),
        ]),
        "receive stderr:a check receive check receive wait ok"
    );
}

#[test]
fn a_broken_output_kills_and_reaps_the_command() {
    assert_eq!(
        streamed(vec![
            LogEvent::NotCancelled,
            line("a"),
            LogEvent::WriteFailed(3),
            LogEvent::Killed,
            exited(false),
        ]),
        "receive stderr:a kill wait stream 3"
    );
}

#[test]
fn the_first_error_is_returned_whatever_the_wait_says() {
    assert_eq!(
        streamed(vec![
            LogEvent::NotCancelled,
            LogEvent::ReaderFailed(4),
            LogEvent::Killed,
            LogEvent::WaitFailed(5),
        ]),
        "receive kill wait stream 4"
    );
    assert_eq!(
        streamed(vec![LogEvent::Cancelled(6), LogEvent::Killed, exited(true)]),
        "kill wait stream 6"
    );
}

#[test]
fn a_bad_status_is_an_error() {
    assert_eq!(
        streamed(vec![
            LogEvent::NotCancelled,
            LogEvent::Disconnected,
            exited(false),
        ]),
        "receive wait Failed to read logs: command exited with status exit status: 7"
    );
    assert_eq!(
        streamed(vec![
            LogEvent::NotCancelled,
            LogEvent::Disconnected,
            LogEvent::WaitFailed(1),
        ]),
        "receive wait Failed to wait for read logs"
    );
}

#[test]
fn a_run_that_does_not_start_is_an_error() {
    assert_eq!(
        actions(vec![LogEvent::InstallFailed(1)]),
        "install Failed to install log cancellation handler"
    );
    assert_eq!(
        actions(vec![LogEvent::Installed, LogEvent::SpawnFailed(1)]),
        "install spawn Failed to read logs"
    );
    let missing = |stdout: bool, stderr: bool| {
        actions(vec![
            LogEvent::Installed,
            LogEvent::Spawned { stdout, stderr },
        ])
    };
    assert_eq!(missing(false, false), "install spawn Missing log stdout");
    assert_eq!(missing(true, false), "install spawn Missing log stderr");
    assert_eq!(LogStream::Stdout.name(), "stdout");
}

#[test]
fn events_out_of_place_are_refused() {
    assert_eq!(actions(vec![LogEvent::Killed]), "install unexpected");
    assert_eq!(
        streamed(vec![LogEvent::Written]),
        "unexpected"
    );
}
