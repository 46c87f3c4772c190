//! The debug stub's session, and starting the waveform viewer.
use jpdb::session::local_address;
use jpdb::session::on_interrupt;
use jpdb::session::poll_incoming_data;
use jpdb::session::start_with_args;
use jpdb::session::start_with_args_and_listener;
use jpdb::session::start_with_args_and_listener_silent;
use jpdb::session::start_with_args_and_port;
use jpdb::session::wait_for_stop_reason;
use jpdb::session::AfterRun;
use jpdb::session::Endpoint;
use jpdb::session::Event;
use jpdb::session::Progress;
use jpdb::session::RunEvent;
use jpdb::session::Session;
use jpdb::session::Stage;
use jpdb::session::StopReason;
use jpdb::session::StopSignal;
use jpdb::surfer::surfer_address;
use jpdb::surfer::surfer_arguments;
use jpdb::surfer::surfer_files;

/// The stages that a session goes through where all but `failing` succeed, and its end.
fn stages(session: &Session<&str>, failing: Option<Stage>) -> (Vec<Stage>, Progress) {
    let mut taken = vec![Stage::InitLogger];
    loop {
        let stage = taken[taken.len() - 1];
        match session.advance(stage, failing != Some(stage)) {
            Progress::Continue(next) => taken.push(next),
            end => return (taken, end),
        }
    }
}

#[test]
fn sessions_differ_in_endpoint_and_logging() {
    let by_default = start_with_args("w", "m", "e");
    assert_eq!(by_default.endpoint, Endpoint::Port(9001));
    assert_eq!(by_default.bind_address(), Some("127.0.0.1:9001".to_string()));
    assert_eq!(by_default.default_filter(), "info");
    assert_eq!((by_default.wave_path, by_default.mapping_path, by_default.elf), ("w", "m", "e"));
    let on_port = start_with_args_and_port("w", "m", "e", 0);
    assert_eq!(on_port.bind_address(), Some("127.0.0.1:0".to_string()));
    assert!(!on_port.silent);
    let on_listener = start_with_args_and_listener("w", "m", "e");
    assert_eq!(on_listener.bind_address(), None);
    assert_eq!(on_listener.default_filter(), "debug");
    let silent = start_with_args_and_listener_silent("w", "m", "e");
    assert_eq!(silent.bind_address(), None);
    assert_eq!(silent.default_filter(), "error");
    assert!(silent.silent);
}

#[test]
fn stages_come_in_order() {
    let loud = start_with_args("w", "m", "e");
    assert_eq!(
        stages(&loud, None),
        (
            vec![Stage::InitLogger, Stage::LoadRuntime, Stage::Accept, Stage::RunStub],
            Progress::Done,
        )
    );
    let silent = start_with_args_and_listener_silent("w", "m", "e");
    assert_eq!(
        stages(&silent, None),
        (
            vec![
                Stage::InitLogger,
                Stage::LoadRuntime,
                Stage::SignalReady,
                Stage::Accept,
                Stage::RunStub,
            ],
            Progress::Done,
        )
    );
}

#[test]
fn failed_stages_end_a_session_or_not() {
    let silent = start_with_args_and_listener_silent("w", "m", "e");
    assert_eq!(stages(&silent, Some(Stage::InitLogger)).1, Progress::Done);
    assert_eq!(
        stages(&silent, Some(Stage::LoadRuntime)),
        (vec![Stage::InitLogger, Stage::LoadRuntime], Progress::Abort)
    );
    assert_eq!(stages(&silent, Some(Stage::SignalReady)).1, Progress::Done);
    assert_eq!(stages(&silent, Some(Stage::Accept)).1, Progress::Refuse);
    assert_eq!(stages(&silent, Some(Stage::RunStub)).1, Progress::Done);
}

#[test]
fn stops_are_reported() {
    assert_eq!(wait_for_stop_reason(RunEvent::IncomingData), AfterRun::ReadByte);
    assert_eq!(
        wait_for_stop_reason(RunEvent::Event(Event::DoneStep)),
        AfterRun::Report(StopReason::DoneStep)
    );
    assert_eq!(
        wait_for_stop_reason(RunEvent::Event(Event::Halted)),
        AfterRun::Report(StopReason::Terminated(StopSignal::Sigstop))
    );
    assert_eq!(
        wait_for_stop_reason(RunEvent::Event(Event::Break)),
        AfterRun::Report(StopReason::SwBreak)
    );
    assert_eq!(on_interrupt(), Some(StopReason::Signal(StopSignal::Sigint)));
}

#[test]
fn connection_error_counts_as_data() {
    assert!(poll_incoming_data::<()>(Ok(Some(0))));
    assert!(!poll_incoming_data::<()>(Ok(None)));
    assert!(poll_incoming_data(Err("gone")));
}

#[test]
fn addresses_are_local() {
    assert_eq!(local_address(0), "127.0.0.1:0");
    assert_eq!(local_address(80), "127.0.0.1:80");
    assert_eq!(local_address(65535), "127.0.0.1:65535");
    assert_eq!(surfer_address(), "127.0.0.1:54321");
}

#[test]
fn viewer_is_started_with_a_script() {
    assert_eq!(surfer_files(), ("surfer", "surfer_commands.sucl", "wcp_server_start"));
    assert_eq!(
        surfer_arguments(Some("a.fst".to_string()), Some("/tmp/s".to_string())),
        Ok(vec!["a.fst".to_string(), "--script".to_string(), "/tmp/s".to_string()])
    );
    assert_eq!(surfer_arguments(None, Some("/tmp/s".to_string())), Err("Invalid wave path"));
    assert_eq!(surfer_arguments(None, None), Err("Invalid wave path"));
    assert_eq!(surfer_arguments(Some("a".to_string()), None), Err("Invalid script path"));
}
