use ffmpeg_session::{Direction, FfmpegBuilder, Input, Output, Session, WaitAction, WaitError, WaitEvent};

#[test]
fn clean_run_succeeds_once() {
    let mut s = Session::new();
    assert_eq!(s.step(WaitEvent::Begin), WaitAction::Race);
    assert_eq!(s.step(WaitEvent::CopiesFinished { drain_ok: true, fill_ok: true }), WaitAction::Reap);
    assert_eq!(s.step(WaitEvent::Reaped { code: Some(0) }), WaitAction::Succeed);
    assert!(s.is_completed());
    assert_eq!(s.step(WaitEvent::Begin), WaitAction::Ignore);
    assert_eq!(s.step(WaitEvent::Reaped { code: Some(0) }), WaitAction::Ignore);
}

#[test]
fn exit_wins_race() {
    let mut s = Session::new();
    assert_eq!(s.step(WaitEvent::Begin), WaitAction::Race);
    assert_eq!(s.step(WaitEvent::ChildExited), WaitAction::Reap);
    assert_eq!(s.step(WaitEvent::Reaped { code: Some(0) }), WaitAction::Succeed);
}

#[test]
fn nonzero_exit_fails() {
    let mut s = Session::new();
    s.step(WaitEvent::Begin);
    s.step(WaitEvent::ChildExited);
    assert_eq!(
        s.step(WaitEvent::Reaped { code: Some(1) }),
        WaitAction::Fail(WaitError::NonZeroExit(Some(1)))
    );
    assert!(s.is_completed());
}

#[test]
fn signal_exit_fails() {
    let mut s = Session::new();
    s.step(WaitEvent::Begin);
    s.step(WaitEvent::ChildExited);
    assert_eq!(s.step(WaitEvent::Reaped { code: None }), WaitAction::Fail(WaitError::NonZeroExit(None)));
}

#[test]
fn copy_errors_fail() {
    let mut s = Session::new();
    s.step(WaitEvent::Begin);
    assert_eq!(
        s.step(WaitEvent::CopiesFinished { drain_ok: false, fill_ok: false }),
        WaitAction::Reap
    );
    assert!(!s.is_completed());
    assert_eq!(
        s.step(WaitEvent::Reaped { code: Some(0) }),
        WaitAction::Fail(WaitError::StreamCopy(Direction::Drain))
    );
    assert!(s.is_completed());
    let mut t = Session::new();
    t.step(WaitEvent::Begin);
    assert_eq!(
        t.step(WaitEvent::CopiesFinished { drain_ok: true, fill_ok: false }),
        WaitAction::Reap
    );
    assert_eq!(
        t.step(WaitEvent::Reaped { code: Some(1) }),
        WaitAction::Fail(WaitError::StreamCopy(Direction::Fill))
    );
    assert!(t.is_completed());
}

#[test]
fn copy_error_outranks_reap_failure() {
    let mut s = Session::new();
    s.step(WaitEvent::Begin);
    assert_eq!(
        s.step(WaitEvent::CopiesFinished { drain_ok: true, fill_ok: false }),
        WaitAction::Reap
    );
    assert_eq!(s.step(WaitEvent::ReapFailed), WaitAction::Fail(WaitError::StreamCopy(Direction::Fill)));
    assert_eq!(s.step(WaitEvent::Reaped { code: Some(0) }), WaitAction::Ignore);
}

#[test]
fn reap_failure_fails() {
    let mut s = Session::new();
    s.step(WaitEvent::Begin);
    s.step(WaitEvent::ChildExited);
    assert_eq!(s.step(WaitEvent::ReapFailed), WaitAction::Fail(WaitError::WaitFailed));
}

#[test]
fn out_of_order_events_are_ignored() {
    let mut s = Session::new();
    assert_eq!(s.step(WaitEvent::ChildExited), WaitAction::Ignore);
    assert_eq!(s.step(WaitEvent::Reaped { code: Some(0) }), WaitAction::Ignore);
    assert!(!s.is_completed());
    assert_eq!(s.step(WaitEvent::Begin), WaitAction::Race);
    assert_eq!(s.step(WaitEvent::Begin), WaitAction::Ignore);
    assert_eq!(s.step(WaitEvent::Reaped { code: Some(0) }), WaitAction::Ignore);
}

#[test]
fn file_in_stream_out_run() {
    let sink: Vec<u8> = Vec::new();
    let b: FfmpegBuilder<(), Vec<u8>> = FfmpegBuilder {
        global_options: vec![],
        input_options: vec![],
        input: Input::File("in.raw".to_string()),
        output_options: vec![],
        output: Output::Stream(sink),
    };
    let c = b.to_command("unix:///run/p/sock");
    assert!(!c.stdin_piped);
    assert!(c.stdout_piped);
    assert_eq!(c.args.last().map(|s| s.as_str()), Some("pipe:1"));

    let mut s = Session::new();
    assert_eq!(s.step(WaitEvent::Begin), WaitAction::Race);
    assert_eq!(s.step(WaitEvent::CopiesFinished { drain_ok: true, fill_ok: true }), WaitAction::Reap);
    assert_eq!(s.step(WaitEvent::Reaped { code: Some(0) }), WaitAction::Succeed);
    assert_eq!(s.step(WaitEvent::ChildExited), WaitAction::Ignore);
}
