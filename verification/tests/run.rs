use roger::run::{checked_workdir, stderr_excerpt, Run, RunAction, RunError, RunEvent};
use roger::span::Span;
use roger::subprocess::SubprocessKind;

fn span(secs: u64, nanos: u32) -> Span {
    Span::new(secs, nanos)
}

fn run(flavor: SubprocessKind, streaming: bool) -> Run {
    Run::new(flavor, "agent".into(), streaming, span(90, 0), span(120, 0))
}

fn line(line: &str) -> RunEvent {
    RunEvent::Line { line: line.into(), elapsed: span(1, 0) }
}

fn exited(code: Option<i32>) -> RunEvent {
    RunEvent::Exited { code, elapsed: span(2, 0) }
}

fn delta(text: &str) -> RunEvent {
    line(&format!(
        r#"{{"type":"stream_event","event":{{"type":"content_block_delta","delta":{{"type":"text_delta","text":"{}"}}}}}}"#,
        text
    ))
}

fn result(subtype: &str, text: &str) -> RunEvent {
    line(&format!(
        r#"{{"type":"result","subtype":"{}","result":"{}"}}"#,
        subtype, text
    ))
}

fn delivered(action: RunAction) -> String {
    match action {
        RunAction::Deliver { text, .. } => text,
        _ => panic!("expected a delivery"),
    }
}

fn aborted(action: RunAction) -> String {
    match action {
        RunAction::Abort(error) => error.message(),
        _ => panic!("expected an abort"),
    }
}

fn finished(action: RunAction) -> Result<String, String> {
    match action {
        RunAction::Finish(Ok(text)) => Ok(text),
        RunAction::Finish(Err(error)) => Err(error.message()),
        _ => panic!("expected the end"),
    }
}

#[test]
fn deliveries_accumulate() {
    let mut r = run(SubprocessKind::ClaudeCode, true);
    assert_eq!(delivered(r.step(delta("Hel"))), "Hel");
    assert!(matches!(r.step(RunEvent::Delivered), RunAction::Continue));
    assert!(matches!(r.step(line("noise")), RunAction::Continue));
    assert_eq!(delivered(r.step(delta("lo"))), "Hello");
    let closed = RunEvent::EndOfOutput { elapsed: span(20, 0) };
    match r.step(closed) {
        RunAction::Reap { within } => {
            assert_eq!((within.secs(), within.subsec_nanos()), (100, 0));
        }
        _ => panic!("expected to reap"),
    }
    assert_eq!(finished(r.step(exited(Some(0)))), Ok("Hello".into()));
}

#[test]
fn without_streaming_nothing_is_delivered() {
    let mut r = run(SubprocessKind::ClaudeCode, false);
    assert!(matches!(r.step(delta("x")), RunAction::Continue));
    assert_eq!(finished(r.step(exited(None))), Ok("x".into()));
}

#[test]
fn final_text_wins_over_deltas() {
    let mut r = run(SubprocessKind::ClaudeCode, true);
    r.step(delta("draft"));
    r.step(result("success", "final"));
    assert_eq!(finished(r.step(exited(Some(0)))), Ok("final".into()));
}

#[test]
fn reported_error_wins_over_everything() {
    let mut r = run(SubprocessKind::ClaudeCode, true);
    r.step(result("error_max_turns", "hit limit"));
    r.step(delta("draft"));
    r.step(result("success", "final"));
    assert_eq!(
        finished(r.step(exited(Some(0)))),
        Err("agent reported error: hit limit".into())
    );
}

#[test]
fn opencode_reply_is_what_it_said() {
    let mut r = run(SubprocessKind::OpenCode, true);
    let part = |t: &str| line(&format!(r#"{{"type":"text","part":{{"text":"{}"}}}}"#, t));
    assert_eq!(delivered(r.step(part("a"))), "a");
    assert_eq!(delivered(r.step(part("b"))), "ab");
    assert_eq!(finished(r.step(exited(Some(0)))), Ok("ab".into()));
    r.step(line(r#"{"type":"error","error":{"message":"boom"}}"#));
    assert_eq!(
        finished(r.step(exited(Some(1)))),
        Err("opencode reported error: \"boom\"".into())
    );
}

#[test]
fn no_reply_quotes_stderr() {
    let mut r = run(SubprocessKind::OpenCode, true);
    assert!(matches!(r.step(exited(Some(2))), RunAction::ReadStderr { .. }));
    assert_eq!(
        finished(r.step(RunEvent::Stderr(" not logged in\n".into()))),
        Err("opencode produced no result (exit Some(2)): not logged in".into())
    );
    assert!(matches!(r.step(exited(None)), RunAction::ReadStderr { .. }));
    assert_eq!(
        finished(r.step(RunEvent::Stderr("  \n".into()))),
        Err("opencode produced no result (exit None)".into())
    );
}

#[test]
fn waits_end_at_the_idle_window_and_the_ceiling() {
    let mut r = run(SubprocessKind::ClaudeCode, true);
    for (elapsed, expected) in [
        (span(0, 0), (90, 0)),
        (span(30, 0), (90, 0)),
        (span(30, 1), (89, 999_999_999)),
        (span(119, 999_999_999), (0, 1)),
    ] {
        match r.step(RunEvent::Ready { elapsed }) {
            RunAction::ReadLine { within } => {
                assert_eq!((within.secs(), within.subsec_nanos()), expected);
            }
            _ => panic!("expected a wait"),
        }
    }
}

#[test]
fn ceiling_aborts() {
    let mut r = run(SubprocessKind::OpenCode, true);
    assert_eq!(
        aborted(r.step(RunEvent::Ready { elapsed: span(120, 0) })),
        "agent run exceeded absolute ceiling"
    );
    assert_eq!(
        aborted(r.step(RunEvent::TimedOut { elapsed: span(121, 5) })),
        "opencode run exceeded absolute ceiling"
    );
}

#[test]
fn idle_timeout_aborts() {
    let mut r = run(SubprocessKind::OpenCode, true);
    assert_eq!(
        aborted(r.step(RunEvent::TimedOut { elapsed: span(119, 999_999_999) })),
        "opencode produced no output for 90s (idle timeout)"
    );
    let mut r = Run::new(
        SubprocessKind::ClaudeCode,
        "agent".into(),
        true,
        span(1, 500_000_000),
        span(9, 0),
    );
    assert_eq!(
        aborted(r.step(RunEvent::TimedOut { elapsed: span(2, 0) })),
        "agent produced no output for 1.5s (idle timeout)"
    );
}

#[test]
fn other_failures_abort() {
    let mut r = run(SubprocessKind::ClaudeCode, true);
    assert_eq!(
        aborted(r.step(RunEvent::ReadFailed("broken pipe".into()))),
        "error reading agent output: broken pipe"
    );
    assert_eq!(aborted(r.step(RunEvent::ReceiverGone)), "output receiver dropped");
}

#[test]
fn messages_before_a_run() {
    for (error, message) in [
        (
            RunError::NoWorkdir,
            "subprocess backend has no workdir (set comms.default_workdir or use set_workdir)",
        ),
        (RunError::WorkdirMissing { dir: "/x".into() }, "workdir does not exist: /x"),
        (RunError::ChildLimitClosed, "child semaphore closed"),
        (
            RunError::SpawnFailed { program: "opencode".into(), reason: "not found".into() },
            "failed to spawn opencode: not found",
        ),
        (RunError::NoStdout, "no stdout"),
    ] {
        assert_eq!(error.message(), message);
    }
}

#[test]
fn stderr_excerpt_has_at_most_500_characters() {
    let long = "\u{e9}".repeat(600);
    assert_eq!(stderr_excerpt(&format!("  {} ", long)), "\u{e9}".repeat(500));
    assert_eq!(stderr_excerpt(" short \n"), "short");
    assert_eq!(stderr_excerpt(&"x".repeat(500)).len(), 500);
}

#[test]
fn spans_compare_and_subtract() {
    let a = span(5, 1);
    let b = span(4, 2);
    assert!(b.shorter_than(&a) && !a.shorter_than(&b) && !a.shorter_than(&a));
    let d = a.saturating_sub(b);
    assert_eq!((d.secs(), d.subsec_nanos()), (0, 999_999_999));
    assert!(b.saturating_sub(a).is_zero());
    assert!(a.saturating_sub(a).is_zero());
    assert_eq!(a.min(b).secs(), 4);
    let max = span(u64::MAX, 999_999_999);
    assert_eq!(max.saturating_sub(span(0, 1)).secs(), u64::MAX);
    assert_eq!(span(0, 1_000).to_text(), "1\u{b5}s");
}

#[test]
fn lines_leave_the_limits_alone() {
    let mut r = run(SubprocessKind::ClaudeCode, false);
    r.step(delta("x"));
    r.step(result("success", "y"));
    r.step(exited(Some(3)));
    assert_eq!(
        aborted(r.step(RunEvent::TimedOut { elapsed: span(1, 0) })),
        "agent produced no output for 90s (idle timeout)"
    );
}

#[test]
fn a_lingering_child_is_killed_at_the_ceiling() {
    let mut r = run(SubprocessKind::OpenCode, true);
    let closed = RunEvent::EndOfOutput { elapsed: span(119, 999_999_999) };
    match r.step(closed) {
        RunAction::Reap { within } => {
            assert_eq!((within.secs(), within.subsec_nanos()), (0, 1));
        }
        _ => panic!("expected to reap"),
    }
    assert_eq!(
        aborted(r.step(RunEvent::TimedOut { elapsed: span(120, 0) })),
        "opencode run exceeded absolute ceiling"
    );
    assert_eq!(
        aborted(r.step(RunEvent::EndOfOutput { elapsed: span(120, 0) })),
        "opencode run exceeded absolute ceiling"
    );
}

#[test]
fn deliveries_and_stderr_end_at_the_ceiling() {
    let mut r = run(SubprocessKind::OpenCode, true);
    match r.step(RunEvent::Exited { code: None, elapsed: span(100, 0) }) {
        RunAction::ReadStderr { within } => assert_eq!(within.secs(), 20),
        _ => panic!("expected to read"),
    }
    assert_eq!(
        aborted(r.step(RunEvent::Exited { code: None, elapsed: span(120, 0) })),
        "opencode run exceeded absolute ceiling"
    );
    let text = r#"{"type":"text","part":{"text":"x"}}"#;
    match r.step(RunEvent::Line { line: text.into(), elapsed: span(119, 0) }) {
        RunAction::Deliver { text, within } => {
            assert_eq!((text.as_str(), within.secs()), ("x", 1));
        }
        _ => panic!("expected a delivery"),
    }
    assert_eq!(
        aborted(r.step(RunEvent::Line { line: text.into(), elapsed: span(121, 0) })),
        "opencode run exceeded absolute ceiling"
    );
}

#[test]
fn workdir_must_be_a_directory() {
    assert!(checked_workdir(true, "/x".into()).is_ok());
    match checked_workdir(false, "/x".into()) {
        Err(error) => assert_eq!(error.message(), "workdir does not exist: /x"),
        Ok(()) => panic!("expected an error"),
    }
}
