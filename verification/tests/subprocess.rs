use roger::history::ChatMessage;
use roger::run::RunError;
use roger::span::Span;
use roger::subprocess::{
    child_permits, render_prompt, ChildLimit, CliArg, CommandLine, ProcLimits, SubprocessBackend,
    SubprocessKind,
};
use std::path::PathBuf;

#[test]
fn render_prompt_single_turn() {
    let msgs = vec![ChatMessage::system("be terse"), ChatMessage::user("hello")];
    let (sys, prompt) = render_prompt(&msgs);
    assert_eq!(sys.as_deref(), Some("be terse"));
    assert_eq!(prompt, "hello");
}

#[test]
fn render_prompt_transcript() {
    let msgs = vec![
        ChatMessage::system("sys"),
        ChatMessage::user("first"),
        ChatMessage::assistant("reply"),
        ChatMessage::user("second"),
    ];
    let (_sys, prompt) = render_prompt(&msgs);
    assert!(prompt.contains("User: first"));
    assert!(prompt.contains("Assistant: reply"));
    assert!(prompt.contains("User: second"));
}

#[test]
fn transcript_is_exact() {
    let msgs = vec![
        ChatMessage::user(" first "),
        ChatMessage { role: "tool".into(), content: "out".into() },
        ChatMessage::assistant("reply \n"),
    ];
    let (sys, prompt) = render_prompt(&msgs);
    assert_eq!(sys, None);
    assert_eq!(prompt, "User:  first \n\nUser: out\n\nAssistant: reply");
}

#[test]
fn single_turn_is_not_trimmed() {
    let (_, prompt) = render_prompt(&[ChatMessage::user(" x \n")]);
    assert_eq!(prompt, " x \n");
}

#[test]
fn no_turns_give_an_empty_prompt() {
    assert_eq!(render_prompt(&[]), (None, String::new()));
    let (sys, prompt) = render_prompt(&[ChatMessage::system("a")]);
    assert_eq!((sys.as_deref(), prompt.as_str()), (Some("a"), ""));
}

#[test]
fn system_messages_are_joined() {
    let msgs = vec![
        ChatMessage::system(""),
        ChatMessage::system("a"),
        ChatMessage::user("u"),
        ChatMessage::system(""),
        ChatMessage::system("b"),
    ];
    let (sys, prompt) = render_prompt(&msgs);
    assert_eq!(sys.as_deref(), Some("a\n\n\n\nb"));
    assert_eq!(prompt, "u");
    let without: Vec<ChatMessage> = vec![ChatMessage::user("u")];
    assert_eq!(render_prompt(&without).1, "u");
    assert_eq!(render_prompt(&[ChatMessage::system("")]).0, None);
}

fn backend(flavor: SubprocessKind, full: bool) -> SubprocessBackend {
    let some = |s: &str| if full { Some(s.to_string()) } else { None };
    SubprocessBackend::new(
        flavor,
        "agent".into(),
        "m1".into(),
        if full { "http://gw".into() } else { String::new() },
        some("key"),
        if full { Some(PathBuf::from("/w")) } else { None },
        if full { vec![PathBuf::from("/p"), PathBuf::from("/q")] } else { Vec::new() },
        if full { "bypassPermissions".into() } else { "acceptEdits".into() },
        ProcLimits {
            idle: Span::new(90, 0),
            ceiling: Span::new(120, 0),
            max_budget_usd: some("1.5"),
            max_turns: if full { Some(12) } else { None },
        },
    )
}

fn args(command: &CommandLine) -> Vec<String> {
    command
        .args
        .iter()
        .map(|arg| match arg {
            CliArg::Text(t) => t.clone(),
            CliArg::Path(p) => format!("path:{}", p.display()),
        })
        .collect()
}

#[test]
fn stream_json_command_in_full() {
    let b = backend(SubprocessKind::ClaudeCode, true);
    let c = b.command_for(&[ChatMessage::system("s"), ChatMessage::user("u")]);
    assert_eq!(c.program, "agent");
    assert_eq!(
        args(&c),
        [
            "--print",
            "--output-format",
            "stream-json",
            "--verbose",
            "--include-partial-messages",
            "--permission-mode",
            "bypassPermissions",
            "--model",
            "m1",
            "--append-system-prompt",
            "s",
            "--add-dir",
            "path:/p",
            "--add-dir",
            "path:/q",
            "--max-budget-usd",
            "1.5",
            "--max-turns",
            "12",
            "u",
        ]
    );
    assert_eq!(
        c.env,
        [
            ("ANTHROPIC_BASE_URL", "http://gw".to_string()),
            ("ANTHROPIC_AUTH_TOKEN", "key".to_string()),
        ]
    );
}

#[test]
fn stream_json_command_bare() {
    let b = backend(SubprocessKind::ClaudeCode, false);
    let c = b.command(&None, "u");
    assert_eq!(
        args(&c),
        [
            "--print",
            "--output-format",
            "stream-json",
            "--verbose",
            "--include-partial-messages",
            "--permission-mode",
            "acceptEdits",
            "--model",
            "m1",
            "u",
        ]
    );
    assert!(c.env.is_empty());
}

#[test]
fn run_json_command_folds_the_system_prompt() {
    let c = backend(SubprocessKind::OpenCode, true).command(&Some("s".into()), "u");
    assert_eq!(c.program, "opencode");
    assert_eq!(
        args(&c),
        ["run", "--format", "json", "--model", "m1", "--dangerously-skip-permissions", "s\n\nu"]
    );
    assert!(c.env.is_empty());
    let c = backend(SubprocessKind::OpenCode, false).command(&None, "u");
    assert_eq!(args(&c), ["run", "--format", "json", "--model", "m1", "u"]);
}

#[test]
fn room_workdir_wins_over_the_configured_one() {
    let b = backend(SubprocessKind::ClaudeCode, true);
    assert_eq!(b.workdir(Some(PathBuf::from("/r"))).ok(), Some(PathBuf::from("/r")));
    assert_eq!(b.workdir(None).ok(), Some(PathBuf::from("/w")));
    let b = backend(SubprocessKind::ClaudeCode, false);
    assert_eq!(b.workdir(Some(PathBuf::from("/r"))).ok(), Some(PathBuf::from("/r")));
    assert!(matches!(b.workdir(None), Err(RunError::NoWorkdir)));
}

#[test]
fn backend_keeps_its_settings() {
    let b = backend(SubprocessKind::OpenCode, true);
    assert_eq!(b.model(), "m1");
    assert_eq!(b.flavor(), SubprocessKind::OpenCode);
    assert_eq!((b.program().as_str(), b.stream_json_program()), ("opencode", "agent"));
    assert_eq!(b.limits().max_turns, Some(12));
}

#[test]
fn child_permits_are_at_least_one() {
    assert_eq!(child_permits(None), 3);
    assert_eq!(child_permits(Some(0)), 1);
    assert_eq!(child_permits(Some(1)), 1);
    assert_eq!(child_permits(Some(8)), 8);
}

#[test]
fn first_request_fixes_the_child_limit() {
    let mut limit = ChildLimit::new();
    assert!(limit.set_child_limit(0));
    assert!(!limit.set_child_limit(9));
    assert_eq!(limit.permits(), 1);
    assert!(!limit.set_child_limit(5));
    assert_eq!(limit.permits(), 1);
}

#[test]
fn first_run_fixes_the_child_limit() {
    let mut limit = ChildLimit::new();
    assert_eq!(limit.permits(), 3);
    assert!(!limit.set_child_limit(8));
    assert_eq!(limit.permits(), 3);
}
