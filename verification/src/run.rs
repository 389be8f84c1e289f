//! The course of one subprocess run: what to do next, given what has happened.

use crate::events::{StreamEvent, StreamEventView, claude_line_event, denotes, opencode_line_event, parse_claude_line, parse_opencode_line};
use crate::json::{JsonTree, has_member};
use crate::span::{Span, duration_text};
use crate::subprocess::{SubprocessKind, program_of};
use crate::text::{decimal_int, prefix_of_at_most, take_chars, to_decimal_i32, trim, trimmed};
use vstd::prelude::*;
use vstd::string::*;

verus! {

/// How many characters of the standard error output an error message quotes.
pub const STDERR_EXCERPT: usize = 500;

/// Why a run failed.
pub enum RunError {
    /// Neither the room nor the backend has a workdir.
    NoWorkdir,
    /// The workdir is no directory.
    WorkdirMissing { dir: String },
    /// No permit to run a child can be had any more.
    ChildLimitClosed,
    /// The program could not be started.
    SpawnFailed { program: String, reason: String },
    /// The child has no standard output to read.
    NoStdout,
    /// The run took longer than the ceiling.
    CeilingExceeded { program: String },
    /// No line arrived within the idle window.
    IdleTimeout { program: String, idle: Span },
    /// The output could not be read.
    ReadFailed { program: String, reason: String },
    /// Nobody receives the text any more.
    ReceiverDropped,
    /// The CLI reported that it failed.
    Reported { program: String, text: String },
    /// The CLI ended without any reply.
    NoResult { program: String, code: Option<i32>, stderr: String },
}

/// What a [`RunError`] holds.
pub enum RunErrorView {
    NoWorkdir,
    WorkdirMissing { dir: Seq<char> },
    ChildLimitClosed,
    SpawnFailed { program: Seq<char>, reason: Seq<char> },
    NoStdout,
    CeilingExceeded { program: Seq<char> },
    IdleTimeout { program: Seq<char>, idle: nat },
    ReadFailed { program: Seq<char>, reason: Seq<char> },
    ReceiverDropped,
    Reported { program: Seq<char>, text: Seq<char> },
    NoResult { program: Seq<char>, code: Option<i32>, stderr: Seq<char> },
}

impl View for RunError {
    type V = RunErrorView;

    open spec fn view(&self) -> RunErrorView {
        match self {
            RunError::NoWorkdir => RunErrorView::NoWorkdir,
            RunError::WorkdirMissing { dir } => RunErrorView::WorkdirMissing { dir: dir@ },
            RunError::ChildLimitClosed => RunErrorView::ChildLimitClosed,
            RunError::SpawnFailed { program, reason } => RunErrorView::SpawnFailed {
                program: program@,
                reason: reason@,
            },
            RunError::NoStdout => RunErrorView::NoStdout,
            RunError::CeilingExceeded { program } => RunErrorView::CeilingExceeded {
                program: program@,
            },
            RunError::IdleTimeout { program, idle } => RunErrorView::IdleTimeout {
                program: program@,
                idle: idle@,
            },
            RunError::ReadFailed { program, reason } => RunErrorView::ReadFailed {
                program: program@,
                reason: reason@,
            },
            RunError::ReceiverDropped => RunErrorView::ReceiverDropped,
            RunError::Reported { program, text } => RunErrorView::Reported {
                program: program@,
                text: text@,
            },
            RunError::NoResult { program, code, stderr } => RunErrorView::NoResult {
                program: program@,
                code: *code,
                stderr: stderr@,
            },
        }
    }
}

/// An exit code as the messages show it.
pub open spec fn code_text(code: Option<i32>) -> Seq<char> {
    match code {
        Some(c) => "Some("@ + decimal_int(c as int) + ")"@,
        None => "None"@,
    }
}

impl RunErrorView {
    /// The message that tells a user what went wrong.
    pub open spec fn message(self) -> Seq<char> {
        match self {
            RunErrorView::NoWorkdir =>
                "subprocess backend has no workdir (set comms.default_workdir or use set_workdir)"@,
            RunErrorView::WorkdirMissing { dir } => "workdir does not exist: "@ + dir,
            RunErrorView::ChildLimitClosed => "child semaphore closed"@,
            RunErrorView::SpawnFailed { program, reason } => "failed to spawn "@ + program + ": "@
                + reason,
            RunErrorView::NoStdout => "no stdout"@,
            RunErrorView::CeilingExceeded { program } => program
                + " run exceeded absolute ceiling"@,
            RunErrorView::IdleTimeout { program, idle } => program + " produced no output for "@
                + duration_text(idle) + " (idle timeout)"@,
            RunErrorView::ReadFailed { program, reason } => "error reading "@ + program
                + " output: "@ + reason,
            RunErrorView::ReceiverDropped => "output receiver dropped"@,
            RunErrorView::Reported { program, text } => program + " reported error: "@ + text,
            RunErrorView::NoResult { program, code, stderr } => program
                + " produced no result (exit "@ + code_text(code) + ")"@ + (if stderr.len() == 0 {
                seq![]
            } else {
                ": "@ + stderr
            }),
        }
    }
}

fn joined2(a: &str, b: &str) -> (r: String)
    ensures
        r@ == a@ + b@,
{
    let mut r: String = a.to_string();
    r.append(b);
    r
}

fn joined4(a: &str, b: &str, c: &str, d: &str) -> (r: String)
    ensures
        r@ == a@ + b@ + c@ + d@,
{
    let mut r: String = a.to_string();
    r.append(b);
    r.append(c);
    r.append(d);
    r
}

fn show_code(code: Option<i32>) -> (r: String)
    ensures
        r@ == code_text(code),
{
    match code {
        Some(c) => {
            let mut r: String = "Some(".to_string();
            let digits: String = to_decimal_i32(c);
            r.append(digits.as_str());
            r.append(")");
            r
        },
        None => "None".to_string(),
    }
}

impl RunError {
    /// The message that tells a user what went wrong.
    pub fn message(&self) -> (message: String)
        ensures
            message@ == self@.message(),
    {
        match self {
            RunError::NoWorkdir =>
                "subprocess backend has no workdir (set comms.default_workdir or use set_workdir)".to_string(),
            RunError::WorkdirMissing { dir } => joined2("workdir does not exist: ", dir.as_str()),
            RunError::ChildLimitClosed => "child semaphore closed".to_string(),
            RunError::SpawnFailed { program, reason } => joined4(
                "failed to spawn ",
                program.as_str(),
                ": ",
                reason.as_str(),
            ),
            RunError::NoStdout => "no stdout".to_string(),
            RunError::CeilingExceeded { program } => joined2(
                program.as_str(),
                " run exceeded absolute ceiling",
            ),
            RunError::IdleTimeout { program, idle } => joined4(
                program.as_str(),
                " produced no output for ",
                idle.to_text().as_str(),
                " (idle timeout)",
            ),
            RunError::ReadFailed { program, reason } => joined4(
                "error reading ",
                program.as_str(),
                " output: ",
                reason.as_str(),
            ),
            RunError::ReceiverDropped => "output receiver dropped".to_string(),
            RunError::Reported { program, text } => {
                let mut r: String = joined2(program.as_str(), " reported error: ");
                r.append(text.as_str());
                r
            },
            RunError::NoResult { program, code, stderr } => {
                let mut r: String = joined4(
                    program.as_str(),
                    " produced no result (exit ",
                    show_code(*code).as_str(),
                    ")",
                );
                if !stderr.as_str().is_empty() {
                    r.append(": ");
                    r.append(stderr.as_str());
                    proof {
                        assert(r@ =~= self@.message());
                    }
                } else {
                    proof {
                        assert(r@ =~= self@.message());
                    }
                }
                r
            },
        }
    }
}

/// Whether a run may happen in a workdir, given whether it is a directory and how it is shown.
pub fn checked_workdir(is_dir: bool, shown: String) -> (r: Result<(), RunError>)
    ensures
        r is Ok <==> is_dir,
        r matches Err(e) ==> e@ == (RunErrorView::WorkdirMissing { dir: shown@ }),
{
    if is_dir {
        Ok(())
    } else {
        Err(RunError::WorkdirMissing { dir: shown })
    }
}

/// The part of the standard error output that an error message quotes: its first characters, white
/// space at either end left out.
pub fn stderr_excerpt(output: &str) -> (excerpt: String)
    ensures
        excerpt@ == prefix_of_at_most(trimmed(output@), 500),
{
    take_chars(trim(output), STDERR_EXCERPT).to_string()
}

/// What has happened to a run.
pub enum RunEvent {
    /// The run is free to go on; it has taken this long so far.
    Ready { elapsed: Span },
    /// The child printed a line; the run has taken this long so far.
    Line { line: String, elapsed: Span },
    /// The child closed its output; the run has taken this long so far.
    EndOfOutput { elapsed: Span },
    /// The output could not be read.
    ReadFailed(String),
    /// What was waited for did not come in time; the run has taken this long so far.
    TimedOut { elapsed: Span },
    /// The text was delivered.
    Delivered,
    /// The receiver of the text is gone.
    ReceiverGone,
    /// The child has ended, with an exit code where it has one; the run has taken this long so
    /// far.
    Exited { code: Option<i32>, elapsed: Span },
    /// What the child wrote to its standard error output.
    Stderr(String),
}

/// What a [`RunEvent`] holds.
pub enum RunEventView {
    Ready { elapsed: nat },
    Line { line: Seq<char>, elapsed: nat },
    EndOfOutput { elapsed: nat },
    ReadFailed(Seq<char>),
    TimedOut { elapsed: nat },
    Delivered,
    ReceiverGone,
    Exited { code: Option<i32>, elapsed: nat },
    Stderr(Seq<char>),
}

impl RunEventView {
    /// How long the run has taken, where the event tells.
    pub open spec fn elapsed(self) -> Option<nat> {
        match self {
            RunEventView::Ready { elapsed } => Some(elapsed),
            RunEventView::Line { elapsed, .. } => Some(elapsed),
            RunEventView::EndOfOutput { elapsed } => Some(elapsed),
            RunEventView::TimedOut { elapsed } => Some(elapsed),
            RunEventView::Exited { elapsed, .. } => Some(elapsed),
            _ => None,
        }
    }
}

impl View for RunEvent {
    type V = RunEventView;

    open spec fn view(&self) -> RunEventView {
        match self {
            RunEvent::Ready { elapsed } => RunEventView::Ready { elapsed: elapsed@ },
            RunEvent::Line { line, elapsed } => RunEventView::Line {
                line: line@,
                elapsed: elapsed@,
            },
            RunEvent::EndOfOutput { elapsed } => RunEventView::EndOfOutput { elapsed: elapsed@ },
            RunEvent::ReadFailed(reason) => RunEventView::ReadFailed(reason@),
            RunEvent::TimedOut { elapsed } => RunEventView::TimedOut { elapsed: elapsed@ },
            RunEvent::Delivered => RunEventView::Delivered,
            RunEvent::ReceiverGone => RunEventView::ReceiverGone,
            RunEvent::Exited { code, elapsed } => RunEventView::Exited {
                code: *code,
                elapsed: elapsed@,
            },
            RunEvent::Stderr(text) => RunEventView::Stderr(text@),
        }
    }
}

/// What a run asks for next.
pub enum RunAction {
    /// Go on.
    Continue,
    /// Read the next line, waiting no longer than this.
    ReadLine { within: Span },
    /// Deliver the accumulated text to the receiver, waiting no longer than this.
    Deliver { text: String, within: Span },
    /// Kill the child and its whole process group; the run has failed.
    Abort(RunError),
    /// Wait for the child to end, no longer than this.
    Reap { within: Span },
    /// Read what the child wrote to its standard error output, waiting no longer than this.
    ReadStderr { within: Span },
    /// The run is over.
    Finish(Result<String, RunError>),
}

/// What a [`RunAction`] holds.
pub enum RunActionView {
    Continue,
    ReadLine { within: nat },
    Deliver { text: Seq<char>, within: nat },
    Abort(RunErrorView),
    Reap { within: nat },
    ReadStderr { within: nat },
    Finish(Result<Seq<char>, RunErrorView>),
}

impl RunActionView {
    /// How long the action may wait, where it waits for anything.
    pub open spec fn wait(self) -> Option<nat> {
        match self {
            RunActionView::ReadLine { within } => Some(within),
            RunActionView::Deliver { within, .. } => Some(within),
            RunActionView::Reap { within } => Some(within),
            RunActionView::ReadStderr { within } => Some(within),
            RunActionView::Continue => None,
            RunActionView::Abort(_) => None,
            RunActionView::Finish(_) => None,
        }
    }
}

impl View for RunAction {
    type V = RunActionView;

    open spec fn view(&self) -> RunActionView {
        match self {
            RunAction::Continue => RunActionView::Continue,
            RunAction::ReadLine { within } => RunActionView::ReadLine { within: within@ },
            RunAction::Deliver { text, within } => RunActionView::Deliver {
                text: text@,
                within: within@,
            },
            RunAction::Abort(error) => RunActionView::Abort(error@),
            RunAction::Reap { within } => RunActionView::Reap { within: within@ },
            RunAction::ReadStderr { within } => RunActionView::ReadStderr { within: within@ },
            RunAction::Finish(Ok(text)) => RunActionView::Finish(Ok(text@)),
            RunAction::Finish(Err(error)) => RunActionView::Finish(Err(error@)),
        }
    }
}

/// A run of a subprocess, as far as it has come.
pub struct Run {
    flavor: SubprocessKind,
    stream_json_program: String,
    streaming: bool,
    idle: Span,
    ceiling: Span,
    full: String,
    final_text: Option<String>,
    run_error: Option<String>,
    exit_code: Option<i32>,
}

/// What a [`Run`] holds.
pub struct RunView {
    /// Which CLI is running.
    pub flavor: SubprocessKind,
    /// What the CLI with `stream-json` output is run as.
    pub stream_json_program: Seq<char>,
    /// Whether the text is delivered as it grows.
    pub streaming: bool,
    /// The longest wait for a line.
    pub idle: nat,
    /// The longest that the whole run may take.
    pub ceiling: nat,
    /// The accumulated text.
    pub full: Seq<char>,
    /// The text that the last successful outcome gave.
    pub final_text: Option<Seq<char>>,
    /// The text that the last failed outcome gave.
    pub run_error: Option<Seq<char>>,
    /// The exit code of the child.
    pub exit_code: Option<i32>,
}

impl View for Run {
    type V = RunView;

    closed spec fn view(&self) -> RunView {
        RunView {
            flavor: self.flavor,
            stream_json_program: self.stream_json_program@,
            streaming: self.streaming,
            idle: self.idle@,
            ceiling: self.ceiling@,
            full: self.full@,
            final_text: self.final_text.deep_view(),
            run_error: self.run_error.deep_view(),
            exit_code: self.exit_code,
        }
    }
}

/// The event that a line of output stands for.
pub open spec fn line_event(flavor: SubprocessKind, line: Seq<char>) -> StreamEventView {
    match flavor {
        SubprocessKind::ClaudeCode => claude_line_event(line),
        SubprocessKind::OpenCode => opencode_line_event(line),
    }
}

impl RunView {
    /// A run of which nothing has happened yet.
    pub open spec fn fresh(
        flavor: SubprocessKind,
        stream_json_program: Seq<char>,
        streaming: bool,
        idle: nat,
        ceiling: nat,
    ) -> RunView {
        RunView {
            flavor,
            stream_json_program,
            streaming,
            idle,
            ceiling,
            full: seq![],
            final_text: None,
            run_error: None,
            exit_code: None,
        }
    }

    /// The program that is running.
    pub open spec fn program(self) -> Seq<char> {
        program_of(self.flavor, self.stream_json_program)
    }

    /// What is left of the ceiling. `None` where it is reached.
    pub open spec fn remaining(self, elapsed: nat) -> Option<nat> {
        if elapsed >= self.ceiling {
            None
        } else {
            Some((self.ceiling - elapsed) as nat)
        }
    }

    /// The action that a run asks for at the ceiling.
    pub open spec fn over_ceiling(self) -> RunActionView {
        RunActionView::Abort(RunErrorView::CeilingExceeded { program: self.program() })
    }

    /// The run after an event of the output stream: text accumulates, and an outcome is noted with
    /// its text, or with the accumulated text where it has none.
    pub open spec fn heard(self, event: StreamEventView) -> RunView {
        match event {
            StreamEventView::Text(t) => RunView { full: self.full + t, ..self },
            StreamEventView::Final { text, is_error } => {
                let said = match text {
                    Some(t) => t,
                    None => self.full,
                };
                if is_error {
                    RunView { run_error: Some(said), ..self }
                } else {
                    RunView { final_text: Some(said), ..self }
                }
            },
            StreamEventView::Other => self,
        }
    }

    /// The run after an event.
    pub open spec fn after(self, event: RunEventView) -> RunView {
        match event {
            RunEventView::Line { line, .. } => self.heard(line_event(self.flavor, line)),
            RunEventView::Exited { code, .. } => RunView { exit_code: code, ..self },
            _ => self,
        }
    }

    /// What a run that has ended comes to: an error that was reported, else the final text, else
    /// the accumulated text. `None` where there is nothing of the kind.
    pub open spec fn outcome(self) -> Option<Result<Seq<char>, RunErrorView>> {
        match (self.run_error, self.final_text) {
            (Some(text), _) => Some(
                Err(RunErrorView::Reported { program: self.program(), text }),
            ),
            (None, Some(text)) => Some(Ok(text)),
            (None, None) => if self.full.len() == 0 {
                None
            } else {
                Some(Ok(self.full))
            },
        }
    }

    /// What an event makes the run ask for. Whatever it waits for, it waits no longer than what is
    /// left of the ceiling. A ceiling that is found to be reached before a line is waited for is
    /// reported in the name of the CLI with `stream-json` output, whichever runs.
    pub open spec fn action(self, event: RunEventView) -> RunActionView {
        let program = self.program();
        match event {
            RunEventView::Ready { elapsed } => match self.remaining(elapsed) {
                Some(left) => RunActionView::ReadLine {
                    within: if self.idle < left {
                        self.idle
                    } else {
                        left
                    },
                },
                None => RunActionView::Abort(
                    RunErrorView::CeilingExceeded { program: self.stream_json_program },
                ),
            },
            RunEventView::Line { line, elapsed } => match line_event(self.flavor, line) {
                StreamEventView::Text(t) if self.streaming => match self.remaining(elapsed) {
                    Some(within) => RunActionView::Deliver { text: self.full + t, within },
                    None => self.over_ceiling(),
                },
                _ => RunActionView::Continue,
            },
            RunEventView::EndOfOutput { elapsed } => match self.remaining(elapsed) {
                Some(within) => RunActionView::Reap { within },
                None => self.over_ceiling(),
            },
            RunEventView::ReadFailed(reason) => RunActionView::Abort(
                RunErrorView::ReadFailed { program, reason },
            ),
            RunEventView::TimedOut { elapsed } => if elapsed >= self.ceiling {
                self.over_ceiling()
            } else {
                RunActionView::Abort(RunErrorView::IdleTimeout { program, idle: self.idle })
            },
            RunEventView::Delivered => RunActionView::Continue,
            RunEventView::ReceiverGone => RunActionView::Abort(RunErrorView::ReceiverDropped),
            RunEventView::Exited { elapsed, .. } => match self.outcome() {
                Some(outcome) => RunActionView::Finish(outcome),
                None => match self.remaining(elapsed) {
                    Some(within) => RunActionView::ReadStderr { within },
                    None => self.over_ceiling(),
                },
            },
            RunEventView::Stderr(output) => RunActionView::Finish(
                Err(
                    RunErrorView::NoResult {
                        program,
                        code: self.exit_code,
                        stderr: prefix_of_at_most(trimmed(output), 500),
                    },
                ),
            ),
        }
    }

    /// The run after the child has printed `lines`.
    pub open spec fn after_lines(self, lines: Seq<Seq<char>>) -> RunView
        decreases lines.len(),
    {
        if lines.len() == 0 {
            self
        } else {
            let before = self.after_lines(lines.drop_last());
            before.heard(line_event(before.flavor, lines.last()))
        }
    }
}

impl Run {
    /// A run that is about to start. With `streaming`, the text is to be delivered as it grows.
    pub fn new(
        flavor: SubprocessKind,
        stream_json_program: String,
        streaming: bool,
        idle: Span,
        ceiling: Span,
    ) -> (run: Run)
        ensures
            run@ == RunView::fresh(flavor, stream_json_program@, streaming, idle@, ceiling@),
    {
        Run {
            flavor,
            stream_json_program,
            streaming,
            idle,
            ceiling,
            full: String::new(),
            final_text: None,
            run_error: None,
            exit_code: None,
        }
    }

    fn program(&self) -> (program: String)
        ensures
            program@ == self@.program(),
    {
        self.flavor.program(self.stream_json_program.as_str())
    }

    fn hear(&mut self, event: StreamEvent) -> (text: bool)
        ensures
            final(self)@ == old(self)@.heard(event@),
            text == (event@ is Text),
    {
        match event {
            StreamEvent::Text(t) => {
                self.full.append(t.as_str());
                true
            },
            StreamEvent::Final { text, is_error } => {
                let said: String = match text {
                    Some(t) => t,
                    None => self.full.clone(),
                };
                if is_error {
                    self.run_error = Some(said);
                } else {
                    self.final_text = Some(said);
                }
                false
            },
            StreamEvent::Other => false,
        }
    }

    fn remaining(&self, elapsed: Span) -> (left: Option<Span>)
        ensures
            match left {
                Some(span) => self@.remaining(elapsed@) == Some(span@),
                None => self@.remaining(elapsed@) is None,
            },
    {
        let left: Span = self.ceiling.saturating_sub(elapsed);
        if left.is_zero() {
            None
        } else {
            Some(left)
        }
    }

    fn over_ceiling(&self) -> (action: RunAction)
        ensures
            action@ == self@.over_ceiling(),
    {
        RunAction::Abort(RunError::CeilingExceeded { program: self.program() })
    }

    fn outcome(&self) -> (outcome: Option<Result<String, RunError>>)
        ensures
            match outcome {
                Some(Ok(text)) => self@.outcome() == Some(
                    Ok::<Seq<char>, RunErrorView>(text@),
                ),
                Some(Err(error)) => self@.outcome() == Some(
                    Err::<Seq<char>, RunErrorView>(error@),
                ),
                None => self@.outcome() is None,
            },
    {
        if let Some(text) = &self.run_error {
            return Some(Err(RunError::Reported { program: self.program(), text: text.clone() }));
        }
        if let Some(text) = &self.final_text {
            return Some(Ok(text.clone()));
        }
        if self.full.as_str().is_empty() {
            None
        } else {
            Some(Ok(self.full.clone()))
        }
    }

    /// Takes in what has happened, and tells what to do next.
    pub fn step(&mut self, event: RunEvent) -> (action: RunAction)
        ensures
            final(self)@ == old(self)@.after(event@),
            action@ == old(self)@.action(event@),
    {
        match event {
            RunEvent::Ready { elapsed } => match self.remaining(elapsed) {
                Some(left) => RunAction::ReadLine { within: self.idle.min(left) },
                None => RunAction::Abort(
                    RunError::CeilingExceeded { program: self.stream_json_program.clone() },
                ),
            },
            RunEvent::Line { line, elapsed } => {
                let heard: StreamEvent = match self.flavor {
                    SubprocessKind::ClaudeCode => parse_claude_line(line.as_str()),
                    SubprocessKind::OpenCode => parse_opencode_line(line.as_str()),
                };
                let text: bool = self.hear(heard);
                if text && self.streaming {
                    match self.remaining(elapsed) {
                        Some(within) => RunAction::Deliver { text: self.full.clone(), within },
                        None => self.over_ceiling(),
                    }
                } else {
                    RunAction::Continue
                }
            },
            RunEvent::EndOfOutput { elapsed } => match self.remaining(elapsed) {
                Some(within) => RunAction::Reap { within },
                None => self.over_ceiling(),
            },
            RunEvent::ReadFailed(reason) => RunAction::Abort(
                RunError::ReadFailed { program: self.program(), reason },
            ),
            RunEvent::TimedOut { elapsed } => {
                if elapsed.shorter_than(&self.ceiling) {
                    RunAction::Abort(
                        RunError::IdleTimeout { program: self.program(), idle: self.idle },
                    )
                } else {
                    self.over_ceiling()
                }
            },
            RunEvent::Delivered => RunAction::Continue,
            RunEvent::ReceiverGone => RunAction::Abort(RunError::ReceiverDropped),
            RunEvent::Exited { code, elapsed } => {
                self.exit_code = code;
                match self.outcome() {
                    Some(outcome) => RunAction::Finish(outcome),
                    None => match self.remaining(elapsed) {
                        Some(within) => RunAction::ReadStderr { within },
                        None => self.over_ceiling(),
                    },
                }
            },
            RunEvent::Stderr(output) => RunAction::Finish(
                Err(
                    RunError::NoResult {
                        program: self.program(),
                        code: self.exit_code,
                        stderr: stderr_excerpt(output.as_str()),
                    },
                ),
            ),
        }
    }
}

/// The text that the output `lines` say.
pub open spec fn said(flavor: SubprocessKind, lines: Seq<Seq<char>>) -> Seq<char>
    decreases lines.len(),
{
    if lines.len() == 0 {
        seq![]
    } else {
        match line_event(flavor, lines.last()) {
            StreamEventView::Text(t) => said(flavor, lines.drop_last()) + t,
            _ => said(flavor, lines.drop_last()),
        }
    }
}

/// The text of the last outcome among the output `lines` that is a failure, or a success: its own
/// text, or what was said before it where it has none.
pub open spec fn last_outcome(flavor: SubprocessKind, lines: Seq<Seq<char>>, failed: bool) -> Option<
    Seq<char>,
>
    decreases lines.len(),
{
    if lines.len() == 0 {
        None
    } else {
        match line_event(flavor, lines.last()) {
            StreamEventView::Final { text, is_error } if is_error == failed => match text {
                Some(t) => Some(t),
                None => Some(said(flavor, lines.drop_last())),
            },
            _ => last_outcome(flavor, lines.drop_last(), failed),
        }
    }
}

/// The output lines alone decide what a run has gathered: what they say, and their last failure
/// and success. Everything else is as it was at the start.
pub proof fn law_lines_gather(
    flavor: SubprocessKind,
    stream_json_program: Seq<char>,
    streaming: bool,
    idle: nat,
    ceiling: nat,
    lines: Seq<Seq<char>>,
)
    ensures
        RunView::fresh(flavor, stream_json_program, streaming, idle, ceiling).after_lines(lines) == (RunView {
            full: said(flavor, lines),
            final_text: last_outcome(flavor, lines, false),
            run_error: last_outcome(flavor, lines, true),
            ..RunView::fresh(flavor, stream_json_program, streaming, idle, ceiling)
        }),
    decreases lines.len(),
{
    if lines.len() > 0 {
        law_lines_gather(flavor, stream_json_program, streaming, idle, ceiling, lines.drop_last());
    }
}

/// A run whose child printed `lines` and ended fails with the last failure that they report; else
/// it gives the last final text; else all that they say; and where they say nothing, it fails with
/// an excerpt of the standard error output, which is read until the ceiling.
pub proof fn law_outcome_of_lines(
    flavor: SubprocessKind,
    stream_json_program: Seq<char>,
    streaming: bool,
    idle: nat,
    ceiling: nat,
    lines: Seq<Seq<char>>,
    code: Option<i32>,
    elapsed: nat,
    stderr: Seq<char>,
)
    ensures
        ({
            let run = RunView::fresh(flavor, stream_json_program, streaming, idle, ceiling).after_lines(lines);
            let exited = RunEventView::Exited { code, elapsed };
            let program = program_of(flavor, stream_json_program);
            match (last_outcome(flavor, lines, true), last_outcome(flavor, lines, false)) {
                (Some(text), _) => run.action(exited) == RunActionView::Finish(
                    Err(RunErrorView::Reported { program, text }),
                ),
                (None, Some(text)) => run.action(exited) == RunActionView::Finish(Ok(text)),
                (None, None) => if said(flavor, lines).len() > 0 {
                    run.action(exited) == RunActionView::Finish(Ok(said(flavor, lines)))
                } else {
                    &&& run.action(exited) == if elapsed < ceiling {
                        RunActionView::ReadStderr { within: (ceiling - elapsed) as nat }
                    } else {
                        RunActionView::Abort(RunErrorView::CeilingExceeded { program })
                    }
                    &&& run.after(exited).action(RunEventView::Stderr(stderr))
                        == RunActionView::Finish(
                        Err(
                            RunErrorView::NoResult {
                                program,
                                code,
                                stderr: prefix_of_at_most(trimmed(stderr), 500),
                            },
                        ),
                    )
                },
            }
        }),
{
    law_lines_gather(flavor, stream_json_program, streaming, idle, ceiling, lines);
}

/// The ceiling is hard: whatever a run waits for (a line, the receiver, the end of the child, its
/// standard error output), it waits no longer than to the ceiling, and for a line no longer than
/// the idle window; once the ceiling is reached it waits for nothing any more, and a wait that runs
/// out at the ceiling has the child killed.
pub proof fn law_waits_are_bounded(run: RunView, event: RunEventView)
    ensures
        run.action(event).wait() matches Some(within) ==> {
            &&& event.elapsed() matches Some(elapsed)
            &&& elapsed < run.ceiling
            &&& elapsed + within <= run.ceiling
            &&& run.action(event) is ReadLine ==> within <= run.idle
            &&& within == run.idle || elapsed + within == run.ceiling
        },
        event matches RunEventView::TimedOut { elapsed } ==> {
            &&& run.action(event) is Abort
            &&& elapsed >= run.ceiling ==> run.action(event) == RunActionView::Abort(
                RunErrorView::CeilingExceeded { program: run.program() },
            )
        },
{
}

/// A child that closes its output and lives on is killed when the ceiling is reached: the wait for
/// its end lasts to the ceiling, and running out it aborts the run.
pub proof fn law_lingering_child_is_killed(run: RunView, elapsed: nat, later: nat)
    requires
        later >= run.ceiling,
    ensures
        ({
            let closed = RunEventView::EndOfOutput { elapsed };
            let killed = RunActionView::Abort(
                RunErrorView::CeilingExceeded { program: run.program() },
            );
            if elapsed >= run.ceiling {
                run.action(closed) == killed
            } else {
                &&& run.action(closed) == RunActionView::Reap {
                    within: (run.ceiling - elapsed) as nat,
                }
                &&& run.after(closed).action(RunEventView::TimedOut { elapsed: later }) == killed
            }
        }),
{
}

/// What a run delivers is all the text so far, which starts with all that it delivered before;
/// without streaming it delivers nothing.
pub proof fn law_deliveries_accumulate(run: RunView, event: RunEventView)
    ensures
        run.action(event) matches RunActionView::Deliver { text, .. } ==> {
            &&& run.streaming
            &&& text == run.after(event).full
        },
        run.full.is_prefix_of(run.after(event).full),
{
    let grown = run.after(event).full;
    assert(run.full =~= grown.subrange(0, run.full.len() as int));
}

/// Nothing that happens to a run changes which CLI it runs or its limits, and only the end of the
/// child changes the exit code.
pub proof fn law_settings_stay(run: RunView, event: RunEventView)
    ensures
        run.after(event).flavor == run.flavor,
        run.after(event).program() == run.program(),
        run.after(event).streaming == run.streaming,
        run.after(event).idle == run.idle,
        run.after(event).ceiling == run.ceiling,
        !(event is Exited) ==> run.after(event).exit_code == run.exit_code,
{
}

/// A line is read as the CLI that runs prints it.
pub proof fn law_lines_are_read_by_the_kind(line: Seq<char>)
    ensures
        line_event(SubprocessKind::ClaudeCode, line) == claude_line_event(line),
        line_event(SubprocessKind::OpenCode, line) == opencode_line_event(line),
{
}

/// A new run has gathered nothing, and keeps the settings that it was made with.
pub proof fn law_new_run_has_gathered_nothing(
    flavor: SubprocessKind,
    stream_json_program: String,
    streaming: bool,
    idle: Span,
    ceiling: Span,
    run: Run,
)
    requires
        call_ensures(Run::new, (flavor, stream_json_program, streaming, idle, ceiling), run),
    ensures
        run@.flavor == flavor,
        run@.stream_json_program == stream_json_program@,
        run@.streaming == streaming,
        run@.idle == idle@,
        run@.ceiling == ceiling@,
        run@.full.len() == 0,
        run@.final_text is None,
        run@.run_error is None,
        run@.exit_code is None,
        flavor == SubprocessKind::ClaudeCode ==> run@.program() == stream_json_program@,
        flavor == SubprocessKind::OpenCode ==> run@.program() == "opencode"@,
{
}

/// Text that a line says goes to the end of the accumulated text, character for character, and
/// changes nothing else. With streaming, all of the text is delivered, as long as the ceiling is not
/// reached; without, the run goes on.
pub proof fn law_text_is_accumulated(
    run: &mut Run,
    line: String,
    elapsed: Span,
    t: Seq<char>,
    action: RunAction,
)
    requires
        call_ensures(Run::step, (run, RunEvent::Line { line, elapsed }), action),
        line_event(old(run)@.flavor, line@) == StreamEventView::Text(t),
    ensures
        final(run)@ == (RunView { full: old(run)@.full + t, ..old(run)@ }),
        !old(run)@.streaming ==> action@ is Continue,
        old(run)@.streaming && elapsed@ < old(run)@.ceiling ==> action@ == (RunActionView::Deliver {
            text: old(run)@.full + t,
            within: (old(run)@.ceiling - elapsed@) as nat,
        }),
        old(run)@.streaming && elapsed@ >= old(run)@.ceiling ==> action@ == RunActionView::Abort(
            RunErrorView::CeilingExceeded { program: old(run)@.program() },
        ),
{
}

/// An outcome that a line reports is noted, a failure apart from a success, whatever text was
/// accumulated before it: with its own text, or with the accumulated text where it has none. It
/// takes the place of the one before it, and changes nothing else; the run goes on.
pub proof fn law_outcome_is_noted(
    run: &mut Run,
    line: String,
    elapsed: Span,
    text: Option<Seq<char>>,
    is_error: bool,
    action: RunAction,
)
    requires
        call_ensures(Run::step, (run, RunEvent::Line { line, elapsed }), action),
        line_event(old(run)@.flavor, line@) == (StreamEventView::Final { text, is_error }),
    ensures
        ({
            let said = match text {
                Some(t) => t,
                None => old(run)@.full,
            };
            &&& is_error ==> final(run)@ == (RunView { run_error: Some(said), ..old(run)@ })
            &&& !is_error ==> final(run)@ == (RunView { final_text: Some(said), ..old(run)@ })
        }),
        action@ is Continue,
{
}

/// A line that says nothing changes nothing, and the run goes on.
pub proof fn law_other_lines_change_nothing(
    run: &mut Run,
    line: String,
    elapsed: Span,
    action: RunAction,
)
    requires
        call_ensures(Run::step, (run, RunEvent::Line { line, elapsed }), action),
        line_event(old(run)@.flavor, line@) is Other,
    ensures
        final(run)@ == old(run)@,
        action@ is Continue,
{
}

/// A line that a run is stepped through leaves it as having heard what the line says, and as having
/// been through that one line.
pub proof fn law_step_hears_the_line(run: &mut Run, line: String, elapsed: Span, action: RunAction)
    requires
        call_ensures(Run::step, (run, RunEvent::Line { line, elapsed }), action),
    ensures
        final(run)@ == old(run)@.heard(line_event(old(run)@.flavor, line@)),
        final(run)@ == old(run)@.after_lines(seq![line@]),
        final(run)@ == old(run)@.after(RunEventView::Line { line: line@, elapsed: elapsed@ }),
{
    let one = seq![line@];
    assert(one.drop_last() =~= Seq::<Seq<char>>::empty());
    assert(old(run)@.after_lines(one.drop_last()) == old(run)@);
}

/// A run that is free to go on reads a line, for no longer than the idle window and what is left of
/// the ceiling, whichever is shorter; at the ceiling it is aborted.
pub proof fn law_ready_run_reads_a_line(run: &mut Run, elapsed: Span, action: RunAction)
    requires
        call_ensures(Run::step, (run, RunEvent::Ready { elapsed }), action),
    ensures
        final(run)@ == old(run)@,
        elapsed@ < old(run)@.ceiling ==> (action@ matches RunActionView::ReadLine { within } && {
            &&& within <= old(run)@.idle
            &&& elapsed@ + within <= old(run)@.ceiling
            &&& within == old(run)@.idle || elapsed@ + within == old(run)@.ceiling
        }),
        elapsed@ >= old(run)@.ceiling ==> action@ == RunActionView::Abort(
            RunErrorView::CeilingExceeded { program: old(run)@.stream_json_program },
        ),
{
}

/// At the end of the output the child is waited for, until the ceiling; nothing gathered is lost.
pub proof fn law_child_is_reaped_after_its_output(run: &mut Run, elapsed: Span, action: RunAction)
    requires
        call_ensures(Run::step, (run, RunEvent::EndOfOutput { elapsed }), action),
    ensures
        final(run)@ == old(run)@,
        elapsed@ < old(run)@.ceiling ==> (action@ matches RunActionView::Reap { within } && elapsed@
            + within == old(run)@.ceiling),
        elapsed@ >= old(run)@.ceiling ==> action@ == RunActionView::Abort(
            RunErrorView::CeilingExceeded { program: old(run)@.program() },
        ),
{
}

/// A wait that runs out aborts the run: for the ceiling where that is reached, else for the idle
/// window.
pub proof fn law_time_out_aborts(run: &mut Run, elapsed: Span, action: RunAction)
    requires
        call_ensures(Run::step, (run, RunEvent::TimedOut { elapsed }), action),
    ensures
        final(run)@ == old(run)@,
        elapsed@ >= old(run)@.ceiling ==> action@ == RunActionView::Abort(
            RunErrorView::CeilingExceeded { program: old(run)@.program() },
        ),
        elapsed@ < old(run)@.ceiling ==> action@ == RunActionView::Abort(
            RunErrorView::IdleTimeout { program: old(run)@.program(), idle: old(run)@.idle },
        ),
{
}

/// Output that cannot be read aborts the run with the reason as it is.
pub proof fn law_read_failure_aborts(run: &mut Run, reason: String, action: RunAction)
    requires
        call_ensures(Run::step, (run, RunEvent::ReadFailed(reason)), action),
    ensures
        final(run)@ == old(run)@,
        action@ == RunActionView::Abort(
            RunErrorView::ReadFailed { program: old(run)@.program(), reason: reason@ },
        ),
{
}

/// A run goes on when its text was delivered, and is aborted when the receiver is gone.
pub proof fn law_receiver_decides(
    run: &mut Run,
    after_delivery: RunAction,
    other: &mut Run,
    after_loss: RunAction,
)
    requires
        call_ensures(Run::step, (run, RunEvent::Delivered), after_delivery),
        call_ensures(Run::step, (other, RunEvent::ReceiverGone), after_loss),
    ensures
        final(run)@ == old(run)@,
        after_delivery@ is Continue,
        final(other)@ == old(other)@,
        after_loss@ == RunActionView::Abort(RunErrorView::ReceiverDropped),
{
}

/// When the child has ended, a noted failure is reported whatever else was gathered and whatever the
/// exit code is; else a noted success is returned; else all the text that was accumulated; and where
/// there is none of these, the standard error output is read, until the ceiling. The exit code is
/// kept, and nothing else changes.
pub proof fn law_end_of_the_child(
    run: &mut Run,
    code: Option<i32>,
    elapsed: Span,
    text: Seq<char>,
    action: RunAction,
)
    requires
        call_ensures(Run::step, (run, RunEvent::Exited { code, elapsed }), action),
    ensures
        final(run)@ == (RunView { exit_code: code, ..old(run)@ }),
        old(run)@.run_error == Some(text) ==> action@ == RunActionView::Finish(
            Err(RunErrorView::Reported { program: old(run)@.program(), text }),
        ),
        old(run)@.run_error is None && old(run)@.final_text == Some(text) ==> action@
            == RunActionView::Finish(Ok(text)),
        old(run)@.run_error is None && old(run)@.final_text is None && old(run)@.full.len() > 0
            ==> action@ == RunActionView::Finish(Ok(old(run)@.full)),
        old(run)@.run_error is None && old(run)@.final_text is None && old(run)@.full.len() == 0
            && elapsed@ < old(run)@.ceiling ==> (action@ matches RunActionView::ReadStderr { within }
            && elapsed@ + within == old(run)@.ceiling),
        old(run)@.run_error is None && old(run)@.final_text is None && old(run)@.full.len() == 0
            && elapsed@ >= old(run)@.ceiling ==> action@ == RunActionView::Abort(
            RunErrorView::CeilingExceeded { program: old(run)@.program() },
        ),
{
}

/// A run without any result fails with the exit code that was kept and the start of what the child
/// wrote to its standard error output, trimmed: all of it, or 500 characters.
pub proof fn law_failure_without_result(run: &mut Run, output: String, action: RunAction)
    requires
        call_ensures(Run::step, (run, RunEvent::Stderr(output)), action),
    ensures
        final(run)@ == old(run)@,
        action@ matches RunActionView::Finish(Err(RunErrorView::NoResult { program, code, stderr }))
            && {
            &&& program == old(run)@.program()
            &&& code == old(run)@.exit_code
            &&& trimmed(output@).len() <= 500 ==> stderr == trimmed(output@)
            &&& trimmed(output@).len() > 500 ==> stderr == trimmed(output@).take(500)
        },
{
}

/// The excerpt of the standard error output is its start, trimmed: all of it, or 500 characters.
pub proof fn law_excerpt_is_the_start(output: &str, excerpt: String)
    requires
        call_ensures(stderr_excerpt, (output,), excerpt),
    ensures
        trimmed(output@).len() <= 500 ==> excerpt@ == trimmed(output@),
        trimmed(output@).len() > 500 ==> excerpt@ == trimmed(output@).take(500),
{
}

/// A run may happen in a directory, and in nothing else; what is no directory is named as it is
/// shown.
pub proof fn law_workdir_must_be_a_directory(is_dir: bool, shown: String, r: Result<(), RunError>)
    requires
        call_ensures(checked_workdir, (is_dir, shown), r),
    ensures
        is_dir ==> r is Ok,
        !is_dir ==> (r matches Err(e) && e@ == (RunErrorView::WorkdirMissing { dir: shown@ })),
{
}

/// The message of an error tells what it holds, as it is: the program, the reason, the directory,
/// the reported text, the exit code, and the standard error output where there is any.
pub proof fn law_message_tells_all(error: RunError, message: String)
    requires
        call_ensures(RunError::message, (&error,), message),
    ensures
        error@ is NoWorkdir ==> message@
            == "subprocess backend has no workdir (set comms.default_workdir or use set_workdir)"@,
        error@ matches RunErrorView::WorkdirMissing { dir } ==> message@
            == "workdir does not exist: "@ + dir,
        error@ is ChildLimitClosed ==> message@ == "child semaphore closed"@,
        error@ matches RunErrorView::SpawnFailed { program, reason } ==> message@
            == "failed to spawn "@ + program + ": "@ + reason,
        error@ is NoStdout ==> message@ == "no stdout"@,
        error@ matches RunErrorView::CeilingExceeded { program } ==> message@ == program
            + " run exceeded absolute ceiling"@,
        error@ matches RunErrorView::IdleTimeout { program, idle } ==> message@ == program
            + " produced no output for "@ + duration_text(idle) + " (idle timeout)"@,
        error@ matches RunErrorView::ReadFailed { program, reason } ==> message@
            == "error reading "@ + program + " output: "@ + reason,
        error@ is ReceiverDropped ==> message@ == "output receiver dropped"@,
        error@ matches RunErrorView::Reported { program, text } ==> message@ == program
            + " reported error: "@ + text,
        error@ matches RunErrorView::NoResult { program, code: None, stderr } ==> {
            &&& stderr.len() == 0 ==> message@ == program + " produced no result (exit "@ + "None"@
                + ")"@
            &&& stderr.len() > 0 ==> message@ == program + " produced no result (exit "@ + "None"@
                + ")"@ + ": "@ + stderr
        },
        error@ matches RunErrorView::NoResult { program, code: Some(c), stderr } ==> {
            &&& stderr.len() == 0 ==> message@ == program + " produced no result (exit "@
                + "Some("@ + decimal_int(c as int) + ")"@ + ")"@
            &&& stderr.len() > 0 ==> message@ == program + " produced no result (exit "@ + "Some("@
                + decimal_int(c as int) + ")"@ + ")"@ + ": "@ + stderr
        },
{
    if let RunErrorView::NoResult { program, code, stderr } = error@ {
        match code {
            Some(c) => {
                let told = program + " produced no result (exit "@ + "Some("@ + decimal_int(
                    c as int,
                ) + ")"@ + ")"@;
                if stderr.len() == 0 {
                    assert(message@ =~= told);
                } else {
                    assert(message@ =~= told + ": "@ + stderr);
                }
            },
            None => {
                let told = program + " produced no result (exit "@ + "None"@ + ")"@;
                if stderr.len() == 0 {
                    assert(message@ =~= told);
                } else {
                    assert(message@ =~= told + ": "@ + stderr);
                }
            },
        }
    }
}

/// The run after `events`, one after the other.
pub open spec fn stepped(run: RunView, events: Seq<RunEventView>) -> RunView
    decreases events.len(),
{
    if events.len() == 0 {
        run
    } else {
        stepped(run, events.drop_last()).after(events.last())
    }
}

/// Stepping a run through one more event after others is one more event of its course.
pub proof fn law_step_continues_the_course(
    start: RunView,
    events: Seq<RunEventView>,
    run: &mut Run,
    event: RunEvent,
    action: RunAction,
)
    requires
        old(run)@ == stepped(start, events),
        call_ensures(Run::step, (run, event), action),
    ensures
        final(run)@ == stepped(start, events.push(event@)),
        action@ == stepped(start, events).action(event@),
{
    assert(events.push(event@).drop_last() =~= events);
}

/// Whether an event is a line that reports an outcome, a failure or a success.
pub open spec fn reports(flavor: SubprocessKind, event: RunEventView, failed: bool) -> bool {
    event matches RunEventView::Line { line, .. } && (line_event(
        flavor,
        line,
    ) matches StreamEventView::Final { is_error, .. } && is_error == failed)
}

proof fn lemma_course_keeps_settings(run: RunView, events: Seq<RunEventView>)
    ensures
        stepped(run, events).flavor == run.flavor,
        stepped(run, events).stream_json_program == run.stream_json_program,
        stepped(run, events).ceiling == run.ceiling,
    decreases events.len(),
{
    if events.len() > 0 {
        lemma_course_keeps_settings(run, events.drop_last());
    }
}

proof fn lemma_last_outcome_stays(
    run: RunView,
    events: Seq<RunEventView>,
    i: int,
    line: Seq<char>,
    elapsed: nat,
    text: Seq<char>,
    failed: bool,
)
    requires
        0 <= i < events.len(),
        events[i] == (RunEventView::Line { line, elapsed }),
        line_event(run.flavor, line) == (StreamEventView::Final {
            text: Some(text),
            is_error: failed,
        }),
        forall|j: int| i < j < events.len() ==> !reports(run.flavor, #[trigger] events[j], failed),
    ensures
        failed ==> stepped(run, events).run_error == Some(text),
        !failed ==> stepped(run, events).final_text == Some(text),
    decreases events.len(),
{
    let fore = events.drop_last();
    lemma_course_keeps_settings(run, fore);
    if i < fore.len() {
        assert(fore[i] == events[i]);
        assert forall|j: int| i < j < fore.len() implies !reports(
            run.flavor,
            #[trigger] fore[j],
            failed,
        ) by {
            assert(fore[j] == events[j]);
        }
        lemma_last_outcome_stays(run, fore, i, line, elapsed, text, failed);
        assert(!reports(run.flavor, events[events.len() - 1], failed));
    }
}

proof fn lemma_no_outcome(run: RunView, events: Seq<RunEventView>, failed: bool)
    requires
        forall|j: int| 0 <= j < events.len() ==> !reports(run.flavor, #[trigger] events[j], failed),
    ensures
        failed ==> stepped(run, events).run_error == run.run_error,
        !failed ==> stepped(run, events).final_text == run.final_text,
    decreases events.len(),
{
    if events.len() > 0 {
        let fore = events.drop_last();
        assert forall|j: int| 0 <= j < fore.len() implies !reports(
            run.flavor,
            #[trigger] fore[j],
            failed,
        ) by {
            assert(fore[j] == events[j]);
        }
        lemma_course_keeps_settings(run, fore);
        lemma_no_outcome(run, fore, failed);
        assert(!reports(run.flavor, events[events.len() - 1], failed));
    }
}

/// Whatever happens to a run besides, and whatever text was said before or after, the last failure
/// that a line reports is what the run comes to when the child ends: an error with its text.
pub proof fn law_last_failure_is_reported(
    run: RunView,
    events: Seq<RunEventView>,
    i: int,
    line: Seq<char>,
    at: nat,
    text: Seq<char>,
    code: Option<i32>,
    elapsed: nat,
)
    requires
        0 <= i < events.len(),
        events[i] == (RunEventView::Line { line, elapsed: at }),
        line_event(run.flavor, line) == (StreamEventView::Final {
            text: Some(text),
            is_error: true,
        }),
        forall|j: int| i < j < events.len() ==> !reports(run.flavor, #[trigger] events[j], true),
    ensures
        stepped(run, events).action(RunEventView::Exited { code, elapsed })
            == RunActionView::Finish(
            Err(
                RunErrorView::Reported {
                    program: program_of(run.flavor, run.stream_json_program),
                    text,
                },
            ),
        ),
{
    lemma_last_outcome_stays(run, events, i, line, at, text, true);
    lemma_course_keeps_settings(run, events);
}

/// Where no line reports a failure, the last success that a line reports is what the run comes to
/// when the child ends: its text, whatever text was said before or after.
pub proof fn law_last_success_is_returned(
    run: RunView,
    events: Seq<RunEventView>,
    i: int,
    line: Seq<char>,
    at: nat,
    text: Seq<char>,
    code: Option<i32>,
    elapsed: nat,
)
    requires
        run.run_error is None,
        0 <= i < events.len(),
        events[i] == (RunEventView::Line { line, elapsed: at }),
        line_event(run.flavor, line) == (StreamEventView::Final {
            text: Some(text),
            is_error: false,
        }),
        forall|j: int| 0 <= j < events.len() ==> !reports(run.flavor, #[trigger] events[j], true),
        forall|j: int| i < j < events.len() ==> !reports(run.flavor, #[trigger] events[j], false),
    ensures
        stepped(run, events).action(RunEventView::Exited { code, elapsed })
            == RunActionView::Finish(Ok(text)),
{
    lemma_last_outcome_stays(run, events, i, line, at, text, false);
    lemma_no_outcome(run, events, true);
}

/// `part` is the text that an event says: that of a line that says text, and none for every other
/// event.
pub open spec fn says(flavor: SubprocessKind, event: RunEventView, part: Seq<char>) -> bool {
    match event {
        RunEventView::Line { line, .. } => match line_event(flavor, line) {
            StreamEventView::Text(t) => part == t,
            _ => part.len() == 0,
        },
        _ => part.len() == 0,
    }
}

/// The text that a run accumulates is all the text that its lines say, part after part and character
/// for character, whatever else happens in between; and where no line reports an outcome, it is
/// what the run comes to when the child ends.
pub proof fn law_said_text_is_returned(
    run: RunView,
    events: Seq<RunEventView>,
    parts: Seq<Seq<char>>,
    code: Option<i32>,
    elapsed: nat,
)
    requires
        parts.len() == events.len(),
        forall|j: int| 0 <= j < events.len() ==> says(run.flavor, #[trigger] events[j], parts[j]),
    ensures
        stepped(run, events).full == run.full + parts.flatten(),
        run.run_error is None && run.final_text is None && (run.full + parts.flatten()).len() > 0
            && (forall|j: int|
            0 <= j < events.len() ==> !reports(run.flavor, #[trigger] events[j], true) && !reports(
                run.flavor,
                events[j],
                false,
            )) ==> stepped(run, events).action(RunEventView::Exited { code, elapsed })
            == RunActionView::Finish(Ok(run.full + parts.flatten())),
    decreases events.len(),
{
    if events.len() == 0 {
        assert(parts.flatten() =~= Seq::<char>::empty());
        assert(run.full + parts.flatten() =~= run.full);
    } else {
        let fore = events.drop_last();
        let parts_before = parts.drop_last();
        let last = parts.last();
        assert forall|j: int| 0 <= j < fore.len() implies says(
            run.flavor,
            #[trigger] fore[j],
            parts_before[j],
        ) by {
            assert(fore[j] == events[j] && parts_before[j] == parts[j]);
        }
        law_said_text_is_returned(run, fore, parts_before, code, elapsed);
        lemma_course_keeps_settings(run, fore);
        assert(parts =~= parts_before.push(last));
        lemma_flatten_push(parts_before, last);
        assert(says(run.flavor, events[events.len() - 1], parts[events.len() - 1]));
        assert(stepped(run, events).full =~= run.full + parts.flatten());
    }
    if forall|j: int|
        0 <= j < events.len() ==> !reports(run.flavor, #[trigger] events[j], true) && !reports(
            run.flavor,
            events[j],
            false,
        ) {
        lemma_no_outcome(run, events, true);
        lemma_no_outcome(run, events, false);
    }
}

proof fn lemma_flatten_push(parts: Seq<Seq<char>>, last: Seq<char>)
    ensures
        parts.push(last).flatten() == parts.flatten() + last,
    decreases parts.len(),
{
    let all = parts.push(last);
    if parts.len() == 0 {
        assert(all.drop_first() =~= Seq::<Seq<char>>::empty());
        assert(all.drop_first().flatten() =~= Seq::<char>::empty());
        assert(all.flatten() =~= parts.flatten() + last);
    } else {
        lemma_flatten_push(parts.drop_first(), last);
        assert(all.drop_first() =~= parts.drop_first().push(last));
        assert(all.flatten() =~= parts.flatten() + last);
    }
}

/// A `result` line with `is_error` fails the run with its `result` text when the child ends,
/// whatever text was said, unless a later line reports another failure.
pub proof fn law_result_with_error_fails_the_run(
    run: RunView,
    events: Seq<RunEventView>,
    i: int,
    line: Seq<char>,
    at: nat,
    v: JsonTree,
    text: Seq<char>,
    code: Option<i32>,
    elapsed: nat,
)
    requires
        run.flavor == SubprocessKind::ClaudeCode,
        0 <= i < events.len(),
        events[i] == (RunEventView::Line { line, elapsed: at }),
        denotes(line, v),
        has_member(v, "type"@, JsonTree::Str("result"@)),
        has_member(v, "is_error"@, JsonTree::Bool(true)),
        has_member(v, "result"@, JsonTree::Str(text)),
        forall|j: int| i < j < events.len() ==> !reports(run.flavor, #[trigger] events[j], true),
    ensures
        stepped(run, events).action(RunEventView::Exited { code, elapsed })
            == RunActionView::Finish(
            Err(RunErrorView::Reported { program: run.stream_json_program, text }),
        ),
{
    reveal_strlit("stream_event");
    reveal_strlit("result");
    assert("stream_event"@.len() != "result"@.len());
    law_last_failure_is_reported(run, events, i, line, at, text, code, elapsed);
}

/// A run is told by the name of its program, whatever has happened to it: the one that it was made
/// with, or `opencode` for the other CLI.
pub proof fn law_run_goes_by_its_program(run: RunView)
    ensures
        run.flavor == SubprocessKind::ClaudeCode ==> run.program() == run.stream_json_program,
        run.flavor == SubprocessKind::OpenCode ==> run.program() == "opencode"@,
{
}

} // verus!
