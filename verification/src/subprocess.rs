//! Subprocess backends: how an agentic CLI is invoked for a turn.
//!
//! The subprocess owns its own agentic tool loop (file edits, bash, web). History is passed
//! statelessly each turn, rendered into the prompt; the CLI's own session persistence is not used.

use crate::history::{ChatMessage, Message};
use crate::run::{RunError, RunErrorView};
use crate::span::Span;
use crate::text::{decimal, decimal_value, law_decimal_of_any_number, str_eq, to_decimal, trim_end, trimmed_end, white_space};
use std::path::PathBuf;
use vstd::prelude::*;
use vstd::string::*;

verus! {

/// The concurrency cap where none was set.
pub const DEFAULT_CHILD_LIMIT: usize = 3;

/// How many subprocess children may run at once: what was asked for, but at least one; three where
/// nothing was asked for.
pub open spec fn permits_for(requested: Option<usize>) -> usize {
    match requested {
        Some(n) => if n < 1 {
            1
        } else {
            n
        },
        None => 3,
    }
}

/// How many subprocess children may run at once: what was asked for, but at least one; three where
/// nothing was asked for.
pub fn child_permits(requested: Option<usize>) -> (permits: usize)
    ensures
        permits == permits_for(requested),
{
    match requested {
        Some(n) => if n < 1 {
            1
        } else {
            n
        },
        None => DEFAULT_CHILD_LIMIT,
    }
}

/// The concurrency cap after one more use of it: a request for `Some(n)` children, or a run, which
/// asks for no number. The first use fixes the cap.
pub open spec fn cap_after(cap: Option<usize>, used: Option<usize>) -> Option<usize> {
    match cap {
        Some(permits) => Some(permits),
        None => Some(permits_for(used)),
    }
}

/// The concurrency cap after `uses` of it, one after the other.
pub open spec fn cap_after_all(cap: Option<usize>, uses: Seq<Option<usize>>) -> Option<usize>
    decreases uses.len(),
{
    if uses.len() == 0 {
        cap
    } else {
        cap_after(cap_after_all(cap, uses.drop_last()), uses.last())
    }
}

/// The cap is fixed once. Whatever requests and runs follow, a cap that is fixed stays; one that is
/// not is fixed by the first use: by a request for `n` at the larger of `n` and one, by a run at
/// three.
pub proof fn law_cap_is_fixed_once(cap: Option<usize>, uses: Seq<Option<usize>>)
    ensures
        cap is Some ==> cap_after_all(cap, uses) == cap,
        cap is None && uses.len() > 0 ==> cap_after_all(cap, uses) == Some(permits_for(uses[0])),
    decreases uses.len(),
{
    if uses.len() > 0 {
        law_cap_is_fixed_once(cap, uses.drop_last());
    }
}

/// The cap on concurrent subprocess children, set once.
pub struct ChildLimit {
    permits: Option<usize>,
}

impl View for ChildLimit {
    type V = Option<usize>;

    closed spec fn view(&self) -> Option<usize> {
        self.permits
    }
}

impl ChildLimit {
    /// A cap that is yet to be fixed.
    pub fn new() -> (limit: ChildLimit)
        ensures
            limit@ == None::<usize>,
    {
        ChildLimit { permits: None }
    }

    /// Asks for a cap of `n` children. Says whether that fixed the cap; one that was fixed before
    /// stays as it is.
    pub fn set_child_limit(&mut self, n: usize) -> (fixed: bool)
        ensures
            final(self)@ == cap_after(old(self)@, Some(n)),
            fixed == (old(self)@ is None),
    {
        if self.permits.is_some() {
            return false;
        }
        self.permits = Some(child_permits(Some(n)));
        true
    }

    /// The cap, which the first run fixes where nothing was asked for.
    pub fn permits(&mut self) -> (permits: usize)
        ensures
            final(self)@ == cap_after(old(self)@, None),
            final(self)@ == Some(permits),
    {
        match self.permits {
            Some(permits) => permits,
            None => {
                let permits: usize = child_permits(None);
                self.permits = Some(permits);
                permits
            },
        }
    }
}

/// Whether a message instructs the model, rather than being part of the conversation.
pub open spec fn is_system(m: Message) -> bool {
    m.role == "system"@
}

/// The system messages among `messages`, joined by blank lines.
pub open spec fn system_text(messages: Seq<Message>) -> Seq<char>
    decreases messages.len(),
{
    if messages.len() == 0 {
        seq![]
    } else {
        let before = system_text(messages.drop_last());
        let last = messages.last();
        if !is_system(last) {
            before
        } else if before.len() == 0 {
            last.content
        } else {
            before + "\n\n"@ + last.content
        }
    }
}

/// The messages that are no system messages.
pub open spec fn conversation(messages: Seq<Message>) -> Seq<Message>
    decreases messages.len(),
{
    if messages.len() == 0 {
        seq![]
    } else if is_system(messages.last()) {
        conversation(messages.drop_last())
    } else {
        conversation(messages.drop_last()).push(messages.last())
    }
}

/// The name of a speaker in a transcript.
pub open spec fn speaker(m: Message) -> Seq<char> {
    if m.role == "assistant"@ {
        "Assistant"@
    } else {
        "User"@
    }
}

/// A labeled transcript of `turns`, a blank line after each.
pub open spec fn transcript(turns: Seq<Message>) -> Seq<char>
    decreases turns.len(),
{
    if turns.len() == 0 {
        seq![]
    } else {
        transcript(turns.drop_last()) + speaker(turns.last()) + ": "@ + turns.last().content
            + "\n\n"@
    }
}

/// The system prompt that `messages` give, where they give any.
pub open spec fn system_prompt_of(messages: Seq<Message>) -> Option<Seq<char>> {
    if system_text(messages).len() == 0 {
        None
    } else {
        Some(system_text(messages))
    }
}

/// The user prompt that `messages` give: the text of a single turn, or the transcript of several.
pub open spec fn user_prompt_of(messages: Seq<Message>) -> Seq<char> {
    let turns = conversation(messages);
    if turns.len() == 1 {
        turns[0].content
    } else {
        trimmed_end(transcript(turns))
    }
}

fn render_transcript(turns: &Vec<&ChatMessage>) -> (out: String)
    ensures
        out@ == transcript(turns.deep_view()),
{
    let mut out: String = String::new();
    let ghost all = turns.deep_view();
    let mut i: usize = 0;
    while i < turns.len()
        invariant
            i <= turns@.len(),
            all == turns.deep_view(),
            out@ == transcript(all.take(i as int)),
        decreases turns.len() - i,
    {
        let m: &ChatMessage = turns[i];
        out.append(
            if str_eq(m.role.as_str(), "assistant") {
                "Assistant"
            } else {
                "User"
            },
        );
        out.append(": ");
        out.append(m.content.as_str());
        out.append("\n\n");
        proof {
            assert(all.take(i + 1).drop_last() =~= all.take(i as int));
            assert(all.take(i + 1).last() == m@);
        }
        i = i + 1;
    }
    assert(all.take(i as int) =~= all);
    out
}

/// Renders a message list into a (system prompt, user prompt) pair for the CLI. System-role
/// messages become the appended system prompt; the rest are rendered as a labeled transcript (or,
/// for a single turn, just that message's text).
pub fn render_prompt(messages: &[ChatMessage]) -> (r: (Option<String>, String))
    ensures
        r.0.deep_view() == system_prompt_of(messages.deep_view()),
        r.1@ == user_prompt_of(messages.deep_view()),
{
    let mut sys: String = String::new();
    let mut convo: Vec<&ChatMessage> = Vec::new();
    let ghost all = messages.deep_view();
    let mut i: usize = 0;
    while i < messages.len()
        invariant
            i <= messages@.len(),
            all == messages.deep_view(),
            sys@ == system_text(all.take(i as int)),
            convo.deep_view() == conversation(all.take(i as int)),
        decreases messages.len() - i,
    {
        let m: &ChatMessage = &messages[i];
        proof {
            assert(all.take(i + 1).drop_last() =~= all.take(i as int));
            assert(all.take(i + 1).last() == m@);
        }
        if str_eq(m.role.as_str(), "system") {
            if !sys.as_str().is_empty() {
                sys.append("\n\n");
            }
            sys.append(m.content.as_str());
            proof {
                assert(sys@ =~= system_text(all.take(i + 1)));
            }
        } else {
            let ghost before = convo.deep_view();
            convo.push(m);
            proof {
                assert(convo.deep_view() =~= before.push(m@));
            }
        }
        i = i + 1;
    }
    assert(all.take(i as int) =~= all);
    let prompt: String = if convo.len() == 1 {
        convo[0].content.clone()
    } else {
        let out: String = render_transcript(&convo);
        trim_end(out.as_str()).to_string()
    };
    if sys.as_str().is_empty() {
        (None, prompt)
    } else {
        (Some(sys), prompt)
    }
}

/// A system message changes nothing about the user prompt, wherever it stands, and any other
/// message changes nothing about the system prompt.
pub proof fn law_system_and_turns_apart(before: Seq<Message>, m: Message, after: Seq<Message>)
    ensures
        is_system(m) ==> user_prompt_of(before.push(m) + after) == user_prompt_of(before + after),
        !is_system(m) ==> system_prompt_of(before.push(m) + after) == system_prompt_of(
            before + after,
        ),
{
    lemma_apart(before, m, after);
}

proof fn lemma_apart(before: Seq<Message>, m: Message, after: Seq<Message>)
    ensures
        is_system(m) ==> conversation(before.push(m) + after) == conversation(before + after),
        !is_system(m) ==> system_text(before.push(m) + after) == system_text(before + after),
    decreases after.len(),
{
    if after.len() == 0 {
        assert(before.push(m) + after =~= before.push(m));
        assert(before.push(m).drop_last() =~= before);
        assert(before + after =~= before);
    } else {
        lemma_apart(before, m, after.drop_last());
        assert((before.push(m) + after).drop_last() =~= before.push(m) + after.drop_last());
        assert((before + after).drop_last() =~= before + after.drop_last());
        assert((before.push(m) + after).last() == after.last());
        assert((before + after).last() == after.last());
    }
}

/// Which agentic CLI a backend runs.
#[derive(Debug, Clone, Copy, PartialEq, Eq, Structural)]
pub enum SubprocessKind {
    ClaudeCode,
    OpenCode,
}

/// The program that a kind of CLI is run as, where the CLI with `stream-json` output is run as
/// `stream_json_program`.
pub open spec fn program_of(kind: SubprocessKind, stream_json_program: Seq<char>) -> Seq<char> {
    match kind {
        SubprocessKind::ClaudeCode => stream_json_program,
        SubprocessKind::OpenCode => "opencode"@,
    }
}

impl SubprocessKind {
    /// The program that is run, where the CLI with `stream-json` output is run as
    /// `stream_json_program`.
    pub fn program(self, stream_json_program: &str) -> (program: String)
        ensures
            program@ == program_of(self, stream_json_program@),
    {
        match self {
            SubprocessKind::ClaudeCode => stream_json_program.to_string(),
            SubprocessKind::OpenCode => "opencode".to_string(),
        }
    }
}

/// Lifecycle limits for one subprocess run.
#[derive(Debug, Clone)]
pub struct ProcLimits {
    /// Kill if no output line arrives within this window.
    pub idle: Span,
    /// Hard wall-clock kill regardless of output.
    pub ceiling: Span,
    /// `--max-budget-usd` (cost guard), as the number to pass; `None` = unset.
    pub max_budget_usd: Option<String>,
    /// `--max-turns` cap; `None` = unset.
    pub max_turns: Option<u32>,
}

/// What [`ProcLimits`] hold.
pub struct Limits {
    pub idle: nat,
    pub ceiling: nat,
    pub max_budget_usd: Option<Seq<char>>,
    pub max_turns: Option<u32>,
}

impl View for ProcLimits {
    type V = Limits;

    open spec fn view(&self) -> Limits {
        Limits {
            idle: self.idle@,
            ceiling: self.ceiling@,
            max_budget_usd: self.max_budget_usd.deep_view(),
            max_turns: self.max_turns,
        }
    }
}

/// One argument of a command line.
pub enum CliArg {
    Text(String),
    Path(PathBuf),
}

/// What a [`CliArg`] holds.
pub enum Arg {
    Text(Seq<char>),
    Path(PathBuf),
}

impl View for CliArg {
    type V = Arg;

    open spec fn view(&self) -> Arg {
        match self {
            CliArg::Text(t) => Arg::Text(t@),
            CliArg::Path(p) => Arg::Path(*p),
        }
    }
}

impl DeepView for CliArg {
    type V = Arg;

    open spec fn deep_view(&self) -> Arg {
        self@
    }
}

/// A command to spawn: the program, its arguments, and the environment variables to set.
pub struct CommandLine {
    pub program: String,
    pub args: Vec<CliArg>,
    pub env: Vec<(&'static str, String)>,
}

/// A backend that runs an agentic CLI.
pub struct SubprocessBackend {
    flavor: SubprocessKind,
    stream_json_program: String,
    model: String,
    base_url: String,
    auth_token: Option<String>,
    workdir: Option<PathBuf>,
    extra_dirs: Vec<PathBuf>,
    permission_mode: String,
    limits: ProcLimits,
}

/// What a [`SubprocessBackend`] was made with.
pub struct Backend {
    pub flavor: SubprocessKind,
    /// What the CLI with `stream-json` output is run as.
    pub stream_json_program: Seq<char>,
    /// Display/log model name; also passed via `--model`.
    pub model: Seq<char>,
    /// The gateway that the spawned process talks to; empty for none.
    pub base_url: Seq<char>,
    /// The gateway key; `None` falls back to the CLI's own auth.
    pub auth_token: Option<Seq<char>>,
    /// Where runs happen by default.
    pub workdir: Option<PathBuf>,
    /// Extra reachable roots, such as known projects.
    pub extra_dirs: Seq<PathBuf>,
    /// `--permission-mode` (such as `acceptEdits`, `bypassPermissions`).
    pub permission_mode: Seq<char>,
    pub limits: Limits,
}

impl View for SubprocessBackend {
    type V = Backend;

    closed spec fn view(&self) -> Backend {
        Backend {
            flavor: self.flavor,
            stream_json_program: self.stream_json_program@,
            model: self.model@,
            base_url: self.base_url@,
            auth_token: self.auth_token.deep_view(),
            workdir: self.workdir,
            extra_dirs: self.extra_dirs@,
            permission_mode: self.permission_mode@,
            limits: self.limits@,
        }
    }
}

/// A flag with its value.
pub open spec fn flag(name: Seq<char>, value: Seq<char>) -> Seq<Arg> {
    seq![Arg::Text(name), Arg::Text(value)]
}

/// A flag with its value, where there is one.
pub open spec fn optional_flag(name: Seq<char>, value: Option<Seq<char>>) -> Seq<Arg> {
    match value {
        Some(v) => flag(name, v),
        None => seq![],
    }
}

/// The arguments that make `dirs` reachable.
pub open spec fn add_dirs(dirs: Seq<PathBuf>) -> Seq<Arg>
    decreases dirs.len(),
{
    if dirs.len() == 0 {
        seq![]
    } else {
        add_dirs(dirs.drop_last()) + seq![Arg::Text("--add-dir"@), Arg::Path(dirs.last())]
    }
}

impl Backend {
    /// The arguments of a run with streamed JSON output.
    pub open spec fn stream_json_args(self, system: Option<Seq<char>>, prompt: Seq<char>) -> Seq<
        Arg,
    > {
        seq![Arg::Text("--print"@)] + flag("--output-format"@, "stream-json"@) + seq![
            Arg::Text("--verbose"@),
            Arg::Text("--include-partial-messages"@),
        ] + flag("--permission-mode"@, self.permission_mode) + flag("--model"@, self.model)
            + optional_flag("--append-system-prompt"@, system) + add_dirs(self.extra_dirs)
            + optional_flag("--max-budget-usd"@, self.limits.max_budget_usd) + optional_flag(
            "--max-turns"@,
            match self.limits.max_turns {
                Some(n) => Some(decimal(n as nat)),
                None => None,
            },
        ) + seq![Arg::Text(prompt)]
    }

    /// The arguments of a run that prints one JSON event per line. There is no system prompt flag,
    /// so that the system prompt goes in front of the message.
    pub open spec fn run_json_args(self, system: Option<Seq<char>>, prompt: Seq<char>) -> Seq<Arg> {
        seq![Arg::Text("run"@)] + flag("--format"@, "json"@) + flag("--model"@, self.model) + (
        if self.permission_mode == "bypassPermissions"@ {
            seq![Arg::Text("--dangerously-skip-permissions"@)]
        } else {
            seq![]
        }) + seq![
            Arg::Text(
                match system {
                    Some(s) => s + "\n\n"@ + prompt,
                    None => prompt,
                },
            ),
        ]
    }

    /// The arguments of a run.
    pub open spec fn args(self, system: Option<Seq<char>>, prompt: Seq<char>) -> Seq<Arg> {
        match self.flavor {
            SubprocessKind::ClaudeCode => self.stream_json_args(system, prompt),
            SubprocessKind::OpenCode => self.run_json_args(system, prompt),
        }
    }

    /// The environment variables of a run: the gateway and its key, where they are given to a CLI
    /// that is not configured on its own.
    pub open spec fn env(self) -> Seq<(Seq<char>, Seq<char>)> {
        match self.flavor {
            SubprocessKind::ClaudeCode => (if self.base_url.len() == 0 {
                seq![]
            } else {
                seq![("ANTHROPIC_BASE_URL"@, self.base_url)]
            }) + (match self.auth_token {
                Some(token) => seq![("ANTHROPIC_AUTH_TOKEN"@, token)],
                None => seq![],
            }),
            SubprocessKind::OpenCode => seq![],
        }
    }
}

fn push_text(args: &mut Vec<CliArg>, text: &str)
    ensures
        final(args).deep_view() == old(args).deep_view().push(Arg::Text(text@)),
{
    args.push(CliArg::Text(text.to_string()));
    assert(args.deep_view() =~= old(args).deep_view().push(Arg::Text(text@)));
}

fn push_flag(args: &mut Vec<CliArg>, name: &str, value: &str)
    ensures
        final(args).deep_view() == old(args).deep_view() + flag(name@, value@),
{
    push_text(args, name);
    push_text(args, value);
    assert(args.deep_view() =~= old(args).deep_view() + flag(name@, value@));
}

fn push_dirs(args: &mut Vec<CliArg>, dirs: &Vec<PathBuf>)
    ensures
        final(args).deep_view() == old(args).deep_view() + add_dirs(dirs@),
{
    let mut i: usize = 0;
    assert(args.deep_view() =~= old(args).deep_view() + add_dirs(dirs@.take(0)));
    while i < dirs.len()
        invariant
            i <= dirs@.len(),
            args.deep_view() == old(args).deep_view() + add_dirs(dirs@.take(i as int)),
        decreases dirs.len() - i,
    {
        push_text(args, "--add-dir");
        let ghost before = args.deep_view();
        args.push(CliArg::Path(dirs[i].clone()));
        proof {
            assert(args.deep_view() =~= before.push(Arg::Path(dirs@[i as int])));
            assert(dirs@.take(i + 1).drop_last() =~= dirs@.take(i as int));
            assert(args.deep_view() =~= old(args).deep_view() + add_dirs(dirs@.take(i + 1)));
        }
        i = i + 1;
    }
    assert(dirs@.take(i as int) =~= dirs@);
}

impl SubprocessBackend {
    /// A backend that runs the given CLI with the given settings.
    pub fn new(
        flavor: SubprocessKind,
        stream_json_program: String,
        model: String,
        base_url: String,
        auth_token: Option<String>,
        workdir: Option<PathBuf>,
        extra_dirs: Vec<PathBuf>,
        permission_mode: String,
        limits: ProcLimits,
    ) -> (backend: SubprocessBackend)
        ensures
            backend@ == (Backend {
                flavor,
                stream_json_program: stream_json_program@,
                model: model@,
                base_url: base_url@,
                auth_token: auth_token.deep_view(),
                workdir,
                extra_dirs: extra_dirs@,
                permission_mode: permission_mode@,
                limits: limits@,
            }),
    {
        SubprocessBackend {
            flavor,
            stream_json_program,
            model,
            base_url,
            auth_token,
            workdir,
            extra_dirs,
            permission_mode,
            limits,
        }
    }

    /// The model that runs ask for.
    pub fn model(&self) -> (model: &str)
        ensures
            model@ == self@.model,
    {
        self.model.as_str()
    }

    /// Which CLI is run.
    pub fn flavor(&self) -> (flavor: SubprocessKind)
        ensures
            flavor == self@.flavor,
    {
        self.flavor
    }

    /// What the CLI with `stream-json` output is run as.
    pub fn stream_json_program(&self) -> (program: &str)
        ensures
            program@ == self@.stream_json_program,
    {
        self.stream_json_program.as_str()
    }

    /// The program that is run.
    pub fn program(&self) -> (program: String)
        ensures
            program@ == program_of(self@.flavor, self@.stream_json_program),
    {
        self.flavor.program(self.stream_json_program.as_str())
    }

    /// The lifecycle limits of a run.
    pub fn limits(&self) -> (limits: &ProcLimits)
        ensures
            limits@ == self@.limits,
    {
        &self.limits
    }

    /// Where a run happens: in the room's own workdir where it has one, else in the configured
    /// one.
    pub fn workdir(&self, room: Option<PathBuf>) -> (dir: Result<PathBuf, RunError>)
        ensures
            match (room, self@.workdir) {
                (Some(path), _) => dir == Ok::<PathBuf, RunError>(path),
                (None, Some(path)) => dir == Ok::<PathBuf, RunError>(path),
                (None, None) => dir matches Err(e) && e@ == RunErrorView::NoWorkdir,
            },
    {
        match room {
            Some(path) => Ok(path),
            None => match &self.workdir {
                Some(path) => Ok(path.clone()),
                None => Err(RunError::NoWorkdir),
            },
        }
    }

    fn stream_json_command(&self, system: &Option<String>, prompt: &str) -> (args: Vec<CliArg>)
        ensures
            args.deep_view() == self@.stream_json_args(system.deep_view(), prompt@),
    {
        let mut args: Vec<CliArg> = Vec::new();
        push_text(&mut args, "--print");
        push_flag(&mut args, "--output-format", "stream-json");
        push_text(&mut args, "--verbose");
        push_text(&mut args, "--include-partial-messages");
        push_flag(&mut args, "--permission-mode", self.permission_mode.as_str());
        push_flag(&mut args, "--model", self.model.as_str());
        if let Some(sys) = system {
            push_flag(&mut args, "--append-system-prompt", sys.as_str());
        }
        push_dirs(&mut args, &self.extra_dirs);
        if let Some(b) = &self.limits.max_budget_usd {
            push_flag(&mut args, "--max-budget-usd", b.as_str());
        }
        if let Some(t) = self.limits.max_turns {
            let turns: String = to_decimal(t as u64);
            push_flag(&mut args, "--max-turns", turns.as_str());
        }
        push_text(&mut args, prompt);
        proof {
            assert(args.deep_view() =~= self@.stream_json_args(system.deep_view(), prompt@));
        }
        args
    }

    fn run_json_command(&self, system: &Option<String>, prompt: &str) -> (args: Vec<CliArg>)
        ensures
            args.deep_view() == self@.run_json_args(system.deep_view(), prompt@),
    {
        let mut args: Vec<CliArg> = Vec::new();
        push_text(&mut args, "run");
        push_flag(&mut args, "--format", "json");
        push_flag(&mut args, "--model", self.model.as_str());
        if str_eq(self.permission_mode.as_str(), "bypassPermissions") {
            push_text(&mut args, "--dangerously-skip-permissions");
        }
        let message: String = match system {
            Some(sys) => {
                let mut message: String = sys.clone();
                message.append("\n\n");
                message.append(prompt);
                message
            },
            None => prompt.to_string(),
        };
        push_text(&mut args, message.as_str());
        proof {
            assert(args.deep_view() =~= self@.run_json_args(system.deep_view(), prompt@));
        }
        args
    }

    /// The command that answers a turn with the given system prompt and user prompt.
    pub fn command(&self, system: &Option<String>, prompt: &str) -> (command: CommandLine)
        ensures
            command.program@ == program_of(self@.flavor, self@.stream_json_program),
            command.args.deep_view() == self@.args(system.deep_view(), prompt@),
            command.env.deep_view() == self@.env(),
    {
        let mut env: Vec<(&'static str, String)> = Vec::new();
        let args: Vec<CliArg> = match self.flavor {
            SubprocessKind::ClaudeCode => {
                if !self.base_url.as_str().is_empty() {
                    env.push(("ANTHROPIC_BASE_URL", self.base_url.clone()));
                }
                if let Some(token) = &self.auth_token {
                    env.push(("ANTHROPIC_AUTH_TOKEN", token.clone()));
                }
                self.stream_json_command(system, prompt)
            },
            SubprocessKind::OpenCode => self.run_json_command(system, prompt),
        };
        proof {
            assert(env.deep_view() =~= self@.env());
        }
        CommandLine { program: self.program(), args, env }
    }

    /// The command that answers `messages`.
    pub fn command_for(&self, messages: &[ChatMessage]) -> (command: CommandLine)
        ensures
            command.program@ == program_of(self@.flavor, self@.stream_json_program),
            command.args.deep_view() == self@.args(
                system_prompt_of(messages.deep_view()),
                user_prompt_of(messages.deep_view()),
            ),
            command.env.deep_view() == self@.env(),
    {
        let (system, prompt) = render_prompt(messages);
        self.command(&system, prompt.as_str())
    }
}

/// The last argument of a run ends with the user prompt, and is the user prompt alone where there
/// is no system prompt.
pub proof fn law_prompt_comes_last(b: Backend, system: Option<Seq<char>>, prompt: Seq<char>)
    ensures
        b.args(system, prompt).last() matches Arg::Text(t) && prompt.is_suffix_of(t),
        system is None ==> b.args(system, prompt).last() == Arg::Text(prompt),
{
    match b.flavor {
        SubprocessKind::ClaudeCode => {
            assert(prompt =~= prompt.subrange(0, prompt.len() as int));
        },
        SubprocessKind::OpenCode => {
            match system {
                Some(s) => {
                    let t = s + "\n\n"@ + prompt;
                    assert(prompt =~= t.subrange(t.len() - prompt.len(), t.len() as int));
                },
                None => {
                    assert(prompt =~= prompt.subrange(0, prompt.len() as int));
                },
            }
        },
    }
}

/// The cap on children is the number asked for, but at least one, and three
/// where nothing was asked for; whichever of a request and a run comes first fixes it, and
/// a later request is refused and changes nothing.
pub proof fn law_first_use_fixes_the_cap(
    fresh: ChildLimit,
    limit: &mut ChildLimit,
    n: usize,
    fixed: bool,
    run: &mut ChildLimit,
    permits: usize,
)
    requires
        call_ensures(ChildLimit::new, (), fresh),
        call_ensures(ChildLimit::set_child_limit, (limit, n), fixed),
        call_ensures(ChildLimit::permits, (run,), permits),
    ensures
        fresh@ is None,
        old(limit)@ is None && n >= 1 ==> fixed && final(limit)@ == Some(n),
        old(limit)@ is None && n == 0 ==> fixed && final(limit)@ == Some(1usize),
        old(limit)@ is Some ==> !fixed && final(limit)@ == old(limit)@,
        old(run)@ is None ==> permits == 3,
        old(run)@ matches Some(cap) ==> permits == cap,
        final(run)@ == Some(permits),
{
}

/// However many permits are asked for, there is at least one, and a number of at least one is given
/// as it is; three are given where no number is asked for.
pub proof fn law_permits_are_at_least_one(requested: Option<usize>, permits: usize)
    requires
        call_ensures(child_permits, (requested,), permits),
    ensures
        permits >= 1,
        requested matches Some(n) && n >= 1 ==> permits == requested->0,
        requested == Some(0usize) ==> permits == 1,
        requested is None ==> permits == 3,
        permits == permits_for(requested),
{
}

proof fn lemma_pushed(messages: Seq<Message>, m: Message)
    ensures
        messages.push(m).drop_last() == messages,
        messages.push(m).last() == m,
{
    assert(messages.push(m).drop_last() =~= messages);
}

/// One more system message goes to the end of the system prompt, behind a blank line where there is
/// one already; any other message leaves the system prompt as it is, and no message gives none.
pub proof fn law_system_messages_make_the_system_prompt(messages: Seq<Message>, m: Message)
    ensures
        system_prompt_of(seq![]) is None,
        m.role != "system"@ ==> system_prompt_of(messages.push(m)) == system_prompt_of(messages),
        m.role == "system"@ ==> match system_prompt_of(messages) {
            Some(system) => system_prompt_of(messages.push(m)) == Some(
                system + "\n\n"@ + m.content,
            ),
            None => if m.content.len() == 0 {
                system_prompt_of(messages.push(m)) is None
            } else {
                system_prompt_of(messages.push(m)) == Some(m.content)
            },
        },
{
    lemma_pushed(messages, m);
}

/// The turns of a conversation are all the messages that are no system messages, in their order.
pub proof fn law_turns_are_the_other_messages(messages: Seq<Message>)
    ensures
        conversation(messages) == messages.filter(|m: Message| m.role != "system"@),
    decreases messages.len(),
{
    reveal(Seq::filter);
    if messages.len() > 0 {
        law_turns_are_the_other_messages(messages.drop_last());
    }
    assert(conversation(messages) =~= messages.filter(|m: Message| m.role != "system"@));
}

/// A single turn is the user prompt, character for character, whatever system messages stand around
/// it; without any turn the user prompt is empty.
pub proof fn law_single_turn_is_the_prompt(before: Seq<Message>, m: Message, after: Seq<Message>)
    requires
        m.role != "system"@,
        forall|i: int| 0 <= i < before.len() ==> (#[trigger] before[i]).role == "system"@,
        forall|i: int| 0 <= i < after.len() ==> (#[trigger] after[i]).role == "system"@,
    ensures
        user_prompt_of(before.push(m) + after) == m.content,
        user_prompt_of(before) == Seq::<char>::empty(),
    decreases after.len(),
{
    lemma_no_turns(before);
    assert(transcript(conversation(before)) =~= Seq::<char>::empty());
    if after.len() == 0 {
        assert(before.push(m) + after =~= before.push(m));
        lemma_pushed(before, m);
        assert(conversation(before.push(m)) =~= seq![m]);
    } else {
        let fewer = after.drop_last();
        assert forall|i: int| 0 <= i < fewer.len() implies (#[trigger] fewer[i]).role
            == "system"@ by {
            assert(fewer[i] == after[i]);
        }
        law_single_turn_is_the_prompt(before, m, fewer);
        let all = before.push(m) + after;
        assert(all.drop_last() =~= before.push(m) + fewer);
        assert(all.last() == after[after.len() - 1]);
    }
}

proof fn lemma_no_turns(messages: Seq<Message>)
    requires
        forall|i: int| 0 <= i < messages.len() ==> (#[trigger] messages[i]).role == "system"@,
    ensures
        conversation(messages) == Seq::<Message>::empty(),
    decreases messages.len(),
{
    if messages.len() > 0 {
        let fewer = messages.drop_last();
        assert forall|i: int| 0 <= i < fewer.len() implies (#[trigger] fewer[i]).role
            == "system"@ by {
            assert(fewer[i] == messages[i]);
        }
        assert(messages[messages.len() - 1].role == "system"@);
        lemma_no_turns(fewer);
    }
}

/// Each further turn goes to the end of the transcript with its speaker in front of it, its content
/// as it is and a blank line behind it; a prompt of several turns is the transcript without the
/// white space at its end, so that the last turn ends the prompt with all of its content where that
/// does not end with white space.
pub proof fn law_turns_make_the_transcript(turns: Seq<Message>, m: Message, messages: Seq<Message>)
    ensures
        transcript(seq![]) == Seq::<char>::empty(),
        m.role == "assistant"@ ==> transcript(turns.push(m)) == transcript(turns) + "Assistant"@
            + ": "@ + m.content + "\n\n"@,
        m.role != "assistant"@ ==> transcript(turns.push(m)) == transcript(turns) + "User"@ + ": "@
            + m.content + "\n\n"@,
        conversation(messages).len() > 1 ==> user_prompt_of(messages) == trimmed_end(
            transcript(conversation(messages)),
        ),
        conversation(messages) == turns.push(m) && turns.len() > 0 && m.content.len() > 0
            && !white_space(m.content.last()) ==> user_prompt_of(messages) == transcript(turns) + (
        if m.role == "assistant"@ {
            "Assistant: "@
        } else {
            "User: "@
        }) + m.content,
{
    lemma_pushed(turns, m);
    reveal_strlit("Assistant");
    reveal_strlit("User");
    reveal_strlit(": ");
    reveal_strlit("Assistant: ");
    reveal_strlit("User: ");
    reveal_strlit("\n\n");
    let label = if m.role == "assistant"@ {
        "Assistant: "@
    } else {
        "User: "@
    };
    assert("Assistant"@ + ": "@ =~= "Assistant: "@);
    assert("User"@ + ": "@ =~= "User: "@);
    let kept = transcript(turns) + label + m.content;
    assert(transcript(turns.push(m)) =~= kept + "\n\n"@);
    if m.content.len() > 0 && !white_space(m.content.last()) {
        let all = kept + "\n\n"@;
        assert(kept.last() == m.content.last());
        assert(all.drop_last() =~= kept.push('\n'));
        assert(kept.push('\n').drop_last() =~= kept);
        assert(trimmed_end(kept) == kept);
        assert(trimmed_end(kept.push('\n')) == kept);
        assert(trimmed_end(all) == kept);
    }
}

/// What is rendered for the CLI is the system prompt and the user prompt of the messages.
pub proof fn law_rendering_gives_both_prompts(messages: &[ChatMessage], r: (Option<String>, String))
    requires
        call_ensures(render_prompt, (messages,), r),
    ensures
        r.0.deep_view() == system_prompt_of(messages.deep_view()),
        r.1@ == user_prompt_of(messages.deep_view()),
{
}

/// The program is the one that the backend was made with, or `opencode` for the other CLI.
pub proof fn law_program_goes_by_the_kind(kind: SubprocessKind, name: &str, program: String)
    requires
        call_ensures(SubprocessKind::program, (kind, name), program),
    ensures
        kind == SubprocessKind::ClaudeCode ==> program@ == name@,
        kind == SubprocessKind::OpenCode ==> program@ == "opencode"@,
        program@ == program_of(kind, name@),
{
}

/// A backend keeps what it was made with.
pub proof fn law_backend_keeps_its_settings(
    flavor: SubprocessKind,
    stream_json_program: String,
    model: String,
    base_url: String,
    auth_token: Option<String>,
    workdir: Option<PathBuf>,
    extra_dirs: Vec<PathBuf>,
    permission_mode: String,
    limits: ProcLimits,
    backend: SubprocessBackend,
    named: &str,
    kind: SubprocessKind,
    run_as: String,
    kept: &ProcLimits,
)
    requires
        call_ensures(
            SubprocessBackend::new,
            (
                flavor,
                stream_json_program,
                model,
                base_url,
                auth_token,
                workdir,
                extra_dirs,
                permission_mode,
                limits,
            ),
            backend,
        ),
        call_ensures(SubprocessBackend::model, (&backend,), named),
        call_ensures(SubprocessBackend::flavor, (&backend,), kind),
        call_ensures(SubprocessBackend::program, (&backend,), run_as),
        call_ensures(SubprocessBackend::limits, (&backend,), kept),
    ensures
        named@ == model@,
        kind == flavor,
        flavor == SubprocessKind::ClaudeCode ==> run_as@ == stream_json_program@,
        flavor == SubprocessKind::OpenCode ==> run_as@ == "opencode"@,
        kept.idle@ == limits.idle@,
        kept.ceiling@ == limits.ceiling@,
        kept.max_turns == limits.max_turns,
        kept.max_budget_usd.deep_view() == limits.max_budget_usd.deep_view(),
{
}

/// A run happens in the room's own workdir where the room has one, else in the one of the backend,
/// and fails where there is neither.
pub proof fn law_workdir_of_the_room_wins(
    backend: SubprocessBackend,
    room: Option<PathBuf>,
    dir: Result<PathBuf, RunError>,
)
    requires
        call_ensures(SubprocessBackend::workdir, (&backend, room), dir),
    ensures
        room matches Some(path) ==> dir == Ok::<PathBuf, RunError>(path),
        room is None && backend@.workdir is Some ==> dir == Ok::<PathBuf, RunError>(
            backend@.workdir->0,
        ),
        room is None && backend@.workdir is None ==> (dir matches Err(e) && e@
            == RunErrorView::NoWorkdir),
{
}

/// With no optional setting, the arguments of a run with streamed JSON output are these, whatever
/// the permission mode, the model and the prompt are.
pub proof fn law_stream_json_run_without_options(b: Backend, prompt: Seq<char>)
    requires
        b.flavor == SubprocessKind::ClaudeCode,
        b.extra_dirs.len() == 0,
        b.limits.max_budget_usd is None,
        b.limits.max_turns is None,
    ensures
        b.args(None, prompt) == seq![
            Arg::Text("--print"@),
            Arg::Text("--output-format"@),
            Arg::Text("stream-json"@),
            Arg::Text("--verbose"@),
            Arg::Text("--include-partial-messages"@),
            Arg::Text("--permission-mode"@),
            Arg::Text(b.permission_mode),
            Arg::Text("--model"@),
            Arg::Text(b.model),
            Arg::Text(prompt),
        ],
{
    assert(b.args(None, prompt) =~= seq![
        Arg::Text("--print"@),
        Arg::Text("--output-format"@),
        Arg::Text("stream-json"@),
        Arg::Text("--verbose"@),
        Arg::Text("--include-partial-messages"@),
        Arg::Text("--permission-mode"@),
        Arg::Text(b.permission_mode),
        Arg::Text("--model"@),
        Arg::Text(b.model),
        Arg::Text(prompt),
    ]);
}

/// `with` is `without` and the arguments `added`, which stand at `at`.
pub open spec fn inserted(without: Seq<Arg>, at: int, added: Seq<Arg>, with: Seq<Arg>) -> bool {
    &&& 0 <= at <= without.len()
    &&& with == without.take(at) + added + without.skip(at)
}

proof fn lemma_add_dirs_len(dirs: Seq<PathBuf>)
    ensures
        add_dirs(dirs).len() == 2 * dirs.len(),
    decreases dirs.len(),
{
    if dirs.len() > 0 {
        lemma_add_dirs_len(dirs.drop_last());
    }
}

/// Whatever the other settings of a run with streamed JSON output are, a cap on turns adds its flag
/// and the number in decimal notation right before the prompt, and changes nothing else.
pub proof fn law_turn_cap_is_passed(b: Backend, n: u32, system: Option<Seq<char>>, prompt: Seq<char>)
    requires
        b.flavor == SubprocessKind::ClaudeCode,
    ensures
        ({
            let without = Backend { limits: Limits { max_turns: None, ..b.limits }, ..b }.args(
                system,
                prompt,
            );
            let with = Backend { limits: Limits { max_turns: Some(n), ..b.limits }, ..b }.args(
                system,
                prompt,
            );
            inserted(
                without,
                without.len() - 1,
                seq![Arg::Text("--max-turns"@), Arg::Text(decimal(n as nat))],
                with,
            )
        }),
        decimal_value(decimal(n as nat)) == n,
{
    let without = Backend { limits: Limits { max_turns: None, ..b.limits }, ..b }.args(
        system,
        prompt,
    );
    let with = Backend { limits: Limits { max_turns: Some(n), ..b.limits }, ..b }.args(
        system,
        prompt,
    );
    let added = seq![Arg::Text("--max-turns"@), Arg::Text(decimal(n as nat))];
    let at = without.len() - 1;
    assert(with =~= without.take(at) + added + without.skip(at));
    law_decimal_of_any_number(n as nat);
}

/// Whatever the other settings of a run with streamed JSON output are, a budget adds its flag and
/// the amount as it is right before the cap on turns, or before the prompt where there is no such
/// cap, and changes nothing else.
pub proof fn law_budget_is_passed(
    b: Backend,
    amount: Seq<char>,
    system: Option<Seq<char>>,
    prompt: Seq<char>,
)
    requires
        b.flavor == SubprocessKind::ClaudeCode,
    ensures
        ({
            let without = Backend { limits: Limits { max_budget_usd: None, ..b.limits }, ..b }.args(
                system,
                prompt,
            );
            let with = Backend {
                limits: Limits { max_budget_usd: Some(amount), ..b.limits },
                ..b
            }.args(system, prompt);
            inserted(
                without,
                without.len() - (if b.limits.max_turns is Some {
                    3int
                } else {
                    1int
                }),
                seq![Arg::Text("--max-budget-usd"@), Arg::Text(amount)],
                with,
            )
        }),
{
    let without = Backend { limits: Limits { max_budget_usd: None, ..b.limits }, ..b }.args(
        system,
        prompt,
    );
    let with = Backend { limits: Limits { max_budget_usd: Some(amount), ..b.limits }, ..b }.args(
        system,
        prompt,
    );
    let added = seq![Arg::Text("--max-budget-usd"@), Arg::Text(amount)];
    let at = without.len() - (if b.limits.max_turns is Some {
        3int
    } else {
        1int
    });
    assert(with =~= without.take(at) + added + without.skip(at));
}

/// Whatever the other settings of a run with streamed JSON output are, a system prompt adds its flag
/// and the system prompt as it is behind the model, and changes nothing else.
pub proof fn law_system_prompt_is_passed(b: Backend, system: Seq<char>, prompt: Seq<char>)
    requires
        b.flavor == SubprocessKind::ClaudeCode,
    ensures
        inserted(
            b.args(None, prompt),
            9,
            seq![Arg::Text("--append-system-prompt"@), Arg::Text(system)],
            b.args(Some(system), prompt),
        ),
{
    let without = b.args(None, prompt);
    let added = seq![Arg::Text("--append-system-prompt"@), Arg::Text(system)];
    assert(b.args(Some(system), prompt) =~= without.take(9) + added + without.skip(9));
}

/// Whatever the other settings of a run with streamed JSON output are, one more extra directory adds
/// its flag and its path behind those of the others, and changes nothing else.
pub proof fn law_extra_dir_is_passed(
    b: Backend,
    dir: PathBuf,
    system: Option<Seq<char>>,
    prompt: Seq<char>,
)
    requires
        b.flavor == SubprocessKind::ClaudeCode,
    ensures
        inserted(
            b.args(system, prompt),
            9 + (if system is Some {
                2int
            } else {
                0int
            }) + 2 * b.extra_dirs.len(),
            seq![Arg::Text("--add-dir"@), Arg::Path(dir)],
            Backend { extra_dirs: b.extra_dirs.push(dir), ..b }.args(system, prompt),
        ),
{
    let without = b.args(system, prompt);
    let at = 9 + (if system is Some {
        2int
    } else {
        0int
    }) + 2 * b.extra_dirs.len();
    let added = seq![Arg::Text("--add-dir"@), Arg::Path(dir)];
    let dirs = b.extra_dirs.push(dir);
    lemma_add_dirs_len(b.extra_dirs);
    assert(dirs.drop_last() =~= b.extra_dirs);
    assert(Backend { extra_dirs: dirs, ..b }.args(system, prompt) =~= without.take(at) + added
        + without.skip(at));
}

/// Where no value that is passed is itself the name of the flag, the arguments of a run with
/// streamed JSON output hold `--max-turns` with a number behind it exactly where the cap on turns is
/// that number, and `--max-budget-usd` and `--append-system-prompt` likewise for their settings.
pub proof fn law_flags_go_by_their_own_settings(
    b: Backend,
    system: Option<Seq<char>>,
    prompt: Seq<char>,
    name: Seq<char>,
    value: Seq<char>,
)
    requires
        b.flavor == SubprocessKind::ClaudeCode,
        b.permission_mode != name,
        b.model != name,
        prompt != name,
        system != Some(name),
        b.limits.max_budget_usd != Some(name),
        name == "--max-turns"@ || name == "--max-budget-usd"@ || name == "--append-system-prompt"@,
    ensures
        (exists|i: int|
            0 <= i < b.args(system, prompt).len() - 1 && #[trigger] b.args(system, prompt)[i]
                == Arg::Text(name) && b.args(system, prompt)[i + 1] == Arg::Text(value)) <==> {
            ||| name == "--max-turns"@ && (b.limits.max_turns matches Some(n) && value == decimal(
                n as nat,
            ))
            ||| name == "--max-budget-usd"@ && b.limits.max_budget_usd == Some(value)
            ||| name == "--append-system-prompt"@ && system == Some(value)
        },
{
    let args = b.args(system, prompt);
    lemma_flag_names(name);
    lemma_dirs_are_no_flag(b.extra_dirs, name);
    if let Some(n) = b.limits.max_turns {
        law_decimal_of_any_number(n as nat);
    }
    lemma_stream_json_positions(b, system, prompt);
    lemma_flag_is_found(args, add_dirs(b.extra_dirs), b, system, prompt, name, value);
}

/// What stands where in the arguments of a run with streamed JSON output.
spec fn stream_json_positions(
    args: Seq<Arg>,
    dirs: Seq<Arg>,
    b: Backend,
    system: Option<Seq<char>>,
    prompt: Seq<char>,
) -> bool {
    let s: int = if system is Some {
        2
    } else {
        0
    };
    let d: int = 9 + s + dirs.len();
    let u: int = d + if b.limits.max_budget_usd is Some {
        2int
    } else {
        0int
    };
    let t: int = u + if b.limits.max_turns is Some {
        2int
    } else {
        0int
    };
    &&& args.len() == t + 1
    &&& args[0] == Arg::Text("--print"@)
    &&& args[1] == Arg::Text("--output-format"@)
    &&& args[2] == Arg::Text("stream-json"@)
    &&& args[3] == Arg::Text("--verbose"@)
    &&& args[4] == Arg::Text("--include-partial-messages"@)
    &&& args[5] == Arg::Text("--permission-mode"@)
    &&& args[6] == Arg::Text(b.permission_mode)
    &&& args[7] == Arg::Text("--model"@)
    &&& args[8] == Arg::Text(b.model)
    &&& system matches Some(sys) ==> args[9] == Arg::Text("--append-system-prompt"@) && args[10]
        == Arg::Text(sys)
    &&& forall|i: int| 9 + s <= i < d ==> #[trigger] args[i] == dirs[i - 9 - s]
    &&& b.limits.max_budget_usd matches Some(amount) ==> args[d] == Arg::Text("--max-budget-usd"@)
        && args[d + 1] == Arg::Text(amount)
    &&& b.limits.max_turns matches Some(n) ==> args[u] == Arg::Text("--max-turns"@) && args[u + 1]
        == Arg::Text(decimal(n as nat))
    &&& args[t] == Arg::Text(prompt)
}

proof fn lemma_stream_json_positions(b: Backend, system: Option<Seq<char>>, prompt: Seq<char>)
    ensures
        stream_json_positions(
            b.stream_json_args(system, prompt),
            add_dirs(b.extra_dirs),
            b,
            system,
            prompt,
        ),
{
}

proof fn lemma_flag_is_found(
    args: Seq<Arg>,
    dirs: Seq<Arg>,
    b: Backend,
    system: Option<Seq<char>>,
    prompt: Seq<char>,
    name: Seq<char>,
    value: Seq<char>,
)
    requires
        stream_json_positions(args, dirs, b, system, prompt),
        forall|i: int| 0 <= i < dirs.len() ==> #[trigger] dirs[i] != Arg::Text(name),
        b.permission_mode != name,
        b.model != name,
        prompt != name,
        system != Some(name),
        b.limits.max_budget_usd != Some(name),
        b.limits.max_turns matches Some(n) ==> decimal(n as nat) != name,
        name == "--max-turns"@ || name == "--max-budget-usd"@ || name == "--append-system-prompt"@,
        "--max-turns"@ != "--max-budget-usd"@,
        "--max-turns"@ != "--append-system-prompt"@,
        "--max-budget-usd"@ != "--append-system-prompt"@,
        name != "--print"@,
        name != "--output-format"@,
        name != "stream-json"@,
        name != "--verbose"@,
        name != "--include-partial-messages"@,
        name != "--permission-mode"@,
        name != "--model"@,
    ensures
        (exists|i: int|
            0 <= i < args.len() - 1 && #[trigger] args[i] == Arg::Text(name) && args[i + 1]
                == Arg::Text(value)) <==> {
            ||| name == "--max-turns"@ && (b.limits.max_turns matches Some(n) && value == decimal(
                n as nat,
            ))
            ||| name == "--max-budget-usd"@ && b.limits.max_budget_usd == Some(value)
            ||| name == "--append-system-prompt"@ && system == Some(value)
        },
{
}

proof fn lemma_flag_names(name: Seq<char>)
    requires
        name == "--max-turns"@ || name == "--max-budget-usd"@ || name == "--append-system-prompt"@,
    ensures
        "--max-turns"@ != "--max-budget-usd"@,
        "--max-turns"@ != "--append-system-prompt"@,
        "--max-budget-usd"@ != "--append-system-prompt"@,
        name != "--print"@,
        name != "--output-format"@,
        name != "stream-json"@,
        name != "--verbose"@,
        name != "--include-partial-messages"@,
        name != "--permission-mode"@,
        name != "--model"@,
        name != "--add-dir"@,
        name.len() > 0 && name[0] == '-',
{
    reveal_strlit("--max-turns");
    reveal_strlit("--max-budget-usd");
    reveal_strlit("--append-system-prompt");
    reveal_strlit("--print");
    reveal_strlit("--output-format");
    reveal_strlit("stream-json");
    reveal_strlit("--verbose");
    reveal_strlit("--include-partial-messages");
    reveal_strlit("--permission-mode");
    reveal_strlit("--model");
    reveal_strlit("--add-dir");
    assert("stream-json"@[0] == 's');
    assert("--max-turns"@.len() == 11);
    assert("--max-budget-usd"@.len() == 16);
    assert("--append-system-prompt"@.len() == 22);
    assert("--print"@.len() == 7);
    assert("--output-format"@.len() == 15);
    assert("--verbose"@.len() == 9);
    assert("--include-partial-messages"@.len() == 26);
    assert("--permission-mode"@.len() == 17);
    assert("--model"@.len() == 7);
    assert("--add-dir"@.len() == 9);
}

proof fn lemma_dirs_are_no_flag(dirs: Seq<PathBuf>, name: Seq<char>)
    requires
        name != "--add-dir"@,
    ensures
        forall|i: int|
            0 <= i < add_dirs(dirs).len() ==> #[trigger] add_dirs(dirs)[i] != Arg::Text(name),
    decreases dirs.len(),
{
    if dirs.len() > 0 {
        let fore = add_dirs(dirs.drop_last());
        lemma_dirs_are_no_flag(dirs.drop_last(), name);
        assert forall|i: int| 0 <= i < add_dirs(dirs).len() implies #[trigger] add_dirs(dirs)[i]
            != Arg::Text(name) by {
            if i < fore.len() {
                assert(add_dirs(dirs)[i] == fore[i]);
            }
        }
    }
}

/// The arguments of a run that prints one JSON event per line are these: the model, the permission
/// to do everything exactly where the permission mode bypasses permissions, and the message, which
/// is the prompt behind the system prompt and a blank line, or the prompt alone.
pub proof fn law_run_json_arguments(b: Backend, system: Seq<char>, prompt: Seq<char>)
    requires
        b.flavor == SubprocessKind::OpenCode,
    ensures
        b.permission_mode == "bypassPermissions"@ ==> b.args(None, prompt) == seq![
            Arg::Text("run"@),
            Arg::Text("--format"@),
            Arg::Text("json"@),
            Arg::Text("--model"@),
            Arg::Text(b.model),
            Arg::Text("--dangerously-skip-permissions"@),
            Arg::Text(prompt),
        ],
        b.permission_mode != "bypassPermissions"@ ==> b.args(None, prompt) == seq![
            Arg::Text("run"@),
            Arg::Text("--format"@),
            Arg::Text("json"@),
            Arg::Text("--model"@),
            Arg::Text(b.model),
            Arg::Text(prompt),
        ],
        b.args(Some(system), prompt) == b.args(None, system + "\n\n"@ + prompt),
{
    if b.permission_mode == "bypassPermissions"@ {
        assert(b.args(None, prompt) =~= seq![
            Arg::Text("run"@),
            Arg::Text("--format"@),
            Arg::Text("json"@),
            Arg::Text("--model"@),
            Arg::Text(b.model),
            Arg::Text("--dangerously-skip-permissions"@),
            Arg::Text(prompt),
        ]);
    } else {
        assert(b.args(None, prompt) =~= seq![
            Arg::Text("run"@),
            Arg::Text("--format"@),
            Arg::Text("json"@),
            Arg::Text("--model"@),
            Arg::Text(b.model),
            Arg::Text(prompt),
        ]);
    }
    assert(b.args(Some(system), prompt) =~= b.args(None, system + "\n\n"@ + prompt));
}

/// The gateway is in the environment of a run with streamed JSON output exactly where its URL is not
/// empty, and its key exactly where there is one, each as it is and neither for the other's sake; a
/// run that prints one JSON event per line is given no environment.
pub proof fn law_gateway_is_in_the_environment(b: Backend, value: Seq<char>)
    ensures
        b.flavor == SubprocessKind::OpenCode ==> b.env().len() == 0,
        b.flavor == SubprocessKind::ClaudeCode ==> {
            &&& b.env().contains(("ANTHROPIC_BASE_URL"@, value)) <==> b.base_url == value
                && value.len() > 0
            &&& b.env().contains(("ANTHROPIC_AUTH_TOKEN"@, value)) <==> b.auth_token == Some(value)
            &&& b.env().len() == (if b.base_url.len() > 0 {
                1int
            } else {
                0int
            }) + (if b.auth_token is Some {
                1int
            } else {
                0int
            })
        },
{
    reveal_strlit("ANTHROPIC_BASE_URL");
    reveal_strlit("ANTHROPIC_AUTH_TOKEN");
    assert("ANTHROPIC_BASE_URL"@.len() != "ANTHROPIC_AUTH_TOKEN"@.len());
    if b.flavor == SubprocessKind::ClaudeCode {
        if b.base_url.len() > 0 {
            assert(b.env()[0] == ("ANTHROPIC_BASE_URL"@, b.base_url));
        }
        if let Some(token) = b.auth_token {
            assert(b.env()[b.env().len() - 1] == ("ANTHROPIC_AUTH_TOKEN"@, token));
        }
    }
}

/// A command is made of the settings that the backend was made with and of the two prompts.
pub proof fn law_command_is_made_of_the_settings(
    flavor: SubprocessKind,
    stream_json_program: String,
    model: String,
    base_url: String,
    auth_token: Option<String>,
    workdir: Option<PathBuf>,
    extra_dirs: Vec<PathBuf>,
    permission_mode: String,
    limits: ProcLimits,
    backend: SubprocessBackend,
    system: Option<String>,
    prompt: &str,
    command: CommandLine,
)
    requires
        call_ensures(
            SubprocessBackend::new,
            (
                flavor,
                stream_json_program,
                model,
                base_url,
                auth_token,
                workdir,
                extra_dirs,
                permission_mode,
                limits,
            ),
            backend,
        ),
        call_ensures(SubprocessBackend::command, (&backend, &system, prompt), command),
    ensures
        ({
            let b = Backend {
                flavor,
                stream_json_program: stream_json_program@,
                model: model@,
                base_url: base_url@,
                auth_token: auth_token.deep_view(),
                workdir,
                extra_dirs: extra_dirs@,
                permission_mode: permission_mode@,
                limits: Limits {
                    idle: limits.idle@,
                    ceiling: limits.ceiling@,
                    max_budget_usd: limits.max_budget_usd.deep_view(),
                    max_turns: limits.max_turns,
                },
            };
            &&& command.args.deep_view() == b.args(system.deep_view(), prompt@)
            &&& command.env.deep_view() == b.env()
            &&& flavor == SubprocessKind::ClaudeCode ==> command.program@ == stream_json_program@
            &&& flavor == SubprocessKind::OpenCode ==> command.program@ == "opencode"@
        }),
{
}

/// The command that answers messages is the command for the prompts that they are rendered as.
pub proof fn law_messages_are_rendered_into_the_command(
    backend: SubprocessBackend,
    messages: &[ChatMessage],
    rendered: (Option<String>, String),
    prompt: &str,
    command: CommandLine,
    answer: CommandLine,
)
    requires
        call_ensures(render_prompt, (messages,), rendered),
        prompt@ == rendered.1@,
        call_ensures(SubprocessBackend::command, (&backend, &rendered.0, prompt), command),
        call_ensures(SubprocessBackend::command_for, (&backend, messages), answer),
    ensures
        answer.program@ == command.program@,
        answer.args.deep_view() == command.args.deep_view(),
        answer.env.deep_view() == command.env.deep_view(),
{
}

} // verus!
