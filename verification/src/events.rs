//! What the output lines of an agentic CLI say about its run.

use crate::json::{Json, JsonRef, JsonTree, bool_at, get_bool, get_member, get_str, has_member, json_parsed, member_at, printed, str_at};
use crate::text::{law_trimmed_once, str_eq, trim, trimmed};
use vstd::prelude::*;

verus! {

/// A normalized event from either CLI's JSON output stream.
pub enum StreamEvent {
    /// Incremental assistant text to append (a delta, or a full part).
    Text(String),
    /// Terminal outcome. `text` is the authoritative final text; `None` means that the
    /// accumulated text stands.
    Final { text: Option<String>, is_error: bool },
    /// A line that says nothing about the reply.
    Other,
}

/// What a [`StreamEvent`] holds.
pub enum StreamEventView {
    Text(Seq<char>),
    Final { text: Option<Seq<char>>, is_error: bool },
    Other,
}

impl View for StreamEvent {
    type V = StreamEventView;

    open spec fn view(&self) -> StreamEventView {
        match self {
            StreamEvent::Text(t) => StreamEventView::Text(t@),
            StreamEvent::Final { text, is_error } => StreamEventView::Final {
                text: text.deep_view(),
                is_error: *is_error,
            },
            StreamEvent::Other => StreamEventView::Other,
        }
    }
}

/// The event that one JSON value of the `stream-json` output stands for: the text of a
/// `text_delta` inside a `content_block_delta`, or the outcome that a `result` reports.
pub open spec fn claude_event_of(v: JsonTree) -> StreamEventView {
    let kind = str_at(Some(v), "type"@);
    if kind == Some("stream_event"@) {
        let event = member_at(Some(v), "event"@);
        let delta = member_at(event, "delta"@);
        match str_at(delta, "text"@) {
            Some(t) if str_at(event, "type"@) == Some("content_block_delta"@) && str_at(
                delta,
                "type"@,
            ) == Some("text_delta"@) => StreamEventView::Text(t),
            _ => StreamEventView::Other,
        }
    } else if kind == Some("result"@) {
        StreamEventView::Final {
            text: match str_at(Some(v), "result"@) {
                Some(t) => Some(t),
                None => Some(seq![]),
            },
            is_error: {
                ||| bool_at(Some(v), "is_error"@) == Some(true)
                ||| str_at(Some(v), "subtype"@) is Some && str_at(Some(v), "subtype"@) != Some(
                    "success"@,
                )
            },
        }
    } else {
        StreamEventView::Other
    }
}

/// The event that one line of the `stream-json` output stands for.
pub open spec fn claude_line_event(line: Seq<char>) -> StreamEventView {
    if trimmed(line).len() == 0 {
        StreamEventView::Other
    } else {
        match json_parsed(trimmed(line)) {
            Some(v) => claude_event_of(v),
            None => StreamEventView::Other,
        }
    }
}

/// What an `error` value of that output says: its `error.message`, else its `error`, else
/// all of it, each as JSON text.
pub open spec fn opencode_error_text(v: JsonTree) -> Seq<char> {
    match v.member("error"@) {
        Some(error) => match error.member("message"@) {
            Some(message) => printed(message),
            None => printed(error),
        },
        None => printed(v),
    }
}

/// The event that one JSON value of the `run --format json` output stands for: the text of a
/// `text` part, or the failure that an `error` reports.
pub open spec fn opencode_event_of(v: JsonTree) -> StreamEventView {
    let kind = str_at(Some(v), "type"@);
    if kind == Some("text"@) {
        StreamEventView::Text(
            match str_at(v.member("part"@), "text"@) {
                Some(t) => t,
                None => seq![],
            },
        )
    } else if kind == Some("error"@) {
        StreamEventView::Final { text: Some(opencode_error_text(v)), is_error: true }
    } else {
        StreamEventView::Other
    }
}

/// The event that one line of the `run --format json` output stands for.
pub open spec fn opencode_line_event(line: Seq<char>) -> StreamEventView {
    if trimmed(line).len() == 0 {
        StreamEventView::Other
    } else {
        match json_parsed(trimmed(line)) {
            Some(v) => opencode_event_of(v),
            None => StreamEventView::Other,
        }
    }
}

fn is_str(value: Option<&str>, expected: &str) -> (b: bool)
    ensures
        b == (value.deep_view() == Some(expected@)),
{
    match value {
        Some(s) => str_eq(s, expected),
        None => false,
    }
}

fn str_or_empty(value: Option<&str>) -> (r: String)
    ensures
        r@ == (match value.deep_view() {
            Some(s) => s,
            None => Seq::<char>::empty(),
        }),
{
    match value {
        Some(s) => s.to_string(),
        None => String::new(),
    }
}

/// Reads one JSON value of the `stream-json` output. Text deltas are `stream_event` values
/// whose `event` is a `content_block_delta` with a `text_delta`; the terminal `result` carries the
/// authoritative text together with `is_error` and `subtype`.
pub fn claude_event(v: &Json) -> (event: StreamEvent)
    ensures
        event@ == claude_event_of(v@),
{
    let root: Option<JsonRef<'_>> = Some(v.root());
    let kind: Option<&str> = get_str(root, "type");
    if is_str(kind, "stream_event") {
        let event = get_member(root, "event");
        if is_str(get_str(event, "type"), "content_block_delta") {
            let delta = get_member(event, "delta");
            if is_str(get_str(delta, "type"), "text_delta") {
                if let Some(t) = get_str(delta, "text") {
                    return StreamEvent::Text(t.to_string());
                }
            }
        }
        StreamEvent::Other
    } else if is_str(kind, "result") {
        let flagged: bool = match get_bool(root, "is_error") {
            Some(b) => b,
            None => false,
        };
        let unsuccessful: bool = match get_str(root, "subtype") {
            Some(s) => !str_eq(s, "success"),
            None => false,
        };
        let text: String = str_or_empty(get_str(root, "result"));
        StreamEvent::Final { text: Some(text), is_error: flagged || unsuccessful }
    } else {
        StreamEvent::Other
    }
}

/// Parses one line of the `stream-json` output. Blank lines and lines that are not JSON say
/// nothing.
pub fn parse_claude_line(line: &str) -> (event: StreamEvent)
    ensures
        event@ == claude_line_event(line@),
{
    let line: &str = trim(line);
    if line.is_empty() {
        return StreamEvent::Other;
    }
    match Json::parse(line) {
        Some(v) => claude_event(&v),
        None => StreamEvent::Other,
    }
}

/// Reads one JSON value of the `run --format json` output. `text` values carry a full text
/// part; `error` values signal failure; everything else is ignored.
pub fn opencode_event(v: &Json) -> (event: StreamEvent)
    ensures
        event@ == opencode_event_of(v@),
{
    let root = v.root();
    let kind: Option<&str> = get_str(Some(root), "type");
    if is_str(kind, "text") {
        StreamEvent::Text(str_or_empty(get_str(root.get("part"), "text")))
    } else if is_str(kind, "error") {
        let message: String = match root.get("error") {
            Some(error) => match error.get("message") {
                Some(message) => message.to_text(),
                None => error.to_text(),
            },
            None => root.to_text(),
        };
        StreamEvent::Final { text: Some(message), is_error: true }
    } else {
        StreamEvent::Other
    }
}

/// Parses one line of the `run --format json` output. Blank lines and lines that are not JSON
/// say nothing.
pub fn parse_opencode_line(line: &str) -> (event: StreamEvent)
    ensures
        event@ == opencode_line_event(line@),
{
    let line: &str = trim(line);
    if line.is_empty() {
        return StreamEvent::Other;
    }
    match Json::parse(line) {
        Some(v) => opencode_event(&v),
        None => StreamEvent::Other,
    }
}

/// White space around a line changes nothing about the event that it stands for.
pub proof fn law_outer_space_is_ignored(line: Seq<char>)
    ensures
        claude_line_event(trimmed(line)) == claude_line_event(line),
        opencode_line_event(trimmed(line)) == opencode_line_event(line),
{
    law_trimmed_once(line);
}

/// `line` is `v` as JSON, with or without white space around it.
pub open spec fn denotes(line: Seq<char>, v: JsonTree) -> bool {
    trimmed(line).len() > 0 && json_parsed(trimmed(line)) == Some(v)
}

/// A text delta of the `stream-json` output gives its text, character for character.
pub proof fn law_text_delta_is_kept(
    v: Json,
    inner: JsonTree,
    delta: JsonTree,
    t: Seq<char>,
    event: StreamEvent,
)
    requires
        call_ensures(claude_event, (&v,), event),
        has_member(v@, "type"@, JsonTree::Str("stream_event"@)),
        has_member(v@, "event"@, inner),
        has_member(inner, "type"@, JsonTree::Str("content_block_delta"@)),
        has_member(inner, "delta"@, delta),
        has_member(delta, "type"@, JsonTree::Str("text_delta"@)),
        has_member(delta, "text"@, JsonTree::Str(t)),
    ensures
        event@ == StreamEventView::Text(t),
        event@ == claude_event_of(v@),
{
}

/// Only text deltas of the `stream-json` output give text, and only the text that they carry.
pub proof fn law_only_text_deltas_are_text(v: Json, event: StreamEvent)
    requires
        call_ensures(claude_event, (&v,), event),
    ensures
        event@ matches StreamEventView::Text(t) ==> exists|inner: JsonTree, delta: JsonTree|
            {
                &&& has_member(v@, "type"@, JsonTree::Str("stream_event"@))
                &&& #[trigger] has_member(v@, "event"@, inner)
                &&& has_member(inner, "type"@, JsonTree::Str("content_block_delta"@))
                &&& #[trigger] has_member(inner, "delta"@, delta)
                &&& has_member(delta, "type"@, JsonTree::Str("text_delta"@))
                &&& has_member(delta, "text"@, JsonTree::Str(t))
            },
{
    if event@ is Text {
        let inner = member_at(Some(v@), "event"@)->0;
        let delta = member_at(Some(inner), "delta"@)->0;
        distinct_kinds();
        assert(has_member(v@, "event"@, inner));
        assert(has_member(inner, "delta"@, delta));
    }
}

proof fn distinct_kinds()
    ensures
        "stream_event"@ != "result"@,
        "text"@ != "error"@,
{
    reveal_strlit("stream_event");
    reveal_strlit("result");
    reveal_strlit("text");
    reveal_strlit("error");
    assert("stream_event"@.len() != "result"@.len());
    assert("text"@.len() != "error"@.len());
}

/// A `result` of the `stream-json` output is an outcome: its text is the `result` string as it is,
/// or empty where there is none, and it is a failure exactly where `is_error` is true or `subtype`
/// is a string other than `success`.
pub proof fn law_result_is_the_outcome(v: Json, t: Seq<char>, subtype: Seq<char>, event: StreamEvent)
    requires
        call_ensures(claude_event, (&v,), event),
        has_member(v@, "type"@, JsonTree::Str("result"@)),
    ensures
        event@ matches StreamEventView::Final { text, is_error } && {
            &&& has_member(v@, "result"@, JsonTree::Str(t)) ==> text == Some(t)
            &&& (forall|s: Seq<char>| !#[trigger] has_member(v@, "result"@, JsonTree::Str(s)))
                ==> text == Some(Seq::<char>::empty())
            &&& has_member(v@, "is_error"@, JsonTree::Bool(true)) ==> is_error
            &&& has_member(v@, "subtype"@, JsonTree::Str(subtype)) && subtype != "success"@
                ==> is_error
            &&& is_error ==> has_member(v@, "is_error"@, JsonTree::Bool(true)) || exists|s: Seq<char>|
                s != "success"@ && #[trigger] has_member(v@, "subtype"@, JsonTree::Str(s))
        },
{
    distinct_kinds();
    if let Some(s) = str_at(Some(v@), "result"@) {
        assert(has_member(v@, "result"@, JsonTree::Str(s)));
    }
    if let Some(s) = str_at(Some(v@), "subtype"@) {
        assert(has_member(v@, "subtype"@, JsonTree::Str(s)));
    }
}

/// A value of the `stream-json` output that is neither a `stream_event` nor a `result` says
/// nothing, and a `stream_event` is never an outcome.
pub proof fn law_other_values_say_nothing(v: Json, event: StreamEvent)
    requires
        call_ensures(claude_event, (&v,), event),
        !has_member(v@, "type"@, JsonTree::Str("result"@)),
    ensures
        !(event@ is Final),
        !has_member(v@, "type"@, JsonTree::Str("stream_event"@)) ==> event@ is Other,
{
    let kind = str_at(Some(v@), "type"@);
    if let Some(s) = kind {
        assert(has_member(v@, "type"@, JsonTree::Str(s)));
    }
}

/// A `text` value of the `run --format json` output gives the text of its part, character for
/// character, or no characters where the part has no text.
pub proof fn law_text_part_is_kept(v: Json, part: JsonTree, t: Seq<char>, event: StreamEvent)
    requires
        call_ensures(opencode_event, (&v,), event),
        has_member(v@, "type"@, JsonTree::Str("text"@)),
    ensures
        event@ is Text,
        has_member(v@, "part"@, part) && has_member(part, "text"@, JsonTree::Str(t)) ==> event@
            == StreamEventView::Text(t),
        has_member(v@, "part"@, part) && (forall|s: Seq<char>|
            !#[trigger] has_member(part, "text"@, JsonTree::Str(s))) ==> event@
            == StreamEventView::Text(seq![]),
        (forall|p: JsonTree| !#[trigger] has_member(v@, "part"@, p)) ==> event@
            == StreamEventView::Text(seq![]),
{
    if let Some(p) = v@.member("part"@) {
        assert(has_member(v@, "part"@, p));
        if let Some(s) = str_at(Some(p), "text"@) {
            assert(has_member(p, "text"@, JsonTree::Str(s)));
        }
    }
}

/// An `error` value of the `run --format json` output is a failure, told by the `message` of its
/// `error`, else by its `error`, else by all of it, as JSON text.
pub proof fn law_error_is_a_failure(v: Json, error: JsonTree, message: JsonTree, event: StreamEvent)
    requires
        call_ensures(opencode_event, (&v,), event),
        has_member(v@, "type"@, JsonTree::Str("error"@)),
    ensures
        event@ matches StreamEventView::Final { text, is_error } && {
            &&& is_error
            &&& has_member(v@, "error"@, error) && has_member(error, "message"@, message) ==> text
                == Some(printed(message))
            &&& has_member(v@, "error"@, error) && (forall|m: JsonTree|
                !#[trigger] has_member(error, "message"@, m)) ==> text == Some(printed(error))
            &&& (forall|e: JsonTree| !#[trigger] has_member(v@, "error"@, e)) ==> text == Some(
                printed(v@),
            )
        },
{
    distinct_kinds();
    if let Some(e) = v@.member("error"@) {
        assert(has_member(v@, "error"@, e));
        if let Some(m) = e.member("message"@) {
            assert(has_member(e, "message"@, m));
        }
    }
}

/// A value of the `run --format json` output that is neither a `text` nor an `error` says nothing.
pub proof fn law_steps_say_nothing(v: Json, event: StreamEvent)
    requires
        call_ensures(opencode_event, (&v,), event),
        !has_member(v@, "type"@, JsonTree::Str("text"@)),
        !has_member(v@, "type"@, JsonTree::Str("error"@)),
    ensures
        event@ is Other,
{
    if let Some(s) = str_at(Some(v@), "type"@) {
        assert(has_member(v@, "type"@, JsonTree::Str(s)));
    }
}

/// A line that is a JSON value says what the value says, for either CLI; every other line says
/// nothing.
pub proof fn law_line_says_what_its_value_says(
    line: &str,
    v: Json,
    value_event: StreamEvent,
    line_event: StreamEvent,
    value_step: StreamEvent,
    line_step: StreamEvent,
)
    requires
        call_ensures(claude_event, (&v,), value_event),
        call_ensures(parse_claude_line, (line,), line_event),
        call_ensures(opencode_event, (&v,), value_step),
        call_ensures(parse_opencode_line, (line,), line_step),
    ensures
        denotes(line@, v@) ==> line_event@ == value_event@ && line_step@ == value_step@,
        trimmed(line@).len() == 0 || json_parsed(trimmed(line@)) is None ==> line_event@ is Other
            && line_step@ is Other,
        line_event@ == claude_line_event(line@),
        line_step@ == opencode_line_event(line@),
{
}

} // verus!
