use roger::history::ChatMessage;
use roger::llm::{
    check_status, reply_text, AssistantMessage, ChatResponse, Choice, LlmClient,
};
use roger::sse::{
    first_content, parse_sse_line, sse_payload, Delta, ReplyAction, ReplyEvent, StreamChoice,
    StreamChunk, StreamedReply,
};
use serde_json::Value;

fn client(max_tokens: u32, context_tokens: u32) -> LlmClient {
    LlmClient::new("u".into(), "m".into(), None, max_tokens, 0.0f32.to_bits(), context_tokens)
}

/// Reads a payload as a chunk.
fn parse_chunk(payload: &str) -> Option<StreamChunk> {
    let value: Value = serde_json::from_str(payload).ok()?;
    let choices = value.get("choices")?.as_array()?;
    let choices = choices
        .iter()
        .map(|choice| StreamChoice {
            delta: Delta {
                content: choice["delta"].get("content").and_then(Value::as_str).map(String::from),
            },
        })
        .collect();
    Some(StreamChunk { choices })
}

#[test]
fn budget_reserves_response_prompt_and_margin() {
    // 8192 - (1024 + 100 + 256) = 6812
    let c = client(1024, 8192);
    assert_eq!(c.history_token_budget(100), 6812);
}

#[test]
fn budget_floors_at_256_when_context_is_tiny() {
    let c = client(1024, 512);
    assert_eq!(c.history_token_budget(100), 256);
}

#[test]
fn budget_at_the_floor() {
    assert_eq!(client(0, 512).history_token_budget(0), 256);
    assert_eq!(client(0, 513).history_token_budget(0), 257);
    assert_eq!(client(u32::MAX, u32::MAX).history_token_budget(0), 256);
    assert_eq!(client(1024, 8192).history_token_budget(usize::MAX), 256);
}

#[test]
fn sse_extracts_content_delta() {
    let line = r#"data: {"choices":[{"delta":{"content":"Hello"}}]}"#;
    assert_eq!(parse_sse_line(line, &parse_chunk), Some("Hello".to_string()));
}

#[test]
fn sse_ignores_done_and_blanks_and_roles() {
    assert_eq!(parse_sse_line("data: [DONE]", &parse_chunk), None);
    assert_eq!(parse_sse_line("", &parse_chunk), None);
    assert_eq!(parse_sse_line(": comment", &parse_chunk), None);
    // Role-only opening delta has no content.
    assert_eq!(
        parse_sse_line(r#"data: {"choices":[{"delta":{"role":"assistant"}}]}"#, &parse_chunk),
        None
    );
}

#[test]
fn sse_handles_empty_choices() {
    assert_eq!(parse_sse_line(r#"data: {"choices":[]}"#, &parse_chunk), None);
}

#[test]
fn sse_payload_is_handed_over_trimmed() {
    assert_eq!(sse_payload("data:  {} \t"), Some("{}"));
    assert_eq!(sse_payload("data:x"), Some("x"));
    assert_eq!(sse_payload("data:"), None);
    assert_eq!(sse_payload("data:   "), None);
    assert_eq!(sse_payload("data:[DONE]"), None);
    assert_eq!(sse_payload("data: [done]"), Some("[done]"));
    assert_eq!(sse_payload(" data: x"), None);
    assert_eq!(sse_payload("dat"), None);
    assert_eq!(sse_payload("event: x"), None);
}

#[test]
fn sse_line_that_is_no_chunk_has_no_delta() {
    assert_eq!(parse_sse_line("data: not json", &parse_chunk), None);
    assert_eq!(parse_sse_line("data: {}", &parse_chunk), None);
}

#[test]
fn first_choice_counts() {
    let choice = |s: Option<&str>| StreamChoice { delta: Delta { content: s.map(String::from) } };
    let both = StreamChunk { choices: vec![choice(Some("a")), choice(Some("b"))] };
    assert_eq!(first_content(both).as_deref(), Some("a"));
    let second = StreamChunk { choices: vec![choice(None), choice(Some("b"))] };
    assert_eq!(first_content(second), None);
}

fn stream(chunks: &[&[u8]]) -> (Vec<String>, String) {
    let mut reply = StreamedReply::new();
    let mut sent = Vec::new();
    let mut chunks = chunks.iter();
    let mut action = ReplyAction::Read;
    loop {
        action = match action {
            ReplyAction::Read => match chunks.next() {
                Some(chunk) => reply.step(ReplyEvent::Chunk(chunk), &parse_chunk),
                None => reply.step(ReplyEvent::Ended, &parse_chunk),
            },
            ReplyAction::Deliver(text) => {
                sent.push(text);
                reply.step(ReplyEvent::Delivered, &parse_chunk)
            }
            ReplyAction::Finish(text) => return (sent, text),
        };
    }
}

#[test]
fn streaming_stops_when_the_receiver_is_gone() {
    let line = |t: &str| format!("data: {{\"choices\":[{{\"delta\":{{\"content\":\"{}\"}}}}]}}\n", t);
    let body = line("a") + &line("b");
    let mut reply = StreamedReply::new();
    match reply.step(ReplyEvent::Chunk(body.as_bytes()), &parse_chunk) {
        ReplyAction::Deliver(text) => assert_eq!(text, "a"),
        _ => panic!("expected a delivery"),
    }
    match reply.step(ReplyEvent::ReceiverGone, &parse_chunk) {
        ReplyAction::Finish(text) => assert_eq!(text, "a"),
        _ => panic!("expected the end"),
    }
}

#[test]
fn next_snapshot_skips_lines_without_text() {
    let mut reply = StreamedReply::new();
    reply.feed(b": hello\n\ndata: {\"choices\":[]}\ndata: {\"choices\":[{\"delta\":{\"content\":\"x\"}}]}\nrest");
    assert_eq!(reply.next_snapshot(&parse_chunk).as_deref(), Some("x"));
    assert_eq!(reply.next_snapshot(&parse_chunk), None);
    reply.feed(b"\n");
    assert_eq!(reply.next_line().as_deref(), Some("rest"));
}

#[test]
fn stream_sends_accumulated_text() {
    let body = "data: {\"choices\":[{\"delta\":{\"content\":\"Gr\u{fc}\u{df}\"}}]}\r\n\r\n\
                data: {\"choices\":[{\"delta\":{\"content\":\"\"}}]}\n\
                data: {\"choices\":[{\"delta\":{\"content\":\" dich\"}}]}\n\
                data: [DONE]\n\
                data: {\"choices\":[{\"delta\":{\"content\":\"lost\"}}]}";
    let (sent, text) = stream(&[body.as_bytes()]);
    assert_eq!(sent, ["Gr\u{fc}\u{df}", "Gr\u{fc}\u{df} dich"]);
    assert_eq!(text, "Gr\u{fc}\u{df} dich");
    // Wherever the bytes are cut, the same comes out.
    for cut in 0..=body.len() {
        let (a, b) = body.as_bytes().split_at(cut);
        assert_eq!(stream(&[a, b]), (sent.clone(), text.clone()));
    }
}

#[test]
fn lines_are_decoded_lossily_and_trimmed() {
    let mut reply = StreamedReply::new();
    reply.feed(b"  a\xffb \r\n\nrest");
    assert_eq!(reply.next_line().as_deref(), Some("a\u{fffd}b"));
    assert_eq!(reply.next_line().as_deref(), Some(""));
    assert_eq!(reply.next_line(), None);
    reply.feed(b"\n");
    assert_eq!(reply.next_line().as_deref(), Some("rest"));
}

#[test]
fn empty_delta_sends_nothing() {
    let mut reply = StreamedReply::new();
    assert_eq!(reply.push_delta(None), None);
    assert_eq!(reply.push_delta(Some(String::new())), None);
    assert_eq!(reply.push_delta(Some("x".into())).as_deref(), Some("x"));
    assert_eq!(reply.push_delta(Some("y".into())).as_deref(), Some("xy"));
}

#[test]
fn url_ignores_trailing_slashes() {
    for base in ["http://h/v1", "http://h/v1/", "http://h/v1///"] {
        let c = LlmClient::new(base.into(), "m".into(), None, 1, 0, 1);
        assert_eq!(c.url(), "http://h/v1/chat/completions");
    }
    let c = LlmClient::new("//".into(), "m".into(), None, 1, 0, 1);
    assert_eq!(c.url(), "/chat/completions");
}

#[test]
fn empty_key_is_no_key() {
    let with = |key: Option<&str>| {
        LlmClient::new("u".into(), "m".into(), key.map(String::from), 1, 0, 1)
    };
    assert_eq!(with(None).bearer_token(), None);
    assert_eq!(with(Some("")).bearer_token(), None);
    assert_eq!(with(Some("k")).bearer_token(), Some("k"));
}

#[test]
fn request_carries_the_settings() {
    let c = LlmClient::new("u".into(), "model".into(), None, 7, 0.5f32.to_bits(), 9);
    let messages = vec![ChatMessage::user("hi")];
    let r = c.request(&messages, true);
    assert_eq!((r.model, r.max_tokens, r.stream), ("model", 7, true));
    assert_eq!(f32::from_bits(r.temperature), 0.5);
    assert_eq!(r.messages.len(), 1);
    assert_eq!(r.messages[0].content, "hi");
    assert!(!c.request(&messages, false).stream);
    assert_eq!((c.model(), c.max_tokens(), c.context_tokens()), ("model", 7, 9));
}

#[test]
fn reply_is_the_first_choice_or_a_stand_in() {
    let choice = |s: &str| Choice { message: AssistantMessage { content: s.into() } };
    assert_eq!(reply_text(ChatResponse { choices: vec![choice("a"), choice("b")] }), "a");
    assert_eq!(reply_text(ChatResponse { choices: vec![] }), "(no response)");
}

#[test]
fn status_decides_success() {
    for (status, ok) in [(199, false), (200, true), (204, true), (299, true), (300, false), (404, false)] {
        assert_eq!(check_status(status, "shown".into()).is_ok(), ok);
    }
    match check_status(404, "404 Not Found".into()) {
        Err(rejected) => assert_eq!(
            rejected.message("no such model"),
            "LLM request failed 404 Not Found: no such model"
        ),
        Ok(()) => panic!("expected a rejection"),
    }
}
