//! Streamed chat completions: Server-Sent Events, cut into lines and gathered into a reply.

use crate::text::{strip_prefix, str_eq, trim, trimmed};
use vstd::prelude::*;
use vstd::string::*;
use vstd::utf8::*;

verus! {

/// One chunk of a streamed response.
pub struct StreamChunk {
    pub choices: Vec<StreamChoice>,
}

/// One alternative in a chunk.
pub struct StreamChoice {
    pub delta: Delta,
}

/// What a chunk adds to an alternative.
pub struct Delta {
    pub content: Option<String>,
}

/// The content that a chunk adds: that of its first choice.
pub open spec fn chunk_content(chunk: StreamChunk) -> Option<Seq<char>> {
    if chunk.choices@.len() == 0 {
        None
    } else {
        chunk.choices@[0].delta.content.deep_view()
    }
}

/// The payload of a line of a Server-Sent Events stream: what a `data:` line carries, unless it is
/// blank or the end marker.
pub open spec fn sse_payload_of(line: Seq<char>) -> Option<Seq<char>> {
    if "data:"@.is_prefix_of(line) {
        let payload = trimmed(line.skip("data:"@.len() as int));
        if payload.len() == 0 || payload == "[DONE]"@ {
            None
        } else {
            Some(payload)
        }
    } else {
        None
    }
}

/// The payload of a line of a Server-Sent Events stream. `None` for comments, blanks and
/// `[DONE]`.
pub fn sse_payload(line: &str) -> (payload: Option<&str>)
    ensures
        payload.deep_view() == sse_payload_of(line@),
{
    match strip_prefix(line, "data:") {
        Some(rest) => {
            let payload: &str = trim(rest);
            if payload.is_empty() || str_eq(payload, "[DONE]") {
                None
            } else {
                Some(payload)
            }
        },
        None => None,
    }
}

/// The content of the first choice of a chunk.
pub fn first_content(chunk: StreamChunk) -> (content: Option<String>)
    ensures
        content.deep_view() == chunk_content(chunk),
{
    let mut choices: Vec<StreamChoice> = chunk.choices;
    if choices.len() == 0 {
        None
    } else {
        let first: StreamChoice = choices.swap_remove(0);
        first.delta.content
    }
}

/// The content that what came of parsing a payload adds.
pub open spec fn parsed_content(chunk: Option<StreamChunk>) -> Option<Seq<char>> {
    match chunk {
        Some(c) => chunk_content(c),
        None => None,
    }
}

/// Whether `delta` is a content delta that a line can have, where payloads are read with
/// `parse_chunk`.
pub open spec fn is_delta_of<F: Fn(&str) -> Option<StreamChunk>>(
    parse_chunk: F,
    line: Seq<char>,
    delta: Option<Seq<char>>,
) -> bool {
    match sse_payload_of(line) {
        None => delta is None,
        Some(p) => exists|payload: &str, chunk: Option<StreamChunk>|
            {
                &&& payload@ == p
                &&& #[trigger] call_ensures(parse_chunk, (payload,), chunk)
                &&& delta == parsed_content(chunk)
            },
    }
}

/// Parses one line of a Server-Sent Events stream, with `parse_chunk` to read a payload as a
/// chunk. Returns the content delta for `data:` lines carrying a chunk, `None` for comments,
/// blanks, `[DONE]`, payloads that are no chunk, and chunks without content.
pub fn parse_sse_line<F: Fn(&str) -> Option<StreamChunk>>(line: &str, parse_chunk: &F) -> (delta:
    Option<String>)
    requires
        forall|payload: &str| #[trigger] call_requires(*parse_chunk, (payload,)),
    ensures
        is_delta_of(*parse_chunk, line@, delta.deep_view()),
{
    match sse_payload(line) {
        Some(payload) => match parse_chunk(payload) {
            Some(chunk) => first_content(chunk),
            None => None,
        },
        None => None,
    }
}

/// The text that `String::from_utf8_lossy` makes of bytes.
pub uninterp spec fn utf8_lossy(bytes: Seq<u8>) -> Seq<char>;

/// Calls `String::from_utf8_lossy`. The text is fixed by the bytes alone; bytes that are valid
/// UTF-8 give the characters that they encode. How bytes that are not are replaced is left open.
#[verifier::external_body]
fn from_utf8_lossy(bytes: &[u8]) -> (r: String)
    ensures
        r@ == utf8_lossy(bytes@),
        valid_utf8(bytes@) ==> r@ == decode_utf8(bytes@),
{
    String::from_utf8_lossy(bytes).into_owned()
}

/// The line feed that ends a line.
pub open spec fn line_feed() -> u8 {
    10
}

/// How many bytes the first complete line of `bytes` has, its line feed included; zero where no
/// line is complete.
pub open spec fn line_len(bytes: Seq<u8>) -> int
    decreases bytes.len(),
{
    if bytes.len() == 0 {
        0
    } else if bytes[0] == line_feed() {
        1
    } else {
        let rest = line_len(bytes.drop_first());
        if rest == 0 {
            0
        } else {
            rest + 1
        }
    }
}

/// The complete lines of `bytes`, each with its line feed.
pub open spec fn complete_lines(bytes: Seq<u8>) -> Seq<Seq<u8>>
    decreases bytes.len(),
{
    let n = line_len(bytes);
    if 0 < n <= bytes.len() {
        seq![bytes.take(n)] + complete_lines(bytes.skip(n))
    } else {
        seq![]
    }
}

/// What follows the last complete line of `bytes`.
pub open spec fn unfinished_line(bytes: Seq<u8>) -> Seq<u8>
    decreases bytes.len(),
{
    let n = line_len(bytes);
    if 0 < n <= bytes.len() {
        unfinished_line(bytes.skip(n))
    } else {
        bytes
    }
}

/// The characters that bytes stand for: those that they encode where they are valid UTF-8, and what
/// is made of them with replacement characters where they are not.
pub open spec fn characters(bytes: Seq<u8>) -> Seq<char> {
    if valid_utf8(bytes) {
        decode_utf8(bytes)
    } else {
        utf8_lossy(bytes)
    }
}

/// The text of a line: its bytes as characters, without white space at either end.
pub open spec fn line_text(line: Seq<u8>) -> Seq<char> {
    trimmed(characters(line))
}

proof fn lemma_line_len(bytes: Seq<u8>, n: int)
    requires
        0 < n <= bytes.len(),
        bytes[n - 1] == line_feed(),
        forall|i: int| 0 <= i < n - 1 ==> #[trigger] bytes[i] != line_feed(),
    ensures
        line_len(bytes) == n,
    decreases bytes.len(),
{
    if n > 1 {
        assert(bytes[0] != line_feed());
        let rest = bytes.drop_first();
        assert forall|i: int| 0 <= i < n - 2 implies #[trigger] rest[i] != line_feed() by {
            assert(rest[i] == bytes[i + 1]);
        }
        lemma_line_len(rest, n - 1);
    }
}

proof fn lemma_no_line(bytes: Seq<u8>)
    requires
        forall|i: int| 0 <= i < bytes.len() ==> #[trigger] bytes[i] != line_feed(),
    ensures
        line_len(bytes) == 0,
    decreases bytes.len(),
{
    if bytes.len() > 0 {
        assert(bytes[0] != line_feed());
        let rest = bytes.drop_first();
        assert forall|i: int| 0 <= i < rest.len() implies #[trigger] rest[i] != line_feed() by {
            assert(rest[i] == bytes[i + 1]);
        }
        lemma_no_line(rest);
    }
}

proof fn lemma_line_len_append(a: Seq<u8>, b: Seq<u8>)
    ensures
        0 <= line_len(a) <= a.len(),
        line_len(a) > 0 ==> line_len(a + b) == line_len(a),
    decreases a.len(),
{
    if a.len() > 0 && a[0] != line_feed() {
        lemma_line_len_append(a.drop_first(), b);
        assert((a + b).drop_first() =~= a.drop_first() + b);
        assert((a + b)[0] == a[0]);
    } else if a.len() > 0 {
        assert((a + b)[0] == a[0]);
    }
}

/// Where the bytes of a stream are cut into chunks makes no difference: the lines that `a` and
/// then `b` complete are those that both complete at once, and so is the unfinished rest.
pub proof fn law_chunk_boundaries(a: Seq<u8>, b: Seq<u8>)
    ensures
        complete_lines(a + b) == complete_lines(a) + complete_lines(unfinished_line(a) + b),
        unfinished_line(a + b) == unfinished_line(unfinished_line(a) + b),
    decreases a.len(),
{
    lemma_line_len_append(a, b);
    let n = line_len(a);
    if n > 0 {
        law_chunk_boundaries(a.skip(n), b);
        assert((a + b).skip(n) =~= a.skip(n) + b);
        assert((a + b).take(n) =~= a.take(n));
        assert(complete_lines(a + b) =~= complete_lines(a) + complete_lines(
            unfinished_line(a) + b,
        ));
    } else {
        assert(complete_lines(a + b) =~= complete_lines(a) + complete_lines(
            unfinished_line(a) + b,
        ));
    }
}

/// All lines taken out of a stream that arrives in `chunks` after the bytes in `pending`, every
/// complete line being taken out after each chunk.
pub open spec fn lines_over(pending: Seq<u8>, chunks: Seq<Seq<u8>>) -> Seq<Seq<u8>>
    decreases chunks.len(),
{
    if chunks.len() == 0 {
        seq![]
    } else {
        let arrived = pending + chunks[0];
        complete_lines(arrived) + lines_over(unfinished_line(arrived), chunks.drop_first())
    }
}

proof fn lemma_unfinished_has_no_line(bytes: Seq<u8>)
    ensures
        line_len(unfinished_line(bytes)) == 0,
    decreases bytes.len(),
{
    lemma_line_len_append(bytes, seq![]);
    if line_len(bytes) > 0 {
        lemma_unfinished_has_no_line(bytes.skip(line_len(bytes)));
    }
}

/// However a stream is cut into chunks, its lines are those of all its bytes together.
pub proof fn law_any_chunking(pending: Seq<u8>, chunks: Seq<Seq<u8>>)
    requires
        line_len(pending) == 0,
    ensures
        lines_over(pending, chunks) == complete_lines(pending + chunks.flatten()),
    decreases chunks.len(),
{
    if chunks.len() == 0 {
        assert(pending + chunks.flatten() =~= pending);
    } else {
        let arrived = pending + chunks[0];
        let rest = chunks.drop_first();
        lemma_unfinished_has_no_line(arrived);
        law_any_chunking(unfinished_line(arrived), rest);
        law_chunk_boundaries(arrived, rest.flatten());
        assert(pending + chunks.flatten() =~= arrived + rest.flatten());
    }
}

/// A reply that is being streamed: the bytes that are not yet a line, and the text so far.
pub struct StreamedReply {
    buf: Vec<u8>,
    full: String,
}

/// What a [`StreamedReply`] holds.
pub struct Streamed {
    pub pending: Seq<u8>,
    pub text: Seq<char>,
}

impl View for StreamedReply {
    type V = Streamed;

    closed spec fn view(&self) -> Streamed {
        Streamed { pending: self.buf@, text: self.full@ }
    }
}

impl Streamed {
    /// The reply with a chunk of the response body taken in.
    pub open spec fn fed(self, chunk: Seq<u8>) -> Streamed {
        Streamed { pending: self.pending + chunk, text: self.text }
    }

    /// The reply with a content delta added to it.
    pub open spec fn extended(self, delta: Option<Seq<char>>) -> Streamed {
        match delta {
            Some(content) => Streamed { pending: self.pending, text: self.text + content },
            None => self,
        }
    }
}

/// Whether a content delta adds any text.
pub open spec fn has_text(delta: Option<Seq<char>>) -> bool {
    delta matches Some(content) && content.len() > 0
}

/// None of `deltas` adds any text.
pub open spec fn no_text(deltas: Seq<Option<Seq<char>>>) -> bool {
    forall|i: int| 0 <= i < deltas.len() ==> !has_text(#[trigger] deltas[i])
}

/// The first lines among `lines` have the content deltas `deltas`.
pub open spec fn read_as<F: Fn(&str) -> Option<StreamChunk>>(
    parse_chunk: F,
    lines: Seq<Seq<u8>>,
    deltas: Seq<Option<Seq<char>>>,
) -> bool {
    &&& deltas.len() <= lines.len()
    &&& forall|i: int|
        0 <= i < deltas.len() ==> is_delta_of(parse_chunk, line_text(lines[i]), #[trigger] deltas[i])
}

/// `before` becomes `after` by taking out lines with the content deltas `deltas`: either up to the
/// first line that adds text, and then `snapshot` is the text so far, or all complete lines, where
/// none of them does.
pub open spec fn takes_out<F: Fn(&str) -> Option<StreamChunk>>(
    parse_chunk: F,
    before: Streamed,
    after: Streamed,
    snapshot: Option<Seq<char>>,
    deltas: Seq<Option<Seq<char>>>,
) -> bool {
    let lines = complete_lines(before.pending);
    &&& read_as(parse_chunk, lines, deltas)
    &&& match snapshot {
        Some(text) => {
            &&& deltas.len() > 0
            &&& has_text(deltas.last())
            &&& no_text(deltas.drop_last())
            &&& text == after.text
        },
        None => deltas.len() == lines.len() && no_text(deltas),
    }
    &&& after.text == before.text + accumulated(deltas)
    &&& complete_lines(after.pending) == lines.skip(deltas.len() as int)
    &&& unfinished_line(after.pending) == unfinished_line(before.pending)
}

/// What has happened to a stream.
pub enum ReplyEvent<'a> {
    /// A chunk of the response body arrived.
    Chunk(&'a [u8]),
    /// The text was delivered.
    Delivered,
    /// The receiver of the text is gone.
    ReceiverGone,
    /// The response body is complete.
    Ended,
}

/// What a stream asks for next.
pub enum ReplyAction {
    /// Read the next chunk of the response body.
    Read,
    /// Deliver the accumulated text to the receiver.
    Deliver(String),
    /// The stream is over; this is the text.
    Finish(String),
}

/// What a [`ReplyAction`] holds.
pub enum ReplyActionView {
    Read,
    Deliver(Seq<char>),
    Finish(Seq<char>),
}

impl View for ReplyAction {
    type V = ReplyActionView;

    open spec fn view(&self) -> ReplyActionView {
        match self {
            ReplyAction::Read => ReplyActionView::Read,
            ReplyAction::Deliver(text) => ReplyActionView::Deliver(text@),
            ReplyAction::Finish(text) => ReplyActionView::Finish(text@),
        }
    }
}

/// What a stream asks for that has a snapshot to send on, or none.
pub open spec fn send_or_read(snapshot: Option<Seq<char>>) -> ReplyActionView {
    match snapshot {
        Some(text) => ReplyActionView::Deliver(text),
        None => ReplyActionView::Read,
    }
}

impl StreamedReply {
    /// A reply of which nothing has arrived.
    pub fn new() -> (r: StreamedReply)
        ensures
            r@.pending.len() == 0,
            r@.text.len() == 0,
    {
        StreamedReply { buf: Vec::new(), full: String::new() }
    }

    /// Takes in a chunk of the response body.
    pub fn feed(&mut self, chunk: &[u8])
        ensures
            final(self)@ == old(self)@.fed(chunk@),
    {
        self.buf.extend_from_slice(chunk);
        assert(self.buf@ =~= old(self).buf@ + chunk@);
    }

    /// Takes out the first complete (newline-terminated) line, trimmed. `None` where no line is
    /// complete.
    pub fn next_line(&mut self) -> (line: Option<String>)
        ensures
            final(self)@.text == old(self)@.text,
            ({
                let pending = old(self)@.pending;
                let n = line_len(pending);
                if n == 0 {
                    line is None && final(self)@.pending == pending
                } else {
                    &&& 0 < n <= pending.len()
                    &&& line.deep_view() == Some(line_text(pending.take(n)))
                    &&& final(self)@.pending == pending.skip(n)
                }
            }),
    {
        let mut pos: usize = 0;
        while pos < self.buf.len() && self.buf[pos] != 10
            invariant
                pos <= self.buf@.len(),
                *self == *old(self),
                forall|i: int| 0 <= i < pos ==> #[trigger] self.buf@[i] != line_feed(),
            decreases self.buf.len() - pos,
        {
            pos = pos + 1;
        }
        if pos == self.buf.len() {
            proof {
                lemma_no_line(self.buf@);
            }
            return None;
        }
        proof {
            lemma_line_len(self.buf@, pos + 1);
        }
        let rest: Vec<u8> = self.buf.split_off(pos + 1);
        let line: String = from_utf8_lossy(self.buf.as_slice());
        proof {
            assert(self.buf@ =~= old(self).buf@.take(pos + 1));
            assert(rest@ =~= old(self).buf@.skip(pos + 1));
        }
        self.buf = rest;
        Some(trim(line.as_str()).to_string())
    }

    /// Adds a content delta to the reply. Where it adds any text, what comes back is the
    /// accumulated text, to be sent on.
    pub fn push_delta(&mut self, delta: Option<String>) -> (snapshot: Option<String>)
        ensures
            final(self)@ == old(self)@.extended(delta.deep_view()),
            snapshot.deep_view() == if has_text(delta.deep_view()) {
                Some(final(self)@.text)
            } else {
                None
            },
    {
        match delta {
            Some(content) => {
                self.full.append(content.as_str());
                if content.as_str().is_empty() {
                    assert(self.full@ =~= old(self).full@);
                    None
                } else {
                    Some(self.full.clone())
                }
            },
            None => None,
        }
    }

    /// Takes out lines up to the first that adds text, and gives the accumulated text to be sent
    /// on. `None` where no complete line adds any: then all of them are taken out.
    pub fn next_snapshot<F: Fn(&str) -> Option<StreamChunk>>(&mut self, parse_chunk: &F) -> (snapshot:
        Option<String>)
        requires
            forall|payload: &str| #[trigger] call_requires(*parse_chunk, (payload,)),
        ensures
            exists|deltas: Seq<Option<Seq<char>>>| #[trigger]
                takes_out(*parse_chunk, old(self)@, final(self)@, snapshot.deep_view(), deltas),
    {
        let ghost before = self@;
        let ghost mut deltas: Seq<Option<Seq<char>>> = seq![];
        proof {
            assert(complete_lines(before.pending).skip(0) =~= complete_lines(before.pending));
            assert(before.text + accumulated(deltas) =~= before.text);
        }
        loop
            invariant
                before == old(self)@,
                forall|payload: &str| #[trigger] call_requires(*parse_chunk, (payload,)),
                read_as(*parse_chunk, complete_lines(before.pending), deltas),
                no_text(deltas),
                self@.text == before.text + accumulated(deltas),
                complete_lines(self@.pending) == complete_lines(before.pending).skip(
                    deltas.len() as int,
                ),
                unfinished_line(self@.pending) == unfinished_line(before.pending),
            decreases self@.pending.len(),
        {
            let ghost at = self@;
            match self.next_line() {
                Some(line) => {
                    let delta: Option<String> = parse_sse_line(line.as_str(), parse_chunk);
                    let ghost d = delta.deep_view();
                    let ghost fore = deltas;
                    let ghost lines = complete_lines(before.pending);
                    let snapshot: Option<String> = self.push_delta(delta);
                    proof {
                        let n = line_len(at.pending);
                        let k = fore.len() as int;
                        assert(complete_lines(at.pending)[0] == at.pending.take(n));
                        assert(lines.skip(k).len() == lines.len() - k);
                        assert(lines.skip(k)[0] == lines[k]);
                        deltas = fore.push(d);
                        assert(deltas.drop_last() =~= fore);
                        assert forall|i: int| 0 <= i < deltas.len() implies is_delta_of(
                            *parse_chunk,
                            line_text(lines[i]),
                            #[trigger] deltas[i],
                        ) by {
                            if i < k {
                                assert(deltas[i] == fore[i]);
                            }
                        }
                        assert(self@.text =~= before.text + accumulated(deltas));
                        assert(complete_lines(at.pending).drop_first() =~= complete_lines(
                            at.pending.skip(n),
                        ));
                        assert(lines.skip(k).drop_first() =~= lines.skip(k + 1));
                    }
                    if let Some(text) = snapshot {
                        assert(takes_out(
                            *parse_chunk,
                            before,
                            self@,
                            Some(text@),
                            deltas,
                        ));
                        return Some(text);
                    }
                    proof {
                        assert forall|i: int| 0 <= i < deltas.len() implies !has_text(
                            #[trigger] deltas[i],
                        ) by {
                            if i < fore.len() {
                                assert(deltas[i] == fore[i]);
                            }
                        }
                    }
                },
                None => {
                    proof {
                        let lines = complete_lines(before.pending);
                        assert(complete_lines(self@.pending).len() == 0);
                        assert(lines.skip(deltas.len() as int).len() == lines.len() - deltas.len());
                        assert(takes_out(*parse_chunk, before, self@, None, deltas));
                    }
                    return None;
                },
            }
        }
    }

    /// Takes in what has happened to the stream, and tells what to do next. Once the receiver is
    /// gone, streaming stops with the text so far.
    pub fn step<'a, F: Fn(&str) -> Option<StreamChunk>>(
        &mut self,
        event: ReplyEvent<'a>,
        parse_chunk: &F,
    ) -> (action: ReplyAction)
        requires
            forall|payload: &str| #[trigger] call_requires(*parse_chunk, (payload,)),
        ensures
            match event {
                ReplyEvent::Chunk(chunk) => exists|
                    snapshot: Option<Seq<char>>,
                    deltas: Seq<Option<Seq<char>>>,
                |
                    {
                        &&& #[trigger] takes_out(
                            *parse_chunk,
                            old(self)@.fed(chunk@),
                            final(self)@,
                            snapshot,
                            deltas,
                        )
                        &&& action@ == send_or_read(snapshot)
                    },
                ReplyEvent::Delivered => exists|
                    snapshot: Option<Seq<char>>,
                    deltas: Seq<Option<Seq<char>>>,
                |
                    {
                        &&& #[trigger] takes_out(
                            *parse_chunk,
                            old(self)@,
                            final(self)@,
                            snapshot,
                            deltas,
                        )
                        &&& action@ == send_or_read(snapshot)
                    },
                ReplyEvent::ReceiverGone => {
                    &&& final(self)@ == old(self)@
                    &&& action@ == ReplyActionView::Finish(old(self)@.text)
                },
                ReplyEvent::Ended => {
                    &&& final(self)@ == old(self)@
                    &&& action@ == ReplyActionView::Finish(old(self)@.text)
                },
            },
    {
        match event {
            ReplyEvent::Chunk(chunk) => {
                self.feed(chunk);
            },
            ReplyEvent::Delivered => {},
            ReplyEvent::ReceiverGone => {
                return ReplyAction::Finish(self.full.clone());
            },
            ReplyEvent::Ended => {
                return ReplyAction::Finish(self.full.clone());
            },
        }
        match self.next_snapshot(parse_chunk) {
            Some(text) => ReplyAction::Deliver(text),
            None => ReplyAction::Read,
        }
    }
}

/// The text that `deltas` add up to.
pub open spec fn accumulated(deltas: Seq<Option<Seq<char>>>) -> Seq<char>
    decreases deltas.len(),
{
    if deltas.len() == 0 {
        seq![]
    } else {
        match deltas.last() {
            Some(content) => accumulated(deltas.drop_last()) + content,
            None => accumulated(deltas.drop_last()),
        }
    }
}

/// The reply after `deltas` have been added to it one after the other.
pub open spec fn after_deltas(reply: Streamed, deltas: Seq<Option<Seq<char>>>) -> Streamed
    decreases deltas.len(),
{
    if deltas.len() == 0 {
        reply
    } else {
        after_deltas(reply, deltas.drop_last()).extended(deltas.last())
    }
}

/// The snapshots that adding `deltas` to a reply gives to send on.
pub open spec fn snapshots(reply: Streamed, deltas: Seq<Option<Seq<char>>>) -> Seq<Seq<char>>
    decreases deltas.len(),
{
    if deltas.len() == 0 {
        seq![]
    } else {
        let before = snapshots(reply, deltas.drop_last());
        if has_text(deltas.last()) {
            before.push(after_deltas(reply, deltas).text)
        } else {
            before
        }
    }
}

/// The complete text is what the deltas add up to; where any of them adds text, it is also the
/// last snapshot, and every snapshot is a longer text that starts with the one before it.
pub proof fn law_snapshots_grow_to_the_reply(reply: Streamed, deltas: Seq<Option<Seq<char>>>)
    requires
        reply.text.len() == 0,
    ensures
        after_deltas(reply, deltas).text == accumulated(deltas),
        after_deltas(reply, deltas).pending == reply.pending,
        snapshots(reply, deltas).len() == 0 ==> accumulated(deltas).len() == 0,
        snapshots(reply, deltas).len() > 0 ==> snapshots(reply, deltas).last() == accumulated(
            deltas,
        ),
        forall|i: int, j: int|
            #![trigger snapshots(reply, deltas)[i], snapshots(reply, deltas)[j]]
            0 <= i < j < snapshots(reply, deltas).len() ==> {
                &&& snapshots(reply, deltas)[i].len() < snapshots(reply, deltas)[j].len()
                &&& snapshots(reply, deltas)[i].is_prefix_of(snapshots(reply, deltas)[j])
            },
    decreases deltas.len(),
{
    if deltas.len() == 0 {
        assert(reply.text =~= seq![]);
    } else {
        let fore = deltas.drop_last();
        law_snapshots_grow_to_the_reply(reply, fore);
        let all = snapshots(reply, deltas);
        let before = snapshots(reply, fore);
        let text = after_deltas(reply, fore).text;
        let grown = after_deltas(reply, deltas).text;
        if has_text(deltas.last()) {
            assert(grown == text + deltas.last()->0);
            assert(text =~= grown.take(text.len() as int));
            assert forall|i: int, j: int|
                #![trigger all[i], all[j]]
                0 <= i < j < all.len() implies {
                &&& all[i].len() < all[j].len()
                &&& all[i].is_prefix_of(all[j])
            } by {
                if j < before.len() {
                    assert(all[i] == before[i] && all[j] == before[j]);
                } else {
                    let last = before.len() - 1;
                    assert(all[i] == before[i]);
                    assert(before[last] == text);
                    if i < last {
                        assert(before[i].is_prefix_of(before[last]));
                        assert(before[i] =~= grown.take(before[i].len() as int));
                    }
                }
            }
        } else {
            assert(grown =~= text);
            assert(accumulated(deltas) =~= accumulated(fore));
        }
    }
}

/// `parse_chunk` is a function of the payload text: the content that it finds in a payload is what
/// `content` says.
pub open spec fn finds<F: Fn(&str) -> Option<StreamChunk>>(
    parse_chunk: F,
    content: spec_fn(Seq<char>) -> Option<Seq<char>>,
) -> bool {
    forall|payload: &str, chunk: Option<StreamChunk>| #[trigger]
        call_ensures(parse_chunk, (payload,), chunk) ==> parsed_content(chunk) == content(payload@)
}

/// The content delta of a line, where the content of a payload is what `content` says.
pub open spec fn delta_of(
    content: spec_fn(Seq<char>) -> Option<Seq<char>>,
    line: Seq<u8>,
) -> Option<Seq<char>> {
    match sse_payload_of(line_text(line)) {
        Some(payload) => content(payload),
        None => None,
    }
}

/// The content deltas of `lines`.
pub open spec fn deltas_of(
    content: spec_fn(Seq<char>) -> Option<Seq<char>>,
    lines: Seq<Seq<u8>>,
) -> Seq<Option<Seq<char>>> {
    Seq::new(lines.len(), |i: int| delta_of(content, lines[i]))
}

impl Streamed {
    /// The reply after lines have been taken out up to the first that adds text, and the text so
    /// far where one does.
    pub open spec fn snapshot_taken(self, content: spec_fn(Seq<char>) -> Option<Seq<char>>) -> (
        Streamed,
        Option<Seq<char>>,
    )
        decreases self.pending.len(),
    {
        let n = line_len(self.pending);
        if 0 < n <= self.pending.len() {
            let delta = delta_of(content, self.pending.take(n));
            let rest = Streamed { pending: self.pending.skip(n), text: self.text }.extended(delta);
            if has_text(delta) {
                (rest, Some(rest.text))
            } else {
                rest.snapshot_taken(content)
            }
        } else {
            (self, None)
        }
    }

    /// The reply after every snapshot that the pending bytes give has been taken and sent on, and
    /// these snapshots.
    pub open spec fn all_sent(self, content: spec_fn(Seq<char>) -> Option<Seq<char>>) -> (
        Streamed,
        Seq<Seq<char>>,
    )
        decreases self.pending.len(),
    {
        let (rest, snapshot) = self.snapshot_taken(content);
        match snapshot {
            Some(text) if rest.pending.len() < self.pending.len() => {
                let (end, more) = rest.all_sent(content);
                (end, seq![text] + more)
            },
            _ => (rest, seq![]),
        }
    }

    /// The reply after a stream that arrived in `chunks`, every snapshot being sent on, and these
    /// snapshots.
    pub open spec fn streamed(
        self,
        content: spec_fn(Seq<char>) -> Option<Seq<char>>,
        chunks: Seq<Seq<u8>>,
    ) -> (Streamed, Seq<Seq<char>>)
        decreases chunks.len(),
    {
        if chunks.len() == 0 {
            (self, seq![])
        } else {
            let (rest, sent) = self.fed(chunks[0]).all_sent(content);
            let (end, more) = rest.streamed(content, chunks.drop_first());
            (end, sent + more)
        }
    }
}

proof fn lemma_rejoined(bytes: Seq<u8>)
    ensures
        complete_lines(bytes).flatten() + unfinished_line(bytes) == bytes,
    decreases bytes.len(),
{
    lemma_line_len_append(bytes, seq![]);
    let n = line_len(bytes);
    if n > 0 {
        lemma_rejoined(bytes.skip(n));
        let lines = complete_lines(bytes);
        assert(lines.drop_first() =~= complete_lines(bytes.skip(n)));
        assert(lines.flatten() == lines.first() + lines.drop_first().flatten());
        assert(lines.flatten() + unfinished_line(bytes) =~= bytes.take(n) + bytes.skip(n));
        assert(bytes.take(n) + bytes.skip(n) =~= bytes);
    } else {
        assert(complete_lines(bytes).flatten() + unfinished_line(bytes) =~= bytes);
    }
}

proof fn lemma_same_bytes(a: Seq<u8>, b: Seq<u8>)
    requires
        complete_lines(a) == complete_lines(b),
        unfinished_line(a) == unfinished_line(b),
    ensures
        a == b,
{
    lemma_rejoined(a);
    lemma_rejoined(b);
}

proof fn lemma_accumulated_front(deltas: Seq<Option<Seq<char>>>)
    requires
        deltas.len() > 0,
    ensures
        accumulated(deltas) == (match deltas[0] {
            Some(content) => content,
            None => Seq::<char>::empty(),
        }) + accumulated(deltas.drop_first()),
    decreases deltas.len(),
{
    if deltas.len() == 1 {
        assert(deltas.drop_last() =~= seq![]);
        assert(deltas.drop_first() =~= seq![]);
        assert(accumulated(deltas) =~= (match deltas[0] {
            Some(content) => content,
            None => Seq::<char>::empty(),
        }) + accumulated(deltas.drop_first()));
    } else {
        lemma_accumulated_front(deltas.drop_last());
        assert(deltas.drop_last().drop_first() =~= deltas.drop_first().drop_last());
        assert(accumulated(deltas) =~= (match deltas[0] {
            Some(content) => content,
            None => Seq::<char>::empty(),
        }) + accumulated(deltas.drop_first()));
    }
}

/// With a chunk parser that is a function of the payload text, what is taken out of a reply, and
/// the snapshot that it gives, are fixed by the reply alone.
pub proof fn law_snapshot_is_fixed<F: Fn(&str) -> Option<StreamChunk>>(
    parse_chunk: F,
    content: spec_fn(Seq<char>) -> Option<Seq<char>>,
    before: Streamed,
    after: Streamed,
    snapshot: Option<Seq<char>>,
    deltas: Seq<Option<Seq<char>>>,
)
    requires
        finds(parse_chunk, content),
        takes_out(parse_chunk, before, after, snapshot, deltas),
    ensures
        (after, snapshot) == before.snapshot_taken(content),
    decreases before.pending.len(),
{
    lemma_line_len_append(before.pending, seq![]);
    let n = line_len(before.pending);
    let lines = complete_lines(before.pending);
    if n == 0 {
        assert(deltas =~= seq![]);
        assert(after.text =~= before.text);
        assert(lines.skip(0) =~= lines);
        lemma_same_bytes(after.pending, before.pending);
    } else {
        let line = before.pending.take(n);
        assert(lines[0] == line);
        assert(deltas.len() > 0);
        let delta = deltas[0];
        assert(is_delta_of(parse_chunk, line_text(lines[0]), delta));
        assert(delta == delta_of(content, line));
        assert(lines.drop_first() =~= complete_lines(before.pending.skip(n)));
        lemma_accumulated_front(deltas);
        let rest = Streamed { pending: before.pending.skip(n), text: before.text }.extended(delta);
        let more = deltas.drop_first();
        if has_text(delta) {
            if deltas.len() > 1 {
                assert(deltas.drop_last()[0] == delta);
                assert(false);
            }
            assert(more =~= seq![]);
            assert(after.text =~= rest.text);
            assert(lines.skip(1) =~= lines.drop_first());
            lemma_same_bytes(after.pending, rest.pending);
        } else {
            let left = complete_lines(rest.pending);
            assert(left == lines.drop_first());
            assert forall|i: int| 0 <= i < more.len() implies is_delta_of(
                parse_chunk,
                line_text(left[i]),
                #[trigger] more[i],
            ) by {
                assert(more[i] == deltas[i + 1]);
                assert(left[i] == lines[i + 1]);
            }
            match snapshot {
                Some(text) => {
                    assert(deltas.len() > 1);
                    assert(more.last() == deltas.last());
                    assert forall|i: int| 0 <= i < more.drop_last().len() implies !has_text(
                        #[trigger] more.drop_last()[i],
                    ) by {
                        assert(more.drop_last()[i] == deltas.drop_last()[i + 1]);
                    }
                },
                None => {
                    assert forall|i: int| 0 <= i < more.len() implies !has_text(
                        #[trigger] more[i],
                    ) by {
                        assert(more[i] == deltas[i + 1]);
                    }
                },
            }
            assert(after.text =~= rest.text + accumulated(more));
            assert(lines.skip(deltas.len() as int) =~= left.skip(more.len() as int));
            law_snapshot_is_fixed(parse_chunk, content, rest, after, snapshot, more);
        }
    }
}

proof fn lemma_after_deltas_text(reply: Streamed, deltas: Seq<Option<Seq<char>>>)
    ensures
        after_deltas(reply, deltas).text == reply.text + accumulated(deltas),
    decreases deltas.len(),
{
    if deltas.len() > 0 {
        lemma_after_deltas_text(reply, deltas.drop_last());
    }
    assert(after_deltas(reply, deltas).text =~= reply.text + accumulated(deltas));
}

proof fn lemma_deltas_append(
    a: Streamed,
    first: Seq<Option<Seq<char>>>,
    b: Streamed,
    second: Seq<Option<Seq<char>>>,
)
    requires
        b.text == a.text + accumulated(first),
    ensures
        accumulated(first + second) == accumulated(first) + accumulated(second),
        snapshots(a, first + second) == snapshots(a, first) + snapshots(b, second),
    decreases second.len(),
{
    let both = first + second;
    if second.len() == 0 {
        assert(both =~= first);
        assert(accumulated(both) =~= accumulated(first) + accumulated(second));
        assert(snapshots(a, both) =~= snapshots(a, first) + snapshots(b, second));
    } else {
        let fore = second.drop_last();
        lemma_deltas_append(a, first, b, fore);
        assert(both.drop_last() =~= first + fore);
        assert(both.last() == second.last());
        assert(accumulated(both) =~= accumulated(first) + accumulated(second));
        lemma_after_deltas_text(a, both);
        lemma_after_deltas_text(b, second);
        assert(after_deltas(a, both).text =~= after_deltas(b, second).text);
        assert(snapshots(a, both) =~= snapshots(a, first) + snapshots(b, second));
    }
}

proof fn lemma_snapshot_taken(reply: Streamed, content: spec_fn(Seq<char>) -> Option<Seq<char>>)
    ensures
        ({
            let (rest, snapshot) = reply.snapshot_taken(content);
            let deltas = deltas_of(content, complete_lines(reply.pending));
            let more = deltas_of(content, complete_lines(rest.pending));
            match snapshot {
                None => {
                    &&& rest.pending == unfinished_line(reply.pending)
                    &&& rest.text == reply.text + accumulated(deltas)
                    &&& snapshots(reply, deltas) == Seq::<Seq<char>>::empty()
                },
                Some(text) => {
                    &&& rest.pending.len() < reply.pending.len()
                    &&& unfinished_line(rest.pending) == unfinished_line(reply.pending)
                    &&& reply.text + accumulated(deltas) == rest.text + accumulated(more)
                    &&& snapshots(reply, deltas) == seq![text] + snapshots(rest, more)
                },
            }
        }),
    decreases reply.pending.len(),
{
    lemma_line_len_append(reply.pending, seq![]);
    let n = line_len(reply.pending);
    let lines = complete_lines(reply.pending);
    let deltas = deltas_of(content, lines);
    if n == 0 {
        assert(reply.text + accumulated(deltas) =~= reply.text);
    } else {
        let delta = delta_of(content, reply.pending.take(n));
        let next = Streamed { pending: reply.pending.skip(n), text: reply.text }.extended(delta);
        let left = deltas_of(content, complete_lines(next.pending));
        let one = seq![delta];
        assert(lines =~= seq![reply.pending.take(n)] + complete_lines(next.pending));
        assert(deltas =~= one + left);
        assert(one.drop_last() =~= Seq::<Option<Seq<char>>>::empty());
        assert(accumulated(one.drop_last()) =~= Seq::<char>::empty());
        assert(next.text =~= reply.text + accumulated(one));
        lemma_deltas_append(reply, one, next, left);
        lemma_after_deltas_text(reply, one);
        assert(snapshots(reply, one.drop_last()) =~= Seq::<Seq<char>>::empty());
        assert(one.last() == delta);
        assert(reply.text + accumulated(deltas) =~= next.text + accumulated(left));
        if has_text(delta) {
            assert(snapshots(reply, one) =~= seq![next.text]);
        } else {
            assert(snapshots(reply, one) =~= Seq::<Seq<char>>::empty());
            lemma_snapshot_taken(next, content);
            assert(snapshots(reply, deltas) =~= snapshots(next, left));
        }
    }
}

proof fn lemma_all_sent(reply: Streamed, content: spec_fn(Seq<char>) -> Option<Seq<char>>)
    ensures
        ({
            let deltas = deltas_of(content, complete_lines(reply.pending));
            reply.all_sent(content) == (
                Streamed {
                    pending: unfinished_line(reply.pending),
                    text: reply.text + accumulated(deltas),
                },
                snapshots(reply, deltas),
            )
        }),
    decreases reply.pending.len(),
{
    lemma_snapshot_taken(reply, content);
    let (rest, snapshot) = reply.snapshot_taken(content);
    if snapshot is Some {
        lemma_all_sent(rest, content);
    }
}

/// Each time that lines are taken out of a reply, what comes out is the next of all the snapshots
/// that its pending bytes give, until there is none left.
pub proof fn law_next_of_all<F: Fn(&str) -> Option<StreamChunk>>(
    parse_chunk: F,
    content: spec_fn(Seq<char>) -> Option<Seq<char>>,
    before: Streamed,
    after: Streamed,
    snapshot: Option<Seq<char>>,
    deltas: Seq<Option<Seq<char>>>,
)
    requires
        finds(parse_chunk, content),
        takes_out(parse_chunk, before, after, snapshot, deltas),
    ensures
        before.all_sent(content) == match snapshot {
            Some(text) => {
                let (end, more) = after.all_sent(content);
                (end, seq![text] + more)
            },
            None => (after, seq![]),
        },
{
    law_snapshot_is_fixed(parse_chunk, content, before, after, snapshot, deltas);
    lemma_snapshot_taken(before, content);
}

/// What a stream sends and returns is fixed by its lines: it sends the snapshots that their content
/// deltas give, and returns the text that they add up to.
pub proof fn law_stream_follows_its_lines(
    reply: Streamed,
    content: spec_fn(Seq<char>) -> Option<Seq<char>>,
    chunks: Seq<Seq<u8>>,
)
    requires
        line_len(reply.pending) == 0,
    ensures
        ({
            let bytes = reply.pending + chunks.flatten();
            let deltas = deltas_of(content, complete_lines(bytes));
            reply.streamed(content, chunks) == (
                Streamed { pending: unfinished_line(bytes), text: reply.text + accumulated(deltas) },
                snapshots(reply, deltas),
            )
        }),
    decreases chunks.len(),
{
    let bytes = reply.pending + chunks.flatten();
    let deltas = deltas_of(content, complete_lines(bytes));
    if chunks.len() == 0 {
        assert(bytes =~= reply.pending);
        assert(deltas =~= Seq::<Option<Seq<char>>>::empty());
        assert(reply.text + accumulated(deltas) =~= reply.text);
    } else {
        let arrived = reply.fed(chunks[0]);
        let tail = chunks.drop_first();
        let first = deltas_of(content, complete_lines(arrived.pending));
        lemma_all_sent(arrived, content);
        let (rest, sent) = arrived.all_sent(content);
        lemma_unfinished_has_no_line(arrived.pending);
        law_stream_follows_its_lines(rest, content, tail);
        let second = deltas_of(content, complete_lines(rest.pending + tail.flatten()));
        law_chunk_boundaries(arrived.pending, tail.flatten());
        assert(bytes =~= arrived.pending + tail.flatten());
        assert(deltas =~= first + second);
        lemma_deltas_append(reply, first, rest, second);
        lemma_same_snapshots(reply, arrived, first);
        assert(reply.text + accumulated(deltas) =~= rest.text + accumulated(second));
    }
}

proof fn lemma_same_snapshots(a: Streamed, b: Streamed, deltas: Seq<Option<Seq<char>>>)
    requires
        a.text == b.text,
    ensures
        snapshots(a, deltas) == snapshots(b, deltas),
    decreases deltas.len(),
{
    if deltas.len() > 0 {
        lemma_same_snapshots(a, b, deltas.drop_last());
        lemma_after_deltas_text(a, deltas);
        lemma_after_deltas_text(b, deltas);
    }
}

/// Where the bytes of a stream are cut into chunks makes no difference to what is sent and what is
/// returned.
pub proof fn law_cuts_make_no_difference(
    reply: Streamed,
    content: spec_fn(Seq<char>) -> Option<Seq<char>>,
    a: Seq<Seq<u8>>,
    b: Seq<Seq<u8>>,
)
    requires
        line_len(reply.pending) == 0,
        a.flatten() == b.flatten(),
    ensures
        reply.streamed(content, a) == reply.streamed(content, b),
{
    law_stream_follows_its_lines(reply, content, a);
    law_stream_follows_its_lines(reply, content, b);
}

/// The content of a chunk is that of its first choice, character for character, whatever the other
/// choices are; a chunk without choices, or whose first choice has no content, has none.
pub proof fn law_content_is_kept(chunk: StreamChunk, s: String, content: Option<String>)
    requires
        call_ensures(first_content, (chunk,), content),
    ensures
        chunk.choices@.len() > 0 && chunk.choices@[0].delta.content == Some(s)
            ==> content.deep_view() == Some(s@),
        chunk.choices@.len() > 0 && chunk.choices@[0].delta.content is None ==> content is None,
        chunk.choices@.len() == 0 ==> content is None,
        content.deep_view() == chunk_content(chunk),
{
    assert(content.deep_view() is None <==> content is None);
}

/// The payload of a `data:` line is what follows, trimmed, unless that is empty or the end marker;
/// a line that does not start so has none.
pub proof fn law_payload_follows_data(line: &str, rest: Seq<char>, payload: Option<&str>)
    requires
        call_ensures(sse_payload, (line,), payload),
    ensures
        line@ == "data:"@ + rest && trimmed(rest).len() > 0 && trimmed(rest) != "[DONE]"@
            ==> payload.deep_view() == Some(trimmed(rest)),
        line@ == "data:"@ + rest && (trimmed(rest).len() == 0 || trimmed(rest) == "[DONE]"@)
            ==> payload is None,
        payload is Some ==> exists|follows: Seq<char>| line@ == #[trigger] ("data:"@ + follows),
        payload.deep_view() == sse_payload_of(line@),
{
    assert(payload.deep_view() is None <==> payload is None);
    if line@ == "data:"@ + rest {
        lemma_payload(rest);
    }
    if payload is Some {
        let follows = line@.skip("data:"@.len() as int);
        assert(line@ =~= "data:"@ + follows);
    }
}

proof fn lemma_payload(rest: Seq<char>)
    ensures
        sse_payload_of("data:"@ + rest) == if trimmed(rest).len() == 0 || trimmed(rest)
            == "[DONE]"@ {
            None::<Seq<char>>
        } else {
            Some(trimmed(rest))
        },
{
    let line = "data:"@ + rest;
    assert("data:"@ =~= line.subrange(0, "data:"@.len() as int));
    assert(line.skip("data:"@.len() as int) =~= rest);
}

/// Every chunk that the payload `p` can be read as has `s` as the content of its first choice.
pub open spec fn always_carries<F: Fn(&str) -> Option<StreamChunk>>(
    parse_chunk: F,
    p: Seq<char>,
    s: Seq<char>,
) -> bool {
    forall|payload: &str, chunk: Option<StreamChunk>|
        payload@ == p && #[trigger] call_ensures(parse_chunk, (payload,), chunk) ==> (
        chunk matches Some(c) && c.choices@.len() > 0 && (
        c.choices@[0].delta.content matches Some(text) && text@ == s))
}

/// The payload `p` cannot be read as a chunk whose first choice has content.
pub open spec fn never_carries<F: Fn(&str) -> Option<StreamChunk>>(
    parse_chunk: F,
    p: Seq<char>,
) -> bool {
    forall|payload: &str, chunk: Option<StreamChunk>|
        payload@ == p && #[trigger] call_ensures(parse_chunk, (payload,), chunk) ==> (
        chunk matches Some(c) ==> c.choices@.len() == 0 || c.choices@[0].delta.content is None)
}

proof fn lemma_delta<F: Fn(&str) -> Option<StreamChunk>>(
    parse_chunk: F,
    rest: Seq<char>,
    s: Seq<char>,
    delta: Option<Seq<char>>,
)
    requires
        is_delta_of(parse_chunk, "data:"@ + rest, delta),
    ensures
        trimmed(rest).len() > 0 && trimmed(rest) != "[DONE]"@ && always_carries(
            parse_chunk,
            trimmed(rest),
            s,
        ) ==> delta == Some(s),
        never_carries(parse_chunk, trimmed(rest)) ==> delta is None,
        trimmed(rest).len() == 0 || trimmed(rest) == "[DONE]"@ ==> delta is None,
{
    lemma_payload(rest);
}

/// The content delta of a `data:` line is the content of the first choice of the chunk that its
/// payload is read as, character for character. The end marker, a blank payload, one that is no
/// chunk and one whose chunk has no content give none, and neither does a line of any other kind.
pub proof fn law_delta_is_the_content<F: Fn(&str) -> Option<StreamChunk>>(
    line: &str,
    parse_chunk: F,
    rest: Seq<char>,
    s: Seq<char>,
    delta: Option<String>,
)
    requires
        call_ensures(parse_sse_line::<F>, (line, &parse_chunk), delta),
    ensures
        line@ == "data:"@ + rest && trimmed(rest).len() > 0 && trimmed(rest) != "[DONE]"@
            && always_carries(parse_chunk, trimmed(rest), s) ==> delta.deep_view() == Some(s),
        line@ == "data:"@ + rest && never_carries(parse_chunk, trimmed(rest)) ==> delta is None,
        line@ == "data:"@ + rest && (trimmed(rest).len() == 0 || trimmed(rest) == "[DONE]"@)
            ==> delta is None,
        !"data:"@.is_prefix_of(line@) ==> delta is None,
        is_delta_of(parse_chunk, line@, delta.deep_view()),
{
    assert(delta.deep_view() is None <==> delta is None);
    if line@ == "data:"@ + rest {
        lemma_delta(parse_chunk, rest, s, delta.deep_view());
    }
}

/// The complete lines of bytes, and the unfinished rest behind them, are all of the bytes in their
/// order; each line ends with its only line feed, and the rest has none.
pub proof fn law_lines_are_all_the_bytes(bytes: Seq<u8>)
    ensures
        complete_lines(bytes).flatten() + unfinished_line(bytes) == bytes,
        forall|i: int, k: int|
            0 <= i < complete_lines(bytes).len() && 0 <= k < complete_lines(bytes)[i].len() ==> (
            #[trigger] complete_lines(bytes)[i][k] == 10 <==> k == complete_lines(bytes)[i].len()
                - 1),
        forall|i: int|
            0 <= i < complete_lines(bytes).len() ==> #[trigger] complete_lines(bytes)[i].len() > 0,
        forall|k: int|
            0 <= k < unfinished_line(bytes).len() ==> #[trigger] unfinished_line(bytes)[k] != 10,
    decreases bytes.len(),
{
    lemma_rejoined(bytes);
    lemma_line_len_append(bytes, seq![]);
    lemma_first_line(bytes);
    let n = line_len(bytes);
    if n > 0 {
        law_lines_are_all_the_bytes(bytes.skip(n));
        let lines = complete_lines(bytes);
        let tail = complete_lines(bytes.skip(n));
        assert forall|i: int, k: int| 0 <= i < lines.len() && 0 <= k < lines[i].len() implies (
        #[trigger] lines[i][k] == 10 <==> k == lines[i].len() - 1) by {
            if i > 0 {
                assert(lines[i] == tail[i - 1]);
                assert(tail[i - 1][k] == lines[i][k]);
            }
        }
        assert forall|i: int| 0 <= i < lines.len() implies #[trigger] lines[i].len() > 0 by {
            if i > 0 {
                assert(lines[i] == tail[i - 1]);
            }
        }
    }
}

proof fn lemma_first_line(bytes: Seq<u8>)
    ensures
        0 <= line_len(bytes) <= bytes.len(),
        line_len(bytes) > 0 ==> bytes[line_len(bytes) - 1] == 10,
        line_len(bytes) > 0 ==> forall|k: int|
            0 <= k < line_len(bytes) - 1 ==> #[trigger] bytes[k] != 10,
        line_len(bytes) == 0 ==> forall|k: int| 0 <= k < bytes.len() ==> #[trigger] bytes[k] != 10,
    decreases bytes.len(),
{
    if bytes.len() > 0 && bytes[0] != line_feed() {
        let rest = bytes.drop_first();
        lemma_first_line(rest);
        let n = line_len(rest);
        if n > 0 {
            assert(bytes[n] == rest[n - 1]);
            assert forall|k: int| 0 <= k < n implies #[trigger] bytes[k] != 10 by {
                if k > 0 {
                    assert(rest[k - 1] == bytes[k]);
                }
            }
        } else {
            assert forall|k: int| 0 <= k < bytes.len() implies #[trigger] bytes[k] != 10 by {
                if k > 0 {
                    assert(rest[k - 1] == bytes[k]);
                }
            }
        }
    }
}

/// The next line that is taken out of a reply goes up to the first line feed, which is not part of
/// any other; what comes back is its characters, trimmed, and what stays is all that follows. Where
/// there is no line feed, nothing is taken out.
pub proof fn law_next_line_goes_to_the_line_feed(
    reply: &mut StreamedReply,
    bytes: Seq<u8>,
    after: Seq<u8>,
    line: Option<String>,
)
    requires
        call_ensures(StreamedReply::next_line, (reply,), line),
        forall|i: int| 0 <= i < bytes.len() ==> #[trigger] bytes[i] != 10,
    ensures
        final(reply)@.text == old(reply)@.text,
        old(reply)@.pending == bytes.push(10) + after ==> {
            &&& final(reply)@.pending == after
            &&& valid_utf8(bytes.push(10)) ==> line.deep_view() == Some(
                trimmed(decode_utf8(bytes.push(10))),
            )
            &&& line.deep_view() == Some(line_text(bytes.push(10)))
        },
        old(reply)@.pending == bytes ==> line is None && final(reply)@.pending == bytes,
{
    if old(reply)@.pending == bytes.push(10) + after {
        let all = bytes.push(10) + after;
        assert forall|i: int| 0 <= i < bytes.len() implies #[trigger] all[i] != line_feed() by {
            assert(all[i] == bytes[i]);
        }
        lemma_line_len(all, bytes.len() as int + 1);
        assert(all.take(bytes.len() as int + 1) =~= bytes.push(10));
        assert(all.skip(bytes.len() as int + 1) =~= after);
    }
    if old(reply)@.pending == bytes {
        lemma_no_line(bytes);
    }
}

/// Bytes that arrive are kept behind those that are there, and a content delta goes to the end of
/// the text, character for character; where it adds any, all of the text is to be sent on.
pub proof fn law_reply_grows_at_its_end(
    reply: &mut StreamedReply,
    chunk: &[u8],
    other: &mut StreamedReply,
    delta: Option<String>,
    snapshot: Option<String>,
    s: String,
)
    requires
        call_ensures(StreamedReply::feed, (reply, chunk), ()),
        call_ensures(StreamedReply::push_delta, (other, delta), snapshot),
    ensures
        final(reply)@.pending == old(reply)@.pending + chunk@,
        final(reply)@.text == old(reply)@.text,
        final(other)@.pending == old(other)@.pending,
        delta == Some(s) ==> final(other)@.text == old(other)@.text + s@,
        delta == Some(s) && s@.len() > 0 ==> snapshot.deep_view() == Some(old(other)@.text + s@),
        delta == Some(s) && s@.len() == 0 ==> snapshot is None,
        delta is None ==> final(other)@.text == old(other)@.text && snapshot is None,
{
    assert(snapshot.deep_view() is None <==> snapshot is None);
}

/// What content deltas add up to is their contents one after the other, character for character; a
/// missing content adds nothing.
pub proof fn law_deltas_add_up(
    a: Seq<Option<Seq<char>>>,
    b: Seq<Option<Seq<char>>>,
    s: Seq<char>,
)
    ensures
        accumulated(a + b) == accumulated(a) + accumulated(b),
        accumulated(seq![Some(s)]) == s,
        accumulated(seq![None]) == Seq::<char>::empty(),
        accumulated(seq![]) == Seq::<char>::empty(),
{
    let at = Streamed { pending: seq![], text: accumulated(a) };
    let start = Streamed { pending: seq![], text: seq![] };
    assert(at.text =~= start.text + accumulated(a));
    lemma_deltas_append(start, a, at, b);
    let one: Seq<Option<Seq<char>>> = seq![Some(s)];
    let none: Seq<Option<Seq<char>>> = seq![None];
    assert(one.drop_last() =~= Seq::<Option<Seq<char>>>::empty());
    assert(none.drop_last() =~= Seq::<Option<Seq<char>>>::empty());
    assert(accumulated(one.drop_last()) =~= Seq::<char>::empty());
    assert(accumulated(none.drop_last()) =~= Seq::<char>::empty());
    assert(accumulated(one) =~= s);
}

/// The text that contents `contents` give one after the other is all of them, joined.
pub proof fn law_contents_are_joined(contents: Seq<Seq<char>>)
    ensures
        accumulated(contents.map_values(|s: Seq<char>| Some(s))) == contents.flatten(),
    decreases contents.len(),
{
    let deltas = contents.map_values(|s: Seq<char>| Some(s));
    if contents.len() == 0 {
        assert(accumulated(deltas) =~= contents.flatten());
    } else {
        let tail = contents.drop_first();
        law_contents_are_joined(tail);
        assert(deltas.drop_first() =~= tail.map_values(|s: Seq<char>| Some(s)));
        lemma_accumulated_front(deltas);
        assert(accumulated(deltas) =~= contents.flatten());
    }
}

/// What the deltas of lines add up to, given the content of each line, or none at all.
proof fn lemma_joined(deltas: Seq<Option<Seq<char>>>, contents: Seq<Seq<char>>)
    requires
        deltas.len() == contents.len(),
        forall|i: int|
            0 <= i < deltas.len() ==> #[trigger] deltas[i] == Some(contents[i]) || (deltas[i] is None
                && contents[i].len() == 0),
    ensures
        accumulated(deltas) == contents.flatten(),
    decreases deltas.len(),
{
    if deltas.len() == 0 {
        assert(accumulated(deltas) =~= contents.flatten());
    } else {
        let more = deltas.drop_first();
        let tail = contents.drop_first();
        assert forall|i: int| 0 <= i < more.len() implies #[trigger] more[i] == Some(tail[i]) || (
        more[i] is None && tail[i].len() == 0) by {
            assert(more[i] == deltas[i + 1] && tail[i] == contents[i + 1]);
        }
        lemma_joined(more, tail);
        lemma_accumulated_front(deltas);
        assert(deltas[0] == Some(contents[0]) || (deltas[0] is None && contents[0].len() == 0));
        assert(accumulated(deltas) =~= contents.flatten());
    }
}

/// However a response body is cut into chunks, the reply is the contents of its lines, joined
/// character for character: the content of the payload of each `data:` line, and none for every
/// other line.
pub proof fn law_reply_is_the_contents_of_its_lines(
    reply: Streamed,
    content: spec_fn(Seq<char>) -> Option<Seq<char>>,
    chunks: Seq<Seq<u8>>,
    contents: Seq<Seq<char>>,
)
    requires
        forall|k: int| 0 <= k < reply.pending.len() ==> #[trigger] reply.pending[k] != 10,
        ({
            let lines = complete_lines(reply.pending + chunks.flatten());
            &&& contents.len() == lines.len()
            &&& forall|i: int|
                #![trigger contents[i]]
                0 <= i < lines.len() ==> match sse_payload_of(line_text(lines[i])) {
                    Some(payload) => content(payload) == Some(contents[i]) || (content(
                        payload,
                    ) is None && contents[i].len() == 0),
                    None => contents[i].len() == 0,
                }
        }),
    ensures
        reply.streamed(content, chunks).0.text == reply.text + contents.flatten(),
{
    lemma_no_line(reply.pending);
    law_stream_follows_its_lines(reply, content, chunks);
    let lines = complete_lines(reply.pending + chunks.flatten());
    let deltas = deltas_of(content, lines);
    assert forall|i: int| 0 <= i < deltas.len() implies #[trigger] deltas[i] == Some(contents[i])
        || (deltas[i] is None && contents[i].len() == 0) by {
        assert(deltas[i] == delta_of(content, lines[i]));
        assert(contents[i] == contents[i]);
    }
    lemma_joined(deltas, contents);
}

/// A chunk that is one `data:` line, arriving where nothing is pending, adds the content of its
/// chunk to the text, character for character, and has all of the text delivered where that adds
/// any; no byte stays pending. A line of any other kind adds nothing, and more is read.
pub proof fn law_data_line_is_delivered<F: Fn(&str) -> Option<StreamChunk>>(
    reply: &mut StreamedReply,
    chunk: &[u8],
    bytes: Seq<u8>,
    parse_chunk: F,
    rest: Seq<char>,
    s: Seq<char>,
    action: ReplyAction,
)
    requires
        call_ensures(
            StreamedReply::step::<F>,
            (reply, ReplyEvent::Chunk(chunk), &parse_chunk),
            action,
        ),
        old(reply)@.pending.len() == 0,
        chunk@ == bytes.push(10),
        forall|i: int| 0 <= i < bytes.len() ==> #[trigger] bytes[i] != 10,
    ensures
        final(reply)@.pending.len() == 0,
        line_text(chunk@) == "data:"@ + rest && trimmed(rest).len() > 0 && trimmed(rest)
            != "[DONE]"@ && always_carries(parse_chunk, trimmed(rest), s) ==> {
            &&& final(reply)@.text == old(reply)@.text + s
            &&& s.len() > 0 ==> action@ == ReplyActionView::Deliver(old(reply)@.text + s)
            &&& s.len() == 0 ==> action@ is Read
        },
        line_text(chunk@) == "data:"@ + rest && (never_carries(parse_chunk, trimmed(rest)) || trimmed(
            rest,
        ).len() == 0 || trimmed(rest) == "[DONE]"@) ==> final(reply)@.text == old(reply)@.text
            && action@ is Read,
        !"data:"@.is_prefix_of(line_text(chunk@)) ==> final(reply)@.text == old(reply)@.text
            && action@ is Read,
{
    let before = old(reply)@.fed(chunk@);
    let after = final(reply)@;
    assert(before.pending =~= chunk@);
    assert forall|i: int| 0 <= i < bytes.len() implies #[trigger] chunk@[i] != line_feed() by {
        assert(chunk@[i] == bytes[i]);
    }
    lemma_line_len(chunk@, chunk@.len() as int);
    assert(chunk@.take(chunk@.len() as int) =~= chunk@);
    assert(chunk@.skip(chunk@.len() as int) =~= Seq::<u8>::empty());
    let lines = complete_lines(chunk@);
    let none = Seq::<u8>::empty();
    assert(line_len(none) == 0);
    assert(complete_lines(none) =~= Seq::<Seq<u8>>::empty());
    assert(unfinished_line(none) == none);
    assert(lines =~= seq![chunk@]);
    assert(unfinished_line(chunk@) =~= Seq::<u8>::empty());
    let (snapshot, deltas) = choose|snapshot: Option<Seq<char>>, deltas: Seq<Option<Seq<char>>>|
        {
            &&& #[trigger] takes_out(parse_chunk, before, after, snapshot, deltas)
            &&& action@ == send_or_read(snapshot)
        };
    assert(deltas.len() == 1);
    assert(is_delta_of(parse_chunk, line_text(lines[0]), deltas[0]));
    assert(deltas =~= seq![deltas[0]]);
    match deltas[0] {
        Some(content) => {
            law_deltas_add_up(deltas, deltas, content);
        },
        None => {
            law_deltas_add_up(deltas, deltas, s);
        },
    }
    assert(lines.skip(1) =~= Seq::<Seq<u8>>::empty());
    lemma_rejoined(after.pending);
    assert(after.pending =~= Seq::<u8>::empty());
    if line_text(chunk@) == "data:"@ + rest {
        lemma_delta(parse_chunk, rest, s, deltas[0]);
    }
    assert(old(reply)@.text + Seq::<char>::empty() =~= old(reply)@.text);
    if s.len() == 0 {
        assert(old(reply)@.text + s =~= old(reply)@.text);
    }
    if snapshot is None {
        assert(!has_text(deltas[0]));
    }
}

/// Taking out lines for a snapshot takes the first lines, as many as are needed and each with its
/// content: the text grows by what they add up to, what stays pending is what follows them, and
/// there is a snapshot exactly where the text has grown, which is then all of it. Where there is
/// none, no line stays.
pub proof fn law_snapshot_is_all_the_text<F: Fn(&str) -> Option<StreamChunk>>(
    reply: &mut StreamedReply,
    parse_chunk: F,
    snapshot: Option<String>,
)
    requires
        call_ensures(StreamedReply::next_snapshot::<F>, (reply, &parse_chunk), snapshot),
    ensures
        old(reply)@.text.is_prefix_of(final(reply)@.text),
        snapshot is Some <==> final(reply)@.text.len() > old(reply)@.text.len(),
        snapshot is Some ==> snapshot.deep_view() == Some(final(reply)@.text),
        snapshot is None ==> final(reply)@.text == old(reply)@.text,
        snapshot is None ==> final(reply)@.pending == unfinished_line(old(reply)@.pending),
        exists|deltas: Seq<Option<Seq<char>>>|
            {
                let lines = complete_lines(old(reply)@.pending);
                &&& deltas.len() <= lines.len()
                &&& forall|i: int|
                    0 <= i < deltas.len() ==> is_delta_of(
                        parse_chunk,
                        line_text(lines[i]),
                        #[trigger] deltas[i],
                    )
                &&& final(reply)@.text == old(reply)@.text + #[trigger] accumulated(deltas)
                &&& old(reply)@.pending == lines.take(deltas.len() as int).flatten()
                    + final(reply)@.pending
                &&& forall|i: int|
                    0 <= i < deltas.len() - 1 ==> accumulated(seq![#[trigger] deltas[i]]).len() == 0
            },
{
    let before = old(reply)@;
    let after = final(reply)@;
    let deltas = choose|deltas: Seq<Option<Seq<char>>>| #[trigger]
        takes_out(parse_chunk, before, after, snapshot.deep_view(), deltas);
    assert(snapshot.deep_view() is None <==> snapshot is None);
    let lines = complete_lines(before.pending);
    let n = deltas.len() as int;
    assert(before.text =~= after.text.subrange(0, before.text.len() as int));
    lemma_rejoined(before.pending);
    lemma_rejoined(after.pending);
    lemma_flatten_split(lines, n);
    assert(before.pending =~= lines.take(n).flatten() + after.pending);
    match snapshot {
        Some(text) => {
            let fore = deltas.drop_last();
            lemma_no_text_adds_nothing(fore);
            assert forall|i: int| 0 <= i < deltas.len() - 1 implies accumulated(
                seq![#[trigger] deltas[i]],
            ).len() == 0 by {
                assert(fore[i] == deltas[i]);
                lemma_no_text_adds_nothing(seq![deltas[i]]);
            }
        },
        None => {
            lemma_no_text_adds_nothing(deltas);
            assert(after.text =~= before.text);
            assert(lines.skip(n) =~= Seq::<Seq<u8>>::empty());
            assert(after.pending =~= unfinished_line(before.pending));
            assert forall|i: int| 0 <= i < deltas.len() - 1 implies accumulated(
                seq![#[trigger] deltas[i]],
            ).len() == 0 by {
                lemma_no_text_adds_nothing(seq![deltas[i]]);
            }
        },
    }
    assert(after.text == before.text + accumulated(deltas));
}

proof fn lemma_flatten_split(lines: Seq<Seq<u8>>, n: int)
    requires
        0 <= n <= lines.len(),
    ensures
        lines.flatten() == lines.take(n).flatten() + lines.skip(n).flatten(),
    decreases n,
{
    if n == 0 {
        assert(lines.skip(0) =~= lines);
        assert(lines.take(0).flatten() =~= Seq::<u8>::empty());
        assert(lines.flatten() =~= lines.take(n).flatten() + lines.skip(n).flatten());
    } else {
        let tail = lines.drop_first();
        lemma_flatten_split(tail, n - 1);
        assert(lines.take(n).drop_first() =~= tail.take(n - 1));
        assert(lines.skip(n) =~= tail.skip(n - 1));
        assert(lines.take(n).first() == lines.first());
        assert(lines.flatten() =~= lines.take(n).flatten() + lines.skip(n).flatten());
    }
}

proof fn lemma_no_text_adds_nothing(deltas: Seq<Option<Seq<char>>>)
    requires
        no_text(deltas),
    ensures
        accumulated(deltas).len() == 0,
    decreases deltas.len(),
{
    if deltas.len() > 0 {
        let fore = deltas.drop_last();
        assert forall|i: int| 0 <= i < fore.len() implies !has_text(#[trigger] fore[i]) by {
            assert(fore[i] == deltas[i]);
        }
        lemma_no_text_adds_nothing(fore);
        assert(!has_text(deltas[deltas.len() - 1]));
    }
}

/// A stream that has ended, or whose receiver is gone, comes to all the text so far, and a snapshot
/// to be sent on is delivered as it is: each step after a delivery, or after a chunk, takes out the
/// next.
pub proof fn law_stream_ends_with_its_text<F: Fn(&str) -> Option<StreamChunk>>(
    fresh: StreamedReply,
    reply: &mut StreamedReply,
    parse_chunk: F,
    ended: ReplyAction,
    other: &mut StreamedReply,
    gone: ReplyAction,
    third: &mut StreamedReply,
    more: ReplyAction,
)
    requires
        call_ensures(StreamedReply::new, (), fresh),
        call_ensures(StreamedReply::step::<F>, (reply, ReplyEvent::Ended, &parse_chunk), ended),
        call_ensures(
            StreamedReply::step::<F>,
            (other, ReplyEvent::ReceiverGone, &parse_chunk),
            gone,
        ),
        call_ensures(StreamedReply::step::<F>, (third, ReplyEvent::Delivered, &parse_chunk), more),
    ensures
        fresh@.pending.len() == 0,
        fresh@.text.len() == 0,
        final(reply)@ == old(reply)@,
        ended@ == ReplyActionView::Finish(old(reply)@.text),
        final(other)@ == old(other)@,
        gone@ == ReplyActionView::Finish(old(other)@.text),
        exists|snapshot: Option<Seq<char>>, deltas: Seq<Option<Seq<char>>>|
            {
                &&& #[trigger] takes_out(parse_chunk, old(third)@, final(third)@, snapshot, deltas)
                &&& snapshot matches Some(text) ==> more@ == ReplyActionView::Deliver(text)
                &&& snapshot is None ==> more@ is Read
            },
{
    let (snapshot, deltas) = choose|snapshot: Option<Seq<char>>, deltas: Seq<Option<Seq<char>>>|
        {
            &&& #[trigger] takes_out(parse_chunk, old(third)@, final(third)@, snapshot, deltas)
            &&& more@ == send_or_read(snapshot)
        };
    assert(takes_out(parse_chunk, old(third)@, final(third)@, snapshot, deltas));
}

/// Where a chunk arrives, it is the pending bytes with the chunk behind them that lines are taken
/// out of, and the snapshot that this gives is delivered as it is; where it gives none, more is
/// read.
pub proof fn law_chunk_is_taken_in<F: Fn(&str) -> Option<StreamChunk>>(
    reply: &mut StreamedReply,
    chunk: &[u8],
    parse_chunk: F,
    action: ReplyAction,
)
    requires
        call_ensures(
            StreamedReply::step::<F>,
            (reply, ReplyEvent::Chunk(chunk), &parse_chunk),
            action,
        ),
    ensures
        exists|snapshot: Option<Seq<char>>, deltas: Seq<Option<Seq<char>>>|
            {
                &&& #[trigger] takes_out(
                    parse_chunk,
                    Streamed { pending: old(reply)@.pending + chunk@, text: old(reply)@.text },
                    final(reply)@,
                    snapshot,
                    deltas,
                )
                &&& snapshot matches Some(text) ==> action@ == ReplyActionView::Deliver(text)
                &&& snapshot is None ==> action@ is Read
            },
        !(action@ is Finish),
        action@ matches ReplyActionView::Deliver(text) ==> text == final(reply)@.text && text.len()
            > old(reply)@.text.len() && old(reply)@.text.is_prefix_of(text),
        action@ is Read ==> final(reply)@.text == old(reply)@.text && final(reply)@.pending
            == unfinished_line(old(reply)@.pending + chunk@),
{
    let before = Streamed { pending: old(reply)@.pending + chunk@, text: old(reply)@.text };
    let after = final(reply)@;
    let (snapshot, deltas) = choose|snapshot: Option<Seq<char>>, deltas: Seq<Option<Seq<char>>>|
        {
            &&& #[trigger] takes_out(parse_chunk, before, after, snapshot, deltas)
            &&& action@ == send_or_read(snapshot)
        };
    assert(takes_out(parse_chunk, before, after, snapshot, deltas));
    let lines = complete_lines(before.pending);
    match snapshot {
        Some(text) => {
            assert(before.text =~= text.subrange(0, before.text.len() as int));
        },
        None => {
            lemma_no_text_adds_nothing(deltas);
            assert(after.text =~= before.text);
            assert(lines.skip(deltas.len() as int) =~= Seq::<Seq<u8>>::empty());
            lemma_rejoined(after.pending);
            assert(after.pending =~= unfinished_line(before.pending));
        },
    }
}

} // verus!
