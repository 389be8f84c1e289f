# roger

Backends that answer a chat turn, verified with Verus.

- `src/llm.rs`, `src/sse.rs`: a client of an OpenAI-compatible server: what it asks for, and how a
  streamed answer is cut into lines and gathered into a reply.
- `src/subprocess.rs`, `src/events.rs`, `src/run.rs`: agentic CLIs run as subprocesses: the prompt
  and the command line, what their output lines say, and the course of a run.
- `src/metrics.rs`, `src/room_workdirs.rs`: response counters and the working directory of each
  room.
- `src/history.rs`, `src/json.rs`, `src/path.rs`, `src/span.rs`, `src/text.rs`: messages, JSON
  values, paths, lengths of time and strings.

`app/` does the work that the library decides on: HTTP requests, child processes, files.
