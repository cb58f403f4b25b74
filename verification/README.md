# clewdr_web

The bridge between the Messages API and the web chat endpoints, with its decisions
verified by Verus.

- `src/` is the library. `events` says which events of an upstream stream reach the
  client, `completion` merges plain completion text or reads it for a parser, `tool_stream` collects a stream
  that may stop for a tool, `session` keeps responses that wait for a tool,
  `transform` ties these together, `count` prepares token counts and `request` is the
  body of a request. `session_laws` states what holds across several calls.
- `sse`, `json`, `header`, `endpoint`, `ident` and `channel` hold the calls into other
  crates, with what is relied on there.
- `app/` reads sockets and clocks and speaks the wire format.
- `tests/` runs the library against the real crates.
