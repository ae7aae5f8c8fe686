# mercutio

Server side of the Model Context Protocol, without input or output of its own, verified with
[Verus](https://github.com/verus-lang/verus).

- `src/` is the verified library.
  - `json`, `message`, `wire`, `error`: JSON values, JSON-RPC messages and the protocol's objects.
  - `server`: the protocol's state machine, from messages to what is sent back.
  - `tools`, `registry`, `base64`: tool output, tool definitions and registries.
  - `cli`: command lines generated from tool schemas, from the analysis of schemas to the
    presentation of results.
  - `io`: sessions and their storage, lines and HTTP exchanges as decisions for a transport.
  - `rfc3339`: timestamps for tool inputs.
  - `table`, `text`: ordered tables and texts.
- `tests/` runs the library against the crates that it builds on.
- `app/` is ordinary Rust around it: streams, HTTP, files, and outside derives.

Calls into other crates stand behind small functions whose contracts are stated in their doc
comments and are not proved. Everything else is proved from them.
