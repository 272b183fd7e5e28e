# moly_kit

Building blocks for chat applications that talk to LLM providers: the data
model of bots, messages and errors, the parsing of streamed completions, and
the decisions of the clients and of the chat state.

The library under `src/` is verified with Verus. Contracts are stated over
mathematical models of the types; where a result comes from an outside crate
(JSON parsing, base64, lossy UTF-8 decoding), the contract speaks of a named
result of that call. The library reads no clock: functions that stamp
messages take the time as an argument, which `app/` reads. The laws of the library (what a sequence of
operations amounts to, what every state keeps) are proof functions.

- `vec`, `vec_laws`: mutations of a list, their effects, and the laws relating them.
- `protocol`: bot ids, capabilities, bots, messages, client errors and results, tools.
- `chars`, `text`: character-level text operations and UTF-8 facts.
- `sse`: reading a byte stream as server-sent events.
- `openai`: the content of chat completions and how streamed chunks build a message.
- `amortized_string`: yielding streamed text in small chunks on character boundaries.
- `errors`: clarifying HTTP errors.
- `bots`: bots from a provider's models, sorted, and bots gathered from several clients.
- `mcp`, `str_map`: namespaced tool names and the registry of tools of MCP servers.
- `tool_execution`: the texts shown while tools run and of their results.
- `deep_inquire`: multi-stage messages and their deltas.
- `realtime`: the decisions of the realtime voice client.
- `model_cards`, `backend`: the index of model cards, its search, and the
  entries added for a model shared by this peer.
- `api_server`: the command line of the local model server, when a running
  server is kept on a reload, the waits between probes of a new one, and the
  payload of each chunk it streams.
- `chat`: chat status, state and its mutations, tasks, plugins and what they
  are shown, and what the chat does when it loads bots, sends, streams, stops
  streaming and runs tool calls.

`app/` holds what runs around the library: async helpers, the HTTP and
WebSocket clients that drive it, the loop that awaits tool calls between the
chat's decisions, the JSON forms of its types and file access.
`tests/` holds the tests.
