# zhir_models

Adapters between a host and the models it talks to: chat, responses and messages over HTTP,
speech synthesis over a WebSocket and live conversations over WebRTC, with retries, fallback,
observers and stores around them.

- `src/` is the library: codecs, stream assembly, session state machines and the rules of
  composition. Its contracts are stated over ghost views and proved with Verus.
- `app/` runs the library: sockets, peers, tasks, queues and stores.
- `tests/` holds tests on concrete values.

## Where to look

| Module | What it holds |
| --- | --- |
| `codec`, `profiles`, `http` | requests and responses of the three HTTP protocols |
| `streaming`, `transport::sse` | event streams and how they are assembled |
| `extension`, `provider_tools` | protocol extensions and tools that a provider runs |
| `artifacts`, `resources`, `markers` | media and resources kept outside of messages |
| `session`, `decorators`, `observers`, `transform` | sessions over exchanges, and models made of models |
| `native`, `websocket`, `webrtc` | sessions over one connection |
| `minimax::tts`, `codec::minimax_tts`, `streaming::minimax_tts` | speech synthesis |
| `openai::live` | live conversations |
| `credentials`, `headers`, `retry_wait`, `concurrency` | what requests carry and how often they are made |
| `json`, `text`, `encoding`, `clock`, `slots`, `error`, `message`, `model`, `command` | values |

Public proof functions state what holds across calls: what one operation undoes, what every
operation keeps, in which order things are handed out.

Outside crates are reached through a few trusted functions, in `text`, `json`, `encoding`,
`headers`, `websocket`, `openai::live` and `concurrency`; each says what it calls and what is
believed of it.
