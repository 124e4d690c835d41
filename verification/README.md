# aria

Amazon Alexa as the voice front-end of a ZeroClaw agent, with a self-hosted
music engine. The decisions are a library verified with Verus; the sockets, files
and clocks are ordinary Rust around it.

## Layout

`src/` is the library. Every executable function states in its contract what it
returns or changes, over mathematical models of the data.

| Module | Content |
|---|---|
| `alexa` | ASK requests, intent classification, responses, speech from Markdown |
| `audio` | library index, paths, search, shuffling, per-device players, stream tokens |
| `zeroclaw` | wire protocol of the gateway, sessions and turns as a state machine |
| `router` | what each intent does: music, queue modes, agent turns, approvals |
| `stream` | which requests count, where streams lead and start, health |
| `state`, `persist` | what requests read and change, and what outlives a restart |
| `config`, `cli`, `agent` | settings and their overrides, command line, agent inputs |
| `tls` | the certificates and the key that native TLS shows |
| `text`, `json`, `sort`, `string_map` | what the above are built from |

Public proof functions named `law_..` state what holds across functions: that a
token streams the track it was issued for until its time is over, that a turn
whose caller left ends in a late reply, that saved players come back after a
restart, and the like.

`app/` is the program: argument handling, the HTTP server, the WebSocket
connections, the walk over the music folders, and the files. It performs the
actions that the library hands back and reports what came of them.

`tests/` runs the library.

## What is trusted

A few calls leave verified code, each behind one small item with a stated
contract: random numbers (`audio/shuffle.rs`), JSON text and URL encoding
(`zeroclaw/protocol.rs`), PEM files (`tls.rs`), Unicode's notion of letters and digits
(`audio/search.rs`), and appending a character to a string (`text/chars.rs`).
