# cncnet_server

A tunnel server for online games of Command & Conquer: it relays UDP packets between players who
cannot reach each other directly, and tells players the address that the outside world sees.

The library under `src/` is verified with [Verus](https://github.com/verus-lang/verus). It decides
everything that the server does with a packet, an HTTP request, a command or a tick of the clock,
as functions from a state and an event to the next state and what is to be sent. Each of them has
a contract over a mathematical model of that state, and the properties that span several of them
are proved as `law_*` functions beside the models.

| Module | What it holds |
| --- | --- |
| `tunnel_v3`, `tunnel_v2`, `peer_to_peer` | The services of the server |
| `config`, `errors`, `health`, `metrics`, `shutdown` | What the services share |
| `rate_limiter`, `relay_client`, `tunnel_client` | Limits of addresses, clients and their quality |
| `buffer_pool` | Pools of zeroed packet buffers |
| `net` | Services that can be embedded, with token buckets and connection limits of their own |
| `addr`, `announce`, `clock`, `digest`, `http`, `packet`, `stun`, `table`, `text` | Values, formats and outside calls |

`app/` is the program around the library: command line, sockets, HTTP servers, timers and logging.
`tests/` runs the library on concrete inputs.

Calls into other crates stand in functions marked `#[verifier::external_body]` or behind
`assume_specification`. The comment above each of them says which function it calls and what is
claimed of it.
