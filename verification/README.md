# rust_ws_server

The core of a multi-tenant websocket server, verified with Verus, and the server around it.

`src/` is the library. It decides who may connect, who hears what, and what every client is
answered; every function states what it does and is proved to do it.

| Module | What it holds |
|--------|---------------|
| `config` | the settings of one server |
| `auth` | tokens, their claims, and what becomes of a token that is refused |
| `admission` | who may connect: addresses, connection slots, tokens, tenants |
| `ip_limiter` | connections at once and new connections per second, for each address |
| `bucket` | token buckets, in exact arithmetic |
| `state` | clients, topics, tenants, and the laws that keep tenants apart |
| `session` | the beginning of a connection, its reader, and its end |
| `tasks` | the writer, the fan-out of a topic, and what becomes of the other tasks |
| `server` | what is done with what a client sends |
| `api` | publishing and writing to clients over plain HTTP |
| `protocol`, `msgpack`, `json`, `members` | events and their bytes |
| `channel` | queues and broadcast channels, and the record of what was handed to them |
| `metrics` | counters and their text form |
| `topic`, `text` | names of topics, and text helpers |

Contracts speak of the state of a server as a `StateModel`. What the channels make of a message
depends on who reads them, so the model keeps a record of every message that was handed to a
channel, of the channel, and of what came of it; a contract says which entries a call adds. The
laws of the library are the public proof functions whose names begin with `law_`.

Calls into other crates stand behind items whose contracts are taken on trust; each says in its doc
comment which function it calls and what it claims of it. Time is handed in, in nanoseconds, but for
the expiry of tokens: the crate that checks them reads the clock itself, and the contracts speak of
the moment at which it did.

`app/` is the server: command line, sockets, tasks, and the lock around the state.
