# connectrpc

The client side of ConnectRPC, for the Connect, gRPC and gRPC-Web protocols,
written and proved in Verus.

`src/` is the library. It does no I/O: it builds the complete HTTP request of a
call, takes in the response piece by piece, and says what the call came to. Every
function states in its contract what it returns, and public proof functions state
what holds of several functions together.

| Modules | What they hold |
|---|---|
| `config`, `transport`, `uri` | the configuration of a client, the options of a call, the URIs |
| `call`, `request`, `timeout` | the HTTP requests of calls |
| `envelope`, `compression` | framing and compressing messages |
| `response`, `unary`, `grpc_unary`, `client_stream` | responses with a single message |
| `stream`, `end_stream`, `bidi` | responses that are streams |
| `error`, `protocol`, `grpc`, `grpc_status` | errors, statuses and trailers |
| `headers`, `metadata`, `body`, `encoding`, `text` | header maps, bodies and texts |

What the library takes from the crates `http`, `base64`, `percent-encoding` and
`flate2` goes through small functions whose contracts are trusted. Each of them
names the outside function and says what is claimed of it.

`tests/` runs the library on concrete values. `app/` connects it to real
transports, timers and message types.
