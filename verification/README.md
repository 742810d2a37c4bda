# ripgrok

RipGrok exposes local TCP services through a public tunnel server. A client
opens a *control connection* (first byte `0x41`, then one JSON message per
line) asking for tunnels; the server binds a port for each and, for every
connection that arrives there, asks the client to open a *tunnel connection*
(first byte `0x42`, then the connection id as 8 big-endian bytes, then raw
data).

## Layout

- `src/` — the verified library (Verus):
  - `text` — decimal writing and reading of port numbers;
  - `tunnel_specifier` — tunnel specifiers and their `client[:server]` form;
  - `protocol` — messages, line framing, tunnel-connection preamble;
  - `copy` — byte counting of a stream copy;
  - `encoding`, `pem` — base64, lossy UTF-8, PEM certificates and keys;
  - `server` — configuration defaults, hello validation, handshake answer,
    pending-tunnel registry, tunnel listeners, TLS sources, web API auth;
  - `client` — configuration, `init`/`run` commands, command handling;
  - `legacy` — the first protocol generation's server and client.
- `app/` — the programs (`ripgrok server|client|legacy-server|legacy-client`):
  sockets, TLS, timers, tasks, JSON and TOML, around the library.
- `tests/` — tests of the library.
