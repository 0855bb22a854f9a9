# PortRedirect

A TCP forwarder that tunnels connections through a QUIC connection between a
server (which accepts external TCP connections) and a client (which forwards
them to a backend). Clients authenticate with a pre-shared key.

## Layout

- `src/` — the verified library (Verus): the decisions and wire formats.
  - `protocol/auth.rs` — the PSK challenge-response exchange, with proofs that
    an honest client is accepted and that a client with another key is
    accepted only through a SHA-512 collision.
  - `protocol/keepalive.rs` — the PING/PONG state machines of both sides.
  - `protocol/control.rs` — the `LISTENPORT` control message.
  - `protocol/encoding.rs` — hex, decimal, line splitting, whitespace, UTF-8.
  - `protocol/utils.rs` — random bytes and time.
  - `server/` — port specifications, their parser (with the proof that the
    text of a port or range parses back to it), the per-client setup state
    machine, with the proof that a TCP listener is only bound after
    authentication and on an allowed port, and the TCP listener's decisions.
  - `quic/` — connection admission, and decoding certificate and key files
    (DER as it stands, PEM through `rustls-pemfile`).
  - `forward.rs`, `client/`, `bi_stream.rs`, `metrics_helper.rs` — copy
    outcomes, client bookkeeping, stream naming and counters.
- `app/` — the programs (`server` and `client` subcommands): QUIC, TLS, TCP,
  timers, files and metrics, driving the library.
- `tests/` — tests of the library.
