# direct_connectivity

Direct connectivity to Google services, verified with [Verus](https://github.com/verus-lang/verus):
a client on Compute Engine discovers the backends of a service by xDS and connects to one of them
over ALTS, without a front end in between.

## Layout

- `src/` is the library, whose contracts Verus proves. It does no I/O: it is handed what comes from
  the network and says what to send.
  - `config`, `gce`: whether direct connectivity is used.
  - `xds`: the discovery of endpoints, as a state machine over the stream of responses
    (`discovery`), what is read out of responses (`extract`), and who asks (`node`).
  - `channel`: how endpoints are resolved, and which one is connected to.
  - `alts`: the record protocol (`frame`, over the cipher in `cipher`), the encrypted stream
    (`stream`), the handshake (`handshaker`) and the connector.
  - `alts::laws`, `alts::handshake_laws`, `xds::laws` and `channel` state what holds of whole runs:
    a reader that comes to the end of the stream has all that its peer wrote, no reader waits for
    bytes while it is owed data, a handshake passes on what peer and service say, a discovery that
    finds endpoints has followed the chain from the listener, and a service that was resolved is
    not discovered again while its endpoints are cached.
- `app/` runs the library on Tokio: sockets, gRPC, the metadata server, the cache.
- `tests/` runs the library on concrete values.

## What is trusted

The cipher is that of `aws-lc-rs`, random bytes are those of `rand`. The functions that call them
(`alts::cipher`, `xds::node`) say what is believed of them.
