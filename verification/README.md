# super_quinn

A QUIC messaging layer: peers exchange batches of typed messages over QUIC
streams, with TLS identities loaded from PEM files.

- `src/` is the verified library (Verus):
  - `message.rs`: the wire format of a batch (per message a 16-bit length, a
    16-bit type, both little endian, then the payload), its encoder and
    decoder, and the proofs that decoding inverts encoding and back;
    the message processor builder and the send error texts.
  - `config.rs`: the configuration and its accessors, `host:port` formatting.
  - `certs.rs`: taking a certificate chain and a PKCS #8 key out of PEM text
    (the PEM reading itself is `rustls-pemfile`'s).
  - `network.rs`: limits, the decisions of the server and client loops, and
    the proof that a loop never holds more than `MAX_CONCURRENCY` tasks.
  - `text.rs`: decimal formatting.
  - `error.rs`: the error type.
- `app/` runs it on tokio and quinn: reading `config.toml`, TLS setup, the
  server and client loops, the message processor and sender.
- `tests/` exercises the library on concrete values.
