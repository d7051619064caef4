# sn360_agent

Building blocks that the SN360 agents share, verified with Verus.

* `src/ebpf_wire.rs`, `src/ebpf_wire/`: the fixed-layout records of the eBPF
  event pipeline. Each record has a byte image; decoding returns the one record
  whose image the bytes start with.
* `src/tls_roots.rs`: CA bundles in PEM, loaded into a `rustls::RootCertStore`
  that holds the anchors of the bundle and no others.
* `src/traceparent.rs`: the `traceparent` header: formatting, parsing, and
  stamping of outbound requests.
* `src/ascii.rs`, `src/fields.rs`: hexadecimal text, case folding, and splitting
  at dashes.

`app/` reads bundles from disk, gives errors their display texts and turns a
failing random source into a panic.

The library calls `getrandom`, `rustls`, `rustls-pki-types` and
`core::str::from_utf8` through small functions marked
`#[verifier::external_body]`; the comment on each says what is taken on trust.
Functions whose names start with `law_` state what holds of the library as a
whole.
