//! Shared building blocks of the SN360 agents.
//!
//! * [`ebpf_wire`]: the fixed-layout records of the eBPF event pipeline and their
//!   decoding from raw ring-buffer bytes.
//! * [`tls_roots`]: loading PEM-encoded CA bundles into a rustls trust store that
//!   trusts the bundle and nothing else.
//! * [`traceparent`]: generating, parsing and stamping the W3C `traceparent`
//!   header.
//!
//! [`ascii`] and [`fields`] hold the text helpers that the header code rests on.

pub mod ascii;
pub mod ebpf_wire;
pub mod fields;
pub mod tls_roots;
pub mod traceparent;
