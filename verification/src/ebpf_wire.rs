//! Fixed-layout records of the agents' eBPF event pipeline.
//!
//! A kernel-side program writes each event as one record into a ring buffer; the
//! userland loader reads the record back from its raw bytes. Every record starts
//! with a [`WireHeader`], whose kind byte says which record it is. The kind byte
//! is not the first byte: it stands at [`WIRE_KIND_OFFSET`], behind the time and
//! the three identifiers. All integers are little-endian, and fields follow each
//! other in the order in which the structs declare them, without gaps other than
//! the declared padding.

pub mod laws;
pub mod layout;
mod sealed;
pub mod userland;

use vstd::prelude::*;

use crate::ebpf_wire::sealed::Sealed;

verus! {

/// Which record follows the header.
///
/// The numbers that stand for the kinds are part of the wire format: a new kind
/// gets a new number. Only [`WireKind::as_u8`] gives the number of a kind; an `as`
/// cast gives the position of the variant in the declaration, which is another
/// number.
#[derive(Debug, Clone, Copy, PartialEq, Eq)]
pub enum WireKind {
    /// [`WireExec`].
    Exec,
    /// [`WireExit`].
    Exit,
    /// [`WireOpen`].
    OpenFile,
    /// [`WireNet`].
    Network,
    /// [`WireDns`].
    Dns,
}

impl WireKind {
    /// The byte that stands for the kind on the wire.
    pub open spec fn code(self) -> u8 {
        match self {
            WireKind::Exec => 1,
            WireKind::Exit => 2,
            WireKind::OpenFile => 3,
            WireKind::Network => 4,
            WireKind::Dns => 5,
        }
    }

    /// The kind that a byte stands for, if any.
    pub open spec fn from_code(b: u8) -> Option<WireKind> {
        match b {
            1 => Some(WireKind::Exec),
            2 => Some(WireKind::Exit),
            3 => Some(WireKind::OpenFile),
            4 => Some(WireKind::Network),
            5 => Some(WireKind::Dns),
            _ => None,
        }
    }

    /// The kind that a byte from the ring buffer stands for, or `None` where it
    /// stands for none, so that a reader can skip a malformed record.
    pub fn from_u8(b: u8) -> (res: Option<Self>)
        ensures
            res == WireKind::from_code(b),
    {
        match b {
            1 => Some(WireKind::Exec),
            2 => Some(WireKind::Exit),
            3 => Some(WireKind::OpenFile),
            4 => Some(WireKind::Network),
            5 => Some(WireKind::Dns),
            _ => None,
        }
    }

    /// The byte that stands for the kind on the wire. An `as` cast does not give
    /// it.
    pub fn as_u8(self) -> (b: u8)
        ensures
            b == self.code(),
    {
        match self {
            WireKind::Exec => 1,
            WireKind::Exit => 2,
            WireKind::OpenFile => 3,
            WireKind::Network => 4,
            WireKind::Dns => 5,
        }
    }
}

/// Capacity in bytes of a captured executable path.
pub const EXE_LEN: usize = 256;

/// Capacity in bytes of a captured command line.
pub const CMDLINE_LEN: usize = 512;

/// Capacity in bytes of a captured working directory.
pub const CWD_LEN: usize = 256;

/// Capacity in bytes of a captured path argument.
pub const PATH_LEN: usize = 256;

/// Capacity in bytes of a captured DNS message.
pub const DNS_QUERY_LEN: usize = 256;

/// Offset of the kind byte in the header, and so in every record.
pub const WIRE_KIND_OFFSET: usize = 20;

/// The header at the start of every record.
#[derive(Debug, Clone, Copy, PartialEq, Eq)]
pub struct WireHeader {
    /// Nanoseconds since boot.
    pub ktime_ns: u64,
    /// Process id of the originating task.
    pub pid: u32,
    /// Process id of its parent; `0` where it is not known.
    pub ppid: u32,
    /// Effective user id of the originating task.
    pub uid: u32,
    /// The kind of the record.
    pub kind: u8,
    /// Padding to a multiple of eight bytes.
    pub _pad: [u8; 3],
}

/// A process was executed. The texts end at their first NUL byte.
#[derive(Debug, Clone, Copy, PartialEq, Eq)]
pub struct WireExec {
    /// The header.
    pub header: WireHeader,
    /// Executable path.
    pub exe: [u8; EXE_LEN],
    /// Arguments, joined by spaces.
    pub cmdline: [u8; CMDLINE_LEN],
    /// Working directory; empty where it is not known.
    pub cwd: [u8; CWD_LEN],
}

/// A process exited.
#[derive(Debug, Clone, Copy, PartialEq, Eq)]
pub struct WireExit {
    /// The header.
    pub header: WireHeader,
    /// Exit status; `0` also where it could not be read.
    pub exit_code: i32,
    /// Padding to a multiple of eight bytes.
    pub _pad: [u8; 4],
}

/// A file was opened.
#[derive(Debug, Clone, Copy, PartialEq, Eq)]
pub struct WireOpen {
    /// The header.
    pub header: WireHeader,
    /// Flags of the open call.
    pub flags: i32,
    /// Padding, so that the path starts at offset 32.
    pub _pad: [u8; 4],
    /// Path argument; it ends at its first NUL byte.
    pub path: [u8; PATH_LEN],
}

/// A connection was opened or accepted.
#[derive(Debug, Clone, Copy, PartialEq, Eq)]
pub struct WireNet {
    /// The header.
    pub header: WireHeader,
    /// Address family: `2` for IPv4, `10` for IPv6.
    pub family: u8,
    /// Direction: `1` outbound, `2` inbound.
    pub direction: u8,
    /// IP protocol: `6` for TCP, `17` for UDP.
    pub protocol: u8,
    /// Padding.
    pub _pad: u8,
    /// Source port.
    pub src_port: u16,
    /// Destination port.
    pub dst_port: u16,
    /// Source address; for IPv4 only the first four bytes count.
    pub src_addr: [u8; 16],
    /// Destination address, in the same form.
    pub dst_addr: [u8; 16],
}

/// A datagram was sent to a DNS server.
#[derive(Debug, Clone, Copy, PartialEq, Eq)]
pub struct WireDns {
    /// The header.
    pub header: WireHeader,
    /// How many bytes of the message were captured.
    pub query_len: u16,
    /// Padding to a multiple of eight bytes.
    pub _pad: [u8; 6],
    /// The message, not yet parsed.
    pub query: [u8; DNS_QUERY_LEN],
}

/// A record that can be read from raw bytes.
///
/// The trait is sealed. Its types are made of integers and byte arrays alone, so
/// that every byte string of the right length is the image of exactly one
/// record.
pub trait WireRecord: Sealed + Copy {
    /// Size of the record in bytes.
    spec fn wire_len() -> nat;

    /// The bytes of the record.
    spec fn wire(self) -> Seq<u8>;

    /// The image of a record has the record's size.
    proof fn lemma_wire_len(self)
        ensures
            self.wire().len() == Self::wire_len(),
    ;

    /// Records with the same image are the same.
    proof fn lemma_wire_injective(self, other: Self)
        requires
            self.wire() == other.wire(),
        ensures
            self == other,
    ;

    /// Size of the record in bytes.
    fn record_len() -> (len: usize)
        ensures
            len == Self::wire_len(),
    ;

    /// The record at the start of `bytes`.
    fn read_wire(bytes: &[u8]) -> (record: Self)
        requires
            bytes@.len() >= Self::wire_len(),
        ensures
            record.wire() == bytes@.take(Self::wire_len() as int),
    ;
}

impl Sealed for WireHeader {

}

impl WireRecord for WireHeader {
    open spec fn wire_len() -> nat {
        24
    }

    open spec fn wire(self) -> Seq<u8> {
        layout::le_bytes(self.ktime_ns as nat, 8) + layout::le_bytes(self.pid as nat, 4)
            + layout::le_bytes(self.ppid as nat, 4) + layout::le_bytes(self.uid as nat, 4)
            + seq![self.kind] + self._pad@
    }

    proof fn lemma_wire_len(self) {
        layout::lemma_le_bytes_len(self.ktime_ns as nat, 8);
        layout::lemma_le_bytes_len(self.pid as nat, 4);
        layout::lemma_le_bytes_len(self.ppid as nat, 4);
        layout::lemma_le_bytes_len(self.uid as nat, 4);
    }

    proof fn lemma_wire_injective(self, other: Self) {
        lemma_header_parts(self);
        lemma_header_parts(other);
        layout::lemma_le_limits();
        layout::lemma_le_bytes_injective(self.ktime_ns as nat, other.ktime_ns as nat, 8);
        layout::lemma_le_bytes_injective(self.pid as nat, other.pid as nat, 4);
        layout::lemma_le_bytes_injective(self.ppid as nat, other.ppid as nat, 4);
        layout::lemma_le_bytes_injective(self.uid as nat, other.uid as nat, 4);
        layout::lemma_arrays_equal(self._pad, other._pad);
    }

    fn record_len() -> (len: usize) {
        24
    }

    fn read_wire(bytes: &[u8]) -> (record: Self) {
        let record = WireHeader {
            ktime_ns: layout::read_u64(bytes, 0),
            pid: layout::read_u32(bytes, 8),
            ppid: layout::read_u32(bytes, 12),
            uid: layout::read_u32(bytes, 16),
            kind: bytes[WIRE_KIND_OFFSET],
            _pad: layout::read_array(bytes, 21),
        };
        assert(record.wire() =~= bytes@.take(24));
        record
    }
}

/// Where the fields of a header stand in its image.
proof fn lemma_header_parts(h: WireHeader)
    ensures
        h.wire().len() == 24,
        h.wire().subrange(0, 8) == layout::le_bytes(h.ktime_ns as nat, 8),
        h.wire().subrange(8, 12) == layout::le_bytes(h.pid as nat, 4),
        h.wire().subrange(12, 16) == layout::le_bytes(h.ppid as nat, 4),
        h.wire().subrange(16, 20) == layout::le_bytes(h.uid as nat, 4),
        h.wire()[WIRE_KIND_OFFSET as int] == h.kind,
        h.wire().subrange(21, 24) == h._pad@,
{
    h.lemma_wire_len();
    layout::lemma_le_bytes_len(h.ktime_ns as nat, 8);
    layout::lemma_le_bytes_len(h.pid as nat, 4);
    layout::lemma_le_bytes_len(h.ppid as nat, 4);
    layout::lemma_le_bytes_len(h.uid as nat, 4);
    assert(h.wire().subrange(0, 8) =~= layout::le_bytes(h.ktime_ns as nat, 8));
    assert(h.wire().subrange(8, 12) =~= layout::le_bytes(h.pid as nat, 4));
    assert(h.wire().subrange(12, 16) =~= layout::le_bytes(h.ppid as nat, 4));
    assert(h.wire().subrange(16, 20) =~= layout::le_bytes(h.uid as nat, 4));
    assert(h.wire().subrange(21, 24) =~= h._pad@);
}

impl Sealed for WireExec {

}

impl WireRecord for WireExec {
    open spec fn wire_len() -> nat {
        24 + EXE_LEN as nat + CMDLINE_LEN as nat + CWD_LEN as nat
    }

    open spec fn wire(self) -> Seq<u8> {
        self.header.wire() + self.exe@ + self.cmdline@ + self.cwd@
    }

    proof fn lemma_wire_len(self) {
        self.header.lemma_wire_len();
    }

    proof fn lemma_wire_injective(self, other: Self) {
        lemma_exec_parts(self);
        lemma_exec_parts(other);
        self.header.lemma_wire_injective(other.header);
        layout::lemma_arrays_equal(self.exe, other.exe);
        layout::lemma_arrays_equal(self.cmdline, other.cmdline);
        layout::lemma_arrays_equal(self.cwd, other.cwd);
    }

    fn record_len() -> (len: usize) {
        24 + EXE_LEN + CMDLINE_LEN + CWD_LEN
    }

    fn read_wire(bytes: &[u8]) -> (record: Self) {
        let record = WireExec {
            header: WireHeader::read_wire(bytes),
            exe: layout::read_array(bytes, 24),
            cmdline: layout::read_array(bytes, 280),
            cwd: layout::read_array(bytes, 792),
        };
        assert(record.wire() =~= bytes@.take(1048));
        record
    }
}

/// Where the fields of a [`WireExec`] stand in its image.
proof fn lemma_exec_parts(r: WireExec)
    ensures
        r.wire().len() == 1048,
        r.wire().subrange(0, 24) == r.header.wire(),
        r.wire().subrange(24, 280) == r.exe@,
        r.wire().subrange(280, 792) == r.cmdline@,
        r.wire().subrange(792, 1048) == r.cwd@,
{
    r.lemma_wire_len();
    r.header.lemma_wire_len();
    assert(r.wire().subrange(0, 24) =~= r.header.wire());
    assert(r.wire().subrange(24, 280) =~= r.exe@);
    assert(r.wire().subrange(280, 792) =~= r.cmdline@);
    assert(r.wire().subrange(792, 1048) =~= r.cwd@);
}

impl Sealed for WireExit {

}

impl WireRecord for WireExit {
    open spec fn wire_len() -> nat {
        32
    }

    open spec fn wire(self) -> Seq<u8> {
        self.header.wire() + layout::le_bytes(layout::i32_bits(self.exit_code), 4) + self._pad@
    }

    proof fn lemma_wire_len(self) {
        self.header.lemma_wire_len();
        layout::lemma_le_bytes_len(layout::i32_bits(self.exit_code), 4);
    }

    proof fn lemma_wire_injective(self, other: Self) {
        lemma_exit_parts(self);
        lemma_exit_parts(other);
        self.header.lemma_wire_injective(other.header);
        layout::lemma_le_limits();
        layout::lemma_le_bytes_injective(
            layout::i32_bits(self.exit_code),
            layout::i32_bits(other.exit_code),
            4,
        );
        layout::lemma_arrays_equal(self._pad, other._pad);
    }

    fn record_len() -> (len: usize) {
        32
    }

    fn read_wire(bytes: &[u8]) -> (record: Self) {
        let record = WireExit {
            header: WireHeader::read_wire(bytes),
            exit_code: layout::read_i32(bytes, 24),
            _pad: layout::read_array(bytes, 28),
        };
        assert(record.wire() =~= bytes@.take(32));
        record
    }
}

/// Where the fields of a [`WireExit`] stand in its image.
proof fn lemma_exit_parts(r: WireExit)
    ensures
        r.wire().len() == 32,
        r.wire().subrange(0, 24) == r.header.wire(),
        r.wire().subrange(24, 28) == layout::le_bytes(layout::i32_bits(r.exit_code), 4),
        r.wire().subrange(28, 32) == r._pad@,
{
    r.lemma_wire_len();
    r.header.lemma_wire_len();
    layout::lemma_le_bytes_len(layout::i32_bits(r.exit_code), 4);
    assert(r.wire().subrange(0, 24) =~= r.header.wire());
    assert(r.wire().subrange(24, 28) =~= layout::le_bytes(layout::i32_bits(r.exit_code), 4));
    assert(r.wire().subrange(28, 32) =~= r._pad@);
}

impl Sealed for WireOpen {

}

impl WireRecord for WireOpen {
    open spec fn wire_len() -> nat {
        32 + PATH_LEN as nat
    }

    open spec fn wire(self) -> Seq<u8> {
        self.header.wire() + layout::le_bytes(layout::i32_bits(self.flags), 4) + self._pad@
            + self.path@
    }

    proof fn lemma_wire_len(self) {
        self.header.lemma_wire_len();
        layout::lemma_le_bytes_len(layout::i32_bits(self.flags), 4);
    }

    proof fn lemma_wire_injective(self, other: Self) {
        lemma_open_parts(self);
        lemma_open_parts(other);
        self.header.lemma_wire_injective(other.header);
        layout::lemma_le_limits();
        layout::lemma_le_bytes_injective(
            layout::i32_bits(self.flags),
            layout::i32_bits(other.flags),
            4,
        );
        layout::lemma_arrays_equal(self._pad, other._pad);
        layout::lemma_arrays_equal(self.path, other.path);
    }

    fn record_len() -> (len: usize) {
        32 + PATH_LEN
    }

    fn read_wire(bytes: &[u8]) -> (record: Self) {
        let record = WireOpen {
            header: WireHeader::read_wire(bytes),
            flags: layout::read_i32(bytes, 24),
            _pad: layout::read_array(bytes, 28),
            path: layout::read_array(bytes, 32),
        };
        assert(record.wire() =~= bytes@.take(288));
        record
    }
}

/// Where the fields of a [`WireOpen`] stand in its image.
proof fn lemma_open_parts(r: WireOpen)
    ensures
        r.wire().len() == 288,
        r.wire().subrange(0, 24) == r.header.wire(),
        r.wire().subrange(24, 28) == layout::le_bytes(layout::i32_bits(r.flags), 4),
        r.wire().subrange(28, 32) == r._pad@,
        r.wire().subrange(32, 288) == r.path@,
{
    r.lemma_wire_len();
    r.header.lemma_wire_len();
    layout::lemma_le_bytes_len(layout::i32_bits(r.flags), 4);
    assert(r.wire().subrange(0, 24) =~= r.header.wire());
    assert(r.wire().subrange(24, 28) =~= layout::le_bytes(layout::i32_bits(r.flags), 4));
    assert(r.wire().subrange(28, 32) =~= r._pad@);
    assert(r.wire().subrange(32, 288) =~= r.path@);
}

impl Sealed for WireNet {

}

impl WireRecord for WireNet {
    open spec fn wire_len() -> nat {
        64
    }

    open spec fn wire(self) -> Seq<u8> {
        self.header.wire() + seq![self.family] + seq![self.direction] + seq![self.protocol]
            + seq![self._pad] + layout::le_bytes(self.src_port as nat, 2) + layout::le_bytes(
            self.dst_port as nat,
            2,
        ) + self.src_addr@ + self.dst_addr@
    }

    proof fn lemma_wire_len(self) {
        self.header.lemma_wire_len();
        layout::lemma_le_bytes_len(self.src_port as nat, 2);
        layout::lemma_le_bytes_len(self.dst_port as nat, 2);
    }

    proof fn lemma_wire_injective(self, other: Self) {
        lemma_net_parts(self);
        lemma_net_parts(other);
        self.header.lemma_wire_injective(other.header);
        layout::lemma_le_limits();
        layout::lemma_le_bytes_injective(self.src_port as nat, other.src_port as nat, 2);
        layout::lemma_le_bytes_injective(self.dst_port as nat, other.dst_port as nat, 2);
        layout::lemma_arrays_equal(self.src_addr, other.src_addr);
        layout::lemma_arrays_equal(self.dst_addr, other.dst_addr);
    }

    fn record_len() -> (len: usize) {
        64
    }

    fn read_wire(bytes: &[u8]) -> (record: Self) {
        let record = WireNet {
            header: WireHeader::read_wire(bytes),
            family: bytes[24],
            direction: bytes[25],
            protocol: bytes[26],
            _pad: bytes[27],
            src_port: layout::read_u16(bytes, 28),
            dst_port: layout::read_u16(bytes, 30),
            src_addr: layout::read_array(bytes, 32),
            dst_addr: layout::read_array(bytes, 48),
        };
        assert(record.wire() =~= bytes@.take(64));
        record
    }
}

/// Where the fields of a [`WireNet`] stand in its image.
proof fn lemma_net_parts(r: WireNet)
    ensures
        r.wire().len() == 64,
        r.wire().subrange(0, 24) == r.header.wire(),
        r.wire()[24] == r.family,
        r.wire()[25] == r.direction,
        r.wire()[26] == r.protocol,
        r.wire()[27] == r._pad,
        r.wire().subrange(28, 30) == layout::le_bytes(r.src_port as nat, 2),
        r.wire().subrange(30, 32) == layout::le_bytes(r.dst_port as nat, 2),
        r.wire().subrange(32, 48) == r.src_addr@,
        r.wire().subrange(48, 64) == r.dst_addr@,
{
    r.lemma_wire_len();
    r.header.lemma_wire_len();
    layout::lemma_le_bytes_len(r.src_port as nat, 2);
    layout::lemma_le_bytes_len(r.dst_port as nat, 2);
    assert(r.wire().subrange(0, 24) =~= r.header.wire());
    assert(r.wire().subrange(28, 30) =~= layout::le_bytes(r.src_port as nat, 2));
    assert(r.wire().subrange(30, 32) =~= layout::le_bytes(r.dst_port as nat, 2));
    assert(r.wire().subrange(32, 48) =~= r.src_addr@);
    assert(r.wire().subrange(48, 64) =~= r.dst_addr@);
}

impl Sealed for WireDns {

}

impl WireRecord for WireDns {
    open spec fn wire_len() -> nat {
        32 + DNS_QUERY_LEN as nat
    }

    open spec fn wire(self) -> Seq<u8> {
        self.header.wire() + layout::le_bytes(self.query_len as nat, 2) + self._pad@ + self.query@
    }

    proof fn lemma_wire_len(self) {
        self.header.lemma_wire_len();
        layout::lemma_le_bytes_len(self.query_len as nat, 2);
    }

    proof fn lemma_wire_injective(self, other: Self) {
        lemma_dns_parts(self);
        lemma_dns_parts(other);
        self.header.lemma_wire_injective(other.header);
        layout::lemma_le_limits();
        layout::lemma_le_bytes_injective(self.query_len as nat, other.query_len as nat, 2);
        layout::lemma_arrays_equal(self._pad, other._pad);
        layout::lemma_arrays_equal(self.query, other.query);
    }

    fn record_len() -> (len: usize) {
        32 + DNS_QUERY_LEN
    }

    fn read_wire(bytes: &[u8]) -> (record: Self) {
        let record = WireDns {
            header: WireHeader::read_wire(bytes),
            query_len: layout::read_u16(bytes, 24),
            _pad: layout::read_array(bytes, 26),
            query: layout::read_array(bytes, 32),
        };
        assert(record.wire() =~= bytes@.take(288));
        record
    }
}

/// Where the fields of a [`WireDns`] stand in its image.
proof fn lemma_dns_parts(r: WireDns)
    ensures
        r.wire().len() == 288,
        r.wire().subrange(0, 24) == r.header.wire(),
        r.wire().subrange(24, 26) == layout::le_bytes(r.query_len as nat, 2),
        r.wire().subrange(26, 32) == r._pad@,
        r.wire().subrange(32, 288) == r.query@,
{
    r.lemma_wire_len();
    r.header.lemma_wire_len();
    layout::lemma_le_bytes_len(r.query_len as nat, 2);
    assert(r.wire().subrange(0, 24) =~= r.header.wire());
    assert(r.wire().subrange(24, 26) =~= layout::le_bytes(r.query_len as nat, 2));
    assert(r.wire().subrange(26, 32) =~= r._pad@);
    assert(r.wire().subrange(32, 288) =~= r.query@);
}

/// Reading the byte of a kind gives that kind back, and a byte that reads as a
/// kind is the byte of that kind; no other byte reads as a kind.
pub proof fn law_kind_round_trips(kind: WireKind, b: u8)
    ensures
        WireKind::from_code(kind.code()) == Some(kind),
        WireKind::from_code(b) == Some(kind) <==> b == kind.code(),
        WireKind::from_code(b) is Some <==> 1 <= b <= 5,
{
}

/// The sizes of the records: the header has 24 bytes, and behind it follow the
/// fields of the record with their declared capacities.
pub proof fn law_record_sizes(
    header: WireHeader,
    exec: WireExec,
    exit: WireExit,
    open: WireOpen,
    net: WireNet,
    dns: WireDns,
)
    ensures
        header.wire().len() == 24,
        exec.wire().len() == 24 + EXE_LEN + CMDLINE_LEN + CWD_LEN,
        exit.wire().len() == 24 + 8,
        open.wire().len() == 24 + 8 + PATH_LEN,
        net.wire().len() == 24 + 8 + 32,
        dns.wire().len() == 24 + 8 + DNS_QUERY_LEN,
{
    header.lemma_wire_len();
    exec.lemma_wire_len();
    exit.lemma_wire_len();
    open.lemma_wire_len();
    net.lemma_wire_len();
    dns.lemma_wire_len();
}

/// Every record starts with its header.
pub proof fn law_records_start_with_header(
    exec: WireExec,
    exit: WireExit,
    open: WireOpen,
    net: WireNet,
    dns: WireDns,
)
    ensures
        exec.wire().take(24) == exec.header.wire(),
        exit.wire().take(24) == exit.header.wire(),
        open.wire().take(24) == open.header.wire(),
        net.wire().take(24) == net.header.wire(),
        dns.wire().take(24) == dns.header.wire(),
{
    lemma_exec_parts(exec);
    lemma_exit_parts(exit);
    lemma_open_parts(open);
    lemma_net_parts(net);
    lemma_dns_parts(dns);
}

/// In bytes that start with a header, the byte at the kind offset is the kind of
/// that header.
pub proof fn law_kind_stands_at_offset(bytes: Seq<u8>, header: WireHeader)
    requires
        bytes.len() >= 24,
        bytes.take(24) == header.wire(),
    ensures
        bytes[WIRE_KIND_OFFSET as int] == header.kind,
{
    lemma_header_parts(header);
    assert(bytes.take(24)[20] == bytes[20]);
}

/// Reading gives back what was written, whatever follows it: bytes that start
/// with the image of a record are long enough for it, and no other record has
/// the image that they start with.
pub proof fn law_image_reads_back<T: WireRecord>(record: T, rest: Seq<u8>, read: T)
    requires
        read.wire() == (record.wire() + rest).take(T::wire_len() as int),
    ensures
        (record.wire() + rest).len() >= T::wire_len(),
        read == record,
{
    record.lemma_wire_len();
    assert((record.wire() + rest).take(T::wire_len() as int) =~= record.wire());
    read.lemma_wire_injective(record);
}

} // verus!
