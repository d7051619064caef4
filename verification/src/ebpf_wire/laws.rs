//! What reading a record means for each of its fields, byte by byte.

use vstd::prelude::*;

use crate::ebpf_wire;
use crate::ebpf_wire::layout;
use crate::ebpf_wire::userland;
use crate::ebpf_wire::{
    WireDns, WireExec, WireExit, WireHeader, WireKind, WireNet, WireOpen, WireRecord,
};

verus! {

/// The signed and the unsigned number at the same place: they are the same where
/// the last byte is below 128, and the signed one is two to the power of
/// thirty-two less where it is not. The unsigned one is the sum of the four bytes,
/// the first with the least weight.
pub proof fn law_signed_and_unsigned_reads(bytes: &[u8], offset: usize, signed: i32, unsigned: u32)
    requires
        offset + 4 <= bytes@.len(),
        call_ensures(layout::read_i32, (bytes, offset), signed),
        call_ensures(layout::read_u32, (bytes, offset), unsigned),
    ensures
        unsigned == bytes@[offset as int] + 0x100 * bytes@[offset + 1] + 0x1_0000 * bytes@[offset
            + 2] + 0x100_0000 * bytes@[offset + 3],
        bytes@[offset + 3] < 128 ==> signed == unsigned,
        bytes@[offset + 3] >= 128 ==> signed == unsigned - 0x1_0000_0000,
{
}

/// A long number is its two halves: the `u64` at a place is the `u32` there and,
/// with the weight of two to the power of thirty-two, the `u32` four bytes on; the
/// `u32` is in the same way two `u16`.
pub proof fn law_wide_reads_are_two_halves(
    bytes: &[u8],
    offset: usize,
    quarter: usize,
    half: usize,
    wide: u64,
    low: u32,
    high: u32,
    first: u16,
    second: u16,
)
    requires
        offset + 8 <= bytes@.len(),
        quarter == offset + 2,
        half == offset + 4,
        call_ensures(layout::read_u64, (bytes, offset), wide),
        call_ensures(layout::read_u32, (bytes, offset), low),
        call_ensures(layout::read_u32, (bytes, half), high),
        call_ensures(layout::read_u16, (bytes, offset), first),
        call_ensures(layout::read_u16, (bytes, quarter), second),
    ensures
        wide == low + 0x1_0000_0000 * high,
        low == first + 0x1_0000 * second,
        first == bytes@[offset as int] + 0x100 * bytes@[offset + 1],
{
}

/// The sizes of the text fields and the place of the kind byte.
pub proof fn law_layout_constants()
    ensures
        ebpf_wire::EXE_LEN == 256,
        ebpf_wire::CMDLINE_LEN == 512,
        ebpf_wire::CWD_LEN == 256,
        ebpf_wire::PATH_LEN == 256,
        ebpf_wire::DNS_QUERY_LEN == 256,
        ebpf_wire::WIRE_KIND_OFFSET == 20,
{
}

/// The fields of a header whose image starts `bytes`: the time in the first eight
/// bytes, the three identifiers in four bytes each, the kind at offset 20.
pub proof fn law_header_fields(bytes: Seq<u8>, header: WireHeader)
    requires
        bytes.len() >= 24,
        header.wire() == bytes.take(24),
    ensures
        header.ktime_ns == bytes[0] + 0x100 * bytes[1] + 0x1_0000 * bytes[2] + 0x100_0000
            * bytes[3] + 0x1_0000_0000 * bytes[4] + 0x100_0000_0000 * bytes[5]
            + 0x1_0000_0000_0000 * bytes[6] + 0x100_0000_0000_0000 * bytes[7],
        header.pid == bytes[8] + 0x100 * bytes[9] + 0x1_0000 * bytes[10] + 0x100_0000 * bytes[11],
        header.ppid == bytes[12] + 0x100 * bytes[13] + 0x1_0000 * bytes[14] + 0x100_0000
            * bytes[15],
        header.uid == bytes[16] + 0x100 * bytes[17] + 0x1_0000 * bytes[18] + 0x100_0000
            * bytes[19],
        header.kind == bytes[20],
        forall|i: int| 0 <= i < 3 ==> #[trigger] header._pad@[i] == bytes[21 + i],
{
    let image = header.wire();
    ebpf_wire::lemma_header_parts(header);
    assert forall|i: int| 0 <= i < 24 implies #[trigger] image[i] == bytes[i] by {
        assert(bytes.take(24)[i] == bytes[i]);
    }
    layout::law_eight_bytes_sum(header.ktime_ns as nat, image.subrange(0, 8));
    layout::law_four_bytes_sum(header.pid as nat, image.subrange(8, 12));
    layout::law_four_bytes_sum(header.ppid as nat, image.subrange(12, 16));
    layout::law_four_bytes_sum(header.uid as nat, image.subrange(16, 20));
    assert(image[20] == bytes[20]);
    assert forall|i: int| 0 <= i < 3 implies #[trigger] header._pad@[i] == bytes[21 + i] by {
        assert(image.subrange(21, 24)[i] == image[21 + i]);
    }
}

/// Casting to a header: it takes 24 bytes, which are its fields.
pub proof fn law_cast_header(bytes: &[u8], res: Option<WireHeader>)
    requires
        call_ensures(userland::cast_record::<WireHeader>, (bytes,), res),
    ensures
        res is Some <==> bytes@.len() >= 24,
        res matches Some(header) ==> {
            &&& header.ktime_ns == bytes@[0] + 0x100 * bytes@[1] + 0x1_0000 * bytes@[2]
                + 0x100_0000 * bytes@[3] + 0x1_0000_0000 * bytes@[4] + 0x100_0000_0000 * bytes@[5]
                + 0x1_0000_0000_0000 * bytes@[6] + 0x100_0000_0000_0000 * bytes@[7]
            &&& header.pid == bytes@[8] + 0x100 * bytes@[9] + 0x1_0000 * bytes@[10] + 0x100_0000
                * bytes@[11]
            &&& header.ppid == bytes@[12] + 0x100 * bytes@[13] + 0x1_0000 * bytes@[14]
                + 0x100_0000 * bytes@[15]
            &&& header.uid == bytes@[16] + 0x100 * bytes@[17] + 0x1_0000 * bytes@[18]
                + 0x100_0000 * bytes@[19]
            &&& header.kind == bytes@[20]
            &&& forall|i: int| 0 <= i < 3 ==> #[trigger] header._pad@[i] == bytes@[21 + i]
        },
{
    if let Some(header) = res {
        law_header_fields(bytes@, header);
    }
}

/// Casting to an exec record: the header, 256 bytes of executable path, 512 of
/// command line and 256 of working directory, byte for byte.
pub proof fn law_cast_exec(bytes: &[u8], res: Option<WireExec>)
    requires
        call_ensures(userland::cast_record::<WireExec>, (bytes,), res),
    ensures
        res is Some <==> bytes@.len() >= 1048,
        res matches Some(record) ==> {
            &&& record.header.wire() == bytes@.take(24)
            &&& forall|i: int| 0 <= i < 256 ==> #[trigger] record.exe@[i] == bytes@[24 + i]
            &&& forall|i: int| 0 <= i < 512 ==> #[trigger] record.cmdline@[i] == bytes@[280 + i]
            &&& forall|i: int| 0 <= i < 256 ==> #[trigger] record.cwd@[i] == bytes@[792 + i]
        },
{
    if let Some(record) = res {
        let image = record.wire();
        ebpf_wire::lemma_exec_parts(record);
        lemma_image(bytes@, image, 1048);
        assert forall|i: int| 0 <= i < 256 implies #[trigger] record.exe@[i] == bytes@[24 + i] by {
            assert(image.subrange(24, 280)[i] == image[24 + i]);
        }
        assert forall|i: int| 0 <= i < 512 implies #[trigger] record.cmdline@[i] == bytes@[280
            + i] by {
            assert(image.subrange(280, 792)[i] == image[280 + i]);
        }
        assert forall|i: int| 0 <= i < 256 implies #[trigger] record.cwd@[i] == bytes@[792
            + i] by {
            assert(image.subrange(792, 1048)[i] == image[792 + i]);
        }
    }
}

/// Casting to an exit record: the header and the exit status, the two's
/// complement value of the four bytes behind the header.
pub proof fn law_cast_exit(bytes: &[u8], res: Option<WireExit>)
    requires
        call_ensures(userland::cast_record::<WireExit>, (bytes,), res),
    ensures
        res is Some <==> bytes@.len() >= 32,
        res matches Some(record) ==> {
            let bits = bytes@[24] + 0x100 * bytes@[25] + 0x1_0000 * bytes@[26] + 0x100_0000
                * bytes@[27];
            &&& record.header.wire() == bytes@.take(24)
            &&& bits < 0x8000_0000 ==> record.exit_code == bits
            &&& bits >= 0x8000_0000 ==> record.exit_code == bits - 0x1_0000_0000
            &&& forall|i: int| 0 <= i < 4 ==> #[trigger] record._pad@[i] == bytes@[28 + i]
        },
{
    if let Some(record) = res {
        let image = record.wire();
        ebpf_wire::lemma_exit_parts(record);
        lemma_image(bytes@, image, 32);
        layout::law_signed_image_is_twos_complement(record.exit_code, image.subrange(24, 28));
        assert forall|i: int| 0 <= i < 4 implies #[trigger] record._pad@[i] == bytes@[28 + i] by {
            assert(image.subrange(28, 32)[i] == image[28 + i]);
        }
    }
}

/// Casting to an open record: the header, the flags as the two's complement value
/// of the four bytes behind it, and 256 bytes of path from offset 32.
pub proof fn law_cast_open(bytes: &[u8], res: Option<WireOpen>)
    requires
        call_ensures(userland::cast_record::<WireOpen>, (bytes,), res),
    ensures
        res is Some <==> bytes@.len() >= 288,
        res matches Some(record) ==> {
            let bits = bytes@[24] + 0x100 * bytes@[25] + 0x1_0000 * bytes@[26] + 0x100_0000
                * bytes@[27];
            &&& record.header.wire() == bytes@.take(24)
            &&& bits < 0x8000_0000 ==> record.flags == bits
            &&& bits >= 0x8000_0000 ==> record.flags == bits - 0x1_0000_0000
            &&& forall|i: int| 0 <= i < 4 ==> #[trigger] record._pad@[i] == bytes@[28 + i]
            &&& forall|i: int| 0 <= i < 256 ==> #[trigger] record.path@[i] == bytes@[32 + i]
        },
{
    if let Some(record) = res {
        let image = record.wire();
        ebpf_wire::lemma_open_parts(record);
        lemma_image(bytes@, image, 288);
        layout::law_signed_image_is_twos_complement(record.flags, image.subrange(24, 28));
        assert forall|i: int| 0 <= i < 4 implies #[trigger] record._pad@[i] == bytes@[28 + i] by {
            assert(image.subrange(28, 32)[i] == image[28 + i]);
        }
        assert forall|i: int| 0 <= i < 256 implies #[trigger] record.path@[i] == bytes@[32 + i] by {
            assert(image.subrange(32, 288)[i] == image[32 + i]);
        }
    }
}

/// Casting to a network record: the header, four single bytes, the two ports and
/// the two addresses.
pub proof fn law_cast_net(bytes: &[u8], res: Option<WireNet>)
    requires
        call_ensures(userland::cast_record::<WireNet>, (bytes,), res),
    ensures
        res is Some <==> bytes@.len() >= 64,
        res matches Some(record) ==> {
            &&& record.header.wire() == bytes@.take(24)
            &&& record.family == bytes@[24]
            &&& record.direction == bytes@[25]
            &&& record.protocol == bytes@[26]
            &&& record._pad == bytes@[27]
            &&& record.src_port == bytes@[28] + 0x100 * bytes@[29]
            &&& record.dst_port == bytes@[30] + 0x100 * bytes@[31]
            &&& forall|i: int| 0 <= i < 16 ==> #[trigger] record.src_addr@[i] == bytes@[32 + i]
            &&& forall|i: int| 0 <= i < 16 ==> #[trigger] record.dst_addr@[i] == bytes@[48 + i]
        },
{
    if let Some(record) = res {
        let image = record.wire();
        ebpf_wire::lemma_net_parts(record);
        lemma_image(bytes@, image, 64);
        layout::law_two_bytes_sum(record.src_port as nat, image.subrange(28, 30));
        layout::law_two_bytes_sum(record.dst_port as nat, image.subrange(30, 32));
        assert forall|i: int| 0 <= i < 16 implies #[trigger] record.src_addr@[i] == bytes@[32
            + i] by {
            assert(image.subrange(32, 48)[i] == image[32 + i]);
        }
        assert forall|i: int| 0 <= i < 16 implies #[trigger] record.dst_addr@[i] == bytes@[48
            + i] by {
            assert(image.subrange(48, 64)[i] == image[48 + i]);
        }
    }
}

/// Casting to a DNS record: the header, the length of the message and 256 bytes
/// of message from offset 32.
pub proof fn law_cast_dns(bytes: &[u8], res: Option<WireDns>)
    requires
        call_ensures(userland::cast_record::<WireDns>, (bytes,), res),
    ensures
        res is Some <==> bytes@.len() >= 288,
        res matches Some(record) ==> {
            &&& record.header.wire() == bytes@.take(24)
            &&& record.query_len == bytes@[24] + 0x100 * bytes@[25]
            &&& forall|i: int| 0 <= i < 6 ==> #[trigger] record._pad@[i] == bytes@[26 + i]
            &&& forall|i: int| 0 <= i < 256 ==> #[trigger] record.query@[i] == bytes@[32 + i]
        },
{
    if let Some(record) = res {
        let image = record.wire();
        ebpf_wire::lemma_dns_parts(record);
        lemma_image(bytes@, image, 288);
        layout::law_two_bytes_sum(record.query_len as nat, image.subrange(24, 26));
        assert forall|i: int| 0 <= i < 6 implies #[trigger] record._pad@[i] == bytes@[26 + i] by {
            assert(image.subrange(26, 32)[i] == image[26 + i]);
        }
        assert forall|i: int| 0 <= i < 256 implies #[trigger] record.query@[i] == bytes@[32
            + i] by {
            assert(image.subrange(32, 288)[i] == image[32 + i]);
        }
    }
}

/// An image of `len` bytes that starts `bytes` agrees with them byte for byte.
proof fn lemma_image(bytes: Seq<u8>, image: Seq<u8>, len: int)
    requires
        24 <= len <= bytes.len(),
        image == bytes.take(len),
    ensures
        image.len() == len,
        forall|i: int| 0 <= i < len ==> #[trigger] image[i] == bytes[i],
        image.subrange(0, 24) == bytes.take(24),
{
    assert(image.subrange(0, 24) =~= bytes.take(24));
}

/// Peeking at the kind: the byte at offset 20 of a record of at least 24 bytes
/// says it, one for exec, two for exit, three for open, four for network and five
/// for DNS; every other byte and every shorter record gives `None`.
pub proof fn law_peek_kind(bytes: &[u8], res: Option<WireKind>)
    requires
        call_ensures(userland::peek_kind, (bytes,), res),
    ensures
        res is Some <==> bytes@.len() >= 24 && 1 <= bytes@[20] <= 5,
        res matches Some(kind) ==> match kind {
            WireKind::Exec => bytes@[20] == 1,
            WireKind::Exit => bytes@[20] == 2,
            WireKind::OpenFile => bytes@[20] == 3,
            WireKind::Network => bytes@[20] == 4,
            WireKind::Dns => bytes@[20] == 5,
        },
{
}

/// Peeking at the kind of a record and casting the record to its header agree on
/// the kind byte.
pub proof fn law_peek_agrees_with_cast(
    bytes: &[u8],
    kind: Option<WireKind>,
    header: Option<WireHeader>,
    read: Option<WireKind>,
)
    requires
        call_ensures(userland::peek_kind, (bytes,), kind),
        call_ensures(userland::cast_record::<WireHeader>, (bytes,), header),
        header is Some ==> call_ensures(WireKind::from_u8, (header->Some_0.kind,), read),
    ensures
        header is Some ==> kind == read,
        header is None ==> kind is None,
{
    law_cast_header(bytes, header);
}

/// A kind and its byte: writing the byte of a kind and reading it gives the kind
/// back, and the bytes are one for exec to five for DNS.
pub proof fn law_kind_bytes(kind: WireKind, b: u8, res: Option<WireKind>)
    requires
        call_ensures(WireKind::as_u8, (kind,), b),
        call_ensures(WireKind::from_u8, (b,), res),
    ensures
        res == Some(kind),
        b == match kind {
            WireKind::Exec => 1int,
            WireKind::Exit => 2,
            WireKind::OpenFile => 3,
            WireKind::Network => 4,
            WireKind::Dns => 5,
        },
{
}

/// Reading a byte that no kind is written as gives `None`.
pub proof fn law_unknown_bytes_are_no_kind(b: u8, res: Option<WireKind>)
    requires
        call_ensures(WireKind::from_u8, (b,), res),
    ensures
        res is None <==> b == 0 || b > 5,
{
}

/// The text of a buffer: it is what the bytes before the first NUL encode, and it
/// is empty where they are not UTF-8.
pub proof fn law_cstr_lossy(buf: &[u8], end: int, text: &str)
    requires
        call_ensures(userland::cstr_lossy, (buf,), text),
        0 <= end <= buf@.len(),
        forall|i: int| 0 <= i < end ==> #[trigger] buf@[i] != 0,
        end < buf@.len() ==> buf@[end] == 0,
    ensures
        vstd::utf8::valid_utf8(buf@.take(end)) ==> vstd::utf8::encode_utf8(text@) == buf@.take(end),
        !vstd::utf8::valid_utf8(buf@.take(end)) ==> text@.len() == 0,
{
    userland::law_trimmed_ends_at_nul(buf@);
    let len = userland::trimmed(buf@).len() as int;
    if len < end {
        assert(buf@[len] == 0);
    }
    if end < len {
        assert(userland::trimmed(buf@)[end] == buf@[end]);
        assert(userland::trimmed(buf@).contains(0));
    }
    if vstd::utf8::valid_utf8(buf@.take(end)) {
        vstd::utf8::decode_utf8_encode_utf8(buf@.take(end));
    }
}

} // verus!
