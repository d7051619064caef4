use sn360_agent::ebpf_wire::userland;
use sn360_agent::ebpf_wire::{
    WireDns, WireExec, WireExit, WireHeader, WireKind, WireNet, WireOpen, CMDLINE_LEN, CWD_LEN,
    DNS_QUERY_LEN, EXE_LEN, PATH_LEN, WIRE_KIND_OFFSET,
};

fn header(kind: WireKind) -> WireHeader {
    WireHeader {
        kind: kind.as_u8(),
        _pad: [0; 3],
        ktime_ns: 0x0102_0304_0506_0708,
        pid: 1234,
        ppid: 1,
        uid: 1000,
    }
}

fn header_bytes(h: &WireHeader) -> Vec<u8> {
    let mut out = Vec::new();
    out.extend_from_slice(&h.ktime_ns.to_le_bytes());
    out.extend_from_slice(&h.pid.to_le_bytes());
    out.extend_from_slice(&h.ppid.to_le_bytes());
    out.extend_from_slice(&h.uid.to_le_bytes());
    out.push(h.kind);
    out.extend_from_slice(&h._pad);
    out
}

#[test]
fn wire_kind_round_trips_through_u8() {
    for v in [
        WireKind::Exec,
        WireKind::Exit,
        WireKind::OpenFile,
        WireKind::Network,
        WireKind::Dns,
    ] {
        let raw = v.as_u8();
        assert_eq!(WireKind::from_u8(raw), Some(v));
    }
    assert_eq!(WireKind::from_u8(0), None);
    assert_eq!(WireKind::from_u8(99), None);
}

#[test]
fn wire_kind_numbers_are_fixed() {
    assert_eq!(WireKind::Exec.as_u8(), 1);
    assert_eq!(WireKind::Exit.as_u8(), 2);
    assert_eq!(WireKind::OpenFile.as_u8(), 3);
    assert_eq!(WireKind::Network.as_u8(), 4);
    assert_eq!(WireKind::Dns.as_u8(), 5);
    for b in 0..=255u8 {
        assert_eq!(WireKind::from_u8(b).is_some(), (1..=5).contains(&b));
    }
}

#[test]
fn cstr_lossy_trims_at_first_nul() {
    let mut buf = [0u8; 16];
    buf[..5].copy_from_slice(b"hello");
    assert_eq!(userland::cstr_lossy(&buf), "hello");
}

#[test]
fn cstr_lossy_handles_full_buffer() {
    let buf = [b'a'; 8];
    assert_eq!(userland::cstr_lossy(&buf), "aaaaaaaa");
}

#[test]
fn cstr_lossy_returns_empty_on_invalid_utf8() {
    let buf = [0xFF, 0xFE, 0, 0, 0, 0, 0, 0];
    assert_eq!(userland::cstr_lossy(&buf), "");
}

#[test]
fn cstr_lossy_ignores_what_follows_the_nul() {
    assert_eq!(userland::cstr_lossy(b"ab\0\xff\xfe"), "ab");
    assert_eq!(userland::cstr_lossy(b"\0ab"), "");
    assert_eq!(userland::cstr_lossy(b""), "");
    assert_eq!(userland::cstr_lossy("h\u{e9}llo \u{1f980}\0rest".as_bytes()), "h\u{e9}llo \u{1f980}");
}

#[test]
fn peek_kind_reads_the_kind_offset() {
    let h = header(WireKind::Dns);
    let mut bytes = header_bytes(&h);
    assert_eq!(bytes[WIRE_KIND_OFFSET], 5);
    assert_eq!(userland::peek_kind(&bytes), Some(WireKind::Dns));
    assert_eq!(bytes.len(), 24);
    assert_eq!(userland::peek_kind(&bytes[..23]), None);
    assert_eq!(userland::peek_kind(&bytes[..22]), None);
    assert_eq!(userland::peek_kind(&bytes[..WIRE_KIND_OFFSET + 1]), None);
    assert_eq!(userland::peek_kind(&bytes[..WIRE_KIND_OFFSET]), None);
    assert_eq!(userland::peek_kind(&[]), None);
    bytes[WIRE_KIND_OFFSET] = 6;
    assert_eq!(userland::peek_kind(&bytes), None);
}

#[test]
fn cast_record_rejects_short_buffer() {
    let bytes = [0u8; 8];
    assert!(userland::cast_record::<WireExit>(&bytes).is_none());
}

#[test]
fn cast_record_reads_unaligned() {
    let original = WireExit {
        header: WireHeader {
            kind: WireKind::Exit.as_u8(),
            _pad: [0; 3],
            ktime_ns: 0x0102_0304_0506_0708,
            pid: 1234,
            ppid: 1,
            uid: 1000,
        },
        exit_code: -42,
        _pad: [0; 4],
    };
    let mut storage = vec![0u8];
    storage.extend_from_slice(&header_bytes(&original.header));
    storage.extend_from_slice(&original.exit_code.to_le_bytes());
    storage.extend_from_slice(&original._pad);
    assert_eq!(storage.len(), 33);

    let decoded = userland::cast_record::<WireExit>(&storage[1..]).expect("decode at offset 1");
    assert_eq!(decoded, original);
}

#[test]
fn cast_record_needs_exactly_the_record_size() {
    let bytes = vec![0u8; 2048];
    assert!(userland::cast_record::<WireHeader>(&bytes[..23]).is_none());
    assert!(userland::cast_record::<WireHeader>(&bytes[..24]).is_some());
    let exec = 24 + EXE_LEN + CMDLINE_LEN + CWD_LEN;
    assert!(userland::cast_record::<WireExec>(&bytes[..exec - 1]).is_none());
    assert!(userland::cast_record::<WireExec>(&bytes[..exec]).is_some());
    assert!(userland::cast_record::<WireExit>(&bytes[..31]).is_none());
    assert!(userland::cast_record::<WireExit>(&bytes[..32]).is_some());
    let open = 24 + 8 + PATH_LEN;
    assert!(userland::cast_record::<WireOpen>(&bytes[..open - 1]).is_none());
    assert!(userland::cast_record::<WireOpen>(&bytes[..open]).is_some());
    assert!(userland::cast_record::<WireNet>(&bytes[..63]).is_none());
    assert!(userland::cast_record::<WireNet>(&bytes[..64]).is_some());
    let dns = 24 + 8 + DNS_QUERY_LEN;
    assert!(userland::cast_record::<WireDns>(&bytes[..dns - 1]).is_none());
    assert!(userland::cast_record::<WireDns>(&bytes[..dns]).is_some());
}

#[test]
fn cast_record_places_every_exec_field() {
    let h = header(WireKind::Exec);
    let mut bytes = header_bytes(&h);
    let mut exe = [0u8; EXE_LEN];
    exe[..9].copy_from_slice(b"/bin/true");
    let mut cmdline = [0u8; CMDLINE_LEN];
    cmdline[..6].copy_from_slice(b"true x");
    cmdline[CMDLINE_LEN - 1] = b'!';
    let mut cwd = [0u8; CWD_LEN];
    cwd[..4].copy_from_slice(b"/tmp");
    bytes.extend_from_slice(&exe);
    bytes.extend_from_slice(&cmdline);
    bytes.extend_from_slice(&cwd);
    bytes.push(0xEE);
    let record = userland::cast_record::<WireExec>(&bytes).unwrap();
    assert_eq!(record, WireExec { header: h, exe, cmdline, cwd });
    assert_eq!(userland::cstr_lossy(&record.exe), "/bin/true");
    assert_eq!(userland::cast_record::<WireHeader>(&bytes), Some(h));
}

#[test]
fn cast_record_places_every_open_field() {
    let h = header(WireKind::OpenFile);
    let mut bytes = header_bytes(&h);
    let mut path = [0u8; PATH_LEN];
    path[..11].copy_from_slice(b"/etc/passwd");
    bytes.extend_from_slice(&i32::MIN.to_le_bytes());
    bytes.extend_from_slice(&[1, 2, 3, 4]);
    bytes.extend_from_slice(&path);
    let record = userland::cast_record::<WireOpen>(&bytes).unwrap();
    assert_eq!(record, WireOpen { header: h, flags: i32::MIN, _pad: [1, 2, 3, 4], path });
}

#[test]
fn cast_record_places_every_net_field() {
    let h = header(WireKind::Network);
    let mut bytes = header_bytes(&h);
    bytes.extend_from_slice(&[10, 2, 17, 9]);
    bytes.extend_from_slice(&0x1234u16.to_le_bytes());
    bytes.extend_from_slice(&443u16.to_le_bytes());
    bytes.extend_from_slice(&[7; 16]);
    bytes.extend_from_slice(&[8; 16]);
    let record = userland::cast_record::<WireNet>(&bytes).unwrap();
    assert_eq!(
        record,
        WireNet {
            header: h,
            family: 10,
            direction: 2,
            protocol: 17,
            _pad: 9,
            src_port: 0x1234,
            dst_port: 443,
            src_addr: [7; 16],
            dst_addr: [8; 16],
        }
    );
    assert_eq!(userland::peek_kind(&bytes), WireKind::from_u8(record.header.kind));
}

#[test]
fn cast_record_places_every_dns_field() {
    let h = header(WireKind::Dns);
    let mut bytes = header_bytes(&h);
    let mut query = [0u8; DNS_QUERY_LEN];
    query[0] = 1;
    query[DNS_QUERY_LEN - 1] = 2;
    bytes.extend_from_slice(&0xfffeu16.to_le_bytes());
    bytes.extend_from_slice(&[1, 2, 3, 4, 5, 6]);
    bytes.extend_from_slice(&query);
    let record = userland::cast_record::<WireDns>(&bytes).unwrap();
    assert_eq!(record, WireDns { header: h, query_len: 0xfffe, _pad: [1, 2, 3, 4, 5, 6], query });
}
