use sn360_agent::ascii::is_hex_of_len;
use sn360_agent::traceparent::{
    format_traceparent, generate_traceparent, has_traceparent, parse_traceparent,
    push_traceparent, stamp_if_absent, traceparent_from_draws, traceparent_from_ids, EntropyError, TRACEPARENT_HEADER,
};

fn generated() -> String {
    generate_traceparent().expect("system RNG must be available to generate a traceparent")
}

fn stamp(headers: &mut Vec<(String, String)>) -> bool {
    stamp_if_absent(headers).expect("system RNG must be available to generate a traceparent")
}

#[test]
fn traceparent_is_well_formed() {
    let tp = generated();
    let parts: Vec<&str> = tp.split('-').collect();
    assert_eq!(parts.len(), 4, "expected 4 dash-separated fields: {tp}");
    assert_eq!(parts[0], "00", "version must be 00");
    assert_eq!(parts[1].len(), 32, "trace-id must be 32 hex chars: {tp}");
    assert_eq!(parts[2].len(), 16, "span-id must be 16 hex chars: {tp}");
    assert_eq!(parts[3], "01", "flags must be 01 (sampled)");
    assert!(
        parts[1].chars().all(|c| c.is_ascii_hexdigit() && !c.is_ascii_uppercase()),
        "trace-id must be lowercase hex: {tp}"
    );
    assert!(
        parts[2].chars().all(|c| c.is_ascii_hexdigit() && !c.is_ascii_uppercase()),
        "span-id must be lowercase hex: {tp}"
    );
}

#[test]
fn traceparent_trace_id_is_nonzero() {
    let tp = generated();
    let trace_id = tp.split('-').nth(1).unwrap();
    assert_ne!(
        trace_id, "00000000000000000000000000000000",
        "trace-id must never be all-zero: {tp}"
    );
}

#[test]
fn traceparent_span_id_is_nonzero() {
    let tp = generated();
    let span_id = tp.split('-').nth(2).unwrap();
    assert_ne!(span_id, "0000000000000000", "span-id must never be all-zero: {tp}");
}

#[test]
fn traceparent_ids_are_unique_across_calls() {
    let a = generated();
    let b = generated();
    assert_ne!(a, b, "traceparent must be unique per call");
}

#[test]
fn generated_traceparent_round_trips_through_parse() {
    let tp = generated();
    let parts = parse_traceparent(&tp).expect("generated traceparent must parse");
    assert_eq!(parts.trace_id.len(), 32);
    assert_eq!(parts.span_id.len(), 16);
    assert_eq!(format!("00-{}-{}-01", parts.trace_id, parts.span_id), tp);
}

#[test]
fn parse_accepts_canonical_and_normalises_case() {
    let preset = "00-0AF7651916CD43DD8448EB211C80319C-B7AD6B7169203331-01";
    let parts = parse_traceparent(preset).expect("canonical traceparent must parse");
    assert_eq!(parts.trace_id, "0af7651916cd43dd8448eb211c80319c");
    assert_eq!(parts.span_id, "b7ad6b7169203331");
}

#[test]
fn parse_ignores_case() {
    let upper = "00-0AF7651916CD43DD8448EB211C80319C-B7AD6B7169203331-FF";
    let lower = upper.to_ascii_lowercase();
    assert!(parse_traceparent(upper).is_some());
    assert_eq!(parse_traceparent(upper), parse_traceparent(&lower));
}

#[test]
fn parse_rejects_malformed_inputs() {
    assert!(parse_traceparent("00-abc-def").is_none());
    assert!(parse_traceparent(
        "00-0af7651916cd43dd8448eb211c80319c-b7ad6b7169203331-01-extra"
    )
    .is_none());
    assert!(parse_traceparent(
        "01-0af7651916cd43dd8448eb211c80319c-b7ad6b7169203331-01"
    )
    .is_none());
    assert!(parse_traceparent("00-0af7651916cd43dd-b7ad6b7169203331-01").is_none());
    assert!(parse_traceparent(
        "00-0af7651916cd43dd8448eb211c80319c-zzzzzzzzzzzzzzzz-01"
    )
    .is_none());
    assert!(parse_traceparent(
        "00-00000000000000000000000000000000-b7ad6b7169203331-01"
    )
    .is_none());
    assert!(parse_traceparent(
        "00-0af7651916cd43dd8448eb211c80319c-0000000000000000-01"
    )
    .is_none());
    assert!(parse_traceparent(
        "00-0af7651916cd43dd8448eb211c80319c-b7ad6b7169203331-001"
    )
    .is_none());
}

#[test]
fn parse_rejects_edge_cases() {
    assert!(parse_traceparent("").is_none());
    assert!(parse_traceparent("-").is_none());
    assert!(parse_traceparent("---").is_none());
    assert!(parse_traceparent("----").is_none());
    assert!(parse_traceparent("00-0af7651916cd43dd8448eb211c80319c-b7ad6b7169203331").is_none());
    assert!(parse_traceparent("00-0af7651916cd43dd8448eb211c80319c-b7ad6b7169203331-").is_none());
    assert!(parse_traceparent("00-0af7651916cd43dd8448eb211c80319c-b7ad6b7169203331-0g").is_none());
    assert!(parse_traceparent("00-0af7651916cd43dd8448eb211c80319c-b7ad6b7169203331-01-").is_none());
    assert!(parse_traceparent(" 00-0af7651916cd43dd8448eb211c80319c-b7ad6b7169203331-01").is_none());
    assert!(parse_traceparent("00-\u{e9}af7651916cd43dd8448eb211c80319c-b7ad6b7169203331-01").is_none());
    assert!(parse_traceparent("00-0af7651916cd43dd8448eb211c80319c-b7ad6b7169203331-00").is_some());
}

#[test]
fn stamp_if_absent_adds_when_missing() {
    let mut headers = vec![("content-type".to_string(), "application/json".to_string())];
    assert!(stamp(&mut headers));
    let tp = headers
        .iter()
        .find(|(n, _)| n.eq_ignore_ascii_case(TRACEPARENT_HEADER))
        .expect("traceparent should be stamped");
    assert!(tp.1.starts_with("00-"));
}

#[test]
fn stamp_if_absent_does_not_overwrite_existing() {
    let preset = "00-0af7651916cd43dd8448eb211c80319c-b7ad6b7169203331-01";
    let mut headers = vec![("traceparent".to_string(), preset.to_string())];
    assert!(!stamp(&mut headers));
    assert_eq!(headers.len(), 1);
    assert_eq!(headers[0].1, preset);
}

#[test]
fn stamp_if_absent_respects_case_insensitive_match() {
    let preset = "00-0af7651916cd43dd8448eb211c80319c-b7ad6b7169203331-01";
    let mut headers = vec![("Traceparent".to_string(), preset.to_string())];
    assert!(!stamp(&mut headers));
    assert_eq!(headers.len(), 1);
    assert_eq!(headers[0].1, preset);
}

#[test]
fn stamping_twice_is_stamping_once() {
    let mut headers = vec![("accept".to_string(), "*/*".to_string())];
    assert!(stamp(&mut headers));
    let once = headers.clone();
    assert_eq!(once.len(), 2);
    assert_eq!(once[0], ("accept".to_string(), "*/*".to_string()));
    assert_eq!(once[1].0, "traceparent");
    assert!(parse_traceparent(&once[1].1).is_some());
    assert!(!stamp(&mut headers));
    assert_eq!(headers, once);
}

#[test]
fn push_traceparent_keeps_the_headers_on_failure() {
    let mut headers = vec![("accept".to_string(), "*/*".to_string())];
    let failed = push_traceparent(&mut headers, Err(EntropyError::ZeroId));
    assert!(matches!(failed, Err(EntropyError::ZeroId)));
    assert_eq!(headers.len(), 1);
    assert!(matches!(push_traceparent(&mut headers, Ok("value".to_string())), Ok(true)));
    assert_eq!(headers[1], ("traceparent".to_string(), "value".to_string()));
}

#[test]
fn push_traceparent_hands_on_a_random_source_failure() {
    let mut headers = Vec::new();
    let e = getrandom::Error::UNSUPPORTED;
    match push_traceparent(&mut headers, Err(EntropyError::Rng(e))) {
        Err(EntropyError::Rng(got)) => assert_eq!(got, e),
        other => panic!("unexpected {other:?}"),
    }
    assert!(headers.is_empty());
}

#[test]
fn format_traceparent_zero_pads_bytes() {
    let trace_id = [0x01u8; 16];
    let span_id = [0x02u8; 8];
    let tp = format_traceparent(&trace_id, &span_id, 0x01);
    assert_eq!(
        tp,
        "00-01010101010101010101010101010101-0202020202020202-01"
    );
}

#[test]
fn format_traceparent_writes_every_nibble() {
    let trace_id = [
        0x01, 0x23, 0x45, 0x67, 0x89, 0xab, 0xcd, 0xef, 0xfe, 0xdc, 0xba, 0x98, 0x76, 0x54, 0x32,
        0x10,
    ];
    let span_id = [0xf0, 0xe1, 0xd2, 0xc3, 0xb4, 0xa5, 0x96, 0x87];
    let tp = format_traceparent(&trace_id, &span_id, 0xff);
    assert_eq!(tp, "00-0123456789abcdeffedcba9876543210-f0e1d2c3b4a59687-ff");
    assert_eq!(tp.len(), 55);
    let parts = parse_traceparent(&tp).unwrap();
    assert_eq!(parts.trace_id, "0123456789abcdeffedcba9876543210");
    assert_eq!(parts.span_id, "f0e1d2c3b4a59687");
    assert_ne!(tp, format_traceparent(&trace_id, &span_id, 0xfe));
}

#[test]
fn draws_decide_the_traceparent() {
    let first = getrandom::Error::UNEXPECTED;
    let second = getrandom::Error::UNSUPPORTED;
    match traceparent_from_draws(Err(first), Err(second)) {
        Err(EntropyError::Rng(got)) => assert_eq!(got, first),
        other => panic!("unexpected {other:?}"),
    }
    match traceparent_from_draws(Err(first), Ok([0; 8])) {
        Err(EntropyError::Rng(got)) => assert_eq!(got, first),
        other => panic!("unexpected {other:?}"),
    }
    match traceparent_from_draws(Ok([0; 16]), Err(second)) {
        Err(EntropyError::Rng(got)) => assert_eq!(got, second),
        other => panic!("unexpected {other:?}"),
    }
    assert!(matches!(traceparent_from_draws(Ok([0; 16]), Ok([2; 8])), Err(EntropyError::ZeroId)));
    assert!(matches!(traceparent_from_draws(Ok([1; 16]), Ok([0; 8])), Err(EntropyError::ZeroId)));
    assert_eq!(
        traceparent_from_draws(Ok([1; 16]), Ok([2; 8])).unwrap(),
        "00-01010101010101010101010101010101-0202020202020202-01"
    );
}

#[test]
fn ids_that_are_all_zero_make_no_traceparent() {
    assert!(matches!(traceparent_from_ids(&[0; 16], &[1; 8]), Err(EntropyError::ZeroId)));
    assert!(matches!(traceparent_from_ids(&[1; 16], &[0; 8]), Err(EntropyError::ZeroId)));
    let mut trace_id = [0u8; 16];
    trace_id[15] = 1;
    assert_eq!(
        traceparent_from_ids(&trace_id, &[2; 8]).unwrap(),
        "00-00000000000000000000000000000001-0202020202020202-01"
    );
}

#[test]
fn has_traceparent_detects_case_variants() {
    assert!(has_traceparent(&["traceparent"]));
    assert!(has_traceparent(&["Traceparent"]));
    assert!(has_traceparent(&["TRACEPARENT"]));
    assert!(has_traceparent(&["x-other", "traceparent"]));
    assert!(!has_traceparent(&["x-other", "x-trace-id"]));
    assert!(!has_traceparent(&[]));
}

#[test]
fn has_traceparent_needs_the_whole_name() {
    assert!(!has_traceparent(&["traceparen", "traceparent2", "trac\u{e9}parent", ""]));
}

#[test]
fn hex_of_len_counts_digits() {
    assert!(is_hex_of_len("09afAF", 6));
    assert!(!is_hex_of_len("09afAF", 5));
    assert!(!is_hex_of_len("09afAG", 6));
    assert!(!is_hex_of_len("\u{e9}", 2));
    assert!(is_hex_of_len("", 0));
}
