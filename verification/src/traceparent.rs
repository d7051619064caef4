//! The W3C `traceparent` header of outbound Gateway requests.
//!
//! A value has the form `00-<trace id>-<span id>-<flags>`: the version `00`, a
//! sixteen-byte trace id, an eight-byte span id and one byte of flags, all in
//! lower-case hexadecimal. An id whose bytes are all zero is invalid.

use vstd::prelude::*;
use vstd::string::*;

use crate::ascii;
use crate::fields;

pub mod laws;

verus! {

/// The name of the header.
pub const TRACEPARENT_HEADER: &'static str = "traceparent";

/// `getrandom::Error`, carried from the system's random source to the caller.
#[verifier::external_type_specification]
#[verifier::external_body]
pub struct ExRngError(getrandom::Error);

/// Why no header value could be generated.
#[derive(Debug, Clone, Copy)]
pub enum EntropyError {
    /// The system's random source failed.
    Rng(getrandom::Error),
    /// The system's random source drew an id whose bytes are all zero, which no
    /// header value may carry.
    ZeroId,
}

/// The trace id and the span id of a `traceparent` header value, both in
/// lower-case hexadecimal, so that ids compare equal whatever case a producer
/// wrote them in.
#[derive(Debug, PartialEq, Eq)]
pub struct TraceParts {
    /// Thirty-two lower-case hexadecimal digits.
    pub trace_id: String,
    /// Sixteen lower-case hexadecimal digits.
    pub span_id: String,
}

impl Clone for TraceParts {
    fn clone(&self) -> (res: Self)
        ensures
            res == *self,
    {
        TraceParts { trace_id: self.trace_id.clone(), span_id: self.span_id.clone() }
    }
}

/// The trace id and the span id that `value` carries, in lower case, or `None`
/// where `value` is not a well-formed version-`00` header value.
pub open spec fn parsed(value: Seq<char>) -> Option<(Seq<char>, Seq<char>)> {
    let f = fields::fields(value);
    if {
        &&& f.len() == 4
        &&& f[0] == seq!['0', '0']
        &&& ascii::is_hex(f[1], 32)
        &&& ascii::is_hex(f[2], 16)
        &&& ascii::is_hex(f[3], 2)
        &&& !ascii::is_all_zero_text(f[1])
        &&& !ascii::is_all_zero_text(f[2])
    } {
        Some((ascii::lower(f[1]), ascii::lower(f[2])))
    } else {
        None
    }
}

/// The header value for the given ids and flags.
pub open spec fn formatted(trace_id: Seq<u8>, span_id: Seq<u8>, flags: u8) -> Seq<char> {
    seq!['0', '0', '-'] + ascii::hex(trace_id) + seq!['-'] + ascii::hex(span_id) + seq!['-']
        + ascii::hex(seq![flags])
}

/// The position of the first dash of `chars` at or after `start`, or the length
/// of `chars` where none is left.
fn find_dash(chars: &Vec<char>, start: usize) -> (end: usize)
    requires
        start <= chars@.len(),
    ensures
        start <= end <= chars@.len(),
        end < chars@.len() ==> chars@[end as int] == '-',
        !chars@.subrange(start as int, end as int).contains('-'),
{
    let mut end: usize = start;
    while end < chars.len() && chars[end] != '-'
        invariant
            start <= end <= chars@.len(),
            forall|i: int| start <= i < end ==> #[trigger] chars@[i] != '-',
        decreases chars@.len() - end,
    {
        end = end + 1;
    }
    end
}

/// Cutting `s` at the dash at position `i`.
proof fn lemma_fields_cut(s: Seq<char>, start: int, i: int)
    requires
        0 <= start <= i < s.len(),
        s[i] == '-',
        !s.subrange(start, i).contains('-'),
    ensures
        fields::fields(s.skip(start)) == seq![s.subrange(start, i)] + fields::fields(s.skip(i + 1)),
{
    let head = s.subrange(start, i);
    assert(s.skip(start) =~= head + seq!['-'] + s.skip(i + 1));
    fields::lemma_fields_join(head, s.skip(i + 1));
    fields::lemma_fields_single(head);
}

/// Parses a `traceparent` header value into its trace id and its span id.
///
/// Returns `None` unless `value` has exactly four fields between dashes: the
/// version `00`, thirty-two hexadecimal digits of trace id, sixteen of span id
/// and two of flags, neither id all zero. The flags are not returned.
pub fn parse_traceparent(value: &str) -> (res: Option<TraceParts>)
    ensures
        match res {
            Some(parts) => parsed(value@) == Some((parts.trace_id@, parts.span_id@)),
            None => parsed(value@) is None,
        },
{
    let chars = ascii::chars_of(value);
    let len = chars.len();
    let ghost s = value@;
    assert(s.skip(0) =~= s);
    let version_end = find_dash(&chars, 0);
    if version_end == len {
        proof {
            assert(s.subrange(0, len as int) =~= s);
            fields::lemma_fields_single(s);
        }
        return None;
    }
    proof {
        lemma_fields_cut(s, 0, version_end as int);
    }
    let trace_end = find_dash(&chars, version_end + 1);
    if trace_end == len {
        proof {
            assert(s.subrange(version_end + 1, len as int) =~= s.skip(version_end + 1));
            fields::lemma_fields_single(s.skip(version_end + 1));
        }
        return None;
    }
    proof {
        lemma_fields_cut(s, version_end + 1, trace_end as int);
    }
    let span_end = find_dash(&chars, trace_end + 1);
    if span_end == len {
        proof {
            assert(s.subrange(trace_end + 1, len as int) =~= s.skip(trace_end + 1));
            fields::lemma_fields_single(s.skip(trace_end + 1));
        }
        return None;
    }
    proof {
        lemma_fields_cut(s, trace_end + 1, span_end as int);
    }
    let flags_end = find_dash(&chars, span_end + 1);
    if flags_end != len {
        proof {
            lemma_fields_cut(s, span_end + 1, flags_end as int);
            fields::lemma_fields_nonempty(s.skip(flags_end + 1));
        }
        return None;
    }
    proof {
        assert(s.subrange(span_end + 1, len as int) =~= s.skip(span_end + 1));
        fields::lemma_fields_single(s.skip(span_end + 1));
        assert(fields::fields(s) =~= seq![
            s.subrange(0, version_end as int),
            s.subrange(version_end + 1, trace_end as int),
            s.subrange(trace_end + 1, span_end as int),
            s.subrange(span_end + 1, len as int),
        ]);
    }
    if version_end != 2 || chars[0] != '0' || chars[1] != '0' {
        proof {
            let version = s.subrange(0, version_end as int);
            if version == seq!['0', '0'] {
                assert(version.len() == 2 && version[0] == '0' && version[1] == '0');
            }
        }
        return None;
    }
    assert(s.subrange(0, version_end as int) =~= seq!['0', '0']);
    let trace_id = value.substring_char(version_end + 1, trace_end);
    let span_id = value.substring_char(trace_end + 1, span_end);
    let flags = value.substring_char(span_end + 1, len);
    if !ascii::is_hex_of_len(trace_id, 32) || !ascii::is_hex_of_len(span_id, 16) {
        return None;
    }
    if !ascii::is_hex_of_len(flags, 2) {
        return None;
    }
    if ascii::is_all_zero(trace_id) || ascii::is_all_zero(span_id) {
        return None;
    }
    Some(TraceParts { trace_id: ascii::lower_hex(trace_id), span_id: ascii::lower_hex(span_id) })
}

/// The header value for the given ids and flags, in lower-case hexadecimal.
pub fn format_traceparent(trace_id: &[u8; 16], span_id: &[u8; 8], flags: u8) -> (out: String)
    ensures
        out@ == formatted(trace_id@, span_id@, flags),
{
    let mut out = String::new();
    proof {
        reveal_strlit("00-");
        reveal_strlit("-");
    }
    out.append("00-");
    ascii::push_hex(&mut out, trace_id);
    out.append("-");
    ascii::push_hex(&mut out, span_id);
    out.append("-");
    ascii::push_hex(&mut out, &[flags]);
    assert(out@ =~= formatted(trace_id@, span_id@, flags));
    out
}

/// Every byte of `bytes` is zero.
pub open spec fn is_zero_id(bytes: Seq<u8>) -> bool {
    forall|i: int| 0 <= i < bytes.len() ==> #[trigger] bytes[i] == 0
}

/// `value` is a sampled header value for a trace id and a span id that are not
/// all zero.
pub open spec fn is_fresh(value: Seq<char>) -> bool {
    exists|trace_id: Seq<u8>, span_id: Seq<u8>|
        {
            &&& trace_id.len() == 16
            &&& span_id.len() == 8
            &&& !is_zero_id(trace_id)
            &&& !is_zero_id(span_id)
            &&& value == #[trigger] formatted(trace_id, span_id, 1)
        }
}

/// `name` is the name of the header, in whatever case.
pub open spec fn is_traceparent_name(name: Seq<char>) -> bool {
    ascii::lower(name) == TRACEPARENT_HEADER@
}

/// One of `names` is that of the header.
pub open spec fn holds_traceparent_name(names: Seq<&str>) -> bool {
    exists|i: int| 0 <= i < names.len() && is_traceparent_name(#[trigger] names[i]@)
}

/// One of `headers` is a `traceparent`.
pub open spec fn is_stamped(headers: Seq<(String, String)>) -> bool {
    exists|i: int| 0 <= i < headers.len() && is_traceparent_name(#[trigger] headers[i].0@)
}

/// `after` is `before` with a `traceparent` header of the given value behind it.
pub open spec fn is_appended(
    before: Seq<(String, String)>,
    after: Seq<(String, String)>,
    value: Seq<char>,
) -> bool {
    &&& after.len() == before.len() + 1
    &&& after.drop_last() == before
    &&& after.last().0@ == TRACEPARENT_HEADER@
    &&& after.last().1@ == value
}

/// `getrandom::fill`: bytes from the system's random source. Nothing is claimed
/// of the bytes, nor of when the source fails.
#[verifier::external_body]
fn random_bytes<const N: usize>() -> (res: Result<[u8; N], getrandom::Error>) {
    let mut bytes = [0u8; N];
    getrandom::fill(&mut bytes).map(|()| bytes)
}

/// `draw` is an answer of the system's random source to a request for `N` bytes.
pub closed spec fn is_draw<const N: usize>(draw: Result<[u8; N], getrandom::Error>) -> bool {
    call_ensures(random_bytes::<N>, (), draw)
}

/// Nothing is a draw but what a call to the random source returned.
proof fn lemma_draw_was_returned<const N: usize>(draw: Result<[u8; N], getrandom::Error>)
    requires
        is_draw(draw),
    ensures
        call_ensures(random_bytes::<N>, (), draw),
{
}

/// `true` when every byte of `bytes` is zero.
fn is_zero(bytes: &[u8]) -> (res: bool)
    ensures
        res == is_zero_id(bytes@),
{
    for i in 0..bytes.len()
        invariant
            forall|j: int| 0 <= j < i ==> #[trigger] bytes@[j] == 0,
    {
        if bytes[i] != 0 {
            return false;
        }
    }
    true
}

/// The sampled header value for ids that were drawn at random.
///
/// Ids whose bytes are all zero are refused.
pub fn traceparent_from_ids(trace_id: &[u8; 16], span_id: &[u8; 8]) -> (res: Result<
    String,
    EntropyError,
>)
    ensures
        match res {
            Ok(value) => {
                &&& !is_zero_id(trace_id@)
                &&& !is_zero_id(span_id@)
                &&& value@ == formatted(trace_id@, span_id@, 1)
            },
            Err(EntropyError::ZeroId) => is_zero_id(trace_id@) || is_zero_id(span_id@),
            Err(EntropyError::Rng(_)) => false,
        },
{
    if is_zero(trace_id) || is_zero(span_id) {
        return Err(EntropyError::ZeroId);
    }
    Ok(format_traceparent(trace_id, span_id, 0x01))
}

/// The sampled header value for what the random source answered to the draws of
/// the two ids: the failure of the first draw that failed, or the header value
/// for the ids.
pub fn traceparent_from_draws(
    trace_draw: Result<[u8; 16], getrandom::Error>,
    span_draw: Result<[u8; 8], getrandom::Error>,
) -> (res: Result<String, EntropyError>)
    ensures
        match (trace_draw, span_draw) {
            (Err(e), _) => res == Err::<String, _>(EntropyError::Rng(e)),
            (Ok(_), Err(e)) => res == Err::<String, _>(EntropyError::Rng(e)),
            (Ok(trace_id), Ok(span_id)) => if is_zero_id(trace_id@) || is_zero_id(span_id@) {
                res == Err::<String, _>(EntropyError::ZeroId)
            } else {
                res is Ok && res->Ok_0@ == formatted(trace_id@, span_id@, 1)
            },
        },
{
    match (trace_draw, span_draw) {
        (Err(e), _) => Err(EntropyError::Rng(e)),
        (Ok(_), Err(e)) => Err(EntropyError::Rng(e)),
        (Ok(trace_id), Ok(span_id)) => traceparent_from_ids(&trace_id, &span_id),
    }
}

/// Generates a fresh `traceparent` header value with random ids and the sampled
/// flag set.
///
/// A value that was generated always parses, and its parts make up the value
/// again. The ids are the sixteen and the eight bytes that the random source drew
/// for this value, and nothing but these two draws decides whether there is one.
pub fn generate_traceparent() -> (res: Result<String, EntropyError>)
    ensures
        exists|
            trace_draw: Result<[u8; 16], getrandom::Error>,
            span_draw: Result<[u8; 8], getrandom::Error>,
        |
            {
                &&& #[trigger] is_draw(trace_draw)
                &&& #[trigger] is_draw(span_draw)
                &&& match (trace_draw, span_draw) {
                    (Err(e), _) => res == Err::<String, _>(EntropyError::Rng(e)),
                    (Ok(_), Err(e)) => res == Err::<String, _>(EntropyError::Rng(e)),
                    (Ok(trace_id), Ok(span_id)) => if is_zero_id(trace_id@) || is_zero_id(
                        span_id@,
                    ) {
                        res == Err::<String, _>(EntropyError::ZeroId)
                    } else {
                        res is Ok && res->Ok_0@ == formatted(trace_id@, span_id@, 1)
                    },
                }
            },
        res matches Ok(value) ==> {
            &&& is_fresh(value@)
            &&& parsed(value@) matches Some(parts) && value@ == seq!['0', '0', '-'] + parts.0
                + seq!['-'] + parts.1 + seq!['-', '0', '1']
        },
{
    let trace_draw: Result<[u8; 16], getrandom::Error> = random_bytes();
    let span_draw: Result<[u8; 8], getrandom::Error> = random_bytes();
    let res = traceparent_from_draws(trace_draw, span_draw);
    proof {
        assert(is_draw(trace_draw) && is_draw(span_draw));
        lemma_draw_was_returned(trace_draw);
        lemma_draw_was_returned(span_draw);
        if res is Ok {
            let trace_id = trace_draw->Ok_0@;
            let span_id = span_draw->Ok_0@;
            law_formatted_parses(trace_id, span_id, 1);
            assert(ascii::hex(seq![1u8]) =~= seq!['0', '1']);
            assert(res->Ok_0@ =~= seq!['0', '0', '-'] + ascii::hex(trace_id) + seq!['-']
                + ascii::hex(span_id) + seq!['-', '0', '1']);
        }
    }
    res
}

/// Parsing undoes formatting: the ids come back in lower-case hexadecimal,
/// whatever the flags, unless one of them is all zero.
pub proof fn law_formatted_parses(trace_id: Seq<u8>, span_id: Seq<u8>, flags: u8)
    requires
        trace_id.len() == 16,
        span_id.len() == 8,
    ensures
        parsed(formatted(trace_id, span_id, flags)) == if is_zero_id(trace_id) || is_zero_id(
            span_id,
        ) {
            None
        } else {
            Some((ascii::hex(trace_id), ascii::hex(span_id)))
        },
{
    lemma_formatted_fields(trace_id, span_id, flags);
    ascii::lemma_hex(trace_id);
    ascii::lemma_hex(span_id);
    ascii::lemma_hex(seq![flags]);
    ascii::lemma_hex_zero(trace_id);
    ascii::lemma_hex_zero(span_id);
}

/// The fields of a header value are the version, the two ids and the flags.
proof fn lemma_formatted_fields(trace_id: Seq<u8>, span_id: Seq<u8>, flags: u8)
    ensures
        fields::fields(formatted(trace_id, span_id, flags)) == seq![
            seq!['0', '0'],
            ascii::hex(trace_id),
            ascii::hex(span_id),
            ascii::hex(seq![flags]),
        ],
{
    let version = seq!['0', '0'];
    let t = ascii::hex(trace_id);
    let s = ascii::hex(span_id);
    let f = ascii::hex(seq![flags]);
    ascii::lemma_hex(trace_id);
    ascii::lemma_hex(span_id);
    ascii::lemma_hex(seq![flags]);
    lemma_four_fields(version, t, s, f);
    assert(formatted(trace_id, span_id, flags) =~= version + seq!['-'] + t + seq!['-'] + s
        + seq!['-'] + f);
}

/// `true` when one of the names is that of the `traceparent` header. Header
/// names are compared without regard to case.
pub fn has_traceparent(header_names: &[&str]) -> (res: bool)
    ensures
        res == exists|i: int|
            0 <= i < header_names@.len() && is_traceparent_name(#[trigger] header_names@[i]@),
        res == holds_traceparent_name(header_names@),
{
    proof {
        reveal_strlit("traceparent");
        assert(ascii::lower(TRACEPARENT_HEADER@) =~= TRACEPARENT_HEADER@);
    }
    for i in 0..header_names.len()
        invariant
            ascii::lower(TRACEPARENT_HEADER@) == TRACEPARENT_HEADER@,
            forall|j: int|
                0 <= j < i ==> !is_traceparent_name(#[trigger] header_names@[j]@),
    {
        if ascii::eq_ignore_case(header_names[i], TRACEPARENT_HEADER) {
            return true;
        }
    }
    false
}

/// The names of `headers`, in order.
fn header_names(headers: &Vec<(String, String)>) -> (names: Vec<&str>)
    ensures
        names@.len() == headers@.len(),
        forall|i: int| 0 <= i < names@.len() ==> #[trigger] names@[i]@ == headers@[i].0@,
{
    let mut names: Vec<&str> = Vec::new();
    for i in 0..headers.len()
        invariant
            names@.len() == i,
            forall|j: int| 0 <= j < i ==> #[trigger] names@[j]@ == headers@[j].0@,
    {
        names.push(headers[i].0.as_str());
    }
    names
}

/// Appends the header with the value that was generated; where none could be,
/// the headers stay as they are.
pub fn push_traceparent(
    extra_headers: &mut Vec<(String, String)>,
    generated: Result<String, EntropyError>,
) -> (res: Result<bool, EntropyError>)
    ensures
        match generated {
            Ok(value) => res == Ok::<bool, EntropyError>(true) && is_appended(
                old(extra_headers)@,
                final(extra_headers)@,
                value@,
            ),
            Err(e) => res == Err::<bool, _>(e) && final(extra_headers)@ == old(extra_headers)@,
        },
{
    match generated {
        Ok(value) => {
            extra_headers.push((TRACEPARENT_HEADER.to_string(), value));
            assert(extra_headers@.drop_last() =~= old(extra_headers)@);
            Ok(true)
        },
        Err(e) => Err(e),
    }
}

/// Appends a fresh `traceparent` to `extra_headers` unless there is one already.
/// Returns whether a header was added.
///
/// A header that is there is never overwritten, in whatever case its name is
/// written. Where there is none, the header value that is generated decides: it
/// is appended, or its error is returned, whatever the other headers are.
pub fn stamp_if_absent(extra_headers: &mut Vec<(String, String)>) -> (res: Result<
    bool,
    EntropyError,
>)
    ensures
        is_stamped(old(extra_headers)@) ==> {
            &&& res == Ok::<bool, EntropyError>(false)
            &&& final(extra_headers)@ == old(extra_headers)@
        },
        !is_stamped(old(extra_headers)@) ==> match res {
            Ok(added) => added && exists|value: Seq<char>|
                is_fresh(value) && #[trigger] is_appended(
                    old(extra_headers)@,
                    final(extra_headers)@,
                    value,
                ),
            Err(_) => final(extra_headers)@ == old(extra_headers)@,
        },
        !is_stamped(old(extra_headers)@) ==> exists|generated: Result<String, EntropyError>|
            {
                &&& #[trigger] call_ensures(generate_traceparent, (), generated)
                &&& match generated {
                    Ok(value) => res == Ok::<bool, EntropyError>(true) && is_appended(
                        old(extra_headers)@,
                        final(extra_headers)@,
                        value@,
                    ),
                    Err(e) => res == Err::<bool, _>(e) && final(extra_headers)@ == old(
                        extra_headers,
                    )@,
                }
            },
        res is Ok ==> is_stamped(final(extra_headers)@),
{
    let names = header_names(extra_headers);
    if has_traceparent(names.as_slice()) {
        proof {
            let i = choose|i: int|
                0 <= i < names@.len() && is_traceparent_name(#[trigger] names@[i]@);
            assert(is_traceparent_name(extra_headers@[i].0@));
        }
        return Ok(false);
    }
    proof {
        assert forall|i: int| 0 <= i < extra_headers@.len() implies !is_traceparent_name(
            #[trigger] extra_headers@[i].0@,
        ) by {
            assert(!is_traceparent_name(names@[i]@));
        }
    }
    let generated = generate_traceparent();
    let ghost value = generated->Ok_0@;
    let res = push_traceparent(extra_headers, generated);
    proof {
        if res is Ok {
            law_appended_header_counts(old(extra_headers)@, extra_headers@, value);
        }
    }
    res
}

/// The ids of a parsed header value are lower-case hexadecimal text of the right
/// length, and neither is all zero.
pub proof fn law_parsed_ids_are_canonical(value: Seq<char>)
    requires
        parsed(value) is Some,
    ensures
        ({
            let (trace_id, span_id) = parsed(value)->Some_0;
            &&& ascii::is_hex(trace_id, 32) && ascii::is_hex(span_id, 16)
            &&& ascii::lower(trace_id) == trace_id && ascii::lower(span_id) == span_id
            &&& !ascii::is_all_zero_text(trace_id) && !ascii::is_all_zero_text(span_id)
        }),
{
    let f = fields::fields(value);
    ascii::lemma_lower(f[1], 32);
    ascii::lemma_lower(f[2], 16);
}

/// Values that differ only in case carry the same ids, or none.
pub proof fn law_parse_ignores_case(a: Seq<char>, b: Seq<char>)
    requires
        ascii::lower(a) == ascii::lower(b),
    ensures
        parsed(a) == parsed(b),
{
    lemma_parsed_lower(a);
    lemma_parsed_lower(b);
}

/// A value carries the ids that its lower-case form does.
proof fn lemma_parsed_lower(value: Seq<char>)
    ensures
        parsed(ascii::lower(value)) == parsed(value),
{
    let f = fields::fields(value);
    let g = fields::fields(ascii::lower(value));
    fields::lemma_fields_lower(value);
    if f.len() == 4 {
        assert(g[0] == ascii::lower(f[0]));
        assert(g[1] == ascii::lower(f[1]));
        assert(g[2] == ascii::lower(f[2]));
        assert(g[3] == ascii::lower(f[3]));
        ascii::lemma_lower(f[1], 32);
        ascii::lemma_lower(f[2], 16);
        ascii::lemma_lower(f[3], 2);
        if f[0] == seq!['0', '0'] {
            assert(g[0] =~= seq!['0', '0']);
        }
        if g[0] == seq!['0', '0'] {
            assert(ascii::lower(f[0])[0] == '0' && ascii::lower(f[0])[1] == '0');
            assert(f[0] =~= seq!['0', '0']);
        }
    }
}

/// `value` has 55 characters: the version, the trace id, the span id and the
/// flags at their places, with a dash between each two of them.
pub open spec fn is_well_formed(value: Seq<char>) -> bool {
    &&& value.len() == 55
    &&& value[0] == '0' && value[1] == '0'
    &&& value[2] == '-' && value[35] == '-' && value[52] == '-'
    &&& ascii::is_hex(value.subrange(3, 35), 32)
    &&& ascii::is_hex(value.subrange(36, 52), 16)
    &&& ascii::is_hex(value.subrange(53, 55), 2)
    &&& !ascii::is_all_zero_text(value.subrange(3, 35))
    &&& !ascii::is_all_zero_text(value.subrange(36, 52))
}

/// Every field of a value that parses has its fixed place, and every value with
/// the fields at these places parses.
pub proof fn law_fields_have_fixed_places(value: Seq<char>)
    ensures
        parsed(value) == if is_well_formed(value) {
            Some((ascii::lower(value.subrange(3, 35)), ascii::lower(value.subrange(36, 52))))
        } else {
            None
        },
{
    if is_well_formed(value) {
        lemma_well_formed_parses(value);
    } else if parsed(value) is Some {
        lemma_parsed_is_well_formed(value);
    }
}

/// A value with the fields at their places has these fields.
#[verifier::spinoff_prover]
proof fn lemma_well_formed_parses(value: Seq<char>)
    requires
        is_well_formed(value),
    ensures
        parsed(value) == Some(
            (ascii::lower(value.subrange(3, 35)), ascii::lower(value.subrange(36, 52))),
        ),
{
    let version = seq!['0', '0'];
    let trace_id = value.subrange(3, 35);
    let span_id = value.subrange(36, 52);
    let flags = value.subrange(53, 55);
    ascii::lemma_hex_has_no_dash(trace_id, 32);
    ascii::lemma_hex_has_no_dash(span_id, 16);
    ascii::lemma_hex_has_no_dash(flags, 2);
    assert(!version.contains('-'));
    lemma_four_fields(version, trace_id, span_id, flags);
    assert(value =~= version + seq!['-'] + trace_id + seq!['-'] + span_id + seq!['-'] + flags);
}

/// A value that parses has its fields at their places.
#[verifier::spinoff_prover]
proof fn lemma_parsed_is_well_formed(value: Seq<char>)
    requires
        parsed(value) is Some,
    ensures
        is_well_formed(value),
        value.subrange(3, 35) == fields::fields(value)[1],
        value.subrange(36, 52) == fields::fields(value)[2],
        value.subrange(53, 55) == fields::fields(value)[3],
{
    let f = fields::fields(value);
    lemma_parsed_is_joined(value);
    assert(value.len() == 55);
    assert(value.subrange(3, 35) =~= f[1]);
    assert(value.subrange(36, 52) =~= f[2]);
    assert(value.subrange(53, 55) =~= f[3]);
}

/// Four pieces of text without a dash are the fields of what dashes join them to.
proof fn lemma_four_fields(a: Seq<char>, b: Seq<char>, c: Seq<char>, d: Seq<char>)
    requires
        !a.contains('-'),
        !b.contains('-'),
        !c.contains('-'),
        !d.contains('-'),
    ensures
        fields::fields(a + seq!['-'] + b + seq!['-'] + c + seq!['-'] + d) == seq![a, b, c, d],
{
    let dash = seq!['-'];
    fields::lemma_fields_single(a);
    fields::lemma_fields_single(b);
    fields::lemma_fields_single(c);
    fields::lemma_fields_single(d);
    fields::lemma_fields_join(a, b);
    fields::lemma_fields_join(a + dash + b, c);
    fields::lemma_fields_join(a + dash + b + dash + c, d);
    assert(fields::fields(a + dash + b + dash + c + dash + d) =~= seq![a, b, c, d]);
}

/// A value that parses is its fields, joined.
proof fn lemma_parsed_is_joined(value: Seq<char>)
    requires
        parsed(value) is Some,
    ensures
        ({
            let f = fields::fields(value);
            value == seq!['0', '0'] + seq!['-'] + f[1] + seq!['-'] + f[2] + seq!['-'] + f[3]
        }),
{
    let f = fields::fields(value);
    fields::lemma_joined_fields(value);
    fields::lemma_joined_four(f[0], f[1], f[2], f[3]);
    assert(f =~= seq![f[0], f[1], f[2], f[3]]);
}

/// The ids of a parsed value make up the value again, up to case and with the
/// flags that it had.
#[verifier::spinoff_prover]
pub proof fn law_parsed_ids_make_up_the_value(value: Seq<char>)
    requires
        parsed(value) is Some,
    ensures
        value.len() == 55,
        ({
            let (trace_id, span_id) = parsed(value)->Some_0;
            ascii::lower(value) == seq!['0', '0', '-'] + trace_id + seq!['-'] + span_id + seq!['-']
                + ascii::lower(value.subrange(53, 55))
        }),
{
    let f = fields::fields(value);
    lemma_parsed_is_joined(value);
    let version = seq!['0', '0'];
    let dash = seq!['-'];
    lemma_parsed_is_well_formed(value);
    ascii::lemma_lower_concat(version, dash);
    ascii::lemma_lower_concat(version + dash, f[1]);
    ascii::lemma_lower_concat(version + dash + f[1], dash);
    ascii::lemma_lower_concat(version + dash + f[1] + dash, f[2]);
    ascii::lemma_lower_concat(version + dash + f[1] + dash + f[2], dash);
    ascii::lemma_lower_concat(version + dash + f[1] + dash + f[2] + dash, f[3]);
    assert(ascii::lower(dash) =~= dash);
    assert(ascii::lower(version) + dash =~= seq!['0', '0', '-']);
}

/// A formatted value has 55 characters, all in lower case.
pub proof fn law_formatted_is_canonical(trace_id: Seq<u8>, span_id: Seq<u8>, flags: u8)
    requires
        trace_id.len() == 16,
        span_id.len() == 8,
    ensures
        formatted(trace_id, span_id, flags).len() == 55,
        ascii::lower(formatted(trace_id, span_id, flags)) == formatted(trace_id, span_id, flags),
{
    let value = formatted(trace_id, span_id, flags);
    ascii::lemma_hex(trace_id);
    ascii::lemma_hex(span_id);
    ascii::lemma_hex(seq![flags]);
    assert(ascii::lower(value) =~= seq!['0', '0', '-'] + ascii::lower(ascii::hex(trace_id))
        + seq!['-'] + ascii::lower(ascii::hex(span_id)) + seq!['-'] + ascii::lower(
        ascii::hex(seq![flags]),
    ));
}

/// Different ids or flags make different values.
pub proof fn law_formatted_is_injective(
    trace_a: Seq<u8>,
    span_a: Seq<u8>,
    flags_a: u8,
    trace_b: Seq<u8>,
    span_b: Seq<u8>,
    flags_b: u8,
)
    requires
        formatted(trace_a, span_a, flags_a) == formatted(trace_b, span_b, flags_b),
    ensures
        trace_a == trace_b,
        span_a == span_b,
        flags_a == flags_b,
{
    lemma_formatted_fields(trace_a, span_a, flags_a);
    lemma_formatted_fields(trace_b, span_b, flags_b);
    let f = fields::fields(formatted(trace_a, span_a, flags_a));
    assert(f[1] == ascii::hex(trace_a) && f[1] == ascii::hex(trace_b));
    assert(f[2] == ascii::hex(span_a) && f[2] == ascii::hex(span_b));
    assert(f[3] == ascii::hex(seq![flags_a]) && f[3] == ascii::hex(seq![flags_b]));
    ascii::lemma_hex_injective(trace_a, trace_b);
    ascii::lemma_hex_injective(span_a, span_b);
    ascii::lemma_hex_injective(seq![flags_a], seq![flags_b]);
    assert(seq![flags_a][0] == seq![flags_b][0]);
}

/// Whether a name is that of the header does not depend on its case.
pub proof fn law_header_name_ignores_case(a: Seq<char>, b: Seq<char>)
    requires
        ascii::lower(a) == ascii::lower(b),
    ensures
        is_traceparent_name(a) == is_traceparent_name(b),
{
}

/// Stamping is idempotent: headers to which a `traceparent` was appended keep
/// every header that they had and count as stamped, so that another stamp leaves
/// them as they are.
pub proof fn law_appended_header_counts(
    before: Seq<(String, String)>,
    after: Seq<(String, String)>,
    value: Seq<char>,
)
    requires
        is_appended(before, after, value),
    ensures
        is_stamped(after),
        after.len() == before.len() + 1,
        forall|i: int| 0 <= i < before.len() ==> #[trigger] after[i] == before[i],
        after[before.len() as int].0@ == seq![
            't', 'r', 'a', 'c', 'e', 'p', 'a', 'r', 'e', 'n', 't',
        ],
        after[before.len() as int].1@ == value,
{
    reveal_strlit("traceparent");
    assert(ascii::lower(TRACEPARENT_HEADER@) =~= TRACEPARENT_HEADER@);
    assert(is_traceparent_name(after[after.len() - 1].0@));
    assert(TRACEPARENT_HEADER@ =~= seq!['t', 'r', 'a', 'c', 'e', 'p', 'a', 'r', 'e', 'n', 't']);
    assert forall|i: int| 0 <= i < before.len() implies #[trigger] after[i] == before[i] by {
        assert(after.drop_last()[i] == after[i]);
    }
}

} // verus!
