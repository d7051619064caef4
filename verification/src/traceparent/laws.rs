//! What the `traceparent` functions do, character by character.

use vstd::prelude::*;
use vstd::string::*;

use crate::ascii;
use crate::traceparent;
use crate::traceparent::{EntropyError, TraceParts};

verus! {

/// The characters of a formatted value: the version, a dash, two lower-case
/// digits for each byte of the trace id, a dash, two for each byte of the span
/// id, a dash and two for the flags. Read as a hexadecimal number, the digits of a
/// byte are the byte.
pub proof fn law_formatted_digits(trace_id: Seq<u8>, span_id: Seq<u8>, flags: u8)
    requires
        trace_id.len() == 16,
        span_id.len() == 8,
    ensures
        ({
            let value = traceparent::formatted(trace_id, span_id, flags);
            let digit = |c: char|
                if '0' <= c && c <= '9' {
                    c as int - 48
                } else if 'a' <= c && c <= 'f' {
                    c as int - 87
                } else {
                    -4096
                };
            &&& value.len() == 55
            &&& value[0] == '0' && value[1] == '0' && value[2] == '-'
            &&& value[35] == '-' && value[52] == '-'
            &&& forall|i: int|
                3 <= i < 55 && i != 35 && i != 52 ==> digit(#[trigger] value[i]) >= 0
            &&& forall|i: int|
                0 <= i < 16 ==> 16 * digit(value[3 + 2 * i]) + digit(value[4 + 2 * i])
                    == #[trigger] trace_id[i]
            &&& forall|i: int|
                0 <= i < 8 ==> 16 * digit(value[36 + 2 * i]) + digit(value[37 + 2 * i])
                    == #[trigger] span_id[i]
            &&& 16 * digit(value[53]) + digit(value[54]) == flags
        }),
{
    let value = traceparent::formatted(trace_id, span_id, flags);
    let t = ascii::hex(trace_id);
    let s = ascii::hex(span_id);
    let f = ascii::hex(seq![flags]);
    assert forall|i: int| 3 <= i < 35 implies #[trigger] value[i] == t[i - 3] by {}
    assert forall|i: int| 36 <= i < 52 implies #[trigger] value[i] == s[i - 36] by {}
    assert forall|i: int| 53 <= i < 55 implies #[trigger] value[i] == f[i - 53] by {}
    assert forall|i: int| 0 <= i < 16 implies {
        &&& value[3 + 2 * i] == ascii::hex_char(#[trigger] trace_id[i] as int / 16)
        &&& value[4 + 2 * i] == ascii::hex_char(trace_id[i] as int % 16)
    } by {
        assert((2 * i) / 2 == i && (2 * i + 1) / 2 == i);
    }
    assert forall|i: int| 0 <= i < 8 implies {
        &&& value[36 + 2 * i] == ascii::hex_char(#[trigger] span_id[i] as int / 16)
        &&& value[37 + 2 * i] == ascii::hex_char(span_id[i] as int % 16)
    } by {
        assert((2 * i) / 2 == i && (2 * i + 1) / 2 == i);
    }
    assert(value[53] == ascii::hex_char(flags as int / 16));
    assert(value[54] == ascii::hex_char(flags as int % 16));
}

/// A value parses exactly when it has 55 characters, the version `00` and the
/// dashes at their places, hexadecimal digits of either case everywhere else, and
/// in each id a digit other than zero. The ids that come out are those of the
/// value, digit for digit, with the letters `A` to `F` in lower case.
pub proof fn law_parsed_digits(value: Seq<char>)
    ensures
        traceparent::parsed(value) is Some <==> {
            &&& value.len() == 55
            &&& value[0] == '0' && value[1] == '0' && value[2] == '-'
            &&& value[35] == '-' && value[52] == '-'
            &&& forall|i: int|
                3 <= i < 55 && i != 35 && i != 52 ==> {
                    ||| '0' <= #[trigger] value[i] && value[i] <= '9'
                    ||| 'a' <= value[i] && value[i] <= 'f'
                    ||| 'A' <= value[i] && value[i] <= 'F'
                }
            &&& exists|i: int| 3 <= i < 35 && #[trigger] value[i] != '0'
            &&& exists|i: int| 36 <= i < 52 && #[trigger] value[i] != '0'
        },
        traceparent::parsed(value) matches Some((trace_id, span_id)) ==> {
            &&& trace_id.len() == 32
            &&& span_id.len() == 16
            &&& forall|i: int|
                0 <= i < 32 ==> #[trigger] trace_id[i] as int == if 'A' <= value[3 + i]
                    && value[3 + i] <= 'F' {
                    value[3 + i] as int + 32
                } else {
                    value[3 + i] as int
                }
            &&& forall|i: int|
                0 <= i < 16 ==> #[trigger] span_id[i] as int == if 'A' <= value[36 + i]
                    && value[36 + i] <= 'F' {
                    value[36 + i] as int + 32
                } else {
                    value[36 + i] as int
                }
        },
{
    traceparent::law_fields_have_fixed_places(value);
    let t = value.subrange(3, 35);
    let s = value.subrange(36, 52);
    let f = value.subrange(53, 55);
    if value.len() == 55 {
        assert forall|i: int| 3 <= i < 35 implies #[trigger] value[i] == t[i - 3] by {}
        assert forall|i: int| 36 <= i < 52 implies #[trigger] value[i] == s[i - 36] by {}
        assert forall|i: int| 53 <= i < 55 implies #[trigger] value[i] == f[i - 53] by {}
        assert forall|i: int| 0 <= i < 32 implies #[trigger] t[i] == value[3 + i] by {}
        assert forall|i: int| 0 <= i < 16 implies #[trigger] s[i] == value[36 + i] by {}
        assert forall|i: int| 0 <= i < 2 implies #[trigger] f[i] == value[53 + i] by {}
        if traceparent::is_well_formed(value) {
            assert forall|i: int| 3 <= i < 55 && i != 35 && i != 52 implies ascii::is_hex_char(
                #[trigger] value[i],
            ) by {
                if i < 35 {
                    assert(ascii::is_hex_char(t[i - 3]));
                } else if i < 52 {
                    assert(ascii::is_hex_char(s[i - 36]));
                } else {
                    assert(ascii::is_hex_char(f[i - 53]));
                }
            }
            let i = choose|i: int| 0 <= i < t.len() && #[trigger] t[i] != '0';
            assert(value[3 + i] != '0');
            let j = choose|j: int| 0 <= j < s.len() && #[trigger] s[j] != '0';
            assert(value[36 + j] != '0');
        }
    }
}

/// Formatting, stated of the call: see [`law_formatted_digits`].
pub proof fn law_format_traceparent(
    trace_id: &[u8; 16],
    span_id: &[u8; 8],
    flags: u8,
    out: String,
)
    requires
        call_ensures(traceparent::format_traceparent, (trace_id, span_id, flags), out),
    ensures
        ({
            let value = out@;
            let digit = |c: char|
                if '0' <= c && c <= '9' {
                    c as int - 48
                } else if 'a' <= c && c <= 'f' {
                    c as int - 87
                } else {
                    -4096
                };
            &&& value.len() == 55
            &&& value[0] == '0' && value[1] == '0' && value[2] == '-'
            &&& value[35] == '-' && value[52] == '-'
            &&& forall|i: int|
                3 <= i < 55 && i != 35 && i != 52 ==> digit(#[trigger] value[i]) >= 0
            &&& forall|i: int|
                0 <= i < 16 ==> 16 * digit(value[3 + 2 * i]) + digit(value[4 + 2 * i])
                    == #[trigger] trace_id@[i]
            &&& forall|i: int|
                0 <= i < 8 ==> 16 * digit(value[36 + 2 * i]) + digit(value[37 + 2 * i])
                    == #[trigger] span_id@[i]
            &&& 16 * digit(value[53]) + digit(value[54]) == flags
        }),
{
    law_formatted_digits(trace_id@, span_id@, flags);
}

/// Parsing, stated of the call: see [`law_parsed_digits`].
pub proof fn law_parse_traceparent(value: &str, res: Option<TraceParts>)
    requires
        call_ensures(traceparent::parse_traceparent, (value,), res),
    ensures
        res is Some <==> {
            &&& value@.len() == 55
            &&& value@[0] == '0' && value@[1] == '0' && value@[2] == '-'
            &&& value@[35] == '-' && value@[52] == '-'
            &&& forall|i: int|
                3 <= i < 55 && i != 35 && i != 52 ==> {
                    ||| '0' <= #[trigger] value@[i] && value@[i] <= '9'
                    ||| 'a' <= value@[i] && value@[i] <= 'f'
                    ||| 'A' <= value@[i] && value@[i] <= 'F'
                }
            &&& exists|i: int| 3 <= i < 35 && #[trigger] value@[i] != '0'
            &&& exists|i: int| 36 <= i < 52 && #[trigger] value@[i] != '0'
        },
        res matches Some(parts) ==> {
            &&& parts.trace_id@.len() == 32
            &&& parts.span_id@.len() == 16
            &&& forall|i: int|
                0 <= i < 32 ==> #[trigger] parts.trace_id@[i] as int == if 'A' <= value@[3 + i]
                    && value@[3 + i] <= 'F' {
                    value@[3 + i] as int + 32
                } else {
                    value@[3 + i] as int
                }
            &&& forall|i: int|
                0 <= i < 16 ==> #[trigger] parts.span_id@[i] as int == if 'A' <= value@[36 + i]
                    && value@[36 + i] <= 'F' {
                    value@[36 + i] as int + 32
                } else {
                    value@[36 + i] as int
                }
        },
{
    law_parsed_digits(value@);
}

/// Formatting and then parsing: the value parses exactly when neither id is all
/// zero, and the digits of the parts, read as hexadecimal numbers, are the bytes
/// that were formatted.
pub proof fn law_format_then_parse(
    trace_id: &[u8; 16],
    span_id: &[u8; 8],
    flags: u8,
    out: String,
    value: &str,
    res: Option<TraceParts>,
)
    requires
        call_ensures(traceparent::format_traceparent, (trace_id, span_id, flags), out),
        value@ == out@,
        call_ensures(traceparent::parse_traceparent, (value,), res),
    ensures
        res is Some <==> {
            &&& exists|i: int| 0 <= i < 16 && #[trigger] trace_id@[i] != 0
            &&& exists|i: int| 0 <= i < 8 && #[trigger] span_id@[i] != 0
        },
        res matches Some(parts) ==> {
            let digit = |c: char|
                if '0' <= c && c <= '9' {
                    c as int - 48
                } else if 'a' <= c && c <= 'f' {
                    c as int - 87
                } else {
                    -4096
                };
            &&& parts.trace_id@.len() == 32
            &&& parts.span_id@.len() == 16
            &&& forall|i: int|
                0 <= i < 16 ==> 16 * digit(parts.trace_id@[2 * i]) + digit(
                    parts.trace_id@[2 * i + 1],
                ) == #[trigger] trace_id@[i]
            &&& forall|i: int|
                0 <= i < 8 ==> 16 * digit(parts.span_id@[2 * i]) + digit(
                    parts.span_id@[2 * i + 1],
                ) == #[trigger] span_id@[i]
        },
{
    law_format_traceparent(trace_id, span_id, flags, out);
    law_parse_traceparent(value, res);
    traceparent::law_formatted_parses(trace_id@, span_id@, flags);
    if let Some(parts) = res {
        assert forall|i: int| 0 <= i < 16 implies {
            &&& parts.trace_id@[2 * i] == value@[3 + 2 * i]
            &&& parts.trace_id@[2 * i + 1] == value@[4 + 2 * i]
            &&& #[trigger] trace_id@[i] == trace_id@[i]
        } by {
            assert(value@[3 + 2 * i] == out@[3 + 2 * i]);
            assert(value@[3 + (2 * i + 1)] == out@[4 + 2 * i]);
        }
        assert forall|i: int| 0 <= i < 8 implies {
            &&& parts.span_id@[2 * i] == value@[36 + 2 * i]
            &&& parts.span_id@[2 * i + 1] == value@[37 + 2 * i]
            &&& #[trigger] span_id@[i] == span_id@[i]
        } by {
            assert(value@[36 + 2 * i] == out@[36 + 2 * i]);
            assert(value@[36 + (2 * i + 1)] == out@[37 + 2 * i]);
        }
    }
}

/// A fresh value has the form of a header value in lower case, with a digit other
/// than zero in each id and the flags `01`.
pub proof fn law_fresh_values(value: Seq<char>)
    requires
        traceparent::is_fresh(value),
    ensures
        value.len() == 55,
        value[0] == '0' && value[1] == '0' && value[2] == '-',
        value[35] == '-' && value[52] == '-',
        forall|i: int|
            3 <= i < 55 && i != 35 && i != 52 ==> {
                ||| '0' <= #[trigger] value[i] && value[i] <= '9'
                ||| 'a' <= value[i] && value[i] <= 'f'
            },
        exists|i: int| 3 <= i < 35 && #[trigger] value[i] != '0',
        exists|i: int| 36 <= i < 52 && #[trigger] value[i] != '0',
        value[53] == '0' && value[54] == '1',
{
    let (trace_id, span_id) = choose|trace_id: Seq<u8>, span_id: Seq<u8>|
        {
            &&& trace_id.len() == 16
            &&& span_id.len() == 8
            &&& !traceparent::is_zero_id(trace_id)
            &&& !traceparent::is_zero_id(span_id)
            &&& value == #[trigger] traceparent::formatted(trace_id, span_id, 1)
        };
    law_formatted_digits(trace_id, span_id, 1);
    traceparent::law_formatted_parses(trace_id, span_id, 1);
    law_parsed_digits(value);
}

/// What two draws make of a header value: the first failure of the random source
/// is the error; where both ids were drawn, an id without a byte other than zero
/// is refused, and every other pair gives the value whose digits are the drawn
/// bytes, with the flags `01`.
pub proof fn law_draws_decide(
    trace_draw: Result<[u8; 16], getrandom::Error>,
    span_draw: Result<[u8; 8], getrandom::Error>,
    res: Result<String, EntropyError>,
)
    requires
        call_ensures(traceparent::traceparent_from_draws, (trace_draw, span_draw), res),
    ensures
        trace_draw matches Err(e) ==> res == Err::<String, _>(EntropyError::Rng(e)),
        trace_draw is Ok ==> (span_draw matches Err(e) ==> res == Err::<String, _>(
            EntropyError::Rng(e),
        )),
        (trace_draw matches Ok(trace_id) && span_draw matches Ok(span_id)) ==> {
            let trace_id = trace_draw->Ok_0@;
            let span_id = span_draw->Ok_0@;
            &&& res is Ok <==> {
                &&& exists|i: int| 0 <= i < 16 && #[trigger] trace_id[i] != 0
                &&& exists|i: int| 0 <= i < 8 && #[trigger] span_id[i] != 0
            }
            &&& res is Err ==> res == Err::<String, _>(EntropyError::ZeroId)
            &&& res matches Ok(value) ==> {
                let digit = |c: char|
                    if '0' <= c && c <= '9' {
                        c as int - 48
                    } else if 'a' <= c && c <= 'f' {
                        c as int - 87
                    } else {
                        -4096
                    };
                &&& value@.len() == 55
                &&& value@[0] == '0' && value@[1] == '0' && value@[2] == '-'
                &&& value@[35] == '-' && value@[52] == '-'
                &&& forall|i: int|
                    0 <= i < 16 ==> 16 * digit(value@[3 + 2 * i]) + digit(value@[4 + 2 * i])
                        == #[trigger] trace_id[i]
                &&& forall|i: int|
                    0 <= i < 8 ==> 16 * digit(value@[36 + 2 * i]) + digit(value@[37 + 2 * i])
                        == #[trigger] span_id[i]
                &&& value@[53] == '0' && value@[54] == '1'
            }
        },
{
    if trace_draw is Ok && span_draw is Ok {
        law_formatted_digits(trace_draw->Ok_0@, span_draw->Ok_0@, 1);
    }
}

/// What two ids make of a header value: it is refused exactly where one of them
/// has no byte other than zero, and its digits are the bytes of the ids, with the
/// flags `01`.
pub proof fn law_ids_decide(
    trace_id: &[u8; 16],
    span_id: &[u8; 8],
    res: Result<String, EntropyError>,
)
    requires
        call_ensures(traceparent::traceparent_from_ids, (trace_id, span_id), res),
    ensures
        res is Ok <==> {
            &&& exists|i: int| 0 <= i < 16 && #[trigger] trace_id@[i] != 0
            &&& exists|i: int| 0 <= i < 8 && #[trigger] span_id@[i] != 0
        },
        res is Err ==> res == Err::<String, _>(EntropyError::ZeroId),
        res matches Ok(value) ==> {
            let digit = |c: char|
                if '0' <= c && c <= '9' {
                    c as int - 48
                } else if 'a' <= c && c <= 'f' {
                    c as int - 87
                } else {
                    -4096
                };
            &&& value@.len() == 55
            &&& value@[0] == '0' && value@[1] == '0' && value@[2] == '-'
            &&& value@[35] == '-' && value@[52] == '-'
            &&& forall|i: int|
                0 <= i < 16 ==> 16 * digit(value@[3 + 2 * i]) + digit(value@[4 + 2 * i])
                    == #[trigger] trace_id@[i]
            &&& forall|i: int|
                0 <= i < 8 ==> 16 * digit(value@[36 + 2 * i]) + digit(value@[37 + 2 * i])
                    == #[trigger] span_id@[i]
            &&& value@[53] == '0' && value@[54] == '1'
        },
{
    law_formatted_digits(trace_id@, span_id@, 1);
}

/// What generating returns is decided by two draws of the random source, one of
/// sixteen bytes and one of eight: it fails only where one of these draws failed
/// or is all zero, and the digits of the value are the bytes that were drawn.
pub proof fn law_generated_from_draws(res: Result<String, EntropyError>)
    requires
        call_ensures(traceparent::generate_traceparent, (), res),
    ensures
        exists|
            trace_draw: Result<[u8; 16], getrandom::Error>,
            span_draw: Result<[u8; 8], getrandom::Error>,
        |
            {
                &&& #[trigger] traceparent::is_draw(trace_draw)
                &&& #[trigger] traceparent::is_draw(span_draw)
                &&& match res {
                    Err(EntropyError::Rng(e)) => trace_draw == Err::<[u8; 16], _>(e) || (
                    trace_draw is Ok && span_draw == Err::<[u8; 8], _>(e)),
                    Err(EntropyError::ZeroId) => {
                        &&& trace_draw is Ok && span_draw is Ok
                        &&& {
                            ||| forall|i: int|
                                0 <= i < 16 ==> #[trigger] trace_draw->Ok_0@[i] == 0
                            ||| forall|i: int| 0 <= i < 8 ==> #[trigger] span_draw->Ok_0@[i] == 0
                        }
                    },
                    Ok(value) => {
                        let digit = |c: char|
                            if '0' <= c && c <= '9' {
                                c as int - 48
                            } else if 'a' <= c && c <= 'f' {
                                c as int - 87
                            } else {
                                -4096
                            };
                        &&& trace_draw is Ok && span_draw is Ok
                        &&& value@.len() == 55
                        &&& value@[0] == '0' && value@[1] == '0' && value@[2] == '-'
                        &&& value@[35] == '-' && value@[52] == '-'
                        &&& forall|i: int|
                            0 <= i < 16 ==> 16 * digit(value@[3 + 2 * i]) + digit(
                                value@[4 + 2 * i],
                            ) == #[trigger] trace_draw->Ok_0@[i]
                        &&& forall|i: int|
                            0 <= i < 8 ==> 16 * digit(value@[36 + 2 * i]) + digit(
                                value@[37 + 2 * i],
                            ) == #[trigger] span_draw->Ok_0@[i]
                        &&& exists|i: int| 0 <= i < 16 && #[trigger] trace_draw->Ok_0@[i] != 0
                        &&& exists|i: int| 0 <= i < 8 && #[trigger] span_draw->Ok_0@[i] != 0
                        &&& value@[53] == '0' && value@[54] == '1'
                    },
                }
            },
{
    let (trace_draw, span_draw) = choose|
        trace_draw: Result<[u8; 16], getrandom::Error>,
        span_draw: Result<[u8; 8], getrandom::Error>,
    |
        {
            &&& #[trigger] traceparent::is_draw(trace_draw)
            &&& #[trigger] traceparent::is_draw(span_draw)
            &&& match (trace_draw, span_draw) {
                (Err(e), _) => res == Err::<String, _>(EntropyError::Rng(e)),
                (Ok(_), Err(e)) => res == Err::<String, _>(EntropyError::Rng(e)),
                (Ok(trace_id), Ok(span_id)) => if traceparent::is_zero_id(trace_id@)
                    || traceparent::is_zero_id(span_id@) {
                    res == Err::<String, _>(EntropyError::ZeroId)
                } else {
                    res is Ok && res->Ok_0@ == traceparent::formatted(trace_id@, span_id@, 1)
                },
            }
        };
    if trace_draw is Ok && span_draw is Ok {
        law_formatted_digits(trace_draw->Ok_0@, span_draw->Ok_0@, 1);
    }
    assert(traceparent::is_draw(trace_draw) && traceparent::is_draw(span_draw));
}

/// A name is that of the header exactly when it has eleven characters and each of
/// them is the letter of `traceparent` at its place, in lower or in upper case.
pub proof fn law_traceparent_name(name: Seq<char>)
    ensures
        traceparent::is_traceparent_name(name) <==> {
            &&& name.len() == 11
            &&& name[0] == 't' || name[0] == 'T'
            &&& name[1] == 'r' || name[1] == 'R'
            &&& name[2] == 'a' || name[2] == 'A'
            &&& name[3] == 'c' || name[3] == 'C'
            &&& name[4] == 'e' || name[4] == 'E'
            &&& name[5] == 'p' || name[5] == 'P'
            &&& name[6] == 'a' || name[6] == 'A'
            &&& name[7] == 'r' || name[7] == 'R'
            &&& name[8] == 'e' || name[8] == 'E'
            &&& name[9] == 'n' || name[9] == 'N'
            &&& name[10] == 't' || name[10] == 'T'
        },
{
    reveal_strlit("traceparent");
    let header = seq!['t', 'r', 'a', 'c', 'e', 'p', 'a', 'r', 'e', 'n', 't'];
    assert(traceparent::TRACEPARENT_HEADER@ =~= header);
    let folded = ascii::lower(name);
    assert(folded.len() == name.len());
    assert forall|i: int| 0 <= i < name.len() implies #[trigger] folded[i] == ascii::lower_char(
        name[i],
    ) by {}
    if folded == header {
        assert(folded[0] == 't');
        assert(folded[1] == 'r');
        assert(folded[2] == 'a');
        assert(folded[3] == 'c');
        assert(folded[4] == 'e');
        assert(folded[5] == 'p');
        assert(folded[6] == 'a');
        assert(folded[7] == 'r');
        assert(folded[8] == 'e');
        assert(folded[9] == 'n');
        assert(folded[10] == 't');
    }
    if {
        &&& name.len() == 11
        &&& name[0] == 't' || name[0] == 'T'
        &&& name[1] == 'r' || name[1] == 'R'
        &&& name[2] == 'a' || name[2] == 'A'
        &&& name[3] == 'c' || name[3] == 'C'
        &&& name[4] == 'e' || name[4] == 'E'
        &&& name[5] == 'p' || name[5] == 'P'
        &&& name[6] == 'a' || name[6] == 'A'
        &&& name[7] == 'r' || name[7] == 'R'
        &&& name[8] == 'e' || name[8] == 'E'
        &&& name[9] == 'n' || name[9] == 'N'
        &&& name[10] == 't' || name[10] == 'T'
    } {
        assert(folded =~= header);
    }
}

/// Names hold the header exactly when one of them has eleven characters, each the
/// letter of `traceparent` at its place in lower or in upper case, wherever that
/// name stands and whatever the others are.
pub proof fn law_has_traceparent(header_names: &[&str], res: bool)
    requires
        call_ensures(traceparent::has_traceparent, (header_names,), res),
    ensures
        res <==> exists|k: int|
            0 <= k < header_names@.len() && {
                let name = #[trigger] header_names@[k]@;
                &&& name.len() == 11
                &&& name[0] == 't' || name[0] == 'T'
                &&& name[1] == 'r' || name[1] == 'R'
                &&& name[2] == 'a' || name[2] == 'A'
                &&& name[3] == 'c' || name[3] == 'C'
                &&& name[4] == 'e' || name[4] == 'E'
                &&& name[5] == 'p' || name[5] == 'P'
                &&& name[6] == 'a' || name[6] == 'A'
                &&& name[7] == 'r' || name[7] == 'R'
                &&& name[8] == 'e' || name[8] == 'E'
                &&& name[9] == 'n' || name[9] == 'N'
                &&& name[10] == 't' || name[10] == 'T'
            },
{
    assert forall|k: int| 0 <= k < header_names@.len() implies (
    traceparent::is_traceparent_name(#[trigger] header_names@[k]@) <==> {
        let name = header_names@[k]@;
        &&& name.len() == 11
        &&& name[0] == 't' || name[0] == 'T'
        &&& name[1] == 'r' || name[1] == 'R'
        &&& name[2] == 'a' || name[2] == 'A'
        &&& name[3] == 'c' || name[3] == 'C'
        &&& name[4] == 'e' || name[4] == 'E'
        &&& name[5] == 'p' || name[5] == 'P'
        &&& name[6] == 'a' || name[6] == 'A'
        &&& name[7] == 'r' || name[7] == 'R'
        &&& name[8] == 'e' || name[8] == 'E'
        &&& name[9] == 'n' || name[9] == 'N'
        &&& name[10] == 't' || name[10] == 'T'
    }) by {
        law_traceparent_name(header_names@[k]@);
    }
    assert(res == traceparent::holds_traceparent_name(header_names@));
}

/// Headers are stamped exactly when the name of one of them has eleven
/// characters, each the letter of `traceparent` at its place in lower or in upper
/// case.
pub proof fn law_stamped_headers(headers: Seq<(String, String)>)
    ensures
        traceparent::is_stamped(headers) <==> exists|k: int|
            0 <= k < headers.len() && {
                let name = #[trigger] headers[k].0@;
                &&& name.len() == 11
                &&& name[0] == 't' || name[0] == 'T'
                &&& name[1] == 'r' || name[1] == 'R'
                &&& name[2] == 'a' || name[2] == 'A'
                &&& name[3] == 'c' || name[3] == 'C'
                &&& name[4] == 'e' || name[4] == 'E'
                &&& name[5] == 'p' || name[5] == 'P'
                &&& name[6] == 'a' || name[6] == 'A'
                &&& name[7] == 'r' || name[7] == 'R'
                &&& name[8] == 'e' || name[8] == 'E'
                &&& name[9] == 'n' || name[9] == 'N'
                &&& name[10] == 't' || name[10] == 'T'
            },
{
    assert forall|k: int| 0 <= k < headers.len() implies (
    traceparent::is_traceparent_name(#[trigger] headers[k].0@) <==> {
        let name = headers[k].0@;
        &&& name.len() == 11
        &&& name[0] == 't' || name[0] == 'T'
        &&& name[1] == 'r' || name[1] == 'R'
        &&& name[2] == 'a' || name[2] == 'A'
        &&& name[3] == 'c' || name[3] == 'C'
        &&& name[4] == 'e' || name[4] == 'E'
        &&& name[5] == 'p' || name[5] == 'P'
        &&& name[6] == 'a' || name[6] == 'A'
        &&& name[7] == 'r' || name[7] == 'R'
        &&& name[8] == 'e' || name[8] == 'E'
        &&& name[9] == 'n' || name[9] == 'N'
        &&& name[10] == 't' || name[10] == 'T'
    }) by {
        law_traceparent_name(headers[k].0@);
    }
}

/// Pushing, stated of the call: what was generated decides alone. A value is
/// appended under the name of the header, behind the headers that were there; an
/// error is returned and the headers stay as they are.
pub proof fn law_push_traceparent(
    headers: &mut Vec<(String, String)>,
    generated: Result<String, EntropyError>,
    res: Result<bool, EntropyError>,
)
    requires
        call_ensures(traceparent::push_traceparent, (headers, generated), res),
    ensures
        generated matches Err(e) ==> res == Err::<bool, _>(e) && final(headers)@ == old(headers)@,
        generated matches Ok(value) ==> {
            let n = old(headers)@.len() as int;
            &&& res == Ok::<bool, EntropyError>(true)
            &&& final(headers)@.len() == n + 1
            &&& forall|i: int| 0 <= i < n ==> #[trigger] final(headers)@[i] == old(headers)@[i]
            &&& final(headers)@[n].0@ == seq![
                't', 'r', 'a', 'c', 'e', 'p', 'a', 'r', 'e', 'n', 't',
            ]
            &&& final(headers)@[n].1@ == value@
        },
{
    if let Ok(value) = generated {
        traceparent::law_appended_header_counts(old(headers)@, final(headers)@, value@);
    }
}

/// Stamping, stated of the call. Headers with a `traceparent` stay as they are
/// and nothing is added. To every other list, whatever is in it, the header is
/// appended with a generated value, or stays as it is and gets the error of
/// generating, so that only the random source can make stamping fail.
pub proof fn law_stamp_if_absent(
    headers: &mut Vec<(String, String)>,
    res: Result<bool, EntropyError>,
)
    requires
        call_ensures(traceparent::stamp_if_absent, (headers,), res),
    ensures
        traceparent::is_stamped(old(headers)@) ==> res == Ok::<bool, EntropyError>(false)
            && final(headers)@ == old(headers)@,
        !traceparent::is_stamped(old(headers)@) ==> exists|generated: Result<String, EntropyError>|
            {
                &&& #[trigger] call_ensures(traceparent::generate_traceparent, (), generated)
                &&& generated matches Err(e) ==> res == Err::<bool, _>(e) && final(headers)@
                    == old(headers)@
                &&& generated matches Ok(value) ==> {
                    let n = old(headers)@.len() as int;
                    &&& res == Ok::<bool, EntropyError>(true)
                    &&& final(headers)@.len() == n + 1
                    &&& forall|i: int|
                        0 <= i < n ==> #[trigger] final(headers)@[i] == old(headers)@[i]
                    &&& final(headers)@[n].0@ == seq![
                        't', 'r', 'a', 'c', 'e', 'p', 'a', 'r', 'e', 'n', 't',
                    ]
                    &&& final(headers)@[n].1@ == value@
                }
            },
{
    if !traceparent::is_stamped(old(headers)@) {
        let generated = choose|generated: Result<String, EntropyError>|
            {
                &&& #[trigger] call_ensures(traceparent::generate_traceparent, (), generated)
                &&& match generated {
                    Ok(value) => res == Ok::<bool, EntropyError>(true) && traceparent::is_appended(
                        old(headers)@,
                        final(headers)@,
                        value@,
                    ),
                    Err(e) => res == Err::<bool, _>(e) && final(headers)@ == old(headers)@,
                }
            };
        if let Ok(value) = generated {
            traceparent::law_appended_header_counts(old(headers)@, final(headers)@, value@);
        }
    }
}

} // verus!
