//! Reading records from raw bytes.

use vstd::prelude::*;
use vstd::slice::slice_subrange;

use crate::ebpf_wire::{WireHeader, WireKind, WireRecord, WIRE_KIND_OFFSET};

verus! {

/// `buf` up to its first NUL byte, or all of it where it has none.
pub open spec fn trimmed(buf: Seq<u8>) -> Seq<u8> {
    match buf.index_of_first(0) {
        Some(end) => buf.take(end),
        None => buf,
    }
}

/// `core::str::from_utf8`: the text that `bytes` encode in UTF-8, or `None`
/// where they are not UTF-8.
#[verifier::external_body]
fn utf8_text<'a>(bytes: &'a [u8]) -> (res: Option<&'a str>)
    ensures
        match res {
            Some(text) => vstd::utf8::valid_utf8(bytes@) && text@ == vstd::utf8::decode_utf8(
                bytes@,
            ),
            None => !vstd::utf8::valid_utf8(bytes@),
        },
{
    core::str::from_utf8(bytes).ok()
}

/// The text in a buffer that ends at its first NUL byte. A text that is not
/// UTF-8 is taken as empty.
pub fn cstr_lossy<'a>(buf: &'a [u8]) -> (text: &'a str)
    ensures
        text@ == if vstd::utf8::valid_utf8(trimmed(buf@)) {
            vstd::utf8::decode_utf8(trimmed(buf@))
        } else {
            Seq::empty()
        },
{
    let mut end: usize = 0;
    while end < buf.len() && buf[end] != 0
        invariant
            end <= buf@.len(),
            forall|i: int| 0 <= i < end ==> #[trigger] buf@[i] != 0,
        decreases buf@.len() - end,
    {
        end = end + 1;
    }
    proof {
        buf@.index_of_first_ensures(0);
        if end < buf@.len() {
            assert(buf@.contains(0));
        }
        assert(trimmed(buf@) =~= buf@.take(end as int));
    }
    match utf8_text(slice_subrange(buf, 0, end)) {
        Some(text) => text,
        None => {
            proof {
                reveal_strlit("");
            }
            ""
        },
    }
}

/// The kind of a raw record, or `None` where the record is shorter than the
/// header or its kind byte stands for no kind.
pub fn peek_kind(bytes: &[u8]) -> (res: Option<WireKind>)
    ensures
        res == if bytes@.len() >= WireHeader::wire_len() {
            WireKind::from_code(bytes@[WIRE_KIND_OFFSET as int])
        } else {
            None
        },
{
    if bytes.len() < WireHeader::record_len() {
        return None;
    }
    WireKind::from_u8(bytes[WIRE_KIND_OFFSET])
}

/// The record at the start of `bytes`, or `None` where they are shorter than the
/// record. The caller picks the record that goes with the kind; bytes behind the
/// record are ignored.
pub fn cast_record<T: WireRecord>(bytes: &[u8]) -> (res: Option<T>)
    ensures
        match res {
            Some(record) => {
                &&& bytes@.len() >= T::wire_len()
                &&& record.wire() == bytes@.take(T::wire_len() as int)
                &&& forall|other: T|
                    #[trigger] other.wire() == bytes@.take(T::wire_len() as int) ==> other == record
            },
            None => bytes@.len() < T::wire_len(),
        },
{
    if bytes.len() < T::record_len() {
        return None;
    }
    let record = T::read_wire(bytes);
    proof {
        let image = bytes@.take(T::wire_len() as int);
        assert forall|other: T| #[trigger] other.wire() == image implies other == record by {
            other.lemma_wire_injective(record);
        }
    }
    Some(record)
}

/// The text of a buffer holds no NUL byte, starts the buffer, and ends at the
/// buffer's end or before a NUL byte.
pub proof fn law_trimmed_ends_at_nul(buf: Seq<u8>)
    ensures
        !trimmed(buf).contains(0),
        trimmed(buf).len() <= buf.len(),
        trimmed(buf) == buf.take(trimmed(buf).len() as int),
        trimmed(buf).len() < buf.len() ==> buf[trimmed(buf).len() as int] == 0,
{
    buf.index_of_first_ensures(0);
    assert(trimmed(buf) =~= buf.take(trimmed(buf).len() as int));
}

/// A text without a NUL reads back from a buffer in which a NUL byte follows its
/// UTF-8 form, whatever comes behind.
pub proof fn law_terminated_text_reads_back(text: Seq<char>, rest: Seq<u8>)
    requires
        !text.contains('\0'),
    ensures
        ({
            let buf = vstd::utf8::encode_utf8(text) + seq![0u8] + rest;
            &&& trimmed(buf) == vstd::utf8::encode_utf8(text)
            &&& vstd::utf8::valid_utf8(trimmed(buf))
            &&& vstd::utf8::decode_utf8(trimmed(buf)) == text
        }),
{
    let encoded = vstd::utf8::encode_utf8(text);
    let buf = encoded + seq![0u8] + rest;
    lemma_encoded_has_no_nul(text);
    vstd::utf8::encode_utf8_valid_utf8(text);
    vstd::utf8::encode_utf8_decode_utf8(text);
    buf.index_of_first_ensures(0);
    assert(buf[encoded.len() as int] == 0);
    assert forall|i: int| 0 <= i < encoded.len() implies #[trigger] buf[i] != 0 by {
        assert(encoded.contains(encoded[i]));
    }
    assert(trimmed(buf) =~= encoded);
}

/// UTF-8 has a zero byte only for the NUL character.
proof fn lemma_encoded_has_no_nul(text: Seq<char>)
    requires
        !text.contains('\0'),
    ensures
        !vstd::utf8::encode_utf8(text).contains(0),
    decreases text.len(),
{
    if text.len() > 0 {
        assert(text.contains(text[0]));
        assert forall|c: char| text.drop_first().contains(c) implies text.contains(c) by {
            let i = text.drop_first().index_of(c);
            assert(text[i + 1] == c);
        }
        lemma_encoded_has_no_nul(text.drop_first());
        let c = text[0];
        let scalar = c as u32;
        vstd::utf8::char_is_scalar(c);
        vstd::utf8::char_u32_cast(c, scalar);
        lemma_scalar_has_no_nul(scalar);
        let first = vstd::utf8::encode_scalar(scalar);
        let others = vstd::utf8::encode_utf8(text.drop_first());
        assert forall|i: int| 0 <= i < (first + others).len() implies (first + others)[i] != 0 by {
            if i < first.len() {
                assert(first.contains(first[i]));
            } else {
                assert(others.contains(others[i - first.len()]));
            }
        }
    }
}

/// A scalar other than zero has no zero byte in its UTF-8 form.
proof fn lemma_scalar_has_no_nul(scalar: u32)
    requires
        scalar != 0,
    ensures
        !vstd::utf8::encode_scalar(scalar).contains(0),
{
    assert(0 < scalar <= 0x7f ==> (scalar & 0x7f) as u8 != 0) by (bit_vector);
    assert({
        &&& 0xc0 | ((scalar >> 6) & 0x1f) as u8 != 0
        &&& 0xe0 | ((scalar >> 12) & 0x0f) as u8 != 0
        &&& 0xf0 | ((scalar >> 18) & 0x7) as u8 != 0
        &&& 0x80 | (scalar & 0x3f) as u8 != 0
        &&& 0x80 | ((scalar >> 6) & 0x3f) as u8 != 0
        &&& 0x80 | ((scalar >> 12) & 0x3f) as u8 != 0
    }) by (bit_vector);
}

} // verus!
