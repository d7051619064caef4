//! What the text helpers do, character by character.

use vstd::prelude::*;
use vstd::string::*;

use crate::ascii;

verus! {

/// Comparing without regard to case: two texts are alike exactly when they are
/// equally long and, place by place, hold the same character or the two cases of
/// one ASCII letter, which lie 32 apart.
pub proof fn law_eq_ignore_case(a: &str, b: &str, res: bool)
    requires
        call_ensures(ascii::eq_ignore_case, (a, b), res),
    ensures
        res <==> {
            &&& a@.len() == b@.len()
            &&& forall|i: int|
                0 <= i < a@.len() ==> {
                    ||| #[trigger] a@[i] == b@[i]
                    ||| 'A' <= a@[i] && a@[i] <= 'Z' && a@[i] as int + 32 == b@[i] as int
                    ||| 'a' <= a@[i] && a@[i] <= 'z' && a@[i] as int == b@[i] as int + 32
                }
        },
{
    let left = ascii::lower(a@);
    let right = ascii::lower(b@);
    assert(left.len() == a@.len() && right.len() == b@.len());
    if a@.len() == b@.len() {
        assert forall|i: int| 0 <= i < a@.len() implies (left[i] == right[i] <==> {
            ||| #[trigger] a@[i] == b@[i]
            ||| 'A' <= a@[i] && a@[i] <= 'Z' && a@[i] as int + 32 == b@[i] as int
            ||| 'a' <= a@[i] && a@[i] <= 'z' && a@[i] as int == b@[i] as int + 32
        }) by {
            assert(left[i] == ascii::lower_char(a@[i]));
            assert(right[i] == ascii::lower_char(b@[i]));
        }
        if left != right {
            assert(exists|i: int| 0 <= i < a@.len() && left[i] != right[i]) by {
                if forall|i: int| 0 <= i < a@.len() ==> left[i] == right[i] {
                    assert(left =~= right);
                }
            }
            let i = choose|i: int| 0 <= i < a@.len() && left[i] != right[i];
            assert(a@[i] == a@[i]);
        }
    }
}

/// Case folding moves the letters `A` to `Z` up by 32 and keeps everything else.
pub proof fn law_lower(s: Seq<char>)
    ensures
        ascii::lower(s).len() == s.len(),
        forall|i: int|
            0 <= i < s.len() ==> ascii::lower(s)[i] as int == if 'A' <= #[trigger] s[i] && s[i]
                <= 'Z' {
                s[i] as int + 32
            } else {
                s[i] as int
            },
{
}

/// Text is hexadecimal of a length exactly when it has that length and holds
/// nothing but `0-9`, `a-f` and `A-F`.
pub proof fn law_is_hex_of_len(s: &str, len: usize, res: bool)
    requires
        call_ensures(ascii::is_hex_of_len, (s, len), res),
    ensures
        res <==> {
            &&& s@.len() == len
            &&& forall|i: int|
                0 <= i < s@.len() ==> {
                    ||| '0' <= #[trigger] s@[i] && s@[i] <= '9'
                    ||| 'a' <= s@[i] && s@[i] <= 'f'
                    ||| 'A' <= s@[i] && s@[i] <= 'F'
                }
        },
{
    assert(res == ascii::is_hex(s@, len as nat));
    assert forall|i: int| 0 <= i < s@.len() implies (ascii::is_hex_char(#[trigger] s@[i]) <==> {
        ||| '0' <= s@[i] && s@[i] <= '9'
        ||| 'a' <= s@[i] && s@[i] <= 'f'
        ||| 'A' <= s@[i] && s@[i] <= 'F'
    }) by {}
}

/// Text is all zero exactly when it holds no character but `0`.
pub proof fn law_is_all_zero(s: &str, res: bool)
    requires
        call_ensures(ascii::is_all_zero, (s,), res),
    ensures
        res <==> !(exists|i: int| 0 <= i < s@.len() && #[trigger] s@[i] != '0'),
{
    assert(res == ascii::is_all_zero_text(s@));
}

/// Hexadecimal text in lower case keeps its digits and its length.
pub proof fn law_lower_hex(s: &str, res: String)
    requires
        ascii::is_hex(s@, s@.len()),
        call_ensures(ascii::lower_hex, (s,), res),
    ensures
        res@.len() == s@.len(),
        forall|i: int|
            0 <= i < s@.len() ==> res@[i] as int == if 'A' <= #[trigger] s@[i] && s@[i] <= 'F' {
                s@[i] as int + 32
            } else {
                s@[i] as int
            },
{
    law_lower(s@);
    assert forall|i: int| 0 <= i < s@.len() implies res@[i] as int == if 'A' <= #[trigger] s@[i]
        && s@[i] <= 'F' {
        s@[i] as int + 32
    } else {
        s@[i] as int
    } by {
        assert(ascii::is_hex_char(s@[i]));
    }
}

/// The hexadecimal text of bytes has two lower-case digits for each byte, which,
/// read as a hexadecimal number, are the byte.
pub proof fn law_hex_digits(bytes: Seq<u8>)
    ensures
        ({
            let text = ascii::hex(bytes);
            let digit = |c: char|
                if '0' <= c && c <= '9' {
                    c as int - 48
                } else if 'a' <= c && c <= 'f' {
                    c as int - 87
                } else {
                    -4096
                };
            &&& text.len() == 2 * bytes.len()
            &&& forall|i: int|
                0 <= i < bytes.len() ==> {
                    &&& digit(text[2 * i]) >= 0
                    &&& digit(text[2 * i + 1]) >= 0
                    &&& 16 * digit(text[2 * i]) + digit(text[2 * i + 1]) == #[trigger] bytes[i]
                }
        }),
{
    let text = ascii::hex(bytes);
    assert forall|i: int| 0 <= i < bytes.len() implies {
        &&& text[2 * i] == ascii::hex_char(#[trigger] bytes[i] as int / 16)
        &&& text[2 * i + 1] == ascii::hex_char(bytes[i] as int % 16)
    } by {
        assert((2 * i) / 2 == i && (2 * i + 1) / 2 == i);
    }
}

/// Appending the hexadecimal text of bytes keeps what was there and adds nothing
/// but that text.
pub proof fn law_push_hex(out: &mut String, bytes: &[u8])
    requires
        call_ensures(ascii::push_hex, (out, bytes), ()),
    ensures
        ({
            let n = old(out)@.len() as int;
            let digit = |c: char|
                if '0' <= c && c <= '9' {
                    c as int - 48
                } else if 'a' <= c && c <= 'f' {
                    c as int - 87
                } else {
                    -4096
                };
            &&& final(out)@.len() == n + 2 * bytes@.len()
            &&& final(out)@.take(n) == old(out)@
            &&& forall|i: int|
                0 <= i < bytes@.len() ==> {
                    &&& digit(final(out)@[n + 2 * i]) >= 0
                    &&& digit(final(out)@[n + 2 * i + 1]) >= 0
                    &&& 16 * digit(final(out)@[n + 2 * i]) + digit(final(out)@[n + 2 * i + 1])
                        == #[trigger] bytes@[i]
                }
        }),
{
    law_hex_digits(bytes@);
    let n = old(out)@.len() as int;
    let text = ascii::hex(bytes@);
    assert(final(out)@ == old(out)@ + text);
    assert(final(out)@.take(n) =~= old(out)@);
    assert forall|i: int| 0 <= i < bytes@.len() implies {
        &&& final(out)@[n + 2 * i] == text[2 * i]
        &&& final(out)@[n + 2 * i + 1] == text[2 * i + 1]
        &&& #[trigger] bytes@[i] == bytes@[i]
    } by {}
}

} // verus!
