//! ASCII helpers: case folding and hexadecimal text.

use vstd::prelude::*;
use vstd::string::*;

pub mod laws;

verus! {

/// The lower-case form of an ASCII letter; every other character is its own
/// lower-case form.
pub open spec fn lower_char(c: char) -> char {
    if 'A' <= c && c <= 'Z' {
        ((c as u8) + 32) as char
    } else {
        c
    }
}

/// `s` with every ASCII letter in lower case.
pub open spec fn lower(s: Seq<char>) -> Seq<char> {
    s.map_values(|c: char| lower_char(c))
}

/// `c` is one of `0-9`, `a-f` and `A-F`.
pub open spec fn is_hex_char(c: char) -> bool {
    ||| '0' <= c && c <= '9'
    ||| 'a' <= c && c <= 'f'
    ||| 'A' <= c && c <= 'F'
}

/// `s` is exactly `len` hexadecimal digits.
pub open spec fn is_hex(s: Seq<char>, len: nat) -> bool {
    &&& s.len() == len
    &&& forall|i: int| 0 <= i < s.len() ==> is_hex_char(#[trigger] s[i])
}

/// Every character of `s` is the digit zero.
pub open spec fn is_all_zero_text(s: Seq<char>) -> bool {
    forall|i: int| 0 <= i < s.len() ==> #[trigger] s[i] == '0'
}

/// The lower-case hexadecimal digit for a value below sixteen.
pub open spec fn hex_char(n: int) -> char {
    if n < 10 {
        (('0' as u8) + n) as char
    } else {
        (('a' as u8) + (n - 10)) as char
    }
}

/// Two lower-case hexadecimal digits for each byte, high nibble first.
pub open spec fn hex(bytes: Seq<u8>) -> Seq<char> {
    Seq::new(
        2 * bytes.len(),
        |i: int|
            if i % 2 == 0 {
                hex_char(bytes[i / 2] as int / 16)
            } else {
                hex_char(bytes[i / 2] as int % 16)
            },
    )
}

/// The characters of `s`, in order.
pub fn chars_of(s: &str) -> (chars: Vec<char>)
    ensures
        chars@ == s@,
{
    let mut chars: Vec<char> = Vec::new();
    for c in it: s.chars()
        invariant
            it.seq() == s@,
            chars@ == s@.take(it.index()),
    {
        chars.push(c);
        assert(s@.take(it.index() + 1) =~= s@.take(it.index()).push(c));
    }
    assert(s@.take(s@.len() as int) =~= s@);
    chars
}

/// `true` when `s` is exactly `len` hexadecimal digits.
pub fn is_hex_of_len(s: &str, len: usize) -> (res: bool)
    ensures
        res == is_hex(s@, len as nat),
{
    let chars = chars_of(s);
    if chars.len() != len {
        return false;
    }
    for i in 0..chars.len()
        invariant
            chars@ == s@,
            forall|j: int| 0 <= j < i ==> is_hex_char(#[trigger] s@[j]),
    {
        let c = chars[i];
        if !(('0' <= c && c <= '9') || ('a' <= c && c <= 'f') || ('A' <= c && c <= 'F')) {
            assert(!is_hex_char(s@[i as int]));
            return false;
        }
    }
    true
}

/// The value of a hexadecimal digit of either case.
pub open spec fn hex_value(c: char) -> int {
    if '0' <= c && c <= '9' {
        c as int - '0' as int
    } else if 'a' <= c && c <= 'f' {
        c as int - 'a' as int + 10
    } else {
        c as int - 'A' as int + 10
    }
}

/// The lower-case hexadecimal digit for `n`, as text.
fn hex_digit(n: u8) -> (digit: &'static str)
    requires
        n < 16,
    ensures
        digit@ == seq![hex_char(n as int)],
{
    proof {
        reveal_strlit("0");
        reveal_strlit("1");
        reveal_strlit("2");
        reveal_strlit("3");
        reveal_strlit("4");
        reveal_strlit("5");
        reveal_strlit("6");
        reveal_strlit("7");
        reveal_strlit("8");
        reveal_strlit("9");
        reveal_strlit("a");
        reveal_strlit("b");
        reveal_strlit("c");
        reveal_strlit("d");
        reveal_strlit("e");
        reveal_strlit("f");
    }
    match n {
        0 => "0",
        1 => "1",
        2 => "2",
        3 => "3",
        4 => "4",
        5 => "5",
        6 => "6",
        7 => "7",
        8 => "8",
        9 => "9",
        10 => "a",
        11 => "b",
        12 => "c",
        13 => "d",
        14 => "e",
        _ => "f",
    }
}

/// Appends the lower-case hexadecimal form of `bytes` to `out`.
pub fn push_hex(out: &mut String, bytes: &[u8])
    ensures
        final(out)@ == old(out)@ + hex(bytes@),
{
    assert(out@ =~= old(out)@ + hex(bytes@.take(0)));
    for i in 0..bytes.len()
        invariant
            out@ == old(out)@ + hex(bytes@.take(i as int)),
    {
        let b = bytes[i];
        out.append(hex_digit(b / 16));
        out.append(hex_digit(b % 16));
        assert(hex(bytes@.take(i + 1)) =~= hex(bytes@.take(i as int)) + seq![
            hex_char(b as int / 16),
        ] + seq![hex_char(b as int % 16)]);
        assert(out@ =~= old(out)@ + hex(bytes@.take(i + 1)));
    }
    assert(bytes@.take(bytes@.len() as int) =~= bytes@);
}

/// Rewriting a hexadecimal digit by its value is putting it in lower case.
proof fn lemma_lower_hex_char(c: char)
    requires
        is_hex_char(c),
    ensures
        0 <= hex_value(c) < 16,
        hex_char(hex_value(c)) == lower_char(c),
{
}

/// `s`, which is made of hexadecimal digits, in lower case.
pub fn lower_hex(s: &str) -> (res: String)
    requires
        is_hex(s@, s@.len()),
    ensures
        res@ == lower(s@),
{
    let chars = chars_of(s);
    let mut out = String::new();
    assert(lower(s@.take(0)) =~= Seq::<char>::empty());
    for i in 0..chars.len()
        invariant
            chars@ == s@,
            is_hex(s@, s@.len()),
            out@ == lower(s@.take(i as int)),
    {
        let c = chars[i];
        proof {
            assert(is_hex_char(s@[i as int]));
            lemma_lower_hex_char(c);
        }
        let n: u8 = if c <= '9' {
            c as u8 - '0' as u8
        } else if c >= 'a' {
            c as u8 - 'a' as u8 + 10
        } else {
            c as u8 - 'A' as u8 + 10
        };
        out.append(hex_digit(n));
        assert(lower(s@.take(i + 1)) =~= lower(s@.take(i as int)).push(lower_char(c)));
        assert(out@ =~= lower(s@.take(i + 1)));
    }
    assert(s@.take(s@.len() as int) =~= s@);
    out
}

/// `true` when every character of `s` is the digit zero.
pub fn is_all_zero(s: &str) -> (res: bool)
    ensures
        res == is_all_zero_text(s@),
{
    let chars = chars_of(s);
    for i in 0..chars.len()
        invariant
            chars@ == s@,
            forall|j: int| 0 <= j < i ==> #[trigger] s@[j] == '0',
    {
        if chars[i] != '0' {
            return false;
        }
    }
    true
}

/// The code point of `c` with ASCII letters folded to lower case.
fn folded(c: char) -> (code: u32)
    ensures
        code == lower_char(c) as u32,
{
    if 'A' <= c && c <= 'Z' {
        c as u32 + 32
    } else {
        c as u32
    }
}

/// `true` when `a` and `b` differ at most in the case of ASCII letters.
pub fn eq_ignore_case(a: &str, b: &str) -> (res: bool)
    ensures
        res == (lower(a@) == lower(b@)),
{
    let left = chars_of(a);
    let right = chars_of(b);
    if left.len() != right.len() {
        assert(lower(a@).len() != lower(b@).len());
        return false;
    }
    for i in 0..left.len()
        invariant
            left@ == a@,
            right@ == b@,
            a@.len() == b@.len(),
            forall|j: int| 0 <= j < i ==> #[trigger] lower(a@)[j] == lower(b@)[j],
    {
        if folded(left[i]) != folded(right[i]) {
            assert(lower(a@)[i as int] != lower(b@)[i as int]);
            return false;
        }
    }
    assert(lower(a@) =~= lower(b@));
    true
}

/// Hexadecimal text of bytes is two digits for each byte, in lower case and
/// without a dash.
pub proof fn lemma_hex(bytes: Seq<u8>)
    ensures
        is_hex(hex(bytes), 2 * bytes.len()),
        lower(hex(bytes)) == hex(bytes),
        !hex(bytes).contains('-'),
{
    assert forall|i: int| 0 <= i < hex(bytes).len() implies is_hex_char(#[trigger] hex(bytes)[i])
        && lower_char(hex(bytes)[i]) == hex(bytes)[i] && hex(bytes)[i] != '-' by {}
    assert(lower(hex(bytes)) =~= hex(bytes));
}

/// Hexadecimal text holds no dash.
pub proof fn lemma_hex_has_no_dash(s: Seq<char>, len: nat)
    requires
        is_hex(s, len),
    ensures
        !s.contains('-'),
{
    assert forall|i: int| 0 <= i < s.len() implies s[i] != '-' by {
        assert(is_hex_char(s[i]));
    }
}

/// Hexadecimal text is all zero exactly where the bytes are.
pub proof fn lemma_hex_zero(bytes: Seq<u8>)
    ensures
        is_all_zero_text(hex(bytes)) <==> (forall|i: int|
            0 <= i < bytes.len() ==> #[trigger] bytes[i] == 0),
{
    if is_all_zero_text(hex(bytes)) {
        assert forall|i: int| 0 <= i < bytes.len() implies #[trigger] bytes[i] == 0 by {
            assert(hex(bytes)[2 * i] == '0');
            assert(hex(bytes)[2 * i + 1] == '0');
        }
    }
}

/// Case folding is stable, and neither makes nor breaks hexadecimal text.
pub proof fn lemma_lower(s: Seq<char>, len: nat)
    ensures
        lower(lower(s)) == lower(s),
        is_hex(lower(s), len) == is_hex(s, len),
        is_all_zero_text(lower(s)) == is_all_zero_text(s),
{
    assert forall|i: int| 0 <= i < s.len() implies {
        &&& lower_char(#[trigger] lower(s)[i]) == lower(s)[i]
        &&& is_hex_char(lower(s)[i]) == is_hex_char(s[i])
        &&& (lower(s)[i] == '0') == (s[i] == '0')
    } by {}
    assert(lower(lower(s)) =~= lower(s));
    if is_hex(lower(s), len) {
        assert forall|i: int| 0 <= i < s.len() implies is_hex_char(#[trigger] s[i]) by {
            assert(is_hex_char(lower(s)[i]));
        }
    }
    if is_all_zero_text(lower(s)) {
        assert forall|i: int| 0 <= i < s.len() implies #[trigger] s[i] == '0' by {
            assert(lower(s)[i] == '0');
        }
    }
}

/// Case folding goes through concatenation.
pub proof fn lemma_lower_concat(a: Seq<char>, b: Seq<char>)
    ensures
        lower(a + b) == lower(a) + lower(b),
{
    assert(lower(a + b) =~= lower(a) + lower(b));
}

/// Each digit stands for one value.
proof fn lemma_hex_char_injective(m: int, n: int)
    requires
        0 <= m < 16,
        0 <= n < 16,
        hex_char(m) == hex_char(n),
    ensures
        m == n,
{
}

/// Bytes with the same hexadecimal text are the same.
pub proof fn lemma_hex_injective(a: Seq<u8>, b: Seq<u8>)
    requires
        hex(a) == hex(b),
    ensures
        a == b,
{
    assert(hex(a).len() == 2 * a.len() && hex(b).len() == 2 * b.len());
    assert forall|i: int| 0 <= i < a.len() implies a[i] == b[i] by {
        assert(hex(a)[2 * i] == hex_char(a[i] as int / 16));
        assert(hex(a)[2 * i + 1] == hex_char(a[i] as int % 16));
        assert(hex(b)[2 * i] == hex_char(b[i] as int / 16));
        assert(hex(b)[2 * i + 1] == hex_char(b[i] as int % 16));
        lemma_hex_char_injective(a[i] as int / 16, b[i] as int / 16);
        lemma_hex_char_injective(a[i] as int % 16, b[i] as int % 16);
    }
    assert(a =~= b);
}

} // verus!
