//! Little-endian integers and byte arrays at fixed offsets.

use vstd::prelude::*;

verus! {

/// The `n` low-order bytes of `v`, least significant first.
pub open spec fn le_bytes(v: nat, n: nat) -> Seq<u8>
    decreases n,
{
    if n == 0 {
        Seq::empty()
    } else {
        seq![(v % 256) as u8] + le_bytes(v / 256, (n - 1) as nat)
    }
}

/// The number that `bytes` stand for, least significant first.
pub open spec fn le_value(bytes: Seq<u8>) -> nat
    decreases bytes.len(),
{
    if bytes.len() == 0 {
        0
    } else {
        bytes[0] as nat + 256 * le_value(bytes.drop_first())
    }
}

/// How many numbers `n` bytes can stand for.
pub open spec fn le_limit(n: nat) -> nat
    decreases n,
{
    if n == 0 {
        1
    } else {
        256 * le_limit((n - 1) as nat)
    }
}

/// The two's complement form of `v` in four bytes.
pub open spec fn i32_bits(v: i32) -> nat {
    if v >= 0 {
        v as nat
    } else {
        (v + 0x1_0000_0000) as nat
    }
}

/// `le_bytes` writes `n` bytes.
pub proof fn lemma_le_bytes_len(v: nat, n: nat)
    ensures
        le_bytes(v, n).len() == n,
    decreases n,
{
    if n > 0 {
        lemma_le_bytes_len(v / 256, (n - 1) as nat);
    }
}

/// Reading what was written gives the number back, where it fits.
pub proof fn lemma_le_value_of_bytes(v: nat, n: nat)
    requires
        v < le_limit(n),
    ensures
        le_value(le_bytes(v, n)) == v,
    decreases n,
{
    if n > 0 {
        let rest = le_bytes(v / 256, (n - 1) as nat);
        lemma_le_value_of_bytes(v / 256, (n - 1) as nat);
        assert(le_bytes(v, n).drop_first() =~= rest);
    }
}

/// Writing what was read gives the bytes back.
pub proof fn lemma_le_bytes_of_value(bytes: Seq<u8>)
    ensures
        le_bytes(le_value(bytes), bytes.len()) == bytes,
    decreases bytes.len(),
{
    if bytes.len() == 0 {
        assert(bytes =~= Seq::empty());
    } else {
        lemma_le_bytes_of_value(bytes.drop_first());
        assert(bytes =~= seq![bytes[0]] + bytes.drop_first());
    }
}

/// Numbers that fit in `n` bytes differ where their bytes do.
pub proof fn lemma_le_bytes_injective(a: nat, b: nat, n: nat)
    requires
        a < le_limit(n),
        b < le_limit(n),
        le_bytes(a, n) == le_bytes(b, n),
    ensures
        a == b,
{
    lemma_le_value_of_bytes(a, n);
    lemma_le_value_of_bytes(b, n);
}

/// The limits of the integer widths in use.
pub proof fn lemma_le_limits()
    ensures
        le_limit(2) == 0x1_0000,
        le_limit(4) == 0x1_0000_0000,
        le_limit(8) == 0x1_0000_0000_0000_0000,
{
    reveal_with_fuel(le_limit, 9);
}

/// A number that fits in two bytes is the sum of its bytes, each with its weight.
pub proof fn law_two_bytes_sum(v: nat, image: Seq<u8>)
    requires
        v < 0x1_0000,
        image == le_bytes(v, 2),
    ensures
        image.len() == 2,
        v == image[0] + 0x100 * image[1],
{
    lemma_le_limits();
    lemma_le_bytes_len(v, 2);
    lemma_le_value_of_bytes(v, 2);
    reveal_with_fuel(le_value, 3);
}

/// A number that fits in four bytes is the sum of its bytes, each with its
/// weight.
pub proof fn law_four_bytes_sum(v: nat, image: Seq<u8>)
    requires
        v < 0x1_0000_0000,
        image == le_bytes(v, 4),
    ensures
        image.len() == 4,
        v == image[0] + 0x100 * image[1] + 0x1_0000 * image[2] + 0x100_0000 * image[3],
{
    lemma_le_limits();
    lemma_le_bytes_len(v, 4);
    lemma_le_value_of_bytes(v, 4);
    reveal_with_fuel(le_value, 5);
}

/// A number that fits in eight bytes is the sum of its bytes, each with its
/// weight.
pub proof fn law_eight_bytes_sum(v: nat, image: Seq<u8>)
    requires
        v < 0x1_0000_0000_0000_0000,
        image == le_bytes(v, 8),
    ensures
        image.len() == 8,
        v == image[0] + 0x100 * image[1] + 0x1_0000 * image[2] + 0x100_0000 * image[3]
            + 0x1_0000_0000 * image[4] + 0x100_0000_0000 * image[5] + 0x1_0000_0000_0000 * image[6]
            + 0x100_0000_0000_0000 * image[7],
{
    lemma_le_limits();
    lemma_le_bytes_len(v, 8);
    lemma_le_value_of_bytes(v, 8);
    reveal_with_fuel(le_value, 9);
}

/// The image of a signed number, summed up, is the number or exceeds it by two to
/// the power of thirty-two, and exceeds it exactly where the number is negative.
pub proof fn law_signed_image_is_twos_complement(v: i32, image: Seq<u8>)
    requires
        image == le_bytes(i32_bits(v), 4),
    ensures
        image.len() == 4,
        image[0] + 0x100 * image[1] + 0x1_0000 * image[2] + 0x100_0000 * image[3] == if v < 0 {
            v + 0x1_0000_0000
        } else {
            v as int
        },
{
    law_four_bytes_sum(i32_bits(v), image);
}

/// Arrays with the same elements are the same.
pub proof fn lemma_arrays_equal<const N: usize>(a: [u8; N], b: [u8; N])
    requires
        a@ == b@,
    ensures
        a == b,
{
    assert forall|i: int| 0 <= i < N implies a[i] == b[i] by {
        assert(a@[i] == b@[i]);
    }
    assert(a =~= b);
}

/// The little-endian `u16` at `offset`.
pub fn read_u16(bytes: &[u8], offset: usize) -> (v: u16)
    requires
        offset + 2 <= bytes@.len(),
    ensures
        le_bytes(v as nat, 2) == bytes@.subrange(offset as int, offset + 2),
        v == bytes@[offset as int] + 0x100 * bytes@[offset + 1],
{
    let v = bytes[offset] as u16 + 256 * bytes[offset + 1] as u16;
    proof {
        let part = bytes@.subrange(offset as int, offset + 2);
        reveal_with_fuel(le_value, 3);
        assert(v as nat == le_value(part));
        lemma_le_bytes_of_value(part);
    }
    v
}

/// The little-endian `u32` at `offset`.
pub fn read_u32(bytes: &[u8], offset: usize) -> (v: u32)
    requires
        offset + 4 <= bytes@.len(),
    ensures
        le_bytes(v as nat, 4) == bytes@.subrange(offset as int, offset + 4),
        v == bytes@[offset as int] + 0x100 * bytes@[offset + 1] + 0x1_0000 * bytes@[offset + 2]
            + 0x100_0000 * bytes@[offset + 3],
{
    let v = bytes[offset] as u32 + 0x100 * bytes[offset + 1] as u32 + 0x1_0000 * bytes[offset
        + 2] as u32 + 0x100_0000 * bytes[offset + 3] as u32;
    proof {
        let part = bytes@.subrange(offset as int, offset + 4);
        reveal_with_fuel(le_value, 5);
        assert(v as nat == le_value(part));
        lemma_le_bytes_of_value(part);
    }
    v
}

/// The little-endian `u64` at `offset`.
pub fn read_u64(bytes: &[u8], offset: usize) -> (v: u64)
    requires
        offset + 8 <= bytes@.len(),
    ensures
        le_bytes(v as nat, 8) == bytes@.subrange(offset as int, offset + 8),
        v == bytes@[offset as int] + 0x100 * bytes@[offset + 1] + 0x1_0000 * bytes@[offset + 2]
            + 0x100_0000 * bytes@[offset + 3] + 0x1_0000_0000 * bytes@[offset + 4]
            + 0x100_0000_0000 * bytes@[offset + 5] + 0x1_0000_0000_0000 * bytes@[offset + 6]
            + 0x100_0000_0000_0000 * bytes@[offset + 7],
{
    let v = bytes[offset] as u64 + 0x100 * bytes[offset + 1] as u64 + 0x1_0000 * bytes[offset
        + 2] as u64 + 0x100_0000 * bytes[offset + 3] as u64 + 0x1_0000_0000 * bytes[offset
        + 4] as u64 + 0x100_0000_0000 * bytes[offset + 5] as u64 + 0x1_0000_0000_0000
        * bytes[offset + 6] as u64 + 0x100_0000_0000_0000 * bytes[offset + 7] as u64;
    proof {
        let part = bytes@.subrange(offset as int, offset + 8);
        reveal_with_fuel(le_value, 9);
        assert(v as nat == le_value(part));
        lemma_le_bytes_of_value(part);
    }
    v
}

/// The little-endian `i32` at `offset`, in two's complement.
pub fn read_i32(bytes: &[u8], offset: usize) -> (v: i32)
    requires
        offset + 4 <= bytes@.len(),
    ensures
        le_bytes(i32_bits(v), 4) == bytes@.subrange(offset as int, offset + 4),
        ({
            let bits = bytes@[offset as int] + 0x100 * bytes@[offset + 1] + 0x1_0000
                * bytes@[offset + 2] + 0x100_0000 * bytes@[offset + 3];
            v == if bits < 0x8000_0000 {
                bits
            } else {
                bits - 0x1_0000_0000
            }
        }),
{
    let bits = read_u32(bytes, offset);
    if bits < 0x8000_0000 {
        bits as i32
    } else {
        -((0xffff_ffff - bits) as i32) - 1
    }
}

/// The `N` bytes at `offset`.
pub fn read_array<const N: usize>(bytes: &[u8], offset: usize) -> (a: [u8; N])
    requires
        offset + N <= bytes@.len(),
    ensures
        a@ == bytes@.subrange(offset as int, offset + N),
{
    let len = bytes.len();
    let mut a = [0u8; N];
    for i in 0..N
        invariant
            offset + N <= len == bytes@.len(),
            forall|j: int| 0 <= j < i ==> #[trigger] a@[j] == bytes@[offset + j],
    {
        a[i] = bytes[offset + i];
    }
    assert(a@ =~= bytes@.subrange(offset as int, offset + N));
    a
}

} // verus!
