//! Little-endian integers as byte sequences.

use vstd::prelude::*;

verus! {

/// The lowest `width` bytes of `value`, least significant byte first.
pub open spec fn le_bytes(value: nat, width: nat) -> Seq<u8>
    decreases width,
{
    if width == 0 {
        seq![]
    } else {
        seq![(value % 256) as u8] + le_bytes(value / 256, (width - 1) as nat)
    }
}

/// The number that a byte sequence stands for, least significant byte first.
pub open spec fn le_value(bytes: Seq<u8>) -> nat
    decreases bytes.len(),
{
    if bytes.len() == 0 {
        0
    } else {
        bytes[0] as nat + 256 * le_value(bytes.drop_first())
    }
}

/// The numbers that `width` bytes can hold are those below this one.
pub open spec fn byte_capacity(width: nat) -> nat
    decreases width,
{
    if width == 0 {
        1
    } else {
        256 * byte_capacity((width - 1) as nat)
    }
}

/// `le_bytes` has the requested width.
pub proof fn lemma_le_bytes_len(value: nat, width: nat)
    ensures
        le_bytes(value, width).len() == width,
    decreases width,
{
    if width > 0 {
        lemma_le_bytes_len(value / 256, (width - 1) as nat);
    }
}

/// Reading back the bytes of a number that fits gives that number.
pub proof fn lemma_le_round_trip(value: nat, width: nat)
    requires
        value < byte_capacity(width),
    ensures
        le_value(le_bytes(value, width)) == value,
    decreases width,
{
    if width > 0 {
        lemma_le_round_trip(value / 256, (width - 1) as nat);
        let bytes = le_bytes(value, width);
        assert(bytes.drop_first() =~= le_bytes(value / 256, (width - 1) as nat));
    }
}

/// The bytes of a number are those that stand for it.
pub proof fn lemma_le_value_bytes(bytes: Seq<u8>)
    ensures
        le_bytes(le_value(bytes), bytes.len()) == bytes,
        le_value(bytes) < byte_capacity(bytes.len()),
    decreases bytes.len(),
{
    if bytes.len() > 0 {
        lemma_le_value_bytes(bytes.drop_first());
        let rest = le_value(bytes.drop_first());
        let first = bytes[0] as nat;
        assert((first + 256 * rest) % 256 == first);
        assert((first + 256 * rest) / 256 == rest);
        assert(le_bytes(le_value(bytes), bytes.len()) =~= bytes);
    }
}

/// Each byte of a number is a digit of it in base 256: the first byte is the
/// remainder, and the bytes behind it are those of the quotient.
pub proof fn bytes_are_digits(value: nat, width: nat)
    requires
        width > 0,
    ensures
        le_bytes(value, width).len() == width,
        le_bytes(value, width)[0] == value % 256,
        le_bytes(value, width).skip(1) == le_bytes(value / 256, (width - 1) as nat),
{
    lemma_le_bytes_len(value, width);
    lemma_le_bytes_len(value / 256, (width - 1) as nat);
    assert(le_bytes(value, width).skip(1) =~= le_bytes(value / 256, (width - 1) as nat));
}

/// Four bytes stand for the sum of their values, each weighed by its place.
pub proof fn four_bytes_weigh(bytes: Seq<u8>)
    requires
        bytes.len() == 4,
    ensures
        le_value(bytes) == bytes[0] + 0x100 * bytes[1] + 0x1_0000 * bytes[2] + 0x100_0000 * bytes[3],
{
    reveal_with_fuel(le_value, 5);
    assert(bytes.drop_first()[0] == bytes[1]);
    assert(bytes.drop_first().drop_first()[0] == bytes[2]);
    assert(bytes.drop_first().drop_first().drop_first()[0] == bytes[3]);
}

/// Eight bytes stand for the sum of their values, each weighed by its place.
pub proof fn eight_bytes_weigh(bytes: Seq<u8>)
    requires
        bytes.len() == 8,
    ensures
        le_value(bytes) == bytes[0] + 0x100 * bytes[1] + 0x1_0000 * bytes[2] + 0x100_0000 * bytes[3]
            + 0x1_0000_0000 * bytes[4] + 0x100_0000_0000 * bytes[5] + 0x1_0000_0000_0000 * bytes[6]
            + 0x100_0000_0000_0000 * bytes[7],
{
    let low = bytes.take(4);
    let high = bytes.skip(4);
    four_bytes_weigh(high);
    reveal_with_fuel(le_value, 5);
    let b1 = bytes.drop_first();
    let b2 = b1.drop_first();
    let b3 = b2.drop_first();
    assert(b3.drop_first() =~= high);
    assert(b1[0] == bytes[1]);
    assert(b2[0] == bytes[2]);
    assert(b3[0] == bytes[3]);
}

/// The `width` lowest bytes of a number, least significant byte first.
pub(crate) fn to_le_bytes(value: u64, width: usize) -> (bytes: Vec<u8>)
    ensures
        bytes@ == le_bytes(value as nat, width as nat),
        bytes@.len() == width,
{
    let mut bytes: Vec<u8> = Vec::new();
    let mut rest: u64 = value;
    let mut left: usize = width;
    while left > 0
        invariant
            left <= width,
            le_bytes(value as nat, width as nat) == bytes@ + le_bytes(rest as nat, left as nat),
        decreases left,
    {
        let ghost before = bytes@;
        bytes.push((rest % 256) as u8);
        assert(bytes@ + le_bytes((rest / 256) as nat, (left - 1) as nat) =~= before + le_bytes(
            rest as nat,
            left as nat,
        ));
        rest = rest / 256;
        left -= 1;
    }
    assert(bytes@ + le_bytes(rest as nat, 0) =~= bytes@);
    proof {
        lemma_le_bytes_len(value as nat, width as nat);
    }
    bytes
}

/// The number that four bytes stand for, least significant byte first.
pub(crate) fn u32_from_le(bytes: &[u8]) -> (value: u32)
    requires
        bytes@.len() == 4,
    ensures
        value == le_value(bytes@),
        value == bytes@[0] + 0x100 * bytes@[1] + 0x1_0000 * bytes@[2] + 0x100_0000 * bytes@[3],
{
    proof {
        reveal_with_fuel(le_value, 5);
        let s = bytes@;
        assert(s.drop_first()[0] == s[1]);
        assert(s.drop_first().drop_first()[0] == s[2]);
        assert(s.drop_first().drop_first().drop_first()[0] == s[3]);
    }
    bytes[0] as u32 + 256 * (bytes[1] as u32 + 256 * (bytes[2] as u32 + 256 * (bytes[3] as u32)))
}

} // verus!
