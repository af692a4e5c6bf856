//! The two primitive encodings of the SCALE format that the stored records
//! are made of: integers of 64 bits, and the compact form of a length.

use vstd::prelude::*;
use vstd::bytes::{spec_u64_from_le_bytes, spec_u64_to_le_bytes};

verus! {

/// Largest number that the compact form holds in one byte.
pub const COMPACT_ONE_BYTE_MAX: u32 = 0x3f;

/// Largest number that the compact form holds in two bytes.
pub const COMPACT_TWO_BYTE_MAX: u32 = 0x3fff;

/// Largest number that the compact form holds in four bytes.
pub const COMPACT_FOUR_BYTE_MAX: u32 = 0x3fff_ffff;

/// The compact form of a number of 32 bits.
///
/// The two lowest bits of the first byte tell the mode. In the first three
/// modes the number stands above them, in one, two or four bytes, least
/// significant byte first. In the last mode the first byte is 3 and the
/// number follows in four bytes.
pub open spec fn spec_compact_u32(n: u32) -> Seq<u8> {
    if n <= COMPACT_ONE_BYTE_MAX {
        seq![(4 * n) as u8]
    } else if n <= COMPACT_TWO_BYTE_MAX {
        let x = 4 * n + 1;
        seq![(x % 0x100) as u8, (x / 0x100) as u8]
    } else if n <= COMPACT_FOUR_BYTE_MAX {
        let x = 4 * n + 2;
        seq![
            (x % 0x100) as u8,
            (x / 0x100 % 0x100) as u8,
            (x / 0x1_0000 % 0x100) as u8,
            (x / 0x100_0000) as u8,
        ]
    } else {
        seq![
            3u8,
            (n % 0x100) as u8,
            (n / 0x100 % 0x100) as u8,
            (n / 0x1_0000 % 0x100) as u8,
            (n / 0x100_0000) as u8,
        ]
    }
}

/// Number of bytes of the compact form of a number.
pub open spec fn spec_compact_len(n: u32) -> nat {
    if n <= COMPACT_ONE_BYTE_MAX {
        1
    } else if n <= COMPACT_TWO_BYTE_MAX {
        2
    } else if n <= COMPACT_FOUR_BYTE_MAX {
        4
    } else {
        5
    }
}

/// The number whose compact form the input starts with. Only the shortest
/// form of a number is accepted.
pub open spec fn spec_decode_compact_u32(input: Seq<u8>) -> Option<u32> {
    if input.len() == 0 {
        None
    } else if input[0] % 4 == 0 {
        Some((input[0] / 4) as u32)
    } else if input[0] % 4 == 1 {
        if input.len() < 2 {
            None
        } else {
            let x = (input[0] + 0x100 * input[1]) / 4;
            if COMPACT_ONE_BYTE_MAX < x <= COMPACT_TWO_BYTE_MAX {
                Some(x as u32)
            } else {
                None
            }
        }
    } else if input[0] % 4 == 2 {
        if input.len() < 4 {
            None
        } else {
            let x = (input[0] + 0x100 * input[1] + 0x1_0000 * input[2] + 0x100_0000 * input[3])
                / 4;
            if COMPACT_TWO_BYTE_MAX < x <= COMPACT_FOUR_BYTE_MAX {
                Some(x as u32)
            } else {
                None
            }
        }
    } else if input[0] == 3 {
        if input.len() < 5 {
            None
        } else {
            let x = input[1] + 0x100 * input[2] + 0x1_0000 * input[3] + 0x100_0000 * input[4];
            if COMPACT_FOUR_BYTE_MAX < x {
                Some(x as u32)
            } else {
                None
            }
        }
    } else {
        None
    }
}

/// The number that the first eight bytes of the input encode.
pub open spec fn spec_decode_u64(input: Seq<u8>) -> Option<u64> {
    if input.len() < 8 {
        None
    } else {
        Some(spec_u64_from_le_bytes(input.subrange(0, 8)))
    }
}

/// Calls `parity_scale_codec::Encode::encode` on a `u64`, which gives its
/// eight bytes, least significant first.
#[verifier::external_body]
pub(crate) fn encode_u64(value: u64) -> (bytes: Vec<u8>)
    ensures
        bytes@ == spec_u64_to_le_bytes(value),
{
    parity_scale_codec::Encode::encode(&value)
}

/// Calls `parity_scale_codec::Encode::encode` on a `Compact<u32>`, which
/// gives the compact form of the number.
#[verifier::external_body]
pub(crate) fn encode_compact_u32(value: u32) -> (bytes: Vec<u8>)
    ensures
        bytes@ == spec_compact_u32(value),
{
    parity_scale_codec::Encode::encode(&parity_scale_codec::Compact(value))
}

/// Calls `parity_scale_codec::Decode::decode` for a `u64`, which reads the
/// first eight bytes of the input and fails on a shorter one.
#[verifier::external_body]
pub(crate) fn decode_u64(input: &[u8]) -> (value: Option<u64>)
    ensures
        value == spec_decode_u64(input@),
{
    <u64 as parity_scale_codec::Decode>::decode(&mut &input[..]).ok()
}

/// Calls `parity_scale_codec::Decode::decode` for a `Compact<u32>`, which
/// reads a compact form from the start of the input. It fails where the
/// input ends too early, where the form is not the shortest of its number,
/// and where the number has more than 32 bits.
#[verifier::external_body]
pub(crate) fn decode_compact_u32(input: &[u8]) -> (value: Option<u32>)
    ensures
        value == spec_decode_compact_u32(input@),
{
    <parity_scale_codec::Compact<u32> as parity_scale_codec::Decode>::decode(&mut &input[..]).ok().map(
        |compact| compact.0,
    )
}

/// The compact form has the length that its mode tells.
pub proof fn lemma_compact_len(n: u32)
    ensures
        spec_compact_u32(n).len() == spec_compact_len(n),
        1 <= spec_compact_len(n) <= 5,
{
}

/// The bytes of a number below `2^16`, least significant first, add up to
/// the number, and the lower byte keeps the remainder by 4.
proof fn lemma_split_two_bytes(x: int)
    requires
        0 <= x < 0x1_0000,
    ensures
        0 <= x % 0x100 < 0x100,
        0 <= x / 0x100 < 0x100,
        x % 0x100 + 0x100 * (x / 0x100) == x,
        (x % 0x100) % 4 == x % 4,
{
}

/// The bytes of a number below `2^32`, least significant first, add up to
/// the number, and the lowest byte keeps the remainder by 4.
proof fn lemma_split_four_bytes(x: int)
    requires
        0 <= x < 0x1_0000_0000,
    ensures
        0 <= x % 0x100 < 0x100,
        0 <= x / 0x100 % 0x100 < 0x100,
        0 <= x / 0x1_0000 % 0x100 < 0x100,
        0 <= x / 0x100_0000 < 0x100,
        x % 0x100 + 0x100 * (x / 0x100 % 0x100) + 0x1_0000 * (x / 0x1_0000 % 0x100) + 0x100_0000
            * (x / 0x100_0000) == x,
        (x % 0x100) % 4 == x % 4,
{
    let q1 = x / 0x100;
    let q2 = x / 0x1_0000;
    let q3 = x / 0x100_0000;
    assert(q2 == q1 / 0x100);
    assert(q3 == q2 / 0x100);
}

/// Four bytes, least significant first, are the bytes of the number that
/// they add up to.
proof fn lemma_join_four_bytes(b0: int, b1: int, b2: int, b3: int)
    requires
        0 <= b0 < 0x100,
        0 <= b1 < 0x100,
        0 <= b2 < 0x100,
        0 <= b3 < 0x100,
    ensures
        ({
            let x = b0 + 0x100 * b1 + 0x1_0000 * b2 + 0x100_0000 * b3;
            &&& 0 <= x < 0x1_0000_0000
            &&& x % 0x100 == b0
            &&& x / 0x100 % 0x100 == b1
            &&& x / 0x1_0000 % 0x100 == b2
            &&& x / 0x100_0000 == b3
        }),
{
    let x = b0 + 0x100 * b1 + 0x1_0000 * b2 + 0x100_0000 * b3;
    assert(x / 0x100 == b1 + 0x100 * b2 + 0x1_0000 * b3);
    assert(x / 0x1_0000 == b2 + 0x100 * b3);
    assert(x / 0x100_0000 == b3);
}

/// Reading a compact form gives the number back, whatever follows it.
pub proof fn lemma_compact_round_trip(n: u32, rest: Seq<u8>)
    ensures
        spec_decode_compact_u32(spec_compact_u32(n) + rest) == Some(n),
{
    let input = spec_compact_u32(n) + rest;
    if n <= COMPACT_ONE_BYTE_MAX {
        assert(input[0] == (4 * n) as u8);
    } else if n <= COMPACT_TWO_BYTE_MAX {
        let x = 4 * n + 1;
        lemma_split_two_bytes(x);
        assert(input[0] == (x % 0x100) as u8);
        assert(input[1] == (x / 0x100) as u8);
        assert(input[0] + 0x100 * input[1] == x);
    } else if n <= COMPACT_FOUR_BYTE_MAX {
        let x = 4 * n + 2;
        lemma_split_four_bytes(x);
        assert(input[0] == (x % 0x100) as u8);
        assert(input[1] == (x / 0x100 % 0x100) as u8);
        assert(input[2] == (x / 0x1_0000 % 0x100) as u8);
        assert(input[3] == (x / 0x100_0000) as u8);
        assert(input[0] + 0x100 * input[1] + 0x1_0000 * input[2] + 0x100_0000 * input[3] == x);
    } else {
        lemma_split_four_bytes(n as int);
        assert(input[0] == 3u8);
        assert(input[1] == (n % 0x100) as u8);
        assert(input[2] == (n / 0x100 % 0x100) as u8);
        assert(input[3] == (n / 0x1_0000 % 0x100) as u8);
        assert(input[4] == (n / 0x100_0000) as u8);
        assert(input[1] + 0x100 * input[2] + 0x1_0000 * input[3] + 0x100_0000 * input[4] == n);
    }
}

/// A compact form that was read is the start of the input.
pub proof fn lemma_compact_decoded_is_prefix(input: Seq<u8>)
    requires
        spec_decode_compact_u32(input) is Some,
    ensures
        spec_compact_len(spec_decode_compact_u32(input)->0) <= input.len(),
        input.subrange(0, spec_compact_len(spec_decode_compact_u32(input)->0) as int)
            == spec_compact_u32(spec_decode_compact_u32(input)->0),
{
    let n = spec_decode_compact_u32(input)->0;
    let len = spec_compact_len(n) as int;
    if input[0] % 4 == 0 {
        assert(n == input[0] / 4);
        assert(input.subrange(0, len) =~= spec_compact_u32(n));
    } else if input[0] % 4 == 1 {
        let x = input[0] + 0x100 * input[1];
        assert(x % 4 == 1);
        assert(4 * n + 1 == x);
        assert(x % 0x100 == input[0]);
        assert(x / 0x100 == input[1]);
        assert(input.subrange(0, len) =~= spec_compact_u32(n));
    } else if input[0] % 4 == 2 {
        let x = input[0] + 0x100 * input[1] + 0x1_0000 * input[2] + 0x100_0000 * input[3];
        lemma_join_four_bytes(input[0] as int, input[1] as int, input[2] as int, input[3] as int);
        assert(x % 4 == 2);
        assert(4 * n + 2 == x);
        assert(input.subrange(0, len) =~= spec_compact_u32(n));
    } else {
        lemma_join_four_bytes(input[1] as int, input[2] as int, input[3] as int, input[4] as int);
        assert(input.subrange(0, len) =~= spec_compact_u32(n));
    }
}

/// Reading eight bytes gives the number back, whatever follows them.
pub proof fn lemma_u64_round_trip(value: u64, rest: Seq<u8>)
    ensures
        spec_u64_to_le_bytes(value).len() == 8,
        spec_decode_u64(spec_u64_to_le_bytes(value) + rest) == Some(value),
{
    vstd::bytes::lemma_auto_spec_u64_to_from_le_bytes();
    assert((spec_u64_to_le_bytes(value) + rest).subrange(0, 8) =~= spec_u64_to_le_bytes(value));
}

} // verus!
