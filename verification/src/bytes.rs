//! Little-endian numbers and four-letter tags in byte sequences.

use vstd::prelude::*;

verus! {

/// The two bytes of `n`, least significant first.
pub open spec fn le16(n: int) -> Seq<u8> {
    seq![(n % 256) as u8, (n / 256 % 256) as u8]
}

/// The four bytes of `n`, least significant first.
pub open spec fn le32(n: int) -> Seq<u8> {
    seq![
        (n % 256) as u8,
        (n / 256 % 256) as u8,
        (n / 65536 % 256) as u8,
        (n / 16777216 % 256) as u8,
    ]
}

/// The number that the two bytes at position `i` stand for.
pub open spec fn le16_at(bytes: Seq<u8>, i: int) -> int {
    bytes[i] + bytes[i + 1] * 256
}

/// The number that the four bytes at position `i` stand for.
pub open spec fn le32_at(bytes: Seq<u8>, i: int) -> int {
    bytes[i] + bytes[i + 1] * 256 + bytes[i + 2] * 65536 + bytes[i + 3] * 16777216
}

/// The bytes of four ASCII letters.
pub open spec fn tag(a: char, b: char, c: char, d: char) -> Seq<u8> {
    seq![a as u8, b as u8, c as u8, d as u8]
}

/// Two bytes read back are the number that was written.
pub proof fn lemma_le16(bytes: Seq<u8>, i: int, n: int)
    requires
        0 <= n < 65536,
        0 <= i,
        i + 2 <= bytes.len(),
        bytes.subrange(i, i + 2) == le16(n),
    ensures
        le16_at(bytes, i) == n,
{
    let part = bytes.subrange(i, i + 2);
    assert(part[0] == bytes[i] && part[1] == bytes[i + 1]);
}

/// Four bytes read back are the number that was written.
pub proof fn lemma_le32(bytes: Seq<u8>, i: int, n: int)
    requires
        0 <= n < 4294967296,
        0 <= i,
        i + 4 <= bytes.len(),
        bytes.subrange(i, i + 4) == le32(n),
    ensures
        le32_at(bytes, i) == n,
{
    let part = bytes.subrange(i, i + 4);
    assert(part[0] == bytes[i] && part[1] == bytes[i + 1] && part[2] == bytes[i + 2] && part[3]
        == bytes[i + 3]);
}

/// Appends the two bytes of `n`.
pub fn push_le16(out: &mut Vec<u8>, n: u16)
    ensures
        final(out)@ == old(out)@ + le16(n as int),
{
    out.push((n % 256) as u8);
    out.push((n / 256) as u8);
    assert(out@ =~= old(out)@ + le16(n as int));
}

/// Appends the four bytes of `n`.
pub fn push_le32(out: &mut Vec<u8>, n: u32)
    ensures
        final(out)@ == old(out)@ + le32(n as int),
{
    out.push((n % 256) as u8);
    out.push((n / 256 % 256) as u8);
    out.push((n / 65536 % 256) as u8);
    out.push((n / 16777216) as u8);
    assert(out@ =~= old(out)@ + le32(n as int));
}

/// Appends the bytes of four ASCII letters.
pub fn push_tag(out: &mut Vec<u8>, a: char, b: char, c: char, d: char)
    ensures
        final(out)@ == old(out)@ + tag(a, b, c, d),
{
    out.push(a as u8);
    out.push(b as u8);
    out.push(c as u8);
    out.push(d as u8);
    assert(out@ =~= old(out)@ + tag(a, b, c, d));
}

/// Reads the two bytes at position `i`.
pub fn read_le16(bytes: &[u8], i: usize) -> (n: u16)
    requires
        i + 2 <= bytes@.len(),
    ensures
        n == le16_at(bytes@, i as int),
{
    bytes[i] as u16 + bytes[i + 1] as u16 * 256
}

/// Reads the four bytes at position `i`.
pub fn read_le32(bytes: &[u8], i: usize) -> (n: u32)
    requires
        i + 4 <= bytes@.len(),
    ensures
        n == le32_at(bytes@, i as int),
{
    bytes[i] as u32 + bytes[i + 1] as u32 * 256 + bytes[i + 2] as u32 * 65536 + bytes[i + 3] as u32
        * 16777216
}

/// Whether four ASCII letters stand at position `i`.
pub fn has_tag(bytes: &[u8], i: usize, a: char, b: char, c: char, d: char) -> (r: bool)
    requires
        i + 4 <= bytes@.len(),
    ensures
        r == (bytes@.subrange(i as int, i + 4) == tag(a, b, c, d)),
{
    let found = bytes[i] == a as u8 && bytes[i + 1] == b as u8 && bytes[i + 2] == c as u8 && bytes[i
        + 3] == d as u8;
    proof {
        let part = bytes@.subrange(i as int, i + 4);
        assert(part[0] == bytes@[i as int] && part[1] == bytes@[i + 1] && part[2] == bytes@[i + 2]
            && part[3] == bytes@[i + 3]);
        if found {
            assert(part =~= tag(a, b, c, d));
        }
    }
    found
}

} // verus!
