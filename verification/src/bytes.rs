//! Integers in byte order, and fixed-size records in a byte buffer.
use vstd::prelude::*;

verus! {

/// The two bytes of `x`, least significant first.
pub open spec fn le16(x: u16) -> Seq<u8> {
    seq![(x % 256) as u8, (x / 256) as u8]
}

/// The four bytes of `x`, least significant first.
pub open spec fn le32(x: u32) -> Seq<u8> {
    seq![
        (x % 256) as u8,
        (x / 256 % 256) as u8,
        (x / 65536 % 256) as u8,
        (x / 16777216) as u8,
    ]
}

/// The number whose two bytes, least significant first, stand at `at`.
pub open spec fn from_le16(s: Seq<u8>, at: int) -> u16 {
    (s[at] + 256 * s[at + 1]) as u16
}

/// The number whose four bytes, least significant first, stand at `at`.
pub open spec fn from_le32(s: Seq<u8>, at: int) -> u32 {
    (s[at] + 256 * s[at + 1] + 65536 * s[at + 2] + 16777216 * s[at + 3]) as u32
}

/// The number whose four bytes, most significant first, stand at `at`.
pub open spec fn from_be32(s: Seq<u8>, at: int) -> u32 {
    (16777216 * s[at] + 65536 * s[at + 1] + 256 * s[at + 2] + s[at + 3]) as u32
}

/// The `k`-th of the records of `size` bytes that follow one another in `bytes`.
pub open spec fn record(bytes: Seq<u8>, size: int, k: int) -> Seq<u8> {
    bytes.subrange(k * size, (k + 1) * size)
}

/// Reading back the bytes of a number gives the number.
pub proof fn le16_reads_back(x: u16)
    ensures
        le16(x).len() == 2,
        from_le16(le16(x), 0) == x,
{
}

/// Reading back the bytes of a number gives the number.
pub proof fn le32_reads_back(x: u32)
    ensures
        le32(x).len() == 4,
        from_le32(le32(x), 0) == x,
{
}

/// Reversing four bytes exchanges the two byte orders.
pub proof fn byte_orders_mirror(s: Seq<u8>)
    requires
        s.len() == 4,
    ensures
        from_be32(s.reverse(), 0) == from_le32(s, 0),
{
}

/// `byteorder`'s `LittleEndian::read_u32`: the number that the first four
/// bytes hold, least significant byte first. It panics on fewer bytes.
#[verifier::external_body]
pub(crate) fn read_u32_le(buf: &[u8]) -> (x: u32)
    requires
        buf@.len() >= 4,
    ensures
        x == from_le32(buf@, 0),
{
    <byteorder::LittleEndian as byteorder::ByteOrder>::read_u32(buf)
}

/// `byteorder`'s `BigEndian::read_u32`: the number that the first four bytes
/// hold, most significant byte first. It panics on fewer bytes.
#[verifier::external_body]
pub(crate) fn read_u32_be(buf: &[u8]) -> (x: u32)
    requires
        buf@.len() >= 4,
    ensures
        x == from_be32(buf@, 0),
{
    <byteorder::BigEndian as byteorder::ByteOrder>::read_u32(buf)
}

/// `byteorder`'s `LittleEndian::read_u16`: the number that the first two bytes
/// hold, least significant byte first. It panics on fewer bytes.
#[verifier::external_body]
pub(crate) fn read_u16_le(buf: &[u8]) -> (x: u16)
    requires
        buf@.len() >= 2,
    ensures
        x == from_le16(buf@, 0),
{
    <byteorder::LittleEndian as byteorder::ByteOrder>::read_u16(buf)
}

/// `bytemuck::cast_slice` from bytes to byte arrays: the same bytes, cut into
/// records of `N`. It panics where the bytes do not divide evenly.
#[verifier::external_body]
pub(crate) fn split_records<const N: usize>(bytes: &[u8]) -> (records: &[[u8; N]])
    requires
        N > 0,
        bytes@.len() % (N as nat) == 0,
    ensures
        records@.len() * N == bytes@.len(),
        forall|k: int|
            0 <= k < records@.len() ==> (#[trigger] records@[k])@ == record(bytes@, N as int, k),
{
    bytemuck::cast_slice::<u8, [u8; N]>(bytes)
}

/// `bytemuck::cast_slice` from byte arrays to bytes: the records' bytes one
/// record after another, here copied into a vector.
#[verifier::external_body]
pub(crate) fn join_records<const N: usize>(records: &[[u8; N]]) -> (bytes: Vec<u8>)
    requires
        N > 0,
    ensures
        bytes@.len() == records@.len() * N,
        forall|k: int|
            0 <= k < records@.len() ==> (#[trigger] records@[k])@ == record(bytes@, N as int, k),
{
    bytemuck::cast_slice::<[u8; N], u8>(records).to_vec()
}

/// The byte with the bits of `x` in two's complement.
pub open spec fn byte_of(x: i8) -> u8 {
    if x >= 0 {
        x as u8
    } else {
        (x + 256) as u8
    }
}

/// `bytemuck::cast_slice` from signed to unsigned bytes: each byte keeps its
/// bits, here copied into a vector.
#[verifier::external_body]
pub(crate) fn bytes_of_signed(values: &[i8]) -> (bytes: Vec<u8>)
    ensures
        bytes@.len() == values@.len(),
        forall|k: int| 0 <= k < values@.len() ==> #[trigger] bytes@[k] == byte_of(values@[k]),
{
    bytemuck::cast_slice::<i8, u8>(values).to_vec()
}

/// Appends the bytes of `source` from `from` up to `to`.
pub fn put_range(out: &mut Vec<u8>, source: &[u8], from: usize, to: usize)
    requires
        from <= to <= source@.len(),
    ensures
        final(out)@ == old(out)@ + source@.subrange(from as int, to as int),
{
    let mut i: usize = from;
    while i < to
        invariant
            from <= i <= to <= source@.len(),
            out@ == old(out)@ + source@.subrange(from as int, i as int),
        decreases to - i,
    {
        out.push(source[i]);
        i += 1;
    }
}

} // verus!
