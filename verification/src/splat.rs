//! The splats of a point cloud and their layout in the buffers that the
//! renderer uploads.
//!
//! Numbers are held by their bit patterns: coordinates as single-precision,
//! opacities and covariances as half-precision numbers.
use crate::bytes::{
    from_le16, from_le32, le16, le16_reads_back, le32, read_u16_le, read_u32_le,
};
use vstd::prelude::*;
use vstd::slice::slice_subrange;

verus! {

/// Bytes of a [`Gaussian`] in a buffer.
pub const GAUSSIAN_SIZE: usize = 28;

/// Bytes of a [`GaussianCompressed`] in a buffer.
pub const COMPRESSED_SIZE: usize = 24;

/// Bytes of the 16 colour coefficients of one uncompressed splat.
pub const SH_SIZE: usize = 96;

/// A splat.
#[derive(Debug, Clone, Copy, PartialEq, Eq)]
pub struct Gaussian {
    pub xyz: [u32; 3],
    pub opacity: u16,
    pub cov: [u16; 6],
}

/// A splat whose opacity is quantized and whose covariance and colour stand
/// elsewhere, under an index.
#[derive(Debug, Clone, Copy, PartialEq, Eq)]
pub struct GaussianCompressed {
    pub xyz: [u32; 3],
    pub opacity: i8,
    pub scale_factor: i8,
    pub geometry_idx: u32,
    pub sh_idx: u32,
}

/// The upper triangle of a covariance matrix.
#[derive(Debug, Clone, Copy, PartialEq, Eq)]
pub struct Covariance3D(pub [u16; 6]);

/// How a value is recovered from its quantized form: `(q - zero_point) * scale`.
/// The scale is the bit pattern of a single-precision number.
#[derive(Debug, Clone, Copy, PartialEq, Eq)]
pub struct Quantization {
    pub zero_point: i32,
    pub scale: u32,
}

impl Quantization {
    pub fn new(zero_point: i32, scale: u32) -> (q: Self)
        ensures
            q.zero_point == zero_point,
            q.scale == scale,
    {
        Quantization { zero_point, scale }
    }
}

/// The quantizations of a compressed point cloud.
#[derive(Debug, Clone, Copy, PartialEq, Eq)]
pub struct GaussianQuantization {
    pub color_dc: Quantization,
    pub color_rest: Quantization,
    pub opacity: Quantization,
    pub scaling_factor: Quantization,
}

/// What a [`Gaussian`] holds.
#[verifier::ext_equal]
pub struct GaussianData {
    pub xyz: Seq<u32>,
    pub opacity: u16,
    pub cov: Seq<u16>,
}

impl View for Gaussian {
    type V = GaussianData;

    open spec fn view(&self) -> GaussianData {
        GaussianData { xyz: self.xyz@, opacity: self.opacity, cov: self.cov@ }
    }
}

/// What a [`GaussianCompressed`] holds.
#[verifier::ext_equal]
pub struct CompressedData {
    pub xyz: Seq<u32>,
    pub opacity: i8,
    pub scale_factor: i8,
    pub geometry_idx: u32,
    pub sh_idx: u32,
}

impl View for GaussianCompressed {
    type V = CompressedData;

    open spec fn view(&self) -> CompressedData {
        CompressedData {
            xyz: self.xyz@,
            opacity: self.opacity,
            scale_factor: self.scale_factor,
            geometry_idx: self.geometry_idx,
            sh_idx: self.sh_idx,
        }
    }
}

/// The bytes of a splat: position, opacity, covariance and two bytes of padding.
pub open spec fn gaussian_record(g: GaussianData) -> Seq<u8> {
    le32(g.xyz[0]) + le32(g.xyz[1]) + le32(g.xyz[2]) + le16(g.opacity) + le16(g.cov[0]) + le16(
        g.cov[1],
    ) + le16(g.cov[2]) + le16(g.cov[3]) + le16(g.cov[4]) + le16(g.cov[5]) + seq![0u8, 0u8]
}

/// The splat whose bytes are `s`.
pub open spec fn gaussian_at(s: Seq<u8>) -> GaussianData {
    GaussianData {
        xyz: seq![from_le32(s, 0), from_le32(s, 4), from_le32(s, 8)],
        opacity: from_le16(s, 12),
        cov: seq![
            from_le16(s, 14),
            from_le16(s, 16),
            from_le16(s, 18),
            from_le16(s, 20),
            from_le16(s, 22),
            from_le16(s, 24),
        ],
    }
}

/// The signed number with the bits of `b` in two's complement.
pub open spec fn signed_byte(b: u8) -> i8 {
    if b < 128 {
        b as i8
    } else {
        (b - 256) as i8
    }
}

/// The bytes of a compressed splat: position, opacity, scale factor, two bytes
/// of padding and the two indices.
pub open spec fn compressed_record(g: CompressedData) -> Seq<u8> {
    le32(g.xyz[0]) + le32(g.xyz[1]) + le32(g.xyz[2]) + seq![
        crate::bytes::byte_of(g.opacity),
        crate::bytes::byte_of(g.scale_factor),
        0u8,
        0u8,
    ] + le32(g.geometry_idx) + le32(g.sh_idx)
}

/// The compressed splat whose bytes are `s`.
pub open spec fn compressed_at(s: Seq<u8>) -> CompressedData {
    CompressedData {
        xyz: seq![from_le32(s, 0), from_le32(s, 4), from_le32(s, 8)],
        opacity: signed_byte(s[12]),
        scale_factor: signed_byte(s[13]),
        geometry_idx: from_le32(s, 16),
        sh_idx: from_le32(s, 20),
    }
}

/// The bytes of the colour coefficients of one splat: coefficient after
/// coefficient, each with its three channels.
pub open spec fn sh_record(coefs: Seq<[u16; 3]>) -> Seq<u8> {
    Seq::new(96, |b: int| le16(coefs[b / 6]@[b % 6 / 2])[b % 2])
}

/// Reading back the bytes of a splat gives the splat.
pub proof fn gaussian_reads_back(g: GaussianData)
    requires
        g.xyz.len() == 3,
        g.cov.len() == 6,
    ensures
        gaussian_record(g).len() == GAUSSIAN_SIZE,
        gaussian_at(gaussian_record(g)) == g,
{
    let s = gaussian_record(g);
    assert(s.len() == 28);
    reads32(s, 0, g.xyz[0]);
    reads32(s, 4, g.xyz[1]);
    reads32(s, 8, g.xyz[2]);
    assert(gaussian_at(s).xyz =~= g.xyz);
    assert(gaussian_at(s).cov =~= g.cov);
}

/// Reading back the bytes of a compressed splat gives the splat.
pub proof fn compressed_reads_back(g: CompressedData)
    requires
        g.xyz.len() == 3,
    ensures
        compressed_record(g).len() == COMPRESSED_SIZE,
        compressed_at(compressed_record(g)) == g,
{
    let s = compressed_record(g);
    assert(s.len() == 24);
    reads32(s, 0, g.xyz[0]);
    reads32(s, 4, g.xyz[1]);
    reads32(s, 8, g.xyz[2]);
    reads32(s, 16, g.geometry_idx);
    reads32(s, 20, g.sh_idx);
    assert(compressed_at(s).xyz =~= g.xyz);
}

/// A number is read where its four bytes stand.
proof fn reads32(s: Seq<u8>, at: int, x: u32)
    requires
        0 <= at,
        at + 4 <= s.len(),
        s[at] == le32(x)[0],
        s[at + 1] == le32(x)[1],
        s[at + 2] == le32(x)[2],
        s[at + 3] == le32(x)[3],
    ensures
        from_le32(s, at) == x,
{
}

/// Stores a number's four bytes, least significant first.
fn store32<const N: usize>(out: &mut [u8; N], at: usize, x: u32)
    requires
        at + 4 <= N,
    ensures
        forall|i: int|
            0 <= i < N ==> #[trigger] final(out)@[i] == (if at <= i < at + 4 {
                le32(x)[i - at]
            } else {
                old(out)@[i]
            }),
{
    out[at] = (x % 256) as u8;
    out[at + 1] = (x / 256 % 256) as u8;
    out[at + 2] = (x / 65536 % 256) as u8;
    out[at + 3] = (x / 16777216) as u8;
}

/// Stores a number's two bytes, least significant first.
fn store16<const N: usize>(out: &mut [u8; N], at: usize, x: u16)
    requires
        at + 2 <= N,
    ensures
        forall|i: int|
            0 <= i < N ==> #[trigger] final(out)@[i] == (if at <= i < at + 2 {
                le16(x)[i - at]
            } else {
                old(out)@[i]
            }),
{
    out[at] = (x % 256) as u8;
    out[at + 1] = (x / 256) as u8;
}

/// The number whose four bytes stand at `at`.
fn load32<const N: usize>(bytes: &[u8; N], at: usize) -> (x: u32)
    requires
        at + 4 <= N,
    ensures
        x == from_le32(bytes@, at as int),
{
    read_u32_le(slice_subrange(bytes.as_slice(), at, at + 4))
}

/// The number whose two bytes stand at `at`.
fn load16<const N: usize>(bytes: &[u8; N], at: usize) -> (x: u16)
    requires
        at + 2 <= N,
    ensures
        x == from_le16(bytes@, at as int),
{
    read_u16_le(slice_subrange(bytes.as_slice(), at, at + 2))
}

impl Gaussian {
    pub fn new(xyz: [u32; 3], opacity: u16, cov: [u16; 6]) -> (g: Self)
        ensures
            g.xyz == xyz,
            g.opacity == opacity,
            g.cov == cov,
    {
        Gaussian { xyz, opacity, cov }
    }

    /// The splat's bytes in a buffer.
    pub fn to_record(&self) -> (r: [u8; 28])
        ensures
            r@ == gaussian_record(self@),
    {
        let mut r: [u8; 28] = [0u8; 28];
        store32(&mut r, 0, self.xyz[0]);
        store32(&mut r, 4, self.xyz[1]);
        store32(&mut r, 8, self.xyz[2]);
        store16(&mut r, 12, self.opacity);
        store16(&mut r, 14, self.cov[0]);
        store16(&mut r, 16, self.cov[1]);
        store16(&mut r, 18, self.cov[2]);
        store16(&mut r, 20, self.cov[3]);
        store16(&mut r, 22, self.cov[4]);
        store16(&mut r, 24, self.cov[5]);
        assert(r@ =~= gaussian_record(self@));
        r
    }

    /// The splat with these bytes.
    pub fn from_record(r: &[u8; 28]) -> (g: Self)
        ensures
            g@ == gaussian_at(r@),
    {
        let g = Gaussian {
            xyz: [load32(r, 0), load32(r, 4), load32(r, 8)],
            opacity: load16(r, 12),
            cov: [
                load16(r, 14),
                load16(r, 16),
                load16(r, 18),
                load16(r, 20),
                load16(r, 22),
                load16(r, 24),
            ],
        };
        assert(g@ =~= gaussian_at(r@));
        g
    }
}

/// The byte with the same bits.
fn unsigned(x: i8) -> (b: u8)
    ensures
        b == crate::bytes::byte_of(x),
{
    if x >= 0 {
        x as u8
    } else {
        (x as i16 + 256) as u8
    }
}

/// The signed byte with the same bits.
fn signed(b: u8) -> (x: i8)
    ensures
        x == signed_byte(b),
{
    if b < 128 {
        b as i8
    } else {
        (b as i16 - 256) as i8
    }
}

impl GaussianCompressed {
    /// The splat's bytes in a buffer.
    pub fn to_record(&self) -> (r: [u8; 24])
        ensures
            r@ == compressed_record(self@),
    {
        let mut r: [u8; 24] = [0u8; 24];
        store32(&mut r, 0, self.xyz[0]);
        store32(&mut r, 4, self.xyz[1]);
        store32(&mut r, 8, self.xyz[2]);
        r[12] = unsigned(self.opacity);
        r[13] = unsigned(self.scale_factor);
        store32(&mut r, 16, self.geometry_idx);
        store32(&mut r, 20, self.sh_idx);
        assert(r@ =~= compressed_record(self@));
        r
    }

    /// The splat with these bytes.
    pub fn from_record(r: &[u8; 24]) -> (g: Self)
        ensures
            g@ == compressed_at(r@),
    {
        let g = GaussianCompressed {
            xyz: [load32(r, 0), load32(r, 4), load32(r, 8)],
            opacity: signed(r[12]),
            scale_factor: signed(r[13]),
            geometry_idx: load32(r, 16),
            sh_idx: load32(r, 20),
        };
        assert(g@ =~= compressed_at(r@));
        g
    }
}

/// The bytes of the colour coefficients of one splat.
pub fn sh_to_record(coefs: &[[u16; 3]; 16]) -> (r: [u8; 96])
    ensures
        r@ == sh_record(coefs@),
{
    let mut r: [u8; 96] = [0u8; 96];
    let mut i: usize = 0;
    while i < 16
        invariant
            i <= 16,
            forall|b: int| 0 <= b < 6 * i ==> #[trigger] r@[b] == sh_record(coefs@)[b],
        decreases 16 - i,
    {
        let c: [u16; 3] = coefs[i];
        store16(&mut r, 6 * i, c[0]);
        store16(&mut r, 6 * i + 2, c[1]);
        store16(&mut r, 6 * i + 4, c[2]);
        i += 1;
    }
    assert(r@ =~= sh_record(coefs@));
    r
}

/// The coefficient that stands at half-word `h` of a coefficient record.
pub fn sh_value(r: &[u8; 96], h: usize) -> (x: u16)
    requires
        h < 48,
    ensures
        x == from_le16(r@, 2 * h),
{
    load16(r, 2 * h)
}

/// Reading back a coefficient from the record of all gives the coefficient.
pub proof fn sh_reads_back(coefs: Seq<[u16; 3]>, i: int, j: int)
    requires
        coefs.len() == 16,
        0 <= i < 16,
        0 <= j < 3,
    ensures
        from_le16(sh_record(coefs), 2 * (3 * i + j)) == coefs[i]@[j],
{
    let b = 6 * i + 2 * j;
    assert(b / 6 == i && b % 6 / 2 == j && b % 2 == 0);
    assert((b + 1) / 6 == i && (b + 1) % 6 / 2 == j && (b + 1) % 2 == 1);
    le16_reads_back(coefs[i]@[j]);
}

} // verus!
