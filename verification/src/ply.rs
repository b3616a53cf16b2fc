//! Reading splats from the PLY file format.
//!
//! Numbers of the file are kept as the bit patterns of single-precision numbers.
use crate::bytes::{from_be32, from_le32, read_u32_be, read_u32_le, record};
use crate::cloud::{Bounds, GenericGaussianPointCloud};
use crate::header::{
    count_starting, count_with_prefix, element_named, find_holding, first_holding,
    header_numbers_fit, numbers_fit, ply_header, read_header, texts, Encoding, HeaderData,
    PlyHeader,
};
use crate::splat::{sh_record, Gaussian};
use crate::text::{after_last, pieces, same, split, stands_at, text_after_last};
use vstd::prelude::*;
use vstd::slice::slice_subrange;
use vstd::string::StringSliceAdditionalSpecFns;

verus! {

/// Camera data embedded in a PLY file.
#[derive(Debug, Clone, Copy, PartialEq, Eq)]
pub struct EmbeddedCamera {
    /// 4x4 camera-to-world extrinsic matrix (row-major).
    pub extrinsic: [[u32; 4]; 4],
    /// 3x3 intrinsic matrix (row-major): [[fx, 0, cx], [0, fy, cy], [0, 0, 1]].
    pub intrinsic: [[u32; 3]; 3],
    /// Image dimensions (width, height).
    pub image_size: (u32, u32),
}

/// Why a file cannot be read.
#[derive(Debug, Clone, Copy, PartialEq, Eq, Structural)]
pub enum PlyError {
    /// The file ends too early.
    UnexpectedEof,
    /// The file does not start as a known format does.
    UnknownFormat,
    /// This number of colour properties belongs to no degree.
    ShCoefficients(usize),
    /// There is no element `vertex`.
    MissingVertex,
    /// The comment on mip splatting holds neither `true` nor `false`.
    MipSplatting,
}

/// A splat as the file holds it.
#[derive(Debug, Clone, Copy, PartialEq, Eq)]
pub struct RawSplat {
    pub position: [u32; 3],
    /// The colour coefficients, each with its three channels.
    pub sh: [[u32; 3]; 16],
    pub opacity: u32,
    pub scale: [u32; 3],
    pub rotation: [u32; 4],
}

/// What a [`RawSplat`] holds.
#[verifier::ext_equal]
pub struct SplatData {
    pub position: Seq<u32>,
    pub sh: Seq<Seq<u32>>,
    pub opacity: u32,
    pub scale: Seq<u32>,
    pub rotation: Seq<u32>,
}

impl View for RawSplat {
    type V = SplatData;

    open spec fn view(&self) -> SplatData {
        SplatData {
            position: self.position@,
            sh: self.sh@.map_values(|c: [u32; 3]| c@),
            opacity: self.opacity,
            scale: self.scale@,
            rotation: self.rotation@,
        }
    }
}

/// The splats of a file, and its camera where it has one.
#[derive(Debug, Clone, PartialEq, Eq)]
pub struct PlyContents {
    pub splats: Vec<RawSplat>,
    pub embedded_camera: Option<EmbeddedCamera>,
}

/// A PLY file whose header has been read.
pub struct PlyReader {
    pub header: PlyHeader,
    /// What follows the header.
    pub body: Vec<u8>,
    /// How much of the body has been read.
    pub pos: usize,
    pub sh_deg: u32,
    pub num_points: usize,
    pub mip_splatting: Option<bool>,
    /// The kernel size as the file spells it.
    pub kernel_size: Option<String>,
    /// The channels of the background colour as the file spells them.
    pub background_color: Option<Vec<String>>,
    pub has_normals: bool,
    pub has_ml_sharp_camera: bool,
}

/// A reader of a file format that holds a point cloud.
pub trait PointCloudReader: Sized {
    /// The reader is in a state in which it can read.
    spec fn readable(&self) -> bool;

    /// What a reading returns, and what it leaves of the reader.
    spec fn read_gives(
        before: &Self,
        after: &Self,
        r: Result<PlyContents, PlyError>,
    ) -> bool;

    /// The bytes that a file of the format starts with.
    spec fn magic() -> Seq<u8>;

    /// The ending of the names of files of the format.
    spec fn ending() -> Seq<char>;

    /// Reads the splats.
    fn read(&mut self) -> (r: Result<PlyContents, PlyError>)
        requires
            old(self).readable(),
        ensures
            Self::read_gives(old(self), final(self), r),
    ;

    /// The bytes that a file of the format starts with.
    fn magic_bytes() -> (bytes: &'static [u8])
        ensures
            bytes@ == Self::magic(),
    ;

    /// The ending of the names of files of the format.
    fn file_ending() -> (ending: &'static str)
        ensures
            ending@ == Self::ending(),
    ;
}

/// `d` is the degree of `n` coefficients.
pub open spec fn is_degree(d: int, n: int) -> bool {
    d >= 0 && (d + 1) * (d + 1) == n
}

/// There are not two degrees for one number of coefficients.
pub proof fn degree_is_unique(d: int, e: int, n: int)
    requires
        is_degree(d, n),
        is_degree(e, n),
    ensures
        d == e,
{
    assert(d == e) by (nonlinear_arith)
        requires
            d >= 0,
            e >= 0,
            (d + 1) * (d + 1) == (e + 1) * (e + 1),
    ;
}

/// The degree of the spherical harmonics that have `n` coefficients.
pub fn sh_deg_from_num_coefs(n: u32) -> (deg: Option<u32>)
    ensures
        match deg {
            Some(d) => is_degree(d as int, n as int),
            None => forall|d: int| !is_degree(d, n as int),
        },
{
    let mut d: u32 = 0;
    let mut square: u64 = 1;
    while square < n as u64
        invariant
            d < 65536,
            square == (d + 1) * (d + 1),
            forall|e: int| e < d ==> !#[trigger] is_degree(e, n as int),
        decreases 65536 - d,
    {
        assert(d + 1 < 65536) by (nonlinear_arith)
            requires
                (d + 1) * (d + 1) < n,
                n <= 0xffff_ffff,
        ;
        assert((d + 2) * (d + 2) == (d + 1) * (d + 1) + 2 * (d + 1) + 1) by (nonlinear_arith);
        d += 1;
        square += 2 * d as u64 + 1;
    }
    if square == n as u64 {
        Some(d)
    } else {
        assert forall|e: int| !is_degree(e, n as int) by {
            if e > d {
                assert((e + 1) * (e + 1) > (d + 1) * (d + 1)) by (nonlinear_arith)
                    requires
                        e > d,
                        d >= 0,
                ;
            }
        }
        None
    }
}

/// The number whose four bytes stand at `at`.
pub open spec fn word(body: Seq<u8>, encoding: Encoding, at: int) -> u32 {
    if encoding == Encoding::BinaryBigEndian {
        from_be32(body, at)
    } else {
        from_le32(body, at)
    }
}

/// The number of colour coefficients besides the first.
pub open spec fn rest_coefs(sh_deg: int) -> int {
    (sh_deg + 1) * (sh_deg + 1) - 1
}

/// The bytes of one splat: position, normal, colours, opacity, scale, rotation.
pub open spec fn splat_bytes(sh_deg: int, has_normals: bool) -> int {
    4 * (14 + (if has_normals {
        3int
    } else {
        0
    }) + 3 * rest_coefs(sh_deg))
}

/// The bytes of a splat up to its first colour coefficient.
pub open spec fn leading_bytes(has_normals: bool) -> int {
    4 * (if has_normals {
        9int
    } else {
        6
    })
}

/// The splat that stands at `at`. The coefficients besides the first are
/// stored channel by channel; those that the file lacks are zero.
pub open spec fn splat_at(
    body: Seq<u8>,
    encoding: Encoding,
    at: int,
    sh_deg: int,
    has_normals: bool,
) -> SplatData {
    let first = if has_normals {
        6int
    } else {
        3
    };
    let rest = rest_coefs(sh_deg);
    let tail = first + 3 + 3 * rest;
    SplatData {
        position: Seq::new(3, |j: int| word(body, encoding, at + 4 * j)),
        sh: Seq::new(
            16,
            |i: int|
                Seq::new(
                    3,
                    |j: int|
                        if i == 0 {
                            word(body, encoding, at + 4 * (first + j))
                        } else if i <= rest {
                            word(body, encoding, at + 4 * (first + 3 + j * rest + i - 1))
                        } else {
                            0
                        },
                ),
        ),
        opacity: word(body, encoding, at + 4 * tail),
        scale: Seq::new(3, |j: int| word(body, encoding, at + 4 * (tail + 1 + j))),
        rotation: Seq::new(4, |j: int| word(body, encoding, at + 4 * (tail + 4 + j))),
    }
}

/// Whether the `n` words from `at` on are the same in two files, of which one
/// has the least significant bytes first and the other the most significant.
pub open spec fn words_agree(little: Seq<u8>, big: Seq<u8>, at: int, n: int) -> bool {
    forall|m: int|
        0 <= m < n ==> #[trigger] word(little, Encoding::BinaryLittleEndian, at + 4 * m) == word(
            big,
            Encoding::BinaryBigEndian,
            at + 4 * m,
        )
}

/// A splat is the same in either byte order: where the words agree, the splats do.
pub proof fn byte_order_is_immaterial(
    little: Seq<u8>,
    big: Seq<u8>,
    at: int,
    sh_deg: int,
    has_normals: bool,
)
    requires
        0 <= sh_deg,
        words_agree(little, big, at, splat_bytes(sh_deg, has_normals) / 4),
    ensures
        splat_at(little, Encoding::BinaryLittleEndian, at, sh_deg, has_normals) == splat_at(
            big,
            Encoding::BinaryBigEndian,
            at,
            sh_deg,
            has_normals,
        ),
{
    let a = splat_at(little, Encoding::BinaryLittleEndian, at, sh_deg, has_normals);
    let b = splat_at(big, Encoding::BinaryBigEndian, at, sh_deg, has_normals);
    let rest = rest_coefs(sh_deg);
    assert(rest >= 0) by (nonlinear_arith)
        requires
            0 <= sh_deg,
            rest == (sh_deg + 1) * (sh_deg + 1) - 1,
    ;
    assert(a.position =~= b.position);
    assert forall|i: int| 0 <= i < 16 implies a.sh[i] =~= b.sh[i] by {
        assert forall|j: int| 0 <= j < 3 implies a.sh[i][j] == b.sh[i][j] by {
            if 0 < i <= rest {
                assert(0 <= j * rest <= 2 * rest) by (nonlinear_arith)
                    requires
                        0 <= j < 3,
                        0 <= rest,
                ;
            }
        }
    }
    assert(a.sh =~= b.sh);
    assert(a.scale =~= b.scale);
    assert(a.rotation =~= b.rotation);
}

/// The bytes of the elements that hold the camera.
pub const CAMERA_BYTES: usize = 128;

/// `camera` is the camera that stands at `at`: the two matrices row by row,
/// then the width and the height.
pub open spec fn is_camera_at(
    camera: EmbeddedCamera,
    body: Seq<u8>,
    encoding: Encoding,
    at: int,
) -> bool {
    &&& forall|i: int, j: int|
        0 <= i < 4 && 0 <= j < 4 ==> #[trigger] camera.extrinsic@[i]@[j] == word(
            body,
            encoding,
            at + 4 * (4 * i + j),
        )
    &&& forall|i: int, j: int|
        0 <= i < 3 && 0 <= j < 3 ==> #[trigger] camera.intrinsic@[i]@[j] == word(
            body,
            encoding,
            at + 4 * (16 + 3 * i + j),
        )
    &&& camera.image_size.0 == word(body, encoding, at + 100)
    &&& camera.image_size.1 == word(body, encoding, at + 104)
}

/// What the header's comments say of mip splatting.
pub open spec fn mip_setting(comments: Seq<Seq<char>>) -> Result<Option<bool>, PlyError> {
    match first_holding(comments, "mip"@) {
        None => Ok(None),
        Some(comment) => if after_last(comment, '=') == "true"@ {
            Ok(Some(true))
        } else if after_last(comment, '=') == "false"@ {
            Ok(Some(false))
        } else {
            Err(PlyError::MipSplatting)
        },
    }
}

/// What stands after the last `=` of the first comment that holds `key`.
pub open spec fn setting(comments: Seq<Seq<char>>, key: Seq<char>) -> Option<Seq<char>> {
    match first_holding(comments, key) {
        None => None,
        Some(comment) => Some(after_last(comment, '=')),
    }
}

/// The number of colour coefficients that a number of colour properties makes.
pub open spec fn num_coefs(properties: int) -> int {
    properties % 0x1_0000_0000 / 3
}

/// The number of colour properties of a splat.
pub open spec fn color_properties(header: HeaderData) -> nat {
    count_starting(header.vertex().properties, "f_"@)
}

/// The header tells of a camera.
pub open spec fn tells_of_camera(header: HeaderData) -> bool {
    header.has("extrinsic"@) && header.has("intrinsic"@) && header.has("image_size"@)
}

/// `reader` stands at the start of `body` with what the header says.
pub open spec fn reader_of(reader: PlyReader, header: HeaderData, body: Seq<u8>) -> bool {
    &&& reader.header@ == header
    &&& reader.body@ == body
    &&& reader.pos == 0
    &&& is_degree(reader.sh_deg as int, num_coefs(color_properties(header) as int))
    &&& reader.num_points == header.vertex().count
    &&& mip_setting(header.comments) == Ok::<Option<bool>, PlyError>(reader.mip_splatting)
    &&& match setting(header.comments, "kernel_size"@) {
        Some(text) => reader.kernel_size matches Some(size) && size@ == text,
        None => reader.kernel_size is None,
    }
    &&& match setting(header.comments, "background_color"@) {
        Some(text) => reader.background_color matches Some(channels) && texts(channels@) == pieces(
            text,
            ',',
        ),
        None => reader.background_color is None,
    }
    &&& reader.has_normals == header.vertex().properties.contains("nx"@)
    &&& reader.has_ml_sharp_camera == tells_of_camera(header)
}

/// What becomes of a header with an element `vertex`: the colour properties
/// are looked at first, then the comment on mip splatting.
pub open spec fn opens(
    r: Result<PlyReader, PlyError>,
    header: HeaderData,
    body: Seq<u8>,
) -> bool {
    let properties = color_properties(header);
    if forall|d: int| !is_degree(d, num_coefs(properties as int)) {
        r matches Err(e) && e == PlyError::ShCoefficients(properties as usize)
    } else if mip_setting(header.comments) is Err {
        r matches Err(e) && e == PlyError::MipSplatting
    } else {
        r matches Ok(reader) && reader_of(reader, header, body)
    }
}

impl PlyReader {
    /// A reader of the body that follows this header.
    pub fn new(header: PlyHeader, body: Vec<u8>) -> (r: Result<Self, PlyError>)
        requires
            header@.has("vertex"@),
        ensures
            opens(r, header@, body@),
    {
        let sh_deg: u32 = match Self::file_sh_deg(&header) {
            Ok(d) => d,
            Err(e) => {
                return Err(e);
            },
        };
        proof {
            let n = num_coefs(color_properties(header@) as int);
            assert(is_degree(sh_deg as int, n));
        }
        let num_points: usize = match Self::num_points(&header) {
            Ok(n) => n,
            Err(e) => {
                return Err(e);
            },
        };
        let mip_splatting = match Self::mip_splatting(&header) {
            Ok(m) => m,
            Err(e) => {
                return Err(e);
            },
        };
        let kernel_size = Self::kernel_size(&header);
        let background_color = Self::background_color(&header);
        let has_normals = Self::has_normals(&header);
        let has_ml_sharp_camera = Self::has_ml_sharp_camera(&header);
        Ok(
            PlyReader {
                header,
                body,
                pos: 0,
                sh_deg,
                num_points,
                mip_splatting,
                kernel_size,
                background_color,
                has_normals,
                has_ml_sharp_camera,
            },
        )
    }

    /// A reader of a whole file. `None` where the header cannot be read, holds
    /// a number beyond 64 bits, or has no element `vertex`.
    pub fn open(bytes: &[u8]) -> (r: Option<Result<Self, PlyError>>)
        ensures
            match r {
                Some(result) => {
                    &&& header_numbers_fit(bytes@)
                    &&& ply_header(bytes@) matches Some((header, body)) && header.has("vertex"@)
                        && opens(result, header, body)
                },
                None => !header_numbers_fit(bytes@) || match ply_header(bytes@) {
                    Some((header, _)) => !header.has("vertex"@),
                    None => true,
                },
            },
    {
        if !numbers_fit(bytes) {
            return None;
        }
        match read_header(bytes) {
            Some((header, body)) => {
                if header.element("vertex").is_none() {
                    return None;
                }
                Some(Self::new(header, body))
            },
            None => None,
        }
    }

    /// Whether the splats have normals.
    pub fn has_normals(header: &PlyHeader) -> (r: bool)
        requires
            header@.has("vertex"@),
        ensures
            r == header@.vertex().properties.contains("nx"@),
    {
        match header.element("vertex") {
            Some(vertex) => {
                let mut i: usize = 0;
                while i < vertex.properties.len()
                    invariant
                        i <= vertex.properties@.len(),
                        header@.vertex() == vertex@,
                        forall|k: int|
                            0 <= k < i ==> #[trigger] texts(vertex.properties@)[k] != "nx"@,
                    decreases vertex.properties@.len() - i,
                {
                    assert(texts(vertex.properties@)[i as int] == vertex.properties@[i as int]@);
                    if same(vertex.properties[i].as_str(), "nx") {
                        return true;
                    }
                    i += 1;
                }
                false
            },
            None => false,
        }
    }

    /// Whether the file holds a camera.
    pub fn has_ml_sharp_camera(header: &PlyHeader) -> (r: bool)
        ensures
            r == tells_of_camera(header@),
    {
        header.element("extrinsic").is_some() && header.element("intrinsic").is_some()
            && header.element("image_size").is_some()
    }

    /// The degree of the spherical harmonics.
    pub fn file_sh_deg(header: &PlyHeader) -> (r: Result<u32, PlyError>)
        requires
            header@.has("vertex"@),
        ensures
            match r {
                Ok(d) => is_degree(d as int, num_coefs(color_properties(header@) as int)),
                Err(e) => {
                    &&& e == PlyError::ShCoefficients(color_properties(header@) as usize)
                    &&& forall|d: int|
                        !is_degree(d, num_coefs(color_properties(header@) as int))
                },
            },
    {
        match header.element("vertex") {
            Some(vertex) => {
                let properties: usize = count_with_prefix(&vertex.properties, "f_");
                match sh_deg_from_num_coefs((properties as u64 % 0x1_0000_0000) as u32 / 3) {
                    Some(d) => Ok(d),
                    None => Err(PlyError::ShCoefficients(properties)),
                }
            },
            None => Err(PlyError::MissingVertex),
        }
    }

    /// The number of splats.
    pub fn num_points(header: &PlyHeader) -> (r: Result<usize, PlyError>)
        ensures
            r == match element_named(header@.elements, "vertex"@) {
                Some(vertex) => Ok(vertex.count),
                None => Err(PlyError::MissingVertex),
            },
    {
        match header.element("vertex") {
            Some(vertex) => Ok(vertex.count),
            None => Err(PlyError::MissingVertex),
        }
    }

    /// Whether the splats are meant for mip splatting, where the header says so.
    pub fn mip_splatting(header: &PlyHeader) -> (r: Result<Option<bool>, PlyError>)
        ensures
            r == mip_setting(header@.comments),
    {
        match find_holding(&header.comments, "mip") {
            None => Ok(None),
            Some(comment) => {
                let value = text_after_last(comment.as_str(), '=');
                if same(value, "true") {
                    Ok(Some(true))
                } else if same(value, "false") {
                    Ok(Some(false))
                } else {
                    Err(PlyError::MipSplatting)
                }
            },
        }
    }

    /// The kernel size as the header spells it.
    pub fn kernel_size(header: &PlyHeader) -> (r: Option<String>)
        ensures
            match setting(header@.comments, "kernel_size"@) {
                Some(text) => r matches Some(size) && size@ == text,
                None => r is None,
            },
    {
        match find_holding(&header.comments, "kernel_size") {
            None => None,
            Some(comment) => Some(text_after_last(comment.as_str(), '=').to_owned()),
        }
    }

    /// The channels of the background colour as the header spells them.
    pub fn background_color(header: &PlyHeader) -> (r: Option<Vec<String>>)
        ensures
            match setting(header@.comments, "background_color"@) {
                Some(text) => r matches Some(channels) && texts(channels@) == pieces(text, ','),
                None => r is None,
            },
    {
        match find_holding(&header.comments, "background_color") {
            None => None,
            Some(comment) => {
                let value = text_after_last(comment.as_str(), '=');
                let channels = split(value, ',');
                assert(texts(channels@) =~= pieces(value@, ','));
                Some(channels)
            },
        }
    }

    /// The number whose four bytes stand at `at`.
    fn word_at(&self, at: usize) -> (x: u32)
        requires
            at + 4 <= self.body@.len(),
        ensures
            x == word(self.body@, self.header.encoding, at as int),
    {
        assert(at + 4 <= self.body.len());
        let bytes = slice_subrange(self.body.as_slice(), at, at + 4);
        match self.header.encoding {
            Encoding::BinaryBigEndian => read_u32_be(bytes),
            _ => read_u32_le(bytes),
        }
    }

    /// The rest of the reader is as it was.
    pub open spec fn same_file(&self, other: &Self) -> bool {
        *self == (PlyReader { pos: self.pos, ..*other })
    }

    /// A splat has room for the coefficients, or the file ends before they come.
    pub open spec fn fits_degree(&self) -> bool {
        self.sh_deg <= 3 || self.pos + leading_bytes(self.has_normals) > self.body@.len()
    }

    /// Reads the next splat.
    pub fn read_line(&mut self) -> (r: Result<RawSplat, PlyError>)
        requires
            old(self).fits_degree(),
            old(self).header.encoding != Encoding::Ascii,
            old(self).pos <= old(self).body@.len(),
        ensures
            final(self).same_file(old(self)),
            ({
                let size = splat_bytes(old(self).sh_deg as int, old(self).has_normals);
                if old(self).pos + size <= old(self).body@.len() {
                    &&& r matches Ok(splat) && splat@ == splat_at(
                        old(self).body@,
                        old(self).header.encoding,
                        old(self).pos as int,
                        old(self).sh_deg as int,
                        old(self).has_normals,
                    )
                    &&& final(self).pos == old(self).pos + size
                } else {
                    &&& r matches Err(e) && e == PlyError::UnexpectedEof
                    &&& final(self).pos == old(self).pos
                }
            }),
    {
        let leading: usize = if self.has_normals {
            36
        } else {
            24
        };
        if leading > self.body.len() - self.pos {
            assert((self.sh_deg + 1) * (self.sh_deg + 1) >= 1) by (nonlinear_arith);
            return Err(PlyError::UnexpectedEof);
        }
        let deg: usize = self.sh_deg as usize;
        assert((deg + 1) * (deg + 1) <= 16) by (nonlinear_arith)
            requires
                deg <= 3,
        ;
        assert((deg + 1) * (deg + 1) >= 1) by (nonlinear_arith);
        let rest: usize = (deg + 1) * (deg + 1) - 1;
        let first: usize = if self.has_normals {
            6
        } else {
            3
        };
        let tail: usize = first + 3 + 3 * rest;
        let size: usize = 4 * (tail + 8);
        if size > self.body.len() - self.pos {
            return Err(PlyError::UnexpectedEof);
        }
        let at: usize = self.pos;
        let ghost expected = splat_at(
            self.body@,
            self.header.encoding,
            at as int,
            deg as int,
            self.has_normals,
        );
        let mut sh: [[u32; 3]; 16] = [[0u32; 3]; 16];
        sh[0] = [
            self.word_at(at + 4 * first),
            self.word_at(at + 4 * (first + 1)),
            self.word_at(at + 4 * (first + 2)),
        ];
        assert(sh@[0]@ =~= expected.sh[0]);
        let mut i: usize = 0;
        while i < rest
            invariant
                i <= rest <= 15,
                rest == rest_coefs(deg as int),
                first == (if self.has_normals {
                    6int
                } else {
                    3
                }),
                at + 4 * (first + 3 + 3 * rest + 8) <= self.body@.len() <= usize::MAX,
                expected == splat_at(
                    self.body@,
                    self.header.encoding,
                    at as int,
                    deg as int,
                    self.has_normals,
                ),
                forall|k: int| 0 <= k <= i ==> (#[trigger] sh@[k])@ == expected.sh[k],
                forall|k: int| i < k < 16 ==> (#[trigger] sh@[k])@ == seq![0u32, 0, 0],
            decreases rest - i,
        {
            let base: usize = at + 4 * (first + 3 + i);
            let c: [u32; 3] = [
                self.word_at(base),
                self.word_at(base + 4 * rest),
                self.word_at(base + 8 * rest),
            ];
            proof {
                let e = expected.sh[i + 1];
                assert(c@[0] == e[0]);
                assert(c@[1] == e[1]);
                assert(c@[2] == e[2]);
                assert(c@ =~= e);
            }
            sh[i + 1] = c;
            i += 1;
        }
        let splat = RawSplat {
            position: [self.word_at(at), self.word_at(at + 4), self.word_at(at + 8)],
            sh,
            opacity: self.word_at(at + 4 * tail),
            scale: [
                self.word_at(at + 4 * (tail + 1)),
                self.word_at(at + 4 * (tail + 2)),
                self.word_at(at + 4 * (tail + 3)),
            ],
            rotation: [
                self.word_at(at + 4 * (tail + 4)),
                self.word_at(at + 4 * (tail + 5)),
                self.word_at(at + 4 * (tail + 6)),
                self.word_at(at + 4 * (tail + 7)),
            ],
        };
        proof {
            assert forall|k: int| 0 <= k < 16 implies splat@.sh[k] =~= expected.sh[k] by {
                assert(splat@.sh[k] == sh@[k]@);
                if k > rest {
                    assert(sh@[k]@ == seq![0u32, 0, 0]);
                }
            }
            assert(splat@.sh =~= expected.sh);
            assert(splat@.position =~= expected.position);
            assert(splat@.scale =~= expected.scale);
            assert(splat@.rotation =~= expected.rotation);
        }
        self.pos = at + size;
        Ok(splat)
    }
}

impl PlyReader {
    /// Reads the elements that hold the camera; those after the image size
    /// are passed over.
    pub fn read_ml_sharp_camera(&mut self) -> (r: Result<EmbeddedCamera, PlyError>)
        requires
            old(self).header.encoding != Encoding::Ascii,
            old(self).pos <= old(self).body@.len(),
        ensures
            final(self).same_file(old(self)),
            if old(self).pos + 128 <= old(self).body@.len() {
                &&& r matches Ok(camera) && is_camera_at(
                    camera,
                    old(self).body@,
                    old(self).header.encoding,
                    old(self).pos as int,
                )
                &&& final(self).pos == old(self).pos + 128
            } else {
                &&& r matches Err(e) && e == PlyError::UnexpectedEof
                &&& final(self).pos == old(self).pos
            },
    {
        if CAMERA_BYTES > self.body.len() - self.pos {
            return Err(PlyError::UnexpectedEof);
        }
        let at: usize = self.pos;
        let mut extrinsic: [[u32; 4]; 4] = [[0u32; 4]; 4];
        let mut i: usize = 0;
        while i < 4
            invariant
                i <= 4,
                at + 128 <= self.body@.len() <= usize::MAX,
                forall|k: int, j: int|
                    0 <= k < i && 0 <= j < 4 ==> #[trigger] extrinsic@[k]@[j] == word(
                        self.body@,
                        self.header.encoding,
                        at + 4 * (4 * k + j),
                    ),
            decreases 4 - i,
        {
            let row: usize = at + 16 * i;
            extrinsic[i] = [
                self.word_at(row),
                self.word_at(row + 4),
                self.word_at(row + 8),
                self.word_at(row + 12),
            ];
            i += 1;
        }
        let mut intrinsic: [[u32; 3]; 3] = [[0u32; 3]; 3];
        i = 0;
        while i < 3
            invariant
                i <= 3,
                at + 128 <= self.body@.len() <= usize::MAX,
                forall|k: int, j: int|
                    0 <= k < i && 0 <= j < 3 ==> #[trigger] intrinsic@[k]@[j] == word(
                        self.body@,
                        self.header.encoding,
                        at + 4 * (16 + 3 * k + j),
                    ),
            decreases 3 - i,
        {
            let row: usize = at + 64 + 12 * i;
            intrinsic[i] = [self.word_at(row), self.word_at(row + 4), self.word_at(row + 8)];
            i += 1;
        }
        let image_size = (self.word_at(at + 100), self.word_at(at + 104));
        self.pos = at + CAMERA_BYTES;
        Ok(EmbeddedCamera { extrinsic, intrinsic, image_size })
    }

    /// The bytes that a reading takes.
    pub open spec fn bytes_to_read(&self) -> int {
        self.num_points * splat_bytes(self.sh_deg as int, self.has_normals) + (
        if self.has_ml_sharp_camera {
            128int
        } else {
            0
        })
    }

    /// Where the `k`-th splat starts.
    pub open spec fn splat_start(&self, k: int) -> int {
        self.pos + k * splat_bytes(self.sh_deg as int, self.has_normals)
    }
}

impl PointCloudReader for PlyReader {
    open spec fn readable(&self) -> bool {
        &&& self.header.encoding != Encoding::Ascii
        &&& self.fits_degree() || self.num_points == 0
        &&& self.pos <= self.body@.len()
    }

    open spec fn read_gives(
        before: &Self,
        after: &Self,
        r: Result<PlyContents, PlyError>,
    ) -> bool {
        &&& after.same_file(before)
        &&& if before.pos + before.bytes_to_read() <= before.body@.len() {
            &&& after.pos == before.pos + before.bytes_to_read()
            &&& r matches Ok(contents) && {
                &&& contents.splats@.len() == before.num_points
                &&& forall|k: int|
                    0 <= k < before.num_points ==> (#[trigger] contents.splats@[k])@ == splat_at(
                        before.body@,
                        before.header.encoding,
                        before.splat_start(k),
                        before.sh_deg as int,
                        before.has_normals,
                    )
                &&& match contents.embedded_camera {
                    Some(camera) => before.has_ml_sharp_camera && is_camera_at(
                        camera,
                        before.body@,
                        before.header.encoding,
                        before.splat_start(before.num_points as int),
                    ),
                    None => !before.has_ml_sharp_camera,
                }
            }
        } else {
            r matches Err(e) && e == PlyError::UnexpectedEof
        }
    }

    open spec fn magic() -> Seq<u8> {
        seq![112u8, 108, 121]
    }

    open spec fn ending() -> Seq<char> {
        "ply"@
    }

    fn read(&mut self) -> (r: Result<PlyContents, PlyError>) {
        let mut splats: Vec<RawSplat> = Vec::new();
        let ghost size = splat_bytes(self.sh_deg as int, self.has_normals);
        proof {
            assert(rest_coefs(self.sh_deg as int) >= 0) by {
                assert((self.sh_deg + 1) * (self.sh_deg + 1) >= 1) by (nonlinear_arith);
            }
            assert(0 * size == 0);
        }
        let mut i: usize = 0;
        while i < self.num_points
            invariant
                old(self).readable(),
                self.same_file(old(self)),
                i <= self.num_points,
                size == splat_bytes(self.sh_deg as int, self.has_normals),
                size > 0,
                self.pos == old(self).pos + i * size,
                size >= leading_bytes(self.has_normals),
                self.pos <= self.body@.len(),
                splats@.len() == i,
                forall|k: int|
                    0 <= k < i ==> (#[trigger] splats@[k])@ == splat_at(
                        old(self).body@,
                        old(self).header.encoding,
                        old(self).splat_start(k),
                        old(self).sh_deg as int,
                        old(self).has_normals,
                    ),
            decreases self.num_points - i,
        {
            proof {
                assert(i * size >= 0) by (nonlinear_arith)
                    requires
                        size > 0,
                ;
                assert((i + 1) * size == i * size + size) by (nonlinear_arith);
                assert((i + 1) * size <= self.num_points * size) by (nonlinear_arith)
                    requires
                        i + 1 <= self.num_points,
                        size > 0,
                ;
            }
            match self.read_line() {
                Ok(splat) => splats.push(splat),
                Err(e) => {
                    return Err(e);
                },
            }
            i += 1;
        }
        let embedded_camera = if self.has_ml_sharp_camera {
            match self.read_ml_sharp_camera() {
                Ok(camera) => Some(camera),
                Err(e) => {
                    return Err(e);
                },
            }
        } else {
            None
        };
        Ok(PlyContents { splats, embedded_camera })
    }

    fn magic_bytes() -> (bytes: &'static [u8]) {
        let magic: &'static str = "ply";
        proof {
            reveal_strlit("ply");
            vstd::string::is_ascii_spec_bytes(magic);
            assert(magic.spec_bytes() =~= Self::magic());
        }
        magic.as_bytes()
    }

    fn file_ending() -> (ending: &'static str) {
        "ply"
    }
}

/// The background colour, from what became of reading each channel: none
/// where one could not be read.
pub fn color_of_channels(channels: &Vec<Option<u32>>) -> (color: Option<[u32; 3]>)
    requires
        (forall|k: int| 0 <= k < channels@.len() ==> #[trigger] channels@[k] is Some) ==> channels@.len()
            >= 3,
    ensures
        match color {
            Some(c) => {
                &&& forall|k: int| 0 <= k < channels@.len() ==> #[trigger] channels@[k] is Some
                &&& forall|k: int| 0 <= k < 3 ==> Some(#[trigger] c@[k]) == channels@[k]
            },
            None => exists|k: int| 0 <= k < channels@.len() && #[trigger] channels@[k] is None,
        },
{
    let mut values: Vec<u32> = Vec::new();
    let mut i: usize = 0;
    while i < channels.len()
        invariant
            i <= channels@.len(),
            values@.len() == i,
            forall|k: int| 0 <= k < i ==> #[trigger] channels@[k] == Some(values@[k]),
        decreases channels@.len() - i,
    {
        match channels[i] {
            Some(v) => values.push(v),
            None => {
                return None;
            },
        }
        i += 1;
    }
    assert(channels@[0] == Some(values@[0]));
    assert(channels@[1] == Some(values@[1]));
    assert(channels@[2] == Some(values@[2]));
    Some([values[0], values[1], values[2]])
}

/// The cloud of what a reader has read. `converted` holds, splat for splat, what
/// is computed in half precision: the opacity, the covariance and the colour
/// coefficients.
pub fn cloud_of(
    reader: &PlyReader,
    contents: &PlyContents,
    converted: Vec<(u16, [u16; 6], [[u16; 3]; 16])>,
    kernel_size: Option<u32>,
    background_color: Option<[u32; 3]>,
    bounds: Bounds,
) -> (cloud: GenericGaussianPointCloud)
    requires
        contents.splats@.len() == reader.num_points,
        converted@.len() == reader.num_points,
    ensures
        cloud.wf(),
        !cloud.is_compressed(),
        cloud.num_points == reader.num_points,
        cloud.covars is None,
        cloud.quantization is None,
        cloud.sh_deg == reader.sh_deg,
        cloud.mip_splatting == reader.mip_splatting,
        cloud.embedded_camera == contents.embedded_camera,
        cloud.kernel_size == kernel_size,
        cloud.background_color == background_color,
        cloud.up == bounds.up,
        cloud.center == bounds.center,
        cloud.aabb == bounds.aabb,
        forall|k: int|
            0 <= k < cloud.num_points ==> #[trigger] cloud.position(k)
                == contents.splats@[k]@.position,
        forall|k: int|
            0 <= k < cloud.num_points ==> (#[trigger] cloud.splat(k)).opacity == converted@[k].0
                && cloud.splat(k).cov == converted@[k].1@,
        forall|k: int|
            0 <= k < cloud.num_points ==> #[trigger] record(cloud.sh_bytes(), 96, k) == sh_record(
                converted@[k].2@,
            ),
{
    let n: usize = reader.num_points;
    let mut gaussians: Vec<Gaussian> = Vec::new();
    let mut sh_coefs: Vec<[[u16; 3]; 16]> = Vec::new();
    let mut k: usize = 0;
    while k < n
        invariant
            k <= n == contents.splats@.len() == converted@.len(),
            gaussians@.len() == k,
            sh_coefs@.len() == k,
            forall|j: int|
                0 <= j < k ==> (#[trigger] gaussians@[j]) == (Gaussian {
                    xyz: contents.splats@[j].position,
                    opacity: converted@[j].0,
                    cov: converted@[j].1,
                }),
            forall|j: int| 0 <= j < k ==> #[trigger] sh_coefs@[j] == converted@[j].2,
        decreases n - k,
    {
        let (opacity, cov, sh) = converted[k];
        gaussians.push(Gaussian { xyz: contents.splats[k].position, opacity, cov });
        sh_coefs.push(sh);
        k += 1;
    }
    let ghost made = gaussians@;
    let cloud = GenericGaussianPointCloud::new(
        gaussians,
        sh_coefs,
        reader.sh_deg,
        n,
        kernel_size,
        reader.mip_splatting,
        background_color,
        None,
        None,
        contents.embedded_camera,
        bounds,
    );
    proof {
        assert forall|k: int| 0 <= k < n implies #[trigger] cloud.position(k)
            == contents.splats@[k]@.position by {
            assert(cloud.splat(k) == made[k]@);
        }
        assert forall|k: int| 0 <= k < n implies (#[trigger] cloud.splat(k)).opacity
            == converted@[k].0 && cloud.splat(k).cov == converted@[k].1@ by {
            assert(cloud.splat(k) == made[k]@);
        }
    }
    cloud
}

/// A splat of the cloud that a file was read into lies where the file's vertex
/// of the same number does.
pub proof fn splats_lie_at_vertices(
    before: PlyReader,
    after: PlyReader,
    contents: PlyContents,
    cloud: GenericGaussianPointCloud,
    k: int,
    j: int,
)
    requires
        PlyReader::read_gives(&before, &after, Ok(contents)),
        cloud.num_points == after.num_points,
        forall|i: int|
            0 <= i < cloud.num_points ==> #[trigger] cloud.position(i)
                == contents.splats@[i]@.position,
        0 <= k < cloud.num_points,
        0 <= j < 3,
    ensures
        cloud.position(k)[j] == word(
            before.body@,
            before.header.encoding,
            before.splat_start(k) + 4 * j,
        ),
{
    assert(cloud.position(k) == contents.splats@[k]@.position);
}

impl GenericGaussianPointCloud {
    /// The reader for a file, by the bytes that it starts with. `None` where
    /// [`PlyReader::open`] gives none.
    pub fn load(bytes: &[u8]) -> (r: Option<Result<PlyReader, PlyError>>)
        ensures
            bytes@.len() < 4 ==> (r matches Some(Err(e)) && e == PlyError::UnexpectedEof),
            bytes@.len() >= 4 && !stands_at(bytes@, PlyReader::magic(), 0) ==> (
            r matches Some(Err(e)) && e == PlyError::UnknownFormat),
            bytes@.len() >= 4 && stands_at(bytes@, PlyReader::magic(), 0) ==> match r {
                Some(result) => {
                    &&& header_numbers_fit(bytes@)
                    &&& ply_header(bytes@) matches Some((header, body)) && header.has("vertex"@)
                        && opens(result, header, body)
                },
                None => !header_numbers_fit(bytes@) || match ply_header(bytes@) {
                    Some((header, _)) => !header.has("vertex"@),
                    None => true,
                },
            },
    {
        if bytes.len() < 4 {
            return Some(Err(PlyError::UnexpectedEof));
        }
        let magic = PlyReader::magic_bytes();
        if bytes[0] != magic[0] || bytes[1] != magic[1] || bytes[2] != magic[2] {
            proof {
                let s = bytes@.subrange(0, 3);
                assert(s[0] == bytes@[0] && s[1] == bytes@[1] && s[2] == bytes@[2]);
            }
            return Some(Err(PlyError::UnknownFormat));
        }
        assert(bytes@.subrange(0, 3) =~= magic@);
        PlyReader::open(bytes)
    }
}

} // verus!
