//! What holds of the library as a whole: what a file's words, a cloud's bytes
//! and the passing of time come to, said of the inputs and the results alone.
use vstd::prelude::*;

use crate::header::Encoding;
use crate::ply::{
    is_camera_at, splat_at, splat_bytes, word, EmbeddedCamera, PlyContents, PlyError,
    PlyReader, PointCloudReader, SplatData,
};

verus! {

/// From `at` on `bytes` holds the four bytes of each of `words`, one word after
/// another, most significant byte first or last.
pub open spec fn written_at(bytes: Seq<u8>, at: int, words: Seq<u32>, big_endian: bool) -> bool {
    &&& 0 <= at
    &&& at + 4 * words.len() <= bytes.len()
    &&& forall|m: int|
        0 <= m < words.len() ==> {
            let w = #[trigger] words[m];
            let a = at + 4 * m;
            if big_endian {
                &&& bytes[a] == w / 16777216
                &&& bytes[a + 1] == w / 65536 % 256
                &&& bytes[a + 2] == w / 256 % 256
                &&& bytes[a + 3] == w % 256
            } else {
                &&& bytes[a] == w % 256
                &&& bytes[a + 1] == w / 256 % 256
                &&& bytes[a + 2] == w / 65536 % 256
                &&& bytes[a + 3] == w / 16777216
            }
        }
}

/// A word that was written is the word that is read at its place.
pub proof fn words_read_back(
    bytes: Seq<u8>,
    at: int,
    words: Seq<u32>,
    encoding: Encoding,
    m: int,
)
    requires
        encoding != Encoding::Ascii,
        written_at(bytes, at, words, encoding == Encoding::BinaryBigEndian),
        0 <= m < words.len(),
    ensures
        word(bytes, encoding, at + 4 * m) == words[m],
{
    let w = words[m];
    let (a, b, c, d) = (w % 256, w / 256 % 256, w / 65536 % 256, w / 16777216);
    assert(w == a + 256 * b + 65536 * c + 16777216 * d);
}

/// The words of a vertex: its place, its normal where it has one, its first
/// colour, the other colours (first all of red, then of green, then of blue),
/// its opacity, its scale and its rotation.
pub open spec fn spells(words: Seq<u32>, from: int, splat: SplatData, sh_deg: int, has_normals: bool)
    -> bool {
    let color = from + if has_normals {
        6int
    } else {
        3
    };
    let rest = (sh_deg + 1) * (sh_deg + 1) - 1;
    let tail = color + 3 + 3 * rest;
    &&& splat.position == words.subrange(from, from + 3)
    &&& splat.sh.len() == 16
    &&& splat.sh[0] == words.subrange(color, color + 3)
    &&& forall|q: int|
        0 <= q < 3 * rest ==> #[trigger] words[color + 3 + q] == splat.sh[1 + q % rest][q / rest]
    &&& forall|i: int| rest < i < 16 ==> #[trigger] splat.sh[i] == seq![0u32, 0, 0]
    &&& splat.opacity == words[tail]
    &&& splat.scale == words.subrange(tail + 1, tail + 4)
    &&& splat.rotation == words.subrange(tail + 4, tail + 8)
}

/// A splat that is read is spelled by the file's words, each of which is one
/// number of the splat.
pub proof fn splat_is_its_words(
    bytes: Seq<u8>,
    at: int,
    words: Seq<u32>,
    encoding: Encoding,
    from: int,
    sh_deg: int,
    has_normals: bool,
)
    requires
        encoding != Encoding::Ascii,
        written_at(bytes, at, words, encoding == Encoding::BinaryBigEndian),
        0 <= sh_deg <= 3,
        0 <= from,
        from + 14 + (if has_normals {
            3int
        } else {
            0
        }) + 3 * ((sh_deg + 1) * (sh_deg + 1) - 1) <= words.len(),
    ensures
        spells(
            words,
            from,
            splat_at(bytes, encoding, at + 4 * from, sh_deg, has_normals),
            sh_deg,
            has_normals,
        ),
{
    let splat = splat_at(bytes, encoding, at + 4 * from, sh_deg, has_normals);
    let start = at + 4 * from;
    let first = if has_normals {
        6int
    } else {
        3
    };
    let color = from + first;
    let rest = (sh_deg + 1) * (sh_deg + 1) - 1;
    let tail = color + 3 + 3 * rest;
    assert(0 <= rest <= 15) by (nonlinear_arith)
        requires
            0 <= sh_deg <= 3,
            rest == (sh_deg + 1) * (sh_deg + 1) - 1,
    ;
    assert forall|m: int| from <= m < words.len() implies word(
        bytes,
        encoding,
        start + 4 * (m - from),
    ) == #[trigger] words[m] by {
        words_read_back(bytes, at, words, encoding, m);
        assert(at + 4 * m == start + 4 * (m - from));
    }
    assert forall|j: int| 0 <= j < 3 implies splat.position[j] == words.subrange(from, from + 3)[j] by {
        assert(words[from + j] == word(bytes, encoding, start + 4 * j));
    }
    assert(splat.position =~= words.subrange(from, from + 3));
    assert forall|j: int| 0 <= j < 3 implies splat.sh[0][j] == words.subrange(color, color + 3)[j] by {
        assert(words[color + j] == word(bytes, encoding, start + 4 * (first + j)));
    }
    assert(splat.sh[0] =~= words.subrange(color, color + 3));
    assert forall|q: int| 0 <= q < 3 * rest implies #[trigger] words[color + 3 + q]
        == splat.sh[1 + q % rest][q / rest] by {
        let j = q / rest;
        let i = 1 + q % rest;
        assert(0 <= j < 3 && 1 <= i <= rest && j * rest + i - 1 == q) by (nonlinear_arith)
            requires
                0 <= q < 3 * rest,
                j == q / rest,
                i == 1 + q % rest,
        ;
        assert(words[color + 3 + q] == word(bytes, encoding, start + 4 * (first + 3 + q)));
        assert(splat.sh[i][j] == word(bytes, encoding, start + 4 * (first + 3 + q)));
    }
    assert forall|i: int| rest < i < 16 implies #[trigger] splat.sh[i] == seq![0u32, 0, 0] by {
        assert(splat.sh[i] =~= seq![0u32, 0, 0]);
    }
    assert(splat.opacity == words[tail]);
    assert forall|j: int| 0 <= j < 3 implies splat.scale[j] == words.subrange(tail + 1, tail + 4)[j] by {
        assert(words[tail + 1 + j] == word(bytes, encoding, start + 4 * (tail + 1 + j - from)));
    }
    assert(splat.scale =~= words.subrange(tail + 1, tail + 4));
    assert forall|j: int| 0 <= j < 4 implies splat.rotation[j]
        == words.subrange(tail + 4, tail + 8)[j] by {
        assert(words[tail + 4 + j] == word(bytes, encoding, start + 4 * (tail + 4 + j - from)));
    }
    assert(splat.rotation =~= words.subrange(tail + 4, tail + 8));
}

/// Which number of a splat a word of its file is: none is left out and none
/// stands for two.
pub proof fn colour_words_have_one_place(q: int, p: int, rest: int)
    requires
        0 < rest,
        0 <= q < 3 * rest,
        0 <= p < 3 * rest,
    ensures
        0 <= q / rest < 3,
        1 <= 1 + q % rest <= rest,
        q / rest == p / rest && 1 + q % rest == 1 + p % rest ==> q == p,
{
    vstd::arithmetic::div_mod::lemma_fundamental_div_mod(q, rest);
    vstd::arithmetic::div_mod::lemma_fundamental_div_mod(p, rest);
    assert(0 <= q / rest < 3) by (nonlinear_arith)
        requires
            0 < rest,
            0 <= q < 3 * rest,
    ;
}

/// The camera's rows, one after another, the rows of the intrinsic matrix and
/// the image size are the words of the file in their order.
pub proof fn camera_is_its_words(
    camera: EmbeddedCamera,
    bytes: Seq<u8>,
    at: int,
    words: Seq<u32>,
    encoding: Encoding,
)
    requires
        encoding != Encoding::Ascii,
        written_at(bytes, at, words, encoding == Encoding::BinaryBigEndian),
        27 <= words.len(),
        is_camera_at(camera, bytes, encoding, at),
    ensures
        camera.extrinsic@[0]@ + camera.extrinsic@[1]@ + camera.extrinsic@[2]@
            + camera.extrinsic@[3]@ + camera.intrinsic@[0]@ + camera.intrinsic@[1]@
            + camera.intrinsic@[2]@ + seq![camera.image_size.0, camera.image_size.1]
            == words.take(27),
{
    let all = camera.extrinsic@[0]@ + camera.extrinsic@[1]@ + camera.extrinsic@[2]@
        + camera.extrinsic@[3]@ + camera.intrinsic@[0]@ + camera.intrinsic@[1]@
        + camera.intrinsic@[2]@ + seq![camera.image_size.0, camera.image_size.1];
    assert forall|m: int| 0 <= m < 27 implies all[m] == words[m] by {
        words_read_back(bytes, at, words, encoding, m);
        if m < 16 {
            let (i, j) = (m / 4, m % 4);
            assert(all[m] == camera.extrinsic@[i]@[j]);
            assert(at + 4 * (4 * i + j) == at + 4 * m);
        } else if m < 25 {
            let (i, j) = ((m - 16) / 3, (m - 16) % 3);
            assert(all[m] == camera.intrinsic@[i]@[j]);
            assert(at + 4 * (16 + 3 * i + j) == at + 4 * m);
        }
    }
    assert(all =~= words.take(27));
}

/// How many words a vertex has.
pub open spec fn vertex_words(sh_deg: int, has_normals: bool) -> int {
    14 + (if has_normals {
        3int
    } else {
        0
    }) + 3 * ((sh_deg + 1) * (sh_deg + 1) - 1)
}

/// A file is read vertex for vertex in its order, and its camera after them: the
/// `k`-th splat is spelled by the words from `k` times a vertex's words on.
pub proof fn file_is_read_in_order(
    before: PlyReader,
    after: PlyReader,
    contents: PlyContents,
    words: Seq<u32>,
    k: int,
)
    requires
        PlyReader::read_gives(&before, &after, Ok(contents)),
        before.header.encoding != Encoding::Ascii,
        before.sh_deg <= 3,
        written_at(
            before.body@,
            before.pos as int,
            words,
            before.header.encoding == Encoding::BinaryBigEndian,
        ),
        words.len() == before.num_points * vertex_words(before.sh_deg as int, before.has_normals)
            + (if before.has_ml_sharp_camera {
            27int
        } else {
            0
        }),
        0 <= k < before.num_points,
    ensures
        contents.splats@.len() == before.num_points,
        spells(
            words,
            k * vertex_words(before.sh_deg as int, before.has_normals),
            contents.splats@[k]@,
            before.sh_deg as int,
            before.has_normals,
        ),
        contents.embedded_camera is Some <==> before.has_ml_sharp_camera,
        contents.embedded_camera matches Some(camera) ==> camera.extrinsic@[0]@
            + camera.extrinsic@[1]@ + camera.extrinsic@[2]@ + camera.extrinsic@[3]@
            + camera.intrinsic@[0]@ + camera.intrinsic@[1]@ + camera.intrinsic@[2]@ + seq![
            camera.image_size.0,
            camera.image_size.1,
        ] == words.skip(words.len() - 27),
{
    let n = before.num_points as int;
    let deg = before.sh_deg as int;
    let size = vertex_words(deg, before.has_normals);
    let big = before.header.encoding == Encoding::BinaryBigEndian;
    let at = before.pos as int;
    assert((deg + 1) * (deg + 1) >= 1) by (nonlinear_arith)
        requires
            deg >= 0,
    ;
    assert(splat_bytes(deg, before.has_normals) == 4 * size);
    assert(k * size + size <= n * size && 0 <= k * size) by (nonlinear_arith)
        requires
            0 <= k < n,
            size > 0,
    ;
    assert(k * (4 * size) == 4 * (k * size)) by (nonlinear_arith);
    assert(n * (4 * size) == 4 * (n * size)) by (nonlinear_arith);
    splat_is_its_words(
        before.body@,
        at,
        words,
        before.header.encoding,
        k * size,
        deg,
        before.has_normals,
    );
    assert(contents.splats@[k]@ == splat_at(
        before.body@,
        before.header.encoding,
        at + 4 * (k * size),
        deg,
        before.has_normals,
    ));
    if before.has_ml_sharp_camera {
        let tail = words.skip(words.len() - 27);
        let start = at + 4 * (words.len() - 27);
        assert forall|m: int| 0 <= m < 27 implies {
            let w = #[trigger] tail[m];
            let a = start + 4 * m;
            if big {
                &&& before.body@[a] == w / 16777216
                &&& before.body@[a + 1] == w / 65536 % 256
                &&& before.body@[a + 2] == w / 256 % 256
                &&& before.body@[a + 3] == w % 256
            } else {
                &&& before.body@[a] == w % 256
                &&& before.body@[a + 1] == w / 256 % 256
                &&& before.body@[a + 2] == w / 65536 % 256
                &&& before.body@[a + 3] == w / 16777216
            }
        } by {
            assert(tail[m] == words[words.len() - 27 + m]);
        }
        assert(written_at(before.body@, start, tail, big));
        if let Some(camera) = contents.embedded_camera {
            camera_is_its_words(camera, before.body@, start, tail, before.header.encoding);
            assert(tail.take(27) =~= tail);
        }
    }
}

/// A file is read exactly where it holds the words of all its vertices and the
/// 128 bytes of its camera, and all of them are then read.
pub proof fn short_files_are_refused(
    before: PlyReader,
    after: PlyReader,
    r: Result<PlyContents, PlyError>,
)
    requires
        PlyReader::read_gives(&before, &after, r),
    ensures
        ({
            let needed = 4 * (before.num_points * vertex_words(
                before.sh_deg as int,
                before.has_normals,
            )) + (if before.has_ml_sharp_camera {
                128int
            } else {
                0
            });
            &&& r is Ok <==> before.pos + needed <= before.body@.len()
            &&& r is Ok ==> after.pos == before.pos + needed
            &&& r matches Err(e) ==> e == PlyError::UnexpectedEof
            &&& after.body == before.body
            &&& after.header == before.header
            &&& after.num_points == before.num_points
        }),
{
    let n = before.num_points as int;
    let size = vertex_words(before.sh_deg as int, before.has_normals);
    assert(n * (4 * size) == 4 * (n * size)) by (nonlinear_arith);
}

} // verus!
