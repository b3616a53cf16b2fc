//! What holds of point clouds: which bytes a splat is, and what downsampling and
//! compression leave of each splat.
use vstd::prelude::*;

use crate::bytes::record;
use crate::cloud::{
    ceil_div_bounds, coefficients_read_back, compressed_from, downsample_count, downsample_fits,
    downsample_step, downsampled_from, half_at, Aabb, GenericGaussianPointCloud,
    QuantizationInputs, QuantizedValues,
};
use crate::splat::{compressed_at, gaussian_at, sh_record};

verus! {

/// The number that two bytes make, the less significant one first.
pub open spec fn two_bytes(s: Seq<u8>, at: int) -> int {
    s[at] + 256 * s[at + 1]
}

/// The number that four bytes make, the least significant one first.
pub open spec fn four_bytes(s: Seq<u8>, at: int) -> int {
    s[at] + 256 * s[at + 1] + 65536 * s[at + 2] + 16777216 * s[at + 3]
}

/// Where the numbers of a splat lie among its 28 bytes.
pub proof fn splat_layout(s: Seq<u8>, c: int)
    requires
        s.len() == 28,
    ensures
        gaussian_at(s).xyz.len() == 3,
        gaussian_at(s).cov.len() == 6,
        0 <= c < 3 ==> gaussian_at(s).xyz[c] == four_bytes(s, 4 * c),
        gaussian_at(s).opacity == two_bytes(s, 12),
        0 <= c < 6 ==> gaussian_at(s).cov[c] == two_bytes(s, 14 + 2 * c),
{
}

/// Where the numbers of a compressed splat lie among its 24 bytes.
pub proof fn compressed_splat_layout(s: Seq<u8>, c: int)
    requires
        s.len() == 24,
    ensures
        compressed_at(s).xyz.len() == 3,
        0 <= c < 3 ==> compressed_at(s).xyz[c] == four_bytes(s, 4 * c),
        compressed_at(s).opacity == if s[12] < 128 {
            s[12] as int
        } else {
            s[12] - 256
        },
        compressed_at(s).scale_factor == if s[13] < 128 {
            s[13] as int
        } else {
            s[13] - 256
        },
        compressed_at(s).geometry_idx == four_bytes(s, 16),
        compressed_at(s).sh_idx == four_bytes(s, 20),
{
}

/// Records follow one another without a gap.
pub proof fn records_are_adjacent(bytes: Seq<u8>, size: int, k: int, b: int)
    requires
        0 < size,
        0 <= k,
        (k + 1) * size <= bytes.len(),
        0 <= b < size,
    ensures
        record(bytes, size, k).len() == size,
        record(bytes, size, k)[b] == bytes[k * size + b],
{
    assert((k + 1) * size == k * size + size && k * size >= 0) by (nonlinear_arith)
        requires
            0 <= k,
            0 < size,
    ;
}

/// The splats of a cloud follow one another: splat `k` lies at byte 28 `k`, or at
/// 24 `k` in a compressed cloud.
pub proof fn splats_follow_one_another(cloud: GenericGaussianPointCloud, k: int, c: int)
    requires
        cloud.wf(),
        0 <= k < cloud.num_points,
        0 <= c < 3,
    ensures
        !cloud.is_compressed() ==> cloud.position(k)[c] == four_bytes(
            cloud.gaussian_bytes(),
            28 * k + 4 * c,
        ) && cloud.splat(k).opacity == two_bytes(cloud.gaussian_bytes(), 28 * k + 12),
        cloud.is_compressed() ==> cloud.position(k)[c] == four_bytes(
            cloud.gaussian_bytes(),
            24 * k + 4 * c,
        ),
{
    let size = if cloud.is_compressed() {
        24int
    } else {
        28
    };
    let r = record(cloud.gaussian_bytes(), size, k);
    assert(r[4 * c] == cloud.gaussian_bytes()[size * k + 4 * c]);
    assert(r[4 * c + 1] == cloud.gaussian_bytes()[size * k + 4 * c + 1]);
    assert(r[4 * c + 2] == cloud.gaussian_bytes()[size * k + 4 * c + 2]);
    assert(r[4 * c + 3] == cloud.gaussian_bytes()[size * k + 4 * c + 3]);
    if cloud.is_compressed() {
        compressed_splat_layout(r, c);
    } else {
        splat_layout(r, c);
        assert(r[12] == cloud.gaussian_bytes()[28 * k + 12]);
        assert(r[13] == cloud.gaussian_bytes()[28 * k + 13]);
    }
}

/// What is quantized of splat `k` are its own numbers: its opacity, the channels
/// of its first coefficient, and those of the other fifteen in their order.
pub proof fn inputs_are_the_splats_own(
    cloud: GenericGaussianPointCloud,
    inputs: QuantizationInputs,
    coefs: Seq<[u16; 3]>,
    k: int,
    i: int,
    j: int,
)
    requires
        cloud.wf(),
        !cloud.is_compressed(),
        cloud.quantizes(inputs),
        0 <= k < cloud.num_points,
        coefs.len() == 16,
        record(cloud.sh_bytes(), 96, k) == sh_record(coefs),
        0 <= i < 16,
        0 <= j < 3,
    ensures
        inputs.opacities@.len() == cloud.num_points,
        inputs.dc_values@.len() == 3 * cloud.num_points,
        inputs.rest_values@.len() == 45 * cloud.num_points,
        inputs.opacities@[k] == cloud.splat(k).opacity,
        i == 0 ==> inputs.dc_values@[3 * k + j] == coefs[0]@[j],
        i > 0 ==> inputs.rest_values@[45 * k + 3 * (i - 1) + j] == coefs[i]@[j],
{
    coefficients_read_back(cloud.sh_bytes(), coefs, k, i, j);
    if i == 0 {
        let m = 3 * k + j;
        assert(m / 3 == k && m % 3 == j);
        assert(inputs.dc_values@[m] == half_at(cloud.sh_bytes(), 48 * k + j));
    } else {
        let m = 45 * k + 3 * (i - 1) + j;
        assert(m / 45 == k && m % 45 == 3 * (i - 1) + j);
        assert(inputs.rest_values@[m] == half_at(cloud.sh_bytes(), 48 * k + 3 * i + j));
    }
}

/// After compression each splat is still the same splat: it lies where it lay, and
/// its opacity, its covariance and its 48 colour bytes, which its indices lead to,
/// are its own. An index has 32 bits: larger clouds share indices.
pub proof fn compressed_splats_keep_their_own(
    before: GenericGaussianPointCloud,
    values: QuantizedValues,
    after: GenericGaussianPointCloud,
    k: int,
    m: int,
)
    requires
        !before.is_compressed(),
        before.num_points <= 0x1_0000_0000,
        compressed_from(before, values, after),
        0 <= k < before.num_points,
        0 <= m < 48,
    ensures
        after.is_compressed(),
        after.num_points == before.num_points,
        after.position(k) == before.position(k),
        after.compressed_splat(k).opacity == values.opacities@[k],
        after.compressed_splat(k).scale_factor == 0,
        after.sh_bytes().len() == 48 * before.num_points,
        ({
            let v = if m < 3 {
                values.dc_values@[3 * k + m]
            } else {
                values.rest_values@[45 * k + m - 3]
            };
            after.sh_bytes()[48 * after.compressed_splat(k).sh_idx + m] == if v < 0 {
                v + 256
            } else {
                v as int
            }
        }),
        after.covars matches Some(covars) && covars@.len() == before.num_points
            && covars@[after.compressed_splat(k).geometry_idx as int].0@ == before.splat(k).cov,
        after.quantization == Some(values.quantization),
        after.sh_deg == before.sh_deg && after.kernel_size == before.kernel_size
            && after.mip_splatting == before.mip_splatting && after.background_color
            == before.background_color && after.up == before.up && after.center == before.center
            && after.aabb == before.aabb && after.embedded_camera == before.embedded_camera,
{
    crate::cloud::compression_keeps_geometry(before, values, after, k);
    let g = before.splat(k);
    let c = after.compressed_splat(k);
    assert(c == crate::cloud::compressed_form(g, values.opacities@[k], k));
    assert(c.sh_idx == k && c.opacity == values.opacities@[k] && c.scale_factor == 0);
    let b = 48 * k + m;
    assert(b / 48 == k && b % 48 == m);
}

/// The distance between the splats that a downsampling keeps is the least with
/// which they are not too many, and what it keeps reaches to the cloud's end.
pub proof fn downsampling_is_as_dense_as_allowed(num_points: int, max_points: int)
    requires
        0 < max_points < num_points,
    ensures
        ({
            let step = downsample_step(num_points, max_points);
            let count = downsample_count(num_points, max_points);
            &&& num_points <= step * max_points < num_points + max_points
            &&& num_points <= count * step < num_points + step
        }),
        downsample_count(num_points, 0) == 0,
{
    downsample_fits(num_points, max_points);
    ceil_div_bounds(num_points, max_points);
    ceil_div_bounds(num_points, downsample_step(num_points, max_points));
}

/// A downsampling with the least step that is large enough keeps the splats at the
/// multiples of it, all there are, with their colours and covariances.
pub proof fn downsampling_keeps_multiples(
    before: GenericGaussianPointCloud,
    max_points: int,
    after: GenericGaussianPointCloud,
    step: int,
    k: int,
    h: int,
)
    requires
        before.wf(),
        after.wf(),
        0 < max_points < before.num_points,
        downsampled_from(before, max_points, after),
        before.num_points <= step * max_points < before.num_points + max_points,
        0 <= k < after.num_points,
        0 <= h < 48,
    ensures
        after.num_points <= max_points,
        before.num_points <= after.num_points * step < before.num_points + step,
        0 <= k * step < before.num_points,
        after.is_compressed() == before.is_compressed(),
        after.position(k) == before.position(k * step),
        !before.is_compressed() ==> after.splat(k) == before.splat(k * step),
        before.is_compressed() ==> after.compressed_splat(k) == before.compressed_splat(k * step),
        !before.is_compressed() ==> half_at(after.sh_bytes(), 48 * k + h) == half_at(
            before.sh_bytes(),
            48 * (k * step) + h,
        ),
        before.is_compressed() ==> after.sh_bytes() == before.sh_bytes(),
        after.quantization == before.quantization,
        after.sh_deg == before.sh_deg && after.kernel_size == before.kernel_size
            && after.mip_splatting == before.mip_splatting && after.background_color
            == before.background_color && after.up == before.up && after.embedded_camera
            == before.embedded_camera,
{
    let n = before.num_points as int;
    let least = downsample_step(n, max_points);
    downsampling_is_as_dense_as_allowed(n, max_points);
    assert(step == least) by (nonlinear_arith)
        requires
            n <= step * max_points < n + max_points,
            n <= least * max_points < n + max_points,
            0 < max_points,
    ;
    downsample_fits(n, max_points);
    crate::cloud::downsampling_keeps_splats(before, max_points, after, k, h);
}

/// A downsampling keeps the covariances at the multiples of the step, all there
/// are; none where no splat may be left.
pub proof fn downsampling_keeps_covariances(
    before: GenericGaussianPointCloud,
    max_points: int,
    after: GenericGaussianPointCloud,
    step: int,
    k: int,
)
    requires
        0 <= max_points < before.num_points,
        downsampled_from(before, max_points, after),
        max_points == 0 || before.num_points <= step * max_points < before.num_points + max_points,
    ensures
        after.covars is Some <==> before.covars is Some,
        max_points == 0 ==> (after.covars matches Some(kept) ==> kept@.len() == 0),
        max_points == 0 ==> after.num_points == 0,
        max_points > 0 ==> match (before.covars, after.covars) {
            (Some(all), Some(kept)) => {
                &&& all@.len() <= kept@.len() * step < all@.len() + step
                &&& 0 <= k < kept@.len() ==> kept@[k] == all@[k * step]
            },
            (None, None) => true,
            _ => false,
        },
{
    let n = before.num_points as int;
    if max_points > 0 {
        let least = downsample_step(n, max_points);
        downsampling_is_as_dense_as_allowed(n, max_points);
        assert(step == least) by (nonlinear_arith)
            requires
                n <= step * max_points < n + max_points,
                n <= least * max_points < n + max_points,
                0 < max_points,
        ;
        downsample_fits(n, max_points);
        if let Some(all) = before.covars {
            ceil_div_bounds(all@.len() as int, step);
        }
    }
}

/// The indices of a compressed splat count the splats, as far as 32 bits do.
pub proof fn indices_count_splats(
    before: GenericGaussianPointCloud,
    values: QuantizedValues,
    after: GenericGaussianPointCloud,
    k: int,
)
    requires
        compressed_from(before, values, after),
        0 <= k < before.num_points,
    ensures
        (k - after.compressed_splat(k).geometry_idx) % 0x1_0000_0000 == 0,
        (k - after.compressed_splat(k).sh_idx) % 0x1_0000_0000 == 0,
{
    let g = before.splat(k);
    let c = after.compressed_splat(k);
    assert(c == crate::cloud::compressed_form(g, values.opacities@[k], k));
    assert(c.geometry_idx == k % 0x1_0000_0000 && c.sh_idx == k % 0x1_0000_0000);
}

/// A number of half precision lies at twice its place.
pub proof fn halves_follow_one_another(bytes: Seq<u8>, h: int)
    ensures
        half_at(bytes, h) == two_bytes(bytes, 2 * h),
{
}

/// What a box and a centre have to do with each point that they were made for, a cloud's
/// have to do with each of its splats.
pub proof fn bounds_see_every_splat<F: Fn(Vec<[u32; 3]>) -> (Aabb, [u32; 3])>(
    cloud: GenericGaussianPointCloud,
    bound: F,
    fits: spec_fn(Seq<u32>, (Aabb, [u32; 3])) -> bool,
    k: int,
)
    requires
        cloud.bounded_by(bound),
        forall|points: Vec<[u32; 3]>, r: (Aabb, [u32; 3]), i: int| #[trigger]
            call_ensures(bound, (points,), r) && 0 <= i < points@.len() ==> fits(
                (#[trigger] points@[i])@,
                r,
            ),
        0 <= k < cloud.num_points,
    ensures
        fits(cloud.position(k), (cloud.aabb, cloud.center)),
{
    let points = choose|points: Vec<[u32; 3]>|
        {
            &&& #[trigger] call_ensures(bound, (points,), (cloud.aabb, cloud.center))
            &&& points@.len() == cloud.num_points
            &&& forall|i: int|
                0 <= i < cloud.num_points ==> (#[trigger] points@[i])@ == cloud.position(i)
        };
    assert(points@[k]@ == cloud.position(k));
}

/// The box and the centre are made for as many points as there are splats.
pub proof fn bounds_see_no_other_point<F: Fn(Vec<[u32; 3]>) -> (Aabb, [u32; 3])>(
    cloud: GenericGaussianPointCloud,
    bound: F,
    fits: spec_fn(nat, (Aabb, [u32; 3])) -> bool,
)
    requires
        cloud.bounded_by(bound),
        forall|points: Vec<[u32; 3]>, r: (Aabb, [u32; 3])| #[trigger]
            call_ensures(bound, (points,), r) ==> fits(points@.len(), r),
    ensures
        fits(cloud.num_points as nat, (cloud.aabb, cloud.center)),
{
}

} // verus!
