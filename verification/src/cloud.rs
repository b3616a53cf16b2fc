//! Point clouds of splats, in the form that is uploaded to the renderer.
use crate::bytes::{
    byte_of, bytes_of_signed, from_le16, join_records, put_range, record, split_records,
};
use crate::ply::EmbeddedCamera;
use crate::splat::{
    compressed_at, compressed_reads_back, compressed_record, gaussian_at, gaussian_reads_back,
    gaussian_record, sh_reads_back, sh_record, sh_to_record, sh_value, CompressedData,
    Covariance3D, Gaussian, GaussianCompressed, GaussianData, GaussianQuantization,
    COMPRESSED_SIZE, GAUSSIAN_SIZE, SH_SIZE,
};
use vstd::prelude::*;

verus! {

/// An axis-aligned box; the corners are bit patterns of single-precision numbers.
#[derive(Debug, Clone, Copy, PartialEq, Eq)]
pub struct Aabb {
    pub min: [u32; 3],
    pub max: [u32; 3],
}

/// Where a point cloud lies: its box, its centre and, where one is clear, its
/// upward direction.
#[derive(Debug, Clone, Copy, PartialEq, Eq)]
pub struct Bounds {
    pub aabb: Aabb,
    pub center: [u32; 3],
    pub up: Option<[u32; 3]>,
}

/// Why a point cloud's splats cannot be handed out.
#[derive(Debug, Clone, Copy, PartialEq, Eq, Structural)]
pub enum CloudError {
    /// The splats are compressed.
    Compressed,
}

/// Information about downsampling that was applied to a point cloud.
#[derive(Debug, Clone, Copy, PartialEq, Eq, Structural)]
pub struct DownsampleInfo {
    pub original_count: usize,
    pub final_count: usize,
}

/// The values that a compression quantizes, as half-precision bit patterns.
#[derive(Debug, Clone, PartialEq, Eq)]
pub struct QuantizationInputs {
    /// One value for each splat.
    pub opacities: Vec<u16>,
    /// The channels of each splat's first coefficient.
    pub dc_values: Vec<u16>,
    /// The channels of each splat's other coefficients.
    pub rest_values: Vec<u16>,
}

/// The quantized form of [`QuantizationInputs`], value for value.
#[derive(Debug, Clone, PartialEq, Eq)]
pub struct QuantizedValues {
    pub opacities: Vec<i8>,
    pub dc_values: Vec<i8>,
    pub rest_values: Vec<i8>,
    pub quantization: GaussianQuantization,
}

/// The buffers of a point cloud.
pub struct SplatBuffers {
    gaussians: Vec<u8>,
    sh_coefs: Vec<u8>,
    compressed: bool,
}

impl SplatBuffers {
    /// The bytes of the splats.
    pub closed spec fn gaussian_bytes(&self) -> Seq<u8> {
        self.gaussians@
    }

    /// The bytes of the colour coefficients.
    pub closed spec fn sh_bytes(&self) -> Seq<u8> {
        self.sh_coefs@
    }

    /// Whether the splats are compressed.
    pub closed spec fn is_compressed(&self) -> bool {
        self.compressed
    }
}

/// A point cloud.
pub struct GenericGaussianPointCloud {
    pub buffers: SplatBuffers,
    pub covars: Option<Vec<Covariance3D>>,
    pub quantization: Option<GaussianQuantization>,
    pub sh_deg: u32,
    pub num_points: usize,
    /// Bit pattern of a single-precision number.
    pub kernel_size: Option<u32>,
    pub mip_splatting: Option<bool>,
    /// Bit patterns of single-precision numbers.
    pub background_color: Option<[u32; 3]>,
    pub up: Option<[u32; 3]>,
    pub center: [u32; 3],
    pub aabb: Aabb,
    pub embedded_camera: Option<EmbeddedCamera>,
}

/// `n / d`, rounded up.
pub open spec fn ceil_div(n: int, d: int) -> int {
    (n + d - 1) / d
}

/// Every `step`-th item, starting with the first.
pub open spec fn every_nth<T>(s: Seq<T>, step: int) -> Seq<T> {
    Seq::new(ceil_div(s.len() as int, step) as nat, |k: int| s[k * step])
}

/// The distance between the splats that a downsampling to `max_points` keeps.
pub open spec fn downsample_step(num_points: int, max_points: int) -> int {
    ceil_div(num_points, max_points)
}

/// The number of splats that a downsampling to `max_points` keeps.
pub open spec fn downsample_count(num_points: int, max_points: int) -> int {
    if max_points == 0 {
        0
    } else {
        ceil_div(num_points, downsample_step(num_points, max_points))
    }
}

/// What rounding up a quotient means.
pub proof fn ceil_div_bounds(n: int, d: int)
    requires
        n >= 0,
        d > 0,
    ensures
        0 <= ceil_div(n, d) <= n,
        n <= ceil_div(n, d) * d < n + d,
        n > 0 ==> ceil_div(n, d) > 0,
{
    let q = ceil_div(n, d);
    vstd::arithmetic::div_mod::lemma_fundamental_div_mod(n + d - 1, d);
    let r = (n + d - 1) % d;
    assert(d * q == q * d) by (nonlinear_arith);
    assert(q >= 0) by (nonlinear_arith)
        requires
            q * d > -d + n,
            n >= 0,
            d > 0,
    ;
    assert(q <= n) by (nonlinear_arith)
        requires
            q * d < n + d,
            n >= 0,
            d > 0,
    ;
    if n > 0 {
        assert(q > 0) by (nonlinear_arith)
            requires
                q * d >= n,
                n > 0,
                d > 0,
        ;
    }
}

/// A downsampling keeps at most `max_points` splats, at least one where it may,
/// and each kept one is a splat of the cloud.
pub proof fn downsample_fits(num_points: int, max_points: int)
    requires
        0 <= max_points < num_points,
    ensures
        0 < max_points ==> downsample_step(num_points, max_points) >= 2,
        0 < max_points ==> 0 < downsample_count(num_points, max_points),
        0 <= downsample_count(num_points, max_points) <= max_points,
        forall|k: int|
            0 <= k < downsample_count(num_points, max_points) ==> 0 <= #[trigger] (k
                * downsample_step(num_points, max_points)) < num_points,
{
    if max_points > 0 {
        let step = downsample_step(num_points, max_points);
        ceil_div_bounds(num_points, max_points);
        assert(step >= 2) by (nonlinear_arith)
            requires
                step * max_points >= num_points,
                num_points > max_points,
                max_points > 0,
        ;
        let count = downsample_count(num_points, max_points);
        ceil_div_bounds(num_points, step);
        assert(count <= max_points) by (nonlinear_arith)
            requires
                count * step < num_points + step,
                num_points <= step * max_points,
                step > 0,
        ;
        assert forall|k: int| 0 <= k < count implies 0 <= #[trigger] (k * step) < num_points by {
            assert(0 <= k * step <= (count - 1) * step) by (nonlinear_arith)
                requires
                    0 <= k <= count - 1,
                    step > 0,
            ;
            assert((count - 1) * step == count * step - step) by (nonlinear_arith);
        }
    }
}

/// `n / d`, rounded up.
fn div_ceil(n: usize, d: usize) -> (q: usize)
    requires
        d > 0,
    ensures
        q == ceil_div(n as int, d as int),
{
    let q: usize = n / d;
    proof {
        vstd::arithmetic::div_mod::lemma_fundamental_div_mod(n as int, d as int);
        let r = n as int % d as int;
        assert(d * q == q * d) by (nonlinear_arith);
        if r == 0 {
            assert(ceil_div(n as int, d as int) == q) by {
                vstd::arithmetic::div_mod::lemma_fundamental_div_mod_converse(
                    n + d - 1,
                    d as int,
                    q as int,
                    d - 1,
                );
            }
        } else {
            assert(d * (q + 1) == d * q + d) by (nonlinear_arith);
            vstd::arithmetic::div_mod::lemma_fundamental_div_mod_converse(
                n + d - 1,
                d as int,
                q + 1,
                r - 1,
            );
            assert(q < n) by (nonlinear_arith)
                requires
                    n == d * q + r,
                    r > 0,
                    d > 0,
                    q >= 0,
            ;
        }
    }
    if n % d == 0 {
        q
    } else {
        q + 1
    }
}

/// Every `step`-th item, starting with the first.
fn step_by<T: Copy>(items: &Vec<T>, step: usize) -> (kept: Vec<T>)
    requires
        step > 0,
    ensures
        kept@ == every_nth(items@, step as int),
{
    let count: usize = div_ceil(items.len(), step);
    let mut kept: Vec<T> = Vec::new();
    let mut k: usize = 0;
    while k < count
        invariant
            step > 0,
            count == ceil_div(items@.len() as int, step as int),
            k <= count,
            kept@.len() == k,
            forall|j: int| 0 <= j < k ==> #[trigger] kept@[j] == items@[j * step],
        decreases count - k,
    {
        proof {
            ceil_div_bounds(items@.len() as int, step as int);
            assert(0 <= k * step < items@.len()) by (nonlinear_arith)
                requires
                    0 <= k <= count - 1,
                    count * step < items@.len() + step,
                    step > 0,
            ;
        }
        assert(k * step < items.len());
        kept.push(items[k * step]);
        k += 1;
    }
    assert(kept@ =~= every_nth(items@, step as int));
    kept
}

/// Where the `k`-th of `n` records lies.
proof fn record_bounds(n: int, size: int, k: int)
    requires
        0 <= k < n,
        size > 0,
    ensures
        0 <= k * size,
        (k + 1) * size == k * size + size,
        (k + 1) * size <= n * size,
{
    assert(0 <= k * size && (k + 1) * size == k * size + size && (k + 1) * size <= n * size)
        by (nonlinear_arith)
        requires
            0 <= k < n,
            size > 0,
    ;
}

/// The first `count` of every `step`-th record.
fn step_by_records(
    source: &Vec<u8>,
    size: usize,
    n: usize,
    step: usize,
    count: usize,
) -> (kept: Vec<u8>)
    requires
        size > 0,
        source@.len() == n * size,
        forall|k: int| 0 <= k < count ==> 0 <= #[trigger] (k * step) < n,
    ensures
        kept@.len() == count * size,
        forall|k: int|
            0 <= k < count ==> #[trigger] record(kept@, size as int, k) == record(
                source@,
                size as int,
                k * step,
            ),
{
    let mut kept: Vec<u8> = Vec::new();
    let mut k: usize = 0;
    let len: usize = source.len();
    while k < count
        invariant
            size > 0,
            len == source@.len() == n * size,
            k <= count,
            forall|j: int| 0 <= j < count ==> 0 <= #[trigger] (j * step) < n,
            kept@.len() == k * size,
            forall|j: int|
                0 <= j < k ==> #[trigger] record(kept@, size as int, j) == record(
                    source@,
                    size as int,
                    j * step,
                ),
        decreases count - k,
    {
        let ghost before = kept@;
        proof {
            assert(0 <= k as int * step as int && k * step < n);
            record_bounds(n as int, size as int, k * step);
            assert((k * step) * size + size <= len);
        }
        let at: usize = k * step * size;
        put_range(&mut kept, source.as_slice(), at, at + size);
        proof {
            assert((k + 1) * size == k * size + size) by (nonlinear_arith);
            assert forall|j: int| 0 <= j < k + 1 implies #[trigger] record(
                kept@,
                size as int,
                j,
            ) == record(source@, size as int, j * step) by {
                record_bounds(k + 1, size as int, j);
                if j < k {
                    record_bounds(k as int, size as int, j);
                    assert(record(kept@, size as int, j) =~= record(before, size as int, j));
                } else {
                    assert(record(kept@, size as int, j) =~= record(
                        source@,
                        size as int,
                        k * step,
                    ));
                }
            }
        }
        k += 1;
    }
    kept
}

/// The half-precision number at half-word `h`.
pub open spec fn half_at(bytes: Seq<u8>, h: int) -> u16 {
    from_le16(bytes, 2 * h)
}

impl GenericGaussianPointCloud {
    /// The bytes of the splats.
    pub open spec fn gaussian_bytes(&self) -> Seq<u8> {
        self.buffers.gaussian_bytes()
    }

    /// The bytes of the colour coefficients.
    pub open spec fn sh_bytes(&self) -> Seq<u8> {
        self.buffers.sh_bytes()
    }

    /// Whether the splats are compressed.
    pub open spec fn is_compressed(&self) -> bool {
        self.buffers.is_compressed()
    }

    /// The bytes of one splat.
    pub open spec fn splat_size(&self) -> int {
        if self.is_compressed() {
            24
        } else {
            28
        }
    }

    /// The buffers hold `num_points` splats, and, uncompressed, the
    /// coefficients of each.
    pub open spec fn wf(&self) -> bool {
        if self.is_compressed() {
            self.gaussian_bytes().len() == self.num_points * 24
        } else {
            &&& self.gaussian_bytes().len() == self.num_points * 28
            &&& self.sh_bytes().len() == self.num_points * 96
        }
    }

    /// The `k`-th splat of an uncompressed cloud.
    pub open spec fn splat(&self, k: int) -> GaussianData {
        gaussian_at(record(self.gaussian_bytes(), 28, k))
    }

    /// The `k`-th splat of a compressed cloud.
    pub open spec fn compressed_splat(&self, k: int) -> CompressedData {
        compressed_at(record(self.gaussian_bytes(), 24, k))
    }

    /// Where the `k`-th splat lies.
    pub open spec fn position(&self, k: int) -> Seq<u32> {
        if self.is_compressed() {
            self.compressed_splat(k).xyz
        } else {
            self.splat(k).xyz
        }
    }

    /// What neither downsampling nor compression touches.
    pub open spec fn same_setting(&self, other: &Self) -> bool {
        &&& self.sh_deg == other.sh_deg
        &&& self.kernel_size == other.kernel_size
        &&& self.mip_splatting == other.mip_splatting
        &&& self.background_color == other.background_color
        &&& self.up == other.up
        &&& self.embedded_camera == other.embedded_camera
    }

    /// A cloud of uncompressed splats with their coefficients.
    pub fn new(
        gaussians: Vec<Gaussian>,
        sh_coefs: Vec<[[u16; 3]; 16]>,
        sh_deg: u32,
        num_points: usize,
        kernel_size: Option<u32>,
        mip_splatting: Option<bool>,
        background_color: Option<[u32; 3]>,
        covars: Option<Vec<Covariance3D>>,
        quantization: Option<GaussianQuantization>,
        embedded_camera: Option<EmbeddedCamera>,
        bounds: Bounds,
    ) -> (cloud: Self)
        requires
            gaussians@.len() == num_points,
            sh_coefs@.len() == num_points,
        ensures
            cloud.wf(),
            !cloud.is_compressed(),
            cloud.num_points == num_points,
            forall|k: int| 0 <= k < num_points ==> #[trigger] cloud.splat(k) == gaussians@[k]@,
            forall|k: int|
                0 <= k < num_points ==> #[trigger] record(
                    cloud.gaussian_bytes(),
                    28,
                    k,
                ) == gaussian_record(gaussians@[k]@),
            forall|k: int|
                0 <= k < num_points ==> #[trigger] record(cloud.sh_bytes(), 96, k)
                    == sh_record(sh_coefs@[k]@),
            cloud.sh_deg == sh_deg,
            cloud.kernel_size == kernel_size,
            cloud.mip_splatting == mip_splatting,
            cloud.background_color == background_color,
            cloud.covars == covars,
            cloud.quantization == quantization,
            cloud.embedded_camera == embedded_camera,
            cloud.up == bounds.up,
            cloud.center == bounds.center,
            cloud.aabb == bounds.aabb,
    {
        let mut records: Vec<[u8; 28]> = Vec::new();
        let mut sh_records: Vec<[u8; 96]> = Vec::new();
        let mut i: usize = 0;
        while i < num_points
            invariant
                i <= num_points,
                gaussians@.len() == num_points,
                sh_coefs@.len() == num_points,
                records@.len() == i,
                sh_records@.len() == i,
                forall|k: int|
                    0 <= k < i ==> (#[trigger] records@[k])@ == gaussian_record(gaussians@[k]@),
                forall|k: int|
                    0 <= k < i ==> (#[trigger] sh_records@[k])@ == sh_record(sh_coefs@[k]@),
            decreases num_points - i,
        {
            records.push(gaussians[i].to_record());
            sh_records.push(sh_to_record(&sh_coefs[i]));
            i += 1;
        }
        let cloud = GenericGaussianPointCloud {
            buffers: SplatBuffers {
                gaussians: join_records(records.as_slice()),
                sh_coefs: join_records(sh_records.as_slice()),
                compressed: false,
            },
            covars,
            quantization,
            sh_deg,
            num_points,
            kernel_size,
            mip_splatting,
            background_color,
            up: bounds.up,
            center: bounds.center,
            aabb: bounds.aabb,
            embedded_camera,
        };
        proof {
            assert forall|k: int| 0 <= k < num_points implies #[trigger] record(
                cloud.gaussian_bytes(),
                28,
                k,
            ) == gaussian_record(gaussians@[k]@) by {
                assert(records@[k]@ == gaussian_record(gaussians@[k]@));
            }
            assert forall|k: int| 0 <= k < num_points implies #[trigger] record(
                cloud.sh_bytes(),
                96,
                k,
            ) == sh_record(sh_coefs@[k]@) by {
                assert(sh_records@[k]@ == sh_record(sh_coefs@[k]@));
            }
            assert forall|k: int| 0 <= k < num_points implies #[trigger] cloud.splat(k)
                == gaussians@[k]@ by {
                assert(record(cloud.gaussian_bytes(), 28, k) == gaussian_record(
                    gaussians@[k]@,
                ));
                gaussian_reads_back(gaussians@[k]@);
            }
        }
        cloud
    }

    /// A cloud of compressed splats; the coefficients are shared by index.
    pub fn new_compressed(
        gaussians: Vec<GaussianCompressed>,
        sh_coefs: Vec<u8>,
        sh_deg: u32,
        num_points: usize,
        kernel_size: Option<u32>,
        mip_splatting: Option<bool>,
        background_color: Option<[u32; 3]>,
        covars: Option<Vec<Covariance3D>>,
        quantization: Option<GaussianQuantization>,
        bounds: Bounds,
    ) -> (cloud: Self)
        requires
            gaussians@.len() == num_points,
        ensures
            cloud.wf(),
            cloud.is_compressed(),
            cloud.num_points == num_points,
            forall|k: int|
                0 <= k < num_points ==> #[trigger] cloud.compressed_splat(k) == gaussians@[k]@,
            forall|k: int|
                0 <= k < num_points ==> #[trigger] record(
                    cloud.gaussian_bytes(),
                    24,
                    k,
                ) == compressed_record(gaussians@[k]@),
            cloud.sh_bytes() == sh_coefs@,
            cloud.sh_deg == sh_deg,
            cloud.kernel_size == kernel_size,
            cloud.mip_splatting == mip_splatting,
            cloud.background_color == background_color,
            cloud.covars == covars,
            cloud.quantization == quantization,
            cloud.embedded_camera is None,
            cloud.up == bounds.up,
            cloud.center == bounds.center,
            cloud.aabb == bounds.aabb,
    {
        let cloud = GenericGaussianPointCloud {
            buffers: SplatBuffers {
                gaussians: compressed_buffer(&gaussians),
                sh_coefs,
                compressed: true,
            },
            covars,
            quantization,
            sh_deg,
            num_points,
            kernel_size,
            mip_splatting,
            background_color,
            up: bounds.up,
            center: bounds.center,
            aabb: bounds.aabb,
            embedded_camera: None,
        };
        assert forall|k: int| 0 <= k < num_points implies #[trigger] cloud.compressed_splat(k)
            == gaussians@[k]@ by {
            assert(record(cloud.gaussian_bytes(), 24, k) == compressed_record(
                gaussians@[k]@,
            ));
            compressed_reads_back(gaussians@[k]@);
        }
        cloud
    }

    /// The splats, unless they are compressed.
    pub fn gaussians(&self) -> (r: Result<Vec<Gaussian>, CloudError>)
        requires
            self.is_compressed() || self.gaussian_bytes().len() % 28 == 0,
        ensures
            r is Err <==> self.is_compressed(),
            r matches Err(e) ==> e == CloudError::Compressed,
            r matches Ok(splats) ==> {
                &&& splats@.len() * 28 == self.gaussian_bytes().len()
                &&& forall|k: int|
                    0 <= k < splats@.len() ==> (#[trigger] splats@[k])@ == self.splat(k)
            },
    {
        if self.buffers.compressed {
            return Err(CloudError::Compressed);
        }
        let records = split_records::<28>(self.buffers.gaussians.as_slice());
        let mut splats: Vec<Gaussian> = Vec::new();
        let mut i: usize = 0;
        while i < records.len()
            invariant
                i <= records@.len(),
                splats@.len() == i,
                forall|k: int|
                    0 <= k < records@.len() ==> (#[trigger] records@[k])@ == record(
                        self.gaussian_bytes(),
                        28,
                        k,
                    ),
                forall|k: int| 0 <= k < i ==> (#[trigger] splats@[k])@ == self.splat(k),
            decreases records@.len() - i,
        {
            splats.push(Gaussian::from_record(&records[i]));
            i += 1;
        }
        Ok(splats)
    }

    /// The buffer read as compressed splats, unless the splats are compressed.
    pub fn gaussians_compressed(&self) -> (r: Result<Vec<GaussianCompressed>, CloudError>)
        requires
            self.is_compressed() || self.gaussian_bytes().len() % 24 == 0,
        ensures
            r is Err <==> self.is_compressed(),
            r matches Err(e) ==> e == CloudError::Compressed,
            r matches Ok(splats) ==> {
                &&& splats@.len() * 24 == self.gaussian_bytes().len()
                &&& forall|k: int|
                    0 <= k < splats@.len() ==> (#[trigger] splats@[k])@ == self.compressed_splat(k)
            },
    {
        if self.buffers.compressed {
            return Err(CloudError::Compressed);
        }
        Ok(self.read_compressed())
    }

    /// The buffer read as compressed splats.
    fn read_compressed(&self) -> (splats: Vec<GaussianCompressed>)
        requires
            self.gaussian_bytes().len() % 24 == 0,
        ensures
            splats@.len() * 24 == self.gaussian_bytes().len(),
            forall|k: int|
                0 <= k < splats@.len() ==> (#[trigger] splats@[k])@ == self.compressed_splat(k),
    {
        let records = split_records::<24>(self.buffers.gaussians.as_slice());
        let mut splats: Vec<GaussianCompressed> = Vec::new();
        let mut i: usize = 0;
        while i < records.len()
            invariant
                i <= records@.len(),
                splats@.len() == i,
                forall|k: int|
                    0 <= k < records@.len() ==> (#[trigger] records@[k])@ == record(
                        self.gaussian_bytes(),
                        24,
                        k,
                    ),
                forall|k: int| 0 <= k < i ==> (#[trigger] splats@[k])@ == self.compressed_splat(k),
            decreases records@.len() - i,
        {
            splats.push(GaussianCompressed::from_record(&records[i]));
            i += 1;
        }
        splats
    }

    /// The bytes of the colour coefficients.
    pub fn sh_coefs_buffer(&self) -> (bytes: &[u8])
        ensures
            bytes@ == self.sh_bytes(),
    {
        self.buffers.sh_coefs.as_slice()
    }

    /// The bytes of the splats.
    pub fn gaussian_buffer(&self) -> (bytes: &[u8])
        ensures
            bytes@ == self.gaussian_bytes(),
    {
        self.buffers.gaussians.as_slice()
    }

    /// Whether the splats are compressed.
    pub fn compressed(&self) -> (r: bool)
        ensures
            r == self.is_compressed(),
    {
        self.buffers.compressed
    }

    /// Information about downsampling that was applied.
    pub fn downsample_info(&self, original_count: usize) -> (info: Option<DownsampleInfo>)
        ensures
            info == (if original_count > self.num_points {
                Some((DownsampleInfo { original_count, final_count: self.num_points }))
            } else {
                None
            }),
    {
        if original_count > self.num_points {
            Some(DownsampleInfo { original_count, final_count: self.num_points })
        } else {
            None
        }
    }

    /// Downsamples the point cloud to at most `max_points`, keeping every n-th
    /// splat. Returns the original point count if downsampling occurred; the box
    /// and the centre are then those that `bound` gives for the splats that are
    /// left.
    pub fn downsample<F: Fn(Vec<[u32; 3]>) -> (Aabb, [u32; 3])>(
        &mut self,
        max_points: usize,
        bound: F,
    ) -> (original: Option<usize>)
        requires
            old(self).wf(),
            forall|points: Vec<[u32; 3]>| #[trigger] call_requires(bound, (points,)),
        ensures
            final(self).wf(),
            final(self).num_points <= max_points,
            original == (if old(self).num_points <= max_points {
                None
            } else {
                Some(old(self).num_points)
            }),
            original is None ==> *final(self) == *old(self),
            original is Some ==> downsampled_from(*old(self), max_points as int, *final(self)),
            original is Some ==> final(self).bounded_by(bound),
    {
        let original: Option<usize> = self.keep_every_nth(max_points);
        if original.is_some() {
            let ghost kept = *self;
            self.recalculate_bounds(bound);
            proof {
                assert(downsampled_from(*old(self), max_points as int, kept));
            }
        }
        original
    }

    /// Downsamples the splats, the colours and the covariances.
    fn keep_every_nth(&mut self, max_points: usize) -> (original: Option<usize>)
        requires
            old(self).wf(),
        ensures
            final(self).wf(),
            final(self).num_points <= max_points,
            original == (if old(self).num_points <= max_points {
                None
            } else {
                Some(old(self).num_points)
            }),
            original is None ==> *final(self) == *old(self),
            original is Some ==> downsampled_from(*old(self), max_points as int, *final(self)),
    {
        if self.num_points <= max_points {
            return None;
        }
        let original_count: usize = self.num_points;
        proof {
            downsample_fits(self.num_points as int, max_points as int);
        }
        if max_points == 0 {
            self.buffers.gaussians = Vec::new();
            if !self.buffers.compressed {
                self.buffers.sh_coefs = Vec::new();
            }
            if self.covars.is_some() {
                self.covars = Some(Vec::new());
            }
            self.num_points = 0;
            return Some(original_count);
        }
        let step: usize = div_ceil(self.num_points, max_points);
        let new_count: usize = div_ceil(self.num_points, step);
        if self.buffers.compressed {
            self.buffers.gaussians =
            step_by_records(&self.buffers.gaussians, COMPRESSED_SIZE, original_count, step, new_count);
        } else {
            self.buffers.gaussians =
            step_by_records(&self.buffers.gaussians, GAUSSIAN_SIZE, original_count, step, new_count);
            self.buffers.sh_coefs =
            step_by_records(&self.buffers.sh_coefs, SH_SIZE, original_count, step, new_count);
        }
        let new_covars: Option<Vec<Covariance3D>> = match &self.covars {
            Some(covars) => Some(step_by(covars, step)),
            None => None,
        };
        self.covars = new_covars;
        self.num_points = new_count;
        Some(original_count)
    }

    /// Where the splats lie, for the caller to bound them.
    pub fn positions(&self) -> (points: Vec<[u32; 3]>)
        requires
            self.wf(),
        ensures
            points@.len() == self.num_points,
            forall|k: int| 0 <= k < points@.len() ==> (#[trigger] points@[k])@ == self.position(k),
    {
        let mut points: Vec<[u32; 3]> = Vec::new();
        let mut i: usize = 0;
        if self.buffers.compressed {
            proof {
                vstd::arithmetic::div_mod::lemma_mod_multiples_basic(self.num_points as int, 24);
            }
            let splats = self.read_compressed();
            while i < splats.len()
                invariant
                    self.is_compressed(),
                    i <= splats@.len() == self.num_points,
                    points@.len() == i,
                    forall|k: int|
                        0 <= k < splats@.len() ==> (#[trigger] splats@[k])@
                            == self.compressed_splat(k),
                    forall|k: int| 0 <= k < i ==> (#[trigger] points@[k])@ == self.position(k),
                decreases splats@.len() - i,
            {
                assert(splats@[i as int]@.xyz == self.position(i as int));
                points.push(splats[i].xyz);
                i += 1;
            }
        } else {
            match self.gaussians() {
                Ok(splats) => {
                    while i < splats.len()
                        invariant
                            !self.is_compressed(),
                            i <= splats@.len() == self.num_points,
                            points@.len() == i,
                            forall|k: int|
                                0 <= k < splats@.len() ==> (#[trigger] splats@[k])@ == self.splat(
                                    k,
                                ),
                            forall|k: int|
                                0 <= k < i ==> (#[trigger] points@[k])@ == self.position(k),
                        decreases splats@.len() - i,
                    {
                        assert(splats@[i as int]@.xyz == self.position(i as int));
                        points.push(splats[i].xyz);
                        i += 1;
                    }
                },
                Err(_) => {},
            }
        }
        points
    }

    /// Whether the box and the centre are what `bound` gives for the places of the
    /// splats.
    pub open spec fn bounded_by<F: Fn(Vec<[u32; 3]>) -> (Aabb, [u32; 3])>(&self, bound: F) -> bool {
        exists|points: Vec<[u32; 3]>|
            {
                &&& #[trigger] call_ensures(bound, (points,), (self.aabb, self.center))
                &&& points@.len() == self.num_points
                &&& forall|k: int|
                    0 <= k < self.num_points ==> (#[trigger] points@[k])@ == self.position(k)
            }
    }

    /// Takes the box and the centre that `bound` gives for the places of the splats.
    pub fn recalculate_bounds<F: Fn(Vec<[u32; 3]>) -> (Aabb, [u32; 3])>(&mut self, bound: F)
        requires
            old(self).wf(),
            forall|points: Vec<[u32; 3]>| #[trigger] call_requires(bound, (points,)),
        ensures
            final(self).bounded_by(bound),
            *final(self) == (GenericGaussianPointCloud {
                aabb: final(self).aabb,
                center: final(self).center,
                ..*old(self)
            }),
    {
        let points: Vec<[u32; 3]> = self.positions();
        let ghost places = points;
        let (aabb, center) = bound(points);
        self.aabb = aabb;
        self.center = center;
        proof {
            assert(call_ensures(bound, (places,), (self.aabb, self.center)));
            assert forall|k: int| 0 <= k < self.num_points implies (#[trigger] places@[k])@
                == self.position(k) by {
                assert(places@[k]@ == old(self).position(k));
            }
        }
    }
}

/// The signed bytes of the coefficients of `n` splats: for each splat the three
/// channels of the first coefficient, then the 45 of the others.
pub open spec fn quantized_sh(dc: Seq<i8>, rest: Seq<i8>, n: int) -> Seq<u8> {
    Seq::new(
        (n * 48) as nat,
        |b: int|
            byte_of(
                if b % 48 < 3 {
                    dc[3 * (b / 48) + b % 48]
                } else {
                    rest[45 * (b / 48) + b % 48 - 3]
                },
            ),
    )
}

/// `after` is `before` downsampled to `max_points`: every n-th splat is left,
/// with its coefficients and, where the cloud keeps them, its covariance.
pub open spec fn downsampled_from(
    before: GenericGaussianPointCloud,
    max_points: int,
    after: GenericGaussianPointCloud,
) -> bool {
    let n = before.num_points as int;
    let step = downsample_step(n, max_points);
    &&& after.same_setting(&before)
    &&& after.quantization == before.quantization
    &&& after.is_compressed() == before.is_compressed()
    &&& after.num_points == downsample_count(n, max_points)
    &&& forall|k: int|
        0 <= k < after.num_points ==> #[trigger] record(
            after.gaussian_bytes(),
            before.splat_size(),
            k,
        ) == record(before.gaussian_bytes(), before.splat_size(), k * step)
    &&& before.is_compressed() ==> after.sh_bytes() == before.sh_bytes()
    &&& !before.is_compressed() ==> forall|k: int|
        0 <= k < after.num_points ==> #[trigger] record(after.sh_bytes(), 96, k) == record(
            before.sh_bytes(),
            96,
            k * step,
        )
    &&& match before.covars {
        Some(covars) => after.covars matches Some(kept) && kept@ == if max_points == 0 {
            Seq::empty()
        } else {
            every_nth(covars@, step)
        },
        None => after.covars is None,
    }
}

/// The `k`-th splat of a compressed cloud, given the splat before compression.
pub open spec fn compressed_form(g: GaussianData, opacity: i8, k: int) -> CompressedData {
    CompressedData {
        xyz: g.xyz,
        opacity,
        scale_factor: 0,
        geometry_idx: (k % 0x1_0000_0000) as u32,
        sh_idx: (k % 0x1_0000_0000) as u32,
    }
}

/// `after` is `before`, compressed with these quantized values.
pub open spec fn compressed_from(
    before: GenericGaussianPointCloud,
    values: QuantizedValues,
    after: GenericGaussianPointCloud,
) -> bool {
    &&& after.same_setting(&before)
    &&& after.center == before.center
    &&& after.aabb == before.aabb
    &&& after.is_compressed()
    &&& after.num_points == before.num_points
    &&& after.quantization == Some(values.quantization)
    &&& forall|k: int|
        0 <= k < before.num_points ==> #[trigger] after.compressed_splat(k) == compressed_form(
            before.splat(k),
            values.opacities@[k],
            k,
        )
    &&& after.covars matches Some(covars) && covars@.len() == before.num_points && forall|k: int|
        0 <= k < before.num_points ==> (#[trigger] covars@[k]).0@ == before.splat(k).cov
    &&& after.sh_bytes() == quantized_sh(
        values.dc_values@,
        values.rest_values@,
        before.num_points as int,
    )
}

impl QuantizedValues {
    /// There is a quantized value for each value of a cloud of `n` splats.
    pub open spec fn covers(&self, n: int) -> bool {
        &&& self.opacities@.len() == n
        &&& self.dc_values@.len() == 3 * n
        &&& self.rest_values@.len() == 45 * n
    }
}

impl GenericGaussianPointCloud {
    /// Whether `inputs` are the values that compressing the cloud quantizes.
    pub open spec fn quantizes(&self, inputs: QuantizationInputs) -> bool {
        &&& inputs.opacities@.len() == self.num_points
        &&& inputs.dc_values@.len() == 3 * self.num_points
        &&& inputs.rest_values@.len() == 45 * self.num_points
        &&& forall|k: int|
            0 <= k < self.num_points ==> #[trigger] inputs.opacities@[k] == self.splat(k).opacity
        &&& forall|m: int|
            0 <= m < 3 * self.num_points ==> #[trigger] inputs.dc_values@[m] == half_at(
                self.sh_bytes(),
                48 * (m / 3) + m % 3,
            )
        &&& forall|m: int|
            0 <= m < 45 * self.num_points ==> #[trigger] inputs.rest_values@[m] == half_at(
                self.sh_bytes(),
                48 * (m / 45) + 3 + m % 45,
            )
    }

    /// The values that a compression of this cloud quantizes: the opacities,
    /// the first colour coefficients and the others.
    pub fn quantization_inputs(&self) -> (inputs: QuantizationInputs)
        requires
            self.wf(),
            !self.is_compressed(),
        ensures
            self.quantizes(inputs),
    {
        let mut opacities: Vec<u16> = Vec::new();
        let mut dc_values: Vec<u16> = Vec::new();
        let mut rest_values: Vec<u16> = Vec::new();
        let gaussian_records = split_records::<28>(self.buffers.gaussians.as_slice());
        let sh_records = split_records::<96>(self.buffers.sh_coefs.as_slice());
        let mut i: usize = 0;
        while i < self.num_points
            invariant
                self.wf(),
                !self.is_compressed(),
                i <= self.num_points,
                gaussian_records@.len() == self.num_points,
                sh_records@.len() == self.num_points,
                forall|k: int|
                    0 <= k < gaussian_records@.len() ==> (#[trigger] gaussian_records@[k])@
                        == record(self.gaussian_bytes(), 28, k),
                forall|k: int|
                    0 <= k < sh_records@.len() ==> (#[trigger] sh_records@[k])@ == record(
                        self.sh_bytes(),
                        96,
                        k,
                    ),
                opacities@.len() == i,
                dc_values@.len() == 3 * i,
                rest_values@.len() == 45 * i,
                forall|k: int|
                    0 <= k < i ==> #[trigger] opacities@[k] == self.splat(k).opacity,
                forall|m: int|
                    0 <= m < 3 * i ==> #[trigger] dc_values@[m] == half_at(
                        self.sh_bytes(),
                        48 * (m / 3) + m % 3,
                    ),
                forall|m: int|
                    0 <= m < 45 * i ==> #[trigger] rest_values@[m] == half_at(
                        self.sh_bytes(),
                        48 * (m / 45) + 3 + m % 45,
                    ),
            decreases self.num_points - i,
        {
            opacities.push(Gaussian::from_record(&gaussian_records[i]).opacity);
            let sh = &sh_records[i];
            let mut h: usize = 0;
            while h < 48
                invariant
                    h <= 48,
                    i < self.num_points,
                    self.sh_bytes().len() == self.num_points * 96,
                    sh@ == record(self.sh_bytes(), 96, i as int),
                    dc_values@.len() == 3 * i + (if h < 3 {
                        h as int
                    } else {
                        3
                    }),
                    rest_values@.len() == 45 * i + (if h < 3 {
                        0
                    } else {
                        h - 3
                    }),
                    forall|m: int|
                        0 <= m < dc_values@.len() ==> #[trigger] dc_values@[m] == half_at(
                            self.sh_bytes(),
                            48 * (m / 3) + m % 3,
                        ),
                    forall|m: int|
                        0 <= m < rest_values@.len() ==> #[trigger] rest_values@[m] == half_at(
                            self.sh_bytes(),
                            48 * (m / 45) + 3 + m % 45,
                        ),
                decreases 48 - h,
            {
                let value: u16 = sh_value(sh, h);
                assert(value == half_at(self.sh_bytes(), 48 * i + h));
                if h < 3 {
                    assert((3 * i + h) / 3 == i && (3 * i + h) % 3 == h);
                    dc_values.push(value);
                } else {
                    assert((45 * i + h - 3) / 45 == i && (45 * i + h - 3) % 45 == h - 3);
                    rest_values.push(value);
                }
                h += 1;
            }
            i += 1;
        }
        QuantizationInputs { opacities, dc_values, rest_values }
    }

    /// Compresses the point cloud: takes the quantized form of its
    /// [`quantization_inputs`](Self::quantization_inputs) in place of the
    /// opacities and colours, and sets the covariances apart.
    /// Returns `Ok(true)` if compression was applied, `Ok(false)` if the cloud
    /// was compressed already.
    pub fn compress(&mut self, values: &QuantizedValues) -> (r: Result<bool, CloudError>)
        requires
            old(self).wf(),
            old(self).is_compressed() || values.covers(old(self).num_points as int),
        ensures
            final(self).wf(),
            final(self).is_compressed(),
            r == Ok::<bool, CloudError>(!old(self).is_compressed()),
            old(self).is_compressed() ==> *final(self) == *old(self),
            !old(self).is_compressed() ==> compressed_from(*old(self), *values, *final(self)),
    {
        if self.buffers.compressed {
            return Ok(false);
        }
        let n: usize = self.num_points;
        let splats = match self.gaussians() {
            Ok(splats) => splats,
            Err(e) => {
                return Err(e);
            },
        };
        let mut compressed_gaussians: Vec<GaussianCompressed> = Vec::new();
        let mut covariances: Vec<Covariance3D> = Vec::new();
        let mut i: usize = 0;
        while i < n
            invariant
                i <= n,
                n == old(self).num_points,
                values.opacities@.len() == n,
                splats@.len() == n,
                compressed_gaussians@.len() == i,
                covariances@.len() == i,
                forall|k: int| 0 <= k < n ==> (#[trigger] splats@[k])@ == old(self).splat(k),
                forall|k: int|
                    0 <= k < i ==> (#[trigger] compressed_gaussians@[k])@ == compressed_form(
                        old(self).splat(k),
                        values.opacities@[k],
                        k,
                    ),
                forall|k: int|
                    0 <= k < i ==> (#[trigger] covariances@[k]).0@ == old(self).splat(k).cov,
            decreases n - i,
        {
            let g: Gaussian = splats[i];
            assert(splats@[i as int]@ == old(self).splat(i as int));
            compressed_gaussians.push(
                GaussianCompressed {
                    xyz: g.xyz,
                    opacity: values.opacities[i],
                    scale_factor: 0,
                    geometry_idx: low_word(i),
                    sh_idx: low_word(i),
                },
            );
            covariances.push(Covariance3D(g.cov));
            i += 1;
        }
        self.buffers = SplatBuffers {
            gaussians: compressed_buffer(&compressed_gaussians),
            sh_coefs: quantized_buffer(&values.dc_values, &values.rest_values, n),
            compressed: true,
        };
        self.covars = Some(covariances);
        self.quantization = Some(values.quantization);
        proof {
            assert forall|k: int| 0 <= k < n implies #[trigger] self.compressed_splat(k) == compressed_form(
                        old(self).splat(k),
                        values.opacities@[k],
                        k,
                    ) by {
                assert(record(self.gaussian_bytes(), 24, k) == compressed_record(
                    compressed_gaussians@[k]@,
                ));
                compressed_reads_back(compressed_gaussians@[k]@);
            }
        }
        Ok(true)
    }
}

/// The lower 32 bits of an index.
fn low_word(i: usize) -> (w: u32)
    ensures
        w == i as int % 0x1_0000_0000,
{
    (i as u64 % 0x1_0000_0000) as u32
}

/// The bytes of the quantized coefficients of `n` splats.
fn quantized_buffer(dc: &Vec<i8>, rest: &Vec<i8>, n: usize) -> (bytes: Vec<u8>)
    requires
        dc@.len() == 3 * n,
        rest@.len() == 45 * n,
    ensures
        bytes@ == quantized_sh(dc@, rest@, n as int),
{
    let mut values: Vec<i8> = Vec::new();
    let mut i: usize = 0;
    let rest_len: usize = rest.len();
    while i < n
        invariant
            i <= n,
            dc@.len() == 3 * n,
            rest_len == rest@.len() == 45 * n,
            values@.len() == 48 * i,
            forall|b: int|
                0 <= b < 48 * i ==> byte_of(#[trigger] values@[b]) == quantized_sh(
                    dc@,
                    rest@,
                    n as int,
                )[b],
        decreases n - i,
    {
        let mut h: usize = 0;
        while h < 48
            invariant
                h <= 48,
                i < n,
                dc@.len() == 3 * n,
                rest_len == rest@.len() == 45 * n,
                values@.len() == 48 * i + h,
                forall|b: int|
                    0 <= b < 48 * i + h ==> byte_of(#[trigger] values@[b]) == quantized_sh(
                        dc@,
                        rest@,
                        n as int,
                    )[b],
            decreases 48 - h,
        {
            assert((48 * i + h) / 48 == i && (48 * i + h) % 48 == h);
            if h < 3 {
                values.push(dc[3 * i + h]);
            } else {
                values.push(rest[45 * i + (h - 3)]);
            }
            h += 1;
        }
        i += 1;
    }
    let bytes = bytes_of_signed(values.as_slice());
    assert(bytes@ =~= quantized_sh(dc@, rest@, n as int));
    bytes
}

/// The bytes of compressed splats, one after another.
fn compressed_buffer(gaussians: &Vec<GaussianCompressed>) -> (bytes: Vec<u8>)
    ensures
        bytes@.len() == gaussians@.len() * 24,
        forall|k: int|
            0 <= k < gaussians@.len() ==> #[trigger] record(bytes@, 24, k)
                == compressed_record(gaussians@[k]@),
{
    let mut records: Vec<[u8; 24]> = Vec::new();
    let mut i: usize = 0;
    while i < gaussians.len()
        invariant
            i <= gaussians@.len(),
            records@.len() == i,
            forall|k: int|
                0 <= k < i ==> (#[trigger] records@[k])@ == compressed_record(gaussians@[k]@),
        decreases gaussians@.len() - i,
    {
        records.push(gaussians[i].to_record());
        i += 1;
    }
    let bytes = join_records(records.as_slice());
    assert forall|k: int| 0 <= k < gaussians@.len() implies #[trigger] record(
        bytes@,
        24,
        k,
    ) == compressed_record(gaussians@[k]@) by {
        assert(records@[k]@ == compressed_record(gaussians@[k]@));
    }
    bytes
}

/// Downsampling leaves the kept splats where they were, in order, and with the
/// colours they had.
pub proof fn downsampling_keeps_splats(
    before: GenericGaussianPointCloud,
    max_points: int,
    after: GenericGaussianPointCloud,
    k: int,
    h: int,
)
    requires
        before.wf(),
        after.wf(),
        0 < max_points < before.num_points,
        downsampled_from(before, max_points, after),
        0 <= k < after.num_points,
        0 <= h < 48,
    ensures
        after.position(k) == before.position(k * downsample_step(before.num_points as int, max_points)),
        !before.is_compressed() ==> after.splat(k) == before.splat(
            k * downsample_step(before.num_points as int, max_points),
        ),
        before.is_compressed() ==> after.compressed_splat(k) == before.compressed_splat(
            k * downsample_step(before.num_points as int, max_points),
        ),
        !before.is_compressed() ==> half_at(after.sh_bytes(), 48 * k + h) == half_at(
            before.sh_bytes(),
            48 * (k * downsample_step(before.num_points as int, max_points)) + h,
        ),
{
    let step = downsample_step(before.num_points as int, max_points);
    downsample_fits(before.num_points as int, max_points);
    let j = k * step;
    assert(0 <= j < before.num_points);
    assert(record(after.gaussian_bytes(), before.splat_size(), k) == record(
        before.gaussian_bytes(),
        before.splat_size(),
        j,
    ));
    if !before.is_compressed() {
        let a = record(after.sh_bytes(), 96, k);
        let b = record(before.sh_bytes(), 96, j);
        assert(a == b);
        assert(a[2 * h] == after.sh_bytes()[96 * k + 2 * h]);
        assert(a[2 * h + 1] == after.sh_bytes()[96 * k + 2 * h + 1]);
        assert(b[2 * h] == before.sh_bytes()[96 * j + 2 * h]);
        assert(b[2 * h + 1] == before.sh_bytes()[96 * j + 2 * h + 1]);
    }
}

/// The compressed form of a splat stands where the splat does and knows its place.
proof fn form_keeps_place(g: GaussianData, opacity: i8, k: int)
    requires
        0 <= k < 0x1_0000_0000,
    ensures
        compressed_form(g, opacity, k).xyz == g.xyz,
        compressed_form(g, opacity, k).geometry_idx == k,
{
}

/// Compression moves no splat, and a splat's geometry index leads to the
/// covariance it had. An index has 32 bits: larger clouds share indices.
pub proof fn compression_keeps_geometry(
    before: GenericGaussianPointCloud,
    values: QuantizedValues,
    after: GenericGaussianPointCloud,
    k: int,
)
    requires
        !before.is_compressed(),
        before.num_points <= 0x1_0000_0000,
        compressed_from(before, values, after),
        0 <= k < before.num_points,
    ensures
        after.position(k) == before.position(k),
        after.covars matches Some(covars) && covars@[after.compressed_splat(k).geometry_idx as int].0@
            == before.splat(k).cov,
{
    let g = before.splat(k);
    let c = after.compressed_splat(k);
    assert(c == compressed_form(g, values.opacities@[k], k));
    form_keeps_place(g, values.opacities@[k], k);
    assert(after.position(k) == c.xyz);
    assert(before.position(k) == g.xyz);
}

/// Compression cuts the two buffers from 124 to 72 bytes for each splat.
pub proof fn compression_shrinks_buffers(
    before: GenericGaussianPointCloud,
    values: QuantizedValues,
    after: GenericGaussianPointCloud,
)
    requires
        before.wf(),
        after.wf(),
        !before.is_compressed(),
        compressed_from(before, values, after),
    ensures
        before.gaussian_bytes().len() + before.sh_bytes().len() == 124 * before.num_points,
        after.gaussian_bytes().len() + after.sh_bytes().len() == 72 * before.num_points,
{
}

/// Each colour coefficient that a cloud was made with is found in its buffer.
pub proof fn coefficients_read_back(bytes: Seq<u8>, coefs: Seq<[u16; 3]>, k: int, i: int, j: int)
    requires
        coefs.len() == 16,
        0 <= k,
        96 * (k + 1) <= bytes.len(),
        record(bytes, 96, k) == sh_record(coefs),
        0 <= i < 16,
        0 <= j < 3,
    ensures
        half_at(bytes, 48 * k + 3 * i + j) == coefs[i]@[j],
{
    sh_reads_back(coefs, i, j);
    let r = record(bytes, 96, k);
    let b = 2 * (3 * i + j);
    assert(r[b] == bytes[96 * k + b]);
    assert(r[b + 1] == bytes[96 * k + b + 1]);
}

} // verus!
