use splat_viewer::cloud::{
    Aabb, Bounds, CloudError, DownsampleInfo, GenericGaussianPointCloud, QuantizedValues,
};
use splat_viewer::splat::{
    Covariance3D, Gaussian, GaussianCompressed, GaussianQuantization, Quantization,
};
use splat_viewer::window::prepare;

fn bounds() -> Bounds {
    Bounds {
        aabb: Aabb {
            min: [1, 2, 3],
            max: [4, 5, 6],
        },
        center: [7, 8, 9],
        up: None,
    }
}

/// A box and a center that tell which points they were made from.
fn box_of(points: Vec<[u32; 3]>) -> (Aabb, [u32; 3]) {
    let aabb = Aabb {
        min: points.first().copied().unwrap_or([0; 3]),
        max: points.last().copied().unwrap_or([0; 3]),
    };
    (aabb, [points.len() as u32; 3])
}

fn gaussian(k: u32) -> Gaussian {
    Gaussian::new(
        [1000 + k, 0x0102_0304 * k, u32::MAX - k],
        (300 + k) as u16,
        [k as u16, 1, 2, 3, 4, 0xff00 + k as u16],
    )
}

fn coefs(k: u32) -> [[u16; 3]; 16] {
    let mut c = [[0u16; 3]; 16];
    for i in 0..16 {
        for j in 0..3 {
            c[i][j] = (1000 * k) as u16 + (10 * i + j) as u16;
        }
    }
    c
}

fn cloud(n: usize) -> GenericGaussianPointCloud {
    GenericGaussianPointCloud::new(
        (0..n as u32).map(gaussian).collect(),
        (0..n as u32).map(coefs).collect(),
        3,
        n,
        Some(17),
        Some(true),
        Some([1, 2, 3]),
        None,
        None,
        None,
        bounds(),
    )
}

fn compressed_gaussian(k: u32) -> GaussianCompressed {
    GaussianCompressed {
        xyz: [k, k + 1, k + 2],
        opacity: -(k as i8),
        scale_factor: 5,
        geometry_idx: 100 + k,
        sh_idx: 200 + k,
    }
}

fn compressed_cloud(n: usize) -> GenericGaussianPointCloud {
    GenericGaussianPointCloud::new_compressed(
        (0..n as u32).map(compressed_gaussian).collect(),
        vec![9; 48 * n],
        3,
        n,
        None,
        None,
        None,
        Some((0..n as u16).map(|k| Covariance3D([k; 6])).collect()),
        Some(quantization()),
        bounds(),
    )
}

fn quantization() -> GaussianQuantization {
    GaussianQuantization {
        color_dc: Quantization::new(1, 2),
        color_rest: Quantization::new(-3, 4),
        opacity: Quantization::new(5, 6),
        scaling_factor: Quantization::new(0, 0x3f80_0000),
    }
}

fn values(n: usize) -> QuantizedValues {
    QuantizedValues {
        opacities: (0..n).map(|k| k as i8 - 1).collect(),
        dc_values: (0..3 * n).map(|m| m as i8).collect(),
        rest_values: (0..45 * n).map(|m| (m % 45) as i8 - 50).collect(),
        quantization: quantization(),
    }
}

#[test]
fn clouds_hold_their_splats() {
    let c = cloud(3);
    assert!(!c.compressed());
    assert_eq!(c.num_points, 3);
    assert_eq!(
        c.gaussians().unwrap(),
        vec![gaussian(0), gaussian(1), gaussian(2)]
    );
    assert_eq!(c.gaussian_buffer().len(), 3 * 28);
    assert_eq!(c.sh_coefs_buffer().len(), 3 * 96);
    assert_eq!(
        c.positions(),
        vec![gaussian(0).xyz, gaussian(1).xyz, gaussian(2).xyz]
    );
}

#[test]
fn splats_lie_in_memory_as_the_device_reads_them() {
    let c = cloud(2);
    assert_eq!(
        &c.gaussian_buffer()[28..56],
        &[
            0xe9, 0x03, 0, 0, 4, 3, 2, 1, 0xfe, 0xff, 0xff, 0xff, 0x2d, 1, 1, 0, 1, 0, 2, 0, 3, 0,
            4, 0, 1, 0xff, 0, 0
        ]
    );
    let sh = c.sh_coefs_buffer();
    // Coefficient 15, channel 2 of splat 1.
    assert_eq!(
        u16::from_le_bytes([sh[96 + 94], sh[96 + 95]]),
        1000 + 150 + 2
    );
    let c = compressed_cloud(2);
    assert_eq!(
        &c.gaussian_buffer()[24..48],
        &[1, 0, 0, 0, 2, 0, 0, 0, 3, 0, 0, 0, 0xff, 5, 0, 0, 101, 0, 0, 0, 201, 0, 0, 0]
    );
}

#[test]
fn compressed_splats_are_not_handed_out() {
    let c = compressed_cloud(2);
    assert!(c.compressed());
    assert_eq!(c.gaussians(), Err(CloudError::Compressed));
    assert_eq!(c.gaussians_compressed(), Err(CloudError::Compressed));
    let c = cloud(6);
    assert_eq!(c.gaussians_compressed().unwrap().len(), 7);
}

#[test]
fn downsampling_keeps_every_nth_splat() {
    let mut c = cloud(7);
    assert_eq!(c.downsample(7, box_of), None);
    assert_eq!(c.num_points, 7);
    assert_eq!(c.downsample(3, box_of), Some(7));
    assert_eq!(c.num_points, 3);
    assert_eq!(
        c.gaussians().unwrap(),
        vec![gaussian(0), gaussian(3), gaussian(6)]
    );
    let whole = cloud(7);
    assert_eq!(
        &c.sh_coefs_buffer()[96..192],
        &whole.sh_coefs_buffer()[3 * 96..4 * 96]
    );
    assert_eq!(c.downsample_info(3), None);
    assert_eq!(
        c.downsample_info(7),
        Some(DownsampleInfo {
            original_count: 7,
            final_count: 3
        })
    );
    assert_eq!((c.kernel_size, c.mip_splatting), (Some(17), Some(true)));
}

#[test]
fn downsampling_can_fall_short_of_the_limit() {
    let mut c = cloud(10);
    assert_eq!(c.downsample(6, box_of), Some(10));
    assert_eq!(c.num_points, 5);
    let mut c = cloud(10);
    assert_eq!(c.downsample(1, box_of), Some(10));
    assert_eq!(c.gaussians().unwrap(), vec![gaussian(0)]);
    let mut c = cloud(0);
    assert_eq!(c.downsample(0, box_of), None);
}

#[test]
fn downsampling_to_nothing_leaves_nothing() {
    let mut c = cloud(4);
    assert_eq!(c.downsample(0, box_of), Some(4));
    assert_eq!(c.num_points, 0);
    assert_eq!(c.gaussians(), Ok(vec![]));
    assert!(c.sh_coefs_buffer().is_empty());
    assert_eq!(c.covars, None);
    let mut c = compressed_cloud(4);
    assert_eq!(c.downsample(0, box_of), Some(4));
    assert_eq!(c.num_points, 0);
    assert!(c.gaussian_buffer().is_empty());
    assert_eq!(c.sh_coefs_buffer().len(), 48 * 4);
    assert_eq!(c.covars, Some(vec![]));
    let mut c = cloud(4);
    assert_eq!(prepare(&mut c, 0, true, box_of).downsampled_from, Some(4));
}

#[test]
fn splats_are_handed_out_by_the_buffer() {
    let mut c = cloud(3);
    c.num_points = 1;
    assert_eq!(c.gaussians().unwrap().len(), 3);
}

#[test]
fn downsampling_compressed_clouds_keeps_colours() {
    let mut c = compressed_cloud(5);
    assert_eq!(c.downsample(3, box_of), Some(5));
    assert_eq!(c.num_points, 3);
    assert_eq!(c.positions(), vec![[0, 1, 2], [2, 3, 4], [4, 5, 6]]);
    assert_eq!(c.sh_coefs_buffer().len(), 48 * 5);
    assert_eq!(
        c.covars,
        Some(vec![
            Covariance3D([0; 6]),
            Covariance3D([2; 6]),
            Covariance3D([4; 6])
        ])
    );
}

#[test]
fn bounds_can_be_taken_anew() {
    let mut c = cloud(2);
    assert_eq!((c.aabb, c.center, c.up), (bounds().aabb, [7, 8, 9], None));
    c.recalculate_bounds(box_of);
    assert_eq!(c.aabb.min, gaussian(0).xyz);
    assert_eq!(c.aabb.max, gaussian(1).xyz);
    assert_eq!(c.center, [2; 3]);
    assert_eq!(c.gaussians().unwrap(), vec![gaussian(0), gaussian(1)]);
}

#[test]
fn downsampling_takes_the_bounds_of_what_is_left() {
    let mut c = cloud(7);
    c.downsample(7, box_of);
    assert_eq!((c.aabb, c.center), (bounds().aabb, [7, 8, 9]));
    c.downsample(4, box_of);
    assert_eq!(c.aabb.min, gaussian(0).xyz);
    assert_eq!(c.aabb.max, gaussian(6).xyz);
    assert_eq!(c.center, [4; 3]);
    let mut c = compressed_cloud(6);
    prepare(&mut c, 3, false, box_of);
    assert_eq!(c.aabb.max, [4, 5, 6]);
    assert_eq!(c.center, [3; 3]);
    c.downsample(0, box_of);
    assert_eq!(c.center, [0; 3]);
}

#[test]
fn quantization_takes_opacities_and_colours_apart() {
    let inputs = cloud(2).quantization_inputs();
    assert_eq!(inputs.opacities, vec![300, 301]);
    assert_eq!(inputs.dc_values, vec![0, 1, 2, 1000, 1001, 1002]);
    assert_eq!(inputs.rest_values.len(), 90);
    assert_eq!(&inputs.rest_values[0..4], &[10, 11, 12, 20]);
    assert_eq!(inputs.rest_values[89], 1152);
}

#[test]
fn compression_keeps_positions_and_covariances() {
    let mut c = cloud(3);
    let before = c.gaussian_buffer().len() + c.sh_coefs_buffer().len();
    assert_eq!(c.compress(&values(3)), Ok(true));
    assert!(c.compressed());
    assert_eq!(before, 3 * 124);
    assert_eq!(
        c.gaussian_buffer().len() + c.sh_coefs_buffer().len(),
        3 * 72
    );
    assert_eq!(
        c.positions(),
        vec![gaussian(0).xyz, gaussian(1).xyz, gaussian(2).xyz]
    );
    assert_eq!(
        c.covars,
        Some((0..3).map(|k| Covariance3D(gaussian(k).cov)).collect())
    );
    assert_eq!(c.quantization, Some(quantization()));
    // Opacity 0, scale factor 0, padding, then both indices.
    assert_eq!(
        &c.gaussian_buffer()[36..48],
        &[0, 0, 0, 0, 1, 0, 0, 0, 1, 0, 0, 0]
    );
    assert_eq!(c.gaussian_buffer()[12], 0xff);
    // The colours of splat 1: three first channels, then the others.
    assert_eq!(&c.sh_coefs_buffer()[48..53], &[3, 4, 5, 206, 207]);
    assert_eq!(c.compress(&values(3)), Ok(false));
    assert_eq!(c.compress(&values(0)), Ok(false));
}

#[test]
fn preparing_fits_a_cloud_to_a_device() {
    let mut c = cloud(7);
    let p = prepare(&mut c, 3, true, box_of);
    assert_eq!(p.downsampled_from, Some(7));
    assert_eq!(p.to_quantize.unwrap().opacities, vec![300, 303, 306]);
    assert_eq!(c.num_points, 3);
    let mut c = cloud(2);
    let p = prepare(&mut c, 3, false, box_of);
    assert_eq!(p.downsampled_from, None);
    assert!(p.to_quantize.is_none());
    let mut c = compressed_cloud(2);
    assert!(prepare(&mut c, 3, true, box_of).to_quantize.is_none());
}
