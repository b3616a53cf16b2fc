use splat_viewer::cloud::{Aabb, Bounds, GenericGaussianPointCloud};
use splat_viewer::header::{numbers_fit, Encoding};
use splat_viewer::ply::{
    cloud_of, color_of_channels, sh_deg_from_num_coefs, PlyError, PlyReader, PointCloudReader,
};

struct File {
    encoding: &'static str,
    comments: Vec<&'static str>,
    count: usize,
    normals: bool,
    rest: usize,
    camera: bool,
}

fn file() -> File {
    File {
        encoding: "binary_little_endian",
        comments: vec![],
        count: 2,
        normals: false,
        rest: 0,
        camera: false,
    }
}

impl File {
    fn header(&self) -> String {
        let mut h = format!("ply\nformat {} 1.0\n", self.encoding);
        for c in &self.comments {
            h += &format!("comment {}\n", c);
        }
        h += &format!("element vertex {}\n", self.count);
        let mut names: Vec<String> = vec!["x".into(), "y".into(), "z".into()];
        if self.normals {
            names.extend(["nx".into(), "ny".into(), "nz".into()]);
        }
        for i in 0..3 {
            names.push(format!("f_dc_{}", i));
        }
        for i in 0..self.rest {
            names.push(format!("f_rest_{}", i));
        }
        names.push("opacity".into());
        for i in 0..3 {
            names.push(format!("scale_{}", i));
        }
        for i in 0..4 {
            names.push(format!("rot_{}", i));
        }
        for name in names {
            h += &format!("property float {}\n", name);
        }
        if self.camera {
            h += "element extrinsic 16\nproperty float extrinsic\n";
            h += "element intrinsic 9\nproperty float intrinsic\n";
            h += "element image_size 2\nproperty uint image_size\n";
        }
        h + "end_header\n"
    }

    fn bytes(&self, words: &[u32]) -> Vec<u8> {
        let mut bytes = self.header().into_bytes();
        for w in words {
            if self.encoding == "binary_big_endian" {
                bytes.extend(w.to_be_bytes());
            } else {
                bytes.extend(w.to_le_bytes());
            }
        }
        bytes
    }

    fn open(&self, words: &[u32]) -> PlyReader {
        GenericGaussianPointCloud::load(&self.bytes(words))
            .unwrap()
            .unwrap()
    }
}

fn words(n: usize) -> Vec<u32> {
    (0..n as u32).map(|i| 0x0a0b_0c00 + i).collect()
}

#[test]
fn splats_are_read_in_order() {
    let mut reader = file().open(&words(28));
    assert_eq!(reader.sh_deg, 0);
    assert_eq!(reader.num_points, 2);
    assert!(!reader.has_normals);
    assert!(!reader.has_ml_sharp_camera);
    let contents = reader.read().unwrap();
    let w = words(28);
    assert_eq!(contents.splats.len(), 2);
    assert_eq!(contents.splats[0].position, [w[0], w[1], w[2]]);
    assert_eq!(contents.splats[0].sh[0], [w[3], w[4], w[5]]);
    assert_eq!(contents.splats[0].sh[1], [0, 0, 0]);
    assert_eq!(contents.splats[0].opacity, w[6]);
    assert_eq!(contents.splats[0].scale, [w[7], w[8], w[9]]);
    assert_eq!(contents.splats[0].rotation, [w[10], w[11], w[12], w[13]]);
    assert_eq!(contents.splats[1].position, [w[14], w[15], w[16]]);
    assert_eq!(contents.splats[1].rotation, [w[24], w[25], w[26], w[27]]);
    assert_eq!(contents.embedded_camera, None);
}

#[test]
fn byte_orders_give_the_same_splats() {
    let w = words(28);
    let big = File {
        encoding: "binary_big_endian",
        ..file()
    };
    let mut reader = big.open(&w);
    assert_eq!(reader.header.encoding, Encoding::BinaryBigEndian);
    assert_eq!(
        reader.read().unwrap(),
        file().open(&w).read().unwrap()
    );
}

#[test]
fn higher_coefficients_are_stored_channel_first() {
    let f = File {
        count: 1,
        rest: 9,
        normals: true,
        ..file()
    };
    let mut reader = f.open(&words(26));
    assert_eq!(reader.sh_deg, 1);
    assert!(reader.has_normals);
    let w = words(26);
    let splat = reader.read().unwrap().splats[0];
    assert_eq!(splat.sh[0], [w[6], w[7], w[8]]);
    assert_eq!(splat.sh[1], [w[9], w[12], w[15]]);
    assert_eq!(splat.sh[2], [w[10], w[13], w[16]]);
    assert_eq!(splat.sh[3], [w[11], w[14], w[17]]);
    assert_eq!(splat.sh[4], [0, 0, 0]);
    assert_eq!(splat.opacity, w[18]);
}

#[test]
fn cameras_follow_the_splats() {
    let f = File {
        count: 1,
        camera: true,
        ..file()
    };
    // 14 words of a splat, 27 of the camera, 4 of what follows and 4 bytes.
    let w = words(14 + 27 + 4 + 1);
    let mut reader = f.open(&w);
    assert!(reader.has_ml_sharp_camera);
    let camera = reader.read().unwrap().embedded_camera.unwrap();
    assert_eq!(camera.extrinsic[0], [w[14], w[15], w[16], w[17]]);
    assert_eq!(camera.extrinsic[3], [w[26], w[27], w[28], w[29]]);
    assert_eq!(camera.intrinsic[0], [w[30], w[31], w[32]]);
    assert_eq!(camera.intrinsic[2], [w[36], w[37], w[38]]);
    assert_eq!(camera.image_size, (w[39], w[40]));
    assert_eq!(
        f.open(&w[..45]).read(),
        Err(PlyError::UnexpectedEof)
    );
}

#[test]
fn short_files_are_refused() {
    assert_eq!(
        file().open(&words(27)).read(),
        Err(PlyError::UnexpectedEof)
    );
    assert!(matches!(
        GenericGaussianPointCloud::load(b"ply"),
        Some(Err(PlyError::UnexpectedEof))
    ));
}

#[test]
fn other_formats_are_refused() {
    assert!(matches!(
        GenericGaussianPointCloud::load(b"PK\x03\x04rest"),
        Some(Err(PlyError::UnknownFormat))
    ));
    assert_eq!(PlyReader::magic_bytes(), b"ply");
    assert_eq!(PlyReader::file_ending(), "ply");
}

#[test]
fn broken_headers_are_refused() {
    assert!(GenericGaussianPointCloud::load(b"ply\nnonsense\n").is_none());
    assert!(GenericGaussianPointCloud::load(
        b"ply\nformat binary_little_endian 1.0\nelement face 0\nend_header\n"
    )
    .is_none());
}

#[test]
fn numbers_beyond_64_bits_are_refused() {
    let f = b"ply\nformat binary_little_endian 1.0\nelement vertex 18446744073709551616\nend_header\n";
    assert!(!numbers_fit(f));
    assert!(GenericGaussianPointCloud::load(f).is_none());
    assert!(numbers_fit(file().header().as_bytes()));
}

#[test]
fn odd_numbers_of_coefficients_are_refused() {
    let f = File { rest: 3, ..file() };
    assert!(matches!(
        GenericGaussianPointCloud::load(&f.bytes(&[])),
        Some(Err(PlyError::ShCoefficients(6)))
    ));
}

#[test]
fn comments_hold_settings() {
    let f = File {
        comments: vec![
            "mip=false",
            "mip=true",
            "kernel_size=a=0.25",
            "background_color=1,0.5,0",
        ],
        ..file()
    };
    let reader = f.open(&[]);
    assert_eq!(reader.mip_splatting, Some(false));
    assert_eq!(reader.kernel_size, Some("0.25".to_string()));
    assert_eq!(
        reader.background_color,
        Some(vec!["1".to_string(), "0.5".to_string(), "0".to_string()])
    );
    let reader = file().open(&[]);
    assert_eq!(reader.mip_splatting, None);
    assert_eq!(reader.kernel_size, None);
    assert_eq!(reader.background_color, None);
}

#[test]
fn mip_splatting_is_a_truth_value() {
    let f = File {
        comments: vec!["mip=yes"],
        ..file()
    };
    assert!(matches!(
        GenericGaussianPointCloud::load(&f.bytes(&[])),
        Some(Err(PlyError::MipSplatting))
    ));
}

#[test]
fn points_are_counted_by_the_element_vertex() {
    let f = file();
    let mut reader = f.open(&[]);
    assert_eq!(PlyReader::num_points(&reader.header), Ok(2));
    reader.header.elements.clear();
    assert_eq!(
        PlyReader::num_points(&reader.header),
        Err(PlyError::MissingVertex)
    );
}

#[test]
fn degrees_are_squares() {
    assert_eq!(sh_deg_from_num_coefs(0), None);
    assert_eq!(sh_deg_from_num_coefs(1), Some(0));
    assert_eq!(sh_deg_from_num_coefs(2), None);
    assert_eq!(sh_deg_from_num_coefs(4), Some(1));
    assert_eq!(sh_deg_from_num_coefs(9), Some(2));
    assert_eq!(sh_deg_from_num_coefs(16), Some(3));
    assert_eq!(sh_deg_from_num_coefs(u32::MAX), None);
    assert_eq!(sh_deg_from_num_coefs(65535 * 65535), Some(65534));
}

#[test]
fn background_colours_need_every_channel() {
    assert_eq!(
        color_of_channels(&vec![Some(1), Some(2), Some(3)]),
        Some([1, 2, 3])
    );
    assert_eq!(
        color_of_channels(&vec![Some(1), Some(2), Some(3), Some(4)]),
        Some([1, 2, 3])
    );
    assert_eq!(color_of_channels(&vec![Some(1), None, Some(3)]), None);
    assert_eq!(color_of_channels(&vec![None]), None);
}

#[test]
fn clouds_hold_what_was_read() {
    let f = File {
        comments: vec!["mip=true"],
        camera: true,
        ..file()
    };
    let w = words(28 + 32);
    let mut reader = f.open(&w);
    let contents = reader.read().unwrap();
    let bounds = Bounds {
        aabb: Aabb {
            min: [1; 3],
            max: [2; 3],
        },
        center: [3; 3],
        up: Some([4; 3]),
    };
    let converted = vec![(5, [6; 6], [[7; 3]; 16]), (8, [9; 6], [[10; 3]; 16])];
    let cloud = cloud_of(
        &reader,
        &contents,
        converted,
        Some(11),
        Some([12; 3]),
        bounds,
    );
    assert_eq!(cloud.num_points, 2);
    assert_eq!(
        cloud.positions(),
        vec![[w[0], w[1], w[2]], [w[14], w[15], w[16]]]
    );
    let splats = cloud.gaussians().unwrap();
    assert_eq!((splats[0].opacity, splats[0].cov), (5, [6; 6]));
    assert_eq!((splats[1].opacity, splats[1].cov), (8, [9; 6]));
    assert_eq!(cloud.sh_coefs_buffer()[95], 0);
    assert_eq!(cloud.sh_coefs_buffer()[94], 7);
    assert_eq!(cloud.sh_coefs_buffer()[96], 10);
    assert_eq!(cloud.sh_deg, 0);
    assert_eq!(cloud.mip_splatting, Some(true));
    assert_eq!(cloud.kernel_size, Some(11));
    assert_eq!(cloud.background_color, Some([12; 3]));
    assert_eq!(cloud.embedded_camera, contents.embedded_camera);
    assert!(cloud.embedded_camera.is_some());
    assert_eq!((cloud.aabb, cloud.center, cloud.up), (bounds.aabb, [3; 3], Some([4; 3])));
    assert!(!cloud.compressed());
    assert_eq!((cloud.covars, cloud.quantization), (None, None));
}
