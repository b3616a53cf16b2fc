// Tests of the reduce-then-scan radix sort.
use splat_viewer::shaders::{RADIX_SORT, RADIX_SORT_REDUCE, RADIX_SORT_SCAN};
use splat_viewer::sort;

/// Keys that order as the numbers do.
fn keys(data: &[f32]) -> Vec<u32> {
    data.iter()
        .map(|x| {
            let bits = x.to_bits();
            if bits >> 31 == 1 {
                !bits
            } else {
                bits | 0x8000_0000
            }
        })
        .collect()
}

fn is_sorted(data: &[f32]) -> bool {
    sort::is_sorted(&keys(data))
}

fn verify_sort_correctness(original: &[f32], sorted: &[f32]) -> bool {
    sort::verify_sort_correctness(&keys(original), &keys(sorted))
}

#[test]
fn test_radix_sort_small() {
    let shader_code = RADIX_SORT;
    assert!(shader_code.contains("scatter"));
    assert!(!shader_code.contains("while true")); // Verify lookback removed
}

#[test]
fn test_reduce_shader_exists() {
    let shader_code = RADIX_SORT_REDUCE;
    assert!(shader_code.contains("reduce_even"));
    assert!(shader_code.contains("reduce_odd"));
}

#[test]
fn test_scan_shader_exists() {
    let shader_code = RADIX_SORT_SCAN;
    assert!(shader_code.contains("scan_partitions_even"));
    assert!(shader_code.contains("scan_partitions_odd"));
    assert!(shader_code.contains("MAX_WORKGROUPS")); // Safety limit
}

#[test]
fn test_no_infinite_loops_in_shaders() {
    let scatter_shader = RADIX_SORT;
    let reduce_shader = RADIX_SORT_REDUCE;
    let scan_shader = RADIX_SORT_SCAN;

    // None of the shaders should contain unbounded while loops
    assert!(
        !scatter_shader.contains("while true"),
        "Scatter shader contains 'while true'"
    );
    assert!(
        !reduce_shader.contains("while true"),
        "Reduce shader contains 'while true'"
    );
    assert!(
        !scan_shader.contains("while true"),
        "Scan shader contains 'while true'"
    );
}

#[test]
fn test_safety_limits_in_scan() {
    let scan_shader = RADIX_SORT_SCAN;

    // Verify the MAX_WORKGROUPS safety limit exists
    assert!(
        scan_shader.contains("MAX_WORKGROUPS"),
        "Scan shader missing MAX_WORKGROUPS safety limit"
    );

    // Verify the limit is used in the loop
    assert!(
        scan_shader.contains("safe_num_wgs"),
        "Scan shader not using safe workgroup limit"
    );
}

#[test]
fn test_is_sorted_helper() {
    assert!(is_sorted(&[1.0, 2.0, 3.0, 4.0]));
    assert!(is_sorted(&[1.0, 1.0, 2.0, 2.0]));
    assert!(is_sorted(&[]));
    assert!(is_sorted(&[1.0]));
    assert!(!is_sorted(&[2.0, 1.0, 3.0]));
}

#[test]
fn test_verify_sort_correctness_helper() {
    let original = vec![3.0, 1.0, 4.0, 1.0, 5.0, 9.0];
    let sorted = vec![1.0, 1.0, 3.0, 4.0, 5.0, 9.0];
    assert!(verify_sort_correctness(&original, &sorted));

    let wrong = vec![1.0, 2.0, 3.0, 4.0, 5.0, 6.0];
    assert!(!verify_sort_correctness(&original, &wrong));
}

/// The entry points of a shader that the shader compiler accepts.
fn entry_points(source: &str) -> Vec<String> {
    let module = wgpu::naga::front::wgsl::parse_str(source).expect("the shader does not parse");
    let mut validator = wgpu::naga::valid::Validator::new(
        wgpu::naga::valid::ValidationFlags::all(),
        wgpu::naga::valid::Capabilities::empty(),
    );
    validator
        .validate(&module)
        .expect("the shader is not valid");
    module.entry_points.iter().map(|e| e.name.clone()).collect()
}

#[test]
fn shaders_are_valid() {
    assert_eq!(entry_points(RADIX_SORT), vec!["scatter_even", "scatter_odd"]);
    assert_eq!(
        entry_points(RADIX_SORT_REDUCE),
        vec!["reduce_even", "reduce_odd"]
    );
    assert_eq!(
        entry_points(RADIX_SORT_SCAN),
        vec!["scan_partitions_even", "scan_partitions_odd"]
    );
}

#[test]
fn a_sort_that_loses_a_key_is_wrong() {
    assert!(!verify_sort_correctness(&[2.0, 1.0], &[1.0]));
    assert!(!verify_sort_correctness(&[2.0, 1.0], &[2.0, 1.0]));
    assert!(!verify_sort_correctness(&[2.0, 1.0, 1.0], &[1.0, 2.0, 2.0]));
    assert!(verify_sort_correctness(&[0.5, -1.0], &[-1.0, 0.5]));
    assert_eq!(sort::sorted(&[3, 1, 2, 1]), vec![1, 1, 2, 3]);
}
