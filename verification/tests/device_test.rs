use splat_viewer::device::{AdapterLimits, DeviceCapabilities, DeviceTier};

const MIB: u64 = 1024 * 1024;
const GIB: u64 = 1024 * MIB;

fn limits(max_buffer_size: u64) -> AdapterLimits {
    AdapterLimits {
        max_buffer_size,
        max_storage_buffer_binding_size: 1 << 27,
        max_storage_buffers_per_shader_stage: 8,
        max_compute_workgroup_storage_size: 16384,
    }
}

#[test]
fn tiers_limit_splats() {
    assert_eq!(DeviceTier::Low.max_splats(), 1_000_000);
    assert_eq!(DeviceTier::Medium.max_splats(), 2_000_000);
    assert_eq!(DeviceTier::High.max_splats(), 4_000_000);
}

#[test]
fn tier_follows_memory() {
    let l = limits(0);
    let tier = |bytes| DeviceCapabilities::detect_device_tier(&l, Some(bytes));
    assert_eq!(tier(0), DeviceTier::Low);
    assert_eq!(tier(4 * GIB), DeviceTier::Low);
    assert_eq!(tier(4 * GIB + 1), DeviceTier::Medium);
    assert_eq!(tier(8 * GIB), DeviceTier::Medium);
    assert_eq!(tier(8 * GIB + 1), DeviceTier::High);
    assert_eq!(tier(u64::MAX), DeviceTier::High);
}

#[test]
fn tier_follows_buffers_without_memory() {
    let tier = |bytes| DeviceCapabilities::detect_device_tier(&limits(bytes), None);
    assert_eq!(tier(256 * MIB), DeviceTier::Low);
    assert_eq!(tier(257 * MIB - 1), DeviceTier::Low);
    assert_eq!(tier(257 * MIB), DeviceTier::Medium);
    assert_eq!(tier(1024 * MIB), DeviceTier::Medium);
    assert_eq!(tier(1025 * MIB - 1), DeviceTier::Medium);
    assert_eq!(tier(1025 * MIB), DeviceTier::High);
}

#[test]
fn capabilities_take_the_smaller_limit() {
    let c = DeviceCapabilities::from_adapter(&limits(256 * MIB), "gpu".to_string(), None);
    assert_eq!(c.device_tier, DeviceTier::Low);
    assert_eq!(c.max_splats, 1_000_000);
    assert_eq!(c.max_buffer_size, 256 * MIB);
    assert_eq!(c.max_storage_buffer_binding_size, 1 << 27);
    assert_eq!(c.device_name, "gpu");

    let c = DeviceCapabilities::from_adapter(&limits(250), String::new(), Some(16 * GIB));
    assert_eq!(c.device_tier, DeviceTier::High);
    assert_eq!(c.max_splats, 2);
}

#[test]
fn huge_buffers_leave_the_limit_to_the_tier() {
    for size in [429_496_729_600, 429_496_730_300, u64::MAX] {
        let c = DeviceCapabilities::from_adapter(&limits(size), String::new(), None);
        assert_eq!(c.device_tier, DeviceTier::High);
        assert_eq!(c.max_splats, 4_000_000);
        let c = DeviceCapabilities::from_adapter(&limits(size), String::new(), Some(GIB));
        assert_eq!(c.max_splats, 1_000_000);
    }
}

#[test]
fn required_limits() {
    let native = limits(GIB).required(false);
    assert_eq!(native.max_storage_buffers_per_shader_stage, 12);
    assert_eq!(native.max_compute_workgroup_storage_size, 1 << 15);
    assert_eq!(native.max_buffer_size, GIB);
    let page = limits(GIB).required(true);
    assert_eq!(page.max_storage_buffers_per_shader_stage, 8);
    assert_eq!(page.max_compute_workgroup_storage_size, 1 << 15);
}
