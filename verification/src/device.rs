//! What the graphics device can hold, and how much of it the viewer uses.
use vstd::prelude::*;

verus! {

pub struct RenderConfig {
    pub no_vsync: bool,
    pub hdr: bool,
}

/// Device performance tier for determining resource limits.
#[derive(Debug, Clone, Copy, PartialEq, Eq, Structural)]
pub enum DeviceTier {
    /// At most 4 GB of memory.
    Low,
    /// At most 8 GB of memory.
    Medium,
    /// More than 8 GB of memory.
    High,
}

impl DeviceTier {
    /// The rank of a tier, from the weakest up.
    pub open spec fn rank(&self) -> int {
        match self {
            DeviceTier::Low => 0,
            DeviceTier::Medium => 1,
            DeviceTier::High => 2,
        }
    }

    /// How many splats a tier is for.
    pub open spec fn splat_limit(&self) -> u32 {
        match self {
            DeviceTier::Low => 1_000_000,
            DeviceTier::Medium => 2_000_000,
            DeviceTier::High => 4_000_000,
        }
    }

    /// Maximum number of splats recommended for this device tier.
    pub fn max_splats(&self) -> (count: u32)
        ensures
            count == self.splat_limit(),
    {
        match self {
            DeviceTier::Low => 1_000_000,
            DeviceTier::Medium => 2_000_000,
            DeviceTier::High => 4_000_000,
        }
    }
}

/// What an adapter allows, as far as the viewer asks.
#[derive(Debug, Clone, Copy, PartialEq, Eq, Structural)]
pub struct AdapterLimits {
    pub max_buffer_size: u64,
    pub max_storage_buffer_binding_size: u32,
    pub max_storage_buffers_per_shader_stage: u32,
    pub max_compute_workgroup_storage_size: u32,
}

impl AdapterLimits {
    /// What the viewer asks of a device: all that the adapter allows, but
    /// twelve storage buffers for each shader stage, which a page leaves as
    /// they are, and 32 KiB of storage for a workgroup.
    pub fn required(&self, on_page: bool) -> (limits: AdapterLimits)
        ensures
            limits.max_buffer_size == self.max_buffer_size,
            limits.max_storage_buffer_binding_size == self.max_storage_buffer_binding_size,
            limits.max_storage_buffers_per_shader_stage == if on_page {
                self.max_storage_buffers_per_shader_stage
            } else {
                12
            },
            limits.max_compute_workgroup_storage_size == 32768,
    {
        AdapterLimits {
            max_storage_buffers_per_shader_stage: if on_page {
                self.max_storage_buffers_per_shader_stage
            } else {
                12
            },
            max_compute_workgroup_storage_size: 32768,
            ..*self
        }
    }
}

/// The tier of a device with so many bytes of memory.
pub open spec fn tier_for_memory(bytes: int) -> DeviceTier {
    if bytes <= 4 * 1024 * 1024 * 1024 {
        DeviceTier::Low
    } else if bytes <= 8 * 1024 * 1024 * 1024 {
        DeviceTier::Medium
    } else {
        DeviceTier::High
    }
}

/// The tier of a device whose buffers hold so many bytes, by whole mebibytes.
pub open spec fn tier_for_buffer(bytes: int) -> DeviceTier {
    let mebibytes = bytes / 1_048_576;
    if mebibytes <= 256 {
        DeviceTier::Low
    } else if mebibytes <= 1024 {
        DeviceTier::Medium
    } else {
        DeviceTier::High
    }
}

/// The tier of a device: by its memory where that is known, else by its buffers.
pub open spec fn tier_of(max_buffer_size: int, memory: Option<u64>) -> DeviceTier {
    match memory {
        Some(bytes) => tier_for_memory(bytes as int),
        None => tier_for_buffer(max_buffer_size),
    }
}

/// How many splats of 100 bytes fill a buffer.
pub open spec fn splats_in_buffer(max_buffer_size: int) -> int {
    max_buffer_size / 100
}

/// How many splats a device is given: the smaller one of what its buffers hold
/// and what its tier is for.
pub open spec fn splats_for(max_buffer_size: int, tier: DeviceTier) -> int {
    if splats_in_buffer(max_buffer_size) < tier.splat_limit() {
        splats_in_buffer(max_buffer_size)
    } else {
        tier.splat_limit() as int
    }
}

/// Device capabilities for determining resource limits.
#[derive(Debug, Clone)]
pub struct DeviceCapabilities {
    pub max_buffer_size: u64,
    pub max_storage_buffer_binding_size: u32,
    pub device_tier: DeviceTier,
    pub max_splats: u32,
    pub device_name: String,
}

impl DeviceCapabilities {
    /// The capabilities of the adapter called `name`. `memory` is the memory of
    /// the device in bytes, rounded up, where it is known.
    pub fn from_adapter(limits: &AdapterLimits, name: String, memory: Option<u64>) -> (c: Self)
        ensures
            c.max_buffer_size == limits.max_buffer_size,
            c.max_storage_buffer_binding_size == limits.max_storage_buffer_binding_size,
            c.device_tier == tier_of(limits.max_buffer_size as int, memory),
            c.max_splats == splats_for(limits.max_buffer_size as int, c.device_tier),
            c.device_name == name,
    {
        let device_tier: DeviceTier = Self::detect_device_tier(limits, memory);

        let buffer_based_max: u64 = limits.max_buffer_size / 100;
        let tier_based_max: u32 = device_tier.max_splats();
        let max_splats: u32 = if buffer_based_max < tier_based_max as u64 {
            buffer_based_max as u32
        } else {
            tier_based_max
        };

        DeviceCapabilities {
            max_buffer_size: limits.max_buffer_size,
            max_storage_buffer_binding_size: limits.max_storage_buffer_binding_size,
            device_tier,
            max_splats,
            device_name: name,
        }
    }

    /// The tier of a device: by its memory where that is known, else by its
    /// buffers, which grow with the memory of the graphics device.
    pub fn detect_device_tier(limits: &AdapterLimits, memory: Option<u64>) -> (tier: DeviceTier)
        ensures
            tier == tier_of(limits.max_buffer_size as int, memory),
    {
        if let Some(bytes) = memory {
            return if bytes <= 4 * 1024 * 1024 * 1024 {
                DeviceTier::Low
            } else if bytes <= 8 * 1024 * 1024 * 1024 {
                DeviceTier::Medium
            } else {
                DeviceTier::High
            };
        }
        let max_buffer_mb: u64 = limits.max_buffer_size / (1024 * 1024);
        if max_buffer_mb <= 256 {
            DeviceTier::Low
        } else if max_buffer_mb <= 1024 {
            DeviceTier::Medium
        } else {
            DeviceTier::High
        }
    }
}

/// A device is never given more splats than its tier is for, nor more than its
/// buffers hold at 100 bytes for each.
pub proof fn splats_fit_device(max_buffer_size: int, tier: DeviceTier)
    requires
        0 <= max_buffer_size,
    ensures
        0 <= splats_for(max_buffer_size, tier) <= tier.splat_limit(),
        100 * splats_for(max_buffer_size, tier) <= max_buffer_size,
{
}

/// More memory never means a lower tier, and a higher tier is for more splats.
pub proof fn tiers_grow(a: int, b: int)
    requires
        a <= b,
    ensures
        tier_for_memory(a).rank() <= tier_for_memory(b).rank(),
        tier_for_buffer(a).rank() <= tier_for_buffer(b).rank(),
        tier_for_memory(a).splat_limit() <= tier_for_memory(b).splat_limit(),
        tier_for_buffer(a).splat_limit() <= tier_for_buffer(b).splat_limit(),
{
}

} // verus!
