//! Texts of compute shaders for a radix sort.
//!
//! Nothing is proved of these texts, and nothing here or in the application
//! runs them: what draws the splats brings its own way of sorting them, and may
//! take these.
//!
//! Keys are sorted by one byte at a time, least significant byte first. Each
//! of the passes reduces, scans and scatters: the reduction counts, for each
//! workgroup, how often each value of the byte occurs in the workgroup's block
//! of keys; the scan turns the counts into the places where each workgroup's
//! keys go; the scatter moves the keys there, equal ones in their order. Even
//! passes move from the first to the second buffer, odd ones back. Every loop
//! has a bound, so no workgroup waits for another.
use vstd::prelude::*;

verus! {

/// Counts the values of the current byte in each workgroup's block.
pub const RADIX_SORT_REDUCE: &'static str = "
struct SortInfo {
    num_keys: u32,
    even_pass: u32,
    odd_pass: u32,
    padding: u32,
};

@group(0) @binding(0) var<storage, read> info: SortInfo;
@group(0) @binding(1) var<storage, read_write> counts: array<u32>;
@group(0) @binding(2) var<storage, read> keys_a: array<u32>;
@group(0) @binding(3) var<storage, read> keys_b: array<u32>;

const WG_SIZE: u32 = 256u;

var<workgroup> local_counts: array<atomic<u32>, 256>;

fn store_counts(lane: u32, wg: u32, num_wgs: u32) {
    workgroupBarrier();
    counts[lane * num_wgs + wg] = atomicLoad(&local_counts[lane]);
}

@compute @workgroup_size(256)
fn reduce_even(
    @builtin(workgroup_id) wg: vec3<u32>,
    @builtin(local_invocation_id) lane: vec3<u32>,
    @builtin(num_workgroups) num_wgs: vec3<u32>,
) {
    atomicStore(&local_counts[lane.x], 0u);
    workgroupBarrier();
    let index = wg.x * WG_SIZE + lane.x;
    if index < info.num_keys {
        let digit = (keys_a[index] >> (8u * info.even_pass)) & 255u;
        atomicAdd(&local_counts[digit], 1u);
    }
    store_counts(lane.x, wg.x, num_wgs.x);
}

@compute @workgroup_size(256)
fn reduce_odd(
    @builtin(workgroup_id) wg: vec3<u32>,
    @builtin(local_invocation_id) lane: vec3<u32>,
    @builtin(num_workgroups) num_wgs: vec3<u32>,
) {
    atomicStore(&local_counts[lane.x], 0u);
    workgroupBarrier();
    let index = wg.x * WG_SIZE + lane.x;
    if index < info.num_keys {
        let digit = (keys_b[index] >> (8u * info.odd_pass)) & 255u;
        atomicAdd(&local_counts[digit], 1u);
    }
    store_counts(lane.x, wg.x, num_wgs.x);
}
";

/// Turns the counts into the places where each workgroup's keys go.
pub const RADIX_SORT_SCAN: &'static str = "
struct SortInfo {
    num_keys: u32,
    even_pass: u32,
    odd_pass: u32,
    padding: u32,
};

@group(0) @binding(0) var<storage, read> info: SortInfo;
@group(0) @binding(1) var<storage, read_write> counts: array<u32>;

const WG_SIZE: u32 = 256u;
const MAX_WORKGROUPS: u32 = 65535u;

var<workgroup> totals: array<u32, 256>;

fn scan_partitions(lane: u32) {
    let num_wgs = (info.num_keys + WG_SIZE - 1u) / WG_SIZE;
    let safe_num_wgs = min(num_wgs, MAX_WORKGROUPS);

    // The places within the keys that share this lane's value.
    var running = 0u;
    for (var wg = 0u; wg < safe_num_wgs; wg = wg + 1u) {
        let at = lane * num_wgs + wg;
        let count = counts[at];
        counts[at] = running;
        running = running + count;
    }
    totals[lane] = running;
    workgroupBarrier();

    // The keys with a smaller value come before.
    var base = 0u;
    for (var digit = 0u; digit < lane; digit = digit + 1u) {
        base = base + totals[digit];
    }
    for (var wg = 0u; wg < safe_num_wgs; wg = wg + 1u) {
        let at = lane * num_wgs + wg;
        counts[at] = counts[at] + base;
    }
}

@compute @workgroup_size(256)
fn scan_partitions_even(@builtin(local_invocation_id) lane: vec3<u32>) {
    scan_partitions(lane.x);
}

@compute @workgroup_size(256)
fn scan_partitions_odd(@builtin(local_invocation_id) lane: vec3<u32>) {
    scan_partitions(lane.x);
}
";

/// Moves each key, and the splat index that belongs to it, to its place.
pub const RADIX_SORT: &'static str = "
struct SortInfo {
    num_keys: u32,
    even_pass: u32,
    odd_pass: u32,
    padding: u32,
};

@group(0) @binding(0) var<storage, read> info: SortInfo;
@group(0) @binding(1) var<storage, read> counts: array<u32>;
@group(0) @binding(2) var<storage, read_write> keys_a: array<u32>;
@group(0) @binding(3) var<storage, read_write> keys_b: array<u32>;
@group(0) @binding(4) var<storage, read_write> payload_a: array<u32>;
@group(0) @binding(5) var<storage, read_write> payload_b: array<u32>;

const WG_SIZE: u32 = 256u;

// Larger than the value of any byte.
const NO_DIGIT: u32 = 256u;

var<workgroup> digits: array<u32, 256>;

// The place of this lane's key: behind the equal ones of earlier lanes.
fn scatter_place(lane: u32, wg: u32, num_wgs: u32, digit: u32) -> u32 {
    var before = 0u;
    for (var other = 0u; other < lane; other = other + 1u) {
        if digits[other] == digit {
            before = before + 1u;
        }
    }
    return counts[digit * num_wgs + wg] + before;
}

@compute @workgroup_size(256)
fn scatter_even(
    @builtin(workgroup_id) wg: vec3<u32>,
    @builtin(local_invocation_id) lane: vec3<u32>,
    @builtin(num_workgroups) num_wgs: vec3<u32>,
) {
    let index = wg.x * WG_SIZE + lane.x;
    var digit = NO_DIGIT;
    if index < info.num_keys {
        digit = (keys_a[index] >> (8u * info.even_pass)) & 255u;
    }
    digits[lane.x] = digit;
    workgroupBarrier();
    if index < info.num_keys {
        let place = scatter_place(lane.x, wg.x, num_wgs.x, digit);
        keys_b[place] = keys_a[index];
        payload_b[place] = payload_a[index];
    }
}

@compute @workgroup_size(256)
fn scatter_odd(
    @builtin(workgroup_id) wg: vec3<u32>,
    @builtin(local_invocation_id) lane: vec3<u32>,
    @builtin(num_workgroups) num_wgs: vec3<u32>,
) {
    let index = wg.x * WG_SIZE + lane.x;
    var digit = NO_DIGIT;
    if index < info.num_keys {
        digit = (keys_b[index] >> (8u * info.odd_pass)) & 255u;
    }
    digits[lane.x] = digit;
    workgroupBarrier();
    if index < info.num_keys {
        let place = scatter_place(lane.x, wg.x, num_wgs.x, digit);
        keys_a[place] = keys_b[index];
        payload_a[place] = payload_b[index];
    }
}
";

} // verus!
