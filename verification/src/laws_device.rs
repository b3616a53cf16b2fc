//! What holds of devices, of the frames that are drawn on them, and of sorting.
use vstd::prelude::*;

use crate::device::{
    splats_for, tier_for_buffer, tier_for_memory, tier_of, DeviceTier,
};
use crate::sort::ascending;
use crate::surface::{first_or_zero, frame_steps, RenderStep};

verus! {

/// A device is given as many splats as its buffers and its tier allow: no larger
/// number keeps to both.
pub proof fn splats_fill_the_device(max_buffer_size: int, tier: DeviceTier, n: int)
    requires
        0 <= max_buffer_size,
    ensures
        0 <= n <= tier.splat_limit() && 100 * n <= max_buffer_size <==> 0 <= n <= splats_for(
            max_buffer_size,
            tier,
        ),
{
}

/// A device is of the low tier up to 4 GiB of memory, or buffers below 257 MiB, and of
/// the high tier beyond 8 GiB, or from buffers of 1025 MiB on. Known memory decides.
pub proof fn tiers_start_where_they_say(memory: u64, max_buffer_size: int)
    ensures
        tier_for_memory(memory as int) == DeviceTier::Low <==> memory <= 4294967296,
        tier_for_memory(memory as int) == DeviceTier::High <==> memory > 8589934592,
        tier_for_buffer(max_buffer_size) == DeviceTier::Low <==> max_buffer_size < 269484032,
        tier_for_buffer(max_buffer_size) == DeviceTier::High <==> max_buffer_size >= 1074790400,
        tier_of(max_buffer_size, Some(memory)) == tier_for_memory(memory as int),
        tier_of(max_buffer_size, None) == tier_for_buffer(max_buffer_size),
        2 * DeviceTier::Low.splat_limit() == DeviceTier::Medium.splat_limit(),
        2 * DeviceTier::Medium.splat_limit() == DeviceTier::High.splat_limit(),
        DeviceTier::Low.splat_limit() == 1_000_000,
{
}

/// The format that is picked is the first sRGB one, or the first at all where there is
/// none.
pub proof fn first_srgb_is_picked(flags: Seq<bool>, i: int)
    requires
        0 <= i <= flags.len(),
        forall|j: int| 0 <= j < i ==> !#[trigger] flags[j],
        i < flags.len() ==> flags[i],
    ensures
        first_or_zero(flags) == if i < flags.len() {
            i
        } else {
            0
        },
{
    if i < flags.len() {
        assert(flags.contains(true));
        flags.index_of_first_ensures(true);
        let first = flags.index_of_first(true)->0;
        assert(flags[first]);
    } else {
        assert forall|j: int| 0 <= j < flags.len() implies flags[j] != true by {
            assert(!flags[j]);
        }
    }
}

/// The place of a step among all steps of a frame.
pub open spec fn rank(step: RenderStep) -> int {
    match step {
        RenderStep::ResetStopwatch => 0,
        RenderStep::Acquire => 1,
        RenderStep::Prepare => 2,
        RenderStep::PrepareUi => 3,
        RenderStep::StartStopwatch => 4,
        RenderStep::DrawScene => 5,
        RenderStep::StopStopwatch => 6,
        RenderStep::Display => 7,
        RenderStep::EndStopwatch => 8,
        RenderStep::DrawUi => 9,
        RenderStep::CleanupUi => 10,
        RenderStep::Submit => 11,
        RenderStep::Present => 12,
    }
}

/// The steps of a frame come in their order, none twice.
pub proof fn steps_come_in_order(redraw_scene: bool, ui: bool, stopwatch: bool, i: int, j: int)
    requires
        0 <= i < j < frame_steps(redraw_scene, ui, stopwatch).len(),
    ensures
        rank(frame_steps(redraw_scene, ui, stopwatch)[i]) < rank(
            frame_steps(redraw_scene, ui, stopwatch)[j],
        ),
{
}

/// Which steps a frame has: those of the scene where it is drawn anew, those of the user
/// interface where there is one, those of the stopwatch where one runs, and always those
/// that bring the picture to the screen.
pub proof fn steps_are_those_needed(redraw_scene: bool, ui: bool, stopwatch: bool, step: RenderStep)
    ensures
        frame_steps(redraw_scene, ui, stopwatch).contains(step) <==> match step {
            RenderStep::Prepare | RenderStep::DrawScene => redraw_scene,
            RenderStep::PrepareUi | RenderStep::DrawUi | RenderStep::CleanupUi => ui,
            RenderStep::ResetStopwatch
            | RenderStep::StartStopwatch
            | RenderStep::StopStopwatch
            | RenderStep::EndStopwatch => stopwatch,
            RenderStep::Acquire
            | RenderStep::Display
            | RenderStep::Submit
            | RenderStep::Present => true,
        },
{
    broadcast use vstd::seq_lib::group_seq_properties;

    let last = seq![RenderStep::Submit, RenderStep::Present];
    assert(last[0] == RenderStep::Submit && last[1] == RenderStep::Present);
}

/// Keys are in order exactly where no key is larger than the next.
pub proof fn order_is_step_by_step(s: Seq<u32>)
    ensures
        ascending(s) <==> forall|i: int| 0 < i < s.len() ==> s[i - 1] <= #[trigger] s[i],
    decreases s.len(),
{
    if forall|i: int| 0 < i < s.len() ==> s[i - 1] <= #[trigger] s[i] {
        assert forall|i: int, j: int| 0 <= i <= j < s.len() implies s[i] <= s[j] by {
            steps_add_up(s, i, j);
        }
    } else {
        let i = choose|i: int| 0 < i < s.len() && s[i - 1] > #[trigger] s[i];
        assert(s[i - 1] > s[i]);
    }
}

proof fn steps_add_up(s: Seq<u32>, i: int, j: int)
    requires
        forall|k: int| 0 < k < s.len() ==> s[k - 1] <= #[trigger] s[k],
        0 <= i <= j < s.len(),
    ensures
        s[i] <= s[j],
    decreases j - i,
{
    if i < j {
        steps_add_up(s, i, j - 1);
        assert(s[j - 1] <= s[j]);
    }
}

} // verus!
