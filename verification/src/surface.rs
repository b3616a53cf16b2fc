//! What the window's surface is set up with, and the steps of drawing a frame.
use vstd::prelude::*;

use crate::device::RenderConfig;

verus! {

/// The size that a window starts with: its own, or 800 by 600 where it has none.
pub fn initial_size(width: u32, height: u32) -> (size: (u32, u32))
    ensures
        size == if width == 0 && height == 0 {
            (800u32, 600u32)
        } else {
            (width, height)
        },
{
    if width == 0 && height == 0 {
        (800, 600)
    } else {
        (width, height)
    }
}

/// The texels that splats are drawn into.
#[derive(Debug, Clone, Copy, PartialEq, Eq, Structural)]
pub enum RenderFormat {
    Rgba16Float,
    Rgba8Unorm,
}

#[derive(Debug, Clone, Copy, PartialEq, Eq, Structural)]
pub enum PresentMode {
    AutoNoVsync,
    AutoVsync,
}

/// How the surface is set up.
#[derive(Debug, Clone, Copy, PartialEq, Eq, Structural)]
pub struct SurfacePlan {
    /// Which one of the formats that the surface offers.
    pub format: usize,
    pub render_format: RenderFormat,
    pub width: u32,
    pub height: u32,
    pub frame_latency: u32,
    pub present_mode: PresentMode,
}

/// The place of the first `true`, or 0 where there is none.
pub open spec fn first_or_zero(flags: Seq<bool>) -> int {
    if !flags.contains(true) {
        0
    } else {
        flags.index_of_first(true)->0
    }
}

/// The setup for a surface that offers as many formats as `srgb` has entries,
/// each telling whether the format is an sRGB one.
pub fn surface_plan(config: &RenderConfig, srgb: &Vec<bool>, width: u32, height: u32) -> (plan:
    SurfacePlan)
    requires
        srgb@.len() > 0,
    ensures
        plan.format == first_or_zero(srgb@),
        plan.format < srgb@.len(),
        plan.render_format == if config.hdr {
            RenderFormat::Rgba16Float
        } else {
            RenderFormat::Rgba8Unorm
        },
        plan.width == width,
        plan.height == height,
        plan.frame_latency == 2,
        plan.present_mode == if config.no_vsync {
            PresentMode::AutoNoVsync
        } else {
            PresentMode::AutoVsync
        },
{
    SurfacePlan {
        format: first_srgb(srgb),
        render_format: if config.hdr {
            RenderFormat::Rgba16Float
        } else {
            RenderFormat::Rgba8Unorm
        },
        width,
        height,
        frame_latency: 2,
        present_mode: if config.no_vsync {
            PresentMode::AutoNoVsync
        } else {
            PresentMode::AutoVsync
        },
    }
}

fn first_srgb(srgb: &Vec<bool>) -> (i: usize)
    requires
        srgb@.len() > 0,
    ensures
        i == first_or_zero(srgb@),
        i < srgb@.len(),
{
    let mut i: usize = 0;
    while i < srgb.len()
        invariant
            i <= srgb@.len(),
            forall|j: int| 0 <= j < i ==> !#[trigger] srgb@[j],
        decreases srgb@.len() - i,
    {
        if srgb[i] {
            proof {
                srgb@.index_of_first_ensures(true);
                let first = srgb@.index_of_first(true)->0;
                assert(srgb@[i as int]);
                assert(srgb@[first]);
                assert(first == i);
            }
            return i;
        }
        i += 1;
    }
    0
}

/// A step of drawing a frame.
#[derive(Debug, Clone, Copy, PartialEq, Eq, Structural)]
pub enum RenderStep {
    ResetStopwatch,
    /// Get the surface's next texture. Where that fails the frame ends here.
    Acquire,
    /// Sort and project the splats.
    Prepare,
    /// Upload what the user interface shows.
    PrepareUi,
    StartStopwatch,
    /// Draw the splats into the display's texture.
    DrawScene,
    StopStopwatch,
    /// Draw the display's texture onto the surface.
    Display,
    EndStopwatch,
    /// Draw the user interface over it.
    DrawUi,
    CleanupUi,
    Submit,
    Present,
}

/// One step, or none.
pub open spec fn only_if(take: bool, step: RenderStep) -> Seq<RenderStep> {
    if take {
        seq![step]
    } else {
        seq![]
    }
}

/// The steps of a frame: with a scene that has to be drawn anew, with a user
/// interface on top, with a stopwatch running.
pub open spec fn frame_steps(redraw_scene: bool, ui: bool, stopwatch: bool) -> Seq<RenderStep> {
    only_if(stopwatch, RenderStep::ResetStopwatch) + seq![RenderStep::Acquire] + only_if(
        redraw_scene,
        RenderStep::Prepare,
    ) + only_if(ui, RenderStep::PrepareUi) + only_if(
        stopwatch,
        RenderStep::StartStopwatch,
    ) + only_if(redraw_scene, RenderStep::DrawScene) + only_if(stopwatch, RenderStep::StopStopwatch)
        + seq![RenderStep::Display] + only_if(stopwatch, RenderStep::EndStopwatch) + only_if(
        ui,
        RenderStep::DrawUi,
    ) + only_if(ui, RenderStep::CleanupUi) + seq![RenderStep::Submit, RenderStep::Present]
}

fn push_if(steps: &mut Vec<RenderStep>, take: bool, step: RenderStep)
    ensures
        final(steps)@ == old(steps)@ + only_if(take, step),
{
    if take {
        steps.push(step);
    }
}

/// The steps of drawing a frame, in order.
pub fn render_steps(redraw_scene: bool, ui: bool, stopwatch: bool) -> (steps: Vec<RenderStep>)
    ensures
        steps@ == frame_steps(redraw_scene, ui, stopwatch),
{
    let mut steps: Vec<RenderStep> = Vec::new();
    push_if(&mut steps, stopwatch, RenderStep::ResetStopwatch);
    steps.push(RenderStep::Acquire);
    push_if(&mut steps, redraw_scene, RenderStep::Prepare);
    push_if(&mut steps, ui, RenderStep::PrepareUi);
    push_if(&mut steps, stopwatch, RenderStep::StartStopwatch);
    push_if(&mut steps, redraw_scene, RenderStep::DrawScene);
    push_if(&mut steps, stopwatch, RenderStep::StopStopwatch);
    steps.push(RenderStep::Display);
    push_if(&mut steps, stopwatch, RenderStep::EndStopwatch);
    push_if(&mut steps, ui, RenderStep::DrawUi);
    push_if(&mut steps, ui, RenderStep::CleanupUi);
    steps.push(RenderStep::Submit);
    steps.push(RenderStep::Present);
    steps
}

/// Why a frame's texture could not be had.
#[derive(Debug, Clone, Copy, PartialEq, Eq, Structural)]
pub enum SurfaceError {
    Timeout,
    Outdated,
    Lost,
    OutOfMemory,
    Other,
}

/// What is done about a frame that was not drawn.
#[derive(Debug, Clone, Copy, PartialEq, Eq, Structural)]
pub enum Recovery {
    /// Set the surface up again, for the window's size.
    Resize,
    Exit,
    /// Say so; the next frame should do.
    Report,
}

pub fn recovery(error: SurfaceError) -> (r: Recovery)
    ensures
        r == match error {
            SurfaceError::Lost => Recovery::Resize,
            SurfaceError::OutOfMemory => Recovery::Exit,
            _ => Recovery::Report,
        },
{
    match error {
        SurfaceError::Lost => Recovery::Resize,
        SurfaceError::OutOfMemory => Recovery::Exit,
        _ => Recovery::Report,
    }
}

/// Every frame ends by being shown. The splats are drawn where the scene has to
/// be drawn anew, and the user interface where there is one.
pub proof fn frame_is_shown(redraw_scene: bool, ui: bool, stopwatch: bool)
    ensures
        frame_steps(redraw_scene, ui, stopwatch).last() == RenderStep::Present,
        frame_steps(redraw_scene, ui, stopwatch).contains(RenderStep::Display),
        frame_steps(redraw_scene, ui, stopwatch).contains(RenderStep::DrawScene) <==> redraw_scene,
        frame_steps(redraw_scene, ui, stopwatch).contains(RenderStep::DrawUi) <==> ui,
{
    broadcast use vstd::seq_lib::group_seq_properties;

}

} // verus!
