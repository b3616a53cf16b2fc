use splat_viewer::device::RenderConfig;
use splat_viewer::surface::{
    initial_size, recovery, render_steps, surface_plan, PresentMode, Recovery, RenderFormat,
    RenderStep, SurfaceError,
};

#[test]
fn window_without_size_gets_one() {
    assert_eq!(initial_size(0, 0), (800, 600));
    assert_eq!(initial_size(0, 5), (0, 5));
    assert_eq!(initial_size(1920, 1080), (1920, 1080));
}

#[test]
fn surface_prefers_srgb() {
    let config = RenderConfig {
        no_vsync: false,
        hdr: false,
    };
    let plan = surface_plan(&config, &vec![false, true, true], 3, 4);
    assert_eq!(plan.format, 1);
    assert_eq!(plan.render_format, RenderFormat::Rgba8Unorm);
    assert_eq!(plan.present_mode, PresentMode::AutoVsync);
    assert_eq!((plan.width, plan.height, plan.frame_latency), (3, 4, 2));

    let config = RenderConfig {
        no_vsync: true,
        hdr: true,
    };
    let plan = surface_plan(&config, &vec![false, false], 3, 4);
    assert_eq!(plan.format, 0);
    assert_eq!(plan.render_format, RenderFormat::Rgba16Float);
    assert_eq!(plan.present_mode, PresentMode::AutoNoVsync);
}

#[test]
fn full_frame() {
    assert_eq!(
        render_steps(true, true, true),
        vec![
            RenderStep::ResetStopwatch,
            RenderStep::Acquire,
            RenderStep::Prepare,
            RenderStep::PrepareUi,
            RenderStep::StartStopwatch,
            RenderStep::DrawScene,
            RenderStep::StopStopwatch,
            RenderStep::Display,
            RenderStep::EndStopwatch,
            RenderStep::DrawUi,
            RenderStep::CleanupUi,
            RenderStep::Submit,
            RenderStep::Present,
        ]
    );
}

#[test]
fn frame_without_changes() {
    assert_eq!(
        render_steps(false, false, false),
        vec![
            RenderStep::Acquire,
            RenderStep::Display,
            RenderStep::Submit,
            RenderStep::Present,
        ]
    );
    assert!(!render_steps(false, true, true).contains(&RenderStep::DrawScene));
    assert!(!render_steps(true, false, true).contains(&RenderStep::DrawUi));
}

#[test]
fn lost_surfaces_are_set_up_again() {
    assert_eq!(recovery(SurfaceError::Lost), Recovery::Resize);
    assert_eq!(recovery(SurfaceError::OutOfMemory), Recovery::Exit);
    assert_eq!(recovery(SurfaceError::Outdated), Recovery::Report);
    assert_eq!(recovery(SurfaceError::Timeout), Recovery::Report);
    assert_eq!(recovery(SurfaceError::Other), Recovery::Report);
}
