//! The state of a viewer's window, and what each request makes of it.
use vstd::prelude::*;
use vstd::std_specs::cmp::PartialEqSpec;

use crate::animation::{
    can_pass, closed_curve, left_after, nearest_single, single, Animation, Motion, Smoothstep,
    TrackingShot, TrajectoryType, Transition,
};
use crate::cloud::{downsampled_from, Aabb, GenericGaussianPointCloud, QuantizationInputs};
use crate::time::{longest_nanos, Duration};
use crate::views::{
    cameras, cameras_of, decimal_text, digits, largest_id, largest_view_id, next_id, SceneCamera,
    SceneInfo, Split,
};

verus! {

/// What is still to be done outside the window's state.
#[derive(Debug, Clone, Copy, PartialEq, Eq, Structural)]
pub enum Effect {
    ConfigureSurface(u32, u32),
    ResizeDisplay(u32, u32),
    /// Fit the camera's projection to a size.
    ResizeProjection(u32, u32),
    /// Let the controller start from the camera.
    ResetController,
    /// Lay a path out from the camera and start it.
    StartTrajectory(TrajectoryType),
}

/// What the window knows of the point cloud that it shows.
#[derive(Debug, Clone, Copy, PartialEq, Eq, Structural)]
pub struct CloudInfo {
    pub compressed: bool,
    pub sh_deg: u32,
    pub num_points: usize,
}

/// The state of a window with cameras of type `C` and trajectories of type `P`.
pub struct WindowContext<C, P> {
    pub width: u32,
    pub height: u32,
    /// The size that the last frame was drawn in.
    pub viewport: (u32, u32),
    /// Bit pattern of a single-precision number.
    pub scale_factor: u32,
    pub camera: C,
    /// The time since the point cloud was opened, up to a little over five seconds.
    pub walltime: Duration,
    /// What moves the camera, and whether it is playing.
    pub animation: Option<(Animation<Motion<C, P>>, bool)>,
    pub scene: Option<SceneInfo>,
    pub current_view: Option<usize>,
    pub ui_visible: bool,
    pub saved_cameras: Vec<SceneCamera<C>>,
    /// The camera that the point cloud came with.
    pub initial_camera: Option<C>,
    /// If the point cloud was downsampled, the original count.
    pub downsampled_from: Option<usize>,
    pub cloud: CloudInfo,
    /// Whether it is known where the point cloud was read from.
    pub has_cloud_path: bool,
    /// Whether it is known where the scene was read from.
    pub has_scene_path: bool,
}

/// Where a view of a new point cloud starts.
#[derive(Debug, Clone, Copy, PartialEq, Eq, Structural)]
pub enum StartView<C> {
    /// At a camera, with its depth range fitted to the cloud.
    At(C),
    /// Off the cloud's center by half its radius.
    Overview,
}

/// What became of a point cloud on its way to a device.
pub struct Prepared {
    /// If the cloud was downsampled, the original count.
    pub downsampled_from: Option<usize>,
    /// If the cloud is to be compressed, the values to quantize.
    pub to_quantize: Option<QuantizationInputs>,
}

/// Fits a cloud that was read to a device: downsamples it to what the device
/// holds, and hands out what has to be quantized where compression is asked for.
pub fn prepare<F: Fn(Vec<[u32; 3]>) -> (Aabb, [u32; 3])>(
    cloud: &mut GenericGaussianPointCloud,
    max_splats: usize,
    compress: bool,
    bound: F,
) -> (p: Prepared)
    requires
        old(cloud).wf(),
        forall|points: Vec<[u32; 3]>| #[trigger] call_requires(bound, (points,)),
    ensures
        final(cloud).wf(),
        final(cloud).num_points <= max_splats,
        p.downsampled_from == if old(cloud).num_points <= max_splats {
            None
        } else {
            Some(old(cloud).num_points)
        },
        p.downsampled_from is None ==> *final(cloud) == *old(cloud),
        p.downsampled_from is Some ==> downsampled_from(
            *old(cloud),
            max_splats as int,
            *final(cloud),
        ),
        p.downsampled_from is Some ==> final(cloud).bounded_by(bound),
        p.to_quantize is Some <==> compress && !old(cloud).is_compressed(),
        p.to_quantize matches Some(inputs) ==> final(cloud).quantizes(inputs),
{
    let original: Option<usize> = cloud.downsample(max_splats, bound);
    let to_quantize: Option<QuantizationInputs> = if compress && !cloud.compressed() {
        Some(cloud.quantization_inputs())
    } else {
        None
    };
    Prepared { downsampled_from: original, to_quantize }
}

/// Where the view starts: at the camera that the cloud came with, if any.
pub fn start_view<C: Copy>(initial_camera: &Option<C>) -> (view: StartView<C>)
    ensures
        view == match *initial_camera {
            Some(camera) => StartView::At(camera),
            None => StartView::Overview,
        },
{
    match initial_camera {
        Some(camera) => StartView::At(*camera),
        None => StartView::Overview,
    }
}

/// A frame that has to be drawn.
#[derive(Debug, Clone, Copy, PartialEq, Eq, Structural)]
pub struct FramePlan {
    pub redraw_scene: bool,
    pub with_ui: bool,
}

/// What the window's state puts on the screen.
#[derive(Debug)]
pub struct Shown<C> {
    pub camera: C,
    pub viewport: (u32, u32),
    pub walltime: Duration,
}

/// What `update` found to do.
#[derive(Debug, Clone, Copy, PartialEq, Eq, Structural)]
pub enum UpdateStep {
    /// The user has taken over: the animation is gone, the controller starts
    /// from the camera.
    Cancelled,
    /// The camera is where the animation is now.
    Sample,
    /// The controller moves the camera.
    Free,
}

/// The nanoseconds of a shot through `n` views: two seconds for each.
pub open spec fn shot_nanos(n: nat) -> nat {
    2_000_000_000 * single(n)
}

/// The clock of a window: it runs until five seconds have passed.
pub open spec fn clock_after(walltime: nat, dt: nat) -> nat {
    if walltime < 5_000_000_000 {
        walltime + dt
    } else {
        walltime
    }
}

/// The time that an animation moves on by: none while it is not playing.
pub open spec fn played(playing: bool, dt: nat) -> nat {
    if playing {
        dt
    } else {
        0
    }
}

impl<C, P> WindowContext<C, P> {
    /// A window of a size that shows a cloud from `camera`.
    pub fn new(
        size: (u32, u32),
        scale_factor: u32,
        camera: C,
        initial_camera: Option<C>,
        cloud: CloudInfo,
        downsampled_from: Option<usize>,
    ) -> (state: Self)
        ensures
            state.width == size.0,
            state.height == size.1,
            state.viewport == size,
            state.scale_factor == scale_factor,
            state.camera == camera,
            state.walltime@ == 0,
            state.animation is None,
            state.scene is None,
            state.current_view is None,
            state.ui_visible,
            state.saved_cameras@ == Seq::<SceneCamera<C>>::empty(),
            state.initial_camera == initial_camera,
            state.downsampled_from == downsampled_from,
            state.cloud == cloud,
            !state.has_cloud_path,
            !state.has_scene_path,
    {
        WindowContext {
            width: size.0,
            height: size.1,
            viewport: size,
            scale_factor,
            camera,
            walltime: Duration::zero(),
            animation: None,
            scene: None,
            current_view: None,
            ui_visible: true,
            saved_cameras: Vec::new(),
            initial_camera,
            downsampled_from,
            cloud,
            has_cloud_path: false,
            has_scene_path: false,
        }
    }

    /// Gives the window a new size, unless it is empty, and a new scale, which
    /// comes with whether it is positive.
    pub fn resize(&mut self, width: u32, height: u32, scale_factor: Option<(u32, bool)>) -> (effects:
        Vec<Effect>)
        ensures
            effects@ == if width > 0 && height > 0 {
                seq![
                    Effect::ConfigureSurface(width, height),
                    Effect::ResizeDisplay(width, height),
                    Effect::ResizeProjection(width, height),
                    Effect::ResizeProjection(width, height),
                ]
            } else {
                seq![]
            },
            *final(self) == (WindowContext {
                width: if width > 0 && height > 0 {
                    width
                } else {
                    old(self).width
                },
                height: if width > 0 && height > 0 {
                    height
                } else {
                    old(self).height
                },
                viewport: if width > 0 && height > 0 {
                    (width, height)
                } else {
                    old(self).viewport
                },
                scale_factor: match scale_factor {
                    Some((scale, true)) => scale,
                    _ => old(self).scale_factor,
                },
                ..*old(self)
            }),
    {
        let mut effects: Vec<Effect> = Vec::new();
        if width > 0 && height > 0 {
            self.width = width;
            self.height = height;
            effects.push(Effect::ConfigureSurface(width, height));
            effects.push(Effect::ResizeDisplay(width, height));
            effects.push(Effect::ResizeProjection(width, height));
            self.viewport = (width, height);
            effects.push(Effect::ResizeProjection(width, height));
        }
        if let Some((scale, positive)) = scale_factor {
            if positive {
                self.scale_factor = scale;
            }
        }
        effects
    }

    /// Whether the state can be moved on by `dt`: the clock can, and an
    /// animation that is playing can.
    pub open spec fn can_update(&self, dt: nat, user_input: bool) -> bool {
        &&& clock_after(self.walltime@, dt) <= longest_nanos()
        &&& !user_input ==> match self.animation {
            Some((animation, playing)) => can_pass(
                animation.duration@,
                animation.time_left@,
                animation.looping,
                played(playing, dt),
            ),
            None => true,
        }
    }

    /// The state after `update`.
    pub open spec fn updated(before: Self, dt: nat, user_input: bool, after: Self) -> bool {
        &&& after.walltime@ == clock_after(before.walltime@, dt)
        &&& match before.animation {
            Some((old_animation, playing)) => if user_input {
                after.animation is None
            } else {
                &&& after.animation matches Some((animation, still))
                &&& still == playing
                &&& animation.time_left@ == left_after(
                    old_animation.duration@,
                    old_animation.time_left@,
                    old_animation.looping,
                    played(playing, dt),
                )
                &&& animation == (Animation { time_left: animation.time_left, ..old_animation })
            },
            None => after.animation is None,
        }
        &&& after == (WindowContext {
            walltime: after.walltime,
            animation: after.animation,
            ..before
        })
    }

    /// Moves the clock and the animation on by `dt`, or ends the animation where
    /// the user has moved the camera.
    pub fn update(&mut self, dt: Duration, user_input: bool) -> (step: UpdateStep)
        requires
            old(self).can_update(dt@, user_input),
        ensures
            step == match old(self).animation {
                Some(_) if user_input => UpdateStep::Cancelled,
                Some(_) => UpdateStep::Sample,
                None => UpdateStep::Free,
            },
            Self::updated(*old(self), dt@, user_input, *final(self)),
            step == UpdateStep::Free && old(self).walltime@ >= 5_000_000_000 ==> *final(self)
                == *old(self),
    {
        if self.walltime.shorter_than(Duration::from_secs(5)) {
            if let Some(walltime) = self.walltime.checked_add(dt) {
                self.walltime = walltime;
            }
        }
        match &mut self.animation {
            Some((animation, playing)) => {
                if user_input {
                    self.cancle_animation();
                    UpdateStep::Cancelled
                } else {
                    let dt: Duration = if *playing {
                        dt
                    } else {
                        Duration::zero()
                    };
                    animation.update(dt);
                    UpdateStep::Sample
                }
            },
            None => UpdateStep::Free,
        }
    }

    /// Ends the animation.
    pub fn cancle_animation(&mut self) -> (effects: Effect)
        ensures
            effects == Effect::ResetController,
            *final(self) == (WindowContext { animation: None, ..*old(self) }),
    {
        self.animation = None;
        Effect::ResetController
    }

    /// Takes the camera, with its depth range fitted to the cloud, and tells
    /// whether the screen has changed since `before` and has to be drawn anew.
    pub fn finish_update(&mut self, before: &Shown<C>, fitted: C) -> (changed: bool) where
        C: PartialEq,

        ensures
            *final(self) == (WindowContext { camera: fitted, ..*old(self) }),
            C::obeys_eq_spec() ==> changed == final(self).differs_from(*before),
            old(self).viewport != before.viewport || old(self).walltime != before.walltime
                ==> changed,
    {
        self.camera = fitted;
        self.screen_changed(before)
    }

    /// Whether something on the screen is no longer as it was.
    pub open spec fn differs_from(&self, before: Shown<C>) -> bool where C: PartialEq {
        ||| !self.camera.eq_spec(&before.camera)
        ||| self.viewport != before.viewport
        ||| self.walltime != before.walltime
    }

    /// Whether something on the screen is no longer as it was.
    pub fn screen_changed(&self, before: &Shown<C>) -> (changed: bool) where C: PartialEq
        ensures
            C::obeys_eq_spec() ==> changed == self.differs_from(*before),
            self.viewport != before.viewport || self.walltime != before.walltime ==> changed,
    {
        !(self.camera == before.camera) || self.viewport.0 != before.viewport.0 || self.viewport.1
            != before.viewport.1 || self.walltime != before.walltime
    }

    /// Takes the camera that the animation gave, and drops an animation that is
    /// over.
    pub fn sampled(&mut self, camera: C) -> (effects: Vec<Effect>)
        ensures
            effects@ == if old(self).animation_over() {
                seq![
                    Effect::ResizeProjection(old(self).width, old(self).height),
                    Effect::ResetController,
                ]
            } else {
                seq![Effect::ResizeProjection(old(self).width, old(self).height)]
            },
            *final(self) == (WindowContext {
                camera,
                animation: if old(self).animation_over() {
                    None
                } else {
                    old(self).animation
                },
                ..*old(self)
            }),
    {
        let mut effects: Vec<Effect> = Vec::new();
        self.camera = camera;
        effects.push(Effect::ResizeProjection(self.width, self.height));
        let over: bool = match &self.animation {
            Some((animation, _)) => animation.done(),
            None => false,
        };
        if over {
            self.animation = None;
            effects.push(Effect::ResetController);
        }
        effects
    }

    /// Whether there is an animation that has come to its end.
    pub open spec fn animation_over(&self) -> bool {
        self.animation matches Some((animation, _)) && animation.ended()
    }

    /// The view of the scene that the camera may have moved out of.
    pub fn view_to_check(&self) -> (view: Option<usize>)
        ensures
            view == if self.scene is Some {
                self.current_view
            } else {
                None
            },
    {
        match &self.scene {
            Some(_) => self.current_view,
            None => None,
        }
    }

    /// The camera has moved out of the selected view.
    pub fn leave_view(&mut self)
        ensures
            *final(self) == (WindowContext { current_view: None, ..*old(self) }),
    {
        self.current_view = None;
    }

    /// A frame was drawn in the window's size.
    pub fn rendered(&mut self)
        ensures
            *final(self) == (WindowContext {
                viewport: (old(self).width, old(self).height),
                ..*old(self)
            }),
    {
        self.viewport = (self.width, self.height);
    }

    /// Whether the scene has to be drawn anew: its settings have changed, or the
    /// window's size has.
    pub open spec fn scene_outdated(&self, settings_changed: bool) -> bool {
        settings_changed || self.viewport != (self.width, self.height)
    }

    /// The frame that has to be drawn, if any: where the scene has to be drawn
    /// anew, or the user interface. The latter is on every frame while it is
    /// visible.
    pub fn frame_plan(&self, settings_changed: bool, redraw_ui: bool) -> (plan: Option<FramePlan>)
        ensures
            plan == if self.scene_outdated(settings_changed) || redraw_ui {
                Some(
                    FramePlan {
                        redraw_scene: self.scene_outdated(settings_changed),
                        with_ui: self.ui_visible,
                    },
                )
            } else {
                None
            },
    {
        let redraw_scene: bool = settings_changed || self.viewport.0 != self.width
            || self.viewport.1 != self.height;
        if redraw_scene || redraw_ui {
            Some(FramePlan { redraw_scene, with_ui: self.ui_visible })
        } else {
            None
        }
    }

    /// Takes a scene. Where no views are saved yet, its test cameras are.
    pub fn set_scene(&mut self, scene: SceneInfo, test_cameras: Vec<SceneCamera<C>>)
        ensures
            *final(self) == (WindowContext {
                scene: Some(scene),
                saved_cameras: if old(self).saved_cameras@.len() == 0 {
                    test_cameras
                } else {
                    old(self).saved_cameras
                },
                ..*old(self)
            }),
    {
        self.scene = Some(scene);
        if self.saved_cameras.len() == 0 {
            self.saved_cameras = test_cameras;
        }
    }

    /// Lets the animation rest where it is.
    pub fn stop_animation(&mut self) -> (effect: Effect)
        ensures
            effect == Effect::ResetController,
            *final(self) == (WindowContext {
                animation: match old(self).animation {
                    Some((animation, _)) => Some((animation, false)),
                    None => None,
                },
                ..*old(self)
            }),
    {
        if let Some((_, playing)) = &mut self.animation {
            *playing = false;
        }
        Effect::ResetController
    }

    /// Puts the camera somewhere at once.
    pub fn update_camera(&mut self, camera: C) -> (effect: Effect)
        ensures
            effect == Effect::ResizeProjection(old(self).width, old(self).height),
            *final(self) == (WindowContext { camera, ..*old(self) }),
    {
        self.camera = camera;
        Effect::ResizeProjection(self.width, self.height)
    }

    /// Check if an initial camera (embedded in PLY) is available.
    pub fn has_initial_camera(&self) -> (r: bool)
        ensures
            r == (self.initial_camera is Some),
    {
        self.initial_camera.is_some()
    }

    /// Start a trajectory animation along a path: one cycle of two seconds.
    pub fn start_trajectory(&mut self, trajectory_type: TrajectoryType, path: P)
        ensures
            final(self).animation matches Some((animation, playing)) && playing
                && animation.duration@ == 2_000_000_000 && animation == (Animation {
                duration: animation.duration,
                time_left: animation.duration,
                looping: false,
                sampler: Motion::<C, P>::Trajectory(trajectory_type, path),
            }),
            *final(self) == (WindowContext { animation: final(self).animation, ..*old(self) }),
    {
        let animation: Animation<Motion<C, P>> = Animation::new(
            Duration::from_secs(2),
            false,
            Motion::Trajectory(trajectory_type, path),
        );
        self.animation = Some((animation, true));
    }

    /// Whether the point cloud, and with it the scene, can be read again.
    pub fn reload(&self) -> (r: Result<bool, ReloadError>)
        ensures
            r is Ok <==> self.has_cloud_path,
            r matches Ok(scene_too) ==> scene_too == self.has_scene_path,
    {
        if self.has_cloud_path {
            Ok(self.has_scene_path)
        } else {
            Err(ReloadError::NoPointcloudPath)
        }
    }

    /// Takes what reading the point cloud again gave; `None` where the cloud
    /// could not be brought onto the device.
    pub fn reloaded(&mut self, downsampled_from: Option<usize>, cloud: Option<CloudInfo>)
        ensures
            *final(self) == (WindowContext {
                downsampled_from,
                cloud: match cloud {
                    Some(cloud) => cloud,
                    None => old(self).cloud,
                },
                ..*old(self)
            }),
    {
        self.downsampled_from = downsampled_from;
        if let Some(cloud) = cloud {
            self.cloud = cloud;
        }
    }

    /// Takes a new point cloud, seen from `camera`: the animation, the scene and
    /// the selected view are gone, and the clock starts anew. Tells whether the
    /// renderer was made for another kind of cloud.
    pub fn install_pointcloud(
        &mut self,
        cloud: CloudInfo,
        initial_camera: Option<C>,
        downsampled_from: Option<usize>,
        camera: C,
    ) -> (r: (bool, Effect))
        ensures
            r.0 == (old(self).cloud.compressed != cloud.compressed || old(self).cloud.sh_deg
                != cloud.sh_deg),
            r.1 == Effect::ResetController,
            final(self).walltime@ == 0,
            *final(self) == (WindowContext {
                cloud,
                initial_camera,
                downsampled_from,
                camera,
                animation: None,
                scene: None,
                current_view: None,
                walltime: final(self).walltime,
                ..*old(self)
            }),
    {
        let needs_new_renderer: bool = self.cloud.compressed != cloud.compressed
            || self.cloud.sh_deg != cloud.sh_deg;
        self.cloud = cloud;
        self.initial_camera = initial_camera;
        self.downsampled_from = downsampled_from;
        self.camera = camera;
        self.animation = None;
        self.scene = None;
        self.current_view = None;
        self.walltime = Duration::zero();
        (needs_new_renderer, Effect::ResetController)
    }
}

/// Why the point cloud cannot be read again.
#[derive(Debug, Clone, Copy, PartialEq, Eq, Structural)]
pub enum ReloadError {
    NoPointcloudPath,
}

impl<C: Copy, P> WindowContext<C, P> {
    /// What is on the screen.
    pub fn shown(&self) -> (shown: Shown<C>)
        ensures
            shown == (Shown {
                camera: self.camera,
                viewport: self.viewport,
                walltime: self.walltime,
            }),
    {
        Shown { camera: self.camera, viewport: self.viewport, walltime: self.walltime }
    }

    /// The state after `set_camera`.
    pub open spec fn camera_set(before: Self, camera: C, duration: nat, after: Self) -> bool {
        if duration == 0 {
            after == (WindowContext { camera, ..before })
        } else {
            &&& after.animation matches Some((animation, playing))
            &&& playing
            &&& animation.duration@ == duration
            &&& animation == (Animation {
                duration: animation.duration,
                time_left: animation.duration,
                looping: false,
                sampler: Motion::<C, P>::Transition(
                    Transition { from: before.camera, to: camera, interp_fn: Smoothstep },
                ),
            })
            &&& after == (WindowContext { animation: after.animation, ..before })
        }
    }

    /// Moves the camera somewhere, over some time or at once.
    pub fn set_camera(&mut self, camera: C, animation_duration: Duration) -> (effect: Option<
        Effect,
    >)
        ensures
            effect == if animation_duration@ == 0 {
                Some(Effect::ResizeProjection(old(self).width, old(self).height))
            } else {
                None
            },
            Self::camera_set(*old(self), camera, animation_duration@, *final(self)),
    {
        if animation_duration.is_zero() {
            Some(self.update_camera(camera))
        } else {
            let animation: Animation<Motion<C, P>> = Animation::new(
                animation_duration,
                false,
                Motion::Transition(Transition::new(self.camera, camera, Smoothstep)),
            );
            self.animation = Some((animation, true));
            None
        }
    }

    /// Reset camera to the initial view, over 300 milliseconds: the camera that
    /// the cloud came with, or `overview` where it came with none.
    pub fn reset_view(&mut self, overview: C)
        ensures
            Self::camera_set(
                *old(self),
                match old(self).initial_camera {
                    Some(camera) => camera,
                    None => overview,
                },
                300_000_000,
                *final(self),
            ),
    {
        let camera: C = match self.initial_camera {
            Some(camera) => camera,
            None => overview,
        };
        self.set_camera(camera, Duration::from_millis(300));
    }

    /// Selects a view of the scene and moves there over 200 milliseconds.
    /// `camera` is the scene's camera at `i`, if it has one.
    pub fn set_scene_camera(&mut self, i: usize, camera: Option<C>)
        ensures
            match old(self).scene {
                Some(_) => {
                    let selected = WindowContext { current_view: Some(i), ..*old(self) };
                    match camera {
                        Some(camera) => Self::camera_set(
                            selected,
                            camera,
                            200_000_000,
                            *final(self),
                        ),
                        None => *final(self) == selected,
                    }
                },
                None => *final(self) == *old(self),
            },
    {
        if self.scene.is_some() {
            self.current_view = Some(i);
            if let Some(camera) = camera {
                self.set_camera(camera, Duration::from_millis(200));
            }
        }
    }

    /// Reset to the initial camera and optionally start a trajectory animation.
    pub fn reset_and_replay(&mut self, trajectory_type: Option<TrajectoryType>) -> (effects: Vec<
        Effect,
    >)
        ensures
            match old(self).initial_camera {
                Some(camera) => {
                    &&& *final(self) == (WindowContext { camera, ..*old(self) })
                    &&& effects@ == match trajectory_type {
                        Some(t) => seq![Effect::ResetController, Effect::StartTrajectory(t)],
                        None => seq![Effect::ResetController],
                    }
                },
                None => *final(self) == *old(self) && effects@.len() == 0,
            },
    {
        let mut effects: Vec<Effect> = Vec::new();
        if let Some(camera) = self.initial_camera {
            self.camera = camera;
            effects.push(Effect::ResetController);
            if let Some(t) = trajectory_type {
                effects.push(Effect::StartTrajectory(t));
            }
        }
        effects
    }

    /// Starts a shot that runs through all saved views over and over, two
    /// seconds for each, counted in single precision. It takes two views.
    pub fn start_tracking_shot(&mut self)
        requires
            2 * single(old(self).saved_cameras@.len()) <= u64::MAX,
            old(self).saved_cameras@.len() <= usize::MAX - 4,
        ensures
            old(self).saved_cameras@.len() <= 1 ==> *final(self) == *old(self),
            old(self).saved_cameras@.len() > 1 ==> {
                &&& final(self).animation matches Some((animation, playing))
                &&& playing
                &&& animation.looping
                &&& animation.duration@ == shot_nanos(old(self).saved_cameras@.len())
                &&& animation.time_left == animation.duration
                &&& animation.sampler matches Motion::TrackingShot(shot)
                &&& shot.control_points@ == closed_curve(cameras_of(old(self).saved_cameras@))
                &&& shot.num_cameras == old(self).saved_cameras@.len()
                &&& *final(self) == (WindowContext {
                    animation: final(self).animation,
                    ..*old(self)
                })
            },
    {
        let n: usize = self.saved_cameras.len();
        if n > 1 {
            let all: Vec<C> = cameras(&self.saved_cameras);
            let shot: TrackingShot<C> = TrackingShot::from_cameras(&all);
            let secs: u128 = 2 * nearest_single(n);
            let animation: Animation<Motion<C, P>> = Animation::new(
                Duration::from_secs(secs as u64),
                true,
                Motion::TrackingShot(shot),
            );
            self.animation = Some((animation, true));
        }
    }

    /// Saves the view of the camera under an id that is not in use.
    pub fn save_view(&mut self)
        requires
            next_id(old(self).saved_cameras@, old(self).scene) <= usize::MAX,
        ensures
            final(self).saved_cameras@.len() == old(self).saved_cameras@.len() + 1,
            final(self).saved_cameras@.drop_last() == old(self).saved_cameras@,
            ({
                let view = final(self).saved_cameras@.last();
                &&& view.camera == old(self).camera
                &&& view.id == next_id(old(self).saved_cameras@, old(self).scene)
                &&& view.img_name@ == digits(view.id as nat)
                &&& view.width == old(self).width
                &&& view.height == old(self).height
                &&& view.split == Split::Test
            }),
            *final(self) == (WindowContext {
                saved_cameras: final(self).saved_cameras,
                ..*old(self)
            }),
    {
        let max_scene_id: usize = match &self.scene {
            Some(scene) => largest_id(&scene.ids),
            None => 0,
        };
        let max_id: usize = largest_view_id(&self.saved_cameras);
        let id: usize = if max_id < max_scene_id {
            max_scene_id + 1
        } else {
            max_id + 1
        };
        self.saved_cameras.push(
            SceneCamera {
                camera: self.camera,
                img_name: decimal_text(id),
                id,
                width: self.width,
                height: self.height,
                split: Split::Test,
            },
        );
    }
}

/// A move of the camera is over exactly when the time it was given has passed.
pub proof fn camera_arrives<C: Copy, P>(
    before: WindowContext<C, P>,
    camera: C,
    duration: nat,
    moving: WindowContext<C, P>,
    dt: nat,
    after: WindowContext<C, P>,
)
    requires
        duration > 0,
        WindowContext::camera_set(before, camera, duration, moving),
        WindowContext::updated(moving, dt, false, after),
    ensures
        after.animation_over() <==> duration <= dt,
{
}

/// Where an animation rests, time does not move it.
pub proof fn resting_animation_stays<C, P>(
    before: WindowContext<C, P>,
    animation: Animation<Motion<C, P>>,
    dt: nat,
    after: WindowContext<C, P>,
)
    requires
        before.animation == Some((animation, false)),
        WindowContext::updated(before, dt, false, after),
    ensures
        after.animation == before.animation,
{
    if let Some((rested, _)) = after.animation {
        crate::time::span_is_its_length(animation.time_left, rested.time_left);
    }
}

/// Where nothing moves the camera and the clock has run out, time changes nothing.
pub proof fn quiet_update_changes_nothing<C, P>(
    before: WindowContext<C, P>,
    dt: nat,
    user_input: bool,
    after: WindowContext<C, P>,
)
    requires
        before.animation is None,
        5_000_000_000 <= before.walltime@,
        WindowContext::updated(before, dt, user_input, after),
    ensures
        after == before,
{
    crate::time::span_is_its_length(before.walltime, after.walltime);
}

/// While the clock runs, each update changes what is on the screen.
pub proof fn running_clock_changes_screen<C: PartialEq, P>(
    before: WindowContext<C, P>,
    dt: nat,
    user_input: bool,
    after: WindowContext<C, P>,
    shown: Shown<C>,
)
    requires
        before.walltime@ < 5_000_000_000,
        0 < dt,
        shown.walltime == before.walltime,
        WindowContext::updated(before, dt, user_input, after),
    ensures
        after.differs_from(shown),
{
}

/// The clock never runs back, and it stands still once it is past five seconds.
pub proof fn clock_runs_out(walltime: nat, a: nat, b: nat)
    ensures
        walltime <= clock_after(walltime, a),
        5_000_000_000 <= clock_after(walltime, a) ==> clock_after(clock_after(walltime, a), b)
            == clock_after(walltime, a),
{
}

/// Once a frame has been drawn, and nothing changes, no other is.
pub proof fn drawn_frame_is_up_to_date<C, P>(before: WindowContext<C, P>)
    ensures
        !(WindowContext { viewport: (before.width, before.height), ..before }).scene_outdated(false),
{
}

} // verus!
