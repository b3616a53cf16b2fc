//! What keys ask for, and how often frames are drawn.
use vstd::prelude::*;

use crate::time::Duration;
use crate::window::WindowContext;

verus! {

/// The keys that the viewer knows.
#[derive(Debug, Clone, Copy, PartialEq, Eq, Structural)]
pub enum Key {
    T,
    U,
    C,
    H,
    R,
    N,
    PageUp,
    PageDown,
    /// A key that stands for a number.
    Number(usize),
    Other,
}

/// What a key asks for.
#[derive(Debug, Clone, Copy, PartialEq, Eq, Structural)]
pub enum KeyAction {
    StartTrackingShot,
    StopAnimation,
    ToggleUi,
    SaveView,
    /// Go home, to the initial view.
    ResetView,
    Reload,
    /// Move to a camera of the scene.
    Select(usize),
    Nothing,
}

/// The view after the selected one, round and round.
pub open spec fn page_up(current_view: Option<usize>, num_cameras: int) -> int {
    match current_view {
        Some(view) => (view + 1) % num_cameras,
        None => 0,
    }
}

/// The view before the selected one.
pub open spec fn page_down(current_view: Option<usize>, num_cameras: int) -> int {
    match current_view {
        Some(view) => (view - 1) % num_cameras,
        None => 0,
    }
}

/// A view of the scene by chance.
pub open spec fn view_by_chance(random: u32, num_cameras: int) -> int {
    random as int % num_cameras
}

/// What a key asks for among the views of a scene with so many cameras, of
/// which `nearest` is the one nearest to the camera.
pub open spec fn view_asked_for(
    key: Key,
    num_cameras: int,
    current_view: Option<usize>,
    random: u32,
    nearest: Option<usize>,
) -> KeyAction {
    match key {
        Key::Number(num) => KeyAction::Select(num),
        Key::R => KeyAction::Select(view_by_chance(random, num_cameras) as usize),
        Key::N => match nearest {
            Some(view) => KeyAction::Select(view),
            None => KeyAction::Nothing,
        },
        Key::PageUp => KeyAction::Select(page_up(current_view, num_cameras) as usize),
        Key::PageDown => KeyAction::Select(page_down(current_view, num_cameras) as usize),
        _ => KeyAction::Nothing,
    }
}

/// Whether the views of a scene can be gone through with a key.
pub open spec fn can_page(key: Key, num_cameras: int, current_view: Option<usize>) -> bool {
    match key {
        Key::R => num_cameras > 0,
        Key::PageUp => num_cameras > 0 && (current_view matches Some(view) ==> view < usize::MAX),
        Key::PageDown => num_cameras > 0 && (current_view matches Some(view) ==> view > 0),
        _ => true,
    }
}

impl<C, P> WindowContext<C, P> {
    /// What a key that is released asks for.
    pub open spec fn asks_for(
        &self,
        key: Key,
        alt_pressed: bool,
        random: u32,
        nearest: Option<usize>,
    ) -> KeyAction {
        match key {
            Key::T => if self.animation is None {
                KeyAction::StartTrackingShot
            } else {
                KeyAction::StopAnimation
            },
            Key::U => KeyAction::ToggleUi,
            Key::C => KeyAction::SaveView,
            Key::H => KeyAction::ResetView,
            Key::R if alt_pressed => KeyAction::Reload,
            _ => match self.scene {
                Some(scene) => view_asked_for(
                    key,
                    scene.num_cameras as int,
                    self.current_view,
                    random,
                    nearest,
                ),
                None => KeyAction::Nothing,
            },
        }
    }

    /// Whether a key can be answered: the scene has a view where one is asked for.
    pub open spec fn can_answer(&self, key: Key, alt_pressed: bool) -> bool {
        !(key == Key::R && alt_pressed) ==> (self.scene matches Some(scene) ==> can_page(
            key,
            scene.num_cameras as int,
            self.current_view,
        ))
    }

    /// What a key that is released asks for, given a number by chance and the
    /// scene's camera that is nearest to the camera.
    pub fn key_action(
        &self,
        key: Key,
        alt_pressed: bool,
        random: u32,
        nearest: Option<usize>,
    ) -> (action: KeyAction)
        requires
            self.can_answer(key, alt_pressed),
        ensures
            action == self.asks_for(key, alt_pressed, random, nearest),
    {
        match key {
            Key::T => if self.animation.is_none() {
                KeyAction::StartTrackingShot
            } else {
                KeyAction::StopAnimation
            },
            Key::U => KeyAction::ToggleUi,
            Key::C => KeyAction::SaveView,
            Key::H => KeyAction::ResetView,
            Key::R if alt_pressed => KeyAction::Reload,
            _ => match &self.scene {
                Some(scene) => {
                    let n: usize = scene.num_cameras;
                    match key {
                        Key::Number(num) => KeyAction::Select(num),
                        Key::R => KeyAction::Select(random as usize % n),
                        Key::N => match nearest {
                            Some(view) => KeyAction::Select(view),
                            None => KeyAction::Nothing,
                        },
                        Key::PageUp => KeyAction::Select(
                            match self.current_view {
                                Some(view) => (view + 1) % n,
                                None => 0,
                            },
                        ),
                        Key::PageDown => KeyAction::Select(
                            match self.current_view {
                                Some(view) => (view - 1) % n,
                                None => 0,
                            },
                        ),
                        _ => KeyAction::Nothing,
                    }
                },
                None => KeyAction::Nothing,
            },
        }
    }

    /// What a key that is released asks for. The key R picks a view by chance.
    pub fn key_released(&self, key: Key, alt_pressed: bool, nearest: Option<usize>) -> (action:
        KeyAction)
        requires
            self.can_answer(key, alt_pressed),
        ensures
            exists|random: u32| action == #[trigger] self.asks_for(key, alt_pressed, random, nearest),
    {
        let by_chance: bool = match key {
            Key::R => !alt_pressed && self.scene.is_some(),
            _ => false,
        };
        let random: u32 = if by_chance {
            random_number()
        } else {
            0
        };
        self.key_action(key, alt_pressed, random, nearest)
    }
}

/// `rand::random::<u32>`: a number by chance, of which nothing is known.
#[verifier::external_body]
fn random_number() -> (x: u32) {
    rand::random::<u32>()
}

/// A view that is paged to, or picked by chance, is one that the scene has.
pub proof fn paging_stays_in_scene(
    key: Key,
    num_cameras: int,
    current_view: Option<usize>,
    random: u32,
    nearest: Option<usize>,
)
    requires
        key == Key::R || key == Key::PageUp || key == Key::PageDown,
        num_cameras <= usize::MAX,
        can_page(key, num_cameras, current_view),
    ensures
        view_asked_for(key, num_cameras, current_view, random, nearest) matches KeyAction::Select(
            view,
        ) && view < num_cameras,
{
}

/// Going a page down leads back to where a page up came from.
pub proof fn page_down_undoes_page_up(view: usize, num_cameras: int)
    requires
        view + 1 < num_cameras <= usize::MAX,
    ensures
        page_down(Some(page_up(Some(view), num_cameras) as usize), num_cameras) == view,
{
    vstd::arithmetic::div_mod::lemma_small_mod((view + 1) as nat, num_cameras as nat);
    vstd::arithmetic::div_mod::lemma_small_mod(view as nat, num_cameras as nat);
}

/// The milliseconds between two frames of a monitor, whose refresh rate comes
/// in thousandths of a hertz. Without a rate it is taken for 60 hertz; without
/// a monitor the wait is 17 milliseconds.
pub open spec fn refresh_millis(monitor: Option<Option<u32>>) -> int {
    match monitor {
        Some(Some(rate)) => 1_000_000int / (rate as int),
        Some(None) => 16,
        None => 17,
    }
}

/// The time between two frames of a monitor.
pub fn refresh_wait(monitor: Option<Option<u32>>) -> (wait: Duration)
    requires
        monitor != Some(Some(0u32)),
    ensures
        wait@ == refresh_millis(monitor) * 1_000_000,
{
    match monitor {
        Some(rate) => {
            let rate: u32 = match rate {
                Some(rate) => rate,
                None => 60_000,
            };
            let millis: u64 = 1_000_000 / rate as u64;
            assert(rate == 60_000 ==> millis == 16) by (nonlinear_arith)
                requires
                    millis == 1_000_000u64 / (rate as u64),
                    rate > 0,
            ;
            Duration::from_millis(millis)
        },
        None => Duration::from_millis(17),
    }
}

/// The nanoseconds between two frames.
pub open spec fn frame_nanos(no_vsync: bool, min_wait: nat) -> nat {
    if no_vsync || min_wait < 16_000_000 {
        16_000_000
    } else {
        min_wait
    }
}

/// The time to wait between two frames: 16 milliseconds at least, so that the
/// graphics device is not overloaded, and with vsync as long as the monitor.
pub fn frame_wait(no_vsync: bool, min_wait: Duration) -> (wait: Duration)
    ensures
        wait@ == frame_nanos(no_vsync, min_wait@),
        wait@ >= 16_000_000,
{
    let min_frame_time: Duration = Duration::from_millis(16);
    if no_vsync {
        min_frame_time
    } else {
        min_wait.max(min_frame_time)
    }
}

} // verus!
