//! What holds of all that passes in time: animations, the window's clock, the
//! views that keys lead to and the pace of frames.
use vstd::prelude::*;
use vstd::std_specs::cmp::PartialEqSpec;

use crate::animation::{
    can_pass, left_after, rounded_to, single, single_unit, trajectory_named, Animation, Motion,
    Smoothstep, TrajectoryType, Transition,
};
use crate::events::{
    frame_nanos, page_down, page_up, refresh_millis, view_asked_for, view_by_chance, Key,
    KeyAction,
};
use crate::views::{
    cameras_of, digits, ids_of, largest, next_id, scene_ids, SceneCamera, SceneInfo,
};
use crate::window::{clock_after, shot_nanos, Shown, WindowContext};

verus! {

/// What is left of an animation counts down: it loses exactly the time that passes,
/// down to nothing, or by a whole round less where the animation starts over.
pub proof fn time_left_counts_down(duration: nat, left: nat, looping: bool, dt: nat)
    requires
        can_pass(duration, left, looping, dt),
    ensures
        dt <= left ==> left_after(duration, left, looping, dt) + dt == left,
        !looping ==> left_after(duration, left, looping, dt) <= left,
        !looping && left <= dt ==> left_after(duration, left, looping, dt) == 0,
        looping && left < dt ==> left_after(duration, left, looping, dt) + dt == left + duration,
        left_after(duration, left, looping, 0) == left,
{
}

/// The longer an animation has played, the less is left of it, unless it starts over.
pub proof fn later_means_less_left(duration: nat, left: nat, looping: bool, a: nat, b: nat)
    requires
        a <= b,
        b <= left || !looping,
    ensures
        left_after(duration, left, looping, b) <= left_after(duration, left, looping, a),
        b <= left ==> left_after(duration, left, looping, a) - left_after(
            duration,
            left,
            looping,
            b,
        ) == b - a,
        b <= left ==> left_after(
            duration,
            left_after(duration, left, looping, a) as nat,
            looping,
            (b - a) as nat,
        ) == left_after(duration, left, looping, b),
{
}

/// A looping animation starts over only when all of it has passed, and never has
/// more to go than its duration.
pub proof fn rounds_follow_one_another(duration: nat, left: nat, dt: nat)
    requires
        left <= duration,
        can_pass(duration, left, true, dt),
    ensures
        0 <= left_after(duration, left, true, dt) <= duration,
        left_after(duration, left, true, dt) == left - dt || (left < dt && left_after(
            duration,
            left,
            true,
            dt,
        ) == left - dt + duration),
{
}

/// In a window an animation that plays loses exactly the time that passes, down to
/// nothing; one that rests loses none; and the user's hand ends it.
pub proof fn window_plays_in_time<C, P>(
    before: WindowContext<C, P>,
    dt: nat,
    user_input: bool,
    after: WindowContext<C, P>,
)
    requires
        WindowContext::updated(before, dt, user_input, after),
    ensures
        before.animation is None || user_input ==> after.animation is None,
        before.animation matches Some((a, playing)) ==> (!user_input ==> match after.animation {
            Some((b, still)) => {
                &&& still == playing
                &&& b.duration == a.duration
                &&& b.looping == a.looping
                &&& b.sampler == a.sampler
                &&& !playing ==> b.time_left@ == a.time_left@
                &&& playing && dt <= a.time_left@ ==> b.time_left@ + dt == a.time_left@
                &&& playing && !a.looping && a.time_left@ < dt ==> b.time_left@ == 0
                &&& playing && a.looping && a.time_left@ < dt ==> b.time_left@ + dt
                    == a.time_left@ + a.duration@
            },
            None => false,
        }),
        before.walltime@ < 5_000_000_000 ==> after.walltime@ == before.walltime@ + dt,
        5_000_000_000 <= before.walltime@ ==> after.walltime@ == before.walltime@,
        after.camera == before.camera,
        after.viewport == before.viewport && after.width == before.width && after.height
            == before.height,
        after.scene == before.scene && after.current_view == before.current_view,
        after.saved_cameras == before.saved_cameras && after.initial_camera
            == before.initial_camera,
{
    assert(before.animation matches Some((a, playing)) ==> (a.looping && playing && a.time_left@ < dt
        ==> (after.animation matches Some((b, _)) ==> b.time_left@ + dt == a.time_left@
        + a.duration@)));
}

/// The clock runs with the time until five seconds have passed.
pub proof fn clock_counts_time(walltime: nat, a: nat, b: nat)
    ensures
        walltime < 5_000_000_000 ==> clock_after(walltime, a) - walltime == a,
        5_000_000_000 <= walltime ==> clock_after(walltime, a) == walltime,
        walltime + a < 5_000_000_000 ==> clock_after(clock_after(walltime, a), b) == clock_after(
            walltime,
            a + b,
        ),
{
}

/// A move of the camera plays once, from where the camera is to where it is sent,
/// and starts with all of its time left; at once where it is given no time.
pub proof fn camera_moves_from_here<C: Copy, P>(
    before: WindowContext<C, P>,
    camera: C,
    duration: nat,
    after: WindowContext<C, P>,
)
    requires
        WindowContext::camera_set(before, camera, duration, after),
    ensures
        duration == 0 ==> after.camera == camera && after.animation == before.animation,
        duration > 0 ==> after.camera == before.camera && match after.animation {
            Some((a, playing)) => {
                &&& playing
                &&& !a.looping
                &&& a.duration@ == duration
                &&& a.time_left@ == duration
                &&& !a.ended()
                &&& a.sampler == Motion::<C, P>::Transition(
                    Transition { from: before.camera, to: camera, interp_fn: Smoothstep },
                )
            },
            None => false,
        },
        after.current_view == before.current_view && after.scene == before.scene
            && after.initial_camera == before.initial_camera && after.walltime == before.walltime,
{
}

/// An animation is over exactly where it does not loop and nothing is left of it.
pub proof fn over_means_nothing_left<S>(animation: Animation<S>)
    ensures
        animation.ended() ==> animation.time_left@ == 0 && !animation.looping,
        !animation.looping && animation.time_left@ == 0 ==> animation.ended(),
{
}

/// Only six names are known, two of them for the same type of trajectory.
pub proof fn no_other_trajectory_is_known(name: Seq<char>)
    ensures
        trajectory_named(name) is Some ==> name == "rotate_forward"@ || name == "rotateforward"@
            || name == "swipe"@ || name == "shake"@ || name == "rotate"@ || name == "forward"@,
        trajectory_named("rotateforward"@) == trajectory_named("rotate_forward"@),
        trajectory_named(name) == Some(TrajectoryType::Swipe) ==> name == "swipe"@,
        trajectory_named(name) == Some(TrajectoryType::Shake) ==> name == "shake"@,
        trajectory_named(name) == Some(TrajectoryType::Rotate) ==> name == "rotate"@,
        trajectory_named(name) == Some(TrajectoryType::Forward) ==> name == "forward"@,
{
}

/// A page up leads to the next view, from the last one to the first; without a
/// selected view to the first.
pub proof fn page_up_leads_on(view: usize, num_cameras: int)
    requires
        0 < num_cameras,
    ensures
        view + 1 < num_cameras ==> page_up(Some(view), num_cameras) == view + 1,
        view + 1 == num_cameras ==> page_up(Some(view), num_cameras) == 0,
        0 <= page_up(Some(view), num_cameras) < num_cameras,
        page_up(None, num_cameras) == 0,
        page_down(None, num_cameras) == 0,
        0 < view <= num_cameras ==> page_down(Some(view), num_cameras) == view - 1,
        0 < view ==> 0 <= page_down(Some(view), num_cameras) < num_cameras,
{
    if view + 1 < num_cameras {
        vstd::arithmetic::div_mod::lemma_small_mod((view + 1) as nat, num_cameras as nat);
    }
    if view + 1 == num_cameras {
        vstd::arithmetic::div_mod::lemma_mod_self_0(num_cameras);
    }
    if 0 < view <= num_cameras {
        vstd::arithmetic::div_mod::lemma_small_mod((view - 1) as nat, num_cameras as nat);
    }
    vstd::arithmetic::div_mod::lemma_mod_bound(view + 1, num_cameras);
    vstd::arithmetic::div_mod::lemma_mod_bound(view - 1, num_cameras);
}

/// Each view can be picked by chance, by the numbers that differ from it by whole
/// rounds.
pub proof fn chance_is_even(random: u32, num_cameras: int)
    requires
        0 < num_cameras,
    ensures
        0 <= view_by_chance(random, num_cameras) < num_cameras,
        random < num_cameras ==> view_by_chance(random, num_cameras) == random,
        random + num_cameras <= u32::MAX ==> view_by_chance(
            (random + num_cameras) as u32,
            num_cameras,
        ) == view_by_chance(random, num_cameras),
{
    vstd::arithmetic::div_mod::lemma_mod_bound(random as int, num_cameras);
    vstd::arithmetic::div_mod::lemma_mod_add_multiples_vanish(random as int, num_cameras);
    if random < num_cameras {
        vstd::arithmetic::div_mod::lemma_small_mod(random as nat, num_cameras as nat);
    }
}

/// A number's key leads to the view with that number, and the nearest view's key to
/// the nearest, whatever else there is; no other key but those for paging and chance
/// leads anywhere.
pub proof fn keys_lead_where_they_say(
    key: Key,
    num_cameras: int,
    current_view: Option<usize>,
    random: u32,
    nearest: Option<usize>,
    view: usize,
)
    ensures
        view_asked_for(Key::Number(view), num_cameras, current_view, random, nearest)
            == KeyAction::Select(view),
        view_asked_for(Key::N, num_cameras, current_view, random, Some(view)) == KeyAction::Select(
            view,
        ),
        view_asked_for(Key::N, num_cameras, current_view, random, None) == KeyAction::Nothing,
        key == Key::T || key == Key::U || key == Key::C || key == Key::H || key == Key::Other
            ==> view_asked_for(key, num_cameras, current_view, random, nearest)
            == KeyAction::Nothing,
{
}

/// The keys that need no scene do the same with and without one.
pub proof fn plain_keys_need_no_scene<C, P>(
    state: WindowContext<C, P>,
    alt_pressed: bool,
    random: u32,
    nearest: Option<usize>,
    key: Key,
)
    ensures
        state.asks_for(Key::T, alt_pressed, random, nearest) == KeyAction::StartTrackingShot <==>
            state.animation is None,
        state.asks_for(Key::T, alt_pressed, random, nearest) == KeyAction::StopAnimation <==>
            state.animation is Some,
        state.asks_for(Key::U, alt_pressed, random, nearest) == KeyAction::ToggleUi,
        state.asks_for(Key::C, alt_pressed, random, nearest) == KeyAction::SaveView,
        state.asks_for(Key::H, alt_pressed, random, nearest) == KeyAction::ResetView,
        state.asks_for(Key::R, true, random, nearest) == KeyAction::Reload,
        state.asks_for(key, alt_pressed, random, nearest) == KeyAction::Reload ==> key == Key::R
            && alt_pressed,
        state.scene is None && key != Key::T && key != Key::U && key != Key::C && key != Key::H && !(
        key == Key::R && alt_pressed) ==> state.asks_for(key, alt_pressed, random, nearest)
            == KeyAction::Nothing,
        state.scene matches Some(scene) ==> (key == Key::N || key == Key::PageUp || key
            == Key::PageDown || (key == Key::R && !alt_pressed) || key is Number ==> state.asks_for(
            key,
            alt_pressed,
            random,
            nearest,
        ) == view_asked_for(key, scene.num_cameras as int, state.current_view, random, nearest)),
{
}

/// As many frames as the monitor shows in a thousand seconds fit into a thousand
/// seconds, and with one millisecond more each they would not.
pub proof fn frames_fit_the_refresh_rate(rate: u32)
    requires
        rate > 0,
    ensures
        rate * refresh_millis(Some(Some(rate))) <= 1_000_000,
        1_000_000 < rate * (refresh_millis(Some(Some(rate))) + 1),
        refresh_millis(Some(None)) == refresh_millis(Some(Some(60_000))),
        refresh_millis(None) == 17,
{
    let millis = refresh_millis(Some(Some(rate)));
    vstd::arithmetic::div_mod::lemma_fundamental_div_mod(1_000_000, rate as int);
    assert(rate * millis <= 1_000_000 && 1_000_000 < rate * (millis + 1)) by (nonlinear_arith)
        requires
            1_000_000 == rate * millis + 1_000_000int % (rate as int),
            0 <= 1_000_000int % (rate as int) < rate,
    ;
    assert(1_000_000int / 60_000int == 16);
}

/// Frames are 16 milliseconds apart, or with vsync as far as the monitor asks if that
/// is more; never closer.
pub proof fn frames_keep_their_distance(no_vsync: bool, min_wait: nat)
    ensures
        16_000_000 <= frame_nanos(no_vsync, min_wait),
        frame_nanos(true, min_wait) == 16_000_000,
        min_wait <= frame_nanos(false, min_wait),
        frame_nanos(no_vsync, min_wait) == 16_000_000 || frame_nanos(no_vsync, min_wait)
            == min_wait,
{
}

/// A shot takes two seconds for each view, as long as single precision counts them.
pub proof fn shots_take_two_seconds_a_view(n: nat)
    requires
        n <= 0x100_0000,
    ensures
        shot_nanos(n) == n * 2_000_000_000,
{
    crate::animation::small_numbers_are_kept(n);
}

/// The largest id is one that is in use.
pub proof fn largest_is_in_use(ids: Seq<usize>)
    ensures
        ids.len() == 0 ==> largest(ids) == 0,
        ids.len() > 0 ==> ids.contains(largest(ids)),
    decreases ids.len(),
{
    if ids.len() > 0 {
        largest_is_in_use(ids.drop_last());
        if largest(ids.drop_last()) < ids.last() {
            assert(ids[ids.len() - 1] == largest(ids));
        } else if ids.len() == 1 {
            assert(ids[0] == largest(ids));
        } else {
            let i = ids.drop_last().index_of(largest(ids));
            assert(ids[i] == largest(ids));
        }
    }
}

/// The id of a view that is saved follows the largest one in use, and is 1 where
/// none is.
pub proof fn next_id_follows_the_largest<C>(saved: Seq<SceneCamera<C>>, scene: Option<SceneInfo>, i: int)
    ensures
        0 <= i < saved.len() ==> saved[i].id < next_id(saved, scene),
        0 <= i < scene_ids(scene).len() ==> scene_ids(scene)[i] < next_id(saved, scene),
        next_id(saved, scene) == 1 || ids_of(saved).contains((next_id(saved, scene) - 1) as usize)
            || scene_ids(scene).contains((next_id(saved, scene) - 1) as usize),
        next_id(saved, scene) >= 1,
{
    largest_is_in_use(ids_of(saved));
    largest_is_in_use(scene_ids(scene));
    if 0 <= i < saved.len() {
        crate::views::largest_bounds(ids_of(saved), i);
        assert(ids_of(saved)[i] == saved[i].id);
    }
    if 0 <= i < scene_ids(scene).len() {
        crate::views::largest_bounds(scene_ids(scene), i);
    }
}

/// The number that decimal digits make.
pub open spec fn number_of(text: Seq<char>) -> int
    decreases text.len(),
{
    if text.len() == 0 {
        0
    } else {
        10 * number_of(text.drop_last()) + (text.last() as int - 48)
    }
}

/// The digits of a number make the number, and none of them leads in vain.
pub proof fn digits_make_the_number(n: nat)
    ensures
        number_of(digits(n)) == n,
        digits(n).len() > 0,
        n > 0 ==> digits(n)[0] != '0',
        forall|i: int| 0 <= i < digits(n).len() ==> '0' <= #[trigger] digits(n)[i] <= '9',
    decreases n,
{
    reveal_with_fuel(number_of, 2);
    if n >= 10 {
        digits_make_the_number(n / 10);
        assert(digits(n).drop_last() =~= digits(n / 10));
        assert(digits(n)[0] == digits(n / 10)[0]);
    } else {
        assert(digits(n).drop_last() =~= Seq::empty());
    }
}

/// A count in single precision is the nearest number of 24 binary digits: a multiple
/// of a power of two, of which the count holds at least half of two to the 24th.
pub proof fn single_is_nearest(n: nat)
    ensures
        ({
            let unit = single_unit(n, 1);
            &&& 0 < unit
            &&& n < 0x100_0000 * unit
            &&& unit == 1 || 0x80_0000 * unit <= n
            &&& single(n) % unit == 0
            &&& 2 * single(n) <= 2 * n + unit
            &&& 2 * n <= 2 * single(n) + unit
        }),
{
    unit_fits(n, 1);
    let unit = single_unit(n, 1);
    let below = n / unit;
    let rest = n % unit;
    vstd::arithmetic::div_mod::lemma_fundamental_div_mod(n as int, unit as int);
    assert(0 <= rest < unit);
    assert(n == below * unit + rest) by (nonlinear_arith)
        requires
            n == unit * below + rest,
    ;
    assert((below + 1) * unit == below * unit + unit) by (nonlinear_arith);
    assert(single(n) == rounded_to(n, unit));
    vstd::arithmetic::div_mod::lemma_mod_multiples_basic(below as int, unit as int);
    vstd::arithmetic::div_mod::lemma_mod_multiples_basic(below as int + 1, unit as int);
}

/// The distance between numbers of single precision around `n` leaves it 24 binary
/// digits.
pub proof fn unit_fits(n: nat, unit: nat)
    requires
        0 < unit,
        unit == 1 || 0x80_0000 * unit <= n,
    ensures
        0 < single_unit(n, unit),
        n < 0x100_0000 * single_unit(n, unit),
        single_unit(n, unit) == 1 || 0x80_0000 * single_unit(n, unit) <= n,
    decreases n / unit,
{
    vstd::arithmetic::div_mod::lemma_fundamental_div_mod(n as int, unit as int);
    let q = n / unit;
    if q < 0x100_0000 {
        assert(n < 0x100_0000 * unit) by (nonlinear_arith)
            requires
                n == unit * q + n % unit,
                n % unit < unit,
                q < 0x100_0000,
                0 < unit,
        ;
    } else {
        assert(0x80_0000 * (2 * unit) <= n) by (nonlinear_arith)
            requires
                n == unit * q + n % unit,
                0 <= n % unit,
                q >= 0x100_0000,
                0 < unit,
        ;
        crate::animation::halves(n, unit);
        unit_fits(n, 2 * unit);
    }
}

/// Views are taken one for one, with their ids and their cameras.
pub proof fn views_are_taken_one_for_one<C>(views: Seq<SceneCamera<C>>, scene: SceneInfo, i: int)
    ensures
        ids_of(views).len() == views.len(),
        cameras_of(views).len() == views.len(),
        0 <= i < views.len() ==> ids_of(views)[i] == views[i].id,
        0 <= i < views.len() ==> cameras_of(views)[i] == views[i].camera,
        scene_ids(Some(scene)) == scene.ids@,
        scene_ids(None).len() == 0,
{
}

/// A window is rid of its animation exactly when nothing is left of it.
pub proof fn windows_drop_what_is_over<C, P>(state: WindowContext<C, P>)
    ensures
        state.animation_over() <==> (state.animation matches Some((a, _)) && a.time_left@ == 0
            && !a.looping),
{
}

/// A scene is drawn anew where its settings have changed or the window is no longer as
/// wide or as high as what was drawn.
pub proof fn scenes_follow_the_window<C, P>(state: WindowContext<C, P>)
    ensures
        state.scene_outdated(true),
        state.viewport.0 != state.width ==> state.scene_outdated(false),
        state.viewport.1 != state.height ==> state.scene_outdated(false),
        state.viewport.0 == state.width && state.viewport.1 == state.height
            ==> !state.scene_outdated(false),
{
}

/// Any change of the camera, of the size or of the clock changes the screen, and nothing
/// else does.
pub proof fn screen_shows_camera_size_and_clock<C: PartialEq, P>(
    state: WindowContext<C, P>,
    before: Shown<C>,
)
    ensures
        state.viewport.0 != before.viewport.0 ==> state.differs_from(before),
        state.viewport.1 != before.viewport.1 ==> state.differs_from(before),
        state.walltime@ != before.walltime@ ==> state.differs_from(before),
        !state.camera.eq_spec(&before.camera) ==> state.differs_from(before),
        state.viewport == before.viewport && state.walltime == before.walltime
            && state.camera.eq_spec(&before.camera) ==> !state.differs_from(before),
{
}

} // verus!
