//! Camera animations: how long they last, what is left of them, and the points
//! that a tracking shot runs through.
use vstd::prelude::*;

use crate::text::same;
use crate::time::{longest_nanos, Duration};

verus! {

/// Types of camera trajectory animations.
#[derive(Clone, Copy, Debug, PartialEq, Eq, Structural)]
pub enum TrajectoryType {
    /// Spiral/dolly motion: circular orbit + forward motion (default).
    RotateForward,
    /// Left-to-right horizontal pan.
    Swipe,
    /// Horizontal shake then vertical shake (sinusoidal).
    Shake,
    /// Circular orbit around scene.
    Rotate,
    /// Pure dolly forward/backward motion.
    Forward,
}

/// A character of the ASCII range in lower case.
pub open spec fn ascii_lower(c: char) -> char {
    if 'A' <= c && c <= 'Z' {
        (c as u32 + 32) as char
    } else {
        c
    }
}

/// A text of ASCII characters in lower case.
pub open spec fn ascii_lowercase(s: Seq<char>) -> Seq<char> {
    s.map_values(|c: char| ascii_lower(c))
}

/// Whether a text is made of ASCII characters alone.
pub open spec fn all_ascii(s: Seq<char>) -> bool {
    forall|i: int| 0 <= i < s.len() ==> #[trigger] s[i] < '\u{80}'
}

/// What `str::to_lowercase` makes of a text.
pub uninterp spec fn lowercase(s: Seq<char>) -> Seq<char>;

/// `str::to_lowercase`: the text in lower case. In a text of ASCII characters
/// each letter from A to Z becomes its small one and nothing else changes.
#[verifier::external_body]
fn to_lowercase(s: &str) -> (lower: String)
    ensures
        lower@ == lowercase(s@),
        all_ascii(s@) ==> lower@ == ascii_lowercase(s@),
{
    s.to_lowercase()
}

/// The trajectory type that a text in lower case names.
pub open spec fn trajectory_named(name: Seq<char>) -> Option<TrajectoryType> {
    if name == "rotate_forward"@ || name == "rotateforward"@ {
        Some(TrajectoryType::RotateForward)
    } else if name == "swipe"@ {
        Some(TrajectoryType::Swipe)
    } else if name == "shake"@ {
        Some(TrajectoryType::Shake)
    } else if name == "rotate"@ {
        Some(TrajectoryType::Rotate)
    } else if name == "forward"@ {
        Some(TrajectoryType::Forward)
    } else {
        None
    }
}

impl TrajectoryType {
    /// Parse a trajectory type from a string, whatever the case of its letters.
    pub fn parse(s: &str) -> (found: Option<Self>)
        ensures
            found == trajectory_named(lowercase(s@)),
            all_ascii(s@) ==> found == trajectory_named(ascii_lowercase(s@)),
    {
        let lower: String = to_lowercase(s);
        Self::from_lowercase(lower.as_str())
    }

    /// The trajectory type that `name` names letter for letter.
    pub fn from_lowercase(name: &str) -> (found: Option<Self>)
        ensures
            found == trajectory_named(name@),
    {
        if same(name, "rotate_forward") || same(name, "rotateforward") {
            Some(TrajectoryType::RotateForward)
        } else if same(name, "swipe") {
            Some(TrajectoryType::Swipe)
        } else if same(name, "shake") {
            Some(TrajectoryType::Shake)
        } else if same(name, "rotate") {
            Some(TrajectoryType::Rotate)
        } else if same(name, "forward") {
            Some(TrajectoryType::Forward)
        } else {
            None
        }
    }
}

/// The time that is left of an animation when `dt` has passed.
pub open spec fn left_after(duration: nat, left: nat, looping: bool, dt: nat) -> int {
    if dt <= left {
        left - dt
    } else if looping {
        duration + left - dt
    } else {
        0
    }
}

/// Whether an animation can be moved on by `dt`: a looping one starts over at
/// most once.
pub open spec fn can_pass(duration: nat, left: nat, looping: bool, dt: nat) -> bool {
    looping && left < dt ==> dt <= duration + left <= longest_nanos()
}

/// A motion in time, and how much of it is left. What moves is `sampler`.
pub struct Animation<S> {
    pub duration: Duration,
    pub time_left: Duration,
    pub looping: bool,
    pub sampler: S,
}

impl<S> Animation<S> {
    /// An animation at its start.
    pub fn new(duration: Duration, looping: bool, sampler: S) -> (a: Self)
        ensures
            a == (Animation { duration, time_left: duration, looping, sampler }),
    {
        Animation { duration, time_left: duration, looping, sampler }
    }

    /// Whether nothing is left of the animation.
    pub open spec fn ended(&self) -> bool {
        !self.looping && self.time_left@ == 0
    }

    /// Whether the animation has come to its end. A looping one never does.
    pub fn done(&self) -> (r: bool)
        ensures
            r == self.ended(),
    {
        if self.looping {
            false
        } else {
            self.time_left.is_zero()
        }
    }

    /// Moves the animation on by `dt`.
    pub fn update(&mut self, dt: Duration)
        requires
            can_pass(
                old(self).duration@,
                old(self).time_left@,
                old(self).looping,
                dt@,
            ),
        ensures
            final(self).time_left@ == left_after(
                old(self).duration@,
                old(self).time_left@,
                old(self).looping,
                dt@,
            ),
            dt@ <= old(self).time_left@ ==> final(self).time_left@ == old(self).time_left@ - dt@,
            !old(self).looping ==> final(self).time_left@ <= old(self).time_left@,
            final(self).duration == old(self).duration,
            final(self).looping == old(self).looping,
            final(self).sampler == old(self).sampler,
    {
        match self.time_left.checked_sub(dt) {
            Some(new_left) => {
                self.time_left = new_left;
            },
            None => {
                if self.looping {
                    if let Some(both) = self.duration.checked_add(self.time_left) {
                        if let Some(new_left) = both.checked_sub(dt) {
                            self.time_left = new_left;
                        }
                    }
                } else {
                    self.time_left = Duration::zero();
                }
            },
        }
    }

    pub fn duration(&self) -> (duration: Duration)
        ensures
            duration == self.duration,
    {
        self.duration
    }

    /// Puts the animation where `time_left` of it is still to come.
    pub fn set_progress(&mut self, time_left: Duration)
        ensures
            final(self).time_left == time_left,
            final(self).duration == old(self).duration,
            final(self).looping == old(self).looping,
            final(self).sampler == old(self).sampler,
    {
        self.time_left = time_left;
    }

    /// Gives the animation another duration, with `time_left` of it to come.
    pub fn set_duration(&mut self, duration: Duration, time_left: Duration)
        ensures
            final(self).time_left == time_left,
            final(self).duration == duration,
            final(self).looping == old(self).looping,
            final(self).sampler == old(self).sampler,
    {
        self.duration = duration;
        self.set_progress(time_left);
    }
}

/// What is left of an animation never exceeds its duration.
pub proof fn left_stays_within_duration(duration: nat, left: nat, looping: bool, dt: nat)
    requires
        left <= duration,
        can_pass(duration, left, looping, dt),
    ensures
        0 <= left_after(duration, left, looping, dt) <= duration,
{
}

/// An animation that does not loop is over exactly when its duration has passed.
pub proof fn over_when_duration_passed(duration: nat, dt: nat)
    ensures
        left_after(duration, duration, false, dt) == 0 <==> duration <= dt,
{
}

/// An animation that is over stays over.
pub proof fn over_for_good(duration: nat, dt: nat)
    ensures
        left_after(duration, 0, false, dt) == 0,
{
}

/// A looping animation never comes to its end.
pub proof fn looping_never_ends<S>(animation: Animation<S>)
    requires
        animation.looping,
    ensures
        !animation.ended(),
{
}

/// For an animation that does not loop it makes no difference whether time
/// passes at once or in two parts.
pub proof fn time_passes_in_parts(duration: nat, left: nat, a: nat, b: nat)
    ensures
        left_after(duration, left_after(duration, left, false, a) as nat, false, b) == left_after(
            duration,
            left,
            false,
            a + b,
        ),
{
}

/// A looping animation is where the clock says: what is left and what has
/// passed differ by whole rounds.
pub proof fn looping_keeps_phase(duration: nat, left: nat, dt: nat)
    requires
        0 < duration,
        can_pass(duration, left, true, dt),
    ensures
        (left_after(duration, left, true, dt) - (left - dt)) % (duration as int) == 0,
{
    if dt > left {
        assert((duration as int) % (duration as int) == 0) by (nonlinear_arith)
            requires
                0 < duration,
        ;
    } else {
        vstd::arithmetic::div_mod::lemma_small_mod(0, duration);
    }
}

/// A motion from one camera to another, whose pace `interp_fn` tells.
pub struct Transition<T, F> {
    pub from: T,
    pub to: T,
    pub interp_fn: F,
}

impl<T, F> Transition<T, F> {
    pub fn new(from: T, to: T, interp_fn: F) -> (t: Self)
        ensures
            t == (Transition { from, to, interp_fn }),
    {
        Transition { from, to, interp_fn }
    }
}

/// The pace `x * x * (3 - 2 * x)`: slow at both ends.
#[derive(Clone, Copy, Debug, PartialEq, Eq, Structural)]
pub struct Smoothstep;

/// The points of a closed curve through `cameras`: all of them, with the last
/// two ahead and the first two behind.
pub open spec fn closed_curve<C>(cameras: Seq<C>) -> Seq<C> {
    cameras.skip(cameras.len() - 2) + cameras + cameras.take(2)
}

/// A shot along a closed curve. The point at `i` is reached at the time
/// `(i - 1) / num_cameras` of the shot.
pub struct TrackingShot<C> {
    pub control_points: Vec<C>,
    pub num_cameras: usize,
}

impl<C: Copy> TrackingShot<C> {
    /// The shot through all of `cameras`, in their order.
    pub fn from_cameras(cameras: &Vec<C>) -> (shot: Self)
        requires
            2 <= cameras@.len() <= usize::MAX - 4,
        ensures
            shot.control_points@ == closed_curve(cameras@),
            shot.num_cameras == cameras@.len(),
    {
        let n: usize = cameras.len();
        let mut points: Vec<C> = Vec::new();
        points.push(cameras[n - 2]);
        points.push(cameras[n - 1]);
        let mut i: usize = 0;
        while i < n
            invariant
                i <= n == cameras@.len(),
                2 <= n,
                points@ == cameras@.skip(n - 2) + cameras@.take(i as int),
            decreases n - i,
        {
            points.push(cameras[i]);
            i += 1;
        }
        assert(cameras@.take(n as int) == cameras@);
        points.push(cameras[0]);
        points.push(cameras[1]);
        TrackingShot { control_points: points, num_cameras: n }
    }
}

impl<C> TrackingShot<C> {
    /// How many points the curve runs through.
    pub fn num_control_points(&self) -> (n: usize)
        ensures
            n == self.control_points@.len(),
    {
        self.control_points.len()
    }
}

/// The curve has four points more than there are cameras.
pub proof fn curve_length<C>(cameras: Seq<C>)
    requires
        2 <= cameras.len(),
    ensures
        closed_curve(cameras).len() == cameras.len() + 4,
{
}

/// The curve is closed: its points come round again after one for each camera.
pub proof fn curve_comes_round<C>(cameras: Seq<C>, i: int)
    requires
        2 <= cameras.len(),
        0 <= i < cameras.len() + 4,
    ensures
        closed_curve(cameras)[i] == cameras[(i + cameras.len() - 2) % (cameras.len() as int)],
        i < 4 ==> closed_curve(cameras)[i] == closed_curve(cameras)[i + cameras.len()],
{
    let n = cameras.len() as int;
    if i < 2 {
        vstd::arithmetic::div_mod::lemma_small_mod((i + n - 2) as nat, n as nat);
    } else if i < n + 2 {
        vstd::arithmetic::div_mod::lemma_mod_add_multiples_vanish(i - 2, n);
        vstd::arithmetic::div_mod::lemma_small_mod((i - 2) as nat, n as nat);
        assert((i + n - 2) % n == i - 2);
    } else {
        vstd::arithmetic::div_mod::lemma_mod_add_multiples_vanish(i - 2, n);
        vstd::arithmetic::div_mod::lemma_mod_add_multiples_vanish(i - 2 - n, n);
        vstd::arithmetic::div_mod::lemma_small_mod((i - 2 - n) as nat, n as nat);
        assert((i + n - 2) % n == i - 2 - n);
    }
}

/// What moves a camera of type `C`. A trajectory follows a path of type `P`.
pub enum Motion<C, P> {
    Transition(Transition<C, Smoothstep>),
    TrackingShot(TrackingShot<C>),
    Trajectory(TrajectoryType, P),
}

/// The number of single precision that is nearest to `n`, the even one of two:
/// a whole number of `unit`, of which `n` holds fewer than two to the 24th.
pub open spec fn rounded_to(n: nat, unit: nat) -> nat {
    let below = n / unit;
    let rest = n % unit;
    if 2 * rest > unit || (2 * rest == unit && below % 2 == 1) {
        (below + 1) * unit
    } else {
        below * unit
    }
}

/// The distance between numbers of single precision around `n`.
pub open spec fn single_unit(n: nat, unit: nat) -> nat
    decreases n / unit,
{
    if unit == 0 || n / unit < 0x100_0000 {
        unit
    } else {
        proof {
            halves(n, unit);
        }
        single_unit(n, 2 * unit)
    }
}

/// Units of twice the size fit half as often.
pub proof fn halves(n: nat, unit: nat)
    requires
        0 < unit,
    ensures
        n / (2 * unit) == n / unit / 2,
{
    vstd::arithmetic::div_mod::lemma_div_denominator(n as int, unit as int, 2);
}

/// The number of single precision that stands for `n`.
pub open spec fn single(n: nat) -> nat {
    rounded_to(n, single_unit(n, 1))
}

/// Up to two to the 24th each number stands for itself.
pub proof fn small_numbers_are_kept(n: nat)
    requires
        n <= 0x100_0000,
    ensures
        single(n) == n,
{
    reveal_with_fuel(single_unit, 2);
    assert(n / 1 == n && n % 1 == 0);
    if n == 0x100_0000 {
        assert(single_unit(n, 2) == 2);
        assert(n / 2 == 0x80_0000 && n % 2 == 0);
    } else {
        assert(single_unit(n, 1) == 1);
    }
}

/// Computes `single(n)`.
pub fn nearest_single(n: usize) -> (x: u128)
    ensures
        x == single(n as nat),
{
    let n: u128 = n as u128;
    let mut unit: u128 = 1;
    while n / unit >= 0x100_0000
        invariant
            0 < unit,
            n <= usize::MAX,
            unit <= n + 1,
            single_unit(n as nat, 1) == single_unit(n as nat, unit as nat),
        decreases n / unit,
    {
        proof {
            halves(n as nat, unit as nat);
            assert(2 * unit <= n) by (nonlinear_arith)
                requires
                    n / unit >= 0x100_0000,
                    0 < unit,
            ;
        }
        unit = 2 * unit;
    }
    let below: u128 = n / unit;
    let rest: u128 = n % unit;
    proof {
        vstd::arithmetic::div_mod::lemma_fundamental_div_mod(n as int, unit as int);
        vstd::arithmetic::mul::lemma_mul_is_commutative(unit as int, below as int);
        vstd::arithmetic::mul::lemma_mul_is_distributive_add_other_way(
            unit as int,
            below as int,
            1,
        );
    }
    if 2 * rest > unit || (2 * rest == unit && below % 2 == 1) {
        (below + 1) * unit
    } else {
        below * unit
    }
}

} // verus!
