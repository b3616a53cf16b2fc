//! The cameras of a scene and the views that a user saves.
use vstd::prelude::*;

verus! {

#[derive(Debug, Clone, Copy, PartialEq, Eq, Structural)]
pub enum Split {
    Train,
    Test,
}

/// A view that a scene or a user has given a name.
#[derive(Debug, Clone, PartialEq, Eq)]
pub struct SceneCamera<C> {
    pub camera: C,
    pub img_name: String,
    pub id: usize,
    pub width: u32,
    pub height: u32,
    pub split: Split,
}

/// What the viewer asks of a scene.
#[derive(Debug, Clone, PartialEq, Eq)]
pub struct SceneInfo {
    pub num_cameras: usize,
    /// The ids of all its cameras.
    pub ids: Vec<usize>,
}

/// The ids of some views.
pub open spec fn ids_of<C>(views: Seq<SceneCamera<C>>) -> Seq<usize> {
    views.map_values(|v: SceneCamera<C>| v.id)
}

/// The cameras of some views.
pub open spec fn cameras_of<C>(views: Seq<SceneCamera<C>>) -> Seq<C> {
    views.map_values(|v: SceneCamera<C>| v.camera)
}

/// The largest one of some ids, or 0 where there is none.
pub open spec fn largest(ids: Seq<usize>) -> usize
    decreases ids.len(),
{
    if ids.len() == 0 {
        0
    } else if largest(ids.drop_last()) < ids.last() {
        ids.last()
    } else {
        largest(ids.drop_last())
    }
}

/// The ids of a scene, if there is one.
pub open spec fn scene_ids(scene: Option<SceneInfo>) -> Seq<usize> {
    match scene {
        Some(scene) => scene.ids@,
        None => Seq::empty(),
    }
}

/// The id of the next view that is saved: one more than the largest in use.
pub open spec fn next_id<C>(saved: Seq<SceneCamera<C>>, scene: Option<SceneInfo>) -> int {
    if largest(ids_of(saved)) < largest(scene_ids(scene)) {
        largest(scene_ids(scene)) + 1
    } else {
        largest(ids_of(saved)) + 1
    }
}

/// No id is larger than the largest.
pub proof fn largest_bounds(ids: Seq<usize>, i: int)
    requires
        0 <= i < ids.len(),
    ensures
        ids[i] <= largest(ids),
    decreases ids.len(),
{
    if i < ids.len() - 1 {
        largest_bounds(ids.drop_last(), i);
    }
}

/// A saved view gets an id that neither another saved view nor a camera of the
/// scene has.
pub proof fn next_id_is_fresh<C>(saved: Seq<SceneCamera<C>>, scene: Option<SceneInfo>, id: usize)
    requires
        id == next_id(saved, scene),
    ensures
        !ids_of(saved).contains(id),
        !scene_ids(scene).contains(id),
{
    if ids_of(saved).contains(id) {
        let i = ids_of(saved).index_of(id);
        largest_bounds(ids_of(saved), i);
    }
    if scene_ids(scene).contains(id) {
        let i = scene_ids(scene).index_of(id);
        largest_bounds(scene_ids(scene), i);
    }
}

/// The largest one of some ids, or 0 where there is none.
pub fn largest_id(ids: &Vec<usize>) -> (max: usize)
    ensures
        max == largest(ids@),
{
    let mut max: usize = 0;
    let mut i: usize = 0;
    while i < ids.len()
        invariant
            i <= ids@.len(),
            max == largest(ids@.take(i as int)),
        decreases ids@.len() - i,
    {
        assert(ids@.take(i + 1).drop_last() == ids@.take(i as int));
        if max < ids[i] {
            max = ids[i];
        }
        i += 1;
    }
    assert(ids@.take(i as int) == ids@);
    max
}

/// The largest id of some views, or 0 where there is none.
pub fn largest_view_id<C>(views: &Vec<SceneCamera<C>>) -> (max: usize)
    ensures
        max == largest(ids_of(views@)),
{
    let mut max: usize = 0;
    let mut i: usize = 0;
    let ghost ids = ids_of(views@);
    while i < views.len()
        invariant
            i <= views@.len(),
            ids == ids_of(views@),
            max == largest(ids.take(i as int)),
        decreases views@.len() - i,
    {
        assert(ids.take(i + 1).drop_last() == ids.take(i as int));
        if max < views[i].id {
            max = views[i].id;
        }
        i += 1;
    }
    assert(ids.take(i as int) == ids);
    max
}

/// The cameras of some views.
pub fn cameras<C: Copy>(views: &Vec<SceneCamera<C>>) -> (all: Vec<C>)
    ensures
        all@ == cameras_of(views@),
{
    let mut all: Vec<C> = Vec::new();
    let mut i: usize = 0;
    while i < views.len()
        invariant
            i <= views@.len(),
            all@ == cameras_of(views@).take(i as int),
        decreases views@.len() - i,
    {
        all.push(views[i].camera);
        i += 1;
    }
    all
}

/// The digits of a number, most significant first.
pub open spec fn digits(n: nat) -> Seq<char>
    decreases n,
{
    if n < 10 {
        seq![('0' as u32 + n) as char]
    } else {
        digits(n / 10).push(('0' as u32 + n % 10) as char)
    }
}

/// The text of one digit.
fn digit_text(d: usize) -> (text: &'static str)
    requires
        d < 10,
    ensures
        text@ == seq![('0' as u32 + d) as char],
{
    proof {
        reveal_strlit("0");
        reveal_strlit("1");
        reveal_strlit("2");
        reveal_strlit("3");
        reveal_strlit("4");
        reveal_strlit("5");
        reveal_strlit("6");
        reveal_strlit("7");
        reveal_strlit("8");
        reveal_strlit("9");
    }
    match d {
        0 => "0",
        1 => "1",
        2 => "2",
        3 => "3",
        4 => "4",
        5 => "5",
        6 => "6",
        7 => "7",
        8 => "8",
        _ => "9",
    }
}

/// A number in decimal digits.
pub fn decimal_text(n: usize) -> (text: String)
    ensures
        text@ == digits(n as nat),
    decreases n,
{
    if n < 10 {
        digit_text(n).to_owned()
    } else {
        let mut text: String = decimal_text(n / 10);
        text.append(digit_text(n % 10));
        text
    }
}

} // verus!
