//! What the page around the viewer has asked for, until the next frame takes it.
use vstd::prelude::*;

use crate::animation::{
    all_ascii, ascii_lowercase, lowercase, trajectory_named, TrajectoryType,
};
use crate::ply::EmbeddedCamera;

verus! {

/// A file that is to be loaded in place of the one that is shown.
#[derive(Debug, Clone, PartialEq, Eq)]
pub struct PendingFile {
    pub data: Vec<u8>,
    pub filename: String,
    pub compress: bool,
}

/// What a page has asked for. A later request replaces an earlier one of its kind.
#[derive(Debug, Clone, PartialEq, Eq)]
pub struct PageRequests {
    pub file: Option<PendingFile>,
    /// The size of the image that the shown point cloud was made from.
    pub canvas_size: Option<(u32, u32)>,
    pub trajectory: Option<String>,
    pub reset_and_play: Option<String>,
}

impl PageRequests {
    /// Nothing asked for yet.
    pub fn new() -> (requests: Self)
        ensures
            requests == (PageRequests {
                file: None,
                canvas_size: None,
                trajectory: None,
                reset_and_play: None,
            }),
    {
        PageRequests { file: None, canvas_size: None, trajectory: None, reset_and_play: None }
    }

    /// Load a new file in place of the one that is shown.
    pub fn load_new_file(&mut self, data: Vec<u8>, filename: String, compress: bool)
        ensures
            *final(self) == (PageRequests {
                file: Some(PendingFile { data, filename, compress }),
                ..*old(self)
            }),
    {
        self.file = Some(PendingFile { data, filename, compress });
    }

    /// Start a trajectory animation.
    pub fn start_trajectory(&mut self, trajectory_type: String)
        ensures
            *final(self) == (PageRequests { trajectory: Some(trajectory_type), ..*old(self) }),
    {
        self.trajectory = Some(trajectory_type);
    }

    /// Reset view and start a trajectory animation.
    pub fn reset_view_and_play(&mut self, trajectory_type: String)
        ensures
            *final(self) == (PageRequests { reset_and_play: Some(trajectory_type), ..*old(self) }),
    {
        self.reset_and_play = Some(trajectory_type);
    }

    /// Takes the file that is to be loaded.
    pub fn take_file(&mut self) -> (file: Option<PendingFile>)
        ensures
            file == old(self).file,
            *final(self) == (PageRequests { file: None, ..*old(self) }),
    {
        self.file.take()
    }

    /// Takes the trajectory that is to be started: `Some(None)` where nothing is
    /// known by the name that was asked for.
    pub fn take_trajectory(&mut self) -> (asked: Option<Option<TrajectoryType>>)
        ensures
            asked == match old(self).trajectory {
                Some(name) => Some(trajectory_named(lowercase(name@))),
                None => None,
            },
            old(self).trajectory matches Some(name) ==> (all_ascii(name@) ==> asked == Some(
                trajectory_named(ascii_lowercase(name@)),
            )),
            *final(self) == (PageRequests { trajectory: None, ..*old(self) }),
    {
        match self.trajectory.take() {
            Some(name) => Some(TrajectoryType::parse(name.as_str())),
            None => None,
        }
    }

    /// Takes the request to reset the view, with the trajectory that is to be
    /// started then, if it is known.
    pub fn take_reset_and_play(&mut self) -> (asked: Option<Option<TrajectoryType>>)
        ensures
            asked == match old(self).reset_and_play {
                Some(name) => Some(trajectory_named(lowercase(name@))),
                None => None,
            },
            old(self).reset_and_play matches Some(name) ==> (all_ascii(name@) ==> asked == Some(
                trajectory_named(ascii_lowercase(name@)),
            )),
            *final(self) == (PageRequests { reset_and_play: None, ..*old(self) }),
    {
        match self.reset_and_play.take() {
            Some(name) => Some(TrajectoryType::parse(name.as_str())),
            None => None,
        }
    }

    /// Takes over the image size of the first point cloud's camera, if it has one.
    pub fn opened(&mut self, camera: &Option<EmbeddedCamera>)
        ensures
            *final(self) == (PageRequests {
                canvas_size: match *camera {
                    Some(camera) => Some(camera.image_size),
                    None => old(self).canvas_size,
                },
                ..*old(self)
            }),
    {
        if let Some(camera) = camera {
            self.canvas_size = Some(camera.image_size);
        }
    }

    /// Takes over the image size of a new point cloud's camera; without a camera
    /// there is no size any more.
    pub fn loaded(&mut self, camera: &Option<EmbeddedCamera>)
        ensures
            *final(self) == (PageRequests {
                canvas_size: match *camera {
                    Some(camera) => Some(camera.image_size),
                    None => None,
                },
                ..*old(self)
            }),
    {
        self.canvas_size = match camera {
            Some(camera) => Some(camera.image_size),
            None => None,
        };
    }

    /// Check if there's a target canvas size from the embedded camera.
    pub fn has_target_canvas_size(&self) -> (r: bool)
        ensures
            r == (self.canvas_size is Some),
    {
        self.canvas_size.is_some()
    }

    /// Get the target canvas size (width, height) from the embedded camera, if
    /// there is one.
    pub fn get_target_canvas_size(&self) -> (size: Option<(u32, u32)>)
        ensures
            size == self.canvas_size,
    {
        self.canvas_size
    }
}

/// The names of the trajectory types, as a page asks for them.
pub open spec fn trajectory_names() -> Seq<Seq<char>> {
    seq!["rotate_forward"@, "swipe"@, "shake"@, "rotate"@, "forward"@]
}

/// The trajectory types, in the order of their names.
pub open spec fn trajectory_types() -> Seq<TrajectoryType> {
    seq![
        TrajectoryType::RotateForward,
        TrajectoryType::Swipe,
        TrajectoryType::Shake,
        TrajectoryType::Rotate,
        TrajectoryType::Forward,
    ]
}

/// Get the list of available trajectory types.
pub fn get_trajectory_types() -> (names: Vec<String>)
    ensures
        names@.len() == trajectory_names().len(),
        forall|i: int| 0 <= i < names@.len() ==> (#[trigger] names@[i])@ == trajectory_names()[i],
{
    let mut names: Vec<String> = Vec::new();
    names.push("rotate_forward".to_owned());
    names.push("swipe".to_owned());
    names.push("shake".to_owned());
    names.push("rotate".to_owned());
    names.push("forward".to_owned());
    names
}

/// Each name in the list is one that can be asked for, and each trajectory type
/// can be asked for by a name in the list.
pub proof fn listed_names_are_known(i: int)
    requires
        0 <= i < trajectory_names().len(),
    ensures
        trajectory_types().len() == trajectory_names().len(),
        trajectory_named(trajectory_names()[i]) == Some(trajectory_types()[i]),
        all_ascii(trajectory_names()[i]),
        trajectory_named(ascii_lowercase(trajectory_names()[i])) == Some(trajectory_types()[i]),
        forall|t: TrajectoryType| #[trigger] trajectory_types().contains(t),
{
    reveal_strlit("rotate_forward");
    reveal_strlit("rotateforward");
    reveal_strlit("swipe");
    reveal_strlit("shake");
    reveal_strlit("rotate");
    reveal_strlit("forward");
    let name = trajectory_names()[i];
    assert(ascii_lowercase(name) =~= name);
    assert("rotate_forward"@.len() == 14 && "rotateforward"@.len() == 13);
    assert("swipe"@.len() == 5 && "swipe"@[1] == 'w');
    assert("shake"@.len() == 5 && "shake"@[1] == 'h');
    assert("rotate"@.len() == 6 && "forward"@.len() == 7);
    let types = trajectory_types();
    assert(types[0] == TrajectoryType::RotateForward && types[1] == TrajectoryType::Swipe
        && types[2] == TrajectoryType::Shake && types[3] == TrajectoryType::Rotate && types[4]
        == TrajectoryType::Forward);
}

} // verus!
