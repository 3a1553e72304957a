//! Actor resources (`.actor`): sprite frames, animations and metadata.
use vstd::prelude::*;

use crate::text::strings_equal;

verus! {

/// One frame of a sprite sheet.
#[derive(Debug, Clone, Copy, PartialEq, Eq, Structural)]
pub struct SpriteFrame {
    /// Frame index.
    pub index: u32,
    /// X offset in the sprite sheet.
    pub x: u32,
    /// Y offset in the sprite sheet.
    pub y: u32,
    /// Frame width.
    pub width: u32,
    /// Frame height.
    pub height: u32,
}

/// An animation sequence.
#[derive(Debug)]
pub struct Animation {
    /// Animation name.
    pub name: String,
    /// Frame indices in sequence.
    pub frames: Vec<u32>,
    /// Frame duration in milliseconds.
    pub frame_duration: u32,
    /// Whether the animation loops.
    pub looped: bool,
}

/// Actor metadata.
#[derive(Debug)]
pub struct ActorMetadata {
    /// Actor type or class.
    pub actor_type: Option<String>,
    /// Collision box width.
    pub collision_width: Option<u32>,
    /// Collision box height.
    pub collision_height: Option<u32>,
}

impl Default for ActorMetadata {
    fn default() -> (res: Self)
        ensures
            res.actor_type is None,
            res.collision_width is None,
            res.collision_height is None,
    {
        ActorMetadata { actor_type: None, collision_width: None, collision_height: None }
    }
}

/// Why an actor resource was refused.
#[derive(Debug, Clone, Copy, PartialEq, Eq, Structural)]
pub enum ActorError {
    /// The data is not an actor stream.
    Malformed,
}

/// A parsed actor.
#[derive(Debug)]
pub struct Actor {
    /// Primary sprite sheet reference.
    pub sprite_sheet_ref: Option<String>,
    /// Sprite frames.
    pub frames: Vec<SpriteFrame>,
    /// Animations.
    pub animations: Vec<Animation>,
    /// Actor metadata.
    pub metadata: ActorMetadata,
    /// The raw actor data.
    pub raw_data: Vec<u8>,
}

impl Actor {
    /// Parse an actor resource. The stream layout is not decoded: every
    /// input yields an actor with no frames, animations or metadata that
    /// keeps the raw data.
    pub fn parse(data: &[u8]) -> (res: Result<Self, ActorError>)
        ensures
            res matches Ok(a) && a.sprite_sheet_ref is None && a.frames@.len() == 0 && a.animations@.len() == 0
                && a.metadata.actor_type is None && a.metadata.collision_width is None
                && a.metadata.collision_height is None && a.raw_data@ == data@,
    {
        Ok(Actor {
            sprite_sheet_ref: None,
            frames: Vec::new(),
            animations: Vec::new(),
            metadata: ActorMetadata::default(),
            raw_data: vstd::slice::slice_to_vec(data),
        })
    }

    /// Number of sprite frames.
    pub fn frame_count(&self) -> (res: usize)
        ensures
            res == self.frames@.len(),
    {
        self.frames.len()
    }

    /// Number of animations.
    pub fn animation_count(&self) -> (res: usize)
        ensures
            res == self.animations@.len(),
    {
        self.animations.len()
    }

    /// The first animation with the given name.
    pub fn find_animation(&self, name: &str) -> (res: Option<&Animation>)
        ensures
            match res {
                Some(a) => exists|i: int|
                    0 <= i < self.animations@.len() && self.animations@[i].name@ == name@ && *a == self.animations@[i]
                        && forall|j: int| 0 <= j < i ==> #[trigger] self.animations@[j].name@ != name@,
                None => forall|i: int| 0 <= i < self.animations@.len() ==> #[trigger] self.animations@[i].name@ != name@,
            },
    {
        let mut i: usize = 0;
        while i < self.animations.len()
            invariant
                i <= self.animations@.len(),
                forall|j: int| 0 <= j < i ==> #[trigger] self.animations@[j].name@ != name@,
            decreases self.animations@.len() - i,
        {
            if strings_equal(self.animations[i].name.as_str(), name) {
                return Some(&self.animations[i]);
            }
            i = i + 1;
        }
        None
    }
}

} // verus!
