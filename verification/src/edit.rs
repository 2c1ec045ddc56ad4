//! Edits: the operations that change a document.

use vstd::prelude::*;
use vstd::string::*;
use std::sync::Arc;
use crate::canvas::{CanvasData, CanvasView};
use crate::geometry::Vec2;
use crate::plane::{share, spec_can_move, spec_fits};
use crate::raster::Raster;

verus! {

/// Whether an edit may be folded into the one before it.
#[derive(Clone, Copy, PartialEq, Eq, Debug, Structural)]
pub enum EditKind {
    /// A step of a gesture that is still going on.
    Mergeable,
    /// An edit that stands for itself.
    NonMergeable,
}

/// Pasting an image as a new plane on top of the document.
pub struct Paste {
    pub image: Arc<Raster>,
}

/// Moving the topmost plane of the document.
pub struct Move {
    pub delta: Vec2,
}

/// An operation on a document.
pub enum Edit {
    Paste(Paste),
    Move(Move),
}

impl Paste {
    pub fn new(image: Raster) -> (paste: Paste)
        ensures
            paste.image == Arc::new(image),
            paste.image@ == image@,
    {
        Paste { image: Arc::new(image) }
    }
}

impl Move {
    pub fn new(delta: Vec2) -> (mov: Move)
        ensures
            mov.delta == delta,
    {
        Move { delta }
    }
}

impl Edit {
    /// Whether the edit can be applied to `canvas`. A paste can where the
    /// flattened document still fits in memory with the new plane; a move
    /// can where there is a plane to move, its new offset can be held, and
    /// the flattened document still fits in memory.
    pub open spec fn applies(&self, canvas: CanvasView) -> bool {
        match self {
            Edit::Paste(paste) => spec_fits(canvas.pasted(paste.image).planes),
            Edit::Move(mov) => spec_can_move(canvas.planes, mov.delta) && spec_fits(
                canvas.moved(mov.delta).planes,
            ),
        }
    }

    /// The document after the edit; `canvas` itself where the edit cannot
    /// be applied.
    pub open spec fn applied_to(&self, canvas: CanvasView) -> CanvasView {
        if self.applies(canvas) {
            match self {
                Edit::Paste(paste) => canvas.pasted(paste.image),
                Edit::Move(mov) => canvas.moved(mov.delta),
            }
        } else {
            canvas
        }
    }

    /// Applies the edit to `canvas`, or leaves `canvas` as it is where the
    /// edit cannot be applied; says which.
    pub fn apply(&self, canvas: &mut CanvasData) -> (applied: bool)
        ensures
            applied == self.applies(old(canvas)@),
            final(canvas)@ == self.applied_to(old(canvas)@),
    {
        match self {
            Edit::Paste(paste) => canvas.paste(share(&paste.image)),
            Edit::Move(mov) => canvas.mov(mov.delta).is_some(),
        }
    }

    /// The name of the edit.
    pub open spec fn spec_description(&self) -> Seq<char> {
        match self {
            Edit::Paste(_) => "Paste"@,
            Edit::Move(_) => "Move"@,
        }
    }

    /// The name of the edit, for messages.
    pub fn description(&self) -> (text: String)
        ensures
            text@ == self.spec_description(),
    {
        match self {
            Edit::Paste(_) => String::from_str("Paste"),
            Edit::Move(_) => String::from_str("Move"),
        }
    }

    /// Whether `next` continues the gesture of this edit: both are of one
    /// family.
    pub open spec fn spec_mergeable_with(&self, next: &Edit) -> bool {
        match (self, next) {
            (Edit::Paste(_), Edit::Paste(_)) => true,
            (Edit::Move(_), Edit::Move(_)) => true,
            _ => false,
        }
    }

    #[verifier::when_used_as_spec(spec_mergeable_with)]
    pub fn mergeable_with(&self, next: &Edit) -> (b: bool)
        ensures
            b == self.spec_mergeable_with(next),
    {
        match (self, next) {
            (Edit::Paste(_), Edit::Paste(_)) => true,
            (Edit::Move(_), Edit::Move(_)) => true,
            _ => false,
        }
    }
}

} // verus!
