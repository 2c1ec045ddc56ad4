//! The document: a named stack of planes with an optional selection.

use vstd::prelude::*;
use std::sync::Arc;
use crate::geometry::{Point, Vec2};
use crate::plane::{
    spec_can_move, spec_fits, spec_merged, spec_moved, spec_pushed, Plane, PlaneData, Planes,
};
use crate::raster::Raster;
use crate::selection::Selection;

verus! {

/// A document.
///
/// Its planes, flattened, always fit in memory: an operation that would
/// break this is refused and leaves the document as it was.
pub struct CanvasData {
    path: String,
    planes: Planes,
    selection: Option<Selection>,
}

/// What a document holds: its name, its planes from the bottom up, and its
/// selection.
pub struct CanvasView {
    pub path: Seq<char>,
    pub planes: Seq<PlaneData>,
    pub selection: Option<Selection>,
}

impl View for CanvasData {
    type V = CanvasView;

    closed spec fn view(&self) -> CanvasView {
        CanvasView { path: self.path@, planes: self.planes@, selection: self.selection }
    }
}

impl CanvasView {
    /// The document with `image` pasted: a new plane on top, at offset zero.
    pub open spec fn pasted(self, image: Arc<Raster>) -> CanvasView {
        CanvasView { planes: spec_pushed(self.planes, Plane::Image(image)), ..self }
    }

    /// The document with its topmost plane moved by `offset`.
    pub open spec fn moved(self, offset: Vec2) -> CanvasView {
        CanvasView { planes: spec_moved(self.planes, offset), ..self }
    }

    /// The document with another selection, or none.
    pub open spec fn selecting(self, selection: Option<Selection>) -> CanvasView {
        CanvasView { selection, ..self }
    }
}

impl CanvasData {
    #[verifier::type_invariant]
    spec fn inv(self) -> bool {
        spec_fits(self.planes@)
    }

    /// A document named `path` that shows `image` alone, at offset zero,
    /// with nothing selected.
    pub fn new(path: String, image: Raster) -> (canvas: CanvasData)
        ensures
            canvas@ == (CanvasView {
                path: path@,
                planes: spec_pushed(Seq::empty(), Plane::Image(Arc::new(image))),
                selection: None,
            }),
    {
        let size = image.size();
        let mut planes = Planes::new();
        let plane = Plane::from_raster(image);
        proof {
            let after = spec_pushed(Seq::empty(), plane);
            assert(after.drop_last() =~= Seq::<PlaneData>::empty());
            reveal_with_fuel(crate::plane::extent, 2);
        }
        planes.push(plane);
        CanvasData { path, planes, selection: None }
    }

    /// The name of the document, or the path of its file.
    pub fn path(&self) -> (path: &String)
        ensures
            path@ == self@.path,
    {
        &self.path
    }

    /// The planes of the document.
    pub fn planes(&self) -> (planes: &Planes)
        ensures
            planes@ == self@.planes,
            spec_fits(planes@),
    {
        proof {
            use_type_invariant(self);
        }
        &self.planes
    }

    /// What is selected, if anything.
    pub fn selection(&self) -> (selection: Option<Selection>)
        ensures
            selection == self@.selection,
    {
        self.selection
    }

    /// Selects `selection`, or nothing; the planes stay as they are.
    pub fn set_selection(&mut self, selection: Option<Selection>)
        ensures
            final(self)@ == old(self)@.selecting(selection),
    {
        proof {
            use_type_invariant(&*self);
        }
        self.selection = selection;
    }

    /// The planes flattened into one raster; `None` for a document of no
    /// planes. Nothing is cached: every call flattens anew.
    pub fn merged(&self) -> (image: Option<Arc<Raster>>)
        ensures
            image is Some <==> self@.planes.len() > 0,
            image matches Some(it) ==> it@ == spec_merged(self@.planes),
    {
        proof {
            use_type_invariant(self);
        }
        self.planes.merged()
    }

    /// Pastes `image` as a new plane on top, at offset zero. Refused, with
    /// the document left as it was, where the flattened document would no
    /// longer fit in memory.
    pub fn paste(&mut self, image: Arc<Raster>) -> (pasted: bool)
        ensures
            pasted == spec_fits(old(self)@.pasted(image).planes),
            pasted ==> final(self)@ == old(self)@.pasted(image),
            !pasted ==> final(self)@ == old(self)@,
    {
        let plane = Plane::Image(image);
        if !self.planes.pushed_fits(&plane) {
            return false;
        }
        let mut taken = CanvasData { path: String::new(), planes: Planes::new(), selection: None };
        core::mem::swap(self, &mut taken);
        let CanvasData { path, mut planes, selection } = taken;
        planes.push(plane);
        *self = CanvasData { path, planes, selection };
        true
    }

    /// Moves the topmost plane by `offset` and returns where its corner now
    /// is. Refused, with `None` and the document left as it was, where there
    /// is no plane, where the new offset cannot be held, or where the
    /// flattened document would no longer fit in memory.
    pub fn mov(&mut self, offset: Vec2) -> (at: Option<Point>)
        ensures
            at is Some <==> spec_can_move(old(self)@.planes, offset) && spec_fits(
                old(self)@.moved(offset).planes,
            ),
            at is Some ==> final(self)@ == old(self)@.moved(offset),
            at matches Some(point) ==> point == final(self)@.planes.last().transform.spec_to_point(),
            at is None ==> final(self)@ == old(self)@,
    {
        if !self.planes.moved_fits(offset) {
            return None;
        }
        let mut taken = CanvasData { path: String::new(), planes: Planes::new(), selection: None };
        core::mem::swap(self, &mut taken);
        let CanvasData { path, mut planes, selection } = taken;
        let at = planes.mov(offset);
        *self = CanvasData { path, planes, selection };
        at
    }

    /// A second document of the same name on the same buffers.
    pub fn duplicate(&self) -> (canvas: CanvasData)
        ensures
            canvas@ == self@,
    {
        proof {
            use_type_invariant(self);
        }
        CanvasData {
            path: self.path.clone(),
            planes: self.planes.duplicate(),
            selection: self.selection,
        }
    }

    /// Whether the two documents have the same name and selection and hold
    /// the same buffers in the same order. Offsets are not compared, and
    /// equal pixels in separate buffers do not count as the same.
    pub fn same(&self, other: &CanvasData) -> (same: bool)
        ensures
            same ==> {
                &&& self@.path == other@.path
                &&& self@.selection == other@.selection
                &&& self@.planes.len() == other@.planes.len()
                &&& forall|i: int|
                    0 <= i < self@.planes.len() ==> self@.planes[i].inner == other@.planes[i].inner
            },
            self@.planes.len() == 0 && other@.planes.len() == 0 ==> same == (self@.path
                == other@.path && self@.selection == other@.selection),
    {
        let planes_same = self.planes.same(&other.planes);
        self.same_when(other, planes_same)
    }

    /// Whether the two documents are the same, given whether their planes
    /// are: they are where the planes are and the names and the selections
    /// are equal.
    pub fn same_when(&self, other: &CanvasData, planes_same: bool) -> (same: bool)
        ensures
            same == (planes_same && self@.path == other@.path && self@.selection
                == other@.selection),
    {
        let selections = match (self.selection, other.selection) {
            (None, None) => true,
            (Some(a), Some(b)) => a == b,
            _ => false,
        };
        planes_same && selections && self.path == other.path
    }
}

} // verus!
