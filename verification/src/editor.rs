//! One editing session: the document, if there is one, and its history.

use vstd::prelude::*;
use vstd::string::*;
use std::sync::Arc;
use crate::canvas::{CanvasData, CanvasView};
use crate::edit::{Edit, EditKind, Paste};
use crate::history::{HistoryView, UndoHistory};
use crate::plane::{spec_merged, spec_pushed, Plane};
use crate::raster::{Grid, Raster, Rgba};
use crate::selection::CopyMode;

verus! {

/// Why an action of the session came to nothing.
#[derive(Clone, Copy, PartialEq, Eq, Debug, Structural)]
pub enum EditorError {
    /// The clipboard holds nothing, or no image.
    ClipboardEmpty,
    /// There is no document, or nothing in it.
    NoImage,
}

/// An editing session.
pub struct EditorState {
    pub canvas: Option<CanvasData>,
    pub history: UndoHistory,
}

/// The name of a document that has no file yet.
pub open spec fn spec_new_file_name() -> Seq<char> {
    "Untitled"@
}

/// The document that shows `image` alone under the given name.
pub open spec fn fresh_canvas(name: Seq<char>, image: Raster) -> CanvasView {
    CanvasView {
        path: name,
        planes: spec_pushed(Seq::empty(), Plane::Image(Arc::new(image))),
        selection: None,
    }
}

impl EditorError {
    /// What to tell the user.
    pub open spec fn spec_message(&self) -> Seq<char> {
        match self {
            EditorError::ClipboardEmpty => "Clipboard is empty / non-image"@,
            EditorError::NoImage => "No image was found."@,
        }
    }

    pub fn message(&self) -> (text: String)
        ensures
            text@ == self.spec_message(),
    {
        match self {
            EditorError::ClipboardEmpty => String::from_str("Clipboard is empty / non-image"),
            EditorError::NoImage => String::from_str("No image was found."),
        }
    }
}

impl EditorState {
    /// What the document holds, if there is one.
    pub open spec fn canvas_view(&self) -> Option<CanvasView> {
        match self.canvas {
            Some(canvas) => Some(canvas@),
            None => None,
        }
    }

    /// A session without a document and with an empty history.
    pub fn new() -> (editor: EditorState)
        ensures
            editor.canvas is None,
            editor.history@ == (HistoryView { done: Seq::empty(), undone: Seq::empty() }),
    {
        EditorState { canvas: None, history: UndoHistory::new() }
    }

    /// Applies `edit` to the document and records it; says whether it was
    /// applied. Without a document nothing happens.
    pub fn do_edit(&mut self, edit: Edit, kind: EditKind) -> (applied: bool)
        ensures
            old(self).canvas is None ==> !applied && final(self).canvas is None && final(self).history@ == old(self).history@,
            old(self).canvas matches Some(canvas) ==> {
                &&& applied == edit.applies(canvas@)
                &&& final(self).canvas is Some
                &&& (final(self).history@, final(self).canvas->0@) == old(self).history@.spec_do_edit(canvas@, edit, kind)
            },
    {
        match self.canvas.take() {
            None => false,
            Some(mut canvas) => {
                let applied = self.history.do_edit(&mut canvas, edit, kind);
                self.canvas = Some(canvas);
                applied
            },
        }
    }

    /// Takes back the last edit and returns its description. Without a
    /// document, or with nothing to take back, nothing happens.
    pub fn do_undo(&mut self) -> (description: Option<String>)
        ensures
            old(self).canvas is None ==> description is None && final(self).canvas is None && final(self).history@ == old(self).history@,
            old(self).canvas matches Some(canvas) ==> {
                &&& final(self).canvas is Some
                &&& (final(self).history@, final(self).canvas->0@) == old(self).history@.spec_do_undo(canvas@)
                &&& description is Some <==> old(self).history@.done.len() > 0
                &&& description matches Some(text) ==> text@ == old(self).history@.done.last().edit.spec_description()
            },
    {
        match self.canvas.take() {
            None => None,
            Some(mut canvas) => {
                let description = self.history.do_undo(&mut canvas);
                self.canvas = Some(canvas);
                description
            },
        }
    }

    /// Makes the last edit that was taken back again and returns its
    /// description. Without a document, or with nothing to make again,
    /// nothing happens.
    pub fn do_redo(&mut self) -> (description: Option<String>)
        ensures
            old(self).canvas is None ==> description is None && final(self).canvas is None && final(self).history@ == old(self).history@,
            old(self).canvas matches Some(canvas) ==> {
                &&& final(self).canvas is Some
                &&& (final(self).history@, final(self).canvas->0@) == old(self).history@.spec_do_redo(canvas@)
                &&& description is Some <==> old(self).history@.undone.len() > 0
                &&& description matches Some(text) ==> text@ == old(self).history@.undone.last().edit.spec_description()
            },
    {
        match self.canvas.take() {
            None => None,
            Some(mut canvas) => {
                let description = self.history.do_redo(&mut canvas);
                self.canvas = Some(canvas);
                description
            },
        }
    }

    /// Makes `image`, read from the file at `path`, the document. The
    /// history stays as it is.
    pub fn do_open_image(&mut self, path: String, image: Raster)
        ensures
            final(self).canvas_view() == Some(fresh_canvas(path@, image)),
            final(self).history@ == old(self).history@,
    {
        self.canvas = Some(CanvasData::new(path, image));
    }

    /// Makes what the clipboard held the document, under the name of a new
    /// file; fails, and changes nothing, where the clipboard held no image.
    pub fn do_new_image_from_clipboard(&mut self, clipboard: Option<Raster>) -> (done: Result<
        (),
        EditorError,
    >)
        ensures
            final(self).history@ == old(self).history@,
            clipboard is None ==> done == Err::<(), EditorError>(EditorError::ClipboardEmpty)
                && final(self).canvas_view() == old(self).canvas_view(),
            clipboard matches Some(image) ==> done is Ok && final(self).canvas_view() == Some(
                fresh_canvas(spec_new_file_name(), image),
            ),
    {
        match clipboard {
            None => Err(EditorError::ClipboardEmpty),
            Some(image) => {
                self.canvas = Some(CanvasData::new(String::from_str("Untitled"), image));
                Ok(())
            },
        }
    }

    /// Makes an opaque white image of the given size the document, under
    /// the name of a new file. The history stays as it is.
    pub fn do_new_image(&mut self, width: u32, height: u32)
        requires
            Raster::spec_fits(width as u64, height as u64),
        ensures
            final(self).history@ == old(self).history@,
            final(self).canvas matches Some(canvas) && canvas@.path == spec_new_file_name()
                && canvas@.selection is None && canvas@.planes.len() == 1
                && canvas@.planes[0].transform == crate::geometry::Vec2::spec_zero()
                && canvas@.planes[0].grid() == Grid::filled(
                width as nat,
                height as nat,
                Rgba::spec_white(),
            ),
    {
        let image = Raster::filled(width, height, Rgba::white());
        self.canvas = Some(CanvasData::new(String::from_str("Untitled"), image));
    }

    /// What `do_copy` extracts: the tight box of what shows in the selected
    /// part of the flattened document; nothing without a document, without
    /// a selection, or where nothing shows in the selection.
    pub open spec fn spec_do_copy(&self) -> Option<Grid> {
        match self.canvas_view() {
            None => None,
            Some(canvas) => match canvas.selection {
                None => None,
                Some(selection) => if canvas.planes.len() == 0 {
                    None
                } else {
                    selection.spec_copy(spec_merged(canvas.planes), CopyMode::Shrink)
                },
            },
        }
    }

    /// Extracts what is selected from the flattened document, for the
    /// clipboard. The session stays as it is.
    pub fn do_copy(&self) -> (image: Option<Raster>)
        ensures
            image is Some <==> self.spec_do_copy() is Some,
            image matches Some(it) ==> Some(it@) == self.spec_do_copy(),
    {
        match &self.canvas {
            None => None,
            Some(canvas) => match canvas.selection() {
                None => None,
                Some(selection) => match canvas.merged() {
                    None => None,
                    Some(merged) => selection.copy(&merged, CopyMode::Shrink),
                },
            },
        }
    }

    /// Pastes what the clipboard held as an edit of its own, and says
    /// whether anything was pasted. Where the clipboard held no image
    /// nothing happens.
    pub fn do_paste(&mut self, clipboard: Option<Raster>) -> (pasted: bool)
        ensures
            clipboard is None || old(self).canvas is None ==> !pasted && final(self).canvas_view()
                == old(self).canvas_view() && final(self).history@ == old(self).history@,
            clipboard matches Some(image) ==> (old(self).canvas matches Some(canvas) ==> {
                let edit = Edit::Paste(Paste { image: Arc::new(image) });
                &&& pasted == edit.applies(canvas@)
                &&& final(self).canvas is Some
                &&& (final(self).history@, final(self).canvas->0@) == old(self).history@.spec_do_edit(canvas@, edit, EditKind::NonMergeable)
            }),
    {
        match clipboard {
            None => false,
            Some(image) => self.do_edit(Edit::Paste(Paste::new(image)), EditKind::NonMergeable),
        }
    }

    /// The flattened document, for writing it to a file; fails where there
    /// is no document or nothing in it.
    pub fn image_to_save(&self) -> (image: Result<Arc<Raster>, EditorError>)
        ensures
            image is Ok <==> (self.canvas_view() matches Some(canvas) && canvas.planes.len() > 0),
            image matches Ok(it) ==> it@ == spec_merged(self.canvas_view()->0.planes),
            image matches Err(error) ==> error == EditorError::NoImage,
    {
        match &self.canvas {
            None => Err(EditorError::NoImage),
            Some(canvas) => match canvas.merged() {
                None => Err(EditorError::NoImage),
                Some(merged) => Ok(merged),
            },
        }
    }

    /// The name of the document, or that of a new file where there is none.
    pub fn image_file_name(&self) -> (name: String)
        ensures
            name@ == (match self.canvas_view() {
                None => spec_new_file_name(),
                Some(canvas) => canvas.path,
            }),
    {
        match &self.canvas {
            None => String::from_str("Untitled"),
            Some(canvas) => canvas.path().clone(),
        }
    }

    /// The description of what is selected; `None` without a document or
    /// without a selection.
    pub fn status(&self) -> (text: Option<String>)
        ensures
            text is Some <==> (self.canvas_view() matches Some(canvas) && canvas.selection is Some),
            text matches Some(line) ==> line@ == self.canvas_view()->0.selection->0.spec_description(),
    {
        match &self.canvas {
            None => None,
            Some(canvas) => match canvas.selection() {
                None => None,
                Some(selection) => Some(selection.description()),
            },
        }
    }
}

} // verus!
