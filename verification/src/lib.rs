//! Editing core of a layered raster image editor.
//!
//! A document is a stack of image planes, each at an integer pixel offset.
//! The stack flattens into one RGBA raster, a rectangular selection extracts
//! part of that raster, and an undo history records the edits made to the
//! document so that they can be reversed and replayed.
//!
//! Every executable function carries a contract over the mathematical model
//! of its data; the pixel grid of a raster is modelled by [`raster::Grid`].

pub mod geometry;
pub mod raster;
pub mod plane;
pub mod text;
pub mod selection;
pub mod canvas;
pub mod edit;
pub mod history;
pub mod editor;
