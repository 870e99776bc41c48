//! The editing core of a glyph canvas: a spatial index over the control
//! points of an outline, the registry that keeps it in step with the
//! outline, the hit test that says what is under the pointer, and the mouse
//! tool that turns pointer events into edits. Every function is verified
//! against the contract it carries.

/// The editing state of one glyph: outline, registry, index, selection.
pub mod glyph_state;
/// What is under the pointer.
pub mod hit_test;
/// What the canvas draws for each control point.
pub mod layers;
/// Outlines as plain data, and what makes one fit to be registered.
pub mod outline;
/// What moving points does to an outline and to an index.
pub mod placement;
/// Points and identifiers, distances and rectangles.
pub mod points;
/// The spatial index: a two-dimensional k-d tree.
pub mod range_query;
/// The selection and the three ways a gesture changes it.
pub mod selection;
/// The tools of the canvas.
pub mod tools;
/// The options of the Glyphs importer.
pub mod ufo;
/// Colours and property windows.
pub mod utils;
